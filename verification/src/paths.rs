//! Where the program keeps its files, relative to a base directory. Paths are joined
//! as `Path::join` joins a relative name: with the platform's separator `sep`, and no
//! second separator when the base already ends with one (`/`, or `sep`).
use vstd::prelude::*;

use crate::text::{chars_of, push_str, to_string};

verus! {

/// The character ends a path component: `/`, or the platform's separator.
pub open spec fn is_separator(c: char, sep: char) -> bool {
    c == '/' || c == sep
}

/// `base` joined with the relative name `rest`: `rest` alone after an empty base, `rest`
/// right after a base that ends with a separator, and otherwise `base`, `sep`, `rest`.
pub open spec fn under(base: Seq<char>, rest: Seq<char>, sep: char) -> Seq<char> {
    if base.len() == 0 {
        rest
    } else if is_separator(base.last(), sep) {
        base + rest
    } else {
        base + seq![sep] + rest
    }
}

fn join(base: &str, rest: &str, sep: char) -> (r: String)
    ensures
        r@ == under(base@, rest@, sep),
{
    let b = chars_of(base);
    if b.len() == 0 {
        return crate::text::string_from(rest);
    }
    let last = b[b.len() - 1];
    let mut v: Vec<char> = Vec::new();
    push_str(&mut v, base);
    if !(last == '/' || last == sep) {
        v.push(sep);
    }
    push_str(&mut v, rest);
    to_string(&v)
}

/// The settings file, next to the `logs` directory.
pub fn settings_path(data_dir: &str, sep: char) -> (r: String)
    ensures
        r@ == under(data_dir@, "settings.json"@, sep),
{
    join(data_dir, "settings.json", sep)
}

/// The directory of the logs.
pub fn logs_dir(data_dir: &str, sep: char) -> (r: String)
    ensures
        r@ == under(data_dir@, "logs"@, sep),
{
    join(data_dir, "logs", sep)
}

/// The directory of the trace files, inside the logs directory.
pub fn traces_dir(data_dir: &str, sep: char) -> (r: String)
    ensures
        r@ == under(under(data_dir@, "logs"@, sep), "traces"@, sep),
{
    let logs = logs_dir(data_dir, sep);
    join(logs.as_str(), "traces", sep)
}

/// The application log.
pub fn app_log_path(data_dir: &str, sep: char) -> (r: String)
    ensures
        r@ == under(under(data_dir@, "logs"@, sep), "application.log"@, sep),
{
    let logs = logs_dir(data_dir, sep);
    join(logs.as_str(), "application.log", sep)
}

/// The directory that holds the speech model.
pub fn model_dir_path(data_dir: &str, sep: char) -> (r: String)
    ensures
        r@ == under(under(data_dir@, "models"@, sep), crate::model::MODEL_DIR_NAME@, sep),
{
    let models = join(data_dir, "models", sep);
    join(models.as_str(), crate::model::MODEL_DIR_NAME, sep)
}

/// The file that marks a completed model download.
pub fn model_success_flag_path(data_dir: &str, sep: char) -> (r: String)
    ensures
        r@ == under(
            under(under(data_dir@, "models"@, sep), crate::model::MODEL_DIR_NAME@, sep),
            crate::model::MODEL_SUCCESS_FLAG@,
            sep,
        ),
{
    let dir = model_dir_path(data_dir, sep);
    join(dir.as_str(), crate::model::MODEL_SUCCESS_FLAG, sep)
}

/// The finished recording that is transcribed.
pub fn recording_output_path(data_dir: &str, sep: char) -> (r: String)
    ensures
        r@ == under(under(under(data_dir@, "run"@, sep), "audio"@, sep), "recording.wav"@, sep),
{
    let run = join(data_dir, "run", sep);
    let audio = join(run.as_str(), "audio", sep);
    join(audio.as_str(), "recording.wav", sep)
}

/// The XDG autostart entry, under the home directory.
pub fn linux_autostart_file(home: &str, sep: char) -> (r: String)
    ensures
        r@ == under(under(under(home@, ".config"@, sep), "autostart"@, sep), "vocoflow.desktop"@, sep),
{
    let config = join(home, ".config", sep);
    let autostart = join(config.as_str(), "autostart", sep);
    join(autostart.as_str(), "vocoflow.desktop", sep)
}

/// The launch agent, under the home directory.
pub fn macos_launch_agent_file(home: &str, sep: char) -> (r: String)
    ensures
        r@ == under(under(under(home@, "Library"@, sep), "LaunchAgents"@, sep), "com.vocoflow.vocoflow.plist"@, sep),
{
    let library = join(home, "Library", sep);
    let agents = join(library.as_str(), "LaunchAgents", sep);
    join(agents.as_str(), "com.vocoflow.vocoflow.plist", sep)
}

} // verus!
