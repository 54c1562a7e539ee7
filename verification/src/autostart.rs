//! Start on login: which way the system registration is brought in line with the
//! settings, how the Windows "startup approved" state reads, and the launcher files
//! written on Linux and macOS.
use vstd::prelude::*;

use crate::settings::{AppSettings, SettingsView};
use crate::text::{push_str, to_string};

pub use crate::paths::{linux_autostart_file, macos_launch_agent_file};

verus! {

/// The registry value and file names under which the program registers itself.
pub const AUTOSTART_VALUE_NAME: &'static str = "vocoflow";

/// What to do to the system registration.
#[derive(Debug, Clone, Copy, PartialEq, Eq, Structural)]
pub enum AutostartAction {
    Enable,
    Disable,
}

/// The registration follows the `start_on_login` setting.
pub fn sync_from_settings(settings: &AppSettings) -> (a: AutostartAction)
    ensures
        a == if settings.start_on_login {
            AutostartAction::Enable
        } else {
            AutostartAction::Disable
        },
{
    if settings.start_on_login {
        AutostartAction::Enable
    } else {
        AutostartAction::Disable
    }
}

/// The settings after taking the system's registration state: `start_on_login` set to
/// it, everything else kept; and whether that changed anything.
pub fn sync_settings_from_system(settings: &AppSettings, system_enabled: bool) -> (r: (
    AppSettings,
    bool,
))
    ensures
        r.0@ == (SettingsView { start_on_login: system_enabled, ..settings@ }),
        r.1 == (settings.start_on_login != system_enabled),
{
    let mut next = settings.duplicate();
    next.start_on_login = system_enabled;
    (next, settings.start_on_login != system_enabled)
}

/// The first byte of a "startup approved" value flags the entry as disabled when it is
/// 3 or 7; a missing or empty value leaves it enabled.
pub open spec fn spec_windows_autostart_enabled(run_entry_present: bool, approved_state: Option<Seq<u8>>) -> bool {
    if !run_entry_present {
        false
    } else {
        match approved_state {
            None => true,
            Some(bytes) => {
                let flag = if bytes.len() > 0 {
                    bytes[0]
                } else {
                    0
                };
                !(flag == 3 || flag == 7)
            },
        }
    }
}

/// Whether Windows starts the program on login: it must be registered under `Run`, and
/// not flagged as disabled under `StartupApproved\Run`.
pub fn windows_autostart_enabled(run_entry_present: bool, approved_state: Option<&[u8]>) -> (r: bool)
    ensures
        r == spec_windows_autostart_enabled(run_entry_present, match approved_state {
            Some(b) => Some(b@),
            None => None,
        }),
{
    if !run_entry_present {
        return false;
    }
    match approved_state {
        None => true,
        Some(bytes) => {
            let flag: u8 = if bytes.len() > 0 {
                bytes[0]
            } else {
                0
            };
            !(flag == 3 || flag == 7)
        },
    }
}

/// The value that flags the entry as disabled: 3 followed by eleven zero bytes.
pub fn startup_approved_disabled_value() -> (r: Vec<u8>)
    ensures
        r@.len() == 12,
        r@[0] == 3,
        forall|i: int| 1 <= i < 12 ==> r@[i] == 0,
{
    let mut r: Vec<u8> = Vec::new();
    r.push(3);
    let mut i: usize = 1;
    while i < 12
        invariant
            1 <= i <= 12,
            r@.len() == i,
            r@[0] == 3,
            forall|k: int| 1 <= k < i ==> r@[k] == 0,
        decreases 12 - i,
    {
        r.push(0);
        i += 1;
    }
    r
}

/// The XDG autostart entry that runs the executable on login.
pub open spec fn spec_linux_autostart_entry(exe: Seq<char>) -> Seq<char> {
    "[Desktop Entry]\nType=Application\nName=vocoflow\nExec="@ + exe
        + "\nTerminal=false\nX-GNOME-Autostart-enabled=true\n"@
}

/// The XDG autostart entry for an executable path.
pub fn linux_autostart_entry(exe: &str) -> (r: String)
    ensures
        r@ == spec_linux_autostart_entry(exe@),
{
    let mut v: Vec<char> = Vec::new();
    push_str(&mut v, "[Desktop Entry]\nType=Application\nName=vocoflow\nExec=");
    push_str(&mut v, exe);
    push_str(&mut v, "\nTerminal=false\nX-GNOME-Autostart-enabled=true\n");
    to_string(&v)
}

/// The launch agent that runs the executable in the background on login.
pub open spec fn spec_macos_launch_agent(exe: Seq<char>) -> Seq<char> {
    "<?xml version=\"1.0\" encoding=\"UTF-8\"?>\n<!DOCTYPE plist PUBLIC \"-//Apple//DTD PLIST 1.0//EN\" \"http://www.apple.com/DTDs/PropertyList-1.0.dtd\">\n<plist version=\"1.0\">\n<dict>\n  <key>Label</key>\n  <string>com.vocoflow.vocoflow</string>\n  <key>ProgramArguments</key>\n  <array>\n    <string>"@
        + exe
        + "</string>\n  </array>\n  <key>ProcessType</key>\n  <string>Background</string>\n  <key>LSBackgroundOnly</key>\n  <true/>\n  <key>RunAtLoad</key>\n  <true/>\n</dict>\n</plist>\n"@
}

/// The launch agent for an executable path.
pub fn macos_launch_agent(exe: &str) -> (r: String)
    ensures
        r@ == spec_macos_launch_agent(exe@),
{
    let mut v: Vec<char> = Vec::new();
    push_str(
        &mut v,
        "<?xml version=\"1.0\" encoding=\"UTF-8\"?>\n<!DOCTYPE plist PUBLIC \"-//Apple//DTD PLIST 1.0//EN\" \"http://www.apple.com/DTDs/PropertyList-1.0.dtd\">\n<plist version=\"1.0\">\n<dict>\n  <key>Label</key>\n  <string>com.vocoflow.vocoflow</string>\n  <key>ProgramArguments</key>\n  <array>\n    <string>",
    );
    push_str(&mut v, exe);
    push_str(
        &mut v,
        "</string>\n  </array>\n  <key>ProcessType</key>\n  <string>Background</string>\n  <key>LSBackgroundOnly</key>\n  <true/>\n  <key>RunAtLoad</key>\n  <true/>\n</dict>\n</plist>\n",
    );
    to_string(&v)
}

/// What is done to the Windows "startup approved" value.
#[derive(Debug, Clone, Copy, PartialEq, Eq, Structural)]
pub enum ApprovedStateChange {
    /// The value is deleted, which leaves the entry enabled.
    Clear,
    /// The value is set to `startup_approved_disabled_value`.
    SetDisabled,
}

/// How Windows is brought in line with an action: only when the program is registered
/// under `Run`, which the installer does; enabling clears the "startup approved" value
/// and disabling flags it as disabled.
pub fn windows_autostart_change(action: AutostartAction, run_entry_present: bool) -> (r: Result<
    ApprovedStateChange,
    String,
>)
    ensures
        match r {
            Ok(c) => run_entry_present && c == (if action == AutostartAction::Enable {
                ApprovedStateChange::Clear
            } else {
                ApprovedStateChange::SetDisabled
            }),
            Err(e) => !run_entry_present
                && e@ == "Windows autostart registration is missing. Please reinstall Vocoflow to repair the startup entry."@,
        },
{
    if !run_entry_present {
        return Err(
            crate::text::string_from(
                "Windows autostart registration is missing. Please reinstall Vocoflow to repair the startup entry.",
            ),
        );
    }
    match action {
        AutostartAction::Enable => Ok(ApprovedStateChange::Clear),
        AutostartAction::Disable => Ok(ApprovedStateChange::SetDisabled),
    }
}

/// Law: the launch agent asks launchd to run the program when it is loaded, that is at
/// login: whatever the executable's path, the agent holds the key `RunAtLoad` set to
/// true.
pub proof fn law_launch_agent_runs_at_load(exe: Seq<char>)
    ensures
        crate::bridge::contains(spec_macos_launch_agent(exe), "<key>RunAtLoad</key>\n  <true/>"@),
{
    let head = "<?xml version=\"1.0\" encoding=\"UTF-8\"?>\n<!DOCTYPE plist PUBLIC \"-//Apple//DTD PLIST 1.0//EN\" \"http://www.apple.com/DTDs/PropertyList-1.0.dtd\">\n<plist version=\"1.0\">\n<dict>\n  <key>Label</key>\n  <string>com.vocoflow.vocoflow</string>\n  <key>ProgramArguments</key>\n  <array>\n    <string>"@;
    let tail = "</string>\n  </array>\n  <key>ProcessType</key>\n  <string>Background</string>\n  <key>LSBackgroundOnly</key>\n  <true/>\n  <key>RunAtLoad</key>\n  <true/>\n</dict>\n</plist>\n"@;
    let key = "<key>RunAtLoad</key>\n  <true/>"@;
    reveal_strlit("</string>\n  </array>\n  <key>ProcessType</key>\n  <string>Background</string>\n  <key>LSBackgroundOnly</key>\n  <true/>\n  <key>RunAtLoad</key>\n  <true/>\n</dict>\n</plist>\n");
    reveal_strlit("<key>RunAtLoad</key>\n  <true/>");
    let a = spec_macos_launch_agent(exe);
    assert(a == head + exe + tail);
    let k: int = (head.len() + exe.len() + 118) as int;
    assert(tail.subrange(118, 148) =~= key);
    assert(a.subrange(k, k + key.len()) =~= tail.subrange(118, 148));
    crate::text::lemma_find_from_finds(a, key, 0, k);
}

/// Law: the launch agent switches nothing off. When the executable's path itself holds no
/// `<false/>`, neither does the agent: every boolean key it sets is true.
pub proof fn law_launch_agent_has_no_false(exe: Seq<char>)
    requires
        !crate::bridge::contains(exe, "<false/>"@),
    ensures
        !crate::bridge::contains(spec_macos_launch_agent(exe), "<false/>"@),
{
    let head = "<?xml version=\"1.0\" encoding=\"UTF-8\"?>\n<!DOCTYPE plist PUBLIC \"-//Apple//DTD PLIST 1.0//EN\" \"http://www.apple.com/DTDs/PropertyList-1.0.dtd\">\n<plist version=\"1.0\">\n<dict>\n  <key>Label</key>\n  <string>com.vocoflow.vocoflow</string>\n  <key>ProgramArguments</key>\n  <array>\n    <string>"@;
    let tail = "</string>\n  </array>\n  <key>ProcessType</key>\n  <string>Background</string>\n  <key>LSBackgroundOnly</key>\n  <true/>\n  <key>RunAtLoad</key>\n  <true/>\n</dict>\n</plist>\n"@;
    let f = "<false/>"@;
    reveal_strlit("<?xml version=\"1.0\" encoding=\"UTF-8\"?>\n<!DOCTYPE plist PUBLIC \"-//Apple//DTD PLIST 1.0//EN\" \"http://www.apple.com/DTDs/PropertyList-1.0.dtd\">\n<plist version=\"1.0\">\n<dict>\n  <key>Label</key>\n  <string>com.vocoflow.vocoflow</string>\n  <key>ProgramArguments</key>\n  <array>\n    <string>");
    reveal_strlit("</string>\n  </array>\n  <key>ProcessType</key>\n  <string>Background</string>\n  <key>LSBackgroundOnly</key>\n  <true/>\n  <key>RunAtLoad</key>\n  <true/>\n</dict>\n</plist>\n");
    reveal_strlit("<false/>");
    let a = spec_macos_launch_agent(exe);
    assert(a == head + exe + tail);
    crate::text::lemma_find_from_bounds_text(a, f, 0);
    if crate::bridge::contains(a, f) {
        let k = crate::text::find_from(a, f, 0)->Some_0;
        let hl = head.len() as int;
        let el = exe.len() as int;
        assert(a.subrange(k, k + 8) == f);
        assert(a[k] == a.subrange(k, k + 8)[0]);
        assert(a[k + 1] == a.subrange(k, k + 8)[1]);
        if k + 1 < hl {
            assert(forall|i: int| 0 <= i < head.len() - 1 ==> !(#[trigger] head[i] == '<' && head[i + 1] == 'f'));
            assert(a[k] == head[k]);
            assert(a[k + 1] == head[k + 1]);
        } else if k + 1 >= hl + el {
            assert(forall|i: int| 0 <= i < tail.len() ==> #[trigger] tail[i] != 'f');
            assert(a[k + 1] == tail[k + 1 - hl - el]);
        } else if k == hl - 1 {
            assert(a[k] == head[hl - 1]);
        } else if k + 8 <= hl + el {
            assert(exe.subrange(k - hl, k - hl + 8) =~= a.subrange(k, k + 8));
            crate::text::lemma_find_from_finds(exe, f, 0, k - hl);
        } else {
            let j = hl + el;
            assert(a[j] == tail[0]);
            assert(a[j] == a.subrange(k, k + 8)[j - k]);
        }
    }
}

} // verus!
