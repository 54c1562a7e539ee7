//! The persisted settings: their shape, their defaults, and the in-memory copy that the
//! program refreshes from disk.
use vstd::prelude::*;

pub use crate::paths::settings_path;
use crate::text::string_from;
use crate::transcript::strings_view;

verus! {

/// The LLM endpoint that a fresh install points at.
pub const DEFAULT_LLM_BASE_URL: &'static str = "http://localhost:11434/v1";

/// No model is chosen on a fresh install.
pub const DEFAULT_LLM_MODEL_NAME: &'static str = "";

/// The prompt that asks the model to rewrite a transcript.
pub const DEFAULT_LLM_CUSTOM_PROMPT: &'static str = "Rewrite the transcript according to the requested reformatting level and active application context while preserving user intent. Return only the final transcript text.";

/// The system prompt that explains the reformatting levels to the model.
pub const DEFAULT_LLM_SYSTEM_PROMPT: &'static str = "
You are a transcript post-processor.

You will receive:
- application context (window title, app name, app description)
- reformatting level: one of none|minimal|normal|freeform
- raw transcript text

Behavior by reformatting level:
- none: return transcript unchanged (this mode generally bypasses model calls)
- minimal: make the smallest possible edits (punctuation, casing, minor wording clarity, light emoji addition if needed)
- normal: improve readability and fit app context while preserving original meaning and intent via change of capatilization, fixing grammatical mistakes.
- freeform: produce the most context-appropriate polished output for the app context (e.g., a well-toned email draft). Here you are allowed to change the original statement.

Output requirements:
- Return only the final rewritten transcript as plain text.
- Do not return JSON, YAML, XML, markdown code fences, labels, or commentary.
- Do not prepend explanations like \"Here is the rewritten text\".
- Keep the output to a single clean transcript body that can be pasted directly.

Bad output examples (never do this):
- \"Okay, here's the fixed version...\"
- \"**Hi Barty, how are you?**\\n\\n**Changes made:** ...\"
- \"Rewritten transcript: Hi Barty, how are you?\"

Good output example:
- \"Hi Barty, how are you?\"
";

/// How much the LLM may rewrite a transcript.
#[derive(Debug, Clone, Copy, PartialEq, Eq, Structural)]
pub enum TranscriptReformattingLevel {
    Disabled,
    Minimal,
    Normal,
    Freeform,
}

#[derive(Debug, Clone, Copy, PartialEq, Eq, Structural)]
pub struct LoggingSettings {
    pub app_log_max_lines: usize,
    pub trace_file_limit: usize,
    pub enable_debug_logs: bool,
}

#[derive(Debug)]
pub struct TranscriptionSettings {
    pub built_in_dictionary: Vec<String>,
    pub user_dictionary: Vec<String>,
    pub model_cache_ttl_secs: u64,
    pub transcript_reformatting_level: TranscriptReformattingLevel,
    pub llm_api_key: Option<String>,
    pub llm_base_url: String,
    pub llm_model_name: String,
    pub llm_custom_prompt: String,
    pub llm_system_prompt: String,
}

#[derive(Debug)]
pub struct AppSettings {
    pub logging: LoggingSettings,
    pub transcription: TranscriptionSettings,
    pub start_on_login: bool,
}

/// The contents of the transcription settings.
pub struct TranscriptionView {
    pub built_in_dictionary: Seq<Seq<char>>,
    pub user_dictionary: Seq<Seq<char>>,
    pub model_cache_ttl_secs: u64,
    pub transcript_reformatting_level: TranscriptReformattingLevel,
    pub llm_api_key: Option<Seq<char>>,
    pub llm_base_url: Seq<char>,
    pub llm_model_name: Seq<char>,
    pub llm_custom_prompt: Seq<char>,
    pub llm_system_prompt: Seq<char>,
}

/// The contents of the settings.
pub struct SettingsView {
    pub logging: LoggingSettings,
    pub transcription: TranscriptionView,
    pub start_on_login: bool,
}

/// The characters of an optional string.
pub open spec fn opt_view(s: Option<String>) -> Option<Seq<char>> {
    match s {
        Some(x) => Some(x@),
        None => None,
    }
}

impl View for TranscriptionSettings {
    type V = TranscriptionView;

    open spec fn view(&self) -> TranscriptionView {
        TranscriptionView {
            built_in_dictionary: strings_view(self.built_in_dictionary@),
            user_dictionary: strings_view(self.user_dictionary@),
            model_cache_ttl_secs: self.model_cache_ttl_secs,
            transcript_reformatting_level: self.transcript_reformatting_level,
            llm_api_key: opt_view(self.llm_api_key),
            llm_base_url: self.llm_base_url@,
            llm_model_name: self.llm_model_name@,
            llm_custom_prompt: self.llm_custom_prompt@,
            llm_system_prompt: self.llm_system_prompt@,
        }
    }
}

impl View for AppSettings {
    type V = SettingsView;

    open spec fn view(&self) -> SettingsView {
        SettingsView {
            logging: self.logging,
            transcription: self.transcription@,
            start_on_login: self.start_on_login,
        }
    }
}

/// The logging settings of a fresh install: the last 1000 lines of the application log,
/// the newest 100 trace files, no debug logs.
pub open spec fn default_logging() -> LoggingSettings {
    LoggingSettings { app_log_max_lines: 1000, trace_file_limit: 100, enable_debug_logs: false }
}

/// The transcription settings of a fresh install: empty dictionaries, a model kept ten
/// minutes after its last use, no reformatting, and the default LLM endpoint and prompts.
pub open spec fn default_transcription() -> TranscriptionView {
    TranscriptionView {
        built_in_dictionary: Seq::empty(),
        user_dictionary: Seq::empty(),
        model_cache_ttl_secs: 600,
        transcript_reformatting_level: TranscriptReformattingLevel::Disabled,
        llm_api_key: None,
        llm_base_url: DEFAULT_LLM_BASE_URL@,
        llm_model_name: DEFAULT_LLM_MODEL_NAME@,
        llm_custom_prompt: DEFAULT_LLM_CUSTOM_PROMPT@,
        llm_system_prompt: DEFAULT_LLM_SYSTEM_PROMPT@,
    }
}

/// The settings of a fresh install.
pub open spec fn default_settings() -> SettingsView {
    SettingsView {
        logging: default_logging(),
        transcription: default_transcription(),
        start_on_login: false,
    }
}

impl Default for LoggingSettings {
    fn default() -> (s: Self)
        ensures
            s == default_logging(),
    {
        LoggingSettings { app_log_max_lines: 1000, trace_file_limit: 100, enable_debug_logs: false }
    }
}

impl Default for TranscriptionSettings {
    fn default() -> (s: Self)
        ensures
            s@ == default_transcription(),
    {
        let s = TranscriptionSettings {
            built_in_dictionary: Vec::new(),
            user_dictionary: Vec::new(),
            model_cache_ttl_secs: 10 * 60,
            transcript_reformatting_level: TranscriptReformattingLevel::Disabled,
            llm_api_key: None,
            llm_base_url: string_from(DEFAULT_LLM_BASE_URL),
            llm_model_name: string_from(DEFAULT_LLM_MODEL_NAME),
            llm_custom_prompt: string_from(DEFAULT_LLM_CUSTOM_PROMPT),
            llm_system_prompt: string_from(DEFAULT_LLM_SYSTEM_PROMPT),
        };
        assert(s@.built_in_dictionary =~= Seq::<Seq<char>>::empty());
        assert(s@.user_dictionary =~= Seq::<Seq<char>>::empty());
        s
    }
}

impl Default for AppSettings {
    fn default() -> (s: Self)
        ensures
            s@ == default_settings(),
    {
        AppSettings {
            logging: LoggingSettings::default(),
            transcription: TranscriptionSettings::default(),
            start_on_login: false,
        }
    }
}

} // verus!

verus! {

/// A copy of a list of strings.
pub fn copy_strings(v: &Vec<String>) -> (r: Vec<String>)
    ensures
        strings_view(r@) == strings_view(v@),
{
    let mut r: Vec<String> = Vec::new();
    let n = v.len();
    let mut i: usize = 0;
    while i < n
        invariant
            n == v.len(),
            i <= n,
            strings_view(r@) =~= strings_view(v@.take(i as int)),
        decreases n - i,
    {
        let c = v[i].clone();
        assert(c@ == v@[i as int]@);
        let ghost before = r@;
        r.push(c);
        assert(r@ =~= before.push(c));
        assert(v@.take(i + 1) =~= v@.take(i as int).push(v@[i as int]));
        assert(strings_view(r@) =~= strings_view(before).push(c@));
        assert(strings_view(v@.take(i + 1)) =~= strings_view(v@.take(i as int)).push(v@[i as int]@));
        i += 1;
    }
    assert(v@.take(n as int) =~= v@);
    r
}

/// Whether two lists of strings hold the same strings in the same order.
pub fn same_strings(a: &Vec<String>, b: &Vec<String>) -> (r: bool)
    ensures
        r == (strings_view(a@) == strings_view(b@)),
{
    if a.len() != b.len() {
        assert(strings_view(a@).len() != strings_view(b@).len());
        return false;
    }
    let n = a.len();
    let mut i: usize = 0;
    while i < n
        invariant
            n == a.len() == b.len(),
            i <= n,
            forall|k: int| 0 <= k < i ==> a@[k]@ == b@[k]@,
        decreases n - i,
    {
        if a[i] != b[i] {
            assert(strings_view(a@)[i as int] != strings_view(b@)[i as int]);
            return false;
        }
        i += 1;
    }
    assert(strings_view(a@) =~= strings_view(b@));
    true
}

fn copy_opt_string(s: &Option<String>) -> (r: Option<String>)
    ensures
        opt_view(r) == opt_view(*s),
{
    match s {
        Some(x) => Some(x.clone()),
        None => None,
    }
}

fn same_opt_string(a: &Option<String>, b: &Option<String>) -> (r: bool)
    ensures
        r == (opt_view(*a) == opt_view(*b)),
{
    match (a, b) {
        (Some(x), Some(y)) => *x == *y,
        (None, None) => true,
        _ => false,
    }
}

impl TranscriptionSettings {
    /// A copy of these settings.
    pub fn duplicate(&self) -> (r: Self)
        ensures
            r@ == self@,
    {
        TranscriptionSettings {
            built_in_dictionary: copy_strings(&self.built_in_dictionary),
            user_dictionary: copy_strings(&self.user_dictionary),
            model_cache_ttl_secs: self.model_cache_ttl_secs,
            transcript_reformatting_level: self.transcript_reformatting_level,
            llm_api_key: copy_opt_string(&self.llm_api_key),
            llm_base_url: self.llm_base_url.clone(),
            llm_model_name: self.llm_model_name.clone(),
            llm_custom_prompt: self.llm_custom_prompt.clone(),
            llm_system_prompt: self.llm_system_prompt.clone(),
        }
    }

    /// Whether two settings hold the same values.
    pub fn same_as(&self, other: &Self) -> (r: bool)
        ensures
            r == (self@ == other@),
    {
        let r = same_strings(&self.built_in_dictionary, &other.built_in_dictionary)
            && same_strings(&self.user_dictionary, &other.user_dictionary)
            && self.model_cache_ttl_secs == other.model_cache_ttl_secs
            && self.transcript_reformatting_level == other.transcript_reformatting_level
            && same_opt_string(&self.llm_api_key, &other.llm_api_key) && self.llm_base_url
            == other.llm_base_url && self.llm_model_name == other.llm_model_name
            && self.llm_custom_prompt == other.llm_custom_prompt && self.llm_system_prompt
            == other.llm_system_prompt;
        r
    }
}

impl AppSettings {
    /// A copy of these settings.
    pub fn duplicate(&self) -> (r: Self)
        ensures
            r@ == self@,
    {
        AppSettings {
            logging: self.logging,
            transcription: self.transcription.duplicate(),
            start_on_login: self.start_on_login,
        }
    }

    /// Whether two settings hold the same values.
    pub fn same_as(&self, other: &Self) -> (r: bool)
        ensures
            r == (self@ == other@),
    {
        self.logging == other.logging && self.transcription.same_as(&other.transcription)
            && self.start_on_login == other.start_on_login
    }
}

/// The settings that the program runs with, refreshed from the settings file.
pub struct SettingsStore {
    current: AppSettings,
}

impl View for SettingsStore {
    type V = SettingsView;

    closed spec fn view(&self) -> SettingsView {
        self.current@
    }
}

/// The settings that the program starts with: those read from disk, or the defaults when
/// they could not be read.
pub open spec fn initial_settings(loaded: Result<SettingsView, Seq<char>>) -> SettingsView {
    match loaded {
        Ok(s) => s,
        Err(_) => default_settings(),
    }
}

/// The settings that were read, with their strings taken as characters.
pub open spec fn loaded_view(loaded: Result<AppSettings, String>) -> Result<SettingsView, Seq<char>> {
    match loaded {
        Ok(s) => Ok(s@),
        Err(e) => Err(e@),
    }
}

impl SettingsStore {
    /// The store after the first load: the loaded settings, or the defaults when loading
    /// failed.
    pub fn initialize(loaded: Result<AppSettings, String>) -> (s: Self)
        ensures
            s@ == initial_settings(loaded_view(loaded)),
    {
        match loaded {
            Ok(settings) => SettingsStore { current: settings },
            Err(_) => SettingsStore { current: AppSettings::default() },
        }
    }

    /// A copy of the settings in force.
    pub fn current(&self) -> (s: AppSettings)
        ensures
            s@ == self@,
    {
        self.current.duplicate()
    }

    /// Takes the settings just read from disk: an error is passed on and leaves the
    /// settings as they were; otherwise the new settings replace the old ones, and the
    /// result says whether anything changed.
    pub fn refresh_from_disk(&mut self, loaded: Result<AppSettings, String>) -> (r: Result<bool, String>)
        ensures
            match loaded_view(loaded) {
                Err(e) => r matches Err(x) && x@ == e && final(self)@ == old(self)@,
                Ok(next) => r == Ok::<bool, String>(next != old(self)@) && final(self)@ == next,
            },
    {
        match loaded {
            Err(e) => Err(e),
            Ok(next) => {
                if self.current.same_as(&next) {
                    Ok(false)
                } else {
                    self.current = next;
                    Ok(true)
                }
            },
        }
    }
}

} // verus!
