use dictation::autostart::{
    linux_autostart_entry, linux_autostart_file, macos_launch_agent, macos_launch_agent_file,
    startup_approved_disabled_value, sync_from_settings, sync_settings_from_system,
    windows_autostart_change, windows_autostart_enabled, ApprovedStateChange, AutostartAction,
};
use dictation::logs::{
    app_log_path, debug_enabled, debug_logging_on, logs_dir, trace_file_name, trace_files_to_remove, traces_dir, trimmed_log,
    APP_LOG_MAX_LINES, TRACE_FILE_LIMIT,
};
use dictation::model::{model_dir_path, model_success_flag_path};
use dictation::settings::{
    settings_path, AppSettings, SettingsStore, TranscriptReformattingLevel, DEFAULT_LLM_BASE_URL,
    DEFAULT_LLM_CUSTOM_PROMPT, DEFAULT_LLM_MODEL_NAME,
};

#[test]
fn default_settings_match_a_fresh_install() {
    let s = AppSettings::default();
    assert_eq!(s.logging.app_log_max_lines, 1000);
    assert_eq!(s.logging.trace_file_limit, 100);
    assert!(!s.logging.enable_debug_logs);
    assert!(!s.start_on_login);
    assert!(s.transcription.built_in_dictionary.is_empty());
    assert!(s.transcription.user_dictionary.is_empty());
    assert_eq!(s.transcription.model_cache_ttl_secs, 600);
    assert_eq!(
        s.transcription.transcript_reformatting_level,
        TranscriptReformattingLevel::Disabled
    );
    assert_eq!(s.transcription.llm_api_key, None);
    assert_eq!(s.transcription.llm_base_url, DEFAULT_LLM_BASE_URL);
    assert_eq!(s.transcription.llm_model_name, DEFAULT_LLM_MODEL_NAME);
    assert_eq!(s.transcription.llm_custom_prompt, DEFAULT_LLM_CUSTOM_PROMPT);
    assert_eq!(DEFAULT_LLM_BASE_URL, "http://localhost:11434/v1");
    assert_eq!(APP_LOG_MAX_LINES, 1000);
    assert_eq!(TRACE_FILE_LIMIT, 100);
}

#[test]
fn settings_store_falls_back_to_defaults() {
    let store = SettingsStore::initialize(Err("no such file".to_string()));
    let cur = store.current();
    assert!(cur.same_as(&AppSettings::default()));
}

#[test]
fn settings_store_refresh_reports_changes() {
    let mut store = SettingsStore::initialize(Ok(AppSettings::default()));

    let same = AppSettings::default();
    assert_eq!(store.refresh_from_disk(Ok(same)), Ok(false));

    let mut changed = AppSettings::default();
    changed.transcription.llm_model_name = "llama3".to_string();
    assert_eq!(store.refresh_from_disk(Ok(changed)), Ok(true));
    assert_eq!(store.current().transcription.llm_model_name, "llama3");

    assert_eq!(
        store.refresh_from_disk(Err("broken json".to_string())),
        Err("broken json".to_string())
    );
    assert_eq!(store.current().transcription.llm_model_name, "llama3");
}

#[test]
fn duplicate_keeps_every_field() {
    let mut s = AppSettings::default();
    s.start_on_login = true;
    s.transcription.user_dictionary = vec!["llm=LLM".to_string()];
    s.transcription.llm_api_key = Some("SECRET-REDACTED".to_string());
    let d = s.duplicate();
    assert!(d.same_as(&s));
    assert_eq!(d.transcription.user_dictionary, vec!["llm=LLM".to_string()]);
    assert_eq!(d.transcription.llm_api_key, Some("SECRET-REDACTED".to_string()));
}

#[test]
fn autostart_follows_settings() {
    let mut s = AppSettings::default();
    assert_eq!(sync_from_settings(&s), AutostartAction::Disable);
    s.start_on_login = true;
    assert_eq!(sync_from_settings(&s), AutostartAction::Enable);
}

#[test]
fn settings_take_system_autostart_state() {
    let s = AppSettings::default();
    let (next, changed) = sync_settings_from_system(&s, true);
    assert!(changed);
    assert!(next.start_on_login);
    assert_eq!(next.transcription.model_cache_ttl_secs, 600);
    let (again, changed_again) = sync_settings_from_system(&next, true);
    assert!(!changed_again);
    assert!(again.start_on_login);
}

#[test]
fn windows_startup_approved_flags() {
    assert!(!windows_autostart_enabled(false, None));
    assert!(windows_autostart_enabled(true, None));
    assert!(windows_autostart_enabled(true, Some(&[])));
    assert!(windows_autostart_enabled(true, Some(&[2, 0, 0])));
    assert!(!windows_autostart_enabled(true, Some(&[3, 0, 0])));
    assert!(!windows_autostart_enabled(true, Some(&[7])));
    let disabled = startup_approved_disabled_value();
    assert_eq!(disabled, vec![3u8, 0, 0, 0, 0, 0, 0, 0, 0, 0, 0, 0]);
    assert!(!windows_autostart_enabled(true, Some(&disabled)));
}

#[test]
fn launcher_files_name_the_executable() {
    let entry = linux_autostart_entry("/usr/bin/vocoflow");
    assert_eq!(
        entry,
        "[Desktop Entry]\nType=Application\nName=vocoflow\nExec=/usr/bin/vocoflow\nTerminal=false\nX-GNOME-Autostart-enabled=true\n"
    );
    let agent = macos_launch_agent("/Applications/vocoflow");
    assert!(agent.contains("<string>/Applications/vocoflow</string>"));
    assert!(agent.contains("<key>RunAtLoad</key>"));
}

#[test]
fn debug_switch_values() {
    assert!(debug_enabled(Some("1")));
    assert!(debug_enabled(Some(" TRUE ")));
    assert!(debug_enabled(Some("yes")));
    assert!(debug_enabled(Some("On")));
    assert!(!debug_enabled(Some("0")));
    assert!(!debug_enabled(Some("")));
    assert!(!debug_enabled(None));
}

#[test]
fn trimmed_log_keeps_last_lines() {
    let lines: Vec<String> = (1..=5).map(|i| format!("line {}", i)).collect();
    assert_eq!(trimmed_log(&lines, 5), None);
    assert_eq!(trimmed_log(&lines, 2), Some("line 4\nline 5\n".to_string()));
    assert_eq!(trimmed_log(&lines, 0), Some(String::new()));
}

#[test]
fn oldest_trace_files_are_removed() {
    let modified = [30u128, 10, 20, 10, 40];
    let removed = trace_files_to_remove(&modified, 3);
    assert_eq!(removed, vec![false, true, false, true, false]);
    assert_eq!(trace_files_to_remove(&modified, 5), vec![false; 5]);
    assert_eq!(trace_files_to_remove(&modified, 0), vec![true; 5]);
    let ties = [5u128, 5, 5];
    assert_eq!(trace_files_to_remove(&ties, 1), vec![true, true, false]);
}

#[test]
fn file_locations_under_the_data_directory() {
    assert_eq!(settings_path("/data", '/'), "/data/settings.json");
    assert_eq!(logs_dir("/data", '/'), "/data/logs");
    assert_eq!(traces_dir("/data", '/'), "/data/logs/traces");
    assert_eq!(app_log_path("/data", '/'), "/data/logs/application.log");
    assert_eq!(
        model_dir_path("/data", '/'),
        "/data/models/parakeet-tdt-0.6b-v3-int8"
    );
    assert_eq!(
        model_success_flag_path("/data", '/'),
        "/data/models/parakeet-tdt-0.6b-v3-int8/download.success.flag"
    );
}

#[test]
fn trace_file_is_named_after_start_time() {
    assert_eq!(trace_file_name(0), "trace-0.json");
    assert_eq!(trace_file_name(1_700_000_000_123), "trace-1700000000123.json");
}

#[test]
fn debug_logs_from_settings_or_switch() {
    assert!(debug_logging_on(true, None));
    assert!(debug_logging_on(false, Some("yes")));
    assert!(!debug_logging_on(false, Some("no")));
    assert!(!debug_logging_on(false, None));
}

#[test]
fn windows_autostart_needs_the_run_entry() {
    assert_eq!(
        windows_autostart_change(AutostartAction::Enable, true),
        Ok(ApprovedStateChange::Clear)
    );
    assert_eq!(
        windows_autostart_change(AutostartAction::Disable, true),
        Ok(ApprovedStateChange::SetDisabled)
    );
    assert_eq!(
        windows_autostart_change(AutostartAction::Enable, false),
        Err("Windows autostart registration is missing. Please reinstall Vocoflow to repair the startup entry.".to_string())
    );
}

#[test]
fn launcher_file_locations() {
    assert_eq!(linux_autostart_file("/home/me", '/'), "/home/me/.config/autostart/vocoflow.desktop");
    assert_eq!(
        macos_launch_agent_file("/Users/me", '/'),
        "/Users/me/Library/LaunchAgents/com.vocoflow.vocoflow.plist"
    );
}

#[test]
fn file_locations_use_the_platform_separator() {
    assert_eq!(logs_dir("C:\\Users\\me\\dictation", '\\'), "C:\\Users\\me\\dictation\\logs");
    assert_eq!(traces_dir("C:\\data\\", '\\'), "C:\\data\\logs\\traces");
    assert_eq!(settings_path("/data/", '/'), "/data/settings.json");
    assert_eq!(settings_path("C:/data/", '\\'), "C:/data/settings.json");
    assert_eq!(settings_path("", '/'), "settings.json");
}
