use dictation::llm::{
    accept_llm_reply, macos_app_description, parse_app_metadata_from_tsv_output, post_process_transcript, transcript_to_deliver,
    windows_app_query,
    ActiveApplicationInfo, PostProcessPlan,
};
use dictation::model::{
    download_progress, has_invalid_text_signature, is_cache_entry_expired, is_model_downloaded,
    is_model_file_sane, model_file_url, model_files, resolve_cache_ttl_secs, should_reload_model,
    DownloadTracker, ModelFileFacts,
};
use dictation::settings::{TranscriptReformattingLevel, TranscriptionSettings};
use dictation::transcript::{
    apply_dictionary_rules, build_dictionary_rules, parse_dictionary_entry,
    process_transcript_with_custom_dictionary, replace_case_insensitive, should_update_clipboard,
};

#[test]
fn test_cache_entry_expiry_logic() {
    let now = 1_000_000u64;
    let ttl = 600 * 1000;

    let fresh = now - 100 * 1000;
    let expired = now - 700 * 1000;

    assert!(!is_cache_entry_expired(fresh, now, ttl));
    assert!(is_cache_entry_expired(expired, now, ttl));
}

#[test]
fn cache_entry_with_clock_going_back_is_fresh() {
    assert!(!is_cache_entry_expired(5_000, 1_000, 10));
    assert!(is_cache_entry_expired(5_000, 1_000, 0));
    assert!(is_cache_entry_expired(0, 600, 600));
}

#[test]
fn test_model_cache_ttl_reads_env_override() {
    assert_eq!(resolve_cache_ttl_secs(Some("5"), 600), 5);
}

#[test]
fn cache_ttl_falls_back_to_settings_value() {
    assert_eq!(resolve_cache_ttl_secs(None, 600), 600);
    assert_eq!(resolve_cache_ttl_secs(Some("soon"), 600), 600);
    assert_eq!(resolve_cache_ttl_secs(Some(" 42 "), 600), 600);
    assert_eq!(resolve_cache_ttl_secs(Some("+42"), 600), 42);
    assert_eq!(resolve_cache_ttl_secs(Some("0"), 600), 1);
}

#[test]
fn test_should_update_clipboard_when_different() {
    assert!(should_update_clipboard(Some("a"), "b"));
    assert!(should_update_clipboard(None, "b"));
    assert!(!should_update_clipboard(Some("b"), "b"));
}

#[test]
fn test_parse_dictionary_entry_accepts_multiple_separators() {
    assert_eq!(
        parse_dictionary_entry("lang chain=>LangChain"),
        Some(("lang chain".to_owned(), "LangChain".to_owned()))
    );
    assert_eq!(
        parse_dictionary_entry("langchain->LangChain"),
        Some(("langchain".to_owned(), "LangChain".to_owned()))
    );
    assert_eq!(
        parse_dictionary_entry("llm=LLM"),
        Some(("llm".to_owned(), "LLM".to_owned()))
    );
}

#[test]
fn parse_dictionary_entry_refuses_blank_sides_and_lowercases_the_key() {
    assert_eq!(parse_dictionary_entry("=>LangChain"), None);
    assert_eq!(parse_dictionary_entry("langchain->   "), None);
    assert_eq!(
        parse_dictionary_entry("langchain=>   "),
        Some(("langchain".to_owned(), ">".to_owned()))
    );
    assert_eq!(parse_dictionary_entry("no separator here"), None);
    assert_eq!(
        parse_dictionary_entry("  Open AI => OpenAI "),
        Some(("open ai".to_owned(), "OpenAI".to_owned()))
    );
}

#[test]
fn test_build_dictionary_rules_user_overrides_built_in() {
    let built_in = vec!["langchain=>Lang Chain".to_owned()];
    let user = vec!["langchain=>LangChain".to_owned()];

    let rules = build_dictionary_rules(&built_in, &user);
    assert!(rules.contains(&("langchain".to_owned(), "LangChain".to_owned())));
    assert!(!rules.contains(&("langchain".to_owned(), "Lang Chain".to_owned())));
}

#[test]
fn build_dictionary_rules_keeps_one_rule_per_key() {
    let built_in = vec![
        "llm=LLM".to_owned(),
        "broken entry".to_owned(),
        "api=API".to_owned(),
    ];
    let user = vec!["LLM=>L.L.M.".to_owned(), "gpu->GPU".to_owned()];
    let rules = build_dictionary_rules(&built_in, &user);
    assert_eq!(rules.len(), 3);
    assert!(rules.contains(&("llm".to_owned(), "L.L.M.".to_owned())));
    assert!(rules.contains(&("api".to_owned(), "API".to_owned())));
    assert!(rules.contains(&("gpu".to_owned(), "GPU".to_owned())));
}

#[test]
fn test_replace_case_insensitive_replaces_all_matches() {
    let out = replace_case_insensitive(
        "we use Lang Chain and lang chain daily",
        "lang chain",
        "LangChain",
    );
    assert_eq!(out, "we use LangChain and LangChain daily");
}

#[test]
fn replace_case_insensitive_edge_cases() {
    assert_eq!(replace_case_insensitive("abc", "", "x"), "abc");
    assert_eq!(replace_case_insensitive("aaaa", "aa", "b"), "bb");
    assert_eq!(replace_case_insensitive("no match", "zzz", "y"), "no match");
    assert_eq!(replace_case_insensitive("ABC abc", "abc", "x"), "x x");
}

#[test]
fn dictionary_applies_longest_entry_first() {
    let built_in = vec!["lang=>Language".to_owned(), "lang chain=>LangChain".to_owned()];
    let user: Vec<String> = vec![];
    let out = process_transcript_with_custom_dictionary("I like lang chain", &built_in, &user);
    // "lang chain" goes first; "lang" then also matches inside its replacement.
    assert_eq!(out, "I like LanguageChain");
}

#[test]
fn empty_dictionary_leaves_transcript_unchanged() {
    let none: Vec<String> = vec![];
    let out = process_transcript_with_custom_dictionary("Hello there", &none, &none);
    assert_eq!(out, "Hello there");
}

#[test]
fn apply_dictionary_rules_applies_in_given_order() {
    let rules = vec![
        ("ab".to_owned(), "X".to_owned()),
        ("x".to_owned(), "Y".to_owned()),
    ];
    assert_eq!(apply_dictionary_rules("ab ab", &rules), "Y Y");
}

#[test]
fn test_parse_app_metadata_from_tsv_output_handles_empty() {
    let out = parse_app_metadata_from_tsv_output(true, "");
    assert_eq!(out, (None, None));
}

#[test]
fn parse_app_metadata_reads_first_line_fields() {
    let out = parse_app_metadata_from_tsv_output(true, "\n Code \t Visual Studio Code \nignored");
    assert_eq!(out, (Some("Code".to_owned()), Some("Visual Studio Code".to_owned())));
    let failed = parse_app_metadata_from_tsv_output(false, "Code\tEditor");
    assert_eq!(failed, (None, None));
}

#[test]
fn test_plain_text_output_is_trimmed() {
    let input = "  Hello world.  ";
    let output = accept_llm_reply(Some(input)).expect("non-blank reply");
    assert_eq!(output, "Hello world.");
}

#[test]
fn blank_llm_reply_is_refused() {
    assert!(accept_llm_reply(Some("   \n")).is_err());
    assert!(accept_llm_reply(None).is_err());
}

fn app_info() -> ActiveApplicationInfo {
    ActiveApplicationInfo {
        window_title: "Some Window".to_owned(),
        application_name: Some("Editor".to_owned()),
        application_description: Some("Code Editor".to_owned()),
    }
}

#[test]
fn test_post_process_transcript_returns_input_text() {
    let mut cfg = TranscriptionSettings::default();
    cfg.transcript_reformatting_level = TranscriptReformattingLevel::Disabled;
    match post_process_transcript("hello world", &app_info(), &cfg) {
        PostProcessPlan::Passthrough(t) => assert_eq!(t, "hello world"),
        other => panic!("unexpected plan {:?}", other),
    }
}

#[test]
fn test_post_process_transcript_returns_err_when_enabled_with_missing_model_name() {
    let mut cfg = TranscriptionSettings::default();
    cfg.transcript_reformatting_level = TranscriptReformattingLevel::Minimal;
    cfg.llm_model_name = String::new();
    cfg.llm_base_url = "http://localhost:11434/v1".to_owned();
    cfg.llm_custom_prompt = "Fix transcript".to_owned();
    let out = post_process_transcript("hello world", &app_info(), &cfg);
    assert!(matches!(out, PostProcessPlan::MissingModelSettings));
}

#[test]
fn post_process_transcript_calls_model_when_configured() {
    let mut cfg = TranscriptionSettings::default();
    cfg.transcript_reformatting_level = TranscriptReformattingLevel::Normal;
    cfg.llm_model_name = "llama3".to_owned();
    match post_process_transcript("hello world", &app_info(), &cfg) {
        PostProcessPlan::CallLlm(c, ctx) => {
            assert_eq!(c.model_name, "llama3");
            assert_eq!(c.reformatting_level, "normal");
            assert_eq!(ctx.window_title, "Some Window");
            assert_eq!(ctx.application_name, Some("Editor".to_owned()));
        }
        other => panic!("unexpected plan {:?}", other),
    }
}

#[test]
fn model_files_and_urls() {
    let files = model_files();
    assert_eq!(
        files,
        vec![
            "encoder-model.int8.onnx",
            "decoder_joint-model.int8.onnx",
            "nemo128.onnx",
            "vocab.txt"
        ]
    );
    assert_eq!(
        model_file_url("vocab.txt"),
        "https://huggingface.co/istupakov/parakeet-tdt-0.6b-v3-onnx/resolve/main/vocab.txt?download=true"
    );
}

fn onnx_facts(size: u64, head: &[u8]) -> Option<ModelFileFacts> {
    Some(ModelFileFacts {
        is_file: true,
        size,
        extension: "onnx".to_owned(),
        head: Some(head.to_vec()),
    })
}

#[test]
fn test_model_downloaded_false_when_success_flag_absent() {
    assert!(!is_model_downloaded(false, &[true, true, true, true]));
}

#[test]
fn test_model_downloaded_true_when_files_and_success_flag_present() {
    let sane = [
        is_model_file_sane(&onnx_facts(2048, &[7u8; 64])),
        is_model_file_sane(&onnx_facts(2048, &[7u8; 64])),
        is_model_file_sane(&onnx_facts(2048, &[7u8; 64])),
        is_model_file_sane(&Some(ModelFileFacts {
            is_file: true,
            size: 1,
            extension: "txt".to_owned(),
            head: Some(b"x".to_vec()),
        })),
    ];
    assert!(is_model_downloaded(true, &sane));
}

#[test]
fn test_model_downloaded_false_when_onnx_is_html() {
    let bad = is_model_file_sane(&onnx_facts(2048, b"<html>bad response</html>"));
    assert!(!bad);
    assert!(!is_model_downloaded(true, &[bad, true, true, true]));
}

#[test]
fn model_file_sanity_edge_cases() {
    assert!(!is_model_file_sane(&None));
    assert!(!is_model_file_sane(&onnx_facts(1023, &[7u8; 8])));
    assert!(is_model_file_sane(&onnx_facts(1024, &[7u8; 8])));
    assert!(!is_model_file_sane(&Some(ModelFileFacts {
        is_file: true,
        size: 0,
        extension: "txt".to_owned(),
        head: None,
    })));
    assert!(has_invalid_text_signature(Some(b"  <!DOCTYPE html>")));
    assert!(has_invalid_text_signature(Some(b"version https://git-lfs.github.com/spec/v1")));
    assert!(!has_invalid_text_signature(Some(b"\x08\x07onnx")));
    assert!(has_invalid_text_signature(None));
}

#[test]
fn download_progress_is_a_bounded_percentage() {
    assert_eq!(download_progress(50, 0), None);
    assert_eq!(download_progress(50, 200), Some(25));
    assert_eq!(download_progress(300, 200), Some(100));
    assert_eq!(download_progress(u64::MAX, u64::MAX), Some(1));
}

#[test]
fn download_tracker_counts_bytes_and_progress() {
    let mut t = DownloadTracker::new();
    t.add_expected_size(Some(300));
    t.add_expected_size(None);
    t.add_expected_size(Some(100));
    assert_eq!(t.total_bytes, 400);
    t.note_response_length(Some(999));
    assert_eq!(t.total_bytes, 400);
    assert_eq!(t.record_chunk(100), Some(25));
    assert_eq!(t.record_chunk(300), Some(100));
    assert_eq!(t.record_chunk(50), Some(100));
    assert_eq!(t.downloaded_bytes, 450);
}

#[test]
fn download_tracker_without_announced_sizes() {
    let mut t = DownloadTracker::new();
    assert_eq!(t.record_chunk(10), None);
    t.note_response_length(Some(200));
    assert_eq!(t.total_bytes, 200);
    assert_eq!(t.record_chunk(10), Some(10));
    let mut big = DownloadTracker::new();
    big.add_expected_size(Some(u64::MAX));
    big.add_expected_size(Some(5));
    assert_eq!(big.total_bytes, u64::MAX);
}

#[test]
fn model_is_reloaded_when_missing_or_expired() {
    assert!(should_reload_model(None, 0, 600_000));
    assert!(!should_reload_model(Some(1_000), 500_000, 600_000));
    assert!(should_reload_model(Some(1_000), 601_000, 600_000));
}

#[test]
fn windows_app_query_quotes_the_title() {
    assert_eq!(windows_app_query(""), None);
    let q = windows_app_query("Bob's notes").expect("query");
    assert!(q.starts_with("$p = Get-Process | Where-Object {$_.MainWindowTitle -eq 'Bob''s notes' }"));
    assert!(q.ends_with("Write-Output ($p.ProcessName + \"`t\" + $desc) }"));
}

#[test]
fn failed_post_processing_falls_back_to_local_transcript() {
    assert_eq!(transcript_to_deliver("hello world", None), ("hello world".to_string(), false));
    assert_eq!(
        transcript_to_deliver("hello world", Some(Ok("Hello, world.".to_string()))),
        ("Hello, world.".to_string(), false)
    );
    assert_eq!(transcript_to_deliver("hello world", Some(Err(()))), ("hello world".to_string(), true));
}

#[test]
fn macos_description_is_the_bundle_stem() {
    let stem = |p: &str| std::path::Path::new(p).file_stem().and_then(|s| s.to_str()).map(|s| s.to_owned());
    for path in [
        "/Applications/Visual Studio Code.app/",
        "/Applications/Safari.app",
        "/usr/bin/zsh",
        "/Users/me/.hidden",
        "/a/b.tar.gz",
        "/a/b./",
        "/a/./",
        "/a/..",
        "/",
        "",
        ".",
        "name",
    ] {
        assert_eq!(macos_app_description(path), stem(path), "path {path:?}");
    }
    assert_eq!(macos_app_description("/Applications/Safari.app"), Some("Safari".to_string()));
}
