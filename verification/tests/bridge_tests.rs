use dictation::bridge::{
    concat_result, echo_parse_error_reply, echo_reply, external_url_outcome, external_url_refusal, extract_missing_field, logs_dir_outcome, find_route, invalid_payload_error, invalid_payload_reply,
    is_allowed_url, json_decode_reply, missing_route_reply, normalize_endpoint, success_kind_from_route,
    success_reply, supported_routes_text, unknown_route_error, unknown_route_reply, ResolvedRoute,
    RouteDef,
};

#[test]
fn success_kind_derived_from_endpoint() {
    let route = ResolvedRoute {
        endpoint: "/settings/ping".to_string(),
        route_kind: "POST /settings/ping".to_string(),
    };

    assert_eq!(success_kind_from_route(&route), "settings.ping.reply");
}

#[test]
fn success_kind_ignores_leading_slashes() {
    let with = ResolvedRoute {
        endpoint: "//settings/get_all".to_string(),
        route_kind: "POST //settings/get_all".to_string(),
    };
    let without = ResolvedRoute {
        endpoint: "settings/get_all".to_string(),
        route_kind: "POST settings/get_all".to_string(),
    };
    assert_eq!(success_kind_from_route(&with), "settings.get_all.reply");
    assert_eq!(success_kind_from_route(&without), "settings.get_all.reply");
}

#[test]
fn success_response_uses_route_derived_kind() {
    let route = ResolvedRoute {
        endpoint: "/settings/concat".to_string(),
        route_kind: "POST /settings/concat".to_string(),
    };

    let reply = success_reply(Some("rid-1".to_string()), &route);

    assert_eq!(reply.status, 200);
    assert!(reply.ok);
    assert_eq!(reply.kind, "settings.concat.reply");
    assert_eq!(reply.request_id, Some("rid-1".to_string()));
    assert!(reply.error.is_none());
}

#[test]
fn supported_routes_text_lists_all_routes() {
    let routes = [
        RouteDef {
            method: "POST",
            endpoint: "/settings/ping",
        },
        RouteDef {
            method: "POST",
            endpoint: "/settings/concat",
        },
    ];

    assert_eq!(
        supported_routes_text(&routes),
        "POST /settings/ping or POST /settings/concat"
    );
}

#[test]
fn supported_routes_text_of_no_routes_is_empty() {
    let routes: [RouteDef; 0] = [];
    assert_eq!(supported_routes_text(&routes), "");
}

#[test]
fn find_route_matches_method_and_endpoint() {
    let routes = [
        RouteDef {
            method: "POST",
            endpoint: "/settings/ping",
        },
        RouteDef {
            method: "GET",
            endpoint: "/settings/ping",
        },
    ];
    let found = find_route(&routes, "GET", "/settings/ping").expect("route exists");
    assert_eq!(found.method, "GET");
    assert!(find_route(&routes, "PUT", "/settings/ping").is_none());
    assert!(find_route(&routes, "POST", "/settings/pong").is_none());
}

#[test]
fn normalize_endpoint_adds_one_leading_slash() {
    assert_eq!(normalize_endpoint("settings/ping"), "/settings/ping");
    assert_eq!(normalize_endpoint("/settings/ping"), "/settings/ping");
    assert_eq!(normalize_endpoint(""), "/");
}

#[test]
fn only_web_links_are_allowed() {
    assert!(is_allowed_url("https://example.com"));
    assert!(is_allowed_url("http://example.com"));
    assert!(!is_allowed_url("file:///etc/passwd"));
    assert!(!is_allowed_url("HTTPS://example.com"));
}

#[test]
fn missing_field_is_extracted_from_decoder_message() {
    assert_eq!(
        extract_missing_field("missing field `url` at line 1 column 2"),
        Some("url".to_string())
    );
    assert_eq!(extract_missing_field("missing field url"), None);
    assert_eq!(extract_missing_field("invalid type: string"), None);
}

#[test]
fn invalid_payload_errors_are_classified() {
    let e = invalid_payload_error("POST /settings/concat", "missing field `y` at line 1 column 9");
    assert_eq!(e.code, "MISSING_FIELD");
    assert_eq!(e.field, Some("y".to_string()));
    assert_eq!(e.expected, Some("required field".to_string()));
    assert_eq!(
        e.message,
        "Invalid payload for route 'POST /settings/concat': missing field `y` at line 1 column 9"
    );

    let e = invalid_payload_error("R", "unknown field `z`");
    assert_eq!(e.code, "UNKNOWN_FIELD");
    assert_eq!(e.field, None);
    assert_eq!(e.expected, Some("only documented payload fields".to_string()));

    let e = invalid_payload_error("R", "invalid type: string, expected i64");
    assert_eq!(e.code, "INVALID_FIELD_TYPE");

    let e = invalid_payload_error("R", "trailing characters");
    assert_eq!(e.code, "INVALID_PAYLOAD");
    assert_eq!(e.expected, None);
    assert_eq!(e.received, Some("trailing characters".to_string()));
}

#[test]
fn unknown_route_error_names_the_route() {
    let e = unknown_route_error("GET", "/nowhere", "POST /settings/ping");
    assert_eq!(e.code, "UNKNOWN_ROUTE");
    assert_eq!(e.message, "Unsupported IPC route 'GET /nowhere'");
    assert_eq!(e.field, Some("endpoint".to_string()));
    assert_eq!(e.expected, Some("POST /settings/ping".to_string()));
    assert_eq!(e.received, Some("GET /nowhere".to_string()));
}

#[test]
fn refusals_have_status_400() {
    let r = invalid_payload_reply("R", Some("id".to_string()), "boom");
    assert_eq!(r.status, 400);
    assert!(!r.ok);
    assert_eq!(r.kind, "error.invalid_payload");
    assert_eq!(r.request_id, Some("id".to_string()));

    let r = json_decode_reply("{oops", "expected value");
    assert_eq!(r.status, 400);
    assert_eq!(r.kind, "error.invalid_json");
    let e = r.error.expect("error");
    assert_eq!(e.code, "INVALID_JSON");
    assert_eq!(e.received, Some("{oops".to_string()));

    let r = unknown_route_reply("GET", "/x", None, "POST /settings/ping");
    assert_eq!(r.kind, "error.unknown_route");
    assert_eq!(r.error.expect("error").code, "UNKNOWN_ROUTE");

    let r = missing_route_reply(None);
    assert_eq!(r.kind, "error.missing_route");
    assert_eq!(r.error.expect("error").code, "MISSING_ROUTE");
}

#[test]
fn concat_result_joins_number_and_text() {
    assert_eq!(concat_result(42, "abc"), "42abc");
    assert_eq!(concat_result(-7, "x"), "-7x");
    assert_eq!(concat_result(0, ""), "0");
    assert_eq!(concat_result(i64::MIN, ""), "-9223372036854775808");
}

#[test]
fn external_url_refused_unless_web_link() {
    assert!(external_url_refusal(None, "https://example.com").is_none());
    let r = external_url_refusal(Some("r1".to_string()), "ftp://example.com").expect("refused");
    assert_eq!(r.status, 400);
    assert_eq!(r.kind, "error.invalid_url");
    let e = r.error.expect("error");
    assert_eq!(e.code, "INVALID_URL");
    assert_eq!(e.message, "Only http:// and https:// URLs are allowed");
    assert_eq!(e.field, Some("url".to_string()));
    assert_eq!(e.expected, Some("http://... or https://...".to_string()));
    assert_eq!(e.received, Some("ftp://example.com".to_string()));
}

#[test]
fn external_url_outcome_reports_browser_failure() {
    let route = ResolvedRoute {
        endpoint: "/settings/about/open_external_url".to_string(),
        route_kind: "POST /settings/about/open_external_url".to_string(),
    };
    let ok = external_url_outcome(None, &route, "https://x.y", Ok(()));
    assert_eq!(ok.status, 200);
    assert_eq!(ok.kind, "settings.about.open_external_url.reply");
    let failed = external_url_outcome(None, &route, "https://x.y", Err("no browser".to_string()));
    assert_eq!(failed.status, 500);
    assert_eq!(failed.kind, "error.open_external_url_failed");
    let e = failed.error.expect("error");
    assert_eq!(e.code, "OPEN_EXTERNAL_URL_FAILED");
    assert_eq!(e.message, "Failed to open URL in browser: no browser");
    assert_eq!(e.received, Some("https://x.y".to_string()));
}

#[test]
fn logs_dir_outcome_reports_failure() {
    let route = ResolvedRoute {
        endpoint: "/settings/about/open_logs_dir".to_string(),
        route_kind: "POST /settings/about/open_logs_dir".to_string(),
    };
    let ok = logs_dir_outcome(Some("a".to_string()), &route, Ok(()));
    assert_eq!(ok.kind, "settings.about.open_logs_dir.reply");
    assert_eq!(ok.request_id, Some("a".to_string()));
    let failed = logs_dir_outcome(None, &route, Err("denied".to_string()));
    assert_eq!(failed.status, 500);
    assert_eq!(failed.kind, "error.open_logs_dir_failed");
    let e = failed.error.expect("error");
    assert_eq!(e.code, "OPEN_LOGS_DIR_FAILED");
    assert_eq!(e.message, "Failed to open logs directory: denied");
    assert_eq!(e.field, None);
    assert_eq!(e.received, Some("denied".to_string()));
}

#[test]
fn echo_replies() {
    let r = echo_reply(Some("7".to_string()), "settings.ping");
    assert!(r.ok);
    assert_eq!(r.kind, "settings.ping.reply");
    assert_eq!(r.request_id, Some("7".to_string()));
    let e = echo_parse_error_reply();
    assert!(!e.ok);
    assert_eq!(e.kind, "error.invalid_json");
    assert_eq!(e.request_id, None);
}
