//! The request/response protocol between the settings web view and the program: routes,
//! the kinds of replies, and the structured errors that a refused request is answered
//! with.
use vstd::prelude::*;

use crate::text::{
    chars_of, copy_range, find, find_chars, lemma_find_from_bounds_text, push_chars, push_str,
    str_eq, string_from, to_string,
};

verus! {

/// What the bridge answers: an HTTP-like status and a JSON body.
#[derive(Debug)]
pub struct BridgeHttpResponse {
    pub status: u16,
    pub body: String,
}

/// The route that a request was matched to: its endpoint and `"METHOD /endpoint"`.
#[derive(Debug)]
pub struct ResolvedRoute {
    pub endpoint: String,
    pub route_kind: String,
}

/// A route of the settings bridge.
#[derive(Debug, Clone, Copy)]
pub struct RouteDef {
    pub method: &'static str,
    pub endpoint: &'static str,
}

/// The error part of a refused request.
#[derive(Debug)]
pub struct BridgeError {
    pub code: String,
    pub message: String,
    pub field: Option<String>,
    pub expected: Option<String>,
    pub received: Option<String>,
}

/// The characters of an optional string.
pub open spec fn opt_chars(s: Option<String>) -> Option<Seq<char>> {
    match s {
        Some(x) => Some(x@),
        None => None,
    }
}

/// The characters of an optional string slice.
pub open spec fn opt_str_chars(s: Option<&str>) -> Option<Seq<char>> {
    match s {
        Some(x) => Some(x@),
        None => None,
    }
}

/// The contents of an error.
pub open spec fn error_view(e: BridgeError) -> (Seq<char>, Seq<char>, Option<Seq<char>>, Option<Seq<char>>, Option<Seq<char>>) {
    (e.code@, e.message@, opt_chars(e.field), opt_chars(e.expected), opt_chars(e.received))
}

fn opt_string(s: Option<&str>) -> (r: Option<String>)
    ensures
        opt_chars(r) == opt_str_chars(s),
{
    match s {
        Some(x) => Some(string_from(x)),
        None => None,
    }
}

/// An error with the given parts.
pub fn make_error(
    code: &str,
    message: String,
    field: Option<&str>,
    expected: Option<&str>,
    received: Option<String>,
) -> (e: BridgeError)
    ensures
        error_view(e) == (code@, message@, opt_str_chars(field), opt_str_chars(expected), opt_chars(
            received,
        )),
{
    BridgeError {
        code: string_from(code),
        message,
        field: opt_string(field),
        expected: opt_string(expected),
        received,
    }
}

/// The field name in a decoder message such as ``missing field `url` at line 1``: the text
/// between ``missing field ` `` and the next backquote.
pub open spec fn spec_missing_field(err: Seq<char>) -> Option<Seq<char>> {
    match find(err, "missing field `"@) {
        None => None,
        Some(k) => {
            let rest = err.skip(k + "missing field `"@.len());
            match find(rest, "`"@) {
                None => None,
                Some(j) => Some(rest.take(j)),
            }
        },
    }
}

/// The field that a decoder message says is missing.
pub fn extract_missing_field(err: &str) -> (r: Option<String>)
    ensures
        opt_chars(r) == spec_missing_field(err@),
{
    let e = chars_of(err);
    let marker = chars_of("missing field `");
    proof {
        lemma_find_from_bounds_text(e@, marker@, 0);
    }
    match find_chars(&e, &marker, 0) {
        None => None,
        Some(k) => {
            let mlen = marker.len();
            assert(crate::text::matches_at(e@, marker@, k as int));
            assert(k + mlen <= e.len());
            let start = k + mlen;
            let rest = copy_range(&e, start, e.len());
            assert(rest@ =~= e@.skip(start as int));
            let tick = chars_of("`");
            proof {
                lemma_find_from_bounds_text(rest@, tick@, 0);
            }
            match find_chars(&rest, &tick, 0) {
                None => None,
                Some(j) => {
                    let field = copy_range(&rest, 0, j);
                    assert(field@ =~= rest@.take(j as int));
                    Some(to_string(&field))
                },
            }
        },
    }
}

} // verus!

verus! {

/// `str::contains`.
pub open spec fn contains(s: Seq<char>, p: Seq<char>) -> bool {
    find(s, p) is Some
}

fn contains_exec(s: &Vec<char>, p: &str) -> (r: bool)
    ensures
        r == contains(s@, p@),
{
    let pv = chars_of(p);
    find_chars(s, &pv, 0).is_some()
}

/// `str::starts_with`.
pub open spec fn starts_with(s: Seq<char>, p: Seq<char>) -> bool {
    s.len() >= p.len() && s.take(p.len() as int) == p
}

fn starts_with_exec(s: &Vec<char>, p: &str) -> (r: bool)
    ensures
        r == starts_with(s@, p@),
{
    let pv = chars_of(p);
    if pv.len() > s.len() {
        return false;
    }
    let head = copy_range(s, 0, pv.len());
    assert(head@ =~= s@.take(pv@.len() as int));
    crate::text::eq_str(&head, p)
}

/// The code, field and expected text for a decoder message about a request payload.
pub open spec fn payload_error_class(err: Seq<char>) -> (Seq<char>, Option<Seq<char>>, Option<Seq<char>>) {
    if contains(err, "missing field"@) {
        ("MISSING_FIELD"@, spec_missing_field(err), Some("required field"@))
    } else if contains(err, "unknown field"@) {
        ("UNKNOWN_FIELD"@, None, Some("only documented payload fields"@))
    } else if contains(err, "invalid type"@) {
        ("INVALID_FIELD_TYPE"@, None, Some("correct field type"@))
    } else {
        ("INVALID_PAYLOAD"@, None, None)
    }
}

/// The error for a payload that the route's decoder refused: classified by the decoder's
/// message, which is also kept as the received value.
pub open spec fn spec_invalid_payload_error(route_kind: Seq<char>, err: Seq<char>) -> (Seq<char>, Seq<char>, Option<Seq<char>>, Option<Seq<char>>, Option<Seq<char>>) {
    let (code, field, expected) = payload_error_class(err);
    (code, "Invalid payload for route '"@ + route_kind + "': "@ + err, field, expected, Some(err))
}

/// The error for a payload that the route's decoder refused with the message `err`.
pub fn invalid_payload_error(route_kind: &str, err: &str) -> (e: BridgeError)
    ensures
        error_view(e) == spec_invalid_payload_error(route_kind@, err@),
{
    let ev = chars_of(err);
    let mut msg: Vec<char> = Vec::new();
    push_str(&mut msg, "Invalid payload for route '");
    push_str(&mut msg, route_kind);
    push_str(&mut msg, "': ");
    push_chars(&mut msg, &ev);
    let message = to_string(&msg);
    assert(message@ =~= "Invalid payload for route '"@ + route_kind@ + "': "@ + err@);
    if contains_exec(&ev, "missing field") {
        let field = extract_missing_field(err);
        BridgeError {
            code: string_from("MISSING_FIELD"),
            message,
            field,
            expected: Some(string_from("required field")),
            received: Some(string_from(err)),
        }
    } else if contains_exec(&ev, "unknown field") {
        make_error(
            "UNKNOWN_FIELD",
            message,
            None,
            Some("only documented payload fields"),
            Some(string_from(err)),
        )
    } else if contains_exec(&ev, "invalid type") {
        make_error(
            "INVALID_FIELD_TYPE",
            message,
            None,
            Some("correct field type"),
            Some(string_from(err)),
        )
    } else {
        make_error("INVALID_PAYLOAD", message, None, None, Some(string_from(err)))
    }
}

/// The error for a request body that is not JSON: the decoder's message, what a request
/// looks like, and the body received.
pub fn json_decode_error(raw_body: &str, err: &str) -> (e: BridgeError)
    ensures
        error_view(e) == ("INVALID_JSON"@, "Request body is not valid JSON: "@ + err@, None::<Seq<char>>, Some(
            "JSON object with request_id, method, endpoint, payload"@,
        ), Some(raw_body@)),
{
    let mut msg: Vec<char> = Vec::new();
    push_str(&mut msg, "Request body is not valid JSON: ");
    push_str(&mut msg, err);
    make_error(
        "INVALID_JSON",
        to_string(&msg),
        None,
        Some("JSON object with request_id, method, endpoint, payload"),
        Some(string_from(raw_body)),
    )
}

/// The error for a request whose route is not served: the route asked for and the routes
/// that are.
pub fn unknown_route_error(method: &str, endpoint: &str, supported_routes: &str) -> (e: BridgeError)
    ensures
        error_view(e) == ("UNKNOWN_ROUTE"@, "Unsupported IPC route '"@ + method@ + " "@ + endpoint@
            + "'"@, Some("endpoint"@), Some(supported_routes@), Some(method@ + " "@ + endpoint@)),
{
    let mut route: Vec<char> = Vec::new();
    push_str(&mut route, method);
    push_str(&mut route, " ");
    push_str(&mut route, endpoint);
    let mut msg: Vec<char> = Vec::new();
    push_str(&mut msg, "Unsupported IPC route '");
    push_chars(&mut msg, &route);
    push_str(&mut msg, "'");
    assert(msg@ =~= "Unsupported IPC route '"@ + method@ + " "@ + endpoint@ + "'"@);
    make_error(
        "UNKNOWN_ROUTE",
        to_string(&msg),
        Some("endpoint"),
        Some(supported_routes),
        Some(to_string(&route)),
    )
}

/// The error for a request without a method or an endpoint.
pub fn missing_route_error() -> (e: BridgeError)
    ensures
        error_view(e) == ("MISSING_ROUTE"@, "Request must provide method + endpoint"@, Some(
            "method/endpoint"@,
        ), Some("method='POST', endpoint='/settings/ping'"@), None::<Seq<char>>),
{
    make_error(
        "MISSING_ROUTE",
        string_from("Request must provide method + endpoint"),
        Some("method/endpoint"),
        Some("method='POST', endpoint='/settings/ping'"),
        None,
    )
}

/// The text without its leading `c` characters (`str::trim_start_matches`).
pub open spec fn strip_leading(s: Seq<char>, c: char) -> Seq<char>
    decreases s.len(),
{
    if s.len() > 0 && s[0] == c {
        strip_leading(s.drop_first(), c)
    } else {
        s
    }
}

/// The kind of a successful reply: the endpoint without its leading slashes, its other
/// slashes turned into dots, then `.reply`; `/settings/ping` gives `settings.ping.reply`.
pub open spec fn spec_success_kind(endpoint: Seq<char>) -> Seq<char> {
    strip_leading(endpoint, '/').map_values(|c: char| if c == '/' { '.' } else { c }) + ".reply"@
}

/// The kind of a successful reply on a route.
pub fn success_kind_from_route(route: &ResolvedRoute) -> (r: String)
    ensures
        r@ == spec_success_kind(route.endpoint@),
{
    let e = chars_of(route.endpoint.as_str());
    let n = e.len();
    let mut i: usize = 0;
    assert(e@.skip(0) =~= e@);
    while i < n && e[i] == '/'
        invariant
            n == e.len(),
            i <= n,
            strip_leading(e@, '/') == strip_leading(e@.skip(i as int), '/'),
        decreases n - i,
    {
        assert(e@.skip(i as int).drop_first() =~= e@.skip(i + 1));
        i += 1;
    }
    let ghost rest = e@.skip(i as int);
    assert(strip_leading(rest, '/') == rest);
    let mut out: Vec<char> = Vec::new();
    let mut j: usize = i;
    while j < n
        invariant
            n == e.len(),
            i <= j <= n,
            rest == e@.skip(i as int),
            out@ =~= rest.take(j - i).map_values(|c: char| if c == '/' { '.' } else { c }),
        decreases n - j,
    {
        let c = e[j];
        if c == '/' {
            out.push('.');
        } else {
            out.push(c);
        }
        assert(rest.take(j - i + 1) =~= rest.take(j - i).push(c));
        j += 1;
    }
    assert(rest.take(n - i) =~= rest);
    push_str(&mut out, ".reply");
    to_string(&out)
}

/// The endpoint with a leading slash.
pub fn normalize_endpoint(endpoint: &str) -> (r: String)
    ensures
        r@ == if starts_with(endpoint@, "/"@) {
            endpoint@
        } else {
            "/"@ + endpoint@
        },
{
    let e = chars_of(endpoint);
    if starts_with_exec(&e, "/") {
        string_from(endpoint)
    } else {
        let mut v: Vec<char> = Vec::new();
        push_str(&mut v, "/");
        push_chars(&mut v, &e);
        to_string(&v)
    }
}

/// Only web links may be opened: `http://` and `https://`.
pub fn is_allowed_url(url: &str) -> (r: bool)
    ensures
        r == (starts_with(url@, "https://"@) || starts_with(url@, "http://"@)),
{
    let u = chars_of(url);
    starts_with_exec(&u, "https://") || starts_with_exec(&u, "http://")
}

/// The route with the given method and endpoint.
pub open spec fn route_is(r: RouteDef, method: Seq<char>, endpoint: Seq<char>) -> bool {
    r.method@ == method && r.endpoint@ == endpoint
}

/// The first route with the given method and endpoint.
pub fn find_route<'a>(routes: &'a [RouteDef], method: &str, endpoint: &str) -> (r: Option<&'a RouteDef>)
    ensures
        match r {
            Some(d) => exists|i: int|
                0 <= i < routes@.len() && routes@[i] == *d && route_is(*d, method@, endpoint@) && (
                forall|j: int| 0 <= j < i ==> !route_is(#[trigger] routes@[j], method@, endpoint@)),
            None => forall|j: int|
                0 <= j < routes@.len() ==> !route_is(#[trigger] routes@[j], method@, endpoint@),
        },
{
    let n = routes.len();
    let mut i: usize = 0;
    while i < n
        invariant
            n == routes@.len(),
            i <= n,
            forall|j: int| 0 <= j < i ==> !route_is(#[trigger] routes@[j], method@, endpoint@),
        decreases n - i,
    {
        let d = &routes[i];
        if str_eq(d.method, method) && str_eq(d.endpoint, endpoint) {
            return Some(d);
        }
        i += 1;
    }
    None
}

/// `"METHOD /endpoint"` for each route, joined by `" or "`.
pub open spec fn routes_text(routes: Seq<RouteDef>) -> Seq<char>
    decreases routes.len(),
{
    if routes.len() == 0 {
        Seq::empty()
    } else if routes.len() == 1 {
        routes[0].method@ + " "@ + routes[0].endpoint@
    } else {
        routes_text(routes.drop_last()) + " or "@ + routes.last().method@ + " "@
            + routes.last().endpoint@
    }
}

/// The routes that the bridge serves, for an error message.
pub fn supported_routes_text(routes: &[RouteDef]) -> (r: String)
    ensures
        r@ == routes_text(routes@),
{
    let mut v: Vec<char> = Vec::new();
    let n = routes.len();
    let mut i: usize = 0;
    assert(routes@.take(0) =~= Seq::<RouteDef>::empty());
    while i < n
        invariant
            n == routes@.len(),
            i <= n,
            v@ =~= routes_text(routes@.take(i as int)),
        decreases n - i,
    {
        assert(routes@.take(i + 1).drop_last() =~= routes@.take(i as int));
        if i > 0 {
            push_str(&mut v, " or ");
        }
        push_str(&mut v, routes[i].method);
        push_str(&mut v, " ");
        push_str(&mut v, routes[i].endpoint);
        i += 1;
    }
    assert(routes@.take(n as int) =~= routes@);
    to_string(&v)
}

} // verus!

verus! {

/// A reply of the bridge before its payload is attached: the status, whether the
/// request succeeded, the reply's kind and, for a refused request, the error.
#[derive(Debug)]
pub struct BridgeReply {
    pub status: u16,
    pub request_id: Option<String>,
    pub ok: bool,
    pub kind: String,
    pub error: Option<BridgeError>,
}

/// A refusal: status 400, not ok, the given kind and error.
pub open spec fn is_refusal(r: BridgeReply, request_id: Option<Seq<char>>, kind: Seq<char>) -> bool {
    &&& r.status == 400
    &&& !r.ok
    &&& opt_chars(r.request_id) == request_id
    &&& r.kind@ == kind
    &&& r.error is Some
}

/// The reply to a request whose payload the route's decoder refused.
pub fn invalid_payload_reply(route_kind: &str, request_id: Option<String>, err: &str) -> (r: BridgeReply)
    ensures
        is_refusal(r, opt_chars(request_id), "error.invalid_payload"@),
        r.error matches Some(e) && error_view(e) == spec_invalid_payload_error(route_kind@, err@),
{
    BridgeReply {
        status: 400,
        request_id,
        ok: false,
        kind: string_from("error.invalid_payload"),
        error: Some(invalid_payload_error(route_kind, err)),
    }
}

/// The reply to a request body that is not JSON.
pub fn json_decode_reply(raw_body: &str, err: &str) -> (r: BridgeReply)
    ensures
        is_refusal(r, None, "error.invalid_json"@),
        r.error matches Some(e) && e.code@ == "INVALID_JSON"@ && opt_chars(e.received) == Some(
            raw_body@,
        ),
{
    BridgeReply {
        status: 400,
        request_id: None,
        ok: false,
        kind: string_from("error.invalid_json"),
        error: Some(json_decode_error(raw_body, err)),
    }
}

/// The reply to a request for a route that is not served.
pub fn unknown_route_reply(method: &str, endpoint: &str, request_id: Option<String>, supported_routes: &str) -> (r:
    BridgeReply)
    ensures
        is_refusal(r, opt_chars(request_id), "error.unknown_route"@),
        r.error matches Some(e) && e.code@ == "UNKNOWN_ROUTE"@ && opt_chars(e.expected) == Some(
            supported_routes@,
        ),
{
    BridgeReply {
        status: 400,
        request_id,
        ok: false,
        kind: string_from("error.unknown_route"),
        error: Some(unknown_route_error(method, endpoint, supported_routes)),
    }
}

/// The reply to a request without a method or an endpoint.
pub fn missing_route_reply(request_id: Option<String>) -> (r: BridgeReply)
    ensures
        is_refusal(r, opt_chars(request_id), "error.missing_route"@),
        r.error matches Some(e) && e.code@ == "MISSING_ROUTE"@,
{
    BridgeReply {
        status: 400,
        request_id,
        ok: false,
        kind: string_from("error.missing_route"),
        error: Some(missing_route_error()),
    }
}

/// The reply to a request that a route handled: status 200, ok, the kind derived from
/// the route's endpoint, no error.
pub fn success_reply(request_id: Option<String>, route: &ResolvedRoute) -> (r: BridgeReply)
    ensures
        r.status == 200,
        r.ok,
        opt_chars(r.request_id) == opt_chars(request_id),
        r.kind@ == spec_success_kind(route.endpoint@),
        r.error is None,
{
    BridgeReply {
        status: 200,
        request_id,
        ok: true,
        kind: success_kind_from_route(route),
        error: None,
    }
}

/// The error for a link that may not be opened.
pub open spec fn spec_invalid_url_error(url: Seq<char>) -> (Seq<char>, Seq<char>, Option<Seq<char>>, Option<Seq<char>>, Option<Seq<char>>) {
    (
        "INVALID_URL"@,
        "Only http:// and https:// URLs are allowed"@,
        Some("url"@),
        Some("http://... or https://..."@),
        Some(url),
    )
}

/// The refusal of a request to open a link that is not a web link: status 400, kind
/// `error.invalid_url`; `None` when the link may be opened.
pub fn external_url_refusal(request_id: Option<String>, url: &str) -> (r: Option<BridgeReply>)
    ensures
        match r {
            None => starts_with(url@, "https://"@) || starts_with(url@, "http://"@),
            Some(reply) => {
                &&& !(starts_with(url@, "https://"@) || starts_with(url@, "http://"@))
                &&& is_refusal(reply, opt_chars(request_id), "error.invalid_url"@)
                &&& reply.error matches Some(e) && error_view(e) == spec_invalid_url_error(url@)
            },
        },
{
    if is_allowed_url(url) {
        None
    } else {
        Some(
            BridgeReply {
                status: 400,
                request_id,
                ok: false,
                kind: string_from("error.invalid_url"),
                error: Some(
                    make_error(
                        "INVALID_URL",
                        string_from("Only http:// and https:// URLs are allowed"),
                        Some("url"),
                        Some("http://... or https://..."),
                        Some(string_from(url)),
                    ),
                ),
            },
        )
    }
}

/// The reply once the browser was asked to open a link: the route's success reply, or
/// status 500 with kind `error.open_external_url_failed` and the browser's error.
pub fn external_url_outcome(
    request_id: Option<String>,
    route: &ResolvedRoute,
    url: &str,
    opened: Result<(), String>,
) -> (r: BridgeReply)
    ensures
        match opened {
            Ok(()) => r.status == 200 && r.ok && r.kind@ == spec_success_kind(route.endpoint@)
                && r.error is None && opt_chars(r.request_id) == opt_chars(request_id),
            Err(err) => {
                &&& r.status == 500
                &&& !r.ok
                &&& opt_chars(r.request_id) == opt_chars(request_id)
                &&& r.kind@ == "error.open_external_url_failed"@
                &&& r.error matches Some(e) && error_view(e) == (
                    "OPEN_EXTERNAL_URL_FAILED"@,
                    "Failed to open URL in browser: "@ + err@,
                    Some("url"@),
                    Some("http://... or https://..."@),
                    Some(url@),
                )
            },
        },
{
    match opened {
        Ok(()) => success_reply(request_id, route),
        Err(err) => {
            let mut msg: Vec<char> = Vec::new();
            push_str(&mut msg, "Failed to open URL in browser: ");
            push_str(&mut msg, err.as_str());
            BridgeReply {
                status: 500,
                request_id,
                ok: false,
                kind: string_from("error.open_external_url_failed"),
                error: Some(
                    make_error(
                        "OPEN_EXTERNAL_URL_FAILED",
                        to_string(&msg),
                        Some("url"),
                        Some("http://... or https://..."),
                        Some(string_from(url)),
                    ),
                ),
            }
        },
    }
}

/// The reply once the file manager was asked to show the logs directory: the route's
/// success reply, or status 500 with kind `error.open_logs_dir_failed` and the error.
pub fn logs_dir_outcome(
    request_id: Option<String>,
    route: &ResolvedRoute,
    opened: Result<(), String>,
) -> (r: BridgeReply)
    ensures
        match opened {
            Ok(()) => r.status == 200 && r.ok && r.kind@ == spec_success_kind(route.endpoint@)
                && r.error is None && opt_chars(r.request_id) == opt_chars(request_id),
            Err(err) => {
                &&& r.status == 500
                &&& !r.ok
                &&& opt_chars(r.request_id) == opt_chars(request_id)
                &&& r.kind@ == "error.open_logs_dir_failed"@
                &&& r.error matches Some(e) && error_view(e) == (
                    "OPEN_LOGS_DIR_FAILED"@,
                    "Failed to open logs directory: "@ + err@,
                    None::<Seq<char>>,
                    None::<Seq<char>>,
                    Some(err@),
                )
            },
        },
{
    match opened {
        Ok(()) => success_reply(request_id, route),
        Err(err) => {
            let mut msg: Vec<char> = Vec::new();
            push_str(&mut msg, "Failed to open logs directory: ");
            push_str(&mut msg, err.as_str());
            BridgeReply {
                status: 500,
                request_id,
                ok: false,
                kind: string_from("error.open_logs_dir_failed"),
                error: Some(make_error("OPEN_LOGS_DIR_FAILED", to_string(&msg), None, None, Some(err))),
            }
        },
    }
}

/// The reply of the echo bridge to a request of the given kind: status 200, ok, the kind
/// followed by `.reply`, the request's id.
pub fn echo_reply(request_id: Option<String>, kind: &str) -> (r: BridgeReply)
    ensures
        r.status == 200,
        r.ok,
        opt_chars(r.request_id) == opt_chars(request_id),
        r.kind@ == kind@ + ".reply"@,
        r.error is None,
{
    let mut v: Vec<char> = chars_of(kind);
    push_str(&mut v, ".reply");
    BridgeReply { status: 200, request_id, ok: true, kind: to_string(&v), error: None }
}

/// The reply of the echo bridge to a body that is not a request: not ok, kind
/// `error.invalid_json`, no request id.
pub fn echo_parse_error_reply() -> (r: BridgeReply)
    ensures
        r.status == 400,
        !r.ok,
        r.request_id is None,
        r.kind@ == "error.invalid_json"@,
        r.error is None,
{
    BridgeReply {
        status: 400,
        request_id: None,
        ok: false,
        kind: string_from("error.invalid_json"),
        error: None,
    }
}

/// Law: the kind of a successful reply does not depend on whether the endpoint was
/// written with its leading slash.
pub proof fn law_success_kind_ignores_leading_slash(endpoint: Seq<char>)
    ensures
        spec_success_kind("/"@ + endpoint) == spec_success_kind(endpoint),
{
    reveal_strlit("/");
    assert(("/"@ + endpoint).drop_first() =~= endpoint);
}

} // verus!

verus! {

/// The decimal text of an integer, with a minus sign when it is negative.
pub open spec fn int_text(x: int) -> Seq<char> {
    if x < 0 {
        "-"@ + crate::hotkey::decimal((-x) as nat)
    } else {
        crate::hotkey::decimal(x as nat)
    }
}

/// Appends the decimal digits of `n`.
pub(crate) fn push_decimal(v: &mut Vec<char>, n: u128)
    ensures
        final(v)@ == old(v)@ + crate::hotkey::decimal(n as nat),
    decreases n,
{
    let d: u8 = (n % 10) as u8;
    let c = (48u8 + d) as char;
    if n >= 10 {
        push_decimal(v, n / 10);
        v.push(c);
        assert(crate::hotkey::decimal(n as nat) == crate::hotkey::decimal((n / 10) as nat).push(
            (('0' as nat) + n % 10) as char,
        ));
        assert(final(v)@ =~= old(v)@ + crate::hotkey::decimal(n as nat));
    } else {
        v.push(c);
        assert(final(v)@ =~= old(v)@ + crate::hotkey::decimal(n as nat));
    }
}

/// The reply text of the concatenation route: the number in decimal followed by the
/// text.
pub fn concat_result(x: i64, y: &str) -> (r: String)
    ensures
        r@ == int_text(x as int) + y@,
{
    let mut v: Vec<char> = Vec::new();
    if x < 0 {
        push_str(&mut v, "-");
        let wide: i128 = x as i128;
        let magnitude: u64 = (-wide) as u64;
        push_decimal(&mut v, magnitude as u128);
    } else {
        push_decimal(&mut v, x as u128);
    }
    push_str(&mut v, y);
    assert(v@ =~= int_text(x as int) + y@);
    to_string(&v)
}

} // verus!
