use mcpg_plugin_backend_http::call::{
    draft_call, find_header, parse_arguments, render_call, trace_headers, BackendRequest,
    IdempotencyHint, PreparedCall, ResolvedCall,
};
use mcpg_plugin_backend_http::envelope::build_envelope;
use mcpg_plugin_backend_http::error::{joined, transport, BackendError};
use mcpg_plugin_backend_http::json::{field, json_bytes, parse_json, Json};
use mcpg_plugin_backend_http::outcome::{
    build_envelope_from_outcome, conclude_buffered, conclude_refused, conclude_streamed,
    conclude_unresolved, effective_error_text, respond, CallOutcome,
};
use mcpg_plugin_backend_http::types::{
    HttpBackendMethod, HttpCallMode, HttpRequestProfile, HttpResponseSummary,
};

fn pair(name: &str, value: &str) -> (String, String) {
    (name.to_owned(), value.to_owned())
}

fn text(s: &str) -> Json {
    Json::Text(s.to_owned())
}

fn doc(s: &str) -> Json {
    parse_json(s.as_bytes()).unwrap()
}

fn profile(method: HttpBackendMethod, headers: Vec<(String, String)>) -> HttpRequestProfile {
    HttpRequestProfile {
        url: "https://orders.internal/v1".to_owned(),
        method,
        headers,
        expected_status_codes: vec![200, 201],
        require_json_response: true,
        max_response_bytes: 4096,
        timeout_ms: 2000,
        allow_private_backends: false,
    }
}

fn request(payload: &str, headers: Vec<(String, String)>) -> BackendRequest {
    BackendRequest {
        payload: payload.as_bytes().to_vec(),
        headers,
        request_id: "rq-1".to_owned(),
        session_id: None,
        identity: None,
        idempotency: Some(IdempotencyHint { key: "once".to_owned() }),
    }
}

fn prepared(method: HttpBackendMethod, resolution: Result<ResolvedCall, String>) -> PreparedCall {
    let profile = profile(method, vec![pair("X-Template", "${arguments.id}")]);
    let request = request(r#"{"id": 7}"#, vec![]);
    let arguments = parse_arguments(&request.payload);
    let draft = draft_call(&profile, "orders", &request, arguments).ok().unwrap();
    let query = Some(Ok("id=7".to_owned()));
    PreparedCall { call: render_call(draft, query).ok().unwrap(), resolution }
}

fn resolved() -> Result<ResolvedCall, String> {
    Ok(ResolvedCall {
        resolved_url: "https://orders.internal/v1?x".to_owned(),
        resolved_headers: vec![pair("X-Template", "7")],
    })
}

fn summary(status_code: u16) -> HttpResponseSummary {
    HttpResponseSummary {
        status_code,
        content_type: Some("application/json".to_owned()),
        retry_after_ms: None,
        duration_ms: 12,
        body: "{\"a\":1}".to_owned(),
        body_truncated: false,
    }
}

fn answered(status_code: u16) -> CallOutcome {
    CallOutcome::Answered {
        summary: summary(status_code),
        status_error: None,
        response_json: Some(doc("{\"a\":1}")),
        response_json_parse_error: None,
        json_error: None,
    }
}

fn failed(error: &str) -> CallOutcome {
    CallOutcome::Failed { error: error.to_owned(), downstream: doc(r#"{"code":"transport"}"#) }
}

#[test]
fn empty_payload_is_an_empty_object() {
    assert_eq!(parse_arguments(&vec![]), Ok(Json::Fields(vec![])));
    assert_eq!(parse_arguments(&b"[1]".to_vec()), Ok(Json::Items(vec![Json::Unsigned(1)])));
    assert!(parse_arguments(&b"not json".to_vec()).is_err());
}

#[test]
fn headers_are_found_in_any_case() {
    let headers = vec![pair("A", "1"), pair("b", "2"), pair("a", "3")];
    assert_eq!(find_header(&headers, "a"), Some("1"));
    assert_eq!(find_header(&headers, "B"), Some("2"));
    assert_eq!(find_header(&headers, "c"), None);
}

#[test]
fn only_the_trace_context_goes_on() {
    let headers = vec![
        pair("TraceParent", "p"),
        pair("cookie", "c"),
        pair("TRACESTATE", "s"),
        pair("trace", "t"),
    ];
    assert_eq!(trace_headers(&headers), vec![pair("TraceParent", "p"), pair("TRACESTATE", "s")]);
}

#[test]
fn draft_reads_the_request() {
    let request = request(
        r#"{"id": 7}"#,
        vec![pair("MCPG-Tool-Name", "orders.fetch"), pair("traceparent", "p")],
    );
    let arguments = parse_arguments(&request.payload);
    let profile = profile(HttpBackendMethod::Get, vec![pair("IDEMPOTENCY-key", "mine")]);
    let draft = draft_call(&profile, "orders", &request, arguments).ok().unwrap();
    assert_eq!(draft.tool_name, "orders.fetch");
    assert_eq!(draft.arguments, doc(r#"{"id": 7}"#));
    assert_eq!(draft.call_mode, HttpCallMode::QueryString);
    assert_eq!(draft.trace_headers, vec![pair("traceparent", "p")]);
    assert_eq!(draft.idempotency_key.as_deref(), Some("once"));
    assert!(draft.operator_has_idempotency_key);
    assert_eq!(draft.profile.url, "https://orders.internal/v1");
}

#[test]
fn draft_falls_back_to_the_backend_name() {
    let mut request = request("", vec![]);
    request.idempotency = None;
    let profile = profile(HttpBackendMethod::Post, vec![]);
    let draft = draft_call(&profile, "orders", &request, Ok(Json::Null)).ok().unwrap();
    assert_eq!(draft.tool_name, "orders");
    assert_eq!(draft.idempotency_key, None);
    assert!(!draft.operator_has_idempotency_key);
}

#[test]
fn draft_refuses_an_unreadable_payload() {
    let profile = profile(HttpBackendMethod::Post, vec![]);
    let error = draft_call(&profile, "orders", &request("", vec![]), Err("why".to_owned()))
        .err()
        .unwrap();
    assert_eq!(
        error,
        BackendError::InvalidSpec {
            message: "HTTP plugin payload is not valid JSON: why".to_owned()
        }
    );
}

#[test]
fn post_sends_a_body_and_get_a_query() {
    let post = prepared(HttpBackendMethod::Post, resolved()).call;
    assert_eq!(post.request_body, Some(doc(r#"{"id": 7}"#)));
    assert_eq!(post.request_query, None);
    let get = prepared(HttpBackendMethod::Get, resolved()).call;
    assert_eq!(get.request_body, None);
    assert_eq!(get.request_query.as_deref(), Some("id=7"));
}

#[test]
fn only_a_query_call_renders_its_arguments() {
    let post = prepared(HttpBackendMethod::Post, resolved()).call.draft;
    assert_eq!(post.query_arguments(), None);
    let get = prepared(HttpBackendMethod::Get, resolved()).call.draft;
    assert_eq!(get.query_arguments(), Some(&doc(r#"{"id": 7}"#)));
}

#[test]
fn unrenderable_query_is_refused() {
    let draft = prepared(HttpBackendMethod::Get, resolved()).call.draft;
    let error = render_call(draft, Some(Err("nested".to_owned()))).err().unwrap();
    assert_eq!(
        error,
        BackendError::InvalidSpec { message: "HTTP query call: nested".to_owned() }
    );
}

#[test]
fn outgoing_call_is_the_prepared_one() {
    let post = prepared(HttpBackendMethod::Post, resolved());
    let outgoing = post.outgoing().expect("resolved");
    assert_eq!(outgoing.url, "https://orders.internal/v1?x");
    assert_eq!(outgoing.call_mode, HttpCallMode::JsonBody);
    assert_eq!(outgoing.body, &doc(r#"{"id": 7}"#));
    assert_eq!(outgoing.query, None);
    assert!(outgoing.trace_headers.is_empty());
    assert_eq!(outgoing.idempotency_key, Some("once"));
    assert!(!outgoing.operator_has_idempotency_key);
    let get = prepared(HttpBackendMethod::Get, resolved());
    let outgoing = get.outgoing().expect("resolved");
    assert_eq!(outgoing.body, &doc(r#"{"id": 7}"#));
    assert_eq!(outgoing.query, Some("id=7"));
}

#[test]
fn resolved_headers_stand_in_the_order_of_names() {
    let headers = vec![pair("b", "1"), pair("a", "2"), pair("b", "3")];
    let resolved = ResolvedCall::new("https://x/".to_owned(), &headers);
    assert_eq!(resolved.resolved_url, "https://x/");
    assert_eq!(resolved.resolved_headers, vec![pair("a", "2"), pair("b", "3")]);
}

#[test]
fn unresolved_call_sends_nothing() {
    let call = prepared(HttpBackendMethod::Post, Err("no credential".to_owned()));
    assert!(call.outgoing().is_none());
}

#[test]
fn envelope_tells_an_answer() {
    let call = prepared(HttpBackendMethod::Post, resolved());
    let envelope = build_envelope_from_outcome(&call, "orders", &answered(200));
    let want = doc(
        r#"{
        "toolName": "orders", "profile": "orders", "requestKind": "json_body",
        "request": {"kind": "json_body", "arguments": {"id": 7}, "body": {"id": 7}, "query": null},
        "response": {"durationMs": 12, "statusCode": 200, "contentType": "application/json",
                     "body": "{\"a\":1}", "bodyTruncated": false, "json": {"a": 1},
                     "jsonParseError": null},
        "error": null, "downstreamError": null, "downstreamErrors": [],
        "url": "https://orders.internal/v1?x", "timeoutMs": 2000, "maxResponseBytes": 4096,
        "expectedStatusCodes": [200, 201], "requireJsonResponse": true,
        "requestHeaders": {"X-Template": "7"}, "requestArguments": {"id": 7},
        "requestBody": {"id": 7}, "requestQuery": null, "durationMs": 12, "statusCode": 200,
        "responseContentType": "application/json", "body": "{\"a\":1}", "bodyTruncated": false,
        "responseJson": {"a": 1}, "responseJsonParseError": null
    }"#,
    );
    assert_eq!(parse_json(&json_bytes(&envelope).unwrap()).unwrap(), want);
}

#[test]
fn envelope_shows_the_first_failure() {
    let call = prepared(HttpBackendMethod::Get, resolved());
    let outcome = CallOutcome::Answered {
        summary: summary(500),
        status_error: Some(doc(r#"{"code":"status"}"#)),
        response_json: None,
        response_json_parse_error: Some("bad".to_owned()),
        json_error: Some(doc(r#"{"code":"json"}"#)),
    };
    let envelope = build_envelope_from_outcome(&call, "orders", &outcome);
    assert_eq!(field(&envelope, "downstreamError"), Some(&doc(r#"{"code":"status"}"#)));
    assert_eq!(
        field(&envelope, "downstreamErrors"),
        Some(&doc(r#"[{"code":"status"},{"code":"json"}]"#))
    );
    assert_eq!(field(&envelope, "responseJsonParseError"), Some(&text("bad")));
    assert_eq!(field(&envelope, "requestQuery"), Some(&text("id=7")));
}

#[test]
fn envelope_shows_a_lone_json_failure_first() {
    let call = prepared(HttpBackendMethod::Post, resolved());
    let outcome = CallOutcome::Answered {
        summary: summary(200),
        status_error: None,
        response_json: None,
        response_json_parse_error: None,
        json_error: Some(doc(r#"{"code":"json"}"#)),
    };
    let envelope = build_envelope_from_outcome(&call, "orders", &outcome);
    assert_eq!(field(&envelope, "downstreamError"), Some(&doc(r#"{"code":"json"}"#)));
    assert_eq!(field(&envelope, "downstreamErrors"), Some(&doc(r#"[{"code":"json"}]"#)));
}

#[test]
fn envelope_of_an_unresolved_call_shows_the_binding() {
    let call = prepared(HttpBackendMethod::Post, Err("no credential".to_owned()));
    let envelope = build_envelope_from_outcome(&call, "orders", &failed(""));
    assert_eq!(field(&envelope, "error"), Some(&text("no credential")));
    assert_eq!(field(&envelope, "url"), Some(&text("https://orders.internal/v1")));
    assert_eq!(
        field(&envelope, "requestHeaders"),
        Some(&doc(r#"{"X-Template": "${arguments.id}"}"#))
    );
    assert_eq!(field(&envelope, "response"), Some(&Json::Null));
    assert_eq!(field(&envelope, "statusCode"), Some(&Json::Null));
    assert_eq!(field(&envelope, "downstreamError"), Some(&doc(r#"{"code":"transport"}"#)));
    assert_eq!(field(&envelope, "downstreamErrors"), Some(&doc(r#"[{"code":"transport"}]"#)));
}

#[test]
fn envelope_is_built_from_its_parts() {
    let profile = profile(HttpBackendMethod::Get, vec![]);
    let envelope = build_envelope(
        "tool",
        "name",
        &profile,
        HttpCallMode::QueryString,
        &Json::Null,
        None,
        Some("q=1"),
        None,
        None,
        None,
        None,
        &vec![],
        Some("down"),
        None,
        None,
    );
    assert_eq!(field(&envelope, "toolName"), Some(&text("tool")));
    assert_eq!(field(&envelope, "profile"), Some(&text("name")));
    assert_eq!(field(&envelope, "requestKind"), Some(&text("query_string")));
    assert_eq!(field(&envelope, "error"), Some(&text("down")));
    assert_eq!(field(&envelope, "url"), Some(&text("https://orders.internal/v1")));
    match envelope {
        Json::Fields(entries) => assert_eq!(entries.len(), 24),
        other => panic!("{other:?}"),
    }
}

#[test]
fn error_text_falls_back_to_the_resolution() {
    assert_eq!(effective_error_text("own", &Err("resolution".to_owned())), "own");
    assert_eq!(effective_error_text("", &Err("resolution".to_owned())), "resolution");
    assert_eq!(effective_error_text("", &resolved()), "unknown HTTP plugin error");
}

#[test]
fn buffered_answer_is_labelled_by_its_status() {
    let call = prepared(HttpBackendMethod::Post, resolved());
    for (status, label) in [(200, "ok"), (404, "http_4xx"), (503, "http_5xx")] {
        let conclusion = conclude_buffered(&call, "orders", &answered(status));
        assert_eq!(conclusion.outcome_label, label);
        assert_eq!(conclusion.status_code, Some(status));
        assert_eq!(conclusion.reason, None);
        let response = conclusion.answer.ok().unwrap();
        assert!(!response.truncated);
        let envelope = parse_json(&response.payload).unwrap();
        assert_eq!(field(&envelope, "statusCode"), Some(&Json::Unsigned(status as u64)));
    }
}

#[test]
fn buffered_failure_is_labelled_by_its_text() {
    let call = prepared(HttpBackendMethod::Post, resolved());
    let conclusion = conclude_buffered(&call, "orders", &failed("operation timed out"));
    assert_eq!(conclusion.outcome_label, "timeout");
    assert_eq!(conclusion.status_code, None);
    assert_eq!(conclusion.reason.as_deref(), Some("operation timed out"));
    let conclusion = conclude_buffered(&call, "orders", &failed("refused"));
    assert_eq!(conclusion.outcome_label, "transport");
    let conclusion = conclude_buffered(&call, "orders", &failed(""));
    assert_eq!(conclusion.outcome_label, "invalid_spec");
    assert_eq!(conclusion.reason, None);
}

#[test]
fn unresolved_call_is_a_bad_configuration() {
    let call = prepared(HttpBackendMethod::Post, Err("credential timed out".to_owned()));
    let conclusion = conclude_unresolved(&call, "orders", doc(r#"{"code":"transport"}"#));
    assert_eq!(conclusion.outcome_label, "invalid_spec");
    assert_eq!(conclusion.status_code, None);
    assert_eq!(conclusion.reason.as_deref(), Some("credential timed out"));
    let envelope = parse_json(&conclusion.answer.ok().unwrap().payload).unwrap();
    assert_eq!(field(&envelope, "error"), Some(&text("credential timed out")));
}

#[test]
fn streamed_call_gets_the_buffered_answer() {
    let call = prepared(HttpBackendMethod::Post, resolved());
    for outcome in [answered(200), answered(500), failed("refused")] {
        let buffered = conclude_buffered(&call, "orders", &outcome);
        let streamed = conclude_streamed(&call, "orders", &outcome);
        assert_eq!(streamed.outcome_label, buffered.outcome_label);
        assert_eq!(streamed.status_code, buffered.status_code);
        assert_eq!(streamed.reason, buffered.reason);
        assert_eq!(streamed.answer.ok().unwrap().payload, buffered.answer.ok().unwrap().payload);
    }
}

#[test]
fn refused_call_is_told_with_its_error() {
    let error = BackendError::ProfileNotFound { backend_name: "b".to_owned() };
    let conclusion = conclude_refused(error, "no profile b".to_owned());
    assert_eq!(conclusion.outcome_label, "profile_not_found");
    assert_eq!(conclusion.status_code, None);
    assert_eq!(conclusion.reason.as_deref(), Some("no profile b"));
    assert_eq!(
        conclusion.answer.err(),
        Some(BackendError::ProfileNotFound { backend_name: "b".to_owned() })
    );
}

#[test]
fn reply_is_the_text_of_the_envelope() {
    let response = respond(&doc(r#"{"b": 1, "a": [true]}"#)).ok().unwrap();
    assert_eq!(response.payload, br#"{"a":[true],"b":1}"#.to_vec());
    assert!(!response.truncated);
}

#[test]
fn errors_are_put_together() {
    assert_eq!(joined("a", "b"), "ab");
    assert_eq!(transport("a: ", "b"), BackendError::Transport { message: "a: b".to_owned() });
}
