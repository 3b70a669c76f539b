use mcpg_plugin_backend_http::call::{
    draft_call, render_call, BackendRequest, PreparedCall, ResolvedCall,
};
use mcpg_plugin_backend_http::cdylib::{DrainEvent, HttpBackendCdylib, LiveStreams, StreamDrain};
use mcpg_plugin_backend_http::json::{field, parse_json, Json};
use mcpg_plugin_backend_http::outcome::CallOutcome;
use mcpg_plugin_backend_http::streaming::{
    begin_stream, BackendChunk, BodyDrain, BodyEvent, BodyReadStep, StreamPlan, StreamStart,
    StreamingState,
};
use mcpg_plugin_backend_http::types::{
    HttpBackendMethod, HttpRequestProfile, HttpResponseSummary,
};

fn prepared(resolution: Result<ResolvedCall, String>) -> PreparedCall {
    let profile = HttpRequestProfile {
        url: "https://x/".to_owned(),
        method: HttpBackendMethod::Post,
        headers: vec![],
        expected_status_codes: vec![200],
        require_json_response: false,
        max_response_bytes: 4096,
        timeout_ms: 2000,
        allow_private_backends: false,
    };
    let request = BackendRequest {
        payload: vec![],
        headers: vec![],
        request_id: "rq-1".to_owned(),
        session_id: None,
        identity: None,
        idempotency: None,
    };
    let draft = draft_call(&profile, "orders", &request, Ok(Json::Null)).ok().unwrap();
    PreparedCall { call: render_call(draft, None).ok().unwrap(), resolution }
}

fn resolved() -> PreparedCall {
    prepared(Ok(ResolvedCall { resolved_url: "https://x/".to_owned(), resolved_headers: vec![] }))
}

fn answered(status_code: u16) -> CallOutcome {
    CallOutcome::Answered {
        summary: HttpResponseSummary {
            status_code,
            content_type: None,
            retry_after_ms: None,
            duration_ms: 1,
            body: "body".to_owned(),
            body_truncated: true,
        },
        status_error: None,
        response_json: None,
        response_json_parse_error: None,
        json_error: None,
    }
}

fn downstream() -> Json {
    Json::Fields(vec![("code".to_owned(), Json::Text("transport".to_owned()))])
}

fn progress(cumulative_bytes: u64) -> BodyEvent {
    BodyEvent::Progress { cumulative_bytes }
}

#[test]
fn stream_counts_progress_and_ends_once() {
    let mut state = StreamingState::new(resolved(), "orders".to_owned());
    for (bytes, want, told) in [(10, 1, "received 10 bytes"), (25, 2, "received 25 bytes")] {
        let emission = state.take_event(progress(bytes)).expect("progress");
        assert!(emission.report.is_none());
        match emission.item {
            Ok(BackendChunk::Progress { progress, total, message }) => {
                assert_eq!(progress, want);
                assert_eq!(total, None);
                assert_eq!(message, told);
            }
            _ => panic!("progress"),
        }
    }
    let emission = state.take_event(BodyEvent::Ended { outcome: answered(503) }).expect("terminal");
    let report = emission.report.expect("report");
    assert_eq!(report.outcome_label, "http_5xx");
    assert_eq!(report.status_code, Some(503));
    assert_eq!(report.reason, None);
    match emission.item {
        Ok(BackendChunk::Done(response)) => {
            let envelope = parse_json(&response.payload).unwrap();
            assert_eq!(field(&envelope, "bodyTruncated"), Some(&Json::Bool(true)));
            assert!(!response.truncated);
        }
        _ => panic!("terminal"),
    }
    assert!(state.take_event(progress(30)).is_none());
    assert!(state.take_event(BodyEvent::Ended { outcome: answered(200) }).is_none());
    assert!(state.terminated);
}

#[test]
fn stream_tells_a_failure_in_its_terminal_chunk() {
    let mut state = StreamingState::new(resolved(), "orders".to_owned());
    let outcome =
        CallOutcome::Failed { error: "body timeout".to_owned(), downstream: downstream() };
    let emission = state.take_event(BodyEvent::Ended { outcome }).expect("terminal");
    let report = emission.report.expect("report");
    assert_eq!(report.outcome_label, "timeout");
    assert_eq!(report.status_code, None);
    assert_eq!(report.reason.as_deref(), Some("body timeout"));
    match emission.item {
        Ok(BackendChunk::Done(response)) => {
            let envelope = parse_json(&response.payload).unwrap();
            assert_eq!(field(&envelope, "downstreamError"), Some(&downstream()));
        }
        _ => panic!("terminal"),
    }
}

#[test]
fn exhausted_stream_hands_out_nothing() {
    let mut state = StreamingState::new(resolved(), "orders".to_owned());
    assert!(state.take_event(BodyEvent::Exhausted).is_none());
    assert!(!state.terminated);
}

#[test]
fn progress_stops_at_the_largest_number() {
    let mut state = StreamingState::new(resolved(), "orders".to_owned());
    state.progress_index = u32::MAX;
    match state.take_event(progress(1)).expect("progress").item {
        Ok(BackendChunk::Progress { progress, .. }) => assert_eq!(progress, u32::MAX),
        _ => panic!("progress"),
    }
}

#[test]
fn drain_ignores_progress() {
    let mut drain = BodyDrain::new();
    assert!(drain.take_step(Ok(BodyReadStep::Progress { cumulative_bytes: 3 })));
    assert!(drain.take_step(Ok(BodyReadStep::Done { body: "abc".to_owned(), truncated: true })));
    assert!(drain.take_step(Ok(BodyReadStep::Progress { cumulative_bytes: 9 })));
    assert_eq!(drain.finish(), Ok(("abc".to_owned(), true)));
}

#[test]
fn drain_of_nothing_is_empty() {
    assert_eq!(BodyDrain::new().finish(), Ok((String::new(), false)));
}

#[test]
fn drain_stops_at_the_first_error() {
    let mut drain = BodyDrain::new();
    assert!(!drain.take_step(Err("reset".to_owned())));
    assert!(!drain.take_step(Ok(BodyReadStep::Done { body: "late".to_owned(), truncated: false })));
    assert!(!drain.take_step(Err("again".to_owned())));
    assert_eq!(drain.finish(), Err("reset".to_owned()));
}

#[test]
fn unresolved_stream_is_one_chunk() {
    let call = prepared(Err("no credential".to_owned()));
    let start = StreamStart::Unresolved { downstream: downstream() };
    match begin_stream(call, "orders".to_owned(), start) {
        StreamPlan::Once { conclusion } => {
            assert_eq!(conclusion.outcome_label, "invalid_spec");
            assert_eq!(conclusion.reason.as_deref(), Some("no credential"));
            assert!(conclusion.answer.is_ok());
        }
        _ => panic!("once"),
    }
}

#[test]
fn unsent_stream_is_one_chunk() {
    let start = StreamStart::Failed { error: "refused".to_owned(), downstream: downstream() };
    match begin_stream(resolved(), "orders".to_owned(), start) {
        StreamPlan::Once { conclusion } => {
            assert_eq!(conclusion.outcome_label, "transport");
            assert_eq!(conclusion.reason.as_deref(), Some("refused"));
        }
        _ => panic!("once"),
    }
}

#[test]
fn upstream_decides_between_drain_and_stream() {
    let start = StreamStart::Started { is_streaming: false };
    match begin_stream(resolved(), "orders".to_owned(), start) {
        StreamPlan::Drain { backend_name, drain, .. } => {
            assert_eq!(backend_name, "orders");
            assert_eq!(drain.finish(), Ok((String::new(), false)));
        }
        _ => panic!("drain"),
    }
    let start = StreamStart::Started { is_streaming: true };
    match begin_stream(resolved(), "orders".to_owned(), start) {
        StreamPlan::Stream { state } => {
            assert_eq!(state.backend_name, "orders");
            assert_eq!(state.progress_index, 0);
            assert!(!state.terminated);
        }
        _ => panic!("stream"),
    }
}

#[test]
fn bridge_has_its_host() {
    let bridge = HttpBackendCdylib::<&str, (), ()>::from_host_config("{}", "host");
    assert_eq!(bridge.inner.host_handle(), Some(&"host"));
    assert_eq!(bridge.manifest().id, "dev.mcpg.backend.http");
    assert_eq!(bridge.kind(), "http");
    assert_eq!(
        bridge.audit_metadata("any"),
        vec![("http.transport".to_owned(), Json::Text("plugin".to_owned()))]
    );
    assert!(bridge.inner.lookup("any").is_none());
}

#[test]
fn stream_tokens_count_from_one() {
    let mut live = LiveStreams::new();
    assert_eq!(live.open("a"), 1);
    assert_eq!(live.open("b"), 2);
    assert_eq!(live.close(1), Some("a"));
    assert_eq!(live.close(1), None);
    assert_eq!(live.open("c"), 3);
    assert_eq!(live.close(2), Some("b"));
    assert_eq!(live.close(0), None);
    assert_eq!(live.close(3), Some("c"));
}

#[test]
fn drained_stream_hands_on_every_chunk() {
    let mut drain = StreamDrain::new();
    assert_eq!(drain.take_event(DrainEvent::Next { chunk: Some(1) }), Some(1));
    assert_eq!(drain.take_event(DrainEvent::Next { chunk: Some(2) }), Some(2));
    assert_eq!(drain.take_event(DrainEvent::Next { chunk: None }), None::<i32>);
    assert!(drain.stopped);
    assert_eq!(drain.take_event(DrainEvent::Next { chunk: Some(3) }), None);
}

#[test]
fn cancelled_stream_hands_on_nothing_more() {
    let mut drain = StreamDrain::new();
    assert_eq!(drain.take_event(DrainEvent::Next { chunk: Some(1) }), Some(1));
    assert_eq!(drain.take_event(DrainEvent::<i32>::Cancelled), None);
    assert_eq!(drain.take_event(DrainEvent::Next { chunk: Some(2) }), None);
}
