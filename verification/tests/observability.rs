use mcpg_plugin_backend_http::error::BackendError;
use mcpg_plugin_backend_http::json::{field, Json};
use mcpg_plugin_backend_http::observability::{
    audit_action_for_outcome, audit_event, call_span, host_actions, host_outcome_label_for_refusal,
    host_outcome_label_for_status, host_outcome_label_for_transport_error, host_report, observe,
    synthetic_system_identity, AuditOutcome, CallRecord, HostAction, PluginIdentity,
};
use mcpg_plugin_backend_http::plugin::HttpBackendPlugin;

fn identity() -> PluginIdentity {
    PluginIdentity {
        kind: "user".to_owned(),
        trust_level: "verified".to_owned(),
        subject_id: Some("u-1".to_owned()),
        auth_provider: Some("oidc".to_owned()),
        issuer: Some("https://issuer".to_owned()),
        roles: vec!["r".to_owned()],
        groups: vec!["g".to_owned()],
        scopes: vec!["s".to_owned()],
        attributes: vec![("k".to_owned(), Json::Bool(true))],
    }
}

fn record<'a>(label: &'static str, identity: Option<&'a PluginIdentity>) -> CallRecord<'a> {
    CallRecord {
        backend_name: "orders",
        outcome_label: label,
        status_code: Some(503),
        reason: Some("why"),
        identity,
        request_id: "rq-1",
        duration_ns: 12_345_678,
        alias: "http",
    }
}

#[test]
fn statuses_have_bounded_labels() {
    let cases = [
        (0, "ok"),
        (100, "ok"),
        (200, "ok"),
        (299, "ok"),
        (304, "ok"),
        (399, "ok"),
        (400, "http_4xx"),
        (499, "http_4xx"),
        (500, "http_5xx"),
        (599, "http_5xx"),
        (600, "ok"),
        (u16::MAX, "ok"),
    ];
    for (status, want) in cases {
        assert_eq!(host_outcome_label_for_status(status), want, "{status}");
    }
}

#[test]
fn transport_failures_are_timeouts_or_not() {
    let cases = [
        ("operation timed out", "timeout"),
        ("Request TIMEOUT", "timeout"),
        ("Timed Out", "timeout"),
        ("time out", "transport"),
        ("connection refused", "transport"),
        ("", "transport"),
    ];
    for (message, want) in cases {
        assert_eq!(host_outcome_label_for_transport_error(message), want, "{message}");
    }
}

#[test]
fn refusals_have_labels() {
    let message = || "m".to_owned();
    let cases = [
        (BackendError::ProfileNotFound { backend_name: message() }, "profile_not_found"),
        (BackendError::InvalidSpec { message: message() }, "invalid_spec"),
        (BackendError::Timeout { message: message() }, "timeout"),
        (BackendError::Transport { message: message() }, "transport"),
    ];
    for (error, want) in cases {
        assert_eq!(host_outcome_label_for_refusal(&error), want);
    }
}

#[test]
fn four_outcomes_are_audited() {
    let cases = [
        ("timeout", Some("dev.mcpg.backend.http.request_timeout")),
        ("transport", Some("dev.mcpg.backend.http.request_failed")),
        ("http_5xx", Some("dev.mcpg.backend.http.upstream_5xx")),
        ("invalid_spec", Some("dev.mcpg.backend.http.request_failed")),
        ("ok", None),
        ("http_4xx", None),
        ("profile_not_found", None),
        ("", None),
    ];
    for (label, want) in cases {
        assert_eq!(audit_action_for_outcome(label), want, "{label}");
    }
}

#[test]
fn system_traffic_has_an_identity() {
    let system = synthetic_system_identity();
    assert_eq!(system.kind, "system");
    assert_eq!(system.trust_level, "verified");
    assert_eq!(system.subject_id.as_deref(), Some("dev.mcpg.backend.http"));
    assert_eq!(system.auth_provider, None);
    assert_eq!(system.issuer, None);
    assert!(system.roles.is_empty() && system.groups.is_empty() && system.scopes.is_empty());
    assert!(system.attributes.is_empty());
}

#[test]
fn audit_event_tells_the_call() {
    let who = identity();
    let event = audit_event(&record("http_5xx", Some(&who)), "2024-01-01T00:00:00.000Z".to_owned())
        .expect("audited");
    assert_eq!(event.event_id, "http-rq-1-12345678");
    assert_eq!(event.occurred_at, "2024-01-01T00:00:00.000Z");
    assert_eq!(event.action, "dev.mcpg.backend.http.upstream_5xx");
    assert_eq!(event.resource.as_deref(), Some("http-binding://orders"));
    assert_eq!(event.outcome, AuditOutcome::Failure);
    assert_eq!(event.request_id.as_deref(), Some("rq-1"));
    assert_eq!(event.node_id, None);
    assert_eq!(event.prev_event_hash, None);
    assert_eq!(event.actor.subject_id.as_deref(), Some("u-1"));
    assert_eq!(event.actor.issuer.as_deref(), Some("https://issuer"));
    assert_eq!(event.actor.auth_provider.as_deref(), Some("oidc"));
    assert_eq!(event.actor.roles, vec!["r"]);
    assert_eq!(event.actor.groups, vec!["g"]);
    assert_eq!(event.actor.scopes, vec!["s"]);
    assert_eq!(event.actor.attributes, vec![("k".to_owned(), Json::Bool(true))]);
    let text = |s: &str| Json::Text(s.to_owned());
    assert_eq!(field(&event.details, "backend"), Some(&text("orders")));
    assert_eq!(field(&event.details, "duration_ms"), Some(&Json::Unsigned(12)));
    assert_eq!(field(&event.details, "outcome"), Some(&text("http_5xx")));
    assert_eq!(field(&event.details, "alias"), Some(&text("http")));
    assert_eq!(field(&event.details, "status_code"), Some(&Json::Unsigned(503)));
    assert_eq!(field(&event.details, "reason"), Some(&text("why")));
}

#[test]
fn audit_event_leaves_out_what_is_not_known() {
    let mut call = record("timeout", None);
    call.status_code = None;
    call.reason = None;
    let event = audit_event(&call, String::new()).expect("audited");
    assert_eq!(event.actor.kind, "system");
    assert_eq!(field(&event.details, "status_code"), None);
    assert_eq!(field(&event.details, "reason"), None);
}

#[test]
fn normal_traffic_is_counted_but_not_audited() {
    for label in ["ok", "http_4xx", "profile_not_found"] {
        let report = host_report(&record(label, None), String::new());
        assert_eq!(report.histogram, "mcpg_http_backend_latency_seconds");
        assert_eq!(report.counter, "mcpg_http_backend_calls_total");
        assert_eq!(report.increment, 1);
        assert_eq!(report.duration_ns, 12_345_678);
        assert_eq!(report.label_name, "outcome");
        assert_eq!(report.label_value, label);
        assert!(report.audit.is_none());
    }
}

#[test]
fn audit_event_has_the_time_of_day() {
    let report = observe(true, &record("transport", None)).expect("observed");
    let moment = report.audit.expect("audited").occurred_at;
    assert_eq!(moment.len(), "2024-01-01T00:00:00.000Z".len());
    assert!(moment.ends_with('Z'));
    assert_eq!(&moment[10..11], "T");
    for (place, (got, want)) in moment.chars().zip("dddd-dd-ddTdd:dd:dd.dddZ".chars()).enumerate() {
        if want == 'd' {
            assert!(got.is_ascii_digit(), "{place} of {moment}");
        } else {
            assert_eq!(got, want, "{place} of {moment}");
        }
    }
    assert!(chrono::DateTime::parse_from_rfc3339(&moment).is_ok());
}

#[test]
fn span_ends_after_everything_else() {
    let told = |action: &HostAction| match action {
        HostAction::Sample { name, duration_ns, label } => {
            format!("sample {name} {duration_ns} {}={}", label.0, label.1)
        }
        HostAction::Count { name, increment, label } => {
            format!("count {name} {increment} {}={}", label.0, label.1)
        }
        HostAction::Audit { event } => format!("audit {}", event.action),
        HostAction::EndSpan => "end".to_owned(),
    };
    let actions = |report| host_actions(report).iter().map(told).collect::<Vec<String>>();
    let audited = host_report(&record("timeout", None), String::new());
    assert_eq!(
        actions(Some(audited)),
        vec![
            "sample mcpg_http_backend_latency_seconds 12345678 outcome=timeout",
            "count mcpg_http_backend_calls_total 1 outcome=timeout",
            "audit dev.mcpg.backend.http.request_timeout",
            "end",
        ]
    );
    let counted = host_report(&record("ok", None), String::new());
    assert_eq!(
        actions(Some(counted)),
        vec![
            "sample mcpg_http_backend_latency_seconds 12345678 outcome=ok",
            "count mcpg_http_backend_calls_total 1 outcome=ok",
            "end",
        ]
    );
    assert_eq!(actions(None), vec!["end"]);
}

#[test]
fn reports_of_one_call_tell_the_same() {
    let who = identity();
    let mut plugin = HttpBackendPlugin::<u8, u8>::new();
    assert!(plugin.set_host_handle(1));
    let ours = observe(true, &record("http_5xx", Some(&who))).expect("observed");
    let theirs = plugin.report(&record("http_5xx", Some(&who))).expect("observed");
    assert_eq!(ours.histogram, theirs.histogram);
    assert_eq!(ours.duration_ns, theirs.duration_ns);
    assert_eq!(ours.counter, theirs.counter);
    assert_eq!(ours.increment, theirs.increment);
    assert_eq!((ours.label_name, ours.label_value), (theirs.label_name, theirs.label_value));
    let (ours, theirs) = (ours.audit.expect("audited"), theirs.audit.expect("audited"));
    assert_eq!(ours.event_id, theirs.event_id);
    assert_eq!(ours.action, theirs.action);
    assert_eq!(ours.actor.subject_id, theirs.actor.subject_id);
    assert_eq!(ours.resource, theirs.resource);
    assert_eq!(ours.outcome, theirs.outcome);
    assert_eq!(ours.request_id, theirs.request_id);
    assert_eq!(ours.details, theirs.details);
}

#[test]
fn nobody_listens_without_a_host() {
    assert!(observe(false, &record("transport", None)).is_none());
    let mut plugin = HttpBackendPlugin::<u8, u8>::new();
    assert!(plugin.report(&record("ok", None)).is_none());
    plugin.set_host_handle(0);
    let report = plugin.report(&record("ok", None)).expect("a host listens");
    assert_eq!(report.label_value, "ok");
}

#[test]
fn spans_name_binding_and_request() {
    let span = call_span(false, "orders", "rq-1");
    assert_eq!(span.name, "http_backend.execute");
    assert_eq!(
        span.attributes,
        Json::Fields(vec![
            ("backend".to_owned(), Json::Text("orders".to_owned())),
            ("request_id".to_owned(), Json::Text("rq-1".to_owned())),
        ])
    );
    assert_eq!(call_span(true, "", "").name, "http_backend.execute_streaming");
}
