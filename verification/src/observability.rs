//! Outcome labels, audit actions and the report that a call leaves with the
//! host.

use crate::clock::{is_moment, rfc3339_now};
use crate::error::BackendError;
use crate::json::{field_of, fields_of, put, text_json, Json, JsonView};
use crate::text::{
    chars_of, contains_chars, copy_strings, copy_text, decimal, decimal_text,
    law_occurrence_splits_the_text, lowered, lowered_chars, occurs_in, same_ignoring_case,
    text_eq, text_of, texts,
};
use vstd::prelude::*;
use vstd::string::*;

verus! {

/// The outcome label of an HTTP status: 4xx and 5xx each have one, everything
/// else is `ok`.
pub open spec fn status_label(status: u16) -> Seq<char> {
    if 400 <= status <= 499 {
        "http_4xx"@
    } else if 500 <= status <= 599 {
        "http_5xx"@
    } else {
        "ok"@
    }
}

/// A failure message that speaks of a timeout, in any ASCII case.
pub open spec fn tells_timeout(message: Seq<char>) -> bool {
    occurs_in(lowered(message), "timed out"@) || occurs_in(lowered(message), "timeout"@)
}

/// The outcome label of a call that got no status.
pub open spec fn transport_label(message: Seq<char>) -> Seq<char> {
    if tells_timeout(message) {
        "timeout"@
    } else {
        "transport"@
    }
}

/// The outcome label of a call that was refused before it went out.
pub open spec fn refusal_label(error: BackendError) -> Seq<char> {
    match error {
        BackendError::ProfileNotFound { .. } => "profile_not_found"@,
        BackendError::InvalidSpec { .. } => "invalid_spec"@,
        BackendError::Timeout { .. } => "timeout"@,
        BackendError::Transport { .. } => "transport"@,
    }
}

/// The closed set of outcome labels.
pub open spec fn is_outcome_label(label: Seq<char>) -> bool {
    ||| label == "ok"@
    ||| label == "http_4xx"@
    ||| label == "http_5xx"@
    ||| label == "timeout"@
    ||| label == "transport"@
    ||| label == "invalid_spec"@
    ||| label == "profile_not_found"@
}

/// The audit action of an outcome, for the outcomes that leave an audit event.
pub open spec fn audit_action(label: Seq<char>) -> Option<Seq<char>> {
    if label == "timeout"@ {
        Some("dev.mcpg.backend.http.request_timeout"@)
    } else if label == "transport"@ {
        Some("dev.mcpg.backend.http.request_failed"@)
    } else if label == "http_5xx"@ {
        Some("dev.mcpg.backend.http.upstream_5xx"@)
    } else if label == "invalid_spec"@ {
        Some("dev.mcpg.backend.http.request_failed"@)
    } else {
        None
    }
}

/// The bounded outcome label of an HTTP status. Statuses share a label by
/// class, so that the label set stays closed.
pub fn host_outcome_label_for_status(status: u16) -> (label: &'static str)
    ensures
        label@ == status_label(status),
{
    if 400 <= status && status <= 499 {
        "http_4xx"
    } else if 500 <= status && status <= 599 {
        "http_5xx"
    } else {
        "ok"
    }
}

/// The bounded outcome label of a failure without a status: `timeout` where
/// the message speaks of one, `transport` otherwise.
pub fn host_outcome_label_for_transport_error(message: &str) -> (label: &'static str)
    ensures
        label@ == transport_label(message@),
{
    let lower: Vec<char> = lowered_chars(message);
    if contains_chars(&lower, &chars_of("timed out")) || contains_chars(
        &lower,
        &chars_of("timeout"),
    ) {
        "timeout"
    } else {
        "transport"
    }
}

/// The bounded outcome label of a call that was refused before it went out.
pub fn host_outcome_label_for_refusal(error: &BackendError) -> (label: &'static str)
    ensures
        label@ == refusal_label(*error),
{
    match error {
        BackendError::ProfileNotFound { .. } => "profile_not_found",
        BackendError::InvalidSpec { .. } => "invalid_spec",
        BackendError::Timeout { .. } => "timeout",
        BackendError::Transport { .. } => "transport",
    }
}

/// The audit action of an outcome. A success and a 4xx leave no audit event:
/// they are normal traffic.
pub fn audit_action_for_outcome(label: &str) -> (action: Option<&'static str>)
    ensures
        crate::json::slice_text(action) == audit_action(label@),
{
    if text_eq(label, "timeout") {
        Some("dev.mcpg.backend.http.request_timeout")
    } else if text_eq(label, "transport") {
        Some("dev.mcpg.backend.http.request_failed")
    } else if text_eq(label, "http_5xx") {
        Some("dev.mcpg.backend.http.upstream_5xx")
    } else if text_eq(label, "invalid_spec") {
        Some("dev.mcpg.backend.http.request_failed")
    } else {
        None
    }
}

/// Who made a call.
pub struct PluginIdentity {
    pub kind: String,
    pub trust_level: String,
    pub subject_id: Option<String>,
    pub auth_provider: Option<String>,
    pub issuer: Option<String>,
    pub roles: Vec<String>,
    pub groups: Vec<String>,
    pub scopes: Vec<String>,
    pub attributes: Vec<(String, Json)>,
}

/// An identity as contracts speak of it.
pub struct IdentityView {
    pub kind: Seq<char>,
    pub trust_level: Seq<char>,
    pub subject_id: Option<Seq<char>>,
    pub auth_provider: Option<Seq<char>>,
    pub issuer: Option<Seq<char>>,
    pub roles: Seq<Seq<char>>,
    pub groups: Seq<Seq<char>>,
    pub scopes: Seq<Seq<char>>,
    pub attributes: Map<Seq<char>, JsonView>,
}

impl View for PluginIdentity {
    type V = IdentityView;

    open spec fn view(&self) -> IdentityView {
        IdentityView {
            kind: self.kind@,
            trust_level: self.trust_level@,
            subject_id: text_of(self.subject_id),
            auth_provider: text_of(self.auth_provider),
            issuer: text_of(self.issuer),
            roles: texts(self.roles@),
            groups: texts(self.groups@),
            scopes: texts(self.scopes@),
            attributes: fields_of(self.attributes@),
        }
    }
}

/// The identity of traffic that no caller stands behind.
pub open spec fn system_identity() -> IdentityView {
    IdentityView {
        kind: "system"@,
        trust_level: "verified"@,
        subject_id: Some("dev.mcpg.backend.http"@),
        auth_provider: None,
        issuer: None,
        roles: Seq::empty(),
        groups: Seq::empty(),
        scopes: Seq::empty(),
        attributes: Map::empty(),
    }
}

/// The identity that stands in an audit event where the call has no caller.
pub fn synthetic_system_identity() -> (identity: PluginIdentity)
    ensures
        identity@ == system_identity(),
{
    let identity: PluginIdentity = PluginIdentity {
        kind: "system".to_owned(),
        trust_level: "verified".to_owned(),
        subject_id: Some("dev.mcpg.backend.http".to_owned()),
        auth_provider: None,
        issuer: None,
        roles: Vec::new(),
        groups: Vec::new(),
        scopes: Vec::new(),
        attributes: Vec::new(),
    };
    assert(identity@.roles =~= Seq::empty());
    assert(identity@.groups =~= Seq::empty());
    assert(identity@.scopes =~= Seq::empty());
    identity
}

impl PluginIdentity {
    /// An identity with the same content.
    pub fn copy(&self) -> (copy: PluginIdentity)
        ensures
            copy@ == self@,
    {
        PluginIdentity {
            kind: self.kind.clone(),
            trust_level: self.trust_level.clone(),
            subject_id: copy_text(&self.subject_id),
            auth_provider: copy_text(&self.auth_provider),
            issuer: copy_text(&self.issuer),
            roles: copy_strings(&self.roles),
            groups: copy_strings(&self.groups),
            scopes: copy_strings(&self.scopes),
            attributes: crate::json::copy_entries(&self.attributes),
        }
    }
}

/// How an audited action ended.
#[derive(Debug, Clone, Copy, PartialEq, Eq, Structural)]
pub enum AuditOutcome {
    Success,
    Failure,
}

/// One entry of the audit trail.
pub struct AuditEvent {
    pub event_id: String,
    pub occurred_at: String,
    pub actor: PluginIdentity,
    pub action: String,
    pub resource: Option<String>,
    pub outcome: AuditOutcome,
    pub request_id: Option<String>,
    pub node_id: Option<String>,
    pub details: Json,
    pub prev_event_hash: Option<String>,
}

/// A finished call, as the host hears of it. Times are in nanoseconds.
pub struct CallRecord<'a> {
    pub backend_name: &'a str,
    pub outcome_label: &'static str,
    pub status_code: Option<u16>,
    pub reason: Option<&'a str>,
    pub identity: Option<&'a PluginIdentity>,
    pub request_id: &'a str,
    pub duration_ns: u128,
    /// The name under which the host knows the plugin.
    pub alias: &'a str,
}

/// A duration in whole milliseconds, in 64 bits.
pub open spec fn millis(duration_ns: u128) -> int {
    (duration_ns as int / 1_000_000) % 0x1_0000_0000_0000_0000
}

/// The details of an audit event: the call, and its status and reason where
/// it has them.
pub open spec fn detail_fields(record: CallRecord) -> Map<Seq<char>, JsonView> {
    let common = Map::<Seq<char>, JsonView>::empty()
        .insert("backend"@, JsonView::Text(record.backend_name@))
        .insert("duration_ms"@, JsonView::Int(millis(record.duration_ns)))
        .insert("outcome"@, JsonView::Text(record.outcome_label@))
        .insert("alias"@, JsonView::Text(record.alias@));
    let with_status = match record.status_code {
        Some(status) => common.insert("status_code"@, JsonView::Int(status as int)),
        None => common,
    };
    match record.reason {
        Some(reason) => with_status.insert("reason"@, JsonView::Text(reason@)),
        None => with_status,
    }
}

/// Who an audit event names: the caller, or the system where there is none.
pub open spec fn actor_of(record: CallRecord) -> IdentityView {
    match record.identity {
        Some(identity) => identity@,
        None => system_identity(),
    }
}

/// An event reports a call as a failure with the given action; its
/// `occurred_at` is free.
pub open spec fn reports(event: AuditEvent, record: CallRecord, action: Seq<char>) -> bool {
    &&& event.event_id@ == "http-"@ + record.request_id@ + "-"@ + decimal(record.duration_ns as nat)
    &&& event.actor@ == actor_of(record)
    &&& event.action@ == action
    &&& text_of(event.resource) == Some("http-binding://"@ + record.backend_name@)
    &&& event.outcome == AuditOutcome::Failure
    &&& text_of(event.request_id) == Some(record.request_id@)
    &&& event.node_id is None
    &&& event.details@ == JsonView::Fields(detail_fields(record))
    &&& event.prev_event_hash is None
}

/// The details of an audit event.
fn details_json(record: &CallRecord) -> (details: Json)
    ensures
        details@ == JsonView::Fields(detail_fields(*record)),
{
    let mut details: Vec<(String, Json)> = Vec::new();
    let whole_ms: u128 = record.duration_ns / 1_000_000;
    let duration_ms: u64 = (whole_ms % 0x1_0000_0000_0000_0000) as u64;
    put(&mut details, "backend", text_json(record.backend_name));
    put(&mut details, "duration_ms", Json::Unsigned(duration_ms));
    put(&mut details, "outcome", text_json(record.outcome_label));
    put(&mut details, "alias", text_json(record.alias));
    match record.status_code {
        Some(status) => put(&mut details, "status_code", Json::Unsigned(status as u64)),
        None => {},
    }
    match record.reason {
        Some(reason) => put(&mut details, "reason", text_json(reason)),
        None => {},
    }
    Json::Fields(details)
}

/// The audit event of a call at the given moment, for an outcome that leaves
/// one.
pub fn audit_event(record: &CallRecord, occurred_at: String) -> (event: Option<AuditEvent>)
    ensures
        match audit_action(record.outcome_label@) {
            Some(action) => event matches Some(event) && reports(event, *record, action)
                && event.occurred_at@ == occurred_at@,
            None => event is None,
        },
{
    match audit_action_for_outcome(record.outcome_label) {
        None => None,
        Some(action) => {
            let mut event_id: String = "http-".to_owned();
            event_id.append(record.request_id);
            event_id.append("-");
            event_id.append(decimal_text(record.duration_ns).as_str());
            let mut resource: String = "http-binding://".to_owned();
            resource.append(record.backend_name);
            let actor: PluginIdentity = match record.identity {
                Some(identity) => identity.copy(),
                None => synthetic_system_identity(),
            };
            Some(
                AuditEvent {
                    event_id,
                    occurred_at,
                    actor,
                    action: action.to_owned(),
                    resource: Some(resource),
                    outcome: AuditOutcome::Failure,
                    request_id: Some(record.request_id.to_owned()),
                    node_id: None,
                    details: details_json(record),
                    prev_event_hash: None,
                },
            )
        },
    }
}

/// What a call leaves with the host: one sample of the latency histogram, one
/// increment of the call counter, both under the outcome label, and an audit
/// event where the outcome calls for one.
pub struct HostReport {
    pub histogram: &'static str,
    /// The sample, in nanoseconds.
    pub duration_ns: u128,
    pub counter: &'static str,
    pub increment: u64,
    pub label_name: &'static str,
    pub label_value: &'static str,
    pub audit: Option<AuditEvent>,
}

/// The metric pair of a report.
pub open spec fn counts(report: HostReport, record: CallRecord) -> bool {
    &&& report.histogram@ == "mcpg_http_backend_latency_seconds"@
    &&& report.duration_ns == record.duration_ns
    &&& report.counter@ == "mcpg_http_backend_calls_total"@
    &&& report.increment == 1
    &&& report.label_name@ == "outcome"@
    &&& report.label_value@ == record.outcome_label@
}

/// The report of a call at the given moment.
pub fn host_report(record: &CallRecord, occurred_at: String) -> (report: HostReport)
    ensures
        counts(report, *record),
        match audit_action(record.outcome_label@) {
            Some(action) => report.audit matches Some(event) && reports(event, *record, action)
                && event.occurred_at@ == occurred_at@,
            None => report.audit is None,
        },
{
    HostReport {
        histogram: "mcpg_http_backend_latency_seconds",
        duration_ns: record.duration_ns,
        counter: "mcpg_http_backend_calls_total",
        increment: 1,
        label_name: "outcome",
        label_value: record.outcome_label,
        audit: audit_event(record, occurred_at),
    }
}

/// A report is that of a call: its metric pair, and the audit event that its
/// outcome calls for, at some moment.
pub open spec fn reports_call(report: HostReport, record: CallRecord) -> bool {
    &&& counts(report, record)
    &&& match audit_action(record.outcome_label@) {
        Some(action) => report.audit matches Some(event) && reports(event, record, action)
            && is_moment(event.occurred_at@),
        None => report.audit is None,
    }
}

/// The report of a call that ends now, where a host listens. Which moment
/// `occurred_at` names depends on the clock, and nothing else does.
pub fn observe(installed: bool, record: &CallRecord) -> (report: Option<HostReport>)
    ensures
        installed ==> (report matches Some(report) && reports_call(report, *record)),
        !installed ==> report is None,
{
    if installed {
        Some(host_report(record, rfc3339_now()))
    } else {
        None
    }
}

/// Two reports of one call tell the same, whoever makes them: their audit
/// events differ in the moment at most.
pub proof fn law_reports_agree(a: HostReport, b: HostReport, record: CallRecord)
    requires
        reports_call(a, record),
        reports_call(b, record),
    ensures
        a.histogram@ == b.histogram@,
        a.duration_ns == b.duration_ns,
        a.counter@ == b.counter@,
        a.increment == b.increment,
        a.label_name@ == b.label_name@,
        a.label_value@ == b.label_value@,
        a.audit is Some == b.audit is Some,
        a.audit matches Some(event) ==> ({
            let other = b.audit->0;
            &&& event.event_id@ == other.event_id@
            &&& event.actor@ == other.actor@
            &&& event.action@ == other.action@
            &&& text_of(event.resource) == text_of(other.resource)
            &&& event.outcome == other.outcome
            &&& text_of(event.request_id) == text_of(other.request_id)
            &&& event.node_id == other.node_id
            &&& event.details@ == other.details@
            &&& event.prev_event_hash == other.prev_event_hash
        }),
{
}

/// What is done with the host at the end of a call.
pub enum HostAction {
    /// One sample of a histogram, in nanoseconds, under a label.
    Sample { name: &'static str, duration_ns: u128, label: (&'static str, &'static str) },
    /// An increment of a counter, under a label.
    Count { name: &'static str, increment: u64, label: (&'static str, &'static str) },
    /// An entry of the audit trail.
    Audit { event: AuditEvent },
    /// The span of the call is closed.
    EndSpan,
}

/// What is done with the host, in order: the sample, the increment, the audit
/// event where there is one, and last the end of the span. Without a report
/// only the span ends.
pub open spec fn actions_of(report: Option<HostReport>) -> Seq<HostAction> {
    match report {
        None => seq![HostAction::EndSpan],
        Some(report) => {
            let label = (report.label_name, report.label_value);
            let metrics = seq![
                HostAction::Sample {
                    name: report.histogram,
                    duration_ns: report.duration_ns,
                    label,
                },
                HostAction::Count { name: report.counter, increment: report.increment, label },
            ];
            match report.audit {
                Some(event) => metrics.push(HostAction::Audit { event }).push(HostAction::EndSpan),
                None => metrics.push(HostAction::EndSpan),
            }
        },
    }
}

/// Puts what is done with the host in order.
pub fn host_actions(report: Option<HostReport>) -> (actions: Vec<HostAction>)
    ensures
        actions@ == actions_of(report),
{
    let mut actions: Vec<HostAction> = Vec::new();
    match report {
        None => {},
        Some(report) => {
            let label: (&'static str, &'static str) = (report.label_name, report.label_value);
            actions.push(
                HostAction::Sample {
                    name: report.histogram,
                    duration_ns: report.duration_ns,
                    label,
                },
            );
            actions.push(
                HostAction::Count { name: report.counter, increment: report.increment, label },
            );
            match report.audit {
                Some(event) => actions.push(HostAction::Audit { event }),
                None => {},
            }
        },
    }
    actions.push(HostAction::EndSpan);
    assert(actions@ =~= actions_of(report));
    actions
}

/// The span of a call ends once, and after everything else, with or without a
/// host that listens.
pub proof fn law_span_ends_last(report: Option<HostReport>)
    ensures
        actions_of(report).len() > 0,
        actions_of(report).last() is EndSpan,
        forall|i: int|
            0 <= i < actions_of(report).len() - 1 ==> !(#[trigger] actions_of(report)[i] is EndSpan),
{
}

/// The span that a call opens with the host.
pub struct CallSpan {
    pub name: &'static str,
    pub attributes: Json,
}

/// The attributes of a span: the binding and the request, and nothing that
/// could carry a credential.
pub open spec fn span_fields(backend_name: Seq<char>, request_id: Seq<char>) -> Map<
    Seq<char>,
    JsonView,
> {
    Map::<Seq<char>, JsonView>::empty().insert("backend"@, JsonView::Text(backend_name)).insert(
        "request_id"@,
        JsonView::Text(request_id),
    )
}

/// The span of a call, buffered or streamed.
pub fn call_span(streamed: bool, backend_name: &str, request_id: &str) -> (span: CallSpan)
    ensures
        span.name@ == (if streamed {
            "http_backend.execute_streaming"@
        } else {
            "http_backend.execute"@
        }),
        span.attributes@ == JsonView::Fields(span_fields(backend_name@, request_id@)),
{
    let mut attributes: Vec<(String, Json)> = Vec::new();
    put(&mut attributes, "backend", text_json(backend_name));
    put(&mut attributes, "request_id", text_json(request_id));
    CallSpan {
        name: if streamed {
            "http_backend.execute_streaming"
        } else {
            "http_backend.execute"
        },
        attributes: Json::Fields(attributes),
    }
}

/// Every label that a call can get is of the closed set, whatever its status,
/// its failure or its refusal.
pub proof fn law_labels_are_closed(status: u16, message: Seq<char>, error: BackendError)
    ensures
        is_outcome_label(status_label(status)),
        is_outcome_label(transport_label(message)),
        is_outcome_label(refusal_label(error)),
{
}

/// The outcomes that leave an audit event are the four failures worth
/// reconstructing; a success, a 4xx and an unknown profile leave none.
pub proof fn law_audited_outcomes(label: Seq<char>)
    requires
        is_outcome_label(label),
    ensures
        audit_action(label) is None <==> (label == "ok"@ || label == "http_4xx"@ || label
            == "profile_not_found"@),
        audit_action(label) is Some <==> (label == "timeout"@ || label == "transport"@ || label
            == "http_5xx"@ || label == "invalid_spec"@),
{
    reveal_strlit("ok");
    reveal_strlit("http_4xx");
    reveal_strlit("http_5xx");
    reveal_strlit("timeout");
    reveal_strlit("transport");
    reveal_strlit("invalid_spec");
    reveal_strlit("profile_not_found");
    assert("http_4xx"@[5] != "http_5xx"@[5]);
    assert("ok"@.len() == 2);
    assert("timeout"@.len() == 7);
    assert("transport"@.len() == 9);
    assert("invalid_spec"@.len() == 12);
    assert("profile_not_found"@.len() == 17);
}

/// Of the statuses, those from 500 to 599 leave an audit event and no others.
pub proof fn law_audited_statuses(status: u16)
    ensures
        audit_action(status_label(status)) == (if 500 <= status <= 599 {
            Some("dev.mcpg.backend.http.upstream_5xx"@)
        } else {
            None
        }),
{
    law_audited_outcomes(status_label(status));
    reveal_strlit("ok");
    reveal_strlit("http_4xx");
    reveal_strlit("http_5xx");
    assert("http_4xx"@[5] != "http_5xx"@[5]);
    reveal_strlit("timeout");
    reveal_strlit("transport");
}

/// A status is labelled by its class: the four hundreds, the five hundreds, and
/// everything else, which counts as a success.
pub proof fn law_status_is_labelled_by_class(status: u16)
    ensures
        status_label(status) == "http_4xx"@ <==> status / 100 == 4,
        status_label(status) == "http_5xx"@ <==> status / 100 == 5,
        status_label(status) == "ok"@ <==> status / 100 != 4 && status / 100 != 5,
{
    reveal_strlit("ok");
    reveal_strlit("http_4xx");
    reveal_strlit("http_5xx");
    assert("ok"@.len() == 2);
    assert("http_4xx"@.len() == 8);
    assert("http_4xx"@[5] != "http_5xx"@[5]);
}

/// A text holds a phrase in any case where some part of it is that phrase.
pub open spec fn speaks_of(message: Seq<char>, phrase: Seq<char>) -> bool {
    exists|before: Seq<char>, part: Seq<char>, after: Seq<char>|
        message == #[trigger] (before + part + after) && same_ignoring_case(part, phrase)
}

/// A phrase in lower case occurs in the lowered text exactly where the text
/// speaks of it.
proof fn lemma_speaks_of(message: Seq<char>, phrase: Seq<char>)
    requires
        lowered(phrase) == phrase,
    ensures
        occurs_in(lowered(message), phrase) <==> speaks_of(message, phrase),
{
    law_occurrence_splits_the_text(lowered(message), phrase);
    if occurs_in(lowered(message), phrase) {
        let (before, after) = choose|before: Seq<char>, after: Seq<char>|
            lowered(message) == #[trigger] (before + phrase + after);
        let at = before.len() as int;
        let end = at + phrase.len();
        let part = message.subrange(at, end);
        assert(lowered(part) =~= phrase) by {
            assert forall|i: int| 0 <= i < phrase.len() implies lowered(part)[i]
                == #[trigger] phrase[i] by {
                assert(lowered(message)[at + i] == phrase[i]);
            }
        }
        assert(message =~= message.take(at) + part + message.skip(end));
        assert(same_ignoring_case(part, phrase));
    }
    if speaks_of(message, phrase) {
        let (before, part, after) = choose|before: Seq<char>, part: Seq<char>, after: Seq<char>|
            message == #[trigger] (before + part + after) && same_ignoring_case(part, phrase);
        assert(lowered(message) =~= lowered(before) + lowered(part) + lowered(after));
        assert(lowered(message) == lowered(before) + phrase + lowered(after));
    }
}

/// A failure without a status is a timeout exactly where its message speaks of
/// one, in any case, and a failed transport otherwise.
pub proof fn law_timeout_is_what_the_message_tells(message: Seq<char>)
    ensures
        transport_label(message) == "timeout"@ <==> speaks_of(message, "timed out"@) || speaks_of(
            message,
            "timeout"@,
        ),
        transport_label(message) == "transport"@ <==> !speaks_of(message, "timed out"@)
            && !speaks_of(message, "timeout"@),
{
    reveal_strlit("timeout");
    reveal_strlit("transport");
    reveal_strlit("timed out");
    assert("timeout"@.len() == 7);
    assert("transport"@.len() == 9);
    assert(lowered("timeout"@) =~= "timeout"@);
    assert(lowered("timed out"@) =~= "timed out"@);
    lemma_speaks_of(message, "timed out"@);
    lemma_speaks_of(message, "timeout"@);
}

/// A refusal is labelled by its kind, whatever it says.
pub proof fn law_refusal_is_labelled_by_kind(error: BackendError)
    ensures
        error is ProfileNotFound ==> refusal_label(error) == "profile_not_found"@,
        error is InvalidSpec ==> refusal_label(error) == "invalid_spec"@,
        error is Timeout ==> refusal_label(error) == "timeout"@,
        error is Transport ==> refusal_label(error) == "transport"@,
{
}

/// Each audited outcome has its action: a timeout and an upstream failure their
/// own, and a failed transport and a bad configuration one between them. No
/// other label has one.
pub proof fn law_audited_outcome_has_its_action(label: Seq<char>)
    ensures
        label == "timeout"@ ==> audit_action(label) == Some(
            "dev.mcpg.backend.http.request_timeout"@,
        ),
        label == "http_5xx"@ ==> audit_action(label) == Some("dev.mcpg.backend.http.upstream_5xx"@),
        label == "transport"@ || label == "invalid_spec"@ ==> audit_action(label) == Some(
            "dev.mcpg.backend.http.request_failed"@,
        ),
        label != "timeout"@ && label != "http_5xx"@ && label != "transport"@ && label
            != "invalid_spec"@ ==> audit_action(label) is None,
{
    reveal_strlit("http_5xx");
    reveal_strlit("timeout");
    reveal_strlit("transport");
    reveal_strlit("invalid_spec");
    assert("http_5xx"@.len() == 8);
    assert("timeout"@.len() == 7);
    assert("transport"@.len() == 9);
    assert("invalid_spec"@.len() == 12);
}

/// The names of the details differ, in length or at one place.
proof fn lemma_detail_names_differ()
    ensures
        "backend"@.len() == 7,
        "backend"@[0] == 'b',
        "duration_ms"@.len() == 11,
        "duration_ms"@[0] == 'd',
        "outcome"@.len() == 7,
        "outcome"@[0] == 'o',
        "alias"@.len() == 5,
        "status_code"@.len() == 11,
        "status_code"@[0] == 's',
        "reason"@.len() == 6,
        "request_id"@.len() == 10,
{
    reveal_strlit("backend");
    reveal_strlit("duration_ms");
    reveal_strlit("outcome");
    reveal_strlit("alias");
    reveal_strlit("status_code");
    reveal_strlit("reason");
    reveal_strlit("request_id");
}

/// The details of an audit event tell the binding, the whole milliseconds that
/// the call took, its outcome and the plugin's name, and its status and reason
/// exactly where it has them; nothing else stands in them.
pub proof fn law_details_tell_the_call(record: CallRecord, name: Seq<char>)
    ensures
        ({
            let details = JsonView::Fields(detail_fields(record));
            &&& field_of(details, "backend"@) == Some(JsonView::Text(record.backend_name@))
            &&& field_of(details, "outcome"@) == Some(JsonView::Text(record.outcome_label@))
            &&& field_of(details, "alias"@) == Some(JsonView::Text(record.alias@))
            &&& field_of(details, "duration_ms"@) matches Some(JsonView::Int(ms))
            &&& record.duration_ns < 0x1_0000_0000_0000_0000 * 1_000_000 ==> ms * 1_000_000
                <= record.duration_ns < (ms + 1) * 1_000_000
            &&& 0 <= ms <= u64::MAX
            &&& (record.duration_ns as int / 1_000_000 - ms) % 0x1_0000_0000_0000_0000 == 0
            &&& field_of(details, "status_code"@) == (match record.status_code {
                Some(status) => Some(JsonView::Int(status as int)),
                None => None,
            })
            &&& field_of(details, "reason"@) == (match record.reason {
                Some(reason) => Some(JsonView::Text(reason@)),
                None => None,
            })
            &&& field_of(details, name) is Some ==> name == "backend"@ || name == "outcome"@ || name
                == "alias"@ || name == "duration_ms"@ || name == "status_code"@ || name
                == "reason"@
        }),
{
    lemma_detail_names_differ();
}

/// An audit event names the call: an id of the request and its duration, the
/// binding as the resource, the caller where there is one and the system where
/// there is none, and a failure.
pub proof fn law_audit_event_names_the_call(
    event: AuditEvent,
    record: CallRecord,
    action: Seq<char>,
)
    requires
        reports(event, record, action),
    ensures
        event.event_id@ == "http-"@ + record.request_id@ + "-"@ + decimal(record.duration_ns as nat),
        event.action@ == action,
        event.resource matches Some(resource) && resource@ == "http-binding://"@
            + record.backend_name@,
        event.request_id matches Some(request_id) && request_id@ == record.request_id@,
        event.outcome == AuditOutcome::Failure,
        event.node_id is None,
        event.prev_event_hash is None,
        record.identity matches Some(identity) ==> event.actor@ == identity@,
        record.identity is None ==> event.actor.kind@ == "system"@ && event.actor.trust_level@
            == "verified"@ && text_of(event.actor.subject_id) == Some("dev.mcpg.backend.http"@)
            && event.actor.issuer is None && event.actor.auth_provider is None
            && event.actor.roles@.len() == 0 && event.actor.groups@.len() == 0
            && event.actor.scopes@.len() == 0 && fields_of(event.actor.attributes@) == Map::<
            Seq<char>,
            JsonView,
        >::empty(),
        field_of(event.details@, "backend"@) == Some(JsonView::Text(record.backend_name@)),
        field_of(event.details@, "outcome"@) == Some(JsonView::Text(record.outcome_label@)),
{
    law_details_tell_the_call(record, Seq::empty());
    if record.identity is None {
        assert(event.actor@ == system_identity());
        assert(texts(event.actor.roles@).len() == event.actor.roles@.len());
        assert(texts(event.actor.groups@).len() == event.actor.groups@.len());
        assert(texts(event.actor.scopes@).len() == event.actor.scopes@.len());
    }
}

/// An identity is told with everything that it says.
pub proof fn law_identity_is_told_whole(identity: PluginIdentity)
    ensures
        identity@.kind == identity.kind@,
        identity@.trust_level == identity.trust_level@,
        identity@.subject_id == text_of(identity.subject_id),
        identity@.auth_provider == text_of(identity.auth_provider),
        identity@.issuer == text_of(identity.issuer),
        identity@.roles == texts(identity.roles@),
        identity@.groups == texts(identity.groups@),
        identity@.scopes == texts(identity.scopes@),
        identity@.attributes == fields_of(identity.attributes@),
{
}

/// A call leaves one sample of its duration and one increment with the host,
/// both under its outcome, and an audit event exactly where the outcome is a
/// timeout, a failed transport, an upstream failure or a bad configuration.
pub proof fn law_report_tells_the_call(report: HostReport, record: CallRecord)
    requires
        reports_call(report, record),
    ensures
        report.histogram@ == "mcpg_http_backend_latency_seconds"@,
        report.duration_ns == record.duration_ns,
        report.counter@ == "mcpg_http_backend_calls_total"@,
        report.increment == 1,
        report.label_name@ == "outcome"@,
        report.label_value@ == record.outcome_label@,
        report.audit is Some <==> record.outcome_label@ == "timeout"@ || record.outcome_label@
            == "transport"@ || record.outcome_label@ == "http_5xx"@ || record.outcome_label@
            == "invalid_spec"@,
        record.outcome_label@ == "timeout"@ ==> report.audit->0.action@
            == "dev.mcpg.backend.http.request_timeout"@,
        record.outcome_label@ == "http_5xx"@ ==> report.audit->0.action@
            == "dev.mcpg.backend.http.upstream_5xx"@,
        record.outcome_label@ == "transport"@ || record.outcome_label@ == "invalid_spec"@
            ==> report.audit->0.action@ == "dev.mcpg.backend.http.request_failed"@,
        report.audit matches Some(event) ==> reports(event, record, event.action@) && is_moment(
            event.occurred_at@,
        ),
{
    law_audited_outcome_has_its_action(record.outcome_label@);
}

/// What is done with the host is the report and nothing else: its sample, its
/// increment and its audit event, each once and in that order, before the end of
/// the span.
pub proof fn law_actions_are_the_report(report: HostReport)
    ensures
        ({
            let actions = actions_of(Some(report));
            &&& actions.len() == (if report.audit is Some {
                4int
            } else {
                3
            })
            &&& actions[0] == (HostAction::Sample {
                name: report.histogram,
                duration_ns: report.duration_ns,
                label: (report.label_name, report.label_value),
            })
            &&& actions[1] == (HostAction::Count {
                name: report.counter,
                increment: report.increment,
                label: (report.label_name, report.label_value),
            })
            &&& report.audit matches Some(event) ==> actions[2] == (HostAction::Audit { event })
            &&& actions.last() is EndSpan
        }),
        actions_of(None).len() == 1,
        actions_of(None)[0] is EndSpan,
{
}

/// A span tells the binding and the request, and nothing else.
pub proof fn law_span_tells_binding_and_request(
    backend_name: Seq<char>,
    request_id: Seq<char>,
    name: Seq<char>,
)
    ensures
        ({
            let attributes = JsonView::Fields(span_fields(backend_name, request_id));
            &&& field_of(attributes, "backend"@) == Some(JsonView::Text(backend_name))
            &&& field_of(attributes, "request_id"@) == Some(JsonView::Text(request_id))
            &&& field_of(attributes, name) is Some ==> name == "backend"@ || name == "request_id"@
        }),
{
    lemma_detail_names_differ();
}

} // verus!
