//! From what the upstream did to what the gateway is told.

use crate::call::{as_slice_text, PreparedCall, ResolvedCall};
use crate::envelope::{
    build_envelope, envelope_fields, law_answer_is_told_as_it_came,
    law_call_is_told_from_its_parts, law_envelope_reads_back, law_envelope_slots,
    law_missing_answer_is_null, law_missing_json_is_null, law_request_is_told_as_sent,
    parts_read_back, DownstreamHttpError, EnvelopeParts,
};
use crate::error::{transport, BackendError};
use crate::json::{
    documents, field_of, json_bytes, json_or_null, lemma_documents_push, strings_fields,
    tree_of, Json, JsonView,
};
use crate::observability::{
    host_outcome_label_for_refusal, host_outcome_label_for_status,
    host_outcome_label_for_transport_error, is_outcome_label, refusal_label, status_label,
    transport_label,
};
use crate::pairs::pairs_view;
use crate::serde_bridge::{json_text, reads_as, reads_back};
use crate::text::text_of;
use crate::types::{HttpCallMode, HttpResponseSummary, SummaryView};
use vstd::prelude::*;
use vstd::string::*;

verus! {

/// How a call ended.
pub enum CallOutcome {
    /// The upstream answered. A status that was not expected and a body that
    /// had to be JSON and is not are each classified.
    Answered {
        summary: HttpResponseSummary,
        status_error: Option<DownstreamHttpError>,
        response_json: Option<Json>,
        response_json_parse_error: Option<String>,
        json_error: Option<DownstreamHttpError>,
    },
    /// No answer. `downstream` classifies the failure; an empty `error` says
    /// that the call was not resolved.
    Failed { error: String, downstream: DownstreamHttpError },
}

/// How a call ended, as contracts speak of it.
pub enum OutcomeView {
    Answered {
        summary: SummaryView,
        status_error: Option<JsonView>,
        response_json: Option<JsonView>,
        response_json_parse_error: Option<Seq<char>>,
        json_error: Option<JsonView>,
    },
    Failed { error: Seq<char>, downstream: JsonView },
}

impl View for CallOutcome {
    type V = OutcomeView;

    open spec fn view(&self) -> OutcomeView {
        match *self {
            CallOutcome::Answered {
                summary,
                status_error,
                response_json,
                response_json_parse_error,
                json_error,
            } => OutcomeView::Answered {
                summary: summary@,
                status_error: tree_of(status_error),
                response_json: tree_of(response_json),
                response_json_parse_error: text_of(response_json_parse_error),
                json_error: tree_of(json_error),
            },
            CallOutcome::Failed { error, downstream } => OutcomeView::Failed {
                error: error@,
                downstream: downstream@,
            },
        }
    }
}

/// The reply of a binding to the gateway.
pub struct BackendResponse {
    pub payload: Vec<u8>,
    pub truncated: bool,
}

/// Why a resolution failed, where it did.
pub open spec fn resolution_error(resolution: Result<ResolvedCall, String>) -> Option<Seq<char>> {
    match resolution {
        Ok(_) => None,
        Err(error) => Some(error@),
    }
}

/// The error that a failed call is told with: its own, or, where that is
/// empty, the one of the resolution.
pub open spec fn effective_error(
    error: Seq<char>,
    resolution: Result<ResolvedCall, String>,
) -> Seq<char> {
    if error.len() == 0 {
        match resolution {
            Err(error) => error@,
            Ok(_) => "unknown HTTP plugin error"@,
        }
    } else {
        error
    }
}

/// The failures of an answer, the status first.
pub open spec fn failures_of(
    status_error: Option<JsonView>,
    json_error: Option<JsonView>,
) -> Seq<JsonView> {
    match (status_error, json_error) {
        (Some(status), Some(json)) => seq![status, json],
        (Some(status), None) => seq![status],
        (None, Some(json)) => seq![json],
        (None, None) => Seq::empty(),
    }
}

/// The first of a list of failures.
pub open spec fn primary_of(failures: Seq<JsonView>) -> Option<JsonView> {
    if failures.len() == 0 {
        None
    } else {
        Some(failures[0])
    }
}

/// What the envelope of an outcome is built from.
pub open spec fn outcome_parts(
    prepared: PreparedCall,
    backend_name: Seq<char>,
    outcome: OutcomeView,
) -> EnvelopeParts {
    let call = prepared.call;
    let common = EnvelopeParts {
        tool_name: call.draft.tool_name@,
        profile_name: backend_name,
        profile: call.draft.profile@,
        call_mode: call.draft.call_mode,
        request_arguments: call.draft.arguments@,
        request_body: tree_of(call.request_body),
        request_query: text_of(call.request_query),
        response: None,
        response_json: None,
        response_json_parse_error: None,
        downstream_error: None,
        downstream_errors: Seq::empty(),
        error: None,
        display_url: match prepared.resolution {
            Ok(resolved) => Some(resolved.resolved_url@),
            Err(_) => None,
        },
        display_headers: match prepared.resolution {
            Ok(resolved) => Some(pairs_view(resolved.resolved_headers@)),
            Err(_) => None,
        },
    };
    match outcome {
        OutcomeView::Answered {
            summary,
            status_error,
            response_json,
            response_json_parse_error,
            json_error,
        } => {
            let failures = failures_of(status_error, json_error);
            EnvelopeParts {
                response: Some(summary),
                response_json,
                response_json_parse_error,
                downstream_error: primary_of(failures),
                downstream_errors: failures,
                ..common
            }
        },
        OutcomeView::Failed { error, downstream } => EnvelopeParts {
            downstream_error: Some(downstream),
            downstream_errors: seq![downstream],
            error: Some(effective_error(error, prepared.resolution)),
            ..common
        },
    }
}

/// The envelope of an outcome.
pub open spec fn envelope_of(
    prepared: PreparedCall,
    backend_name: Seq<char>,
    outcome: OutcomeView,
) -> JsonView {
    JsonView::Fields(envelope_fields(outcome_parts(prepared, backend_name, outcome)))
}

/// The error that a failed call is told with. The failure is classified by
/// this text.
pub fn effective_error_text(
    error: &str,
    resolution: &Result<ResolvedCall, String>,
) -> (text: String)
    ensures
        text@ == effective_error(error@, *resolution),
{
    if error.is_empty() {
        match resolution {
            Err(error) => error.clone(),
            Ok(_) => "unknown HTTP plugin error".to_owned(),
        }
    } else {
        error.to_owned()
    }
}

/// An optional tree by reference.
fn as_tree(json: &Option<Json>) -> (tree: Option<&Json>)
    ensures
        crate::json::tree_json(tree) == tree_of(*json),
{
    match json {
        Some(json) => Some(json),
        None => None,
    }
}

/// Builds the envelope of an outcome. It has one shape, whether the body was
/// buffered or streamed.
pub fn build_envelope_from_outcome(
    prepared: &PreparedCall,
    backend_name: &str,
    outcome: &CallOutcome,
) -> (envelope: Json)
    ensures
        envelope@ == envelope_of(*prepared, backend_name@, outcome@),
{
    let draft = &prepared.call.draft;
    let display_url: Option<&str> = match &prepared.resolution {
        Ok(resolved) => Some(resolved.resolved_url.as_str()),
        Err(_) => None,
    };
    let display_headers: Option<&Vec<(String, String)>> = match &prepared.resolution {
        Ok(resolved) => Some(&resolved.resolved_headers),
        Err(_) => None,
    };
    let mut failures: Vec<DownstreamHttpError> = Vec::new();
    match outcome {
        CallOutcome::Answered {
            summary,
            status_error,
            response_json,
            response_json_parse_error,
            json_error,
        } => {
            let ghost none = failures@;
            match status_error {
                Some(error) => {
                    let failure: Json = error.clone();
                    failures.push(failure);
                    proof {
                        lemma_documents_push(none, failure);
                    }
                },
                None => {},
            }
            let ghost after_status = failures@;
            match json_error {
                Some(error) => {
                    let failure: Json = error.clone();
                    failures.push(failure);
                    proof {
                        lemma_documents_push(after_status, failure);
                    }
                },
                None => {},
            }
            let primary: Option<&Json> = if failures.len() > 0 {
                Some(&failures[0])
            } else {
                None
            };
            proof {
                crate::json::lemma_items_view(failures@, failures@.len());
                assert(documents(failures@) =~= failures_of(
                    tree_of(*status_error),
                    tree_of(*json_error),
                ));
            }
            build_envelope(
                draft.tool_name.as_str(),
                backend_name,
                &draft.profile,
                draft.call_mode,
                &draft.arguments,
                as_tree(&prepared.call.request_body),
                as_slice_text(&prepared.call.request_query),
                Some(summary),
                as_tree(response_json),
                as_slice_text(response_json_parse_error),
                primary,
                &failures,
                None,
                display_url,
                display_headers,
            )
        },
        CallOutcome::Failed { error, downstream } => {
            let told: String = effective_error_text(error.as_str(), &prepared.resolution);
            let ghost none = failures@;
            let failure: Json = downstream.clone();
            failures.push(failure);
            proof {
                lemma_documents_push(none, failure);
                assert(documents(failures@) =~= seq![downstream@]);
            }
            build_envelope(
                draft.tool_name.as_str(),
                backend_name,
                &draft.profile,
                draft.call_mode,
                &draft.arguments,
                as_tree(&prepared.call.request_body),
                as_slice_text(&prepared.call.request_query),
                None,
                None,
                None,
                Some(downstream),
                &failures,
                Some(told.as_str()),
                display_url,
                display_headers,
            )
        },
    }
}

/// A finished call: what the host is told of it, and what the gateway gets.
pub struct Conclusion {
    pub outcome_label: &'static str,
    pub status_code: Option<u16>,
    pub reason: Option<String>,
    pub answer: Result<BackendResponse, BackendError>,
}

/// The status of an outcome.
pub open spec fn status_of(outcome: OutcomeView) -> Option<u16> {
    match outcome {
        OutcomeView::Answered { summary, .. } => Some(summary.status_code),
        OutcomeView::Failed { .. } => None,
    }
}

/// The outcome label of a buffered call. A failure without a text of its own
/// is one of the resolution: a template or a credential could not be resolved.
pub open spec fn buffered_label(outcome: OutcomeView) -> Seq<char> {
    match outcome {
        OutcomeView::Answered { summary, .. } => status_label(summary.status_code),
        OutcomeView::Failed { error, .. } => if error.len() == 0 {
            "invalid_spec"@
        } else {
            transport_label(error)
        },
    }
}

/// Why a buffered call failed.
pub open spec fn buffered_reason(
    prepared: PreparedCall,
    outcome: OutcomeView,
) -> Option<Seq<char>> {
    match outcome {
        OutcomeView::Answered { .. } => None,
        OutcomeView::Failed { error, .. } => if error.len() == 0 {
            resolution_error(prepared.resolution)
        } else {
            Some(error)
        },
    }
}

/// The outcome label of a call that went out to be streamed.
pub open spec fn streamed_label(outcome: OutcomeView) -> Seq<char> {
    match outcome {
        OutcomeView::Answered { summary, .. } => status_label(summary.status_code),
        OutcomeView::Failed { error, .. } => transport_label(error),
    }
}

/// Why a call that went out to be streamed failed.
pub open spec fn streamed_reason(outcome: OutcomeView) -> Option<Seq<char>> {
    match outcome {
        OutcomeView::Answered { .. } => None,
        OutcomeView::Failed { error, .. } => Some(error),
    }
}

/// An answer is the JSON text of an envelope, and is whole: the envelope can be
/// read back from it.
pub open spec fn carries(
    answer: Result<BackendResponse, BackendError>,
    envelope: JsonView,
) -> bool {
    &&& answer matches Ok(response)
    &&& response.payload@ == json_text(envelope)
    &&& !response.truncated
    &&& reads_back(envelope, 127) ==> reads_as(response.payload@, envelope)
}

/// A buffered call is concluded: its label, status and reason are those of the
/// outcome, and the answer carries the outcome's envelope.
pub open spec fn concludes_buffered(
    conclusion: Conclusion,
    prepared: PreparedCall,
    backend_name: Seq<char>,
    outcome: OutcomeView,
) -> bool {
    &&& conclusion.outcome_label@ == buffered_label(outcome)
    &&& conclusion.status_code == status_of(outcome)
    &&& text_of(conclusion.reason) == buffered_reason(prepared, outcome)
    &&& carries(conclusion.answer, envelope_of(prepared, backend_name, outcome))
}

/// A call that went out to be streamed is concluded.
pub open spec fn concludes_streamed(
    conclusion: Conclusion,
    prepared: PreparedCall,
    backend_name: Seq<char>,
    outcome: OutcomeView,
) -> bool {
    &&& conclusion.outcome_label@ == streamed_label(outcome)
    &&& conclusion.status_code == status_of(outcome)
    &&& text_of(conclusion.reason) == streamed_reason(outcome)
    &&& carries(conclusion.answer, envelope_of(prepared, backend_name, outcome))
}

/// A call that could not be resolved is concluded: it counts as a bad
/// configuration, and the resolution's error is the reason.
pub open spec fn concludes_unresolved(
    conclusion: Conclusion,
    prepared: PreparedCall,
    backend_name: Seq<char>,
    downstream: JsonView,
) -> bool {
    &&& conclusion.outcome_label@ == "invalid_spec"@
    &&& conclusion.status_code is None
    &&& text_of(conclusion.reason) == resolution_error(prepared.resolution)
    &&& carries(
        conclusion.answer,
        envelope_of(
            prepared,
            backend_name,
            OutcomeView::Failed { error: Seq::empty(), downstream },
        ),
    )
}

/// The reply with an envelope.
pub fn respond(envelope: &Json) -> (answer: Result<BackendResponse, BackendError>)
    ensures
        carries(answer, envelope@),
{
    match json_bytes(envelope) {
        Ok(payload) => Ok(BackendResponse { payload, truncated: false }),
        Err(message) => Err(
            transport("HTTP plugin envelope serialization failed: ", message.as_str()),
        ),
    }
}

/// Concludes a call that was refused before it went out. `told` is the error as
/// the host is told of it.
pub fn conclude_refused(error: BackendError, told: String) -> (conclusion: Conclusion)
    ensures
        conclusion.outcome_label@ == refusal_label(error),
        conclusion.status_code is None,
        text_of(conclusion.reason) == Some(told@),
        conclusion.answer == Err::<BackendResponse, BackendError>(error),
{
    Conclusion {
        outcome_label: host_outcome_label_for_refusal(&error),
        status_code: None,
        reason: Some(told),
        answer: Err(error),
    }
}

/// The status of an outcome.
fn outcome_status(outcome: &CallOutcome) -> (status: Option<u16>)
    ensures
        status == status_of(outcome@),
{
    match outcome {
        CallOutcome::Answered { summary, .. } => Some(summary.status_code),
        CallOutcome::Failed { .. } => None,
    }
}

/// Concludes a buffered call.
pub fn conclude_buffered(
    prepared: &PreparedCall,
    backend_name: &str,
    outcome: &CallOutcome,
) -> (conclusion: Conclusion)
    ensures
        concludes_buffered(conclusion, *prepared, backend_name@, outcome@),
{
    let outcome_label: &'static str = match outcome {
        CallOutcome::Answered { summary, .. } => host_outcome_label_for_status(summary.status_code),
        CallOutcome::Failed { error, .. } => if error.as_str().is_empty() {
            "invalid_spec"
        } else {
            host_outcome_label_for_transport_error(error.as_str())
        },
    };
    let reason: Option<String> = match outcome {
        CallOutcome::Answered { .. } => None,
        CallOutcome::Failed { error, .. } => if error.as_str().is_empty() {
            match &prepared.resolution {
                Ok(_) => None,
                Err(error) => Some(error.clone()),
            }
        } else {
            Some(error.clone())
        },
    };
    let envelope: Json = build_envelope_from_outcome(prepared, backend_name, outcome);
    Conclusion {
        outcome_label,
        status_code: outcome_status(outcome),
        reason,
        answer: respond(&envelope),
    }
}

/// Concludes a call whose templates or credentials could not be resolved; the
/// upstream was not called. `downstream` classifies the resolution's error.
pub fn conclude_unresolved(
    prepared: &PreparedCall,
    backend_name: &str,
    downstream: DownstreamHttpError,
) -> (conclusion: Conclusion)
    requires
        prepared.resolution is Err,
    ensures
        concludes_unresolved(conclusion, *prepared, backend_name@, downstream@),
{
    let outcome: CallOutcome = CallOutcome::Failed { error: String::new(), downstream };
    conclude_buffered(prepared, backend_name, &outcome)
}

/// Concludes a call that went out to be streamed.
pub fn conclude_streamed(
    prepared: &PreparedCall,
    backend_name: &str,
    outcome: &CallOutcome,
) -> (conclusion: Conclusion)
    ensures
        concludes_streamed(conclusion, *prepared, backend_name@, outcome@),
{
    let outcome_label: &'static str = match outcome {
        CallOutcome::Answered { summary, .. } => host_outcome_label_for_status(summary.status_code),
        CallOutcome::Failed { error, .. } => host_outcome_label_for_transport_error(error.as_str()),
    };
    let reason: Option<String> = match outcome {
        CallOutcome::Answered { .. } => None,
        CallOutcome::Failed { error, .. } => Some(error.clone()),
    };
    let envelope: Json = build_envelope_from_outcome(prepared, backend_name, outcome);
    Conclusion {
        outcome_label,
        status_code: outcome_status(outcome),
        reason,
        answer: respond(&envelope),
    }
}

/// Every concluded call has a label of the closed set.
pub proof fn law_conclusions_are_labelled(outcome: OutcomeView)
    ensures
        is_outcome_label(buffered_label(outcome)),
        is_outcome_label(streamed_label(outcome)),
{
}

/// A caller reads the same answer whether the body was buffered or streamed.
pub proof fn law_streamed_answer_is_the_buffered_one(
    buffered: Conclusion,
    streamed: Conclusion,
    prepared: PreparedCall,
    backend_name: Seq<char>,
    outcome: OutcomeView,
)
    requires
        concludes_buffered(buffered, prepared, backend_name, outcome),
        concludes_streamed(streamed, prepared, backend_name, outcome),
    ensures
        buffered.answer is Ok,
        streamed.answer is Ok,
        streamed.answer->Ok_0.payload@ == buffered.answer->Ok_0.payload@,
        streamed.status_code == buffered.status_code,
        outcome is Answered ==> streamed.outcome_label@ == buffered.outcome_label@,
{
}

/// The `downstreamError` slot holds the first classified failure, and the full
/// list stands under `downstreamErrors`; a call without a failure has null and
/// an empty list.
pub proof fn law_first_failure_is_shown(
    prepared: PreparedCall,
    backend_name: Seq<char>,
    outcome: OutcomeView,
)
    ensures
        ({
            let envelope = envelope_of(prepared, backend_name, outcome);
            let failures = outcome_parts(prepared, backend_name, outcome).downstream_errors;
            &&& field_of(envelope, "downstreamErrors"@) == Some(JsonView::Items(failures))
            &&& field_of(envelope, "downstreamError"@) == Some(
                json_or_null(primary_of(failures)),
            )
        }),
{
    law_envelope_slots(outcome_parts(prepared, backend_name, outcome));
}

/// The payload of an answer reads back as the envelope of the outcome, where
/// the documents that came from outside do: no number in them but 64-bit
/// integers, and no nesting beyond what the JSON crate reads.
pub proof fn law_answer_reads_back(
    answer: Result<BackendResponse, BackendError>,
    prepared: PreparedCall,
    backend_name: Seq<char>,
    outcome: OutcomeView,
)
    requires
        carries(answer, envelope_of(prepared, backend_name, outcome)),
        parts_read_back(outcome_parts(prepared, backend_name, outcome)),
    ensures
        reads_as(answer->Ok_0.payload@, envelope_of(prepared, backend_name, outcome)),
{
    law_envelope_reads_back(outcome_parts(prepared, backend_name, outcome));
}

/// The envelope shows what went on the wire: the address and the headers of a
/// resolved call are those after substitution, and those of a call that could
/// not be resolved are the binding's.
pub proof fn law_wire_values_are_shown(
    prepared: PreparedCall,
    backend_name: Seq<char>,
    outcome: OutcomeView,
)
    ensures
        ({
            let envelope = envelope_of(prepared, backend_name, outcome);
            let (url, headers) = match prepared.resolution {
                Ok(resolved) => (
                    resolved.resolved_url@,
                    pairs_view(resolved.resolved_headers@),
                ),
                Err(_) => (prepared.call.draft.profile@.url, prepared.call.draft.profile@.headers),
            };
            &&& field_of(envelope, "url"@) == Some(JsonView::Text(url))
            &&& field_of(envelope, "requestHeaders"@) == Some(
                JsonView::Fields(strings_fields(headers, headers.len())),
            )
        }),
{
    law_envelope_slots(outcome_parts(prepared, backend_name, outcome));
}

/// The envelope of a call tells the call that was made, whatever came of it:
/// the tool, the binding, the arguments and how they travelled, and the limits
/// of the binding.
pub proof fn law_envelope_tells_the_call(
    prepared: PreparedCall,
    backend_name: Seq<char>,
    outcome: OutcomeView,
)
    ensures
        ({
            let envelope = envelope_of(prepared, backend_name, outcome);
            let request = field_of(envelope, "request"@)->0;
            let draft = prepared.call.draft;
            let kind = match draft.call_mode {
                HttpCallMode::JsonBody => JsonView::Text("json_body"@),
                HttpCallMode::QueryString => JsonView::Text("query_string"@),
            };
            let body = match prepared.call.request_body {
                Some(body) => body@,
                None => JsonView::Null,
            };
            let query = match prepared.call.request_query {
                Some(query) => JsonView::Text(query@),
                None => JsonView::Null,
            };
            let codes = field_of(envelope, "expectedStatusCodes"@)->0;
            &&& field_of(envelope, "toolName"@) == Some(JsonView::Text(draft.tool_name@))
            &&& field_of(envelope, "profile"@) == Some(JsonView::Text(backend_name))
            &&& field_of(envelope, "requestKind"@) == Some(kind)
            &&& field_of(request, "kind"@) == Some(kind)
            &&& field_of(request, "arguments"@) == Some(draft.arguments@)
            &&& field_of(envelope, "requestArguments"@) == Some(draft.arguments@)
            &&& field_of(request, "body"@) == Some(body)
            &&& field_of(envelope, "requestBody"@) == Some(body)
            &&& field_of(request, "query"@) == Some(query)
            &&& field_of(envelope, "requestQuery"@) == Some(query)
            &&& field_of(envelope, "timeoutMs"@) == Some(
                JsonView::Int(draft.profile.timeout_ms as int),
            )
            &&& field_of(envelope, "maxResponseBytes"@) == Some(
                JsonView::Int(draft.profile.max_response_bytes as int),
            )
            &&& field_of(envelope, "requireJsonResponse"@) == Some(
                JsonView::Bool(draft.profile.require_json_response),
            )
            &&& codes is Items
            &&& codes->Items_0.len() == draft.profile.expected_status_codes@.len()
            &&& forall|i: int|
                0 <= i < draft.profile.expected_status_codes@.len()
                    ==> #[trigger] codes->Items_0[i] == JsonView::Int(
                    draft.profile.expected_status_codes@[i] as int,
                )
        }),
{
    let parts = outcome_parts(prepared, backend_name, outcome);
    law_request_is_told_as_sent(parts);
    law_call_is_told_from_its_parts(parts);
}

/// The envelope of an answered call tells the answer as it came, whatever its
/// status, without an error; its failures are the unexpected status, where
/// there is one, and then the body that is no JSON, where there is one.
pub proof fn law_envelope_tells_the_answer(
    prepared: PreparedCall,
    backend_name: Seq<char>,
    outcome: OutcomeView,
)
    ensures
        outcome matches OutcomeView::Answered {
            summary,
            status_error,
            response_json,
            response_json_parse_error,
            json_error,
        } ==> {
            let envelope = envelope_of(prepared, backend_name, outcome);
            let response = field_of(envelope, "response"@)->0;
            let content_type = match summary.content_type {
                Some(content_type) => JsonView::Text(content_type),
                None => JsonView::Null,
            };
            let json = match response_json {
                Some(json) => json,
                None => JsonView::Null,
            };
            let parse_error = match response_json_parse_error {
                Some(message) => JsonView::Text(message),
                None => JsonView::Null,
            };
            let failures = field_of(envelope, "downstreamErrors"@)->0;
            &&& field_of(response, "statusCode"@) == Some(JsonView::Int(summary.status_code as int))
            &&& field_of(envelope, "statusCode"@) == Some(JsonView::Int(summary.status_code as int))
            &&& field_of(response, "durationMs"@) == Some(JsonView::Int(summary.duration_ms as int))
            &&& field_of(envelope, "durationMs"@) == Some(JsonView::Int(summary.duration_ms as int))
            &&& field_of(response, "contentType"@) == Some(content_type)
            &&& field_of(envelope, "responseContentType"@) == Some(content_type)
            &&& field_of(response, "body"@) == Some(JsonView::Text(summary.body))
            &&& field_of(envelope, "body"@) == Some(JsonView::Text(summary.body))
            &&& field_of(response, "bodyTruncated"@) == Some(JsonView::Bool(summary.body_truncated))
            &&& field_of(envelope, "bodyTruncated"@) == Some(JsonView::Bool(summary.body_truncated))
            &&& field_of(response, "json"@) == Some(json)
            &&& field_of(envelope, "responseJson"@) == Some(json)
            &&& field_of(response, "jsonParseError"@) == Some(parse_error)
            &&& field_of(envelope, "responseJsonParseError"@) == Some(parse_error)
            &&& field_of(envelope, "error"@) == Some(JsonView::Null)
            &&& failures is Items
            &&& failures->Items_0.len() == (if status_error is Some {
                1int
            } else {
                0
            }) + (if json_error is Some {
                1int
            } else {
                0
            })
            &&& status_error is Some ==> failures->Items_0[0] == status_error->0
            &&& json_error is Some ==> failures->Items_0.last() == json_error->0
            &&& status_error is Some ==> field_of(envelope, "downstreamError"@) == Some(
                status_error->0,
            )
            &&& status_error is None && json_error is Some ==> field_of(
                envelope,
                "downstreamError"@,
            ) == Some(json_error->0)
            &&& status_error is None && json_error is None ==> field_of(
                envelope,
                "downstreamError"@,
            ) == Some(JsonView::Null)
        },
{
    let parts = outcome_parts(prepared, backend_name, outcome);
    if outcome is Answered {
        law_answer_is_told_as_it_came(parts, outcome->summary);
        law_call_is_told_from_its_parts(parts);
    }
}

/// The envelope of a call without an answer tells no response; its one failure
/// is the one that classifies it, and its error is its own text, or, where that
/// is empty, that of the resolution.
pub proof fn law_envelope_tells_the_failure(
    prepared: PreparedCall,
    backend_name: Seq<char>,
    outcome: OutcomeView,
)
    ensures
        outcome matches OutcomeView::Failed { error, downstream } ==> {
            let envelope = envelope_of(prepared, backend_name, outcome);
            &&& field_of(envelope, "response"@) == Some(JsonView::Null)
            &&& field_of(envelope, "statusCode"@) == Some(JsonView::Null)
            &&& field_of(envelope, "durationMs"@) == Some(JsonView::Null)
            &&& field_of(envelope, "responseContentType"@) == Some(JsonView::Null)
            &&& field_of(envelope, "body"@) == Some(JsonView::Null)
            &&& field_of(envelope, "bodyTruncated"@) == Some(JsonView::Null)
            &&& field_of(envelope, "responseJson"@) == Some(JsonView::Null)
            &&& field_of(envelope, "responseJsonParseError"@) == Some(JsonView::Null)
            &&& field_of(envelope, "downstreamError"@) == Some(downstream)
            &&& field_of(envelope, "downstreamErrors"@) == Some(JsonView::Items(seq![downstream]))
            &&& error.len() > 0 ==> field_of(envelope, "error"@) == Some(JsonView::Text(error))
            &&& error.len() == 0 && prepared.resolution is Err ==> field_of(envelope, "error"@)
                == Some(JsonView::Text(prepared.resolution->Err_0@))
            &&& error.len() == 0 && prepared.resolution is Ok ==> field_of(envelope, "error"@)
                == Some(JsonView::Text("unknown HTTP plugin error"@))
        },
{
    let parts = outcome_parts(prepared, backend_name, outcome);
    if outcome is Failed {
        law_missing_answer_is_null(parts);
        law_missing_json_is_null(parts);
        law_call_is_told_from_its_parts(parts);
    }
}

/// A failed call is told with its own error, whatever the resolution; an empty
/// one gives way to that of the resolution.
pub proof fn law_own_error_comes_first(error: Seq<char>, resolution: Result<ResolvedCall, String>)
    ensures
        error.len() > 0 ==> effective_error(error, resolution) == error,
        error.len() == 0 && resolution is Err ==> effective_error(error, resolution)
            == resolution->Err_0@,
        error.len() == 0 && resolution is Ok ==> effective_error(error, resolution)
            == "unknown HTTP plugin error"@,
{
}

/// A buffered call is concluded with the class of its status, or with what its
/// failure says: a timeout, a failed transport, or, without a text of its own,
/// a bad configuration for the reason of the resolution. Its answer is the
/// whole text of the envelope.
pub proof fn law_buffered_call_is_concluded(
    conclusion: Conclusion,
    prepared: PreparedCall,
    backend_name: Seq<char>,
    outcome: OutcomeView,
)
    requires
        concludes_buffered(conclusion, prepared, backend_name, outcome),
    ensures
        conclusion.answer is Ok,
        conclusion.answer->Ok_0.payload@ == json_text(envelope_of(prepared, backend_name, outcome)),
        !conclusion.answer->Ok_0.truncated,
        outcome matches OutcomeView::Answered { summary, .. } ==> {
            &&& conclusion.status_code == Some(summary.status_code)
            &&& conclusion.reason is None
            &&& conclusion.outcome_label@ == (if 400 <= summary.status_code <= 499 {
                "http_4xx"@
            } else if 500 <= summary.status_code <= 599 {
                "http_5xx"@
            } else {
                "ok"@
            })
        },
        outcome matches OutcomeView::Failed { error, .. } ==> {
            &&& conclusion.status_code is None
            &&& error.len() > 0 ==> text_of(conclusion.reason) == Some(error)
                && conclusion.outcome_label@ == transport_label(error)
            &&& error.len() == 0 ==> conclusion.outcome_label@ == "invalid_spec"@ && (
            match prepared.resolution {
                Ok(_) => conclusion.reason is None,
                Err(error) => text_of(conclusion.reason) == Some(error@),
            })
        },
{
}

/// A call that went out to be streamed is concluded with the class of its
/// status, or with what its failure says. Its answer is the whole text of the
/// envelope.
pub proof fn law_streamed_call_is_concluded(
    conclusion: Conclusion,
    prepared: PreparedCall,
    backend_name: Seq<char>,
    outcome: OutcomeView,
)
    requires
        concludes_streamed(conclusion, prepared, backend_name, outcome),
    ensures
        conclusion.answer is Ok,
        conclusion.answer->Ok_0.payload@ == json_text(envelope_of(prepared, backend_name, outcome)),
        !conclusion.answer->Ok_0.truncated,
        outcome matches OutcomeView::Answered { summary, .. } ==> {
            &&& conclusion.status_code == Some(summary.status_code)
            &&& conclusion.reason is None
            &&& conclusion.outcome_label@ == (if 400 <= summary.status_code <= 499 {
                "http_4xx"@
            } else if 500 <= summary.status_code <= 599 {
                "http_5xx"@
            } else {
                "ok"@
            })
        },
        outcome matches OutcomeView::Failed { error, .. } ==> {
            &&& conclusion.status_code is None
            &&& text_of(conclusion.reason) == Some(error)
            &&& conclusion.outcome_label@ == transport_label(error)
        },
{
}

/// A call that could not be resolved is concluded as a bad configuration, for
/// the reason of the resolution, and the gateway reads that reason as the error
/// of the envelope.
pub proof fn law_unresolved_call_is_concluded(
    conclusion: Conclusion,
    prepared: PreparedCall,
    backend_name: Seq<char>,
    downstream: JsonView,
)
    requires
        prepared.resolution is Err,
        concludes_unresolved(conclusion, prepared, backend_name, downstream),
    ensures
        conclusion.outcome_label@ == "invalid_spec"@,
        conclusion.status_code is None,
        text_of(conclusion.reason) == Some(prepared.resolution->Err_0@),
        conclusion.answer is Ok,
        !conclusion.answer->Ok_0.truncated,
        exists|envelope: JsonView|
            conclusion.answer->Ok_0.payload@ == json_text(envelope) && #[trigger] field_of(
                envelope,
                "error"@,
            ) == Some(JsonView::Text(prepared.resolution->Err_0@)) && field_of(
                envelope,
                "downstreamError"@,
            ) == Some(downstream) && field_of(envelope, "response"@) == Some(JsonView::Null),
{
    let outcome = OutcomeView::Failed { error: Seq::empty(), downstream };
    law_envelope_tells_the_failure(prepared, backend_name, outcome);
    let envelope = envelope_of(prepared, backend_name, outcome);
    assert(field_of(envelope, "error"@) == Some(
        JsonView::Text(prepared.resolution->Err_0@),
    ));
}

/// An outcome is told with everything that it carries.
pub proof fn law_outcome_is_told_whole(outcome: CallOutcome)
    ensures
        outcome matches CallOutcome::Answered {
            summary,
            status_error,
            response_json,
            response_json_parse_error,
            json_error,
        } ==> outcome@ == (OutcomeView::Answered {
            summary: summary@,
            status_error: tree_of(status_error),
            response_json: tree_of(response_json),
            response_json_parse_error: text_of(response_json_parse_error),
            json_error: tree_of(json_error),
        }),
        outcome matches CallOutcome::Failed { error, downstream } ==> outcome@ == (
        OutcomeView::Failed { error: error@, downstream: downstream@ }),
{
}

} // verus!
