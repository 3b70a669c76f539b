//! The structured response envelope of the HTTP binding.

use crate::json::{
    documents, field_of, fields_of, items_json, json_or_null, optional_json, optional_text_json,
    put, slice_text, strings_fields, strings_json, text_json, text_or_null, tree_json, Json,
    JsonView,
};
use crate::pairs::pairs_view;
use crate::serde_bridge::reads_back;
use crate::types::{
    kind_of, HttpCallMode, HttpRequestProfile, HttpResponseSummary, SpecView,
    SummaryView,
};
use vstd::prelude::*;
use vstd::string::*;

verus! {

/// A classified downstream failure, as the JSON object that describes it.
pub type DownstreamHttpError = Json;

/// What an envelope is built from.
pub struct EnvelopeParts {
    pub tool_name: Seq<char>,
    pub profile_name: Seq<char>,
    pub profile: SpecView,
    pub call_mode: HttpCallMode,
    pub request_arguments: JsonView,
    pub request_body: Option<JsonView>,
    pub request_query: Option<Seq<char>>,
    pub response: Option<SummaryView>,
    pub response_json: Option<JsonView>,
    pub response_json_parse_error: Option<Seq<char>>,
    pub downstream_error: Option<JsonView>,
    pub downstream_errors: Seq<JsonView>,
    pub error: Option<Seq<char>>,
    pub display_url: Option<Seq<char>>,
    pub display_headers: Option<Seq<(Seq<char>, Seq<char>)>>,
}

/// A list of status codes as numbers.
pub open spec fn codes_items(codes: Seq<u16>) -> Seq<JsonView> {
    codes.map_values(|code: u16| JsonView::Int(code as int))
}

/// The `request` object.
pub open spec fn request_fields(parts: EnvelopeParts) -> Map<Seq<char>, JsonView> {
    Map::<Seq<char>, JsonView>::empty()
        .insert("kind"@, JsonView::Text(kind_of(parts.call_mode)))
        .insert("arguments"@, parts.request_arguments)
        .insert("body"@, json_or_null(parts.request_body))
        .insert("query"@, text_or_null(parts.request_query))
}

/// The `response` object of a call that got one.
pub open spec fn response_fields(parts: EnvelopeParts, response: SummaryView) -> Map<
    Seq<char>,
    JsonView,
> {
    Map::<Seq<char>, JsonView>::empty()
        .insert("durationMs"@, JsonView::Int(response.duration_ms as int))
        .insert("statusCode"@, JsonView::Int(response.status_code as int))
        .insert("contentType"@, text_or_null(response.content_type))
        .insert("body"@, JsonView::Text(response.body))
        .insert("bodyTruncated"@, JsonView::Bool(response.body_truncated))
        .insert("json"@, json_or_null(parts.response_json))
        .insert("jsonParseError"@, text_or_null(parts.response_json_parse_error))
}

/// The `response` slot: the response, or null where none came.
pub open spec fn response_view(parts: EnvelopeParts) -> JsonView {
    match parts.response {
        Some(response) => JsonView::Fields(response_fields(parts, response)),
        None => JsonView::Null,
    }
}

/// The part of the envelope that every call has: who was called, what was
/// sent, what came back, and how it failed.
pub open spec fn base_fields(parts: EnvelopeParts) -> Map<Seq<char>, JsonView> {
    Map::<Seq<char>, JsonView>::empty()
        .insert("toolName"@, JsonView::Text(parts.tool_name))
        .insert("profile"@, JsonView::Text(parts.profile_name))
        .insert("requestKind"@, JsonView::Text(kind_of(parts.call_mode)))
        .insert("request"@, JsonView::Fields(request_fields(parts)))
        .insert("response"@, response_view(parts))
        .insert("error"@, text_or_null(parts.error))
        .insert("downstreamError"@, json_or_null(parts.downstream_error))
        .insert("downstreamErrors"@, JsonView::Items(parts.downstream_errors))
}

/// The URL that went on the wire, or the binding's where none is known.
pub open spec fn effective_url(parts: EnvelopeParts) -> Seq<char> {
    match parts.display_url {
        Some(url) => url,
        None => parts.profile.url,
    }
}

/// The headers that went on the wire, or the binding's where none are known.
pub open spec fn effective_headers(parts: EnvelopeParts) -> Seq<(Seq<char>, Seq<char>)> {
    match parts.display_headers {
        Some(headers) => headers,
        None => parts.profile.headers,
    }
}

/// The envelope: the common part, and beside it what an operator reads at a
/// glance: the effective request, the limits of the binding and the response.
pub open spec fn envelope_fields(parts: EnvelopeParts) -> Map<Seq<char>, JsonView> {
    base_fields(parts)
        .insert("url"@, JsonView::Text(effective_url(parts)))
        .insert("timeoutMs"@, JsonView::Int(parts.profile.timeout_ms as int))
        .insert("maxResponseBytes"@, JsonView::Int(parts.profile.max_response_bytes as int))
        .insert(
            "expectedStatusCodes"@,
            JsonView::Items(codes_items(parts.profile.expected_status_codes)),
        )
        .insert("requireJsonResponse"@, JsonView::Bool(parts.profile.require_json_response))
        .insert(
            "requestHeaders"@,
            JsonView::Fields(
                strings_fields(effective_headers(parts), effective_headers(parts).len()),
            ),
        )
        .insert("requestArguments"@, parts.request_arguments)
        .insert("requestBody"@, json_or_null(parts.request_body))
        .insert("requestQuery"@, text_or_null(parts.request_query))
        .insert("durationMs"@, match parts.response {
            Some(response) => JsonView::Int(response.duration_ms as int),
            None => JsonView::Null,
        })
        .insert("statusCode"@, match parts.response {
            Some(response) => JsonView::Int(response.status_code as int),
            None => JsonView::Null,
        })
        .insert("responseContentType"@, match parts.response {
            Some(response) => text_or_null(response.content_type),
            None => JsonView::Null,
        })
        .insert("body"@, match parts.response {
            Some(response) => JsonView::Text(response.body),
            None => JsonView::Null,
        })
        .insert("bodyTruncated"@, match parts.response {
            Some(response) => JsonView::Bool(response.body_truncated),
            None => JsonView::Null,
        })
        .insert("responseJson"@, json_or_null(parts.response_json))
        .insert("responseJsonParseError"@, text_or_null(parts.response_json_parse_error))
}

/// The content of an optional response.
pub open spec fn summary_of(response: Option<&HttpResponseSummary>) -> Option<SummaryView> {
    match response {
        Some(summary) => Some(summary@),
        None => None,
    }
}

/// The content of an optional list of headers.
pub open spec fn headers_of(headers: Option<&Vec<(String, String)>>) -> Option<
    Seq<(Seq<char>, Seq<char>)>,
> {
    match headers {
        Some(headers) => Some(pairs_view(headers@)),
        None => None,
    }
}

/// A list of status codes as an array of numbers.
fn codes_json(codes: &Vec<u16>) -> (json: Json)
    ensures
        json@ == JsonView::Items(codes_items(codes@)),
{
    let mut items: Vec<Json> = Vec::new();
    let mut i: usize = 0;
    while i < codes.len()
        invariant
            i <= codes.len(),
            items@.len() == i,
            documents(items@) == codes_items(codes@).take(i as int),
        decreases codes.len() - i,
    {
        let ghost before = items@;
        let item: Json = Json::Unsigned(codes[i] as u64);
        items.push(item);
        i = i + 1;
        proof {
            crate::json::lemma_documents_push(before, item);
            assert(documents(items@) =~= codes_items(codes@).take(i as int));
        }
    }
    assert(codes_items(codes@).take(i as int) =~= codes_items(codes@));
    Json::Items(items)
}

/// The `request` object.
fn request_json(
    call_mode: HttpCallMode,
    request_arguments: &Json,
    request_body: Option<&Json>,
    request_query: Option<&str>,
    Ghost(parts): Ghost<EnvelopeParts>,
) -> (json: Json)
    requires
        parts.call_mode == call_mode,
        parts.request_arguments == request_arguments@,
        parts.request_body == tree_json(request_body),
        parts.request_query == slice_text(request_query),
    ensures
        json@ == JsonView::Fields(request_fields(parts)),
{
    let mut request: Vec<(String, Json)> = Vec::new();
    put(&mut request, "kind", text_json(call_mode.request_kind()));
    put(&mut request, "arguments", request_arguments.clone());
    put(&mut request, "body", optional_json(request_body));
    put(&mut request, "query", optional_text_json(request_query));
    Json::Fields(request)
}

/// The `response` object, or null.
fn response_json(
    response: Option<&HttpResponseSummary>,
    json: Option<&Json>,
    json_parse_error: Option<&str>,
    Ghost(parts): Ghost<EnvelopeParts>,
) -> (rendered: Json)
    requires
        parts.response == summary_of(response),
        parts.response_json == tree_json(json),
        parts.response_json_parse_error == slice_text(json_parse_error),
    ensures
        rendered@ == response_view(parts),
{
    match response {
        None => Json::Null,
        Some(summary) => {
            let mut entries: Vec<(String, Json)> = Vec::new();
            put(&mut entries, "durationMs", Json::Unsigned(summary.duration_ms));
            put(&mut entries, "statusCode", Json::Unsigned(summary.status_code as u64));
            put(&mut entries, "contentType", content_type_json(summary));
            put(&mut entries, "body", text_json(summary.body.as_str()));
            put(&mut entries, "bodyTruncated", Json::Bool(summary.body_truncated));
            put(&mut entries, "json", optional_json(json));
            put(&mut entries, "jsonParseError", optional_text_json(json_parse_error));
            Json::Fields(entries)
        },
    }
}

/// The content type of a response, or null.
fn content_type_json(summary: &HttpResponseSummary) -> (json: Json)
    ensures
        json@ == text_or_null(summary@.content_type),
{
    match &summary.content_type {
        Some(content_type) => text_json(content_type.as_str()),
        None => Json::Null,
    }
}

/// Builds the envelope that a gateway projects onto `tools/call`.
/// `display_url` and `display_headers` are the values that went on the wire;
/// without them the registered profile's are shown.
pub fn build_envelope(
    tool_name: &str,
    profile_name: &str,
    profile: &HttpRequestProfile,
    call_mode: HttpCallMode,
    request_arguments: &Json,
    request_body: Option<&Json>,
    request_query: Option<&str>,
    response: Option<&HttpResponseSummary>,
    response_json: Option<&Json>,
    response_json_parse_error: Option<&str>,
    downstream_error: Option<&DownstreamHttpError>,
    downstream_errors: &Vec<DownstreamHttpError>,
    error: Option<&str>,
    display_url: Option<&str>,
    display_headers: Option<&Vec<(String, String)>>,
) -> (envelope: Json)
    ensures
        envelope@ == JsonView::Fields(envelope_fields((EnvelopeParts {
            tool_name: tool_name@,
            profile_name: profile_name@,
            profile: profile@,
            call_mode,
            request_arguments: request_arguments@,
            request_body: tree_json(request_body),
            request_query: slice_text(request_query),
            response: summary_of(response),
            response_json: tree_json(response_json),
            response_json_parse_error: slice_text(response_json_parse_error),
            downstream_error: tree_json(downstream_error),
            downstream_errors: documents(downstream_errors@),
            error: slice_text(error),
            display_url: slice_text(display_url),
            display_headers: headers_of(display_headers),
        }))),
{
    let ghost parts = EnvelopeParts {
        tool_name: tool_name@,
        profile_name: profile_name@,
        profile: profile@,
        call_mode,
        request_arguments: request_arguments@,
        request_body: tree_json(request_body),
        request_query: slice_text(request_query),
        response: summary_of(response),
        response_json: tree_json(response_json),
        response_json_parse_error: slice_text(response_json_parse_error),
        downstream_error: tree_json(downstream_error),
        downstream_errors: documents(downstream_errors@),
        error: slice_text(error),
        display_url: slice_text(display_url),
        display_headers: headers_of(display_headers),
    };
    let mut entries: Vec<(String, Json)> = Vec::new();
    put(&mut entries, "toolName", text_json(tool_name));
    put(&mut entries, "profile", text_json(profile_name));
    put(&mut entries, "requestKind", text_json(call_mode.request_kind()));
    put(
        &mut entries,
        "request",
        request_json(call_mode, request_arguments, request_body, request_query, Ghost(parts)),
    );
    put(
        &mut entries,
        "response",
        self::response_json(response, response_json, response_json_parse_error, Ghost(parts)),
    );
    put(&mut entries, "error", optional_text_json(error));
    put(&mut entries, "downstreamError", optional_json(downstream_error));
    put(&mut entries, "downstreamErrors", items_json(downstream_errors));
    assert(fields_of(entries@) == base_fields(parts));

    let effective_url: &str = match display_url {
        Some(url) => url,
        None => profile.url.as_str(),
    };
    let effective_headers: &Vec<(String, String)> = match display_headers {
        Some(headers) => headers,
        None => &profile.headers,
    };
    put(&mut entries, "url", text_json(effective_url));
    put(&mut entries, "timeoutMs", Json::Unsigned(profile.timeout_ms));
    put(&mut entries, "maxResponseBytes", Json::Unsigned(profile.max_response_bytes as u64));
    put(&mut entries, "expectedStatusCodes", codes_json(&profile.expected_status_codes));
    put(&mut entries, "requireJsonResponse", Json::Bool(profile.require_json_response));
    put(&mut entries, "requestHeaders", strings_json(effective_headers));
    put(&mut entries, "requestArguments", request_arguments.clone());
    put(&mut entries, "requestBody", optional_json(request_body));
    put(&mut entries, "requestQuery", optional_text_json(request_query));
    match response {
        Some(summary) => {
            put(&mut entries, "durationMs", Json::Unsigned(summary.duration_ms));
            put(&mut entries, "statusCode", Json::Unsigned(summary.status_code as u64));
            put(&mut entries, "responseContentType", content_type_json(summary));
            put(&mut entries, "body", text_json(summary.body.as_str()));
            put(&mut entries, "bodyTruncated", Json::Bool(summary.body_truncated));
        },
        None => {
            put(&mut entries, "durationMs", Json::Null);
            put(&mut entries, "statusCode", Json::Null);
            put(&mut entries, "responseContentType", Json::Null);
            put(&mut entries, "body", Json::Null);
            put(&mut entries, "bodyTruncated", Json::Null);
        },
    }
    put(&mut entries, "responseJson", optional_json(response_json));
    put(&mut entries, "responseJsonParseError", optional_text_json(response_json_parse_error));
    Json::Fields(entries)
}

/// The names of the slots differ: in length, or at one place.
proof fn lemma_names_differ()
    ensures
        "toolName"@.len() == 8,
        "toolName"@[0] == 't',
        "profile"@.len() == 7,
        "profile"@[0] == 'p',
        "requestKind"@.len() == 11,
        "requestKind"@[7] == 'K',
        "request"@.len() == 7,
        "request"@[0] == 'r',
        "response"@.len() == 8,
        "response"@[0] == 'r',
        "error"@.len() == 5,
        "error"@[0] == 'e',
        "downstreamError"@.len() == 15,
        "downstreamErrors"@.len() == 16,
        "downstreamErrors"@[0] == 'd',
        "url"@.len() == 3,
        "timeoutMs"@.len() == 9,
        "timeoutMs"@[0] == 't',
        "maxResponseBytes"@.len() == 16,
        "maxResponseBytes"@[0] == 'm',
        "expectedStatusCodes"@.len() == 19,
        "expectedStatusCodes"@[2] == 'p',
        "requireJsonResponse"@.len() == 19,
        "requireJsonResponse"@[2] == 'q',
        "requestHeaders"@.len() == 14,
        "requestHeaders"@[0] == 'r',
        "requestArguments"@.len() == 16,
        "requestArguments"@[0] == 'r',
        "requestBody"@.len() == 11,
        "requestBody"@[7] == 'B',
        "requestQuery"@.len() == 12,
        "requestQuery"@[2] == 'q',
        "durationMs"@.len() == 10,
        "durationMs"@[0] == 'd',
        "statusCode"@.len() == 10,
        "statusCode"@[0] == 's',
        "responseContentType"@.len() == 19,
        "responseContentType"@[2] == 's',
        "body"@.len() == 4,
        "body"@[0] == 'b',
        "bodyTruncated"@.len() == 13,
        "responseJson"@.len() == 12,
        "responseJson"@[2] == 's',
        "responseJsonParseError"@.len() == 22,
        "kind"@.len() == 4,
        "kind"@[0] == 'k',
        "arguments"@.len() == 9,
        "arguments"@[0] == 'a',
        "query"@.len() == 5,
        "query"@[0] == 'q',
        "contentType"@.len() == 11,
        "contentType"@[7] == 'T',
        "json"@.len() == 4,
        "json"@[0] == 'j',
        "jsonParseError"@.len() == 14,
        "jsonParseError"@[0] == 'j',
{
    reveal_strlit("toolName");
    reveal_strlit("profile");
    reveal_strlit("requestKind");
    reveal_strlit("request");
    reveal_strlit("response");
    reveal_strlit("error");
    reveal_strlit("downstreamError");
    reveal_strlit("downstreamErrors");
    reveal_strlit("url");
    reveal_strlit("timeoutMs");
    reveal_strlit("maxResponseBytes");
    reveal_strlit("expectedStatusCodes");
    reveal_strlit("requireJsonResponse");
    reveal_strlit("requestHeaders");
    reveal_strlit("requestArguments");
    reveal_strlit("requestBody");
    reveal_strlit("requestQuery");
    reveal_strlit("durationMs");
    reveal_strlit("statusCode");
    reveal_strlit("responseContentType");
    reveal_strlit("body");
    reveal_strlit("bodyTruncated");
    reveal_strlit("responseJson");
    reveal_strlit("responseJsonParseError");
    reveal_strlit("kind");
    reveal_strlit("arguments");
    reveal_strlit("query");
    reveal_strlit("contentType");
    reveal_strlit("json");
    reveal_strlit("jsonParseError");
}

/// No slot of the envelope is overwritten: each field stands under its name.
pub proof fn law_envelope_slots(parts: EnvelopeParts)
    ensures
        ({
            let envelope = JsonView::Fields(envelope_fields(parts));
            &&& field_of(envelope, "toolName"@) == Some(JsonView::Text(parts.tool_name))
            &&& field_of(envelope, "profile"@) == Some(JsonView::Text(parts.profile_name))
            &&& field_of(envelope, "requestKind"@) == Some(
                JsonView::Text(kind_of(parts.call_mode)),
            )
            &&& field_of(envelope, "request"@) == Some(JsonView::Fields(request_fields(parts)))
            &&& field_of(envelope, "response"@) == Some(response_view(parts))
            &&& field_of(envelope, "error"@) == Some(text_or_null(parts.error))
            &&& field_of(envelope, "downstreamError"@) == Some(
                json_or_null(parts.downstream_error),
            )
            &&& field_of(envelope, "downstreamErrors"@) == Some(
                JsonView::Items(parts.downstream_errors),
            )
            &&& field_of(envelope, "url"@) == Some(JsonView::Text(effective_url(parts)))
            &&& field_of(envelope, "timeoutMs"@) == Some(
                JsonView::Int(parts.profile.timeout_ms as int),
            )
            &&& field_of(envelope, "maxResponseBytes"@) == Some(
                JsonView::Int(parts.profile.max_response_bytes as int),
            )
            &&& field_of(envelope, "expectedStatusCodes"@) == Some(
                JsonView::Items(codes_items(parts.profile.expected_status_codes)),
            )
            &&& field_of(envelope, "requireJsonResponse"@) == Some(
                JsonView::Bool(parts.profile.require_json_response),
            )
            &&& field_of(envelope, "requestHeaders"@) == Some(
                JsonView::Fields(
                    strings_fields(effective_headers(parts), effective_headers(parts).len()),
                ),
            )
        }),
{
    lemma_names_differ();
}

/// What stands beside the nested objects repeats them: the request's arguments,
/// body and query, and of a response its duration, status, content type, body,
/// parsed JSON and parse error.
pub proof fn law_envelope_repeats_its_objects(parts: EnvelopeParts)
    ensures
        ({
            let envelope = JsonView::Fields(envelope_fields(parts));
            let request = JsonView::Fields(request_fields(parts));
            &&& field_of(envelope, "requestKind"@) == field_of(request, "kind"@)
            &&& field_of(envelope, "requestArguments"@) == field_of(request, "arguments"@)
            &&& field_of(envelope, "requestBody"@) == field_of(request, "body"@)
            &&& field_of(envelope, "requestQuery"@) == field_of(request, "query"@)
        }),
        parts.response is Some ==> ({
            let envelope = JsonView::Fields(envelope_fields(parts));
            let response = response_view(parts);
            &&& field_of(envelope, "durationMs"@) == field_of(response, "durationMs"@)
            &&& field_of(envelope, "statusCode"@) == field_of(response, "statusCode"@)
            &&& field_of(envelope, "responseContentType"@) == field_of(response, "contentType"@)
            &&& field_of(envelope, "body"@) == field_of(response, "body"@)
            &&& field_of(envelope, "bodyTruncated"@) == field_of(response, "bodyTruncated"@)
            &&& field_of(envelope, "responseJson"@) == field_of(response, "json"@)
            &&& field_of(envelope, "responseJsonParseError"@) == field_of(
                response,
                "jsonParseError"@,
            )
        }),
{
    lemma_names_differ();
}

/// A document that reads back within a depth does within a larger one.
proof fn lemma_reads_back_deeper(json: JsonView, depth: nat)
    requires
        reads_back(json, depth),
    ensures
        reads_back(json, depth + 1),
    decreases depth,
{
    match json {
        JsonView::Items(items) => {
            assert forall|i: int| 0 <= i < items.len() implies reads_back(
                #[trigger] items[i],
                depth,
            ) by {
                lemma_reads_back_deeper(items[i], (depth - 1) as nat);
            }
        },
        JsonView::Fields(fields) => {
            assert forall|name: Seq<char>| fields.dom().contains(name) implies reads_back(
                #[trigger] fields[name],
                depth,
            ) by {
                lemma_reads_back_deeper(fields[name], (depth - 1) as nat);
            }
        },
        _ => {},
    }
}

/// An object of strings reads back.
proof fn lemma_strings_read_back(pairs: Seq<(Seq<char>, Seq<char>)>, n: nat, depth: nat)
    requires
        n <= pairs.len(),
    ensures
        forall|name: Seq<char>|
            strings_fields(pairs, n).dom().contains(name) ==> reads_back(
                #[trigger] strings_fields(pairs, n)[name],
                depth,
            ),
    decreases n,
{
    if n > 0 {
        lemma_strings_read_back(pairs, (n - 1) as nat, depth);
        let before = strings_fields(pairs, (n - 1) as nat);
        let after = strings_fields(pairs, n);
        assert forall|name: Seq<char>| after.dom().contains(name) implies reads_back(
            #[trigger] after[name],
            depth,
        ) by {
            if name != pairs[n - 1].0 {
                assert(after[name] == before[name]);
            }
        }
    }
}

/// The parts of an envelope that come from outside hold no number but 64-bit
/// integers, and leave room for the envelope around them.
pub open spec fn parts_read_back(parts: EnvelopeParts) -> bool {
    &&& reads_back(parts.request_arguments, 125)
    &&& reads_back(json_or_null(parts.request_body), 125)
    &&& reads_back(json_or_null(parts.response_json), 125)
    &&& reads_back(json_or_null(parts.downstream_error), 126)
    &&& forall|i: int|
        0 <= i < parts.downstream_errors.len() ==> reads_back(
            #[trigger] parts.downstream_errors[i],
            125,
        )
}

/// An envelope can be read back from its text where the documents in it can.
pub proof fn law_envelope_reads_back(parts: EnvelopeParts)
    requires
        parts_read_back(parts),
    ensures
        reads_back(JsonView::Fields(envelope_fields(parts)), 127),
{
    lemma_reads_back_deeper(parts.request_arguments, 125);
    lemma_reads_back_deeper(json_or_null(parts.request_body), 125);
    lemma_reads_back_deeper(json_or_null(parts.response_json), 125);
    let request = request_fields(parts);
    assert forall|name: Seq<char>| request.dom().contains(name) implies reads_back(
        #[trigger] request[name],
        125,
    ) by {}
    assert(reads_back(JsonView::Fields(request), 126));
    if parts.response is Some {
        let response = response_fields(parts, parts.response->0);
        assert forall|name: Seq<char>| response.dom().contains(name) implies reads_back(
            #[trigger] response[name],
            125,
        ) by {}
        assert(reads_back(JsonView::Fields(response), 126));
    }
    let headers = effective_headers(parts);
    lemma_strings_read_back(headers, headers.len(), 125);
    assert(reads_back(JsonView::Fields(strings_fields(headers, headers.len())), 126));
    let codes = codes_items(parts.profile.expected_status_codes);
    assert forall|i: int| 0 <= i < codes.len() implies reads_back(#[trigger] codes[i], 125) by {}
    assert(reads_back(JsonView::Items(codes), 126));
    assert(reads_back(JsonView::Items(parts.downstream_errors), 126));
    let fields = envelope_fields(parts);
    assert forall|name: Seq<char>| fields.dom().contains(name) implies reads_back(
        #[trigger] fields[name],
        126,
    ) by {}
}

/// What the upstream answered is told as it came, whatever its status: in the
/// `response` object and again beside it.
pub proof fn law_answer_is_told_as_it_came(parts: EnvelopeParts, answer: SummaryView)
    requires
        parts.response == Some(answer),
    ensures
        ({
            let envelope = JsonView::Fields(envelope_fields(parts));
            let response = field_of(envelope, "response"@)->0;
            let content_type = match answer.content_type {
                Some(content_type) => JsonView::Text(content_type),
                None => JsonView::Null,
            };
            let json = match parts.response_json {
                Some(json) => json,
                None => JsonView::Null,
            };
            let parse_error = match parts.response_json_parse_error {
                Some(message) => JsonView::Text(message),
                None => JsonView::Null,
            };
            &&& field_of(envelope, "response"@) is Some
            &&& field_of(response, "durationMs"@) == Some(JsonView::Int(answer.duration_ms as int))
            &&& field_of(response, "statusCode"@) == Some(JsonView::Int(answer.status_code as int))
            &&& field_of(response, "contentType"@) == Some(content_type)
            &&& field_of(response, "body"@) == Some(JsonView::Text(answer.body))
            &&& field_of(response, "bodyTruncated"@) == Some(JsonView::Bool(answer.body_truncated))
            &&& field_of(response, "json"@) == Some(json)
            &&& field_of(response, "jsonParseError"@) == Some(parse_error)
            &&& field_of(envelope, "durationMs"@) == Some(JsonView::Int(answer.duration_ms as int))
            &&& field_of(envelope, "statusCode"@) == Some(JsonView::Int(answer.status_code as int))
            &&& field_of(envelope, "responseContentType"@) == Some(content_type)
            &&& field_of(envelope, "body"@) == Some(JsonView::Text(answer.body))
            &&& field_of(envelope, "bodyTruncated"@) == Some(JsonView::Bool(answer.body_truncated))
            &&& field_of(envelope, "responseJson"@) == Some(json)
            &&& field_of(envelope, "responseJsonParseError"@) == Some(parse_error)
        }),
{
    lemma_names_differ();
}

/// Where no answer came, the response and all that would be told of it is null.
pub proof fn law_missing_answer_is_null(parts: EnvelopeParts)
    requires
        parts.response is None,
    ensures
        ({
            let envelope = JsonView::Fields(envelope_fields(parts));
            &&& field_of(envelope, "response"@) == Some(JsonView::Null)
            &&& field_of(envelope, "durationMs"@) == Some(JsonView::Null)
            &&& field_of(envelope, "statusCode"@) == Some(JsonView::Null)
            &&& field_of(envelope, "responseContentType"@) == Some(JsonView::Null)
            &&& field_of(envelope, "body"@) == Some(JsonView::Null)
            &&& field_of(envelope, "bodyTruncated"@) == Some(JsonView::Null)
        }),
{
    lemma_names_differ();
}

/// What was sent is told as it went out: in the `request` object and again
/// beside it.
pub proof fn law_request_is_told_as_sent(parts: EnvelopeParts)
    ensures
        ({
            let envelope = JsonView::Fields(envelope_fields(parts));
            let request = field_of(envelope, "request"@)->0;
            let kind = match parts.call_mode {
                HttpCallMode::JsonBody => JsonView::Text("json_body"@),
                HttpCallMode::QueryString => JsonView::Text("query_string"@),
            };
            let body = match parts.request_body {
                Some(body) => body,
                None => JsonView::Null,
            };
            let query = match parts.request_query {
                Some(query) => JsonView::Text(query),
                None => JsonView::Null,
            };
            &&& field_of(envelope, "request"@) is Some
            &&& field_of(request, "kind"@) == Some(kind)
            &&& field_of(request, "arguments"@) == Some(parts.request_arguments)
            &&& field_of(request, "body"@) == Some(body)
            &&& field_of(request, "query"@) == Some(query)
            &&& field_of(envelope, "requestKind"@) == Some(kind)
            &&& field_of(envelope, "requestArguments"@) == Some(parts.request_arguments)
            &&& field_of(envelope, "requestBody"@) == Some(body)
            &&& field_of(envelope, "requestQuery"@) == Some(query)
        }),
{
    lemma_names_differ();
}

/// Who was called, with what limits and how it failed is told from the call and
/// the binding themselves. The address and the headers are those that went on
/// the wire where they are known, and the binding's otherwise.
pub proof fn law_call_is_told_from_its_parts(parts: EnvelopeParts)
    ensures
        ({
            let envelope = JsonView::Fields(envelope_fields(parts));
            let codes = field_of(envelope, "expectedStatusCodes"@)->0;
            let headers = match parts.display_headers {
                Some(headers) => headers,
                None => parts.profile.headers,
            };
            &&& field_of(envelope, "toolName"@) == Some(JsonView::Text(parts.tool_name))
            &&& field_of(envelope, "profile"@) == Some(JsonView::Text(parts.profile_name))
            &&& field_of(envelope, "url"@) == Some(
                JsonView::Text(
                    match parts.display_url {
                        Some(url) => url,
                        None => parts.profile.url,
                    },
                ),
            )
            &&& field_of(envelope, "requestHeaders"@) == Some(
                JsonView::Fields(strings_fields(headers, headers.len())),
            )
            &&& field_of(envelope, "timeoutMs"@) == Some(
                JsonView::Int(parts.profile.timeout_ms as int),
            )
            &&& field_of(envelope, "maxResponseBytes"@) == Some(
                JsonView::Int(parts.profile.max_response_bytes as int),
            )
            &&& field_of(envelope, "expectedStatusCodes"@) is Some
            &&& codes is Items
            &&& codes->Items_0.len() == parts.profile.expected_status_codes.len()
            &&& forall|i: int|
                0 <= i < parts.profile.expected_status_codes.len() ==> #[trigger] codes->Items_0[i]
                    == JsonView::Int(parts.profile.expected_status_codes[i] as int)
            &&& field_of(envelope, "requireJsonResponse"@) == Some(
                JsonView::Bool(parts.profile.require_json_response),
            )
            &&& field_of(envelope, "error"@) == Some(
                match parts.error {
                    Some(error) => JsonView::Text(error),
                    None => JsonView::Null,
                },
            )
            &&& field_of(envelope, "downstreamError"@) == Some(
                match parts.downstream_error {
                    Some(error) => error,
                    None => JsonView::Null,
                },
            )
            &&& field_of(envelope, "downstreamErrors"@) == Some(
                JsonView::Items(parts.downstream_errors),
            )
        }),
{
    lemma_names_differ();
}

/// An envelope has the same slots whatever is told in it, and so has a request
/// and a response that came.
pub proof fn law_envelope_has_one_shape(parts: EnvelopeParts, name: Seq<char>)
    ensures
        field_of(JsonView::Fields(envelope_fields(parts)), name) is Some <==> {
            ||| name == "toolName"@
            ||| name == "profile"@
            ||| name == "requestKind"@
            ||| name == "request"@
            ||| name == "response"@
            ||| name == "error"@
            ||| name == "downstreamError"@
            ||| name == "downstreamErrors"@
            ||| name == "url"@
            ||| name == "timeoutMs"@
            ||| name == "maxResponseBytes"@
            ||| name == "expectedStatusCodes"@
            ||| name == "requireJsonResponse"@
            ||| name == "requestHeaders"@
            ||| name == "requestArguments"@
            ||| name == "requestBody"@
            ||| name == "requestQuery"@
            ||| name == "durationMs"@
            ||| name == "statusCode"@
            ||| name == "responseContentType"@
            ||| name == "body"@
            ||| name == "bodyTruncated"@
            ||| name == "responseJson"@
            ||| name == "responseJsonParseError"@
        },
        field_of(
            field_of(JsonView::Fields(envelope_fields(parts)), "request"@)->0,
            name,
        ) is Some <==> {
            ||| name == "kind"@
            ||| name == "arguments"@
            ||| name == "body"@
            ||| name == "query"@
        },
        parts.response is Some ==> (field_of(
            field_of(JsonView::Fields(envelope_fields(parts)), "response"@)->0,
            name,
        ) is Some <==> {
            ||| name == "durationMs"@
            ||| name == "statusCode"@
            ||| name == "contentType"@
            ||| name == "body"@
            ||| name == "bodyTruncated"@
            ||| name == "json"@
            ||| name == "jsonParseError"@
        }),
{
    lemma_names_differ();
}

/// An optional answer and optional headers are there with their content, or not
/// at all.
pub proof fn law_optional_parts_are_whole(
    summary: &HttpResponseSummary,
    headers: &Vec<(String, String)>,
)
    ensures
        summary_of(Some(summary)) == Some(summary@),
        summary_of(None) is None,
        headers_of(Some(headers)) == Some(pairs_view(headers@)),
        headers_of(None) is None,
{
}

/// The parsed body of an answer and the error of parsing it are told where they
/// are known, and are null where they are not.
pub proof fn law_missing_json_is_null(parts: EnvelopeParts)
    ensures
        ({
            let envelope = JsonView::Fields(envelope_fields(parts));
            &&& field_of(envelope, "responseJson"@) == Some(
                match parts.response_json {
                    Some(json) => json,
                    None => JsonView::Null,
                },
            )
            &&& field_of(envelope, "responseJsonParseError"@) == Some(
                match parts.response_json_parse_error {
                    Some(message) => JsonView::Text(message),
                    None => JsonView::Null,
                },
            )
        }),
{
    lemma_names_differ();
}

} // verus!
