//! From a gateway request to the call that goes out.

use crate::error::{invalid_spec, BackendError, BackendErrorView};
use crate::json::{fields_of, parse_json, Json, JsonView};
use crate::observability::PluginIdentity;
use crate::pairs::{
    collate, collated, lemma_filter_takes, names_ascend, pairs_view, taken_from,
};
use crate::serde_bridge::{is_empty_object, no_fields, parsed_json};
use crate::text::{eq_ignoring_case, same_ignoring_case, text_of};
use crate::types::{mode_of, HttpBackendMethod, HttpCallMode, HttpRequestProfile, SpecView};
use vstd::prelude::*;
use vstd::string::*;

verus! {

/// The key under which the gateway asks an upstream to run a call once.
pub struct IdempotencyHint {
    pub key: String,
}

/// A call as the gateway hands it in.
pub struct BackendRequest {
    pub payload: Vec<u8>,
    pub headers: Vec<(String, String)>,
    pub request_id: String,
    pub session_id: Option<String>,
    pub identity: Option<PluginIdentity>,
    pub idempotency: Option<IdempotencyHint>,
}

/// The value of the first header with a name, in any ASCII case.
pub open spec fn header_value(
    headers: Seq<(Seq<char>, Seq<char>)>,
    name: Seq<char>,
) -> Option<Seq<char>>
    decreases headers.len(),
{
    if headers.len() == 0 {
        None
    } else if same_ignoring_case(headers[0].0, name) {
        Some(headers[0].1)
    } else {
        header_value(headers.drop_first(), name)
    }
}

/// A header of the trace context.
pub open spec fn is_trace_header(header: (Seq<char>, Seq<char>)) -> bool {
    same_ignoring_case(header.0, "traceparent"@) || same_ignoring_case(header.0, "tracestate"@)
}

/// The name of the tool that a request calls: the gateway's header, or the
/// backend's name without one.
pub open spec fn tool_name_of(
    headers: Seq<(Seq<char>, Seq<char>)>,
    backend_name: Seq<char>,
) -> Seq<char> {
    match header_value(headers, "mcpg-tool-name"@) {
        Some(name) => name,
        None => backend_name,
    }
}

/// The arguments that a payload carries: an empty payload is an empty object.
pub open spec fn arguments_of(payload: Seq<u8>) -> Result<JsonView, Seq<char>> {
    if payload.len() == 0 {
        Ok(JsonView::Fields(Map::empty()))
    } else {
        parsed_json(payload)
    }
}

/// The idempotency key of a request.
pub open spec fn idempotency_key_of(request: BackendRequest) -> Option<Seq<char>> {
    match request.idempotency {
        Some(hint) => Some(hint.key@),
        None => None,
    }
}

/// What a parsed request asks for.
pub struct CallDraft {
    pub profile: HttpRequestProfile,
    pub arguments: Json,
    pub tool_name: String,
    pub call_mode: HttpCallMode,
    pub trace_headers: Vec<(String, String)>,
    /// The key that the gateway supplied.
    pub idempotency_key: Option<String>,
    /// The operator bound the header themselves: theirs wins.
    pub operator_has_idempotency_key: bool,
}

/// A draft as contracts speak of it.
pub struct DraftView {
    pub profile: SpecView,
    pub arguments: JsonView,
    pub tool_name: Seq<char>,
    pub call_mode: HttpCallMode,
    pub trace_headers: Seq<(Seq<char>, Seq<char>)>,
    pub idempotency_key: Option<Seq<char>>,
    pub operator_has_idempotency_key: bool,
}

impl View for CallDraft {
    type V = DraftView;

    open spec fn view(&self) -> DraftView {
        DraftView {
            profile: self.profile@,
            arguments: self.arguments@,
            tool_name: self.tool_name@,
            call_mode: self.call_mode,
            trace_headers: pairs_view(self.trace_headers@),
            idempotency_key: text_of(self.idempotency_key),
            operator_has_idempotency_key: self.operator_has_idempotency_key,
        }
    }
}

/// The draft of a request whose arguments are `arguments`.
pub open spec fn drafted(
    profile: SpecView,
    backend_name: Seq<char>,
    request: BackendRequest,
    arguments: JsonView,
) -> DraftView {
    DraftView {
        profile,
        arguments,
        tool_name: tool_name_of(pairs_view(request.headers@), backend_name),
        call_mode: mode_of(profile.method),
        trace_headers: pairs_view(request.headers@).filter(
            |header: (Seq<char>, Seq<char>)| is_trace_header(header),
        ),
        idempotency_key: idempotency_key_of(request),
        operator_has_idempotency_key: header_value(profile.headers, "idempotency-key"@) is Some,
    }
}

impl CallDraft {
    /// The arguments that go into a query string; a call with a body has none.
    pub fn query_arguments(&self) -> (arguments: Option<&Json>)
        ensures
            match self.call_mode {
                HttpCallMode::QueryString => arguments matches Some(arguments) && *arguments
                    == self.arguments,
                HttpCallMode::JsonBody => arguments is None,
            },
    {
        match self.call_mode {
            HttpCallMode::QueryString => Some(&self.arguments),
            HttpCallMode::JsonBody => None,
        }
    }
}

/// The first header with a name, in any ASCII case.
pub fn find_header<'a>(headers: &'a Vec<(String, String)>, name: &str) -> (value: Option<&'a str>)
    ensures
        crate::json::slice_text(value) == header_value(pairs_view(headers@), name@),
{
    let ghost view = pairs_view(headers@);
    let mut i: usize = 0;
    assert(view.skip(0) =~= view);
    while i < headers.len()
        invariant
            view == pairs_view(headers@),
            i <= headers.len(),
            header_value(view, name@) == header_value(view.skip(i as int), name@),
        decreases headers.len() - i,
    {
        let header: &'a (String, String) = &headers[i];
        assert(view.skip(i as int)[0] == (header.0@, header.1@));
        if eq_ignoring_case(header.0.as_str(), name) {
            return Some(header.1.as_str());
        }
        assert(view.skip(i as int).drop_first() =~= view.skip(i + 1));
        i = i + 1;
    }
    None
}

/// The headers of the trace context, in order.
pub fn trace_headers(headers: &Vec<(String, String)>) -> (traced: Vec<(String, String)>)
    ensures
        pairs_view(traced@) == pairs_view(headers@).filter(
            |header: (Seq<char>, Seq<char>)| is_trace_header(header),
        ),
{
    let ghost view = pairs_view(headers@);
    let ghost traces = |header: (Seq<char>, Seq<char>)| is_trace_header(header);
    let mut traced: Vec<(String, String)> = Vec::new();
    let mut i: usize = 0;
    proof {
        reveal(Seq::filter);
        assert(pairs_view(traced@) =~= view.take(0).filter(traces));
    }
    while i < headers.len()
        invariant
            view == pairs_view(headers@),
            traces == (|header: (Seq<char>, Seq<char>)| is_trace_header(header)),
            i <= headers.len(),
            pairs_view(traced@) == view.take(i as int).filter(traces),
        decreases headers.len() - i,
    {
        let header: &(String, String) = &headers[i];
        let ghost before = traced@;
        proof {
            reveal(Seq::filter);
            assert(view.take(i + 1).drop_last() =~= view.take(i as int));
            assert(view.take(i + 1).last() == (header.0@, header.1@));
        }
        if eq_ignoring_case(header.0.as_str(), "traceparent") || eq_ignoring_case(
            header.0.as_str(),
            "tracestate",
        ) {
            traced.push((header.0.clone(), header.1.clone()));
            assert(pairs_view(traced@) =~= pairs_view(before).push((header.0@, header.1@)));
        }
        i = i + 1;
    }
    assert(view.take(i as int) =~= view);
    traced
}

/// Reads the arguments of a call. The error is the JSON crate's message.
pub fn parse_arguments(payload: &Vec<u8>) -> (arguments: Result<Json, String>)
    ensures
        match arguments {
            Ok(json) => arguments_of(payload@) == Ok::<JsonView, Seq<char>>(json@),
            Err(message) => arguments_of(payload@) == Err::<JsonView, Seq<char>>(message@),
        },
        payload@.len() == 0 || is_empty_object(payload@) ==> (arguments matches Ok(json) && json@
            == JsonView::Fields(no_fields())),
{
    if payload.len() == 0 {
        let none: Vec<(String, Json)> = Vec::new();
        assert(fields_of(none@) =~= Map::empty());
        Ok(Json::Fields(none))
    } else {
        parse_json(payload.as_slice())
    }
}

/// Drafts the call of a request whose payload was read as `arguments`.
pub fn draft_call(
    profile: &HttpRequestProfile,
    backend_name: &str,
    request: &BackendRequest,
    arguments: Result<Json, String>,
) -> (draft: Result<CallDraft, BackendError>)
    ensures
        match arguments {
            Ok(json) => draft matches Ok(draft) && draft@ == drafted(
                profile@,
                backend_name@,
                *request,
                json@,
            ),
            Err(message) => draft matches Err(error) && error@ == BackendErrorView::InvalidSpec(
                "HTTP plugin payload is not valid JSON: "@ + message@,
            ),
        },
{
    match arguments {
        Err(message) => Err(
            invalid_spec("HTTP plugin payload is not valid JSON: ", message.as_str()),
        ),
        Ok(arguments) => {
            let tool_name: String = match find_header(&request.headers, "mcpg-tool-name") {
                Some(name) => name.to_owned(),
                None => backend_name.to_owned(),
            };
            let operator_has_idempotency_key: bool = match find_header(
                &profile.headers,
                "idempotency-key",
            ) {
                Some(_) => true,
                None => false,
            };
            let idempotency_key: Option<String> = match &request.idempotency {
                Some(hint) => Some(hint.key.clone()),
                None => None,
            };
            Ok(
                CallDraft {
                    profile: profile.copy(),
                    arguments,
                    tool_name,
                    call_mode: HttpCallMode::for_method(profile.method),
                    trace_headers: trace_headers(&request.headers),
                    idempotency_key,
                    operator_has_idempotency_key,
                },
            )
        },
    }
}

/// A call with the body or the query string that carries its arguments.
pub struct RenderedCall {
    pub draft: CallDraft,
    pub request_body: Option<Json>,
    pub request_query: Option<String>,
}

/// A call whose arguments are its body, and that has no query string.
pub open spec fn has_body_only(call: RenderedCall) -> bool {
    &&& crate::json::tree_of(call.request_body) == Some(call.draft.arguments@)
    &&& call.request_query is None
}

/// A call with a query string and no body.
pub open spec fn has_query_only(call: RenderedCall, query: Seq<char>) -> bool {
    &&& call.request_body is None
    &&& text_of(call.request_query) == Some(query)
}

/// Gives a call its body or its query string. A POST sends the arguments as
/// its body; a GET sends the query string that they were rendered to.
pub fn render_call(draft: CallDraft, query: Option<Result<String, String>>) -> (rendered: Result<
    RenderedCall,
    BackendError,
>)
    requires
        draft.call_mode == HttpCallMode::QueryString ==> query is Some,
    ensures
        match draft.call_mode {
            HttpCallMode::JsonBody => rendered matches Ok(call) && call.draft == draft
                && has_body_only(call),
            HttpCallMode::QueryString => match query->0 {
                Ok(text) => rendered matches Ok(call) && call.draft == draft && has_query_only(
                    call,
                    text@,
                ),
                Err(message) => rendered matches Err(error) && error@
                    == BackendErrorView::InvalidSpec("HTTP query call: "@ + message@),
            },
        },
{
    match draft.call_mode {
        HttpCallMode::JsonBody => {
            let body: Json = draft.arguments.clone();
            Ok(RenderedCall { draft, request_body: Some(body), request_query: None })
        },
        HttpCallMode::QueryString => match query.unwrap() {
            Ok(text) => Ok(
                RenderedCall { draft, request_body: None, request_query: Some(text) },
            ),
            Err(message) => Err(invalid_spec("HTTP query call: ", message.as_str())),
        },
    }
}

/// Two requests that differ in their payloads at most.
pub open spec fn same_but_payload(a: BackendRequest, b: BackendRequest) -> bool {
    &&& a.headers == b.headers
    &&& a.request_id == b.request_id
    &&& a.session_id == b.session_id
    &&& a.identity == b.identity
    &&& a.idempotency == b.idempotency
}

/// Where a call goes, after its templates and credentials are resolved. Headers
/// stand in the order of their names.
pub struct ResolvedCall {
    pub resolved_url: String,
    pub resolved_headers: Vec<(String, String)>,
}

impl ResolvedCall {
    /// Headers stand in the order of their names, and none stands twice.
    pub open spec fn is_well_formed(self) -> bool {
        names_ascend(pairs_view(self.resolved_headers@))
    }

    /// An address with its headers; of two headers with one name the later
    /// counts.
    pub fn new(resolved_url: String, headers: &Vec<(String, String)>) -> (resolved: ResolvedCall)
        ensures
            resolved.is_well_formed(),
            resolved.resolved_url == resolved_url,
            pairs_view(resolved.resolved_headers@) == collated(pairs_view(headers@), headers@.len()),
    {
        ResolvedCall { resolved_url, resolved_headers: collate(headers) }
    }
}

/// A call that is ready to go out, or that could not be resolved.
pub struct PreparedCall {
    pub call: RenderedCall,
    pub resolution: Result<ResolvedCall, String>,
}

/// What goes on the wire.
pub struct OutgoingCall<'a> {
    pub url: &'a str,
    pub call_mode: HttpCallMode,
    pub body: &'a Json,
    pub query: Option<&'a str>,
    pub trace_headers: &'a Vec<(String, String)>,
    pub idempotency_key: Option<&'a str>,
    pub operator_has_idempotency_key: bool,
}

/// What goes on the wire is what the call was prepared with: the resolved
/// address, the body or else the arguments, the query, the trace context, and
/// the key.
pub open spec fn sends(outgoing: OutgoingCall, call: RenderedCall, resolved: ResolvedCall) -> bool {
    &&& outgoing.url@ == resolved.resolved_url@
    &&& outgoing.call_mode == call.draft.call_mode
    &&& outgoing.body@ == (match call.request_body {
        Some(body) => body@,
        None => call.draft.arguments@,
    })
    &&& crate::json::slice_text(outgoing.query) == text_of(call.request_query)
    &&& pairs_view(outgoing.trace_headers@) == pairs_view(call.draft.trace_headers@)
    &&& crate::json::slice_text(outgoing.idempotency_key) == text_of(call.draft.idempotency_key)
    &&& outgoing.operator_has_idempotency_key == call.draft.operator_has_idempotency_key
}

/// An optional string as a slice.
pub fn as_slice_text(text: &Option<String>) -> (slice: Option<&str>)
    ensures
        crate::json::slice_text(slice) == text_of(*text),
{
    match text {
        Some(text) => Some(text.as_str()),
        None => None,
    }
}

impl PreparedCall {
    /// What goes on the wire. A call that could not be resolved sends nothing.
    pub fn outgoing(&self) -> (outgoing: Option<OutgoingCall<'_>>)
        ensures
            match self.resolution {
                Ok(resolved) => outgoing matches Some(outgoing) && sends(
                    outgoing,
                    self.call,
                    resolved,
                ),
                Err(_) => outgoing is None,
            },
    {
        match &self.resolution {
            Err(_) => None,
            Ok(resolved) => Some(
                OutgoingCall {
                    url: resolved.resolved_url.as_str(),
                    call_mode: self.call.draft.call_mode,
                    body: match &self.call.request_body {
                        Some(body) => body,
                        None => &self.call.draft.arguments,
                    },
                    query: as_slice_text(&self.call.request_query),
                    trace_headers: &self.call.draft.trace_headers,
                    idempotency_key: as_slice_text(&self.call.draft.idempotency_key),
                    operator_has_idempotency_key: self.call.draft.operator_has_idempotency_key,
                },
            ),
        }
    }
}

/// A header is found exactly where one has the name, in any ASCII case.
pub proof fn law_header_is_found(headers: Seq<(Seq<char>, Seq<char>)>, name: Seq<char>)
    ensures
        header_value(headers, name) is Some <==> exists|i: int|
            0 <= i < headers.len() && same_ignoring_case((#[trigger] headers[i]).0, name),
    decreases headers.len(),
{
    if headers.len() > 0 {
        let rest = headers.drop_first();
        law_header_is_found(rest, name);
        if header_value(headers, name) is Some && !same_ignoring_case(headers[0].0, name) {
            let i = choose|i: int|
                0 <= i < rest.len() && same_ignoring_case((#[trigger] rest[i]).0, name);
            assert(headers[i + 1] == rest[i]);
        }
        if exists|i: int|
            0 <= i < headers.len() && same_ignoring_case((#[trigger] headers[i]).0, name) {
            let i = choose|i: int|
                0 <= i < headers.len() && same_ignoring_case((#[trigger] headers[i]).0, name);
            if i > 0 {
                assert(rest[i - 1] == headers[i]);
            }
        }
    }
}

/// A binding's verb decides how the arguments of every call travel: a POST has
/// them as its body, a GET as a query string.
pub proof fn law_verb_decides_the_carrier(
    profile: SpecView,
    backend_name: Seq<char>,
    request: BackendRequest,
    arguments: JsonView,
)
    ensures
        ({
            let mode = drafted(profile, backend_name, request, arguments).call_mode;
            &&& mode == HttpCallMode::JsonBody <==> profile.method == HttpBackendMethod::Post
            &&& mode == HttpCallMode::QueryString <==> profile.method == HttpBackendMethod::Get
        }),
{
}

/// The operator's own key wins exactly where the binding has the header.
pub proof fn law_operator_key_is_the_binding_header(
    profile: SpecView,
    backend_name: Seq<char>,
    request: BackendRequest,
    arguments: JsonView,
)
    ensures
        drafted(profile, backend_name, request, arguments).operator_has_idempotency_key
            <==> exists|i: int|
            0 <= i < profile.headers.len() && same_ignoring_case(
                (#[trigger] profile.headers[i]).0,
                "idempotency-key"@,
            ),
{
    law_header_is_found(profile.headers, "idempotency-key"@);
}

/// Of a request's headers only the trace context goes on, in order.
pub proof fn law_only_trace_headers_go_on(
    profile: SpecView,
    backend_name: Seq<char>,
    request: BackendRequest,
    arguments: JsonView,
    i: int,
)
    ensures
        ({
            let traced = drafted(profile, backend_name, request, arguments).trace_headers;
            0 <= i < traced.len() ==> is_trace_header(traced[i]) && pairs_view(
                request.headers@,
            ).contains(traced[i])
        }),
{
    let traces = |header: (Seq<char>, Seq<char>)| is_trace_header(header);
    let headers = pairs_view(request.headers@);
    let traced = headers.filter(traces);
    if 0 <= i < traced.len() {
        headers.lemma_filter_pred(traces, i);
        assert(traced.contains(traced[i]));
        headers.lemma_filter_contains_rev(traces, traced[i]);
    }
}

/// Of the headers with a name the first counts, and without one there is none.
pub proof fn law_first_header_counts(
    headers: Seq<(Seq<char>, Seq<char>)>,
    name: Seq<char>,
    i: int,
)
    ensures
        0 <= i < headers.len() && same_ignoring_case(headers[i].0, name) && (forall|j: int|
            0 <= j < i ==> !same_ignoring_case((#[trigger] headers[j]).0, name)) ==> header_value(
            headers,
            name,
        ) == Some(headers[i].1),
        (forall|j: int|
            0 <= j < headers.len() ==> !same_ignoring_case((#[trigger] headers[j]).0, name))
            ==> header_value(headers, name) is None,
    decreases headers.len(),
{
    law_header_is_found(headers, name);
    if 0 < i < headers.len() && (forall|j: int|
        0 <= j < i ==> !same_ignoring_case((#[trigger] headers[j]).0, name)) {
        let rest = headers.drop_first();
        assert(!same_ignoring_case(headers[0].0, name));
        assert forall|j: int| 0 <= j < i - 1 implies !same_ignoring_case(
            (#[trigger] rest[j]).0,
            name,
        ) by {
            assert(rest[j] == headers[j + 1]);
        }
        law_first_header_counts(rest, name, i - 1);
        assert(rest[i - 1] == headers[i]);
    }
}

/// A draft has the binding's profile and the arguments as they were read, the
/// key of the request where it has one, and the name of the tool: the first
/// `mcpg-tool-name` header of the request, or the backend's name without one.
pub proof fn law_draft_is_the_request(
    profile: SpecView,
    backend_name: Seq<char>,
    request: BackendRequest,
    arguments: JsonView,
    i: int,
)
    ensures
        ({
            let draft = drafted(profile, backend_name, request, arguments);
            let headers = request.headers@;
            &&& draft.profile == profile
            &&& draft.arguments == arguments
            &&& request.idempotency matches Some(hint) ==> draft.idempotency_key == Some(hint.key@)
            &&& request.idempotency is None ==> draft.idempotency_key is None
            &&& 0 <= i < headers.len() && same_ignoring_case(headers[i].0@, "mcpg-tool-name"@) && (
            forall|j: int|
                0 <= j < i ==> !same_ignoring_case(
                    (#[trigger] headers[j]).0@,
                    "mcpg-tool-name"@,
                )) ==> draft.tool_name == headers[i].1@
            &&& (forall|j: int|
                0 <= j < headers.len() ==> !same_ignoring_case(
                    (#[trigger] headers[j]).0@,
                    "mcpg-tool-name"@,
                )) ==> draft.tool_name == backend_name
        }),
{
    let headers = request.headers@;
    let view = pairs_view(headers);
    assert(view.len() == headers.len());
    assert forall|j: int| 0 <= j < headers.len() implies #[trigger] view[j] == (
        headers[j].0@,
        headers[j].1@,
    ) by {}
    law_first_header_counts(view, "mcpg-tool-name"@, i);
    if forall|j: int|
        0 <= j < i ==> !same_ignoring_case((#[trigger] headers[j]).0@, "mcpg-tool-name"@) {
        assert forall|j: int| 0 <= j < i && j < view.len() implies !same_ignoring_case(
            (#[trigger] view[j]).0,
            "mcpg-tool-name"@,
        ) by {
            assert(!same_ignoring_case(headers[j].0@, "mcpg-tool-name"@));
        }
    }
    if forall|j: int|
        0 <= j < headers.len() ==> !same_ignoring_case(
            (#[trigger] headers[j]).0@,
            "mcpg-tool-name"@,
        ) {
        assert forall|j: int| 0 <= j < view.len() implies !same_ignoring_case(
            (#[trigger] view[j]).0,
            "mcpg-tool-name"@,
        ) by {
            assert(!same_ignoring_case(headers[j].0@, "mcpg-tool-name"@));
        }
    }
}

/// The trace context of a request goes on whole: exactly the headers named
/// `traceparent` or `tracestate`, in any case, with their values and in order.
pub proof fn law_trace_context_goes_on(
    profile: SpecView,
    backend_name: Seq<char>,
    request: BackendRequest,
    arguments: JsonView,
)
    ensures
        exists|at: Seq<int>|
            {
                &&& #[trigger] taken_from(
                    drafted(profile, backend_name, request, arguments).trace_headers,
                    pairs_view(request.headers@),
                    at,
                )
                &&& forall|i: int|
                    0 <= i < request.headers@.len() ==> (#[trigger] at.contains(i)
                        <==> same_ignoring_case(request.headers@[i].0@, "traceparent"@)
                        || same_ignoring_case(request.headers@[i].0@, "tracestate"@))
            },
{
    let headers = pairs_view(request.headers@);
    let traces = |header: (Seq<char>, Seq<char>)| is_trace_header(header);
    let at = lemma_filter_takes(headers, traces);
    assert forall|i: int| 0 <= i < request.headers@.len() implies (#[trigger] at.contains(i)
        <==> same_ignoring_case(request.headers@[i].0@, "traceparent"@) || same_ignoring_case(
        request.headers@[i].0@,
        "tracestate"@,
    )) by {
        assert(headers[i] == (request.headers@[i].0@, request.headers@[i].1@));
        assert(at.contains(i) <==> traces(headers[i]));
    }
    assert(taken_from(
        drafted(profile, backend_name, request, arguments).trace_headers,
        headers,
        at,
    ));
}

/// The arguments of a call are what the JSON crate reads from its payload, and
/// an object without a name where there is no payload.
pub proof fn law_arguments_are_the_payload(payload: Seq<u8>)
    ensures
        payload.len() > 0 ==> arguments_of(payload) == parsed_json(payload),
        payload.len() == 0 ==> (arguments_of(payload) matches Ok(JsonView::Fields(fields))
            && fields.dom() == Set::<Seq<char>>::empty()),
{
    assert(Map::<Seq<char>, JsonView>::empty().dom() =~= Set::empty());
}

/// A call carries its arguments once: as its body, or in its query.
pub proof fn law_arguments_travel_once(call: RenderedCall, query: Seq<char>)
    ensures
        has_body_only(call) ==> (call.request_body matches Some(body) && body@
            == call.draft.arguments@) && call.request_query is None,
        has_query_only(call, query) ==> call.request_body is None && (
        call.request_query matches Some(text) && text@ == query),
{
}

/// What goes on the wire is the call that was prepared, part by part.
pub proof fn law_wire_carries_the_call(
    outgoing: OutgoingCall,
    call: RenderedCall,
    resolved: ResolvedCall,
)
    requires
        sends(outgoing, call, resolved),
    ensures
        outgoing.url@ == resolved.resolved_url@,
        outgoing.call_mode == call.draft.call_mode,
        call.request_body matches Some(body) ==> outgoing.body@ == body@,
        call.request_body is None ==> outgoing.body@ == call.draft.arguments@,
        call.request_query matches Some(query) ==> outgoing.query is Some && outgoing.query->0@
            == query@,
        call.request_query is None ==> outgoing.query is None,
        outgoing.trace_headers@.len() == call.draft.trace_headers@.len(),
        forall|i: int|
            0 <= i < call.draft.trace_headers@.len() ==> (#[trigger] outgoing.trace_headers@[i]).0@
                == call.draft.trace_headers@[i].0@ && outgoing.trace_headers@[i].1@
                == call.draft.trace_headers@[i].1@,
        call.draft.idempotency_key matches Some(key) ==> outgoing.idempotency_key is Some
            && outgoing.idempotency_key->0@ == key@,
        call.draft.idempotency_key is None ==> outgoing.idempotency_key is None,
        outgoing.operator_has_idempotency_key == call.draft.operator_has_idempotency_key,
{
    let sent = pairs_view(outgoing.trace_headers@);
    let kept = pairs_view(call.draft.trace_headers@);
    assert(sent.len() == outgoing.trace_headers@.len());
    assert(kept.len() == call.draft.trace_headers@.len());
    assert forall|i: int| 0 <= i < call.draft.trace_headers@.len() implies (
    #[trigger] outgoing.trace_headers@[i]).0@ == call.draft.trace_headers@[i].0@
        && outgoing.trace_headers@[i].1@ == call.draft.trace_headers@[i].1@ by {
        assert(sent[i] == (outgoing.trace_headers@[i].0@, outgoing.trace_headers@[i].1@));
        assert(kept[i] == (call.draft.trace_headers@[i].0@, call.draft.trace_headers@[i].1@));
    }
}

/// A draft is told with each of its parts.
pub proof fn law_draft_is_told_whole(draft: CallDraft)
    ensures
        draft@.profile == draft.profile@,
        draft@.arguments == draft.arguments@,
        draft@.tool_name == draft.tool_name@,
        draft@.call_mode == draft.call_mode,
        draft@.trace_headers == pairs_view(draft.trace_headers@),
        draft@.idempotency_key == text_of(draft.idempotency_key),
        draft@.operator_has_idempotency_key == draft.operator_has_idempotency_key,
{
}

} // verus!
