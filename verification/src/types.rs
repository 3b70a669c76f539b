//! The operator-facing spec of the `http` binding, its defaults, and the shapes
//! a call passes around.

use crate::pairs::{
    collate, collated, copy_pairs, law_collated_adds_nothing, law_collated_keeps_the_last,
    law_collated_names_ascend, names_ascend, pairs_view, precedes,
};
use crate::text::{case_pair, eq_ignoring_case, law_case_is_ignored, same_ignoring_case, text_of};
use vstd::prelude::*;
use vstd::string::*;

verus! {

/// The verb of a binding or of a completion endpoint.
#[derive(Debug, Clone, Copy, PartialEq, Eq, Structural)]
pub enum HttpBackendMethod {
    Get,
    Post,
}

/// The verb that a name stands for, in any ASCII case.
pub open spec fn method_named(name: Seq<char>) -> Option<HttpBackendMethod> {
    if same_ignoring_case(name, "get"@) {
        Some(HttpBackendMethod::Get)
    } else if same_ignoring_case(name, "post"@) {
        Some(HttpBackendMethod::Post)
    } else {
        None
    }
}

impl HttpBackendMethod {
    /// Reads the name of a verb. The names are `get` and `post`, in any case.
    pub fn from_name(name: &str) -> (method: Option<HttpBackendMethod>)
        ensures
            method == method_named(name@),
    {
        if eq_ignoring_case(name, "get") {
            Some(HttpBackendMethod::Get)
        } else if eq_ignoring_case(name, "post") {
            Some(HttpBackendMethod::Post)
        } else {
            None
        }
    }
}

/// Where the arguments of a call travel.
#[derive(Debug, Clone, Copy, PartialEq, Eq, Structural)]
pub enum HttpCallMode {
    /// As a JSON body.
    JsonBody,
    /// As a query string.
    QueryString,
}

/// A POST carries a body, a GET a query string.
pub open spec fn mode_of(method: HttpBackendMethod) -> HttpCallMode {
    match method {
        HttpBackendMethod::Post => HttpCallMode::JsonBody,
        HttpBackendMethod::Get => HttpCallMode::QueryString,
    }
}

/// The name of a call mode in the response envelope.
pub open spec fn kind_of(mode: HttpCallMode) -> Seq<char> {
    match mode {
        HttpCallMode::JsonBody => "json_body"@,
        HttpCallMode::QueryString => "query_string"@,
    }
}

impl HttpCallMode {
    /// The call mode of a binding with the given verb.
    pub fn for_method(method: HttpBackendMethod) -> (mode: HttpCallMode)
        ensures
            mode == mode_of(method),
    {
        match method {
            HttpBackendMethod::Post => HttpCallMode::JsonBody,
            HttpBackendMethod::Get => HttpCallMode::QueryString,
        }
    }

    /// The name of the mode in the response envelope.
    pub fn request_kind(self) -> (kind: &'static str)
        ensures
            kind@ == kind_of(self),
    {
        match self {
            HttpCallMode::JsonBody => "json_body",
            HttpCallMode::QueryString => "query_string",
        }
    }
}

/// Copies a list of status codes.
pub fn copy_codes(codes: &Vec<u16>) -> (copy: Vec<u16>)
    ensures
        copy@ == codes@,
{
    let mut copy: Vec<u16> = Vec::new();
    let mut i: usize = 0;
    while i < codes.len()
        invariant
            i <= codes.len(),
            copy@ == codes@.take(i as int),
        decreases codes.len() - i,
    {
        copy.push(codes[i]);
        i = i + 1;
        assert(copy@ =~= codes@.take(i as int));
    }
    assert(codes@.take(i as int) =~= codes@);
    copy
}

/// The operator-facing spec of a binding. Headers stand in the order of their
/// names.
#[derive(Debug)]
pub struct HttpBackendSpec {
    pub url: String,
    pub method: HttpBackendMethod,
    pub headers: Vec<(String, String)>,
    pub expected_status_codes: Vec<u16>,
    pub require_json_response: bool,
    pub max_response_bytes: usize,
    pub timeout_ms: u64,
    pub allow_private_backends: bool,
}

/// What an operator wrote: `url`, and each other field where it is given.
#[derive(Debug)]
pub struct HttpBackendSpecFields {
    pub url: String,
    pub method: Option<HttpBackendMethod>,
    pub headers: Option<Vec<(String, String)>>,
    pub expected_status_codes: Option<Vec<u16>>,
    pub require_json_response: Option<bool>,
    pub max_response_bytes: Option<usize>,
    pub timeout_ms: Option<u64>,
    pub allow_private_backends: Option<bool>,
}

/// The verb of a binding that names none.
pub fn default_method() -> (method: HttpBackendMethod)
    ensures
        method == HttpBackendMethod::Post,
{
    HttpBackendMethod::Post
}

/// The status codes that are a success where a binding names none.
pub fn default_expected_status_codes() -> (codes: Vec<u16>)
    ensures
        codes@ == seq![200u16],
{
    let mut codes: Vec<u16> = Vec::new();
    codes.push(200);
    assert(codes@ =~= seq![200u16]);
    codes
}

/// The response body cap of a binding that names none, in bytes.
pub fn default_max_response_bytes() -> (bytes: usize)
    ensures
        bytes == 4096,
{
    4096
}

/// The per-call timeout of a binding that names none, in milliseconds.
pub fn default_timeout_ms() -> (timeout_ms: u64)
    ensures
        timeout_ms == 2000,
{
    2000
}

/// A spec as contracts speak of it.
pub struct SpecView {
    pub url: Seq<char>,
    pub method: HttpBackendMethod,
    pub headers: Seq<(Seq<char>, Seq<char>)>,
    pub expected_status_codes: Seq<u16>,
    pub require_json_response: bool,
    pub max_response_bytes: usize,
    pub timeout_ms: u64,
    pub allow_private_backends: bool,
}

impl View for HttpBackendSpec {
    type V = SpecView;

    open spec fn view(&self) -> SpecView {
        SpecView {
            url: self.url@,
            method: self.method,
            headers: pairs_view(self.headers@),
            expected_status_codes: self.expected_status_codes@,
            require_json_response: self.require_json_response,
            max_response_bytes: self.max_response_bytes,
            timeout_ms: self.timeout_ms,
            allow_private_backends: self.allow_private_backends,
        }
    }
}

/// A given field, or its default.
pub open spec fn or_default<T>(given: Option<T>, default: T) -> T {
    match given {
        Some(value) => value,
        None => default,
    }
}

/// The spec that an operator's fields make: a field that is not given takes
/// the binding's default.
pub open spec fn completed(fields: HttpBackendSpecFields) -> SpecView {
    SpecView {
        url: fields.url@,
        method: or_default(fields.method, HttpBackendMethod::Post),
        headers: match fields.headers {
            Some(headers) => collated(pairs_view(headers@), headers@.len()),
            None => Seq::empty(),
        },
        expected_status_codes: match fields.expected_status_codes {
            Some(codes) => codes@,
            None => seq![200u16],
        },
        require_json_response: or_default(fields.require_json_response, false),
        max_response_bytes: or_default(fields.max_response_bytes, 4096),
        timeout_ms: or_default(fields.timeout_ms, 2000),
        allow_private_backends: or_default(fields.allow_private_backends, false),
    }
}

impl HttpBackendSpec {
    /// Headers stand in the order of their names, and none stands twice.
    pub open spec fn is_well_formed(self) -> bool {
        names_ascend(pairs_view(self.headers@))
    }

    /// Completes an operator's fields with the binding's defaults.
    pub fn from_fields(fields: HttpBackendSpecFields) -> (spec: HttpBackendSpec)
        ensures
            spec.is_well_formed(),
            spec@ == completed(fields),
    {
        let spec: HttpBackendSpec = HttpBackendSpec {
            url: fields.url,
            method: match fields.method {
                Some(method) => method,
                None => default_method(),
            },
            headers: match fields.headers {
                Some(headers) => collate(&headers),
                None => Vec::new(),
            },
            expected_status_codes: match fields.expected_status_codes {
                Some(codes) => codes,
                None => default_expected_status_codes(),
            },
            require_json_response: match fields.require_json_response {
                Some(required) => required,
                None => false,
            },
            max_response_bytes: match fields.max_response_bytes {
                Some(bytes) => bytes,
                None => default_max_response_bytes(),
            },
            timeout_ms: match fields.timeout_ms {
                Some(timeout_ms) => timeout_ms,
                None => default_timeout_ms(),
            },
            allow_private_backends: match fields.allow_private_backends {
                Some(allowed) => allowed,
                None => false,
            },
        };
        assert(spec@.headers =~= completed(fields).headers);
        spec
    }
}

/// A registered binding: what a call needs of the spec.
#[derive(Debug)]
pub struct HttpRequestProfile {
    pub url: String,
    pub method: HttpBackendMethod,
    pub headers: Vec<(String, String)>,
    pub expected_status_codes: Vec<u16>,
    pub require_json_response: bool,
    pub max_response_bytes: usize,
    pub timeout_ms: u64,
    pub allow_private_backends: bool,
}

impl View for HttpRequestProfile {
    type V = SpecView;

    open spec fn view(&self) -> SpecView {
        SpecView {
            url: self.url@,
            method: self.method,
            headers: pairs_view(self.headers@),
            expected_status_codes: self.expected_status_codes@,
            require_json_response: self.require_json_response,
            max_response_bytes: self.max_response_bytes,
            timeout_ms: self.timeout_ms,
            allow_private_backends: self.allow_private_backends,
        }
    }
}

impl HttpRequestProfile {
    /// Headers stand in the order of their names, and none stands twice.
    pub open spec fn is_well_formed(self) -> bool {
        names_ascend(pairs_view(self.headers@))
    }

    /// The profile of a spec.
    pub fn from_spec(spec: &HttpBackendSpec) -> (profile: HttpRequestProfile)
        ensures
            profile@ == spec@,
            profile.is_well_formed() == spec.is_well_formed(),
    {
        HttpRequestProfile {
            url: spec.url.clone(),
            method: spec.method,
            headers: copy_pairs(&spec.headers),
            expected_status_codes: copy_codes(&spec.expected_status_codes),
            require_json_response: spec.require_json_response,
            max_response_bytes: spec.max_response_bytes,
            timeout_ms: spec.timeout_ms,
            allow_private_backends: spec.allow_private_backends,
        }
    }

    /// A profile with the same content.
    pub fn copy(&self) -> (copy: HttpRequestProfile)
        ensures
            copy@ == self@,
            copy.is_well_formed() == self.is_well_formed(),
    {
        HttpRequestProfile {
            url: self.url.clone(),
            method: self.method,
            headers: copy_pairs(&self.headers),
            expected_status_codes: copy_codes(&self.expected_status_codes),
            require_json_response: self.require_json_response,
            max_response_bytes: self.max_response_bytes,
            timeout_ms: self.timeout_ms,
            allow_private_backends: self.allow_private_backends,
        }
    }
}

/// What came back from the upstream.
#[derive(Debug)]
pub struct HttpResponseSummary {
    pub status_code: u16,
    pub content_type: Option<String>,
    pub retry_after_ms: Option<u64>,
    pub duration_ms: u64,
    pub body: String,
    pub body_truncated: bool,
}

/// A response as contracts speak of it.
pub struct SummaryView {
    pub status_code: u16,
    pub content_type: Option<Seq<char>>,
    pub retry_after_ms: Option<u64>,
    pub duration_ms: u64,
    pub body: Seq<char>,
    pub body_truncated: bool,
}

impl View for HttpResponseSummary {
    type V = SummaryView;

    open spec fn view(&self) -> SummaryView {
        SummaryView {
            status_code: self.status_code,
            content_type: text_of(self.content_type),
            retry_after_ms: self.retry_after_ms,
            duration_ms: self.duration_ms,
            body: self.body@,
            body_truncated: self.body_truncated,
        }
    }
}

/// Verbs are named in any case: names that differ in ASCII case at most stand
/// for the same verb.
pub proof fn law_verbs_ignore_case(a: Seq<char>, b: Seq<char>)
    requires
        same_ignoring_case(a, b),
    ensures
        method_named(a) == method_named(b),
{
}

/// The verbs are spelled `get` and `post`, each letter in either case, and
/// nothing else names one.
pub proof fn law_verbs_are_spelled(name: Seq<char>)
    ensures
        method_named(name) == Some(HttpBackendMethod::Get) <==> name.len() == 3 && (name[0] == 'g'
            || name[0] == 'G') && (name[1] == 'e' || name[1] == 'E') && (name[2] == 't' || name[2]
            == 'T'),
        method_named(name) == Some(HttpBackendMethod::Post) <==> name.len() == 4 && (name[0] == 'p'
            || name[0] == 'P') && (name[1] == 'o' || name[1] == 'O') && (name[2] == 's' || name[2]
            == 'S') && (name[3] == 't' || name[3] == 'T'),
{
    reveal_strlit("get");
    reveal_strlit("post");
    law_case_is_ignored(name, "get"@);
    law_case_is_ignored(name, "post"@);
    let get = "get"@;
    let post = "post"@;
    assert(get.len() == 3 && get[0] == 'g' && get[1] == 'e' && get[2] == 't');
    assert(post.len() == 4 && post[0] == 'p' && post[1] == 'o' && post[2] == 's' && post[3] == 't');
    if name.len() == 3 {
        assert(same_ignoring_case(name, get) ==> (name[0] == get[0] || case_pair(name[0], get[0])
            || case_pair(get[0], name[0])));
        assert(same_ignoring_case(name, get) ==> (name[1] == get[1] || case_pair(name[1], get[1])
            || case_pair(get[1], name[1])));
        assert(same_ignoring_case(name, get) ==> (name[2] == get[2] || case_pair(name[2], get[2])
            || case_pair(get[2], name[2])));
    }
    if name.len() == 4 {
        assert(same_ignoring_case(name, post) ==> (name[0] == post[0] || case_pair(
            name[0],
            post[0],
        ) || case_pair(post[0], name[0])));
        assert(same_ignoring_case(name, post) ==> (name[1] == post[1] || case_pair(
            name[1],
            post[1],
        ) || case_pair(post[1], name[1])));
        assert(same_ignoring_case(name, post) ==> (name[2] == post[2] || case_pair(
            name[2],
            post[2],
        ) || case_pair(post[2], name[2])));
        assert(same_ignoring_case(name, post) ==> (name[3] == post[3] || case_pair(
            name[3],
            post[3],
        ) || case_pair(post[3], name[3])));
    }
}

/// A call is told as `json_body` exactly where its binding's verb is POST, and
/// as `query_string` exactly where it is GET.
pub proof fn law_request_kind_tells_the_verb(method: HttpBackendMethod)
    ensures
        kind_of(mode_of(method)) == "json_body"@ <==> method == HttpBackendMethod::Post,
        kind_of(mode_of(method)) == "query_string"@ <==> method == HttpBackendMethod::Get,
        mode_of(method) == HttpCallMode::JsonBody <==> method == HttpBackendMethod::Post,
        mode_of(method) == HttpCallMode::QueryString <==> method == HttpBackendMethod::Get,
        kind_of(HttpCallMode::JsonBody) == "json_body"@,
        kind_of(HttpCallMode::QueryString) == "query_string"@,
{
    reveal_strlit("json_body");
    reveal_strlit("query_string");
    assert("json_body"@.len() == 9);
    assert("query_string"@.len() == 12);
}

/// The headers of a list are those that were given: each name once, in order,
/// with the value that was given for it last.
pub open spec fn settles(
    headers: Seq<(Seq<char>, Seq<char>)>,
    given: Seq<(Seq<char>, Seq<char>)>,
) -> bool {
    &&& forall|i: int, j: int|
        0 <= i < j < headers.len() ==> precedes(#[trigger] headers[i].0, #[trigger] headers[j].0)
    &&& forall|i: int|
        0 <= i < given.len() && (forall|j: int|
            i < j < given.len() ==> (#[trigger] given[j]).0 != given[i].0) ==> headers.contains(
            #[trigger] given[i],
        )
    &&& forall|k: int|
        0 <= k < headers.len() ==> exists|i: int|
            0 <= i < given.len() && #[trigger] given[i] == #[trigger] headers[k] && forall|j: int|
                i < j < given.len() ==> (#[trigger] given[j]).0 != given[i].0
}

/// Collated headers are those that were given.
pub proof fn lemma_collated_settles(given: Seq<(Seq<char>, Seq<char>)>)
    ensures
        settles(collated(given, given.len()), given),
{
    let headers = collated(given, given.len());
    law_collated_names_ascend(given, given.len());
    assert forall|i: int|
        0 <= i < given.len() && (forall|j: int|
            i < j < given.len() ==> (#[trigger] given[j]).0 != given[i].0) implies headers.contains(
        #[trigger] given[i],
    ) by {
        law_collated_keeps_the_last(given, given.len(), i);
    }
    assert forall|k: int| 0 <= k < headers.len() implies exists|i: int|
        0 <= i < given.len() && #[trigger] given[i] == #[trigger] headers[k] && forall|j: int|
            i < j < given.len() ==> (#[trigger] given[j]).0 != given[i].0 by {
        law_collated_adds_nothing(given, given.len(), k);
    }
}

/// What an operator gives is what the binding has, whatever its value: no
/// setting is capped, rounded or replaced.
pub proof fn law_given_settings_are_kept(fields: HttpBackendSpecFields, spec: HttpBackendSpec)
    requires
        spec@ == completed(fields),
    ensures
        spec.url@ == fields.url@,
        fields.method matches Some(method) ==> spec.method == method,
        fields.headers matches Some(headers) ==> settles(
            pairs_view(spec.headers@),
            pairs_view(headers@),
        ),
        fields.expected_status_codes matches Some(codes) ==> spec.expected_status_codes@ == codes@,
        fields.require_json_response matches Some(required) ==> spec.require_json_response
            == required,
        fields.max_response_bytes matches Some(bytes) ==> spec.max_response_bytes == bytes,
        fields.timeout_ms matches Some(timeout_ms) ==> spec.timeout_ms == timeout_ms,
        fields.allow_private_backends matches Some(allowed) ==> spec.allow_private_backends
            == allowed,
{
    if let Some(headers) = fields.headers {
        lemma_collated_settles(pairs_view(headers@));
        assert(pairs_view(spec.headers@) == spec@.headers);
    }
}

/// What an operator leaves out has its default: a POST without headers, the
/// status 200, any kind of reply, 4096 bytes of it, two seconds, and no private
/// address.
pub proof fn law_missing_settings_have_defaults(
    fields: HttpBackendSpecFields,
    spec: HttpBackendSpec,
)
    requires
        spec@ == completed(fields),
    ensures
        fields.method is None ==> spec.method == HttpBackendMethod::Post,
        fields.headers is None ==> spec.headers@.len() == 0,
        fields.expected_status_codes is None ==> spec.expected_status_codes@ == seq![200u16],
        fields.require_json_response is None ==> !spec.require_json_response,
        fields.max_response_bytes is None ==> spec.max_response_bytes == 4096,
        fields.timeout_ms is None ==> spec.timeout_ms == 2000,
        fields.allow_private_backends is None ==> !spec.allow_private_backends,
{
    assert(pairs_view(spec.headers@) == spec@.headers);
}

/// Each setting of a binding is its operator's or the default by itself: what
/// is given for one changes no other.
pub proof fn law_settings_are_independent(a: HttpBackendSpecFields, b: HttpBackendSpecFields)
    ensures
        a.url@ == b.url@ ==> completed(a).url == completed(b).url,
        a.method == b.method ==> completed(a).method == completed(b).method,
        a.headers == b.headers ==> completed(a).headers == completed(b).headers,
        a.expected_status_codes == b.expected_status_codes ==> completed(a).expected_status_codes
            == completed(b).expected_status_codes,
        a.require_json_response == b.require_json_response ==> completed(a).require_json_response
            == completed(b).require_json_response,
        a.max_response_bytes == b.max_response_bytes ==> completed(a).max_response_bytes
            == completed(b).max_response_bytes,
        a.timeout_ms == b.timeout_ms ==> completed(a).timeout_ms == completed(b).timeout_ms,
        a.allow_private_backends == b.allow_private_backends ==> completed(
            a,
        ).allow_private_backends == completed(b).allow_private_backends,
{
}

/// A profile that has the content of a spec has each of its settings.
pub proof fn law_profile_has_the_settings_of_its_spec(
    spec: HttpBackendSpec,
    profile: HttpRequestProfile,
)
    requires
        profile@ == spec@,
    ensures
        profile.url@ == spec.url@,
        profile.method == spec.method,
        profile.headers@.len() == spec.headers@.len(),
        forall|i: int|
            0 <= i < spec.headers@.len() ==> (#[trigger] profile.headers@[i]).0@
                == spec.headers@[i].0@ && profile.headers@[i].1@ == spec.headers@[i].1@,
        profile.expected_status_codes@ == spec.expected_status_codes@,
        profile.require_json_response == spec.require_json_response,
        profile.max_response_bytes == spec.max_response_bytes,
        profile.timeout_ms == spec.timeout_ms,
        profile.allow_private_backends == spec.allow_private_backends,
{
    let shown = pairs_view(profile.headers@);
    assert(shown == pairs_view(spec.headers@));
    assert(shown.len() == profile.headers@.len());
    assert(shown.len() == spec.headers@.len());
    assert forall|i: int| 0 <= i < spec.headers@.len() implies (
    #[trigger] profile.headers@[i]).0@ == spec.headers@[i].0@ && profile.headers@[i].1@
        == spec.headers@[i].1@ by {
        assert(shown[i] == (profile.headers@[i].0@, profile.headers@[i].1@));
        assert(shown[i] == (spec.headers@[i].0@, spec.headers@[i].1@));
    }
}

/// A profile, and a response, is told with each of its values.
pub proof fn law_content_is_told_whole(profile: HttpRequestProfile, summary: HttpResponseSummary)
    ensures
        profile@.url == profile.url@,
        profile@.method == profile.method,
        profile@.headers.len() == profile.headers@.len(),
        forall|i: int|
            0 <= i < profile.headers@.len() ==> #[trigger] profile@.headers[i] == (
                profile.headers@[i].0@,
                profile.headers@[i].1@,
            ),
        profile@.expected_status_codes == profile.expected_status_codes@,
        profile@.require_json_response == profile.require_json_response,
        profile@.max_response_bytes == profile.max_response_bytes,
        profile@.timeout_ms == profile.timeout_ms,
        profile@.allow_private_backends == profile.allow_private_backends,
        summary@.status_code == summary.status_code,
        summary.content_type matches Some(content_type) ==> summary@.content_type == Some(
            content_type@,
        ),
        summary.content_type is None ==> summary@.content_type is None,
        summary@.retry_after_ms == summary.retry_after_ms,
        summary@.duration_ms == summary.duration_ms,
        summary@.body == summary.body@,
        summary@.body_truncated == summary.body_truncated,
{
}

} // verus!
