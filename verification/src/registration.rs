//! The checks a binding spec passes before it is registered.

use crate::error::{invalid_spec, BackendError, BackendErrorView};
use crate::json::{
    append_strings, field, field_of, law_list_of_strings_is_kept, strings_among, Json, JsonView,
};
use crate::pairs::{collate, collated, law_ascending_is_collated, names_ascend, pairs_view};
use crate::text::{
    begins_with, blank, breaks_line, decimal, decimal_text, has_line_break, is_blank, is_space,
    stands_at, texts,
};
use crate::types::{
    completed, copy_codes, lemma_collated_settles, settles, HttpBackendSpec,
    HttpBackendSpecFields, HttpRequestProfile, SpecView,
};
use vstd::prelude::*;
use vstd::string::*;

verus! {

/// A status code of HTTP.
pub open spec fn is_status_code(code: u16) -> bool {
    100 <= code <= 599
}

/// A URL with a scheme that the binding speaks.
pub open spec fn is_http_url(url: Seq<char>) -> bool {
    stands_at(url, "http://"@, 0) || stands_at(url, "https://"@, 0)
}

/// The first entry of a list that is no status code.
pub open spec fn first_bad_code(codes: Seq<u16>) -> Option<u16>
    decreases codes.len(),
{
    if codes.len() == 0 {
        None
    } else if !is_status_code(codes[0]) {
        Some(codes[0])
    } else {
        first_bad_code(codes.drop_first())
    }
}

/// What is wrong with a header: its name is blank, or a line break in its name
/// or value would split the request.
pub open spec fn header_fault(header: (Seq<char>, Seq<char>)) -> Option<Seq<char>> {
    if is_blank(header.0) {
        Some("headers keys must not be empty"@)
    } else if breaks_line(header.0) {
        Some("headers keys must not contain CR or LF characters"@)
    } else if breaks_line(header.1) {
        Some("headers values must not contain CR or LF characters"@)
    } else {
        None
    }
}

/// What is wrong with the first header of a list that has a fault.
pub open spec fn first_header_fault(headers: Seq<(Seq<char>, Seq<char>)>) -> Option<Seq<char>>
    decreases headers.len(),
{
    if headers.len() == 0 {
        None
    } else if header_fault(headers[0]) is Some {
        header_fault(headers[0])
    } else {
        first_header_fault(headers.drop_first())
    }
}

/// The first fault of a spec, in the order in which the fields are checked.
pub open spec fn spec_fault(spec: SpecView) -> Option<Seq<char>> {
    if is_blank(spec.url) {
        Some("url must not be empty"@)
    } else if !is_http_url(spec.url) {
        Some("url must start with http:// or https://, got '"@ + spec.url + "'"@)
    } else if spec.timeout_ms == 0 {
        Some("timeout_ms must be greater than 0"@)
    } else if spec.max_response_bytes == 0 {
        Some("max_response_bytes must be greater than 0"@)
    } else if spec.expected_status_codes.len() == 0 {
        Some("expected_status_codes must not be empty"@)
    } else if first_bad_code(spec.expected_status_codes) is Some {
        Some(
            "expected_status_codes entries must be valid HTTP status codes (100-599), got "@
                + decimal(first_bad_code(spec.expected_status_codes)->0 as nat),
        )
    } else {
        first_header_fault(spec.headers)
    }
}

/// A spec that a binding can be registered with: an HTTP URL, limits above
/// zero, status codes to expect, and headers that cannot split a request.
pub open spec fn is_sound(spec: SpecView) -> bool {
    &&& is_http_url(spec.url)
    &&& !is_blank(spec.url)
    &&& spec.timeout_ms > 0
    &&& spec.max_response_bytes > 0
    &&& spec.expected_status_codes.len() > 0
    &&& forall|i: int|
        0 <= i < spec.expected_status_codes.len() ==> is_status_code(
            #[trigger] spec.expected_status_codes[i],
        )
    &&& forall|i: int|
        0 <= i < spec.headers.len() ==> {
            let header = #[trigger] spec.headers[i];
            !is_blank(header.0) && !breaks_line(header.0) && !breaks_line(header.1)
        }
}

/// No fault in the first code of a list and none in the rest.
proof fn lemma_codes(codes: Seq<u16>)
    ensures
        first_bad_code(codes) is None <==> forall|i: int|
            0 <= i < codes.len() ==> is_status_code(#[trigger] codes[i]),
    decreases codes.len(),
{
    if codes.len() > 0 {
        lemma_codes(codes.drop_first());
        if forall|i: int| 0 <= i < codes.len() ==> is_status_code(#[trigger] codes[i]) {
            assert forall|i: int| 0 <= i < codes.drop_first().len() implies is_status_code(
                #[trigger] codes.drop_first()[i],
            ) by {
                assert(codes.drop_first()[i] == codes[i + 1]);
            }
        }
        if first_bad_code(codes) is None {
            assert forall|i: int| 0 <= i < codes.len() implies is_status_code(
                #[trigger] codes[i],
            ) by {
                if i > 0 {
                    assert(codes[i] == codes.drop_first()[i - 1]);
                }
            }
        }
    }
}

/// No fault in the first header of a list and none in the rest.
proof fn lemma_headers(headers: Seq<(Seq<char>, Seq<char>)>)
    ensures
        first_header_fault(headers) is None <==> forall|i: int|
            0 <= i < headers.len() ==> header_fault(#[trigger] headers[i]) is None,
    decreases headers.len(),
{
    if headers.len() > 0 {
        lemma_headers(headers.drop_first());
        if forall|i: int| 0 <= i < headers.len() ==> header_fault(#[trigger] headers[i]) is None {
            assert forall|i: int| 0 <= i < headers.drop_first().len() implies header_fault(
                #[trigger] headers.drop_first()[i],
            ) is None by {
                assert(headers.drop_first()[i] == headers[i + 1]);
            }
        }
        if first_header_fault(headers) is None {
            assert forall|i: int| 0 <= i < headers.len() implies header_fault(
                #[trigger] headers[i],
            ) is None by {
                if i > 0 {
                    assert(headers[i] == headers.drop_first()[i - 1]);
                }
            }
        }
    }
}

/// A spec has no fault exactly where it is sound.
pub proof fn law_faultless_is_sound(spec: SpecView)
    ensures
        spec_fault(spec) is None <==> is_sound(spec),
{
    lemma_codes(spec.expected_status_codes);
    lemma_headers(spec.headers);
    if is_sound(spec) {
        assert forall|i: int| 0 <= i < spec.headers.len() implies header_fault(
            #[trigger] spec.headers[i],
        ) is None by {}
    }
    if spec_fault(spec) is None {
        assert forall|i: int| 0 <= i < spec.headers.len() implies ({
            let header = #[trigger] spec.headers[i];
            !is_blank(header.0) && !breaks_line(header.0) && !breaks_line(header.1)
        }) by {
            assert(header_fault(spec.headers[i]) is None);
        }
    }
}

/// The first entry of a list that is no status code.
fn find_bad_code(codes: &Vec<u16>) -> (bad: Option<u16>)
    ensures
        bad == first_bad_code(codes@),
{
    let mut i: usize = 0;
    assert(codes@.skip(0) =~= codes@);
    while i < codes.len()
        invariant
            i <= codes.len(),
            first_bad_code(codes@) == first_bad_code(codes@.skip(i as int)),
        decreases codes.len() - i,
    {
        let code: u16 = codes[i];
        assert(codes@.skip(i as int)[0] == code);
        if code < 100 || code > 599 {
            return Some(code);
        }
        assert(codes@.skip(i as int).drop_first() =~= codes@.skip(i + 1));
        i = i + 1;
    }
    None
}

/// What is wrong with the first faulty header of a list.
fn find_header_fault(headers: &Vec<(String, String)>) -> (fault: Option<&'static str>)
    ensures
        crate::json::slice_text(fault) == first_header_fault(pairs_view(headers@)),
{
    let ghost view = pairs_view(headers@);
    let mut i: usize = 0;
    assert(view.skip(0) =~= view);
    while i < headers.len()
        invariant
            view == pairs_view(headers@),
            i <= headers.len(),
            first_header_fault(view) == first_header_fault(view.skip(i as int)),
        decreases headers.len() - i,
    {
        let header: &(String, String) = &headers[i];
        assert(view.skip(i as int)[0] == (header.0@, header.1@));
        if blank(header.0.as_str()) {
            return Some("headers keys must not be empty");
        }
        if has_line_break(header.0.as_str()) {
            return Some("headers keys must not contain CR or LF characters");
        }
        if has_line_break(header.1.as_str()) {
            return Some("headers values must not contain CR or LF characters");
        }
        assert(view.skip(i as int).drop_first() =~= view.skip(i + 1));
        i = i + 1;
    }
    None
}

/// Refuses a spec with a fault, for the first fault found.
pub fn check_spec(spec: &HttpBackendSpec) -> (checked: Result<(), BackendError>)
    ensures
        match spec_fault(spec@) {
            Some(message) => checked matches Err(error) && error@
                == BackendErrorView::InvalidSpec(message),
            None => checked is Ok,
        },
{
    let url: &str = spec.url.as_str();
    if blank(url) {
        return Err(BackendError::InvalidSpec { message: "url must not be empty".to_owned() });
    }
    if !begins_with(url, "http://") && !begins_with(url, "https://") {
        let mut message: String = "url must start with http:// or https://, got '".to_owned();
        message.append(url);
        message.append("'");
        return Err(BackendError::InvalidSpec { message });
    }
    if spec.timeout_ms == 0 {
        return Err(
            BackendError::InvalidSpec { message: "timeout_ms must be greater than 0".to_owned() },
        );
    }
    if spec.max_response_bytes == 0 {
        return Err(
            BackendError::InvalidSpec {
                message: "max_response_bytes must be greater than 0".to_owned(),
            },
        );
    }
    if spec.expected_status_codes.len() == 0 {
        return Err(
            BackendError::InvalidSpec {
                message: "expected_status_codes must not be empty".to_owned(),
            },
        );
    }
    match find_bad_code(&spec.expected_status_codes) {
        Some(code) => {
            return Err(
                invalid_spec(
                    "expected_status_codes entries must be valid HTTP status codes (100-599), got ",
                    decimal_text(code as u128).as_str(),
                ),
            );
        },
        None => {},
    }
    match find_header_fault(&spec.headers) {
        Some(message) => Err(BackendError::InvalidSpec { message: message.to_owned() }),
        None => Ok(()),
    }
}

/// The secrets that a spec names under `__mcpg_secret_refs`: the strings of
/// that list, and none where there is no such list.
pub open spec fn secret_refs_of(spec: JsonView) -> Seq<Seq<char>> {
    match field_of(spec, "__mcpg_secret_refs"@) {
        Some(JsonView::Items(items)) => strings_among(items),
        _ => Seq::empty(),
    }
}

/// The secrets that a spec names. A client is evicted when one of them is
/// rotated.
pub fn secret_refs(spec: &Json) -> (refs: Vec<String>)
    ensures
        texts(refs@) == secret_refs_of(spec@),
{
    let mut refs: Vec<String> = Vec::new();
    match field(spec, "__mcpg_secret_refs") {
        Some(Json::Items(items)) => append_strings(items, &mut refs),
        _ => {},
    }
    assert(texts(refs@) =~= secret_refs_of(spec@));
    refs
}

/// A checked spec: the profile to register, and the secrets that it touches.
pub struct ProfileDraft {
    profile: HttpRequestProfile,
    secret_refs: Vec<String>,
}

impl ProfileDraft {
    #[verifier::type_invariant]
    closed spec fn is_checked(self) -> bool {
        &&& is_sound(self.profile@)
        &&& names_ascend(self.profile@.headers)
    }

    /// The profile that was checked.
    pub closed spec fn checked_profile(self) -> SpecView {
        self.profile@
    }

    /// The secrets that the profile touches.
    pub closed spec fn touched_secrets(self) -> Seq<Seq<char>> {
        texts(self.secret_refs@)
    }

    /// The profile to register.
    pub fn profile(&self) -> (profile: &HttpRequestProfile)
        ensures
            profile@ == self.checked_profile(),
            is_sound(profile@),
            profile.is_well_formed(),
    {
        proof {
            use_type_invariant(self);
        }
        &self.profile
    }

    /// The secrets that the profile touches. A client is evicted when one of
    /// them is rotated.
    pub fn secret_refs(&self) -> (refs: &Vec<String>)
        ensures
            texts(refs@) == self.touched_secrets(),
    {
        &self.secret_refs
    }

    /// Gives the profile up for registration.
    pub fn into_profile(self) -> (profile: HttpRequestProfile)
        ensures
            profile@ == self.checked_profile(),
            is_sound(profile@),
            profile.is_well_formed(),
    {
        proof {
            use_type_invariant(&self);
        }
        self.profile
    }
}

/// The spec of a binding, where its document could be read.
pub fn read_spec(fields: Result<HttpBackendSpecFields, String>) -> (spec: Result<
    HttpBackendSpec,
    BackendError,
>)
    ensures
        match fields {
            Ok(fields) => spec matches Ok(spec) && spec.is_well_formed() && spec@ == completed(
                fields,
            ),
            Err(message) => spec matches Err(error) && error@ == BackendErrorView::InvalidSpec(
                "HTTP binding spec: "@ + message@,
            ),
        },
{
    match fields {
        Ok(fields) => Ok(HttpBackendSpec::from_fields(fields)),
        Err(message) => Err(invalid_spec("HTTP binding spec: ", message.as_str())),
    }
}

/// A spec with its headers in the order of their names.
pub open spec fn in_order(spec: SpecView) -> SpecView {
    SpecView { headers: collated(spec.headers, spec.headers.len()), ..spec }
}

/// A spec whose headers stand in order is drafted as it is.
pub proof fn law_ordered_spec_stays(spec: SpecView)
    requires
        names_ascend(spec.headers),
    ensures
        in_order(spec) == spec,
{
    law_ascending_is_collated(spec.headers, spec.headers.len());
    assert(spec.headers.take(spec.headers.len() as int) =~= spec.headers);
}

/// A copy of a spec with its headers in order.
fn ordered(spec: &HttpBackendSpec) -> (copy: HttpBackendSpec)
    ensures
        copy@ == in_order(spec@),
        copy.is_well_formed(),
{
    HttpBackendSpec {
        url: spec.url.clone(),
        method: spec.method,
        headers: collate(&spec.headers),
        expected_status_codes: copy_codes(&spec.expected_status_codes),
        require_json_response: spec.require_json_response,
        max_response_bytes: spec.max_response_bytes,
        timeout_ms: spec.timeout_ms,
        allow_private_backends: spec.allow_private_backends,
    }
}

/// Checks a spec for registration, with its headers in the order of their
/// names. `document` is the spec as it was handed in, with the secrets that the
/// gateway resolved in it.
pub fn draft_profile(spec: &HttpBackendSpec, document: &Json) -> (drafted: Result<
    ProfileDraft,
    BackendError,
>)
    ensures
        match spec_fault(in_order(spec@)) {
            Some(message) => drafted matches Err(error) && error@
                == BackendErrorView::InvalidSpec(message),
            None => drafted matches Ok(draft) && draft.checked_profile() == in_order(spec@)
                && is_sound(in_order(spec@)) && draft.touched_secrets() == secret_refs_of(
                document@,
            ),
        },
        spec.is_well_formed() ==> (drafted matches Ok(draft) ==> draft.checked_profile() == spec@),
{
    let ordered: HttpBackendSpec = ordered(spec);
    proof {
        law_faultless_is_sound(ordered@);
        if spec.is_well_formed() {
            law_ordered_spec_stays(spec@);
        }
    }
    match check_spec(&ordered) {
        Err(error) => Err(error),
        Ok(()) => Ok(
            ProfileDraft {
                profile: HttpRequestProfile::from_spec(&ordered),
                secret_refs: secret_refs(document),
            },
        ),
    }
}

/// The defaults are sound: a spec that gives an HTTP URL and nothing else can
/// be registered.
pub proof fn law_defaults_are_sound(fields: HttpBackendSpecFields)
    requires
        is_http_url(fields.url@),
        fields.method is None,
        fields.headers is None,
        fields.expected_status_codes is None,
        fields.require_json_response is None,
        fields.max_response_bytes is None,
        fields.timeout_ms is None,
        fields.allow_private_backends is None,
    ensures
        is_sound(completed(fields)),
        spec_fault(completed(fields)) is None,
{
    let url = fields.url@;
    reveal_strlit("http://");
    reveal_strlit("https://");
    if stands_at(url, "http://"@, 0) {
        assert(url.subrange(0, 7)[0] == 'h');
    } else {
        assert(url.subrange(0, 8)[0] == 'h');
    }
    assert(!is_space(url[0]));
    law_faultless_is_sound(completed(fields));
}

/// A text begins with another.
pub open spec fn begins(text: Seq<char>, prefix: Seq<char>) -> bool {
    exists|rest: Seq<char>| text == #[trigger] (prefix + rest)
}

/// A text has neither a carriage return nor a line feed in it.
pub open spec fn is_one_line(text: Seq<char>) -> bool {
    forall|i: int| 0 <= i < text.len() ==> #[trigger] text[i] != '\r' && text[i] != '\n'
}

/// A URL is one of HTTP exactly where it begins with `http://` or `https://`.
proof fn lemma_http_url(url: Seq<char>)
    ensures
        is_http_url(url) <==> begins(url, "http://"@) || begins(url, "https://"@),
        begins(url, "http://"@) || begins(url, "https://"@) ==> !is_blank(url),
{
    reveal_strlit("http://");
    reveal_strlit("https://");
    if stands_at(url, "http://"@, 0) {
        assert(url =~= "http://"@ + url.skip("http://"@.len() as int)) by {
            assert(url.subrange(0, "http://"@.len() as int) == "http://"@);
            assert forall|i: int| 0 <= i < 7 implies url[i] == #[trigger] "http://"@[i] by {
                assert(url.subrange(0, 7)[i] == url[i]);
            }
        }
    }
    if stands_at(url, "https://"@, 0) {
        assert(url =~= "https://"@ + url.skip("https://"@.len() as int)) by {
            assert(url.subrange(0, "https://"@.len() as int) == "https://"@);
            assert forall|i: int| 0 <= i < 8 implies url[i] == #[trigger] "https://"@[i] by {
                assert(url.subrange(0, 8)[i] == url[i]);
            }
        }
    }
    if begins(url, "http://"@) {
        let rest = choose|rest: Seq<char>| url == #[trigger] ("http://"@ + rest);
        assert(url.subrange(0, 7) =~= "http://"@);
        assert(url[0] == 'h');
        assert(!is_space(url[0]));
    }
    if begins(url, "https://"@) {
        let rest = choose|rest: Seq<char>| url == #[trigger] ("https://"@ + rest);
        assert(url.subrange(0, 8) =~= "https://"@);
        assert(url[0] == 'h');
        assert(!is_space(url[0]));
    }
}

/// A spec can be registered exactly where its URL begins with `http://` or
/// `https://`, its limits are above zero, it expects at least one status and
/// none outside 100 to 599, and each of its headers has a name that is not
/// blank and keeps to one line in name and value.
pub proof fn law_registered_spec_is_fit(spec: SpecView)
    ensures
        spec_fault(spec) is None <==> {
            &&& begins(spec.url, "http://"@) || begins(spec.url, "https://"@)
            &&& spec.timeout_ms > 0
            &&& spec.max_response_bytes > 0
            &&& spec.expected_status_codes.len() > 0
            &&& forall|i: int|
                0 <= i < spec.expected_status_codes.len() ==> 100
                    <= #[trigger] spec.expected_status_codes[i] <= 599
            &&& forall|i: int|
                0 <= i < spec.headers.len() ==> !is_blank((#[trigger] spec.headers[i]).0)
                    && is_one_line(spec.headers[i].0) && is_one_line(spec.headers[i].1)
        },
{
    law_faultless_is_sound(spec);
    lemma_http_url(spec.url);
    if is_sound(spec) {
        assert forall|i: int| 0 <= i < spec.expected_status_codes.len() implies 100
            <= #[trigger] spec.expected_status_codes[i] <= 599 by {
            assert(is_status_code(spec.expected_status_codes[i]));
        }
    }
}

/// A spec that cannot be registered is refused for its first fault: the URL,
/// then the timeout, then the cap, then the status codes, then the headers.
pub proof fn law_first_fault_is_told(spec: SpecView)
    ensures
        ({
            let fault = spec_fault(spec);
            let speaks_http = begins(spec.url, "http://"@) || begins(spec.url, "https://"@);
            let limited = spec.timeout_ms > 0 && spec.max_response_bytes > 0;
            &&& is_blank(spec.url) ==> fault == Some("url must not be empty"@)
            &&& !is_blank(spec.url) && !speaks_http ==> fault == Some(
                "url must start with http:// or https://, got '"@ + spec.url + "'"@,
            )
            &&& speaks_http && spec.timeout_ms == 0 ==> fault == Some(
                "timeout_ms must be greater than 0"@,
            )
            &&& speaks_http && spec.timeout_ms > 0 && spec.max_response_bytes == 0 ==> fault
                == Some("max_response_bytes must be greater than 0"@)
            &&& speaks_http && limited && spec.expected_status_codes.len() == 0 ==> fault == Some(
                "expected_status_codes must not be empty"@,
            )
        }),
{
    lemma_http_url(spec.url);
}

/// The code that a list is refused for is the first of it that is none.
proof fn lemma_first_bad_code(codes: Seq<u16>, i: int)
    requires
        0 <= i < codes.len(),
        !(100 <= codes[i] <= 599),
        forall|j: int| 0 <= j < i ==> 100 <= #[trigger] codes[j] <= 599,
    ensures
        first_bad_code(codes) == Some(codes[i]),
    decreases codes.len(),
{
    if i > 0 {
        let rest = codes.drop_first();
        assert(100 <= codes[0] <= 599);
        assert forall|j: int| 0 <= j < i - 1 implies 100 <= #[trigger] rest[j] <= 599 by {
            assert(rest[j] == codes[j + 1]);
        }
        lemma_first_bad_code(rest, i - 1);
    }
}

/// A list of status codes is refused for the first entry outside 100 to 599,
/// and the refusal names it.
pub proof fn law_first_bad_code_is_told(spec: SpecView, i: int)
    requires
        begins(spec.url, "http://"@) || begins(spec.url, "https://"@),
        spec.timeout_ms > 0,
        spec.max_response_bytes > 0,
        0 <= i < spec.expected_status_codes.len(),
        !(100 <= spec.expected_status_codes[i] <= 599),
        forall|j: int| 0 <= j < i ==> 100 <= #[trigger] spec.expected_status_codes[j] <= 599,
    ensures
        spec_fault(spec) == Some(
            "expected_status_codes entries must be valid HTTP status codes (100-599), got "@
                + decimal(spec.expected_status_codes[i] as nat),
        ),
{
    lemma_http_url(spec.url);
    lemma_first_bad_code(spec.expected_status_codes, i);
}

/// The header that a list is refused for is the first of it with a fault.
proof fn lemma_first_bad_header(headers: Seq<(Seq<char>, Seq<char>)>, i: int)
    requires
        0 <= i < headers.len(),
        header_fault(headers[i]) is Some,
        forall|j: int| 0 <= j < i ==> header_fault(#[trigger] headers[j]) is None,
    ensures
        first_header_fault(headers) == header_fault(headers[i]),
    decreases headers.len(),
{
    if i > 0 {
        let rest = headers.drop_first();
        assert(header_fault(headers[0]) is None);
        assert forall|j: int| 0 <= j < i - 1 implies header_fault(#[trigger] rest[j]) is None by {
            assert(rest[j] == headers[j + 1]);
        }
        lemma_first_bad_header(rest, i - 1);
    }
}

/// Headers are refused for the first one with a fault: a blank name, a line
/// break in the name, or one in the value.
pub proof fn law_first_bad_header_is_told(spec: SpecView, i: int)
    requires
        begins(spec.url, "http://"@) || begins(spec.url, "https://"@),
        spec.timeout_ms > 0,
        spec.max_response_bytes > 0,
        spec.expected_status_codes.len() > 0,
        forall|j: int|
            0 <= j < spec.expected_status_codes.len() ==> 100
                <= #[trigger] spec.expected_status_codes[j] <= 599,
        0 <= i < spec.headers.len(),
        forall|j: int|
            0 <= j < i ==> !is_blank((#[trigger] spec.headers[j]).0) && is_one_line(
                spec.headers[j].0,
            ) && is_one_line(spec.headers[j].1),
    ensures
        ({
            let (name, value) = spec.headers[i];
            &&& is_blank(name) ==> spec_fault(spec) == Some("headers keys must not be empty"@)
            &&& !is_blank(name) && !is_one_line(name) ==> spec_fault(spec) == Some(
                "headers keys must not contain CR or LF characters"@,
            )
            &&& !is_blank(name) && is_one_line(name) && !is_one_line(value) ==> spec_fault(spec)
                == Some("headers values must not contain CR or LF characters"@)
        }),
{
    lemma_http_url(spec.url);
    lemma_codes(spec.expected_status_codes);
    assert forall|j: int| 0 <= j < i implies header_fault(#[trigger] spec.headers[j]) is None by {}
    if header_fault(spec.headers[i]) is Some {
        lemma_first_bad_header(spec.headers, i);
    }
}

/// Drafting a spec puts its headers in order and changes nothing else: each
/// name is there once, with the value that was given for it last.
pub proof fn law_drafting_keeps_the_settings(spec: SpecView)
    ensures
        in_order(spec).url == spec.url,
        in_order(spec).method == spec.method,
        settles(in_order(spec).headers, spec.headers),
        in_order(spec).expected_status_codes == spec.expected_status_codes,
        in_order(spec).require_json_response == spec.require_json_response,
        in_order(spec).max_response_bytes == spec.max_response_bytes,
        in_order(spec).timeout_ms == spec.timeout_ms,
        in_order(spec).allow_private_backends == spec.allow_private_backends,
{
    lemma_collated_settles(spec.headers);
}

/// The secrets of a document are all the strings of its `__mcpg_secret_refs`
/// list, in order; a document without such a list names none.
pub proof fn law_secrets_are_the_listed_strings(
    document: JsonView,
    items: Seq<JsonView>,
    strings: Seq<Seq<char>>,
)
    ensures
        field_of(document, "__mcpg_secret_refs"@) == Some(JsonView::Items(items)) && items.len()
            == strings.len() && (forall|i: int|
            0 <= i < items.len() ==> #[trigger] items[i] == JsonView::Text(strings[i]))
            ==> secret_refs_of(document) == strings,
        field_of(document, "__mcpg_secret_refs"@) == Some(JsonView::Items(items))
            ==> secret_refs_of(document) == strings_among(items),
        !(field_of(document, "__mcpg_secret_refs"@) matches Some(JsonView::Items(_)))
            ==> secret_refs_of(document).len() == 0,
{
    if items.len() == strings.len() && (forall|i: int|
        0 <= i < items.len() ==> #[trigger] items[i] == JsonView::Text(strings[i])) {
        law_list_of_strings_is_kept(items, strings);
    }
}

} // verus!
