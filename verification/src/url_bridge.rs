//! The URL crate's addresses, as the library uses them.

use url::{Position, Url};
use vstd::prelude::*;
use vstd::utf8::*;

verus! {

/// An address of `url`.
#[verifier::external_type_specification]
#[verifier::external_body]
pub struct ExUrl(url::Url);

/// The parse error of `url`.
#[verifier::external_type_specification]
#[verifier::external_body]
pub struct ExUrlParseError(url::ParseError);

/// What `Url::parse` reads from a text: the address, or the message of the
/// error.
pub uninterp spec fn parsed_url(text: Seq<char>) -> Result<url::Url, Seq<char>>;

/// What `Url::join` makes of a base and a reference: the address, or the
/// message of the error.
pub uninterp spec fn joined_url(base: url::Url, reference: Seq<char>) -> Result<
    url::Url,
    Seq<char>,
>;

/// The message of a parse error of the URL crate.
pub uninterp spec fn url_error_message(error: url::ParseError) -> Seq<char>;

/// What `Url::scheme` gives.
pub uninterp spec fn url_scheme(url: url::Url) -> Seq<char>;

/// What `Url::host_str` gives.
pub uninterp spec fn url_host(url: url::Url) -> Option<Seq<char>>;

/// What `Url::port_or_known_default` gives.
pub uninterp spec fn url_port(url: url::Url) -> Option<u16>;

/// How many bytes an address has before its fragment: what it holds up to
/// `Position::AfterQuery`.
pub uninterp spec fn url_stem_length(url: url::Url) -> nat;

/// How many bytes the query of an address has with its `?`: what it holds from
/// `Position::AfterPath` to `Position::AfterQuery`. None without a query.
pub uninterp spec fn url_query_length(url: url::Url) -> nat;

/// How many bytes the fragment of an address has with its `#`: what it holds
/// from `Position::AfterQuery`. None without a fragment.
pub uninterp spec fn url_fragment_length(url: url::Url) -> nat;

/// An address with one more pair at the end of its query, as `append_pair` of
/// `Url::query_pairs_mut` writes it.
pub uninterp spec fn url_with_pair(url: url::Url, name: Seq<char>, value: Seq<char>) -> url::Url;

/// A byte that a form-encoded query writes as it is.
pub open spec fn is_plain_byte(byte: u8) -> bool {
    ||| 0x30 <= byte <= 0x39
    ||| 0x41 <= byte <= 0x5a
    ||| 0x61 <= byte <= 0x7a
    ||| byte == 0x2a
    ||| byte == 0x2d
    ||| byte == 0x2e
    ||| byte == 0x5f
}

/// How many bytes a form-encoded query writes for some bytes: a plain byte and
/// a space take one, any other takes three.
pub open spec fn encoded_length(bytes: Seq<u8>) -> nat
    decreases bytes.len(),
{
    if bytes.len() == 0 {
        0
    } else {
        encoded_length(bytes.drop_last()) + (if is_plain_byte(bytes.last()) || bytes.last()
            == 0x20 {
            1nat
        } else {
            3nat
        })
    }
}

/// How many bytes one more pair adds to an address: the pair with its `=`, and
/// a `?` or a `&` before it, but not behind a lone `?`.
pub open spec fn added_length(url: url::Url, name: Seq<char>, value: Seq<char>) -> nat {
    (if url_query_length(url) == 1 {
        0nat
    } else {
        1nat
    }) + encoded_length(encode_utf8(name)) + 1 + encoded_length(encode_utf8(value))
}

/// An address that the crate can give one more pair. It notes in 32 bits where
/// a new query begins, and where the fragment begins afterwards.
pub open spec fn pair_fits(url: url::Url, name: Seq<char>, value: Seq<char>) -> bool {
    &&& url_query_length(url) == 0 ==> url_stem_length(url) <= u32::MAX
    &&& url_fragment_length(url) > 0 ==> url_stem_length(url) + added_length(url, name, value)
        <= u32::MAX
}

/// Calls `Url::parse`. The outcome depends on the text alone.
#[verifier::external_body]
pub(crate) fn parse_url(text: &str) -> (parsed: Result<Url, url::ParseError>)
    ensures
        match parsed {
            Ok(url) => parsed_url(text@) == Ok::<Url, Seq<char>>(url),
            Err(error) => parsed_url(text@) == Err::<Url, Seq<char>>(url_error_message(error)),
        },
{
    Url::parse(text)
}

/// Calls `Url::join`. The outcome depends on the base and the reference alone.
#[verifier::external_body]
pub(crate) fn join_url(base: &Url, reference: &str) -> (joined: Result<Url, url::ParseError>)
    ensures
        match joined {
            Ok(url) => joined_url(*base, reference@) == Ok::<Url, Seq<char>>(url),
            Err(error) => joined_url(*base, reference@) == Err::<Url, Seq<char>>(
                url_error_message(error),
            ),
        },
{
    base.join(reference)
}

/// Renders a parse error of the URL crate through its `Display`.
#[verifier::external_body]
pub(crate) fn url_error_text(error: &url::ParseError) -> (text: String)
    ensures
        text@ == url_error_message(*error),
{
    error.to_string()
}

/// Calls `Url::scheme`.
#[verifier::external_body]
pub(crate) fn scheme_of(url: &Url) -> (scheme: String)
    ensures
        scheme@ == url_scheme(*url),
{
    url.scheme().to_owned()
}

/// Calls `Url::host_str`.
#[verifier::external_body]
pub(crate) fn host_of(url: &Url) -> (host: Option<String>)
    ensures
        crate::text::text_of(host) == url_host(*url),
{
    url.host_str().map(str::to_owned)
}

/// Calls `Url::port_or_known_default`.
#[verifier::external_body]
pub(crate) fn port_of(url: &Url) -> (port: Option<u16>)
    ensures
        port == url_port(*url),
{
    url.port_or_known_default()
}

/// Indexes an address up to `Position::AfterQuery`, for the length.
#[verifier::external_body]
pub(crate) fn stem_length(url: &Url) -> (length: usize)
    ensures
        length == url_stem_length(*url),
{
    url[..Position::AfterQuery].len()
}

/// Indexes an address from `Position::AfterPath` to `Position::AfterQuery`, for
/// the length.
#[verifier::external_body]
pub(crate) fn query_length(url: &Url) -> (length: usize)
    ensures
        length == url_query_length(*url),
{
    url[Position::AfterPath..Position::AfterQuery].len()
}

/// Indexes an address from `Position::AfterQuery`, for the length.
#[verifier::external_body]
pub(crate) fn fragment_length(url: &Url) -> (length: usize)
    ensures
        length == url_fragment_length(*url),
{
    url[Position::AfterQuery..].len()
}

/// Calls `append_pair` on the serializer of `Url::query_pairs_mut`. Only what
/// follows the path changes. Where the pair does not fit, the crate panics.
#[verifier::external_body]
pub(crate) fn append_pair(url: &mut Url, name: &str, value: &str)
    requires
        pair_fits(*old(url), name@, value@),
    ensures
        *final(url) == url_with_pair(*old(url), name@, value@),
        url_scheme(*final(url)) == url_scheme(*old(url)),
        url_host(*final(url)) == url_host(*old(url)),
        url_port(*final(url)) == url_port(*old(url)),
{
    url.query_pairs_mut().append_pair(name, value);
}

/// The length of an encoded text is that of its parts; a letter, a digit, one
/// of `*-._` and a space take one byte, and every other byte takes three.
pub proof fn law_encoded_length_of_every_part(a: Seq<u8>, b: Seq<u8>, byte: u8)
    ensures
        encoded_length(Seq::<u8>::empty()) == 0,
        encoded_length(a + b) == encoded_length(a) + encoded_length(b),
        encoded_length(seq![byte]) == (if ('0' as u8 <= byte <= '9' as u8) || ('A' as u8 <= byte
            <= 'Z' as u8) || ('a' as u8 <= byte <= 'z' as u8) || byte == '*' as u8 || byte
            == '-' as u8 || byte == '.' as u8 || byte == '_' as u8 || byte == ' ' as u8 {
            1int
        } else {
            3
        }),
    decreases b.len(),
{
    assert(seq![byte].drop_last() =~= Seq::<u8>::empty());
    assert(encoded_length(seq![byte].drop_last()) == 0);
    if b.len() == 0 {
        assert(a + b =~= a);
    } else {
        law_encoded_length_of_every_part(a, b.drop_last(), byte);
        assert((a + b).drop_last() =~= a + b.drop_last());
    }
}

/// An address has room for a pair wherever nothing has to be noted behind 32
/// bits: where it has a query and no fragment, and where all of it, the pair
/// included, is short enough.
pub proof fn law_room_for_a_pair(url: url::Url, name: Seq<char>, value: Seq<char>)
    ensures
        url_query_length(url) > 0 && url_fragment_length(url) == 0 ==> pair_fits(url, name, value),
        url_stem_length(url) + encoded_length(encode_utf8(name)) + encoded_length(
            encode_utf8(value),
        ) + 2 <= u32::MAX ==> pair_fits(url, name, value),
        url_query_length(url) == 0 && url_stem_length(url) > u32::MAX ==> !pair_fits(
            url,
            name,
            value,
        ),
{
}

} // verus!
