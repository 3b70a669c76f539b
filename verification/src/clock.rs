//! The wall clock, as an audit trail writes it.

use vstd::prelude::*;

verus! {

/// A decimal digit stands at a place.
pub open spec fn digit_at(text: Seq<char>, at: int) -> bool {
    '0' <= text[at] && text[at] <= '9'
}

/// The number that two digits at a place make.
pub open spec fn pair_at(text: Seq<char>, at: int) -> int {
    (text[at] as int - '0' as int) * 10 + (text[at + 1] as int - '0' as int)
}

/// Two digits stand at a place, for a number within bounds.
pub open spec fn two_digits(text: Seq<char>, at: int, least: int, most: int) -> bool {
    &&& digit_at(text, at)
    &&& digit_at(text, at + 1)
    &&& least <= pair_at(text, at) <= most
}

/// A year: four digits, or a `+` and more than four.
pub open spec fn is_year(text: Seq<char>) -> bool {
    &&& text.len() == 4 || (text.len() >= 6 && text[0] == '+')
    &&& forall|i: int|
        0 <= i < text.len() && (text.len() == 4 || i > 0) ==> #[trigger] digit_at(text, i)
}

/// A moment of UTC as RFC 3339 writes it: year, month and day with `-` between
/// them, a `T`, hours, minutes and seconds with `:` between them, a `.`, three
/// digits for the milliseconds, and a `Z`.
pub open spec fn is_moment(text: Seq<char>) -> bool {
    let at = text.len() - 20;
    &&& text.len() >= 24
    &&& is_year(text.take(at))
    &&& text[at] == '-'
    &&& two_digits(text, at + 1, 1, 12)
    &&& text[at + 3] == '-'
    &&& two_digits(text, at + 4, 1, 31)
    &&& text[at + 6] == 'T'
    &&& two_digits(text, at + 7, 0, 23)
    &&& text[at + 9] == ':'
    &&& two_digits(text, at + 10, 0, 59)
    &&& text[at + 12] == ':'
    &&& two_digits(text, at + 13, 0, 59)
    &&& text[at + 15] == '.'
    &&& digit_at(text, at + 16)
    &&& digit_at(text, at + 17)
    &&& digit_at(text, at + 18)
    &&& text[at + 19] == 'Z'
}

/// Calls `chrono::Utc::now` and renders the moment with `to_rfc3339_opts`, in
/// milliseconds and with a `Z`. The text is a moment; which one it is depends on
/// the time of the call. The crate panics where the clock
/// stands before 1970, which no argument can rule out.
#[verifier::external_body]
pub(crate) fn rfc3339_now() -> (now: String)
    ensures
        is_moment(now@),
{
    chrono::Utc::now().to_rfc3339_opts(chrono::SecondsFormat::Millis, true)
}

} // verus!
