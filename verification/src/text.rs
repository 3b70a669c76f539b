//! Character-level helpers: comparison, search and number rendering over the
//! sequence of characters a string holds.

use vstd::prelude::*;
use vstd::string::*;

verus! {

/// The ASCII lower-case form of a character; every other character is itself.
pub open spec fn ascii_lower(c: char) -> char {
    if 'A' <= c && c <= 'Z' {
        ((c as u32) + 32) as u8 as char
    } else {
        c
    }
}

/// A text with each of its characters in ASCII lower case.
pub open spec fn lowered(text: Seq<char>) -> Seq<char> {
    text.map_values(|c: char| ascii_lower(c))
}

/// Two texts that differ in ASCII case at most.
pub open spec fn same_ignoring_case(a: Seq<char>, b: Seq<char>) -> bool {
    lowered(a) == lowered(b)
}

/// `needle` stands in `text` at position `at`.
pub open spec fn stands_at(text: Seq<char>, needle: Seq<char>, at: int) -> bool {
    &&& 0 <= at
    &&& at + needle.len() <= text.len()
    &&& text.subrange(at, at + needle.len()) == needle
}

/// `needle` stands somewhere in `text`.
pub open spec fn occurs_in(text: Seq<char>, needle: Seq<char>) -> bool {
    exists|at: int| #[trigger] stands_at(text, needle, at)
}

/// The Unicode `White_Space` characters.
pub open spec fn is_space(c: char) -> bool {
    let code = c as u32;
    ||| 0x9 <= code <= 0xd
    ||| code == 0x20
    ||| code == 0x85
    ||| code == 0xa0
    ||| code == 0x1680
    ||| 0x2000 <= code <= 0x200a
    ||| code == 0x2028
    ||| code == 0x2029
    ||| code == 0x202f
    ||| code == 0x205f
    ||| code == 0x3000
}

/// A text that is empty or holds white space only.
pub open spec fn is_blank(text: Seq<char>) -> bool {
    forall|i: int| 0 <= i < text.len() ==> is_space(#[trigger] text[i])
}

/// A text that holds a carriage return or a line feed.
pub open spec fn breaks_line(text: Seq<char>) -> bool {
    exists|i: int| 0 <= i < text.len() && (#[trigger] text[i] == '\r' || text[i] == '\n')
}

/// The decimal digit of a number below ten.
pub open spec fn digit(d: nat) -> char {
    (48 + d) as u8 as char
}

/// A number in decimal, without leading zeros.
pub open spec fn decimal(n: nat) -> Seq<char>
    decreases n,
{
    if n < 10 {
        seq![digit(n)]
    } else {
        decimal(n / 10).push(digit(n % 10))
    }
}

/// The texts of a list of strings.
pub open spec fn texts(strings: Seq<String>) -> Seq<Seq<char>> {
    strings.map_values(|string: String| string@)
}

/// The text of an optional string.
pub open spec fn text_of(text: Option<String>) -> Option<Seq<char>> {
    match text {
        Some(text) => Some(text@),
        None => None,
    }
}

/// The characters of a string, in order.
pub fn chars_of(text: &str) -> (chars: Vec<char>)
    ensures
        chars@ == text@,
{
    let mut chars: Vec<char> = Vec::new();
    for c in it: text.chars()
        invariant
            chars@ == text@.take(it.index() as int),
            it.seq() == text@,
    {
        chars.push(c);
    }
    chars
}

/// Whether two strings hold the same text.
pub fn text_eq(a: &str, b: &str) -> (same: bool)
    ensures
        same == (a@ == b@),
{
    a.to_owned() == b.to_owned()
}

/// The ASCII lower-case form of a character.
pub fn lower_char(c: char) -> (lower: char)
    ensures
        lower == ascii_lower(c),
{
    if 'A' <= c && c <= 'Z' {
        (c as u8 + 32) as char
    } else {
        c
    }
}

/// The characters of a string in ASCII lower case.
pub fn lowered_chars(text: &str) -> (chars: Vec<char>)
    ensures
        chars@ == lowered(text@),
{
    let source: Vec<char> = chars_of(text);
    let mut chars: Vec<char> = Vec::new();
    let mut i: usize = 0;
    while i < source.len()
        invariant
            source@ == text@,
            i <= source.len(),
            chars@ == lowered(text@).take(i as int),
        decreases source.len() - i,
    {
        chars.push(lower_char(source[i]));
        i = i + 1;
        assert(chars@ == lowered(text@).take(i as int));
    }
    assert(lowered(text@).take(i as int) == lowered(text@));
    chars
}

/// Whether two strings differ in ASCII case at most.
pub fn eq_ignoring_case(a: &str, b: &str) -> (same: bool)
    ensures
        same == same_ignoring_case(a@, b@),
{
    chars_eq(&lowered_chars(a), &lowered_chars(b))
}

/// Whether two lists hold the same characters in the same order.
fn chars_eq(a: &Vec<char>, b: &Vec<char>) -> (same: bool)
    ensures
        same == (a@ == b@),
{
    if a.len() != b.len() {
        return false;
    }
    let mut i: usize = 0;
    while i < a.len()
        invariant
            a.len() == b.len(),
            i <= a.len(),
            forall|j: int| 0 <= j < i ==> a@[j] == b@[j],
        decreases a.len() - i,
    {
        if a[i] != b[i] {
            return false;
        }
        i = i + 1;
    }
    assert(a@ == b@);
    true
}

/// Whether `needle` stands in `text` at position `at`.
fn found_at(text: &Vec<char>, needle: &Vec<char>, at: usize) -> (found: bool)
    requires
        at + needle.len() <= text.len(),
    ensures
        found == stands_at(text@, needle@, at as int),
{
    let mut i: usize = 0;
    while i < needle.len()
        invariant
            at + needle.len() <= text.len(),
            i <= needle.len(),
            forall|j: int| 0 <= j < i ==> text@[at + j] == needle@[j],
        decreases needle.len() - i,
    {
        if text[at + i] != needle[i] {
            assert(text@.subrange(at as int, at + needle.len())[i as int] != needle@[i as int]);
            return false;
        }
        i = i + 1;
    }
    assert(text@.subrange(at as int, at + needle.len()) == needle@);
    true
}

/// Whether `needle` stands somewhere in `text`.
pub fn contains_chars(text: &Vec<char>, needle: &Vec<char>) -> (found: bool)
    ensures
        found == occurs_in(text@, needle@),
{
    if needle.len() > text.len() {
        return false;
    }
    let last: usize = text.len() - needle.len();
    let mut at: usize = 0;
    while at <= last
        invariant
            last + needle.len() == text.len(),
            at <= last + 1,
            forall|k: int| 0 <= k < at ==> !#[trigger] stands_at(text@, needle@, k),
        decreases last + 1 - at,
    {
        if found_at(text, needle, at) {
            return true;
        }
        if at == last {
            return false;
        }
        at = at + 1;
    }
    false
}

/// Whether a string begins with `prefix`.
pub fn begins_with(text: &str, prefix: &str) -> (found: bool)
    ensures
        found == stands_at(text@, prefix@, 0),
{
    let text_chars: Vec<char> = chars_of(text);
    let prefix_chars: Vec<char> = chars_of(prefix);
    prefix_chars.len() <= text_chars.len() && found_at(&text_chars, &prefix_chars, 0)
}

/// Whether a string ends with `suffix`.
pub fn ends_with(text: &str, suffix: &str) -> (found: bool)
    ensures
        found == stands_at(text@, suffix@, text@.len() - suffix@.len()),
{
    let text_chars: Vec<char> = chars_of(text);
    let suffix_chars: Vec<char> = chars_of(suffix);
    suffix_chars.len() <= text_chars.len() && found_at(
        &text_chars,
        &suffix_chars,
        text_chars.len() - suffix_chars.len(),
    )
}

/// Whether a string, in ASCII lower case, begins with `prefix`.
pub fn lowered_begins_with(text: &str, prefix: &str) -> (found: bool)
    ensures
        found == stands_at(lowered(text@), prefix@, 0),
{
    let text_chars: Vec<char> = lowered_chars(text);
    let prefix_chars: Vec<char> = chars_of(prefix);
    prefix_chars.len() <= text_chars.len() && found_at(&text_chars, &prefix_chars, 0)
}

/// Whether a character is Unicode white space.
pub fn space_char(c: char) -> (space: bool)
    ensures
        space == is_space(c),
{
    let code: u32 = c as u32;
    (0x9 <= code && code <= 0xd) || code == 0x20 || code == 0x85 || code == 0xa0 || code == 0x1680
        || (0x2000 <= code && code <= 0x200a) || code == 0x2028 || code == 0x2029 || code == 0x202f
        || code == 0x205f || code == 0x3000
}

/// Whether a string is empty or holds white space only.
pub fn blank(text: &str) -> (is: bool)
    ensures
        is == is_blank(text@),
{
    let chars: Vec<char> = chars_of(text);
    let mut i: usize = 0;
    while i < chars.len()
        invariant
            chars@ == text@,
            i <= chars.len(),
            forall|j: int| 0 <= j < i ==> is_space(#[trigger] text@[j]),
        decreases chars.len() - i,
    {
        if !space_char(chars[i]) {
            assert(!is_space(text@[i as int]));
            return false;
        }
        i = i + 1;
    }
    true
}

/// Whether a string holds a carriage return or a line feed.
pub fn has_line_break(text: &str) -> (found: bool)
    ensures
        found == breaks_line(text@),
{
    let chars: Vec<char> = chars_of(text);
    let mut i: usize = 0;
    while i < chars.len()
        invariant
            chars@ == text@,
            i <= chars.len(),
            forall|j: int| 0 <= j < i ==> #[trigger] text@[j] != '\r' && text@[j] != '\n',
        decreases chars.len() - i,
    {
        if chars[i] == '\r' || chars[i] == '\n' {
            assert(text@[i as int] == '\r' || text@[i as int] == '\n');
            return true;
        }
        i = i + 1;
    }
    false
}

/// The text of a number below ten.
fn digit_text(d: u128) -> (text: &'static str)
    requires
        d < 10,
    ensures
        text@ == seq![digit(d as nat)],
{
    proof {
        reveal_strlit("0");
        reveal_strlit("1");
        reveal_strlit("2");
        reveal_strlit("3");
        reveal_strlit("4");
        reveal_strlit("5");
        reveal_strlit("6");
        reveal_strlit("7");
        reveal_strlit("8");
        reveal_strlit("9");
    }
    let text: &'static str = if d == 0 {
        "0"
    } else if d == 1 {
        "1"
    } else if d == 2 {
        "2"
    } else if d == 3 {
        "3"
    } else if d == 4 {
        "4"
    } else if d == 5 {
        "5"
    } else if d == 6 {
        "6"
    } else if d == 7 {
        "7"
    } else if d == 8 {
        "8"
    } else {
        "9"
    };
    assert(text@ =~= seq![digit(d as nat)]);
    text
}

/// A number in decimal.
pub fn decimal_text(n: u128) -> (text: String)
    ensures
        text@ == decimal(n as nat),
    decreases n,
{
    if n < 10 {
        digit_text(n).to_owned()
    } else {
        let mut text: String = decimal_text(n / 10);
        text.append(digit_text(n % 10));
        assert(text@ =~= decimal((n / 10) as nat).push(digit((n % 10) as nat)));
        text
    }
}

/// Copies a list of strings.
pub fn copy_strings(strings: &Vec<String>) -> (copy: Vec<String>)
    ensures
        texts(copy@) == texts(strings@),
{
    let mut copy: Vec<String> = Vec::new();
    let mut i: usize = 0;
    while i < strings.len()
        invariant
            i <= strings.len(),
            copy@.len() == i,
            forall|j: int| 0 <= j < i ==> (#[trigger] copy@[j])@ == strings@[j]@,
        decreases strings.len() - i,
    {
        copy.push(strings[i].clone());
        i = i + 1;
    }
    assert(texts(copy@) =~= texts(strings@));
    copy
}

/// Copies an optional string.
pub fn copy_text(text: &Option<String>) -> (copy: Option<String>)
    ensures
        text_of(copy) == text_of(*text),
{
    match text {
        Some(text) => Some(text.clone()),
        None => None,
    }
}

/// Two letters that differ in ASCII case only.
pub open spec fn case_pair(upper: char, lower: char) -> bool {
    'A' <= upper <= 'Z' && lower as int == upper as int + 32
}

/// Texts are the same in any case exactly where they are equally long, and at
/// each place hold the same character or the two cases of one ASCII letter.
pub proof fn law_case_is_ignored(a: Seq<char>, b: Seq<char>)
    ensures
        same_ignoring_case(a, b) <==> a.len() == b.len() && forall|i: int|
            0 <= i < a.len() ==> {
                ||| #[trigger] a[i] == b[i]
                ||| case_pair(a[i], b[i])
                ||| case_pair(b[i], a[i])
            },
{
    if same_ignoring_case(a, b) {
        assert(lowered(a).len() == a.len());
        assert forall|i: int| 0 <= i < a.len() implies ({
            ||| #[trigger] a[i] == b[i]
            ||| case_pair(a[i], b[i])
            ||| case_pair(b[i], a[i])
        }) by {
            assert(lowered(a)[i] == lowered(b)[i]);
        }
    }
    if a.len() == b.len() && forall|i: int|
        0 <= i < a.len() ==> {
            ||| #[trigger] a[i] == b[i]
            ||| case_pair(a[i], b[i])
            ||| case_pair(b[i], a[i])
        } {
        assert forall|i: int| 0 <= i < a.len() implies lowered(a)[i] == lowered(b)[i] by {
            assert(a[i] == b[i] || case_pair(a[i], b[i]) || case_pair(b[i], a[i]));
        }
        assert(lowered(a) =~= lowered(b));
    }
}

/// A text in lower case is as long as it was, holds no upper-case ASCII letter,
/// and is the same text in any case.
pub proof fn law_lowered_is_the_same_text(text: Seq<char>)
    ensures
        lowered(text).len() == text.len(),
        forall|i: int| 0 <= i < text.len() ==> !('A' <= #[trigger] lowered(text)[i] <= 'Z'),
        same_ignoring_case(lowered(text), text),
{
    law_case_is_ignored(lowered(text), text);
    assert forall|i: int| 0 <= i < text.len() implies ({
        ||| #[trigger] lowered(text)[i] == text[i]
        ||| case_pair(lowered(text)[i], text[i])
        ||| case_pair(text[i], lowered(text)[i])
    }) by {}
}

/// A needle stands at a place exactly where the text is what comes before it,
/// the needle, and what comes after it.
pub proof fn law_standing_splits_the_text(text: Seq<char>, needle: Seq<char>, at: int)
    ensures
        stands_at(text, needle, at) <==> exists|before: Seq<char>, after: Seq<char>|
            before.len() == at && text == #[trigger] (before + needle + after),
{
    if stands_at(text, needle, at) {
        let before = text.take(at);
        let after = text.skip(at + needle.len());
        let found = text.subrange(at, at + needle.len());
        assert(text =~= before + found + after);
        assert(before.len() == at && text == before + needle + after);
    }
    if exists|before: Seq<char>, after: Seq<char>|
        before.len() == at && text == #[trigger] (before + needle + after) {
        let (before, after) = choose|before: Seq<char>, after: Seq<char>|
            before.len() == at && text == #[trigger] (before + needle + after);
        assert(text.subrange(at, at + needle.len()) =~= needle);
    }
}

/// A needle occurs in a text exactly where the text can be cut into something,
/// the needle, and something.
pub proof fn law_occurrence_splits_the_text(text: Seq<char>, needle: Seq<char>)
    ensures
        occurs_in(text, needle) <==> exists|before: Seq<char>, after: Seq<char>|
            text == #[trigger] (before + needle + after),
{
    if occurs_in(text, needle) {
        let at = choose|at: int| #[trigger] stands_at(text, needle, at);
        law_standing_splits_the_text(text, needle, at);
    }
    if exists|before: Seq<char>, after: Seq<char>| text == #[trigger] (before + needle + after) {
        let (before, after) = choose|before: Seq<char>, after: Seq<char>|
            text == #[trigger] (before + needle + after);
        law_standing_splits_the_text(text, needle, before.len() as int);
        assert(stands_at(text, needle, before.len() as int));
    }
}

/// A text is blank exactly where its parts are; one character is blank where it
/// is white space: a tab, a line break of any kind, or a space of any width.
pub proof fn law_blank_in_every_part(a: Seq<char>, b: Seq<char>, c: char)
    ensures
        is_blank(Seq::<char>::empty()),
        is_blank(a + b) <==> is_blank(a) && is_blank(b),
        is_blank(seq![c]) <==> seq![
            '\t',
            '\n',
            '\u{b}',
            '\u{c}',
            '\r',
            ' ',
            '\u{85}',
            '\u{a0}',
            '\u{1680}',
            '\u{2000}',
            '\u{2001}',
            '\u{2002}',
            '\u{2003}',
            '\u{2004}',
            '\u{2005}',
            '\u{2006}',
            '\u{2007}',
            '\u{2008}',
            '\u{2009}',
            '\u{200a}',
            '\u{2028}',
            '\u{2029}',
            '\u{202f}',
            '\u{205f}',
            '\u{3000}',
        ].contains(c),
{
    if is_blank(a + b) {
        assert forall|i: int| 0 <= i < a.len() implies is_space(#[trigger] a[i]) by {
            assert((a + b)[i] == a[i]);
        }
        assert forall|i: int| 0 <= i < b.len() implies is_space(#[trigger] b[i]) by {
            assert((a + b)[a.len() + i] == b[i]);
        }
    }
    if is_blank(a) && is_blank(b) {
        assert forall|i: int| 0 <= i < (a + b).len() implies is_space(#[trigger] (a + b)[i]) by {
            if i < a.len() {
                assert((a + b)[i] == a[i]);
            } else {
                assert((a + b)[i] == b[i - a.len()]);
            }
        }
    }
    let spaces = seq![
        '\t', '\n', '\u{b}', '\u{c}', '\r', ' ', '\u{85}', '\u{a0}', '\u{1680}', '\u{2000}',
        '\u{2001}', '\u{2002}', '\u{2003}', '\u{2004}', '\u{2005}', '\u{2006}', '\u{2007}',
        '\u{2008}', '\u{2009}', '\u{200a}', '\u{2028}', '\u{2029}', '\u{202f}', '\u{205f}',
        '\u{3000}',
    ];
    assert(seq![c][0] == c);
    assert(is_blank(seq![c]) == is_space(c));
    if is_space(c) {
        let code = c as u32;
        let i: int = if code <= 0xd {
            code as int - 9
        } else if code == 0x20 {
            5
        } else if code == 0x85 {
            6
        } else if code == 0xa0 {
            7
        } else if code == 0x1680 {
            8
        } else if code <= 0x200a {
            code as int - 0x2000 + 9
        } else if code == 0x2028 {
            20
        } else if code == 0x2029 {
            21
        } else if code == 0x202f {
            22
        } else if code == 0x205f {
            23
        } else {
            24
        };
        assert(spaces[i] == c);
        assert(spaces.contains(c));
    }
    if spaces.contains(c) {
        let i = choose|i: int| 0 <= i < spaces.len() && spaces[i] == c;
        assert(is_space(spaces[i]));
    }
}

/// A text breaks a line exactly where one of its parts does; of the single
/// characters only a carriage return and a line feed do.
pub proof fn law_line_breaks_in_any_part(a: Seq<char>, b: Seq<char>, c: char)
    ensures
        !breaks_line(Seq::<char>::empty()),
        breaks_line(a + b) <==> breaks_line(a) || breaks_line(b),
        breaks_line(seq![c]) <==> c == '\r' || c == '\n',
{
    if breaks_line(a + b) {
        let i = choose|i: int|
            0 <= i < (a + b).len() && (#[trigger] (a + b)[i] == '\r' || (a + b)[i] == '\n');
        if i < a.len() {
            assert(a[i] == (a + b)[i]);
        } else {
            assert(b[i - a.len()] == (a + b)[i]);
        }
    }
    if breaks_line(a) {
        let i = choose|i: int| 0 <= i < a.len() && (#[trigger] a[i] == '\r' || a[i] == '\n');
        assert((a + b)[i] == a[i]);
    }
    if breaks_line(b) {
        let i = choose|i: int| 0 <= i < b.len() && (#[trigger] b[i] == '\r' || b[i] == '\n');
        assert((a + b)[a.len() + i] == b[i]);
    }
    assert(seq![c][0] == c);
}

/// The number that a row of decimal digits writes.
pub open spec fn number_in(digits: Seq<char>) -> int
    decreases digits.len(),
{
    if digits.len() == 0 {
        0
    } else {
        10 * number_in(digits.drop_last()) + (digits.last() as int - '0' as int)
    }
}

/// The text of a number reads back as the number: it is made of decimal digits,
/// and begins with a zero only where it is nothing but that.
pub proof fn law_decimal_reads_back(n: nat)
    ensures
        number_in(decimal(n)) == n,
        decimal(n).len() > 0,
        forall|i: int| 0 <= i < decimal(n).len() ==> '0' <= #[trigger] decimal(n)[i] <= '9',
        decimal(n)[0] == '0' ==> decimal(n).len() == 1,
    decreases n,
{
    let text = decimal(n);
    let last = digit(n % 10);
    assert('0' <= last <= '9' && last as int - '0' as int == n % 10);
    if n < 10 {
        assert(text.drop_last() =~= Seq::<char>::empty());
        assert(number_in(text.drop_last()) == 0);
        assert(text[0] == last);
    } else {
        law_decimal_reads_back(n / 10);
        assert(text.drop_last() =~= decimal(n / 10));
        assert forall|i: int| 0 <= i < text.len() implies '0' <= #[trigger] text[i] <= '9' by {
            if i < text.len() - 1 {
                assert(text[i] == decimal(n / 10)[i]);
            }
        }
        assert(text[0] == decimal(n / 10)[0]);
        if text[0] == '0' {
            assert(decimal(n / 10).len() == 1);
            assert(decimal(n / 10).drop_last() =~= Seq::<char>::empty());
            assert(number_in(decimal(n / 10).drop_last()) == 0);
            assert(number_in(decimal(n / 10)) == 0);
        }
    }
}

/// The texts of a list stand at the places of their strings, and an optional
/// string is there with its text or not at all.
pub proof fn law_strings_are_their_texts(strings: Seq<String>, string: String)
    ensures
        texts(strings).len() == strings.len(),
        forall|i: int| 0 <= i < strings.len() ==> #[trigger] texts(strings)[i] == strings[i]@,
        text_of(Some(string)) == Some(string@),
        text_of(None) is None,
{
}

} // verus!
