//! The JSONPath crate's queries, as the library uses them.

use crate::json::JsonView;
use crate::serde_bridge::{json_of, values_view};
use crate::text::{ends_with, stands_at};
use serde_json::Value;
use serde_json_path::JsonPath;
use vstd::prelude::*;
use vstd::string::*;

verus! {

/// A query of `serde_json_path`.
#[verifier::external_type_specification]
#[verifier::external_body]
pub struct ExJsonPath(serde_json_path::JsonPath);

/// The parse error of `serde_json_path`.
#[verifier::external_type_specification]
#[verifier::external_body]
pub struct ExPathParseError(serde_json_path::ParseError);

/// What `JsonPath::parse` reads from a text: the query, or the message of the
/// error.
pub uninterp spec fn parsed_path(text: Seq<char>) -> Result<serde_json_path::JsonPath, Seq<char>>;

/// The message of a parse error of the JSONPath crate.
pub uninterp spec fn path_error_message(error: serde_json_path::ParseError) -> Seq<char>;

/// The documents that `JsonPath::query` finds in a document, in order.
pub uninterp spec fn path_matches(path: serde_json_path::JsonPath, document: JsonView) -> Seq<
    JsonView,
>;

/// A query that finds the whole document and nothing else.
pub open spec fn finds_root(path: serde_json_path::JsonPath) -> bool {
    forall|document: JsonView| #[trigger] path_matches(path, document) == seq![document]
}

/// A text that ends in `\u`, or in the `D` after it: an escape that was cut.
/// None of them is a query.
pub open spec fn cuts_escape(text: Seq<char>) -> bool {
    ||| stands_at(text, "\\u"@, text.len() - "\\u"@.len())
    ||| stands_at(text, "\\uD"@, text.len() - "\\uD"@.len())
    ||| stands_at(text, "\\ud"@, text.len() - "\\ud"@.len())
}

/// Whether a text ends in an escape that was cut.
pub fn ends_in_escape(text: &str) -> (cut: bool)
    ensures
        cut == cuts_escape(text@),
{
    ends_with(text, "\\u") || ends_with(text, "\\uD") || ends_with(text, "\\ud")
}

/// Calls `JsonPath::parse`. The outcome depends on the text alone; `$` is a
/// query without segments, and finds the root; no query holds a NUL. Where a
/// text ends in a cut escape inside a quoted name, the crate looks for more
/// input, and panics.
#[verifier::external_body]
pub(crate) fn parse_path(text: &str) -> (parsed: Result<JsonPath, serde_json_path::ParseError>)
    requires
        !cuts_escape(text@),
    ensures
        match parsed {
            Ok(path) => parsed_path(text@) == Ok::<JsonPath, Seq<char>>(path),
            Err(error) => parsed_path(text@) == Err::<JsonPath, Seq<char>>(
                path_error_message(error),
            ),
        },
        text@ == "$"@ ==> parsed is Ok && finds_root(parsed->Ok_0),
        text@.contains('\0') ==> parsed is Err,
{
    JsonPath::parse(text)
}

/// Renders a parse error of the JSONPath crate through its `Display`.
#[verifier::external_body]
pub(crate) fn path_error_text(error: &serde_json_path::ParseError) -> (text: String)
    ensures
        text@ == path_error_message(*error),
{
    error.to_string()
}

/// Calls `JsonPath::query` and copies what it finds. What it finds depends on
/// the query and the document alone.
#[verifier::external_body]
pub(crate) fn query_path(path: &JsonPath, value: &Value) -> (found: Vec<Value>)
    ensures
        values_view(found@) == path_matches(*path, json_of(*value)),
{
    path.query(value).all().into_iter().cloned().collect()
}

/// An escape is cut exactly where the last two characters are a backslash and a
/// `u`, or the last three are those and a `D` or a `d`.
pub proof fn law_cut_escape_ends_the_text(text: Seq<char>)
    ensures
        cuts_escape(text) <==> {
            let end = text.len() as int;
            ||| end >= 2 && text[end - 2] == '\\' && text[end - 1] == 'u'
            ||| end >= 3 && text[end - 3] == '\\' && text[end - 2] == 'u' && (text[end - 1] == 'D'
                || text[end - 1] == 'd')
        },
{
    reveal_strlit("\\u");
    reveal_strlit("\\uD");
    reveal_strlit("\\ud");
    let end = text.len() as int;
    let (cut, upper, lower) = ("\\u"@, "\\uD"@, "\\ud"@);
    assert(cut.len() == 2 && cut[0] == '\\' && cut[1] == 'u');
    assert(upper.len() == 3 && upper[0] == '\\' && upper[1] == 'u' && upper[2] == 'D');
    assert(lower.len() == 3 && lower[0] == '\\' && lower[1] == 'u' && lower[2] == 'd');
    if end >= 2 {
        let tail = text.subrange(end - 2, end);
        assert(tail[0] == text[end - 2] && tail[1] == text[end - 1]);
        assert(tail == cut <==> tail[0] == '\\' && tail[1] == 'u') by {
            if tail[0] == '\\' && tail[1] == 'u' {
                assert(tail =~= cut);
            }
        }
    }
    if end >= 3 {
        let tail = text.subrange(end - 3, end);
        assert(tail[0] == text[end - 3] && tail[1] == text[end - 2] && tail[2] == text[end - 1]);
        if tail[0] == '\\' && tail[1] == 'u' && tail[2] == 'D' {
            assert(tail =~= upper);
        }
        if tail[0] == '\\' && tail[1] == 'u' && tail[2] == 'd' {
            assert(tail =~= lower);
        }
    }
}

} // verus!
