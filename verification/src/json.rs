//! JSON documents: the library's own tree and its model.

use crate::pairs::{
    collated, law_collated_names_ascend, lemma_ascending_names_differ, lemma_place, names_ascend,
    pairs_view, place_of, with_pair,
};
use crate::serde_bridge::{
    entries_map, is_empty_object, json_error_text, json_of, json_text, map_contents, map_entries,
    map_insert, map_new, no_fields, number_from_i64, number_from_u64, number_i64, number_u64,
    number_view, open_value, parse_value, parsed_json, reads_as, reads_back, seal_value,
    value_bytes, values_view, ValueNode,
};
use crate::text::{text_eq, texts};
use vstd::prelude::*;
use vstd::string::*;

verus! {

/// What a JSON document is: an integer keeps its value, an object is a map
/// from names to documents.
pub enum JsonView {
    Null,
    Bool(bool),
    Int(int),
    /// A number that is no 64-bit integer.
    Real(serde_json::Number),
    Text(Seq<char>),
    Items(Seq<JsonView>),
    Fields(Map<Seq<char>, JsonView>),
}

/// A JSON document. The entries of an object stand in any order; of two
/// entries with one name the later counts.
#[derive(Debug, PartialEq)]
pub enum Json {
    Null,
    Bool(bool),
    Unsigned(u64),
    Negative(i64),
    Number(serde_json::Number),
    Text(String),
    Items(Vec<Json>),
    Fields(Vec<(String, Json)>),
}

/// The documents of the first `n` items.
pub open spec fn items_view(items: Seq<Json>, n: nat) -> Seq<JsonView>
    decreases items, n,
{
    if n == 0 || n > items.len() {
        Seq::empty()
    } else {
        items_view(items, (n - 1) as nat).push(json_view(items[n - 1]))
    }
}

/// The object that the first `n` entries make.
pub open spec fn fields_view(entries: Seq<(String, Json)>, n: nat) -> Map<Seq<char>, JsonView>
    decreases entries, n,
{
    if n == 0 || n > entries.len() {
        Map::empty()
    } else {
        fields_view(entries, (n - 1) as nat).insert(
            entries[n - 1].0@,
            json_view(entries[n - 1].1),
        )
    }
}

/// The document that a tree holds.
pub open spec fn json_view(json: Json) -> JsonView
    decreases json, 0nat,
{
    match json {
        Json::Null => JsonView::Null,
        Json::Bool(flag) => JsonView::Bool(flag),
        Json::Unsigned(n) => JsonView::Int(n as int),
        Json::Negative(n) => JsonView::Int(n as int),
        Json::Number(number) => number_view(number),
        Json::Text(text) => JsonView::Text(text@),
        Json::Items(items) => JsonView::Items(items_view(items@, items@.len())),
        Json::Fields(entries) => JsonView::Fields(fields_view(entries@, entries@.len())),
    }
}

impl View for Json {
    type V = JsonView;

    open spec fn view(&self) -> JsonView {
        json_view(*self)
    }
}

/// The object that a list of entries makes.
pub open spec fn fields_of(entries: Seq<(String, Json)>) -> Map<Seq<char>, JsonView> {
    fields_view(entries, entries.len())
}

/// The documents of a list of items.
pub open spec fn documents(items: Seq<Json>) -> Seq<JsonView> {
    items_view(items, items.len())
}

/// A text, or null.
pub open spec fn text_or_null(text: Option<Seq<char>>) -> JsonView {
    match text {
        Some(text) => JsonView::Text(text),
        None => JsonView::Null,
    }
}

/// A document, or null.
pub open spec fn json_or_null(json: Option<JsonView>) -> JsonView {
    match json {
        Some(json) => json,
        None => JsonView::Null,
    }
}

/// The text of an optional string slice.
pub open spec fn slice_text(text: Option<&str>) -> Option<Seq<char>> {
    match text {
        Some(text) => Some(text@),
        None => None,
    }
}

/// The document of an optional tree.
pub open spec fn tree_json(json: Option<&Json>) -> Option<JsonView> {
    match json {
        Some(json) => Some(json@),
        None => None,
    }
}

/// The document of an optional tree that is held.
pub open spec fn tree_of(json: Option<Json>) -> Option<JsonView> {
    match json {
        Some(json) => Some(json@),
        None => None,
    }
}

/// Adds an entry to an object.
pub fn put(entries: &mut Vec<(String, Json)>, name: &str, value: Json)
    ensures
        fields_of(final(entries)@) == fields_of(old(entries)@).insert(name@, value@),
{
    let ghost before = entries@;
    let entry: (String, Json) = (name.to_owned(), value);
    entries.push(entry);
    proof {
        lemma_fields_view_push(before, entry, before.len());
    }
}

/// A string as a document.
pub fn text_json(text: &str) -> (json: Json)
    ensures
        json@ == JsonView::Text(text@),
{
    Json::Text(text.to_owned())
}

/// An optional string as a document.
pub fn optional_text_json(text: Option<&str>) -> (json: Json)
    ensures
        json@ == text_or_null(slice_text(text)),
{
    match text {
        Some(text) => text_json(text),
        None => Json::Null,
    }
}

/// An optional document as a document.
pub fn optional_json(json: Option<&Json>) -> (copy: Json)
    ensures
        copy@ == json_or_null(tree_json(json)),
{
    match json {
        Some(json) => json.clone(),
        None => Json::Null,
    }
}

/// The array of a list of documents.
pub fn items_json(items: &Vec<Json>) -> (json: Json)
    ensures
        json@ == JsonView::Items(documents(items@)),
{
    Json::Items(copy_items(items))
}

/// The object that the first `n` pairs make, each value a string; of two pairs
/// with one name the later counts.
pub open spec fn strings_fields(pairs: Seq<(Seq<char>, Seq<char>)>, n: nat) -> Map<
    Seq<char>,
    JsonView,
>
    decreases n,
{
    if n == 0 || n > pairs.len() {
        Map::empty()
    } else {
        strings_fields(pairs, (n - 1) as nat).insert(
            pairs[n - 1].0,
            JsonView::Text(pairs[n - 1].1),
        )
    }
}

/// The object of a list of pairs.
pub fn strings_json(pairs: &Vec<(String, String)>) -> (json: Json)
    ensures
        json@ == JsonView::Fields(strings_fields(pairs_view(pairs@), pairs@.len())),
{
    let mut entries: Vec<(String, Json)> = Vec::new();
    let mut i: usize = 0;
    while i < pairs.len()
        invariant
            i <= pairs.len(),
            fields_of(entries@) == strings_fields(pairs_view(pairs@), i as nat),
        decreases pairs.len() - i,
    {
        let pair: &(String, String) = &pairs[i];
        put(&mut entries, pair.0.as_str(), text_json(pair.1.as_str()));
        i = i + 1;
    }
    Json::Fields(entries)
}

/// Where no name stands twice, the object holds every pair of the list.
pub proof fn law_every_pair_is_shown(pairs: Seq<(Seq<char>, Seq<char>)>, n: nat, i: int)
    requires
        0 <= i < n <= pairs.len(),
        forall|j: int, k: int|
            0 <= j < k < pairs.len() ==> #[trigger] pairs[j].0 != #[trigger] pairs[k].0,
    ensures
        field_of(JsonView::Fields(strings_fields(pairs, n)), pairs[i].0) == Some(
            JsonView::Text(pairs[i].1),
        ),
    decreases n,
{
    if i < n - 1 {
        law_every_pair_is_shown(pairs, (n - 1) as nat, i);
        assert(pairs[i].0 != pairs[n - 1].0);
    }
}

/// Every name of the object is one of the list.
proof fn lemma_name_is_listed(pairs: Seq<(Seq<char>, Seq<char>)>, n: nat, name: Seq<char>)
    requires
        n <= pairs.len(),
        strings_fields(pairs, n).dom().contains(name),
    ensures
        exists|i: int| 0 <= i < n && #[trigger] pairs[i].0 == name,
    decreases n,
{
    if n > 0 && pairs[n - 1].0 != name {
        lemma_name_is_listed(pairs, (n - 1) as nat, name);
    }
}

/// One more pair at its place adds its entry to the object.
proof fn lemma_object_with_pair(
    pairs: Seq<(Seq<char>, Seq<char>)>,
    pair: (Seq<char>, Seq<char>),
)
    requires
        names_ascend(pairs),
        names_ascend(with_pair(pairs, pair)),
    ensures
        strings_fields(with_pair(pairs, pair), with_pair(pairs, pair).len()) == strings_fields(
            pairs,
            pairs.len(),
        ).insert(pair.0, JsonView::Text(pair.1)),
{
    let at = place_of(pairs, pair.0);
    let after = with_pair(pairs, pair);
    let replaced = at < pairs.len() && pairs[at].0 == pair.0;
    lemma_place(pairs, pair.0);
    lemma_ascending_names_differ(pairs);
    lemma_ascending_names_differ(after);
    let got = strings_fields(after, after.len());
    let want = strings_fields(pairs, pairs.len()).insert(pair.0, JsonView::Text(pair.1));
    assert(after[at] == pair);
    law_every_pair_is_shown(after, after.len(), at);
    assert forall|name: Seq<char>| #[trigger] got.dom().contains(name) implies want.dom().contains(
        name,
    ) && got[name] == want[name] by {
        lemma_name_is_listed(after, after.len(), name);
        let i = choose|i: int| 0 <= i < after.len() && #[trigger] after[i].0 == name;
        if i != at {
            let j = if replaced || i < at {
                i
            } else {
                i - 1
            };
            assert(after[i] == pairs[j]);
            law_every_pair_is_shown(after, after.len(), i);
            law_every_pair_is_shown(pairs, pairs.len(), j);
            if i < at {
                assert(after[i].0 != after[at].0);
            } else {
                assert(after[at].0 != after[i].0);
            }
        }
    }
    assert forall|name: Seq<char>| #[trigger] want.dom().contains(name) implies got.dom().contains(
        name,
    ) by {
        if name != pair.0 {
            lemma_name_is_listed(pairs, pairs.len(), name);
            let j = choose|j: int| 0 <= j < pairs.len() && #[trigger] pairs[j].0 == name;
            let i = if replaced || j < at {
                j
            } else {
                j + 1
            };
            assert(after[i] == pairs[j]);
            law_every_pair_is_shown(after, after.len(), i);
        }
    }
    assert(got =~= want);
}

/// The order of a list does not change its object: collated, it holds the same
/// names with the same values.
pub proof fn law_collated_object_is_the_same(pairs: Seq<(Seq<char>, Seq<char>)>, n: nat)
    requires
        n <= pairs.len(),
    ensures
        strings_fields(collated(pairs, n), collated(pairs, n).len()) == strings_fields(pairs, n),
    decreases n,
{
    if n > 0 {
        law_collated_object_is_the_same(pairs, (n - 1) as nat);
        law_collated_names_ascend(pairs, (n - 1) as nat);
        law_collated_names_ascend(pairs, n);
        lemma_object_with_pair(collated(pairs, (n - 1) as nat), pairs[n - 1]);
    }
}

/// The strings among the items of a list, in order.
pub open spec fn strings_among(items: Seq<JsonView>) -> Seq<Seq<char>>
    decreases items.len(),
{
    if items.len() == 0 {
        Seq::empty()
    } else {
        match items.last() {
            JsonView::Text(text) => strings_among(items.drop_last()).push(text),
            _ => strings_among(items.drop_last()),
        }
    }
}

/// The document under a name of an object; an object that lacks the name, and
/// anything that is no object, has none.
pub open spec fn field_of(json: JsonView, name: Seq<char>) -> Option<JsonView> {
    match json {
        JsonView::Fields(fields) => if fields.dom().contains(name) {
            Some(fields[name])
        } else {
            None
        },
        _ => None,
    }
}

/// Looks up a name of an object.
pub fn field<'a>(json: &'a Json, name: &str) -> (found: Option<&'a Json>)
    ensures
        tree_json(found) == field_of(json@, name@),
{
    match json {
        Json::Fields(entries) => {
            let mut found: Option<&'a Json> = None;
            let mut i: usize = 0;
            while i < entries.len()
                invariant
                    i <= entries.len(),
                    tree_json(found) == field_of(
                        JsonView::Fields(fields_view(entries@, i as nat)),
                        name@,
                    ),
                decreases entries.len() - i,
            {
                let entry: &'a (String, Json) = &entries[i];
                if text_eq(entry.0.as_str(), name) {
                    found = Some(&entry.1);
                }
                i = i + 1;
            }
            found
        },
        _ => None,
    }
}

/// Appends the strings among the items of a list.
pub fn append_strings(items: &Vec<Json>, strings: &mut Vec<String>)
    ensures
        texts(final(strings)@) == texts(old(strings)@) + strings_among(documents(items@)),
{
    let ghost before = texts(strings@);
    let mut i: usize = 0;
    assert(texts(strings@) =~= before + strings_among(items_view(items@, 0)));
    while i < items.len()
        invariant
            i <= items.len(),
            texts(strings@) == before + strings_among(items_view(items@, i as nat)),
        decreases items.len() - i,
    {
        proof {
            lemma_items_view(items@, i as nat);
            lemma_items_view(items@, (i + 1) as nat);
            assert(items_view(items@, (i + 1) as nat).drop_last() =~= items_view(items@, i as nat));
            assert(items_view(items@, (i + 1) as nat).last() == items@[i as int]@);
        }
        let ghost so_far = strings@;
        match &items[i] {
            Json::Text(text) => {
                strings.push(text.clone());
                assert(texts(strings@) =~= texts(so_far).push(text@));
                assert(texts(strings@) =~= before + strings_among(
                    items_view(items@, (i + 1) as nat),
                ));
            },
            _ => {},
        }
        i = i + 1;
    }
}

/// Each item of a list stands for the document at its place.
pub proof fn lemma_items_view(items: Seq<Json>, n: nat)
    requires
        n <= items.len(),
    ensures
        items_view(items, n).len() == n,
        forall|i: int| 0 <= i < n ==> #[trigger] items_view(items, n)[i] == json_view(items[i]),
    decreases n,
{
    if n > 0 {
        lemma_items_view(items, (n - 1) as nat);
    }
}

/// Later items do not change the documents of the first ones.
proof fn lemma_items_view_push(items: Seq<Json>, item: Json, n: nat)
    requires
        n <= items.len(),
    ensures
        items_view(items.push(item), n) == items_view(items, n),
    decreases n,
{
    if n > 0 {
        lemma_items_view_push(items, item, (n - 1) as nat);
    }
}

/// One more item adds its document to the list.
pub proof fn lemma_documents_push(items: Seq<Json>, item: Json)
    ensures
        documents(items.push(item)) == documents(items).push(item@),
{
    lemma_items_view_push(items, item, items.len());
}

/// Later entries do not change the object that the first ones make.
pub proof fn lemma_fields_view_push(entries: Seq<(String, Json)>, entry: (String, Json), n: nat)
    requires
        n <= entries.len(),
    ensures
        fields_view(entries.push(entry), n) == fields_view(entries, n),
    decreases n,
{
    if n > 0 {
        lemma_fields_view_push(entries, entry, (n - 1) as nat);
    }
}

/// The object that a list of values makes has finitely many names, and holds
/// each entry whose name stands nowhere else in the list.
proof fn lemma_entries_map(entries: Seq<(String, serde_json::Value)>, n: nat)
    requires
        n <= entries.len(),
        forall|i: int, j: int|
            0 <= i < j < entries.len() ==> #[trigger] entries[i].0@ != #[trigger] entries[j].0@,
    ensures
        entries_map(entries, n).dom().finite(),
        forall|i: int|
            0 <= i < n ==> {
                &&& entries_map(entries, n).dom().contains(#[trigger] entries[i].0@)
                &&& entries_map(entries, n)[entries[i].0@] == json_of(entries[i].1)
            },
    decreases n,
{
    if n > 0 {
        lemma_entries_map(entries, (n - 1) as nat);
    }
}

/// Reads a value of the JSON crate into a tree.
pub fn from_value(value: serde_json::Value) -> (json: Json)
    ensures
        json@ == json_of(value),
    decreases json_of(value), 1nat,
{
    let ghost document = json_of(value);
    match open_value(value) {
        ValueNode::Null => Json::Null,
        ValueNode::Bool(flag) => Json::Bool(flag),
        ValueNode::Number(number) => {
            match number.as_u64() {
                Some(n) => Json::Unsigned(n),
                None => match number.as_i64() {
                    Some(n) => Json::Negative(n),
                    None => Json::Number(number),
                },
            }
        },
        ValueNode::Text(text) => Json::Text(text),
        ValueNode::Items(values) => {
            let items: Vec<Json> = from_values(values, Ghost(document));
            Json::Items(items)
        },
        ValueNode::Fields(map) => {
            let entries: Vec<(String, Json)> = from_entries(map_entries(map), Ghost(document));
            Json::Fields(entries)
        },
    }
}

/// Reads the values of an array, in order.
fn from_values(
    values: Vec<serde_json::Value>,
    Ghost(document): Ghost<JsonView>,
) -> (items: Vec<Json>)
    requires
        document == JsonView::Items(values_view(values@)),
    ensures
        items_view(items@, items@.len()) == values_view(values@),
    decreases document, 0nat,
{
    let mut items: Vec<Json> = Vec::new();
    for value in it: values
        invariant
            it.seq() == values@,
            document == JsonView::Items(values_view(values@)),
            items@.len() == it.index(),
            items_view(items@, items@.len()) == values_view(values@).take(it.index() as int),
    {
        let ghost before = items@;
        proof {
            assert(values_view(values@)[it.index() as int] == json_of(value));
            assert(decreases_to!(document => document->Items_0));
            assert(decreases_to!(document->Items_0 => document->Items_0[it.index() as int]));
        }
        let item: Json = from_value(value);
        items.push(item);
        proof {
            lemma_items_view_push(before, item, before.len());
            assert(items_view(items@, items@.len()) =~= values_view(values@).take(it.index() + 1));
        }
    }
    assert(values_view(values@).take(values@.len() as int) =~= values_view(values@));
    items
}

/// Reads the entries of an object.
fn from_entries(
    values: Vec<(String, serde_json::Value)>,
    Ghost(document): Ghost<JsonView>,
) -> (entries: Vec<(String, Json)>)
    requires
        document == JsonView::Fields(entries_map(values@, values@.len())),
        forall|i: int, j: int|
            0 <= i < j < values@.len() ==> #[trigger] values@[i].0@ != #[trigger] values@[j].0@,
    ensures
        fields_view(entries@, entries@.len()) == entries_map(values@, values@.len()),
    decreases document, 0nat,
{
    let mut entries: Vec<(String, Json)> = Vec::new();
    proof {
        lemma_entries_map(values@, values@.len());
    }
    for entry in it: values
        invariant
            it.seq() == values@,
            document == JsonView::Fields(entries_map(values@, values@.len())),
            entries_map(values@, values@.len()).dom().finite(),
            forall|i: int|
                0 <= i < values@.len() ==> {
                    &&& entries_map(values@, values@.len()).dom().contains(#[trigger] values@[i].0@)
                    &&& entries_map(values@, values@.len())[values@[i].0@] == json_of(values@[i].1)
                },
            entries@.len() == it.index(),
            fields_view(entries@, entries@.len()) == entries_map(values@, it.index() as nat),
    {
        let ghost before = entries@;
        proof {
            let fields = entries_map(values@, values@.len());
            let name = values@[it.index() as int].0@;
            assert(fields.dom().contains(name));
            assert(decreases_to!(document => document->Fields_0));
            assert(decreases_to!(fields => fields[name]));
        }
        let json: Json = from_value(entry.1);
        let read: (String, Json) = (entry.0, json);
        entries.push(read);
        proof {
            lemma_fields_view_push(before, read, before.len());
        }
    }
    entries
}

/// Writes a tree as a value of the JSON crate.
pub fn to_value(json: &Json) -> (value: serde_json::Value)
    ensures
        json_of(value) == json@,
    decreases json, 1nat,
{
    match json {
        Json::Null => seal_value(ValueNode::Null),
        Json::Bool(flag) => seal_value(ValueNode::Bool(*flag)),
        Json::Unsigned(n) => seal_value(ValueNode::Number(number_from_u64(*n))),
        Json::Negative(n) => seal_value(ValueNode::Number(number_from_i64(*n))),
        Json::Number(number) => seal_value(ValueNode::Number(number.clone())),
        Json::Text(text) => seal_value(ValueNode::Text(text.clone())),
        Json::Items(items) => seal_value(ValueNode::Items(to_values(items))),
        Json::Fields(entries) => seal_value(ValueNode::Fields(to_map(entries))),
    }
}

/// Writes the items of an array, in order.
fn to_values(items: &Vec<Json>) -> (values: Vec<serde_json::Value>)
    ensures
        values_view(values@) == items_view(items@, items@.len()),
    decreases items, 0nat,
{
    let mut values: Vec<serde_json::Value> = Vec::new();
    let mut i: usize = 0;
    while i < items.len()
        invariant
            i <= items.len(),
            values@.len() == i,
            values_view(values@) == items_view(items@, i as nat),
        decreases items.len() - i,
    {
        values.push(to_value(&items[i]));
        i = i + 1;
        assert(values_view(values@) =~= items_view(items@, i as nat));
    }
    values
}

/// Writes the entries of an object.
fn to_map(entries: &Vec<(String, Json)>) -> (map: serde_json::Map<String, serde_json::Value>)
    ensures
        map_contents(map) == fields_view(entries@, entries@.len()),
    decreases entries, 0nat,
{
    let mut map: serde_json::Map<String, serde_json::Value> = map_new();
    let mut i: usize = 0;
    while i < entries.len()
        invariant
            i <= entries.len(),
            map_contents(map) == fields_view(entries@, i as nat),
        decreases entries.len() - i,
    {
        let entry: &(String, Json) = &entries[i];
        assert(decreases_to!(entries => entries@[i as int]));
        assert(decreases_to!(entries@[i as int] => entries@[i as int].1));
        map_insert(&mut map, entry.0.clone(), to_value(&entry.1));
        i = i + 1;
    }
    map
}

/// Reads a JSON text. The error is the JSON crate's message.
pub fn parse_json(bytes: &[u8]) -> (parsed: Result<Json, String>)
    ensures
        match parsed {
            Ok(json) => parsed_json(bytes@) == Ok::<JsonView, Seq<char>>(json@),
            Err(message) => parsed_json(bytes@) == Err::<JsonView, Seq<char>>(message@),
        },
        is_empty_object(bytes@) ==> (parsed matches Ok(json) && json@ == JsonView::Fields(
            no_fields(),
        )),
{
    match parse_value(bytes) {
        Ok(value) => Ok(from_value(value)),
        Err(error) => Err(json_error_text(&error)),
    }
}

/// Writes a document as a JSON text.
pub fn json_bytes(json: &Json) -> (written: Result<Vec<u8>, String>)
    ensures
        written is Ok,
        written->Ok_0@ == json_text(json@),
        reads_back(json@, 127) ==> reads_as(written->Ok_0@, json@),
{
    match value_bytes(&to_value(json)) {
        Ok(bytes) => Ok(bytes),
        Err(error) => Err(json_error_text(&error)),
    }
}

impl Clone for Json {
    fn clone(&self) -> (copy: Self)
        ensures
            copy@ == self@,
        decreases self, 1nat,
    {
        match self {
            Json::Null => Json::Null,
            Json::Bool(flag) => Json::Bool(*flag),
            Json::Unsigned(n) => Json::Unsigned(*n),
            Json::Negative(n) => Json::Negative(*n),
            Json::Number(number) => Json::Number(number.clone()),
            Json::Text(text) => Json::Text(text.clone()),
            Json::Items(items) => Json::Items(copy_items(items)),
            Json::Fields(entries) => Json::Fields(copy_entries(entries)),
        }
    }
}

/// Copies the items of an array.
pub fn copy_items(items: &Vec<Json>) -> (copy: Vec<Json>)
    ensures
        items_view(copy@, copy@.len()) == items_view(items@, items@.len()),
    decreases items, 0nat,
{
    let mut copy: Vec<Json> = Vec::new();
    let mut i: usize = 0;
    while i < items.len()
        invariant
            i <= items.len(),
            copy@.len() == i,
            items_view(copy@, copy@.len()) == items_view(items@, i as nat),
        decreases items.len() - i,
    {
        let ghost before = copy@;
        let item: Json = items[i].clone();
        copy.push(item);
        i = i + 1;
        proof {
            lemma_items_view_push(before, item, before.len());
        }
    }
    copy
}

/// Copies the entries of an object.
pub fn copy_entries(entries: &Vec<(String, Json)>) -> (copy: Vec<(String, Json)>)
    ensures
        fields_view(copy@, copy@.len()) == fields_view(entries@, entries@.len()),
    decreases entries, 0nat,
{
    let mut copy: Vec<(String, Json)> = Vec::new();
    let mut i: usize = 0;
    while i < entries.len()
        invariant
            i <= entries.len(),
            copy@.len() == i,
            fields_view(copy@, copy@.len()) == fields_view(entries@, i as nat),
        decreases entries.len() - i,
    {
        let ghost before = copy@;
        let entry: &(String, Json) = &entries[i];
        assert(decreases_to!(entries => entries@[i as int]));
        assert(decreases_to!(entries@[i as int] => entries@[i as int].1));
        let copied: (String, Json) = (entry.0.clone(), entry.1.clone());
        copy.push(copied);
        i = i + 1;
        proof {
            lemma_fields_view_push(before, copied, before.len());
        }
    }
    copy
}

/// The documents of a list stand at the places of their trees.
pub proof fn law_documents_keep_their_places(items: Seq<Json>)
    ensures
        documents(items).len() == items.len(),
        forall|i: int| 0 <= i < items.len() ==> #[trigger] documents(items)[i] == items[i]@,
{
    lemma_items_view(items, items.len());
}

/// The object that the first `n` entries make has their names and no other, and
/// under each the value of the last entry with that name.
proof fn lemma_object_of_entries(entries: Seq<(String, Json)>, n: nat, name: Seq<char>)
    requires
        n <= entries.len(),
    ensures
        fields_view(entries, n).dom().contains(name) <==> exists|i: int|
            0 <= i < n && (#[trigger] entries[i]).0@ == name,
        forall|i: int|
            0 <= i < n && (#[trigger] entries[i]).0@ == name && (forall|j: int|
                i < j < n ==> (#[trigger] entries[j]).0@ != name) ==> fields_view(entries, n)[name]
                == json_view(entries[i].1),
    decreases n,
{
    if n > 0 {
        lemma_object_of_entries(entries, (n - 1) as nat, name);
        if entries[n - 1].0@ == name {
            assert(fields_view(entries, n).dom().contains(name));
        }
        assert forall|i: int|
            0 <= i < n && (#[trigger] entries[i]).0@ == name && (forall|j: int|
                i < j < n ==> (#[trigger] entries[j]).0@ != name) implies fields_view(
            entries,
            n,
        )[name] == json_view(entries[i].1) by {
            if i < n - 1 {
                assert(entries[n - 1].0@ != name);
            }
        }
    }
}

/// An object has exactly the names of its entries, and under each the value of
/// the last entry with that name.
pub proof fn law_object_holds_its_entries(entries: Seq<(String, Json)>, name: Seq<char>)
    ensures
        fields_of(entries).dom().contains(name) <==> exists|i: int|
            0 <= i < entries.len() && (#[trigger] entries[i]).0@ == name,
        forall|i: int|
            0 <= i < entries.len() && (#[trigger] entries[i]).0@ == name && (forall|j: int|
                i < j < entries.len() ==> (#[trigger] entries[j]).0@ != name) ==> fields_of(
                entries,
            )[name] == entries[i].1@,
{
    lemma_object_of_entries(entries, entries.len(), name);
}

/// An object of strings has exactly the names of its pairs, and under each the
/// text of the last pair with that name.
pub proof fn law_object_holds_its_strings(
    pairs: Seq<(Seq<char>, Seq<char>)>,
    n: nat,
    name: Seq<char>,
)
    requires
        n <= pairs.len(),
    ensures
        strings_fields(pairs, n).dom().contains(name) <==> exists|i: int|
            0 <= i < n && (#[trigger] pairs[i]).0 == name,
        forall|i: int|
            0 <= i < n && (#[trigger] pairs[i]).0 == name && (forall|j: int|
                i < j < n ==> (#[trigger] pairs[j]).0 != name) ==> strings_fields(pairs, n)[name]
                == JsonView::Text(pairs[i].1),
    decreases n,
{
    if n > 0 {
        law_object_holds_its_strings(pairs, (n - 1) as nat, name);
        if pairs[n - 1].0 == name {
            assert(strings_fields(pairs, n).dom().contains(name));
        }
        assert forall|i: int|
            0 <= i < n && (#[trigger] pairs[i]).0 == name && (forall|j: int|
                i < j < n ==> (#[trigger] pairs[j]).0 != name) implies strings_fields(
            pairs,
            n,
        )[name] == JsonView::Text(pairs[i].1) by {
            if i < n - 1 {
                assert(pairs[n - 1].0 != name);
            }
        }
    }
}

/// A tree is a document of its own kind: flags, integers and texts with their
/// values, an array with the documents of its items in order, an object with
/// those of its entries.
pub proof fn law_tree_is_its_document(json: Json)
    ensures
        json is Null <==> json@ is Null,
        json matches Json::Bool(flag) ==> json@ == JsonView::Bool(flag),
        json matches Json::Unsigned(n) ==> json@ == JsonView::Int(n as int),
        json matches Json::Negative(n) ==> json@ == JsonView::Int(n as int),
        json matches Json::Number(number) ==> {
            &&& number_u64(number) matches Some(n) ==> json@ == JsonView::Int(n as int)
            &&& number_u64(number) is None ==> (number_i64(number) matches Some(n) ==> json@
                == JsonView::Int(n as int))
            &&& number_u64(number) is None && number_i64(number) is None ==> json@
                == JsonView::Real(number)
        },
        json matches Json::Text(text) ==> json@ == JsonView::Text(text@),
        json matches Json::Items(items) ==> json@ is Items && json@->Items_0.len() == items@.len()
            && forall|i: int|
            0 <= i < items@.len() ==> #[trigger] json@->Items_0[i] == items@[i]@,
        json matches Json::Fields(entries) ==> json@ is Fields && forall|i: int|
            0 <= i < entries@.len() && (forall|j: int|
                i < j < entries@.len() ==> (#[trigger] entries@[j]).0@ != entries@[i].0@)
                ==> field_of(json@, (#[trigger] entries@[i]).0@) == Some(entries@[i].1@),
{
    match json {
        Json::Items(items) => {
            lemma_items_view(items@, items@.len());
        },
        Json::Fields(entries) => {
            assert forall|i: int|
                0 <= i < entries@.len() && (forall|j: int|
                    i < j < entries@.len() ==> (#[trigger] entries@[j]).0@ != entries@[i].0@)
                implies field_of(json@, (#[trigger] entries@[i]).0@) == Some(entries@[i].1@) by {
                lemma_object_of_entries(entries@, entries@.len(), entries@[i].0@);
            }
        },
        _ => {},
    }
}

/// The strings among two lists are those of the first and then those of the
/// second; a lone string is one, and anything else is none.
pub proof fn law_strings_of_every_part(a: Seq<JsonView>, b: Seq<JsonView>, item: JsonView)
    ensures
        strings_among(a + b) == strings_among(a) + strings_among(b),
        strings_among(seq![item]) == (match item {
            JsonView::Text(text) => seq![text],
            _ => Seq::empty(),
        }),
    decreases b.len(),
{
    assert(seq![item].drop_last() =~= Seq::<JsonView>::empty());
    assert(strings_among(seq![item].drop_last()) =~= Seq::<Seq<char>>::empty());
    assert(seq![item].last() == item);
    if item is Text {
        assert(strings_among(seq![item]) =~= seq![item->Text_0]);
    }
    if b.len() == 0 {
        assert(a + b =~= a);
        assert(strings_among(a + b) =~= strings_among(a) + strings_among(b));
    } else {
        law_strings_of_every_part(a, b.drop_last(), item);
        assert((a + b).drop_last() =~= a + b.drop_last());
        assert((a + b).last() == b.last());
        assert(strings_among(a + b) =~= strings_among(a) + strings_among(b));
    }
}

/// A list of nothing but strings gives all of them, in order.
pub proof fn law_list_of_strings_is_kept(items: Seq<JsonView>, strings: Seq<Seq<char>>)
    requires
        items.len() == strings.len(),
        forall|i: int| 0 <= i < items.len() ==> #[trigger] items[i] == JsonView::Text(strings[i]),
    ensures
        strings_among(items) == strings,
    decreases items.len(),
{
    if items.len() > 0 {
        law_list_of_strings_is_kept(items.drop_last(), strings.drop_last());
        assert(strings.drop_last().push(strings.last()) =~= strings);
        assert(items.last() == JsonView::Text(strings[items.len() - 1]));
    } else {
        assert(strings =~= Seq::empty());
    }
}

/// A document is found under a name exactly where an object holds it there.
pub proof fn law_field_is_what_the_object_holds(
    json: JsonView,
    name: Seq<char>,
    document: JsonView,
)
    ensures
        field_of(json, name) == Some(document) <==> (json matches JsonView::Fields(fields)
            && fields.dom().contains(name) && fields[name] == document),
        field_of(json, name) is None <==> !(json matches JsonView::Fields(fields)
            && fields.dom().contains(name)),
{
}

/// What is there is shown as it is, and what is not there as null.
pub proof fn law_absence_is_null(text: Seq<char>, json: JsonView, slice: &str, tree: Json)
    ensures
        text_or_null(Some(text)) == JsonView::Text(text),
        text_or_null(None) == JsonView::Null,
        json_or_null(Some(json)) == json,
        json_or_null(None) == JsonView::Null,
        slice_text(Some(slice)) == Some(slice@),
        slice_text(None) is None,
        tree_json(Some(&tree)) == Some(tree@),
        tree_json(None) is None,
        tree_of(Some(tree)) == Some(tree@),
        tree_of(None) is None,
{
}

} // verus!
