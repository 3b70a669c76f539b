use mcpg_plugin_backend_http::json::{
    append_strings, copy_entries, field, from_value, items_json, json_bytes, optional_json,
    optional_text_json, parse_json, put, strings_json, text_json, to_value, Json,
};
use mcpg_plugin_backend_http::pairs::{collate, copy_pairs, text_precedes};
use mcpg_plugin_backend_http::text::{
    begins_with, blank, chars_of, contains_chars, copy_strings, copy_text, decimal_text, ends_with,
    eq_ignoring_case, has_line_break, lower_char, lowered_chars, space_char, text_eq,
};

fn text(s: &str) -> Json {
    Json::Text(s.to_owned())
}

#[test]
fn documents_are_read() {
    let doc = parse_json(br#"[null, true, 7, -7, "x", [1], {"b": 2, "a": 1, "b": 3}]"#).unwrap();
    assert_eq!(
        doc,
        Json::Items(vec![
            Json::Null,
            Json::Bool(true),
            Json::Unsigned(7),
            Json::Negative(-7),
            text("x"),
            Json::Items(vec![Json::Unsigned(1)]),
            Json::Fields(vec![
                ("a".to_owned(), Json::Unsigned(1)),
                ("b".to_owned(), Json::Unsigned(3)),
            ]),
        ])
    );
}

#[test]
fn numbers_keep_their_value() {
    assert_eq!(parse_json(b"18446744073709551615"), Ok(Json::Unsigned(u64::MAX)));
    assert_eq!(parse_json(b"-9223372036854775808"), Ok(Json::Negative(i64::MIN)));
    assert_eq!(parse_json(b"0"), Ok(Json::Unsigned(0)));
    let real = parse_json(b"1.5").unwrap();
    assert!(matches!(real, Json::Number(_)));
    assert_eq!(json_bytes(&real.clone()), Ok(b"1.5".to_vec()));
}

#[test]
fn unreadable_text_is_told() {
    assert_eq!(
        parse_json(b"{"),
        Err("EOF while parsing an object at line 1 column 1".to_owned())
    );
    assert!(parse_json(b"").is_err());
    assert!(parse_json(&[0xff]).is_err());
}

#[test]
fn documents_are_written() {
    let mut entries = Vec::new();
    put(&mut entries, "b", Json::Unsigned(2));
    put(&mut entries, "a", Json::Negative(-1));
    put(&mut entries, "b", text("q\"\n"));
    let doc = Json::Fields(entries);
    assert_eq!(json_bytes(&doc), Ok(br#"{"a":-1,"b":"q\"\n"}"#.to_vec()));
}

#[test]
fn a_nonnegative_signed_number_is_written_as_it_is() {
    assert_eq!(json_bytes(&Json::Negative(5)), Ok(b"5".to_vec()));
}

#[test]
fn text_reads_back_to_the_crate_limit() {
    let deep = |n: usize| {
        let mut doc = Json::Null;
        for _ in 0..n {
            doc = Json::Items(vec![doc]);
        }
        doc
    };
    let within = deep(127);
    assert_eq!(parse_json(&json_bytes(&within).unwrap()), Ok(within));
    let beyond = deep(128);
    assert!(parse_json(&json_bytes(&beyond).unwrap()).is_err());
}

#[test]
fn trees_and_values_are_the_same_documents() {
    let value: serde_json::Value = serde_json::from_str(r#"{"k": [1, {"x": null}]}"#).unwrap();
    let doc = from_value(value.clone());
    assert_eq!(
        doc,
        Json::Fields(vec![(
            "k".to_owned(),
            Json::Items(vec![
                Json::Unsigned(1),
                Json::Fields(vec![("x".to_owned(), Json::Null)]),
            ]),
        )])
    );
    assert_eq!(to_value(&doc), value);
}

#[test]
fn fields_are_looked_up() {
    let doc = Json::Fields(vec![
        ("a".to_owned(), Json::Unsigned(1)),
        ("a".to_owned(), Json::Unsigned(2)),
    ]);
    assert_eq!(field(&doc, "a"), Some(&Json::Unsigned(2)));
    assert_eq!(field(&doc, "b"), None);
    assert_eq!(field(&Json::Null, "a"), None);
}

#[test]
fn parts_of_documents() {
    assert_eq!(text_json("x"), text("x"));
    assert_eq!(optional_text_json(None), Json::Null);
    assert_eq!(optional_text_json(Some("x")), text("x"));
    assert_eq!(optional_json(None), Json::Null);
    assert_eq!(optional_json(Some(&text("x"))), text("x"));
    assert_eq!(items_json(&vec![text("x")]), Json::Items(vec![text("x")]));
    let entries = vec![("a".to_owned(), Json::Bool(false))];
    assert_eq!(copy_entries(&entries), entries);
    let mut strings = vec!["z".to_owned()];
    append_strings(&vec![text("x"), Json::Null, text("y")], &mut strings);
    assert_eq!(strings, vec!["z", "x", "y"]);
}

#[test]
fn pairs_are_collated_like_a_sorted_map() {
    let pair = |name: &str, value: &str| (name.to_owned(), value.to_owned());
    let pairs = vec![
        pair("b", "1"),
        pair("", "2"),
        pair("ab", "3"),
        pair("a", "4"),
        pair("b", "5"),
        pair("\u{10000}", "6"),
        pair("\u{ffff}", "7"),
        pair("B", "8"),
    ];
    let map: std::collections::BTreeMap<String, String> = pairs.iter().cloned().collect();
    let sorted = collate(&pairs);
    assert_eq!(sorted, map.into_iter().collect::<Vec<_>>());
    assert_eq!(collate(&sorted), sorted);
    let object = |list: &Vec<(String, String)>| json_bytes(&strings_json(list)).unwrap();
    assert_eq!(object(&pairs), object(&sorted));
    assert!(text_precedes("a", "ab"));
    assert!(text_precedes("Z", "a"));
    assert!(!text_precedes("a", "a"));
    assert!(!text_precedes("b", "ab"));
}

#[test]
fn texts_are_compared() {
    assert!(text_eq("a", "a"));
    assert!(!text_eq("a", "A"));
    assert!(eq_ignoring_case("TraceParent", "traceparent"));
    assert!(!eq_ignoring_case("\u{c4}", "\u{e4}"));
    assert!(!eq_ignoring_case("a", "ab"));
    assert_eq!(lower_char('Z'), 'z');
    assert_eq!(lower_char('['), '[');
    assert_eq!(lowered_chars("aB\u{c4}"), vec!['a', 'b', '\u{c4}']);
    assert!(contains_chars(&chars_of("abcab"), &chars_of("cab")));
    assert!(!contains_chars(&chars_of("ab"), &chars_of("abc")));
    assert!(contains_chars(&chars_of("ab"), &chars_of("")));
    assert!(begins_with("http://x", "http://"));
    assert!(!begins_with("http:", "http://"));
    assert!(ends_with("abc", "bc"));
    assert!(ends_with("abc", ""));
    assert!(!ends_with("c", "bc"));
}

#[test]
fn texts_are_classified() {
    assert!(blank(""));
    assert!(blank(" \u{2003}\n"));
    assert!(!blank(" x"));
    assert!(has_line_break("a\rb"));
    assert!(!has_line_break("ab\t"));
    for c in ['\t', '\u{b}', '\u{85}', '\u{a0}', '\u{1680}', '\u{200a}', '\u{2029}', '\u{3000}'] {
        assert!(space_char(c));
        assert!(c.is_whitespace());
    }
    for c in ['\u{200b}', 'x', '\u{8}', '\u{e}', '\u{feff}'] {
        assert!(!space_char(c));
        assert!(!c.is_whitespace());
    }
}

#[test]
fn white_space_is_that_of_unicode() {
    for code in 0..=0x10ffff_u32 {
        if let Some(c) = char::from_u32(code) {
            assert_eq!(space_char(c), c.is_whitespace(), "{code:x}");
        }
    }
}

#[test]
fn numbers_are_rendered() {
    assert_eq!(decimal_text(0), "0");
    assert_eq!(decimal_text(907), "907");
    assert_eq!(decimal_text(u128::MAX), format!("{}", u128::MAX));
}

#[test]
fn copies_hold_the_same_text() {
    let strings = vec!["a".to_owned(), "b".to_owned()];
    assert_eq!(copy_strings(&strings), strings);
    assert_eq!(copy_text(&Some("a".to_owned())), Some("a".to_owned()));
    assert_eq!(copy_text(&None), None);
    let pairs = vec![("a".to_owned(), "b".to_owned())];
    assert_eq!(copy_pairs(&pairs), pairs);
}
