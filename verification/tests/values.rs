use lytt::decimal::{parse_thousandths, parse_u64};
use lytt::error::LyttError;
use lytt::json::{parse_json, write_json, Json};
use lytt::sorting::sort_by_keys;
use lytt::text::{
    contains_str, find, join_chars, replace_chars, split_chars, split_words, string_of, to_chars,
    trim_chars, word_count,
};
use lytt::timefmt::{format_clock, round_seconds, shift};

fn chars(s: &str) -> Vec<char> {
    s.chars().collect()
}

fn millis(s: &str) -> Option<u64> {
    parse_thousandths(&chars(s))
}

#[test]
fn numerals_are_read_as_thousandths() {
    assert_eq!(millis("0"), Some(0));
    assert_eq!(millis("12"), Some(12000));
    assert_eq!(millis("12.5"), Some(12500));
    assert_eq!(millis("12.3456"), Some(12345));
    assert_eq!(millis("0.0009"), Some(0));
    assert_eq!(millis(".5"), Some(500));
    assert_eq!(millis("5."), Some(5000));
    assert_eq!(millis("+1.25"), Some(1250));
    assert_eq!(millis("1e2"), Some(100000));
    assert_eq!(millis("1.5E+1"), Some(15000));
    assert_eq!(millis("25e-1"), Some(2500));
    assert_eq!(millis("1e-4"), Some(0));
    assert_eq!(millis("123456789e-7"), Some(12345));
    assert_eq!(millis("000012.5000"), Some(12500));
    assert_eq!(millis("18446744073709551.615"), Some(u64::MAX));
    assert_eq!(millis("0e999"), Some(0));
    assert_eq!(millis("1e-999"), Some(0));
}

#[test]
fn texts_that_are_no_time_are_refused() {
    for s in [
        "", "-", "+", ".", "e5", "1e", "1e+", "1e1000", "-1", "-0", "-0.0", "1.2.3", "1 ", " 1",
        "12s", "inf", "NaN", "1e5x", "18446744073709551.616", "1e17", "0x10", "1,5", "١",
    ] {
        assert_eq!(millis(s), None, "{:?}", s);
    }
}

#[test]
fn natural_numbers_are_read() {
    assert_eq!(parse_u64(&chars("0")), Some(0));
    assert_eq!(parse_u64(&chars("007")), Some(7));
    assert_eq!(parse_u64(&chars("18446744073709551615")), Some(u64::MAX));
    assert_eq!(parse_u64(&chars("18446744073709551616")), None);
    assert_eq!(parse_u64(&chars("")), None);
    assert_eq!(parse_u64(&chars("1.0")), None);
    assert_eq!(parse_u64(&chars("-1")), None);
}

#[test]
fn json_is_read_into_values() {
    let j = parse_json(r#"{"a": [1, 2.5, "x", true, null], "b": {"c": -3}, "big": 18446744073709551615}"#).unwrap();
    let a = j.get("a").unwrap().as_array().unwrap();
    assert_eq!(a.len(), 5);
    assert_eq!(a[0].as_u64(), Some(1));
    assert_eq!(a[0].as_millis(), Some(1000));
    assert_eq!(a[1].as_u64(), None);
    assert_eq!(a[1].as_millis(), Some(2500));
    assert_eq!(a[2].as_str().map(|s| s.as_str()), Some("x"));
    assert_eq!(a[3].as_bool(), Some(true));
    assert!(matches!(a[4], Json::Null));
    assert_eq!(j.get("b").unwrap().get("c").unwrap().as_u64(), None);
    assert_eq!(j.get("b").unwrap().get("c").unwrap().as_millis(), None);
    assert_eq!(j.u64_field("big"), Some(u64::MAX));
    assert!(j.get("missing").is_none());
    assert!(a[0].get("a").is_none());
    assert_eq!(j.str_field("a"), None);
    assert_eq!(j.bool_field("a"), None);
    assert_eq!(j.millis_field("big"), None);
    let copy = j.duplicate();
    assert_eq!(write_json(&copy), write_json(&j));
}

#[test]
fn texts_that_are_no_json_are_refused() {
    for text in ["", "{", "[1,]", "{'a': 1}", "nul", "1 2"] {
        match parse_json(text) {
            Err(reason) => assert!(!reason.is_empty()),
            Ok(_) => panic!("the text is no JSON"),
        }
    }
    assert!(matches!(parse_json(" null "), Ok(Json::Null)));
}

#[test]
fn json_is_written_with_indentation() {
    let j = parse_json(r#"{"b": [1, {"c": "x\ny"}], "a": 2.50}"#).unwrap();
    assert_eq!(
        write_json(&j),
        "{\n  \"b\": [\n    1,\n    {\n      \"c\": \"x\\ny\"\n    }\n  ],\n  \"a\": 2.5\n}"
    );
    assert_eq!(write_json(&Json::Number("not a number".to_string())), "null");
    assert_eq!(write_json(&Json::Text("é".to_string())), "\"é\"");
}

#[test]
fn texts_are_trimmed_split_and_joined() {
    assert_eq!(trim_chars(&chars(" \t a b \u{a0}\n")), chars("a b"));
    assert!(trim_chars(&chars(" \u{2003} ")).is_empty());
    assert_eq!(split_chars(&chars("a.b!c"), &chars(".!")), vec![chars("a"), chars("b"), chars("c")]);
    assert_eq!(split_chars(&chars(".a."), &chars(".")), vec![chars(""), chars("a"), chars("")]);
    assert_eq!(split_chars(&chars(""), &chars(".")), vec![chars("")]);
    assert_eq!(split_words(&chars("  one\ttwo \n three ")), vec![chars("one"), chars("two"), chars("three")]);
    assert_eq!(word_count(&chars("   ")), 0);
    assert_eq!(word_count(&chars("a")), 1);
    assert_eq!(join_chars(&vec![chars("a"), chars(""), chars("c")], &chars(", ")), chars("a, , c"));
    assert!(join_chars(&Vec::new(), &chars(", ")).is_empty());
    assert_eq!(string_of("héllo"), "héllo");
    assert_eq!(to_chars("héllo").len(), 5);
}

#[test]
fn texts_are_searched_and_replaced() {
    assert_eq!(find(&chars("abcabc"), &chars("ca")), Some(2));
    assert_eq!(find(&chars("abc"), &chars("")), Some(0));
    assert_eq!(find(&chars("abc"), &chars("abcd")), None);
    assert!(contains_str(&chars("youtube.com/@x"), &chars("youtube.com/@")));
    assert_eq!(replace_chars(&chars("aaa"), &chars("aa"), &chars("b")), chars("ba"));
    assert_eq!(replace_chars(&chars("abc"), &chars(""), &chars("x")), chars("abc"));
    assert_eq!(replace_chars(&chars("a-b-c"), &chars("-"), &chars("--")), chars("a--b--c"));
    assert_eq!(replace_chars(&chars("abc"), &chars("abc"), &chars("")), chars(""));
}

#[test]
fn items_are_sorted_by_key_and_stay_in_order_where_keys_are_equal() {
    let mut items = vec!["c1", "a1", "b1", "a2", "c2", "a3"];
    let mut keys: Vec<i128> = vec![3, 1, 2, 1, 3, 1];
    sort_by_keys(&mut items, &mut keys);
    assert_eq!(items, vec!["a1", "a2", "a3", "b1", "c1", "c2"]);
    assert_eq!(keys, vec![1, 1, 1, 2, 3, 3]);
    let mut none: Vec<u8> = Vec::new();
    let mut no_keys: Vec<i128> = Vec::new();
    sort_by_keys(&mut none, &mut no_keys);
    assert!(none.is_empty());
    let mut falling: Vec<i128> = (0..50).rev().collect();
    let mut values: Vec<i128> = falling.clone();
    sort_by_keys(&mut values, &mut falling);
    assert_eq!(values, (0..50).collect::<Vec<i128>>());
}

#[test]
fn times_are_shifted_and_rounded() {
    assert_eq!(shift(1000, 500), 1500);
    assert_eq!(shift(u64::MAX - 1, 5), u64::MAX);
    assert_eq!(round_seconds(499), 0);
    assert_eq!(round_seconds(500), 0);
    assert_eq!(round_seconds(501), 1);
    assert_eq!(round_seconds(1500), 2);
    assert_eq!(round_seconds(2500), 2);
    assert_eq!(format_clock(3599999), "59:59");
}

#[test]
fn every_error_has_its_message() {
    let cases = [
        (LyttError::Config("x".to_string()), "Configuration error: x"),
        (LyttError::VideoSource("x".to_string()), "Media source error: x"),
        (LyttError::AudioDownload("x".to_string()), "Audio download failed: x"),
        (LyttError::Transcription("x".to_string()), "Transcription failed: x"),
        (LyttError::Embedding("x".to_string()), "Embedding generation failed: x"),
        (LyttError::VectorStore("x".to_string()), "Vector store error: x"),
        (LyttError::Rag("x".to_string()), "RAG error: x"),
        (LyttError::Io("x".to_string()), "IO error: x"),
        (LyttError::Json("x".to_string()), "JSON error: x"),
        (LyttError::TomlParse("x".to_string()), "TOML parse error: x"),
        (LyttError::Http("x".to_string()), "HTTP error: x"),
        (LyttError::Database("x".to_string()), "Database error: x"),
        (LyttError::OpenAI("x".to_string()), "OpenAI API error: x"),
        (LyttError::VideoNotFound("x".to_string()), "Media not found: x"),
        (
            LyttError::ToolNotFound("x".to_string()),
            "External tool not found: x. Please install it and ensure it's in your PATH.",
        ),
        (LyttError::ToolFailed("x".to_string()), "External tool failed: x"),
        (LyttError::InvalidInput("x".to_string()), "Invalid input: x"),
        (LyttError::Agent("x".to_string()), "Agent error: x"),
    ];
    for (error, message) in cases {
        assert_eq!(error.to_string(), message);
    }
}

#[test]
fn white_space_is_what_the_character_database_lists() {
    let listed = [
        '\u{9}', '\u{A}', '\u{B}', '\u{C}', '\u{D}', ' ', '\u{85}', '\u{A0}', '\u{1680}', '\u{2000}',
        '\u{2005}', '\u{200A}', '\u{2028}', '\u{2029}', '\u{202F}', '\u{205F}', '\u{3000}',
    ];
    for c in listed {
        let padded: Vec<char> = vec![c, 'a', c];
        assert_eq!(trim_chars(&padded), vec!['a'], "U+{:X}", c as u32);
    }
    let others = ['a', 'Z', '0', '.', '\u{8}', '\u{E}', '\u{1F}', '\u{84}', '\u{86}', '\u{180E}', '\u{200B}', '\u{2060}', '\u{FEFF}'];
    for c in others {
        let kept: Vec<char> = vec![c, 'a', c];
        assert_eq!(trim_chars(&kept), kept, "U+{:X}", c as u32);
    }
    assert_eq!(trim_chars(&to_chars(" a")), to_chars("a"));
}
