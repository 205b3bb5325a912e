use koveed::json::{as_text, get, parse, render, Json};
use koveed::problem::{check_expected_revision, internal, not_found, stale_revision, ProblemKind};
use koveed::text::{
    contains, decimal, first_chars, list_holds, parse_number, replace_all, same,
    split_once, split_words, starts_with, trim,
};

#[test]
fn numbers_are_written_and_read() {
    assert_eq!(decimal(0), "0");
    assert_eq!(decimal(18446744073709551615), "18446744073709551615");
    assert_eq!(parse_number("0042"), Some(42));
    assert_eq!(parse_number("+7"), Some(7));
    assert_eq!(parse_number("18446744073709551615"), Some(18446744073709551615));
    assert_eq!(parse_number("18446744073709551616"), None);
    assert_eq!(parse_number(""), None);
    assert_eq!(parse_number("+"), None);
    assert_eq!(parse_number("-1"), None);
    assert_eq!(parse_number("1a"), None);
}

#[test]
fn replacing_agrees_with_std() {
    for (hay, needle, by) in [
        ("aaaa", "aa", "b"),
        ("abcabc", "abc", ""),
        ("abc", "x", "y"),
        ("", "x", "y"),
        ("abc", "", "-"),
        ("ünïcödé", "ö", "oe"),
        ("ababa", "aba", "X"),
    ] {
        assert_eq!(replace_all(hay, needle, by), hay.replace(needle, by));
        assert_eq!(contains(hay, needle), hay.contains(needle));
        assert_eq!(starts_with(hay, needle), hay.starts_with(needle));
    }
}

#[test]
fn splitting_agrees_with_std() {
    assert_eq!(split_once("a:b:c", ':'), Some(("a".to_string(), "b:c".to_string())));
    assert_eq!(split_once("abc", ':'), None);
    assert_eq!(split_once(":", ':'), Some((String::new(), String::new())));
    let text = " \tone  two\u{2003}three\n";
    let words: Vec<String> = text.split_whitespace().map(|w| w.to_string()).collect();
    assert_eq!(split_words(text), words);
    assert_eq!(split_words(" \n ").len(), 0);
    assert_eq!(trim(text), text.trim());
}

#[test]
fn texts_are_compared_by_their_characters() {
    assert!(same("a", "a"));
    assert!(!same("a", "b"));
    assert!(list_holds(&vec!["a".to_string(), "b".to_string()], "b"));
    assert!(!list_holds(&vec!["a".to_string()], "b"));
    assert_eq!(first_chars("äbc", 2), "äb");
    assert_eq!(first_chars("a", 2), "a");
}

#[test]
fn a_document_is_read_and_written() {
    let j = parse("{\"b\": [1, true, null], \"a\": \"x\"}").unwrap();
    assert_eq!(render(&j).unwrap(), "{\"a\":\"x\",\"b\":[1,true,null]}");
    assert_eq!(as_text(get(&j, "a")).unwrap(), "x");
    assert!(get(&j, "c").is_none());
    assert!(as_text(get(&j, "b")).is_none());
    assert!(parse("{").is_none());
    assert_eq!(render(&j.copy()).unwrap(), render(&j).unwrap());
}

#[test]
fn a_key_that_stands_twice_counts_once() {
    let j = parse("{\"a\":1,\"a\":2}").unwrap();
    assert_eq!(render(&j).unwrap(), "{\"a\":2}");
    match j {
        Json::Object(fields) => assert_eq!(fields.len(), 1),
        _ => panic!("an object was written"),
    }
}

#[test]
fn problems_carry_their_texts() {
    assert_eq!(internal().kind, ProblemKind::Internal);
    assert_eq!(internal().title, "internal fault");
    assert_eq!(not_found().title, "no visible resource");
    assert_eq!(
        stale_revision(12).detail.as_deref(),
        Some("current visible revision is 12")
    );
    assert!(check_expected_revision(None, 3).is_ok());
    assert!(check_expected_revision(Some(3), 3).is_ok());
    let e = check_expected_revision(Some(2), 3).unwrap_err();
    assert_eq!(e.kind, ProblemKind::StaleRevision);
    assert_eq!(e.title, "optimistic revision mismatch");
}
