use sloth_agent::json::{signed_text, Json};
use sloth_agent::skill::unquote;
use sloth_agent::table::Table;
use sloth_agent::text;

#[test]
fn trimming_and_splitting() {
    assert_eq!(text::trim("\u{3000} a b\t\n"), "a b");
    assert_eq!(text::split_words(" a\u{a0}b  c "), vec!["a", "b", "c"]);
    assert_eq!(text::split_lines("a\r\nb\n"), vec!["a", "b"]);
    assert_eq!(text::split_once("a__b__c", "__"), Some(("a".to_string(), "b__c".to_string())));
    assert_eq!(text::strip_prefix("abc", "ab").as_deref(), Some("c"));
    assert_eq!(text::replace("aXbX", "X", "--"), "a--b--");
    assert!(text::is_blank(" \t"));
}

#[test]
fn numbers_and_their_texts() {
    assert_eq!(text::decimal_text(0), "0");
    assert_eq!(text::decimal_text(u64::MAX), "18446744073709551615");
    assert_eq!(text::parse_unsigned("007", 59), Some(7));
    assert_eq!(text::parse_unsigned("60", 59), None);
    assert_eq!(text::parse_unsigned("", 59), None);
    assert_eq!(signed_text(-5), "-5");
    assert_eq!(signed_text(i64::MIN), "-9223372036854775808");
}

#[test]
fn quotes_come_off_in_pairs() {
    assert_eq!(unquote("\"a\""), "a");
    assert_eq!(unquote("'a'"), "a");
    assert_eq!(unquote("\"a"), "\"a");
    assert_eq!(unquote("'"), "'");
}

#[test]
fn tables_are_sorted() {
    let mut t: Table<u64> = Table::new();
    t.insert("b".to_string(), 1);
    t.insert("a".to_string(), 2);
    t.insert("b".to_string(), 3);
    assert_eq!(t.len(), 2);
    assert_eq!(t.key_at(0), "a");
    assert_eq!(*t.value_at(1), 3);
    assert_eq!(t.remove("a"), Some(2));
    assert!(!t.contains("a"));
    assert!(t.get("b").is_some());
}

#[test]
fn json_values_are_read() {
    let v = Json::Object(vec![
        ("n".to_string(), Json::UInt(3)),
        ("s".to_string(), Json::Str("x".to_string())),
        ("r".to_string(), Json::Real("1.5".to_string())),
    ]);
    assert_eq!(v.get_uint("n"), Some(3));
    assert_eq!(v.get_uint("s"), None);
    assert_eq!(v.get_str("s").as_deref(), Some("x"));
    assert_eq!(v.get_number("r").as_deref(), Some("1.5"));
    assert_eq!(v.get_number("n").as_deref(), Some("3"));
    assert!(v.get("z").is_none());
    assert_eq!(v.dup(), v);
}
