use item_storage_manager::json::JsonValue;
use item_storage_manager::text::{
    chars_of, concat_str, decimal_string, is_blank, str_eq, strip_leading, to_hex_lower, trim,
    without_char,
};

#[test]
fn decimal_of_zero_and_large_numbers() {
    assert_eq!(decimal_string(0), "0");
    assert_eq!(decimal_string(7), "7");
    assert_eq!(decimal_string(1234), "1234");
    assert_eq!(decimal_string(u64::MAX), "18446744073709551615");
}

#[test]
fn hex_is_lower_case_two_digits_per_byte() {
    assert_eq!(to_hex_lower(&[0x00, 0x0f, 0xa0, 0xff]), "000fa0ff");
    assert_eq!(to_hex_lower(&[]), "");
}

#[test]
fn trim_removes_unicode_whitespace_at_both_ends_only() {
    assert_eq!(trim("  a b \t\n"), "a b");
    assert_eq!(trim("\u{3000}x\u{00a0}"), "x");
    assert_eq!(trim("   "), "");
    assert_eq!(trim("inner  space"), "inner  space");
    assert_eq!(trim(" C:\\Games\\WoW \r\n"), " C:\\Games\\WoW".trim());
}

#[test]
fn blank_texts() {
    assert!(is_blank(""));
    assert!(is_blank(" \t\n"));
    assert!(!is_blank(" x "));
}

#[test]
fn removing_a_character_everywhere() {
    assert_eq!(without_char("\"C:\\Wo\"W\"", '"'), "C:\\WoW");
    assert_eq!(without_char("ab\ncd\n", '\n'), "abcd");
    assert_eq!(without_char("", 'x'), "");
}

#[test]
fn leading_run_of_a_character_is_stripped() {
    assert_eq!(strip_leading("v1.2.3", 'v'), "1.2.3");
    assert_eq!(strip_leading("vv1.2.3", 'v'), "1.2.3");
    assert_eq!(strip_leading("1.2.3v", 'v'), "1.2.3v");
    assert_eq!(strip_leading("vvv", 'v'), "");
}

#[test]
fn characters_equality_and_concatenation() {
    assert_eq!(chars_of("Привет"), vec!['П', 'р', 'и', 'в', 'е', 'т']);
    assert!(str_eq("abc", "abc"));
    assert!(!str_eq("abc", "abd"));
    assert_eq!(concat_str("ab", "cd"), "abcd");
}

fn obj(members: Vec<(&str, JsonValue)>) -> JsonValue {
    JsonValue::Object(members.into_iter().map(|(k, v)| (k.to_string(), v)).collect())
}

#[test]
fn json_lookups_read_missing_values_as_absent() {
    let v = obj(vec![
        ("sha", JsonValue::Str("abc".to_string())),
        ("n", JsonValue::Number("3".to_string())),
        ("list", JsonValue::Array(vec![JsonValue::Bool(true)])),
    ]);
    assert_eq!(v.get("sha").and_then(|x| x.as_str()), Some("abc"));
    assert_eq!(v.get("n").and_then(|x| x.as_str()), None);
    assert!(v.get("missing").is_none());
    assert_eq!(v.get("list").and_then(|x| x.at(0)), Some(&JsonValue::Bool(true)));
    assert!(v.get("list").and_then(|x| x.at(1)).is_none());
    assert!(v.at(0).is_none());
    assert!(JsonValue::Null.get("sha").is_none());
}

#[test]
fn json_lookup_takes_the_first_member_of_a_name() {
    let v = obj(vec![
        ("k", JsonValue::Str("first".to_string())),
        ("k", JsonValue::Str("second".to_string())),
    ]);
    assert_eq!(v.get("k").and_then(|x| x.as_str()), Some("first"));
}
