use ironmind::json::{Json, JsonField};
use ironmind::text::{chars_of, push_decimal, split_words, strip_prefix, text_before};

fn obj(fields: Vec<(&str, Json)>) -> Json {
    Json::Object(
        fields
            .into_iter()
            .map(|(k, v)| JsonField { key: k.to_string(), value: v })
            .collect(),
    )
}

#[test]
fn get_finds_member_or_none() {
    let v = obj(vec![("a", Json::Str("x".into())), ("b", Json::Null)]);
    assert_eq!(v.get("a"), Some(&Json::Str("x".into())));
    assert_eq!(v.get("b"), Some(&Json::Null));
    assert_eq!(v.get("c"), None);
    assert_eq!(Json::Array(vec![]).get("a"), None);
}

#[test]
fn as_str_and_as_array() {
    assert_eq!(Json::Str("hi".into()).as_str(), Some(&"hi".to_string()));
    assert_eq!(Json::Number("1".into()).as_str(), None);
    let arr = Json::Array(vec![Json::Bool(true)]);
    assert_eq!(arr.as_array().map(|v| v.len()), Some(1));
    assert_eq!(Json::Null.as_array(), None);
}

#[test]
fn duplicate_is_deep_copy() {
    let v = obj(vec![("k", Json::Array(vec![Json::Number("2.5".into()), obj(vec![])]))]);
    assert_eq!(v.duplicate(), v);
    assert_eq!(v.clone(), v);
}

#[test]
fn decimal_rendering() {
    for n in [0u64, 7, 10, 42, 1000, 999_999_999, u64::MAX] {
        let mut s = String::from("x");
        push_decimal(&mut s, n);
        assert_eq!(s, format!("x{}", n));
    }
}

#[test]
fn strip_prefix_matches_std() {
    assert_eq!(strip_prefix("Bearer abc", "Bearer "), Some("abc".to_string()));
    assert_eq!(strip_prefix("Bearer", "Bearer "), None);
    assert_eq!(strip_prefix("bearer abc", "Bearer "), None);
    assert_eq!(strip_prefix("", ""), Some(String::new()));
}

#[test]
fn text_before_first_char() {
    assert_eq!(text_before("alice:secret:x", ':'), "alice");
    assert_eq!(text_before("nocolon", ':'), "nocolon");
    assert_eq!(text_before(":lead", ':'), "");
}

#[test]
fn split_words_matches_split_inclusive() {
    for s in ["", "a", "hello world", "a  b ", " lead", "x y z", "ünï cödé ok"] {
        let expected: Vec<String> = s.split_inclusive(' ').map(|w| w.to_string()).collect();
        assert_eq!(split_words(s), expected);
        assert_eq!(split_words(s).concat(), s);
    }
}

#[test]
fn chars_of_keeps_order() {
    assert_eq!(chars_of("aé…z"), vec!['a', 'é', '…', 'z']);
}
