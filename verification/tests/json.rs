//! JSON values, and the way to and from `serde_json`.

use gemma_gateway::text::{
    is_white_space, same_text, split_once, strip_prefix, trim_end_char, trim_end_text, trimmed,
};
use gemma_gateway::value::{JsonObject, JsonValue};

#[test]
fn text_is_read_and_written() {
    let text = r#" { "b" : [ 1, -2, 0.5, null ], "a" : { "x" : "y\n\"" , "t" : true } } "#;
    let v = JsonValue::from_text(text).unwrap();
    assert_eq!(
        v.to_text(),
        r#"{"a":{"t":true,"x":"y\n\""},"b":[1,-2,0.5,null]}"#
    );
    let again = JsonValue::from_text(&v.to_text()).unwrap();
    assert_eq!(again.to_text(), v.to_text());
}

#[test]
fn text_that_is_not_json_is_not_read() {
    for text in ["", "{", "{not json", "[1,]", "nul", "\"a", "1 2"] {
        assert!(JsonValue::from_text(text).is_none());
    }
}

#[test]
fn the_written_text_has_no_line_break() {
    let v = JsonValue::of_str("a\nb\r\nc\u{2028}");
    assert!(!v.to_text().contains('\n'));
    assert!(!v.to_text().contains('\r'));
    assert_eq!(
        JsonValue::from_text(&v.to_text()).unwrap().as_str(),
        Some("a\nb\r\nc\u{2028}")
    );
}

#[test]
fn nesting_is_read_back_as_deep_as_it_may_be() {
    let nested = |depth: usize| {
        let mut v = JsonValue::of_u64(1);
        for _ in 0..depth {
            v = JsonValue::Array(vec![v]);
        }
        v.to_text()
    };
    assert!(JsonValue::from_text(&nested(127)).is_some());
    assert!(JsonValue::from_text(&nested(128)).is_none());
}

#[test]
fn values_go_to_serde_json_and_back() {
    let mut object = serde_json::Map::new();
    object.insert("n".to_string(), serde_json::Value::from(7u64));
    object.insert("z".to_string(), serde_json::Value::Null);
    let value = serde_json::Value::Array(vec![
        serde_json::Value::Object(object),
        serde_json::Value::Bool(true),
        serde_json::Value::from("s"),
        serde_json::Value::from(-4i64),
        serde_json::Value::from(2.5f64),
    ]);
    let own = JsonValue::from_serde(&value);
    let items = own.as_array().unwrap();
    assert_eq!(items.len(), 5);
    assert_eq!(items[0].get("n").unwrap().as_u64(), Some(7));
    assert!(matches!(items[0].get("z"), Some(JsonValue::Null)));
    assert!(matches!(items[1], JsonValue::Bool(true)));
    assert_eq!(items[2].as_str(), Some("s"));
    assert_eq!(items[3].as_u64(), None);
    assert_eq!(items[4].as_u64(), None);
    assert_eq!(own.to_serde(), value);
    assert_eq!(own.clone().to_serde(), value);
}

#[test]
fn numbers_are_kept() {
    for text in ["0", "18446744073709551615", "-9223372036854775808", "1.5", "1e300"] {
        let v = JsonValue::from_text(text).unwrap();
        let direct: serde_json::Value = serde_json::from_str(text).unwrap();
        assert_eq!(v.to_serde(), direct);
    }
    assert_eq!(JsonValue::of_u64(u64::MAX).as_u64(), Some(u64::MAX));
    assert_eq!(JsonValue::of_u64(3).to_text(), "3");
}

#[test]
fn members_are_set_in_place() {
    let mut o = JsonObject::new();
    assert!(o.get("a").is_none());
    o.insert("a", JsonValue::of_u64(1));
    o.insert("b", JsonValue::of_u64(2));
    o.insert("a", JsonValue::of_str("x"));
    assert_eq!(o.entries.len(), 2);
    assert_eq!(o.get("a").unwrap().as_str(), Some("x"));
    assert_eq!(o.get("b").unwrap().as_u64(), Some(2));
    assert_eq!(JsonValue::Object(o).to_text(), r#"{"a":"x","b":2}"#);
}

#[test]
fn of_two_entries_the_later_counts() {
    let twice = JsonObject {
        entries: vec![
            ("a".to_string(), JsonValue::of_u64(1)),
            ("a".to_string(), JsonValue::of_u64(2)),
        ],
    };
    assert_eq!(twice.get("a").unwrap().as_u64(), Some(2));
    assert_eq!(JsonValue::Object(twice).to_text(), r#"{"a":2}"#);
    let read = JsonValue::from_text(r#"{"a": 1, "a": 2}"#).unwrap();
    assert_eq!(read.get("a").unwrap().as_u64(), Some(2));
}

#[test]
fn only_objects_have_members() {
    for text in ["null", "true", "3", "\"a\"", "[{\"a\": 1}]"] {
        let v = JsonValue::from_text(text).unwrap();
        assert!(v.get("a").is_none());
        assert!(v.text_at("a").is_none());
        assert!(v.items_at("a").is_none());
        assert_eq!(v.get_or("a", JsonValue::of_u64(9)).to_text(), "9");
    }
    assert_eq!(JsonValue::empty_object().to_text(), "{}");
}

#[test]
fn texts_are_the_same_by_their_characters() {
    assert!(same_text("grün", "grün"));
    assert!(!same_text("a", "A"));
    assert!(!same_text("a", ""));
}

#[test]
fn text_is_split_at_the_first_place() {
    assert_eq!(split_once("a:b:c", ':'), Some(("a", "b:c")));
    assert_eq!(split_once("ü\nß", '\n'), Some(("ü", "ß")));
    assert_eq!(split_once(":", ':'), Some(("", "")));
    assert_eq!(split_once("abc", ':'), None);
}

#[test]
fn white_space_is_what_std_takes_for_it() {
    for u in 0..=0x10ffffu32 {
        if let Some(c) = char::from_u32(u) {
            assert_eq!(is_white_space(c), c.is_whitespace());
        }
    }
}

#[test]
fn text_is_trimmed() {
    for text in ["", "  ", " a b ", "\u{3000}ü\r\n", "x"] {
        assert_eq!(trimmed(text), text.trim());
    }
    assert_eq!(trim_end_char("a//", '/'), "a");
    assert_eq!(trim_end_char("///", '/'), "");
    assert_eq!(trim_end_text("x/v1/v1", "/v1"), "x");
    assert_eq!(trim_end_text("x/v1/", "/v1"), "x/v1/");
    assert_eq!(strip_prefix("data:x", "data:"), Some("x"));
    assert_eq!(strip_prefix("dat", "data:"), None);
}
