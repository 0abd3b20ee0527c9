use lmoclient::error::ClientError;
use lmoclient::json::{parse_json, str_eq, JsonMember, JsonNumber, JsonValue};

fn number(unsigned: Option<u64>, signed: Option<i64>, text: &str) -> JsonValue {
    JsonValue::Number(JsonNumber { unsigned, signed, text: text.to_string() })
}

#[test]
fn documents_are_read_variant_by_variant() {
    assert_eq!(parse_json("null").unwrap(), JsonValue::Null);
    assert_eq!(parse_json(" true ").unwrap(), JsonValue::Bool(true));
    assert_eq!(parse_json("false").unwrap(), JsonValue::Bool(false));
    assert_eq!(parse_json("\"a\\nb\"").unwrap(), JsonValue::Text("a\nb".to_string()));
    assert_eq!(
        parse_json("[null, [1]]").unwrap(),
        JsonValue::Array(vec![
            JsonValue::Null,
            JsonValue::Array(vec![number(Some(1), Some(1), "1")]),
        ])
    );
    assert_eq!(
        parse_json("{\"b\": {\"c\": \"d\"}, \"a\": 2}").unwrap(),
        JsonValue::Object(vec![
            JsonMember { name: "a".to_string(), value: number(Some(2), Some(2), "2") },
            JsonMember {
                name: "b".to_string(),
                value: JsonValue::Object(vec![JsonMember {
                    name: "c".to_string(),
                    value: JsonValue::Text("d".to_string()),
                }]),
            },
        ])
    );
}

#[test]
fn numbers_keep_what_fits() {
    assert_eq!(parse_json("0").unwrap(), number(Some(0), Some(0), "0"));
    assert_eq!(parse_json("-1").unwrap(), number(None, Some(-1), "-1"));
    assert_eq!(
        parse_json("18446744073709551615").unwrap(),
        number(Some(u64::MAX), None, "18446744073709551615")
    );
    assert_eq!(
        parse_json("-9223372036854775808").unwrap(),
        number(None, Some(i64::MIN), "-9223372036854775808")
    );
    assert_eq!(parse_json("1.5").unwrap(), number(None, None, "1.5"));
}

#[test]
fn text_that_is_no_document_is_a_parse_error() {
    for text in ["", "{", "nul", "[1,]", "{\"a\":}", "1 2", "'a'"] {
        assert!(matches!(parse_json(text), Err(ClientError::ParseError(_))), "{}", text);
    }
    match parse_json("{") {
        Err(ClientError::ParseError(m)) => {
            assert_eq!(m, "EOF while parsing an object at line 1 column 1")
        }
        other => panic!("unexpected: {:?}", other),
    }
}

#[test]
fn members_are_found_by_name() {
    let v = parse_json("{\"a\": 1, \"b\": null, \"\": true}").unwrap();
    assert_eq!(v.get("a"), Some(&number(Some(1), Some(1), "1")));
    assert_eq!(v.get("b"), Some(&JsonValue::Null));
    assert_eq!(v.get(""), Some(&JsonValue::Bool(true)));
    assert_eq!(v.get("c"), None);
    assert_eq!(v.get("A"), None);
    assert_eq!(parse_json("[1]").unwrap().get("a"), None);
    let first = JsonValue::Object(vec![
        JsonMember { name: "k".to_string(), value: JsonValue::Bool(true) },
        JsonMember { name: "k".to_string(), value: JsonValue::Bool(false) },
    ]);
    assert_eq!(first.get("k"), Some(&JsonValue::Bool(true)));
}

#[test]
fn kinds_are_told_apart() {
    assert!(JsonValue::Object(vec![]).is_object());
    assert!(!JsonValue::Array(vec![]).is_object());
}

#[test]
fn texts_are_compared_by_content() {
    assert!(str_eq("", ""));
    assert!(str_eq("é", "é"));
    assert!(!str_eq("a", "b"));
    assert!(!str_eq("a", "ab"));
    assert!(!str_eq("ab", "a"));
}
