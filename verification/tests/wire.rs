use domeneshop_client::date::{parse_date, Date};
use domeneshop_client::json::{write_json, JsonValue};
use domeneshop_client::parse::parse_json;
use domeneshop_client::text::i32_to_string;

#[test]
fn writer_produces_canonical_text() {
    let value = JsonValue::Obj(vec![
        ("name".to_string(), JsonValue::Str("a \"quoted\" \\ value\n".to_string())),
        ("count".to_string(), JsonValue::Int(-42)),
        ("flag".to_string(), JsonValue::Bool(true)),
        ("missing".to_string(), JsonValue::Null),
        (
            "items".to_string(),
            JsonValue::Arr(vec![JsonValue::Int(1), JsonValue::Int(2), JsonValue::Int(3)]),
        ),
    ]);
    assert_eq!(
        write_json(&value),
        "{\"name\":\"a \\\"quoted\\\" \\\\ value\\n\",\"count\":-42,\"flag\":true,\"missing\":null,\"items\":[1,2,3]}"
    );
}

#[test]
fn parser_accepts_whitespace_and_escapes() {
    let text = " {\r\n\t\"a\" : \"x\\u0041\\t\" , \"b\" : [ 1 , -2 ] } ";
    let value = parse_json(text).unwrap();
    match value {
        JsonValue::Obj(fields) => {
            assert_eq!(fields.len(), 2);
            assert_eq!(fields[0].0, "a");
            match &fields[0].1 {
                JsonValue::Str(s) => assert_eq!(s, "xA\t"),
                _ => panic!("wrong field shape"),
            }
            match &fields[1].1 {
                JsonValue::Arr(elems) => {
                    assert_eq!(elems.len(), 2);
                    assert!(matches!(elems[0], JsonValue::Int(1)));
                    assert!(matches!(elems[1], JsonValue::Int(-2)));
                },
                _ => panic!("wrong field shape"),
            }
        },
        _ => panic!("wrong document shape"),
    }
}

#[test]
fn parser_rejects_malformed_documents() {
    assert!(parse_json("").is_none());
    assert!(parse_json("{").is_none());
    assert!(parse_json("{\"a\":}").is_none());
    assert!(parse_json("[1,]").is_none());
    assert!(parse_json("01").is_none());
    assert!(parse_json("\"unterminated").is_none());
    assert!(parse_json("\"bad \\q escape\"").is_none());
    assert!(parse_json("\"lone surrogate \\ud800\"").is_none());
    assert!(parse_json("1 2").is_none());
}

#[test]
fn parser_handles_integer_bounds() {
    assert!(matches!(
        parse_json("9223372036854775807"),
        Some(JsonValue::Int(9223372036854775807))
    ));
    assert!(matches!(
        parse_json("-9223372036854775808"),
        Some(JsonValue::Int(-9223372036854775808))
    ));
    assert!(parse_json("9223372036854775808").is_none());
    assert!(parse_json("-9223372036854775809").is_none());
}

#[test]
fn nested_document_round_trips_through_text() {
    let value = JsonValue::Arr(vec![
        JsonValue::Obj(vec![
            ("k".to_string(), JsonValue::Str("v".to_string())),
            ("n".to_string(), JsonValue::Arr(vec![JsonValue::Bool(false), JsonValue::Null])),
        ]),
        JsonValue::Int(0),
    ]);
    let text = write_json(&value);
    let reparsed = parse_json(text.as_str()).unwrap();
    assert_eq!(write_json(&reparsed), text);
}

#[test]
fn dates_parse_only_when_they_exist() {
    assert_eq!(parse_date("2023-04-05"), Some(Date { year: 2023, month: 4, day: 5 }));
    assert_eq!(parse_date("2024-02-29"), Some(Date { year: 2024, month: 2, day: 29 }));
    assert_eq!(parse_date("2023-02-29"), None);
    assert_eq!(parse_date("2000-02-29"), Some(Date { year: 2000, month: 2, day: 29 }));
    assert_eq!(parse_date("1900-02-29"), None);
    assert_eq!(parse_date("2023-13-01"), None);
    assert_eq!(parse_date("2023-00-01"), None);
    assert_eq!(parse_date("2023-4-5"), None);
    assert_eq!(parse_date("20230405"), None);
}

#[test]
fn identifiers_render_in_decimal() {
    assert_eq!(i32_to_string(0), "0");
    assert_eq!(i32_to_string(42), "42");
    assert_eq!(i32_to_string(-7), "-7");
    assert_eq!(i32_to_string(i32::MAX), "2147483647");
    assert_eq!(i32_to_string(i32::MIN), "-2147483648");
}
