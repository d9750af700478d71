use serde_json::Value;
use webhook_relay::extract::{extract, extract_member, ExtractionError};

fn parse(text: &str) -> Value {
    serde_json::from_str::<Value>(text).unwrap()
}

#[test]
fn extract_gives_an_object_as_compact_text() {
    let body = parse(r#"{"data": {"msg":"hi"}}"#);
    assert_eq!(extract(&body), Ok(r#"{"msg":"hi"}"#.to_string()));
}

#[test]
fn extract_gives_a_string_with_its_quotes() {
    let body = parse(r#"{"data":"ping"}"#);
    assert_eq!(extract(&body), Ok("\"ping\"".to_string()));
}

#[test]
fn extract_keeps_white_space_inside_a_string() {
    let body = parse(r#"{"data":"  ping  "}"#);
    assert_eq!(extract(&body), Ok("\"  ping  \"".to_string()));
}

#[test]
fn extract_gives_numbers_arrays_and_words_as_written() {
    assert_eq!(extract(&parse(r#"{"data": 42}"#)), Ok("42".to_string()));
    assert_eq!(extract(&parse(r#"{"data": -1.5}"#)), Ok("-1.5".to_string()));
    assert_eq!(extract(&parse(r#"{"data": [1, "a", null]}"#)), Ok(r#"[1,"a",null]"#.to_string()));
    assert_eq!(extract(&parse(r#"{"data": true}"#)), Ok("true".to_string()));
    assert_eq!(extract(&parse(r#"{"data": null}"#)), Ok("null".to_string()));
}

#[test]
fn extract_fails_without_the_member() {
    assert_eq!(extract(&parse(r#"{"content":"ping"}"#)), Err(ExtractionError::MissingField));
    assert_eq!(extract(&parse("{}")), Err(ExtractionError::MissingField));
}

#[test]
fn extract_fails_on_a_member_below_the_top() {
    assert_eq!(extract(&parse(r#"{"a":{"data":1}}"#)), Err(ExtractionError::MissingField));
}

#[test]
fn extract_fails_on_what_is_no_object() {
    assert_eq!(extract(&parse(r#"["data"]"#)), Err(ExtractionError::MissingField));
    assert_eq!(extract(&parse(r#""data""#)), Err(ExtractionError::MissingField));
    assert_eq!(extract(&parse("7")), Err(ExtractionError::MissingField));
}

#[test]
fn extract_member_trims_the_text() {
    assert_eq!(extract_member(Some("  {\"msg\":\"hi\"} \n".to_string())), Ok("{\"msg\":\"hi\"}".to_string()));
    assert_eq!(extract_member(Some("42".to_string())), Ok("42".to_string()));
    assert_eq!(extract_member(Some(" \t ".to_string())), Ok("".to_string()));
}

#[test]
fn extract_member_without_a_member_is_missing_field() {
    assert_eq!(extract_member(None), Err(ExtractionError::MissingField));
}
