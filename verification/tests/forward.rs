use serde_json::Value;
use webhook_relay::forward::OutboundMessage;

fn by_serde(content: &str) -> String {
    let mut members = serde_json::Map::new();
    members.insert("content".to_string(), Value::String(content.to_string()));
    serde_json::to_string(&Value::Object(members)).unwrap()
}

#[test]
fn body_holds_the_content_as_a_json_string() {
    let message = OutboundMessage { content: "{\"msg\":\"hi\"}".to_string() };
    assert_eq!(message.body(), r#"{"content":"{\"msg\":\"hi\"}"}"#);
}

#[test]
fn body_of_a_quoted_string() {
    let message = OutboundMessage { content: "\"ping\"".to_string() };
    assert_eq!(message.body(), r#"{"content":"\"ping\""}"#);
}

#[test]
fn body_of_empty_content() {
    let message = OutboundMessage { content: String::new() };
    assert_eq!(message.body(), r#"{"content":""}"#);
}

#[test]
fn body_is_what_serde_writes_for_the_object() {
    for content in ["ping", "\"Test\"", "{\"msg\":\"hi\"}", "line\nbreak\ttab", "\u{1}\\", "\u{e9}\u{1f600}", ""] {
        let message = OutboundMessage { content: content.to_string() };
        assert_eq!(message.body(), by_serde(content));
    }
}

#[test]
fn body_reads_back_as_an_object_with_the_content() {
    let message = OutboundMessage { content: "a \"b\" \\ c\n".to_string() };
    let back = serde_json::from_str::<Value>(&message.body()).unwrap();
    let members = back.as_object().unwrap();
    assert_eq!(members.len(), 1);
    assert_eq!(members.get("content").unwrap().as_str(), Some("a \"b\" \\ c\n"));
}

#[test]
fn content_type_is_json() {
    assert_eq!(OutboundMessage::content_type(), "application/json");
}
