use gpt_bridge::commands::gpt4::{prompt, CommandOption};
use gpt_bridge::completion::{
    conclude, decode, on_delivery, status_is_success, CompletionError, CompletionRequest,
    Delivery, Exchange, Payload, Progress,
};
use gpt_bridge::json::{Json, Member};
use gpt_bridge::text::to_decimal;
use reqwest::header::{HeaderMap, HeaderName, HeaderValue, AUTHORIZATION, CONTENT_TYPE};
use reqwest::{Method, StatusCode};
use serde_json::Value;

/// The document that a value of the JSON library holds.
fn document(value: &Value) -> Json {
    match value {
        Value::Null => Json::Null,
        Value::Bool(b) => Json::Bool(*b),
        Value::Number(n) => Json::Number(n.to_string()),
        Value::String(s) => Json::Text(s.clone()),
        Value::Array(items) => Json::Array(items.iter().map(document).collect()),
        Value::Object(members) => Json::Object(
            members
                .iter()
                .map(|(name, value)| Member { name: name.clone(), value: document(value) })
                .collect(),
        ),
    }
}

/// The value of the JSON library that holds a document.
fn value(document: &Json) -> Value {
    match document {
        Json::Null => Value::Null,
        Json::Bool(b) => Value::Bool(*b),
        Json::Number(digits) => {
            digits.parse::<serde_json::Number>().map_or(Value::Null, Value::Number)
        },
        Json::Text(s) => Value::String(s.clone()),
        Json::Array(items) => Value::Array(items.iter().map(value).collect()),
        Json::Object(members) => {
            let mut map = serde_json::Map::new();
            for member in members {
                map.entry(member.name.clone()).or_insert_with(|| value(&member.value));
            }
            Value::Object(map)
        },
    }
}

/// What the payload `text` gives once the JSON library has read it.
fn payload(text: &str) -> Payload {
    match serde_json::from_str::<Value>(text) {
        Ok(parsed) => Payload::Document(document(&parsed)),
        Err(_) => Payload::Unparsed,
    }
}

fn answer_to(status: u16, text: &str) -> Result<String, CompletionError> {
    conclude(Exchange::Responded { status, payload: payload(text) })
}

#[test]
fn a_plain_choice_on_the_wire_is_answered_trimmed() {
    assert_eq!(answer_to(200, r#"{"choices": [{"text": "  hello  "}]}"#), Ok("hello".to_string()));
}

#[test]
fn no_choice_on_the_wire_gives_the_fixed_notice() {
    assert_eq!(
        answer_to(200, r#"{"choices": []}"#),
        Ok("No response from the GPT-4 API.".to_string())
    );
}

#[test]
fn a_chat_completion_on_the_wire_is_answered() {
    let text = r#"{
        "id": "chatcmpl-123",
        "object": "chat.completion",
        "created": 1677652288,
        "choices": [{
            "index": 0,
            "message": {
                "role": "assistant",
                "content": "\n\nHello there, how may I assist you today?"
            },
            "finish_reason": "stop"
        }],
        "usage": {"prompt_tokens": 9, "completion_tokens": 12, "total_tokens": 21}
    }"#;
    assert_eq!(answer_to(200, text), Ok("Hello there, how may I assist you today?".to_string()));
}

#[test]
fn an_error_body_on_the_wire_is_answered_with_the_status() {
    let text = r#"{"error": {"message": "Rate limit reached", "type": "requests"}}"#;
    assert_eq!(answer_to(429, text), Ok("429".to_string()));
    assert_eq!(answer_to(401, "not json at all"), Ok("401".to_string()));
}

#[test]
fn what_is_not_json_or_not_a_completion_is_a_payload_error() {
    for text in [
        "",
        "<html>",
        "{",
        "null",
        "[]",
        "{}",
        r#"{"error": {"message": "overloaded"}}"#,
        r#"{"choices": {}}"#,
        r#"{"choices": [1]}"#,
        r#"{"choices": [{"text": 5}]}"#,
        r#"{"choices": [{"message": {"role": "assistant"}}]}"#,
        r#"{"choices": [{"message": {"content": "fine"}}, {"index": 1}]}"#,
    ] {
        assert_eq!(answer_to(200, text), Err(CompletionError::Payload), "{:?}", text);
    }
}

#[test]
fn escapes_on_the_wire_arrive_as_characters() {
    let text = r#"{"choices": [{"message": {"content": " café \"au lait\"\n"}}]}"#;
    assert_eq!(answer_to(200, text), Ok("café \"au lait\"".to_string()));
}

#[test]
fn accessors_agree_with_the_json_library() {
    let samples = [
        r#"null"#,
        r#"true"#,
        r#"12.5"#,
        r#""text""#,
        r#"[]"#,
        r#"[1, "two", [3], {"four": 4}]"#,
        r#"{}"#,
        r#"{"a": 1, "b": "two", "c": [3], "d": {"e": null}, "": "empty"}"#,
    ];
    for text in samples {
        let parsed: Value = serde_json::from_str(text).unwrap();
        let held = document(&parsed);
        assert_eq!(held.as_str(), parsed.as_str());
        assert_eq!(
            held.as_array().map(|items| items.iter().map(value).collect::<Vec<Value>>()),
            parsed.as_array().cloned()
        );
        for name in ["a", "b", "c", "d", "e", "", "missing"] {
            assert_eq!(held.get(name).map(value), parsed.get(name).cloned(), "{} {}", text, name);
        }
        assert_eq!(value(&held), parsed);
    }
}

#[test]
fn the_request_body_reads_as_the_chat_request() {
    let prompt = "say \"hi\"\nplease";
    let request = CompletionRequest::new(prompt, "key").unwrap();
    let sent = serde_json::to_string(&value(&request.body)).unwrap();
    let read: Value = serde_json::from_str(&sent).unwrap();
    assert_eq!(read["model"], Value::String("gpt-3.5-turbo".to_string()));
    assert_eq!(read["messages"].as_array().map(Vec::len), Some(1));
    assert_eq!(read["messages"][0]["role"], Value::String("user".to_string()));
    assert_eq!(read["messages"][0]["content"], Value::String(prompt.to_string()));
    assert_eq!(read.as_object().map(|object| object.len()), Some(2));
    assert_eq!(read["messages"][0].as_object().map(|object| object.len()), Some(2));
    assert_eq!(read, value(&request.body));
}

#[test]
fn the_request_is_one_the_transport_accepts() {
    let request = CompletionRequest::new("prompt", "SECRET-REDACTED").unwrap();
    assert_eq!(Method::from_bytes(request.method.as_bytes()).unwrap(), Method::POST);
    assert!(reqwest::Url::parse(&request.url).is_ok());
    let mut expected = HeaderMap::new();
    expected.insert(
        HeaderName::from_static("content-type"),
        HeaderValue::from_static("application/json"),
    );
    expected.insert(
        HeaderName::from_static("authorization"),
        HeaderValue::from_str("Bearer SECRET-REDACTED").unwrap(),
    );
    assert_eq!(request.headers, expected);
    assert_eq!(
        request.headers.get(CONTENT_TYPE),
        Some(&HeaderValue::from_static("application/json"))
    );
    assert!(request.headers.contains_key(AUTHORIZATION));
}

#[test]
fn a_credential_is_usable_exactly_where_the_transport_takes_it() {
    let mut code: u32 = 0;
    while code <= 0x2FF {
        if let Some(c) = char::from_u32(code) {
            let credential = format!("k{}y", c);
            let taken = HeaderValue::from_str(&format!("Bearer {}", credential)).is_ok();
            assert_eq!(CompletionRequest::new("p", &credential).is_ok(), taken, "U+{:04X}", code);
        }
        code += 1;
    }
}

#[test]
fn the_success_range_is_the_one_of_the_transport() {
    for code in 100u16..=999 {
        let status = StatusCode::from_u16(code).unwrap();
        assert_eq!(status_is_success(code), status.is_success(), "{}", code);
    }
}

#[test]
fn a_status_is_written_as_the_transport_writes_it() {
    for code in 100u16..=999 {
        let status = StatusCode::from_u16(code).unwrap();
        assert_eq!(to_decimal(code), status.as_str(), "{}", code);
        if !status.is_success() {
            assert_eq!(
                on_delivery(Delivery::Responded { status: code }),
                Progress::Settled(Ok(status.as_str().to_string()))
            );
        }
    }
}

#[test]
fn an_option_value_is_a_prompt_only_where_it_is_a_string() {
    for text in [r#""a prompt""#, r#""""#, "null", "true", "7", "[\"x\"]", "{\"x\": \"y\"}"] {
        let parsed: Value = serde_json::from_str(text).unwrap();
        let options =
            vec![CommandOption { name: "prompt".to_string(), value: Some(document(&parsed)) }];
        assert_eq!(prompt(&options), parsed.as_str().unwrap_or(""), "{}", text);
    }
}

#[test]
fn decoding_reads_every_choice_of_a_parsed_payload() {
    let text = r#"{"choices": [
        {"text": "a"},
        {"message": {"content": "b"}},
        {"text": "c", "message": {}}
    ]}"#;
    let parsed: Value = serde_json::from_str(text).unwrap();
    let decoded = decode(&document(&parsed)).unwrap();
    assert_eq!(decoded.candidates, vec!["a", "b", "c"]);
}
