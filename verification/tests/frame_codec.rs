use zerolaunch::protocol::codec::{encode_frame, looks_like_base64, summarize_message, summarize_value, MAX_FRAME_SIZE, MAX_HEADER_SIZE};
use zerolaunch::protocol::jsonrpc::{JsonRpcError, JsonValue, Message, Notification, Request, Response, MODEL_NOT_FOUND, PARSE_ERROR};

fn text(s: &str) -> JsonValue {
    JsonValue::String(s.to_string())
}

fn same(a: &JsonValue, b: &JsonValue) -> bool {
    match (a, b) {
        (JsonValue::Null, JsonValue::Null) => true,
        (JsonValue::Bool(x), JsonValue::Bool(y)) => x == y,
        (JsonValue::Number(x), JsonValue::Number(y)) => x == y,
        (JsonValue::String(x), JsonValue::String(y)) => x == y,
        (JsonValue::Array(x), JsonValue::Array(y)) => x.len() == y.len() && x.iter().zip(y).all(|(p, q)| same(p, q)),
        (JsonValue::Object(x), JsonValue::Object(y)) => {
            x.len() == y.len() && x.iter().zip(y).all(|(p, q)| p.0 == q.0 && same(&p.1, &q.1))
        }
        _ => false,
    }
}

fn as_text(v: &JsonValue) -> &str {
    match v {
        JsonValue::String(s) => s.as_str(),
        _ => panic!("仍是字符串"),
    }
}

#[test]
fn encode_frame_prefixes_content_length() {
    assert_eq!(encode_frame(b"{}"), b"Content-Length: 2\r\n\r\n{}".to_vec());
    assert_eq!(encode_frame(b""), b"Content-Length: 0\r\n\r\n".to_vec());
    let payload = vec![b'x'; 1234];
    let frame = encode_frame(&payload);
    assert!(frame.starts_with(b"Content-Length: 1234\r\n\r\n"));
    assert_eq!(&frame[frame.len() - 1234..], &payload[..]);
    assert_eq!(MAX_FRAME_SIZE, 16 * 1024 * 1024);
    assert_eq!(MAX_HEADER_SIZE, 512);
}

#[test]
fn summarize_keeps_text_structure() {
    let v = JsonValue::Object(vec![
        ("name".to_string(), text("hello")),
        (
            "list".to_string(),
            JsonValue::Array(vec![
                JsonValue::Number("1".to_string()),
                JsonValue::Number("2".to_string()),
                JsonValue::Object(vec![("deep".to_string(), text("world"))]),
            ]),
        ),
    ]);
    assert!(same(&summarize_value(&v), &v));
}

#[test]
fn summarize_keeps_short_base64() {
    let s = "aGVsbG8=";
    assert!(same(&summarize_value(&text(s)), &text("aGVsbG8=")));
}

#[test]
fn summarize_masks_long_base64() {
    let unit = "WmVyb0xhdW5jaA==";
    let b64 = unit.repeat(20);
    let summarized = summarize_value(&text(&b64));
    let s = as_text(&summarized);
    assert!(s.starts_with("<base64 len="), "应被摘要: {}", s);
    assert!(s.contains(&b64[..16]), "摘要应包含前缀");
}

#[test]
fn summarize_keeps_long_text() {
    let t = "这是普通的模型回复文本，".repeat(50);
    assert!(same(&summarize_value(&text(&t)), &text(&t)));
}

#[test]
fn summarize_masks_pure_lowercase_long_string() {
    let s = "a".repeat(80);
    let summarized = summarize_value(&text(&s));
    let out = as_text(&summarized);
    assert!(out.starts_with("<base64 len="), "纯小写长串应被摘要: {}", out);
}

#[test]
fn summarize_keeps_long_english_with_spaces() {
    let t = "the quick brown fox jumps over the lazy dog ".repeat(10);
    assert!(same(&summarize_value(&text(&t)), &text(&t)));
}

#[test]
fn summary_text_gives_byte_length_and_prefix() {
    let s = "A".repeat(100);
    let summarized = summarize_value(&text(&s));
    assert_eq!(as_text(&summarized), format!("<base64 len=100 prefix={}>", "A".repeat(64)));
}

#[test]
fn base64_threshold_is_more_than_98_percent_of_more_than_64_bytes() {
    assert!(!looks_like_base64(&"a".repeat(64)));
    assert!(looks_like_base64(&"a".repeat(65)));
    // 49 of 50 characters from the alphabet: exactly 98%, not more
    let exactly = format!("{} ", "a".repeat(49)).repeat(2);
    assert!(!looks_like_base64(&exactly));
    let above = format!("{} ", "a".repeat(99));
    assert!(looks_like_base64(&above));
}

#[test]
fn summarize_message_keeps_fields_and_summarizes_payloads() {
    let long = "Q".repeat(200);
    let req = Message::Request(Request {
        jsonrpc: "2.0".to_string(),
        id: 7,
        method: "host/icon.get".to_string(),
        params: JsonValue::Object(vec![("icon".to_string(), text(&long))]),
    });
    match summarize_message(&req) {
        Message::Request(r) => {
            assert_eq!(r.id, 7);
            assert_eq!(r.method, "host/icon.get");
            match &r.params {
                JsonValue::Object(m) => assert!(as_text(&m[0].1).starts_with("<base64 len=200")),
                _ => panic!("params stay an object"),
            }
        }
        _ => panic!("still a request"),
    }
    let resp = Message::Response(Response {
        jsonrpc: "2.0".to_string(),
        id: 3,
        result: Some(text(&long)),
        error: Some(JsonRpcError::new(MODEL_NOT_FOUND, "missing").with_data(text("d"))),
    });
    match summarize_message(&resp) {
        Message::Response(r) => {
            assert_eq!(r.id, 3);
            assert!(as_text(r.result.as_ref().unwrap()).starts_with("<base64"));
            let e = r.error.unwrap();
            assert_eq!(e.code, -32100);
            assert_eq!(e.message, "missing");
            assert!(same(e.data.as_ref().unwrap(), &text("d")));
        }
        _ => panic!("still a response"),
    }
    let note = Message::Notification(Notification {
        jsonrpc: "2.0".to_string(),
        method: "plugin/log".to_string(),
        params: JsonValue::Null,
    });
    match summarize_message(&note) {
        Message::Notification(n) => {
            assert_eq!(n.method, "plugin/log");
            assert!(matches!(n.params, JsonValue::Null));
        }
        _ => panic!("still a notification"),
    }
    assert_eq!(JsonRpcError::new(PARSE_ERROR, "bad").data.is_none(), true);
}

#[test]
fn summarizing_a_summary_changes_nothing() {
    let blob = "QUJD".repeat(40);
    let once = summarize_value(&JsonValue::String(blob));
    let twice = summarize_value(&once);
    match (&once, &twice) {
        (JsonValue::String(a), JsonValue::String(b)) => {
            assert!(a.starts_with("<base64 len=160 prefix="));
            assert_eq!(a, b);
        }
        _ => panic!("strings stay strings"),
    }
}
