use zerolaunch::model::types::{ModelChatRole, ModelError};
use zerolaunch::translate::{
    build_user_message, chat_failure_message, escape_control_chars_in_json_strings, extract_first_json_object,
    finish_llm_content, format_language, model_error_message, payload_to_result, scan_llm_content,
    strip_markdown_fence, strip_think_blocks, translation_chat_request, LlmSenseEntry, LlmTranslationPayload,
    ParsedLlmFields, TranslateRequest, DEFAULT_TRANSLATION_SYSTEM_PROMPT,
};

fn opt_text(v: Option<&serde_json::Value>) -> Result<Option<String>, ()> {
    match v {
        None | Some(serde_json::Value::Null) => Ok(None),
        Some(serde_json::Value::String(s)) => Ok(Some(s.clone())),
        Some(_) => Err(()),
    }
}

/// Decodes a candidate object as the host does (camelCase keys).
fn decode(json: &str) -> Option<LlmTranslationPayload> {
    let v: serde_json::Value = serde_json::from_str(json).ok()?;
    let o = v.as_object()?;
    let text = o.get("text")?.as_str()?.to_string();
    let phonetic = opt_text(o.get("phonetic")).ok()?;
    let computer_sense = opt_text(o.get("computerSense")).ok()?;
    let mut more_senses = Vec::new();
    match o.get("moreSenses") {
        None | Some(serde_json::Value::Null) => {}
        Some(serde_json::Value::Array(items)) => {
            for item in items {
                let io = item.as_object()?;
                more_senses.push(LlmSenseEntry {
                    text: io.get("text")?.as_str()?.to_string(),
                    label: opt_text(io.get("label")).ok()?,
                });
            }
        }
        Some(_) => return None,
    }
    Some(LlmTranslationPayload { text, phonetic, computer_sense, more_senses })
}

fn parse_llm_content(content: &str) -> Result<ParsedLlmFields, String> {
    let scan = scan_llm_content(content)?;
    let parsed = scan
        .candidates
        .iter()
        .enumerate()
        .find_map(|(k, c)| decode(&c.json).map(|p| (k, p)));
    finish_llm_content(scan, parsed)
}

fn chars(s: &str) -> Vec<char> {
    s.chars().collect()
}

#[test]
fn parse_rejects_broken_json_object() {
    let err = parse_llm_content(r#"{"text":"#).unwrap_err();
    assert!(err.contains("JSON") || err.contains("解析"), "err={err}");
}

#[test]
fn parse_accepts_full_payload() {
    let raw = r#"{"text":"缓存","phonetic":"/kæʃ/","computerSense":"高速缓冲","moreSenses":[{"label":"v.","text":"存入缓存"}]}"#;
    let (text, ph, cs, more) = parse_llm_content(raw).unwrap();
    assert_eq!(text, "缓存");
    assert_eq!(ph.as_deref(), Some("/kæʃ/"));
    assert_eq!(cs.as_deref(), Some("高速缓冲"));
    assert_eq!(more.len(), 1);
}

#[test]
fn parse_accepts_json_with_unescaped_newline_in_string() {
    let raw = "{\n  \"text\": \"hello\nworld\",\n  \"phonetic\": \"\"\n}";
    let (text, _, _, _) = parse_llm_content(raw).unwrap();
    assert_eq!(text, "hello\nworld");
}

#[test]
fn parse_plain_text_fallback_when_no_json_object() {
    let (text, ph, cs, more) = parse_llm_content("Hello, world").unwrap();
    assert_eq!(text, "Hello, world");
    assert!(ph.is_none());
    assert!(cs.is_none());
    assert!(more.is_empty());
}

#[test]
fn parse_extracts_json_after_think_tags() {
    let raw = r#"<think>先分析语气</think>
{"text":"你好","moreSenses":[{"label":"int.","text":"打招呼"}]}"#;
    let (text, _, _, more) = parse_llm_content(raw).unwrap();
    assert_eq!(text, "你好");
    assert_eq!(more.len(), 1);
}

#[test]
fn parse_extracts_json_from_preamble_and_fence() {
    let raw = r#"译文如下：
```json
{"text":"缓存失效"}
```
"#;
    let (text, _, _, _) = parse_llm_content(raw).unwrap();
    assert_eq!(text, "缓存失效");
}

#[test]
fn parse_rejects_empty_content() {
    let err = parse_llm_content("   ").unwrap_err();
    assert!(err.contains("空"), "err={err}");
}

#[test]
fn parse_preserves_braces_in_plain_text() {
    let (text, _, _, _) = parse_llm_content("fn f() { return 1; }").unwrap();
    assert_eq!(text, "fn f() { return 1; }");
}

#[test]
fn parse_does_not_extract_nested_json_example() {
    let raw = r#"JSON 格式如 {"text":"abc"} 所示"#;
    let (text, _, _, _) = parse_llm_content(raw).unwrap();
    assert_eq!(text, raw);
}

#[test]
fn parse_skips_json_fragment_inside_think() {
    let raw = r#"<think>{"unfinished": true}</think>
{"text":"你好"}"#;
    let (text, _, _, _) = parse_llm_content(raw).unwrap();
    assert_eq!(text, "你好");
}

#[test]
fn parse_rejects_truncated_json_in_text() {
    let err = parse_llm_content(r#"译文：{"text":"broken"#).unwrap_err();
    assert!(err.contains("JSON") || err.contains("解析"), "err={err}");
}

#[test]
fn parse_strips_think_tags_in_fallback() {
    let (text, _, _, _) = parse_llm_content("<think>先分析语气</think>你好").unwrap();
    assert_eq!(text, "你好");
}

#[test]
fn parse_rejects_bare_fence_marker() {
    let err = parse_llm_content("```").unwrap_err();
    assert!(err.contains("空"), "err={err}");
}

#[test]
fn missing_model_returns_chinese_error() {
    let req = TranslateRequest { text: "hi".into(), source: "en".into(), target: "zh".into() };
    let err = translation_chat_request("", true, &req).unwrap_err();
    assert!(err.contains("设置"));
}

#[test]
fn missing_handle_returns_chinese_error() {
    let req = TranslateRequest { text: "hi".into(), source: "en".into(), target: "zh".into() };
    let err = translation_chat_request("openai/gpt-4o-mini", false, &req).unwrap_err();
    assert!(err.contains("句柄"));
}

#[test]
fn translation_request_carries_prompt_and_user_message() {
    let req = TranslateRequest { text: "hi".into(), source: "AUTO".into(), target: "zh".into() };
    let chat = translation_chat_request("openai/gpt-4o-mini", true, &req).unwrap();
    assert_eq!(chat.model_id, "openai/gpt-4o-mini");
    assert_eq!(chat.messages.len(), 2);
    assert_eq!(chat.messages[0].role, ModelChatRole::System);
    assert_eq!(chat.messages[0].content, DEFAULT_TRANSLATION_SYSTEM_PROMPT);
    assert_eq!(chat.messages[1].role, ModelChatRole::User);
    assert_eq!(chat.messages[1].content, "源语言：自动检测\n目标语言：zh\n原文：hi");
    assert_eq!(build_user_message(&req), chat.messages[1].content);
    assert_eq!(format_language("Auto"), "自动检测");
    assert_eq!(format_language("en"), "en");
}

#[test]
fn payload_needs_text_and_drops_blank_senses() {
    let payload = LlmTranslationPayload {
        text: "  ".to_string(),
        phonetic: None,
        computer_sense: None,
        more_senses: vec![],
    };
    assert_eq!(payload_to_result(payload).unwrap_err(), "JSON 缺少有效 text 字段");
    let payload = LlmTranslationPayload {
        text: "ok".to_string(),
        phonetic: Some("p".to_string()),
        computer_sense: None,
        more_senses: vec![
            LlmSenseEntry { text: " ".to_string(), label: None },
            LlmSenseEntry { text: "kept".to_string(), label: Some("n.".to_string()) },
        ],
    };
    let (text, ph, _, more) = payload_to_result(payload).unwrap();
    assert_eq!(text, "ok");
    assert_eq!(ph.as_deref(), Some("p"));
    assert_eq!(more.len(), 1);
    assert_eq!(more[0].text, "kept");
}

#[test]
fn text_helpers_behave_as_documented() {
    assert_eq!(strip_markdown_fence(&chars("```json\n{\"a\":1}\n```")), chars("{\"a\":1}"));
    assert_eq!(extract_first_json_object(&chars("x {\"a\":\"}\"} y")), Some((2, 10)));
    assert_eq!(extract_first_json_object(&chars("{ unclosed")), None);
    assert_eq!(escape_control_chars_in_json_strings(&chars("{\"a\":\"x\ny\"}\n")), "{\"a\":\"x\\ny\"}\n");
    assert_eq!(strip_think_blocks(&chars(" <think>a</think>b ")), "b");
    assert_eq!(strip_think_blocks(&chars("<think>a</think>b<think>c")), "b<think>c");
}

#[test]
fn model_errors_read_in_chinese() {
    assert_eq!(model_error_message(&ModelError::NotSupported), "模型提供方不支持该操作");
    assert!(chat_failure_message(&ModelError::Transport("x".to_string())).starts_with("模型调用失败: "));
}

#[test]
fn escaping_twice_is_escaping_once() {
    let raw = "{\"text\":\"a\nb\u{1}c\\\"d\t\"}\n";
    let once = escape_control_chars_in_json_strings(&chars(raw));
    assert_eq!(once, "{\"text\":\"a\\nb\\u0001c\\\"d\\t\"}\n");
    let twice = escape_control_chars_in_json_strings(&chars(&once));
    assert_eq!(twice, once);
    let clean = "{\"text\":\"plain\"}";
    assert_eq!(escape_control_chars_in_json_strings(&chars(clean)), clean);
}
