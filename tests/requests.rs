use together_cli::catalog::{list_chat_models, parse_catalog, resolve_config};
use together_cli::decode::{handle_event, StreamEvent, StreamStep};
use together_cli::request::{
    build_request_body, compile_prompt, default_model, model_header, shows_headers, target_models,
    GenerationParams,
};
use together_cli::text::{decimal_text, json_string_text, replace_text, text_le};

fn no_params() -> GenerationParams {
    GenerationParams { max_tokens: None, temperature: None, top_p: None, top_k: None, repetition_penalty: None }
}

#[test]
fn every_placeholder_is_replaced() {
    assert_eq!(compile_prompt("{prompt} and {prompt}", "x"), "x and x");
    assert_eq!(compile_prompt("no placeholder", "x"), "no placeholder");
    assert_eq!(compile_prompt("{prompt}", "{prompt}"), "{prompt}");
    assert_eq!(compile_prompt("{prom{prompt}", "é"), "{promé");
}

#[test]
fn replace_handles_unicode_and_edges() {
    assert_eq!(replace_text("a/b/c", "/", "_"), "a_b_c");
    assert_eq!(replace_text("", "/", "_"), "");
    assert_eq!(replace_text("ααα", "αα", "β"), "βα");
}

#[test]
fn request_body_uses_defaults() {
    let body = build_request_body("m", "p", &no_params());
    assert_eq!(
        body,
        r#"{"model": "m","prompt": "p","max_tokens": 512,"temperature": 0,"top_p": 0.7,"top_k": 50,"repetition_penalty": 1,"stream_tokens": true}"#
    );
}

#[test]
fn request_body_uses_given_values() {
    let params = GenerationParams {
        max_tokens: Some(1024),
        temperature: Some("0.5".to_string()),
        top_p: Some("0.9".to_string()),
        top_k: Some(0),
        repetition_penalty: Some("1.1".to_string()),
    };
    let body = build_request_body("m", "p", &params);
    assert_eq!(
        body,
        r#"{"model": "m","prompt": "p","max_tokens": 1024,"temperature": 0.5,"top_p": 0.9,"top_k": 0,"repetition_penalty": 1.1,"stream_tokens": true}"#
    );
}

#[test]
fn end_to_end_alpha() {
    let body = r#"[{"name": "alpha", "display_type": "chat",
        "config": {"prompt_format": "<s>{prompt}</s>", "stop": ["STOP"]}}]"#;
    let r = resolve_config(parse_catalog(body), "alpha");
    let prompt = compile_prompt(&r.config.prompt, "hi");
    let request = build_request_body("alpha", &prompt, &no_params());
    assert!(request.contains("<s>hi</s>"));
    let ev = StreamEvent::Token(r#"{"choices":[{"text":"STOP"}]}"#.to_string());
    assert!(matches!(handle_event(ev, &r.config.stop_words), StreamStep::Suppress));
    let ev = StreamEvent::Token(r#"{"choices":[{"text":"Hello"}]}"#.to_string());
    assert!(matches!(handle_event(ev, &r.config.stop_words), StreamStep::Write(_)));
}

#[test]
fn all_models_targets_featured_chat_models() {
    let body = r#"[
      {"name": "c", "display_type": "chat", "isFeaturedModel": true},
      {"name": "a", "display_type": "chat", "isFeaturedModel": true},
      {"name": "d", "display_type": "chat", "isFeaturedModel": false},
      {"name": "b", "display_type": "chat", "isFeaturedModel": true},
      {"name": "e", "display_type": "chat"}
    ]"#;
    let ds = parse_catalog(body).ok().unwrap();
    let listed = list_chat_models(&ds, true);
    let targets = target_models(Some(listed), Some(vec!["x".to_string()]), "dflt".to_string());
    assert_eq!(targets, vec!["a", "b", "c"]);
    assert!(shows_headers(&targets));
    let headers: Vec<String> = targets.iter().map(|t| model_header(t)).collect();
    assert_eq!(headers, vec!["# Model: a", "# Model: b", "# Model: c"]);
}

#[test]
fn targets_fall_back_to_named_then_default() {
    let t = target_models(Some(Vec::new()), Some(vec!["x".to_string(), "y".to_string()]), "d".to_string());
    assert_eq!(t, vec!["x", "y"]);
    let t = target_models(None, None, "d".to_string());
    assert_eq!(t, vec!["d"]);
    assert!(!shows_headers(&t));
}

#[test]
fn default_model_from_configuration() {
    assert_eq!(default_model(None), "togethercomputer/llama-2-70b-chat");
    assert_eq!(default_model(Some("mine".to_string())), "mine");
}

#[test]
fn decimal_numerals() {
    assert_eq!(decimal_text(0), "0");
    assert_eq!(decimal_text(512), "512");
    assert_eq!(decimal_text(u64::MAX), u64::MAX.to_string());
}

#[test]
fn text_order_is_lexicographic() {
    assert!(text_le("", "a"));
    assert!(text_le("ab", "abc"));
    assert!(!text_le("abc", "ab"));
    assert!(text_le("B", "a"));
    assert!(text_le("same", "same"));
    assert!(!text_le("é", "z"));
}

#[test]
fn json_special_characters_are_escaped() {
    assert_eq!(json_string_text("a\"b\\c\nd"), r#""a\"b\\c\nd""#);
    assert_eq!(json_string_text("\u{1}\t\r\u{8}\u{c}\u{1f}é"), "\"\\u0001\\t\\r\\b\\f\\u001fé\"");
    assert_eq!(json_string_text(""), "\"\"");
}

#[test]
fn request_body_is_json_for_any_prompt() {
    let prompt = compile_prompt("<s>{prompt}</s>", "say \"hi\"\\\nnow\u{7}");
    let body = build_request_body("org/\"m\"", &prompt, &no_params());
    let v: serde_json::Value = serde_json::from_str(&body).unwrap();
    assert_eq!(v["prompt"].as_str().unwrap(), "<s>say \"hi\"\\\nnow\u{7}</s>");
    assert_eq!(v["model"].as_str().unwrap(), "org/\"m\"");
    assert_eq!(v["max_tokens"].as_i64(), Some(512));
    assert_eq!(v["stream_tokens"].as_bool(), Some(true));
}

#[test]
fn embedding_body_is_json_for_any_input() {
    let body = together_cli::embeddings::embedding_request_body("line one\nline \"two\"", "m");
    let v: serde_json::Value = serde_json::from_str(&body).unwrap();
    assert_eq!(v["input"].as_str().unwrap(), "line one\nline \"two\"");
    assert_eq!(v["model"].as_str().unwrap(), "m");
}
