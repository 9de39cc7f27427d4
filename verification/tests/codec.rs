use paip::config::GeminiConfig;
use paip::emit::emit;
use paip::json::Json;
use paip::num::Decimal;
use paip::parse::parse;
use paip::request::build_request;
use paip::request::encode_request;

fn dec(s: &str) -> Decimal {
    Decimal::new(s.to_string()).unwrap()
}

fn full_gemini() -> GeminiConfig {
    GeminiConfig {
        key: "k".to_string(),
        model: "m".to_string(),
        temperature: Some(dec("0.7")),
        top_p: Some(dec("0.95")),
        top_k: Some(40),
        max_output_tokens: Some(1024),
        thinking_budget: Some(100),
        thinking_level: None,
    }
}

fn empty_gemini() -> GeminiConfig {
    GeminiConfig {
        key: "k".to_string(),
        model: "m".to_string(),
        temperature: None,
        top_p: None,
        top_k: None,
        max_output_tokens: None,
        thinking_budget: None,
        thinking_level: None,
    }
}

fn body_for(gc: &GeminiConfig, prompt: &str) -> String {
    let env = build_request(gc, prompt);
    let j = encode_request(&env);
    emit(&j)
}

#[test]
fn test_no_empty_generation_config_object() {
    let body = body_for(&empty_gemini(), "hi");
    assert_eq!(body, r#"{"contents":[{"parts":[{"text":"hi"}]}]}"#);
}

#[test]
fn test_thinking_level_takes_precedence() {
    let mut gc = full_gemini();
    gc.thinking_level = Some("high".to_string());
    let body = body_for(&gc, "hi");
    assert!(body.contains(r#""thinkingConfig":{"thinkingLevel":"high"}"#));
    assert!(!body.contains("thinkingBudget"));
}

#[test]
fn test_request_body_fields_on_the_wire() {
    let body = body_for(&full_gemini(), "ask me");
    let v: serde_json::Value = serde_json::from_str(&body).unwrap();
    assert_eq!(
        v["contents"][0]["parts"][0]["text"].as_str(),
        Some("ask me")
    );
    let g = &v["generationConfig"];
    assert_eq!(g["temperature"].as_f64(), Some(0.7));
    assert_eq!(g["topP"].as_f64(), Some(0.95));
    assert_eq!(g["topK"].as_u64(), Some(40));
    assert_eq!(g["maxOutputTokens"].as_u64(), Some(1024));
    assert_eq!(g["thinkingConfig"]["thinkingBudget"].as_u64(), Some(100));
    assert!(g["thinkingConfig"].get("thinkingLevel").is_none());
}

#[test]
fn test_request_round_trip_through_parser() {
    let body = body_for(&full_gemini(), "with \"quotes\" and\nnewlines");
    let parsed = parse(&body).expect("request body parses");
    assert_eq!(emit(&parsed), body);
}

#[test]
fn test_prompt_text_is_escaped() {
    let body = body_for(&empty_gemini(), "a\"b\\c\nd\te");
    let v: serde_json::Value = serde_json::from_str(&body).unwrap();
    assert_eq!(
        v["contents"][0]["parts"][0]["text"].as_str(),
        Some("a\"b\\c\nd\te")
    );
}

#[test]
fn test_parse_simple_document() {
    let j = parse(r#" { "a" : [ 1 , true , null , "x" ] } "#).unwrap();
    assert_eq!(emit(&j), r#"{"a":[1,true,null,"x"]}"#);
}

#[test]
fn test_parse_unicode_escapes() {
    let j = parse(r#""\u0041\n\u00e9""#).unwrap();
    match j {
        Json::Str(s) => assert_eq!(s, "A\n\u{e9}"),
        _ => panic!("expected a string"),
    }
}

#[test]
fn test_parse_surrogate_pair() {
    let j = parse(r#""\ud83d\ude00""#).unwrap();
    match j {
        Json::Str(s) => assert_eq!(s, "\u{1F600}"),
        _ => panic!("expected a string"),
    }
}

#[test]
fn test_parse_rejects_lone_surrogate() {
    assert!(parse(r#""\ud83d""#).is_none());
}

#[test]
fn test_parse_rejects_malformed_documents() {
    assert!(parse("").is_none());
    assert!(parse("{").is_none());
    assert!(parse(r#"{"a":1,}"#).is_none());
    assert!(parse("01").is_none());
    assert!(parse(r#"{"a":1} trailing"#).is_none());
    assert!(parse("nul").is_none());
}

#[test]
fn test_parse_number_tokens_kept_verbatim() {
    let j = parse("[-0.5e+2,0,12.25]").unwrap();
    assert_eq!(emit(&j), "[-0.5e+2,0,12.25]");
}

#[test]
fn test_emit_escapes_controls() {
    let j = Json::Str("q\"b\\n\n\u{1}".to_string());
    assert_eq!(emit(&j), "\"q\\\"b\\\\n\\n\\u0001\"");
}

#[test]
fn test_decimal_accepts_number_tokens_only() {
    assert!(Decimal::new("0.7".to_string()).is_some());
    assert!(Decimal::new("-12e-3".to_string()).is_some());
    assert!(Decimal::new("0".to_string()).is_some());
    assert!(Decimal::new("".to_string()).is_none());
    assert!(Decimal::new("01".to_string()).is_none());
    assert!(Decimal::new("1.".to_string()).is_none());
    assert!(Decimal::new("abc".to_string()).is_none());
    assert!(Decimal::new("NaN".to_string()).is_none());
}

#[test]
fn test_large_integer_parameters_on_the_wire() {
    let mut gc = empty_gemini();
    gc.top_k = Some(4294967295);
    gc.max_output_tokens = Some(1);
    let body = body_for(&gc, "x");
    assert_eq!(
        body,
        r#"{"contents":[{"parts":[{"text":"x"}]}],"generationConfig":{"topK":4294967295,"maxOutputTokens":1}}"#
    );
}

#[test]
fn test_client_request_body_matches_builder() {
    let config = paip::config::Config {
        version: 1,
        provider: "gemini".to_string(),
        timeout: 1000,
        gemini: Some(full_gemini()),
        prompt: Vec::new(),
    };
    let client = paip::llm::LlmClient::new(&config, false).unwrap();
    assert_eq!(client.request_body("ask me"), body_for(&full_gemini(), "ask me"));
}
