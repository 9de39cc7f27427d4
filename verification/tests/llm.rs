use paip::config::Config;
use paip::config::GeminiConfig;
use paip::llm::LlmClient;
use paip::num::Decimal;
use paip::request::ApiGenerationConfig;

fn base_gemini(key: &str) -> GeminiConfig {
    GeminiConfig {
        key: key.to_string(),
        model: "model".to_string(),
        temperature: None,
        top_p: None,
        top_k: None,
        max_output_tokens: None,
        thinking_budget: None,
        thinking_level: None,
    }
}

#[test]
fn test_new_client_unsupported_provider() {
    let config = Config {
        version: 1,
        provider: "unknown".to_string(),
        timeout: 1000,
        gemini: None,
        prompt: Vec::new(),
    };
    let result = LlmClient::new(&config, false);
    assert!(result.is_err());
    assert_eq!(
        result.unwrap_err().message(),
        "Unsupported LLM provider: unknown"
    );
}

#[test]
fn test_new_client_missing_gemini_config() {
    let config = Config {
        version: 1,
        provider: "gemini".to_string(),
        timeout: 1000,
        gemini: None,
        prompt: Vec::new(),
    };
    let result = LlmClient::new(&config, false);
    assert!(result.is_err());
    assert_eq!(
        result.unwrap_err().message(),
        "Gemini configuration not found for provider 'gemini'"
    );
}

#[test]
fn test_gemini_thinking_config_logic() {
    let mut gc = base_gemini("key");
    gc.temperature = Some(Decimal::new("1.0".to_string()).unwrap());
    gc.thinking_budget = Some(100);
    gc.thinking_level = Some("high".to_string());

    let api_config_high = ApiGenerationConfig::from(&gc);
    let tc_high = api_config_high.thinking_config.unwrap();
    assert_eq!(tc_high.thinking_level, Some("high".to_string()));
    assert!(tc_high.thinking_budget.is_none());

    gc.thinking_level = None;
    let api_config_budget = ApiGenerationConfig::from(&gc);
    let tc_budget = api_config_budget.thinking_config.unwrap();
    assert!(tc_budget.thinking_level.is_none());
    assert_eq!(tc_budget.thinking_budget, Some(100));
}

#[test]
fn test_new_client_default_api_key() {
    let config = Config {
        version: 1,
        provider: "gemini".to_string(),
        timeout: 1000,
        gemini: Some(base_gemini("YOUR_GEMINI_API_KEY")),
        prompt: Vec::new(),
    };
    let result = LlmClient::new(&config, false);
    assert!(result.is_err());
    assert!(result
        .unwrap_err()
        .message()
        .contains("API key is not configured"));
}

#[test]
fn test_new_client_empty_api_key() {
    let config = Config {
        version: 1,
        provider: "gemini".to_string(),
        timeout: 1000,
        gemini: Some(base_gemini("")),
        prompt: Vec::new(),
    };
    let result = LlmClient::new(&config, false);
    assert!(result.is_err());
    assert_eq!(
        result.unwrap_err().message(),
        "API key is not configured for provider: gemini"
    );
}

#[test]
fn test_request_url() {
    let config = Config {
        version: 1,
        provider: "gemini".to_string(),
        timeout: 1000,
        gemini: Some(base_gemini("secret")),
        prompt: Vec::new(),
    };
    let client = LlmClient::new(&config, false).unwrap();
    assert_eq!(
        client.request_url(),
        "https://generativelanguage.googleapis.com/v1beta/models/model:generateContent?key=secret"
    );
}
