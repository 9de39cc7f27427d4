use paip::config::Config;
use paip::prompting::assemble;
use paip::prompting::resolve_prompt;
use paip::prompting::INSTRUCTIONS;

#[test]
fn test_assemble_input_with_prompt_and_message() {
    let prompt = "Summarize:";
    let input = "This is the text to summarize.";
    let message = "Keep it concise.";
    let expected = format!(
        "Summarize:\n\nThis is the text to summarize.\n\nKeep it concise.\n\n{INSTRUCTIONS}"
    );
    let result = assemble(Some(prompt), Some(message), input);
    assert_eq!(result, expected);
}

#[test]
fn test_assemble_input_with_prompt_only() {
    let prompt = "Summarize:";
    let input = "This is the text to summarize.";
    let expected = format!("Summarize:\n\nThis is the text to summarize.\n\n{INSTRUCTIONS}");
    let result = assemble(Some(prompt), None, input);
    assert_eq!(result, expected);
}

#[test]
fn test_assemble_input_with_message_only() {
    let input = "This is the text to process.";
    let message = "Add a concluding sentence.";
    let expected =
        format!("This is the text to process.\n\nAdd a concluding sentence.\n\n{INSTRUCTIONS}");
    let result = assemble(None, Some(message), input);
    assert_eq!(result, expected);
}

#[test]
fn test_assemble_input_without_prompt_or_message() {
    let input = "This is the text to process.";
    let expected = format!("This is the text to process.\n\n{INSTRUCTIONS}");
    let result = assemble(None, None, input);
    assert_eq!(result, expected);
}

#[test]
fn test_assemble_scenario_fixed_instructions() {
    let result = assemble(Some("Summarize:"), None, "text.");
    let expected = format!("Summarize:\n\ntext.\n\n{INSTRUCTIONS}");
    assert_eq!(result, expected);
}

#[test]
fn test_resolve_prompt_found() {
    let mut prompt = Vec::new();
    prompt.push(("p1".to_string(), "text1".to_string()));
    let config = Config {
        version: paip::config::VERSION,
        provider: "p".to_string(),
        timeout: 0,
        gemini: None,
        prompt,
    };
    let res = resolve_prompt(&config, Some("p1")).unwrap();
    assert_eq!(res, Some("text1".to_string()));
}

#[test]
fn test_resolve_prompt_not_found() {
    let config = Config {
        version: paip::config::VERSION,
        provider: "p".to_string(),
        timeout: 0,
        gemini: None,
        prompt: Vec::new(),
    };
    let res = resolve_prompt(&config, Some("p1"));
    assert!(res.is_err());
    assert!(res.unwrap_err().contains("not found"));
}

#[test]
fn test_resolve_prompt_none() {
    let config = Config {
        version: paip::config::VERSION,
        provider: "p".to_string(),
        timeout: 0,
        gemini: None,
        prompt: Vec::new(),
    };
    let res = resolve_prompt(&config, None).unwrap();
    assert!(res.is_none());
}
