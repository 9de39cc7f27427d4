use paip::config::ensure_version;
use paip::config::Config;
use paip::config::VERSION;

#[test]
fn test_ensure_version_match() {
    let config = Config {
        version: VERSION,
        provider: "gemini".to_string(),
        timeout: 1000,
        gemini: None,
        prompt: Vec::new(),
    };
    assert!(ensure_version(&config).is_ok());
}

#[test]
fn test_ensure_version_mismatch() {
    let config = Config {
        version: VERSION + 1,
        provider: "gemini".to_string(),
        timeout: 1000,
        gemini: None,
        prompt: Vec::new(),
    };
    assert!(ensure_version(&config).is_err());
}

#[test]
fn test_ensure_version_mismatch_message() {
    let config = Config {
        version: 3,
        provider: "gemini".to_string(),
        timeout: 1000,
        gemini: None,
        prompt: Vec::new(),
    };
    let msg = ensure_version(&config).unwrap_err();
    assert_eq!(
        msg,
        "Configuration file version mismatch. Expected major version 1, found 3. Please update your config file or run with --init-config to generate a new one."
    );
}
