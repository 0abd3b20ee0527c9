use lmoclient::config::{ClientConfig, Endpoints};
use lmoclient::error::ClientError;
use std::time::Duration;

#[test]
fn test_default_config() {
    let config = ClientConfig::default();
    assert!(config.validate().is_ok());
    assert_eq!(config.server_url, "http://localhost:3000");
}

#[test]
fn test_api_url_building() {
    let config = ClientConfig::default();

    assert_eq!(config.api_url("v1/models").unwrap(), "http://localhost:3000/v1/models");

    assert_eq!(config.api_url("/v1/health").unwrap(), "http://localhost:3000/v1/health");
}

#[test]
fn test_invalid_url() {
    let result = ClientConfig::new("not-a-url");
    assert!(result.is_err());
}

#[test]
fn default_config_values() {
    let config = ClientConfig::default();
    assert_eq!(config.timeout, Duration::from_secs(30));
    assert_eq!(config.user_agent, "lmoclient/0.1.0");
    assert_eq!(config.api_key, None);
    assert_eq!(config.max_retries, 3);
    assert_eq!(config.retry_delay, Duration::from_millis(1000));
    assert!(config.enable_logging);
}

#[test]
fn new_config_keeps_the_url() {
    let config = ClientConfig::new("https://example.org/api").unwrap();
    assert_eq!(config.server_url, "https://example.org/api");
    assert_eq!(config.max_retries, 3);
}

#[test]
fn invalid_url_is_a_configuration_error() {
    match ClientConfig::new("not-a-url") {
        Err(ClientError::ConfigError(m)) => {
            assert_eq!(m, "Invalid server URL: relative URL without a base")
        }
        other => panic!("unexpected: {:?}", other),
    }
}

#[test]
fn validate_checks_url_before_timeout_before_retries() {
    let mut config = ClientConfig::default();
    config.server_url = "::".to_string();
    config.timeout = Duration::from_millis(999);
    config.max_retries = 11;
    match config.validate() {
        Err(ClientError::ConfigError(m)) => assert!(m.starts_with("Invalid server URL: ")),
        other => panic!("unexpected: {:?}", other),
    }
    config.server_url = "http://localhost:3000".to_string();
    match config.validate() {
        Err(ClientError::ConfigError(m)) => assert_eq!(m, "Timeout must be greater than 0"),
        other => panic!("unexpected: {:?}", other),
    }
    config.timeout = Duration::from_secs(1);
    match config.validate() {
        Err(ClientError::ConfigError(m)) => assert_eq!(m, "Max retries cannot exceed 10"),
        other => panic!("unexpected: {:?}", other),
    }
    config.max_retries = 10;
    assert_eq!(config.validate(), Ok(()));
}

#[test]
fn api_url_strips_slashes_on_both_sides() {
    let mut config = ClientConfig::default();
    config.server_url = "http://h//".to_string();
    assert_eq!(config.api_url("//a/b/").unwrap(), "http://h/a/b/");
    assert_eq!(config.api_url("").unwrap(), "http://h");
    assert_eq!(config.api_url("///").unwrap(), "http://h");
    config.server_url = "///".to_string();
    assert_eq!(config.api_url("x").unwrap(), "/x");
}

#[test]
fn builders_change_one_field() {
    let config = ClientConfig::default()
        .with_api_key("k")
        .with_timeout(Duration::from_secs(5))
        .with_logging(false);
    assert_eq!(config.api_key, Some("k".to_string()));
    assert_eq!(config.timeout, Duration::from_secs(5));
    assert!(!config.enable_logging);
    assert_eq!(config.server_url, "http://localhost:3000");
    assert_eq!(config.max_retries, 3);
    assert_eq!(config.retry_delay, Duration::from_millis(1000));
}

#[test]
fn endpoint_paths() {
    assert_eq!(Endpoints::HEALTH, "v1/health");
    assert_eq!(Endpoints::MODELS_LIST, "v1/models");
    assert_eq!(Endpoints::MODELS_LIST_LOCAL, "v1/models/local");
    assert_eq!(Endpoints::MODELS_LOAD, "v1/models/load");
    assert_eq!(Endpoints::MODELS_UNLOAD, "v1/models/unload");
    assert_eq!(Endpoints::MODELS_LOADED, "v1/models/loaded");
    assert_eq!(Endpoints::MODELS_STATUS, "v1/models/status");
    assert_eq!(Endpoints::MODELS_DOWNLOAD, "v1/models/download");
    assert_eq!(Endpoints::MODELS_DOWNLOAD_LEGACY, "v1/models/download/legacy");
    assert_eq!(Endpoints::CHAT_COMPLETIONS, "v1/chat/completions");
    assert_eq!(Endpoints::CHAT_COMPLETIONS_STREAM, "v1/chat/completions/stream");
    assert_eq!(Endpoints::download_progress_sse("abc"), "v1/models/download/abc/progress");
    assert_eq!(Endpoints::download_control("abc"), "v1/models/download/abc/control");
    assert_eq!(Endpoints::download_progress_sse(""), "v1/models/download//progress");
}
