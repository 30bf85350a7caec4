use slack_app::client::check_envelope;
use slack_app::config::AppConfig;
use slack_app::error::SlackError;

#[test]
fn config_requires_a_signing_secret() {
    let config = AppConfig::new(String::new());
    match config.validate() {
        Err(SlackError::Config(m)) => assert_eq!(m, "Signing secret is required"),
        _ => panic!("expected a configuration error"),
    }
}

#[test]
fn config_requires_a_token_or_a_client_id() {
    let config = AppConfig::new("secret".to_string());
    match config.validate() {
        Err(SlackError::Config(m)) => {
            assert_eq!(m, "Either bot_token or client_id must be provided");
        },
        _ => panic!("expected a configuration error"),
    }
}

#[test]
fn config_client_id_needs_a_client_secret() {
    let mut config = AppConfig::new("secret".to_string());
    config.client_id = Some("cid".to_string());
    match config.validate() {
        Err(SlackError::Config(m)) => {
            assert_eq!(m, "client_secret is required when client_id is provided");
        },
        _ => panic!("expected a configuration error"),
    }
}

#[test]
fn complete_config_validates() {
    let mut config = AppConfig::new("secret".to_string());
    config.bot_token = Some("xoxb".to_string());
    assert!(config.validate().is_ok());
    assert!(!config.is_oauth_enabled());
    assert_eq!(config.get_bot_token().map(|s| s.as_str()), Some("xoxb"));
    config.client_id = Some("cid".to_string());
    config.client_secret = Some("SECRET-REDACTED".to_string());
    assert!(config.validate().is_ok());
    assert!(config.is_oauth_enabled());
}

#[test]
fn default_config_requests_the_bot_scope() {
    let config = AppConfig::new("secret".to_string());
    assert_eq!(config.scopes, vec!["chat:write".to_string()]);
    assert!(config.user_scopes.is_empty());
}

#[test]
fn ok_envelope_passes() {
    assert!(check_envelope(true, None).is_ok());
    assert!(check_envelope(true, Some("ignored".to_string())).is_ok());
}

#[test]
fn failed_envelope_carries_the_api_code() {
    match check_envelope(false, Some("channel_not_found".to_string())) {
        Err(SlackError::SlackApi { code, message }) => {
            assert_eq!(code, "channel_not_found");
            assert_eq!(message, "API call failed");
        },
        _ => panic!("expected an API error"),
    }
}

#[test]
fn failed_envelope_without_a_code_is_still_an_api_error() {
    match check_envelope(false, None) {
        Err(SlackError::SlackApi { code, .. }) => assert_eq!(code, ""),
        _ => panic!("expected an API error"),
    }
}
