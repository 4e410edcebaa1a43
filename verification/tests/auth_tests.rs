use headless_rss::auth::{check_basic_auth, parse_basic_credentials, AuthError};
use headless_rss::config::Config;

fn config(username: Option<&str>, password: Option<&str>) -> Config {
    Config {
        username: username.map(str::to_string),
        password: password.map(str::to_string),
        version: "dev".to_string(),
        db_path: "data/headless-rss.sqlite3".to_string(),
        testing_mode: false,
        feed_update_frequency_min: 15,
        openai_api_key: None,
        openai_base_url: "https://api.openai.com/v1".to_string(),
        openai_model: "gpt-5-nano".to_string(),
    }
}

#[test]
fn auth_is_off_unless_both_credentials_are_configured() {
    assert!(!config(Some("user"), None).auth_enabled());
    assert!(config(Some("user"), Some("pass")).auth_enabled());
    assert_eq!(check_basic_auth(&config(Some("user"), None), None), Ok(()));
    assert_eq!(check_basic_auth(&config(None, None), Some(b"garbage")), Ok(()));
}

#[test]
fn missing_header_is_not_authenticated() {
    let err = check_basic_auth(&config(Some("user"), Some("pass")), None).unwrap_err();
    assert_eq!(err, AuthError::NotAuthenticated);
    assert_eq!(err.message(), "Not authenticated");
}

#[test]
fn valid_credentials_pass() {
    // base64("user:pass") == "dXNlcjpwYXNz"
    assert_eq!(
        check_basic_auth(&config(Some("user"), Some("pass")), Some(b"Basic dXNlcjpwYXNz")),
        Ok(())
    );
}

#[test]
fn invalid_credentials_are_refused() {
    let cfg = config(Some("user"), Some("pass"));
    // base64("user:wrong")
    assert_eq!(
        check_basic_auth(&cfg, Some(b"Basic dXNlcjp3cm9uZw==")),
        Err(AuthError::InvalidCredentials)
    );
    assert_eq!(check_basic_auth(&cfg, Some(b"Bearer token")), Err(AuthError::InvalidCredentials));
    assert_eq!(check_basic_auth(&cfg, Some(b"Basic !!!")), Err(AuthError::InvalidCredentials));
    assert_eq!(
        AuthError::InvalidCredentials.message(),
        "Invalid authentication credentials"
    );
}

#[test]
fn credentials_split_at_first_colon() {
    // base64("user:pa:ss")
    assert_eq!(
        parse_basic_credentials(b"Basic dXNlcjpwYTpzcw=="),
        Some(("user".to_string(), "pa:ss".to_string()))
    );
    // base64("nocolon")
    assert_eq!(parse_basic_credentials(b"Basic bm9jb2xvbg=="), None);
    // A non-visible byte in the header.
    assert_eq!(parse_basic_credentials(b"Basic dXNlcjpwYXNz\x01"), None);
}
