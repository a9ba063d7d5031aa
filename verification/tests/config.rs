use gpt_copy_v5_backend::config::{
    bind_address_text, check_bind, cors_origin, settings_from_env, BindIp, ConfigError, EnvValues,
    DEFAULT_MODEL,
};

fn unset() -> EnvValues {
    EnvValues {
        database_url: None,
        backend_host: None,
        backend_port: None,
        frontend_origin: None,
        openrouter_api_key: None,
        openrouter_model: None,
        allow_public_bind: None,
    }
}

#[test]
fn defaults_apply_when_unset() {
    let s = settings_from_env(unset()).ok().unwrap();
    assert_eq!(s.database_url, "sqlite://gpt-copy-v5.sqlite3");
    assert_eq!(s.host, "127.0.0.1");
    assert_eq!(s.port, 3001);
    assert_eq!(s.frontend_origin, "http://localhost:3000");
    assert_eq!(s.openrouter_api_key, None);
    assert_eq!(s.openrouter_model, DEFAULT_MODEL);
    assert!(!s.allow_public_bind);
    assert_eq!(bind_address_text(&s.host, s.port), "127.0.0.1:3001");
}

#[test]
fn blank_key_counts_as_none() {
    let mut values = unset();
    values.openrouter_api_key = Some("   ".to_owned());
    assert_eq!(settings_from_env(values).ok().unwrap().openrouter_api_key, None);
    let mut values = unset();
    values.openrouter_api_key = Some("sk-1".to_owned());
    assert_eq!(settings_from_env(values).ok().unwrap().openrouter_api_key, Some("sk-1".to_owned()));
}

#[test]
fn bad_port_is_refused() {
    let mut values = unset();
    values.backend_port = Some("70000".to_owned());
    assert_eq!(settings_from_env(values).err(), Some(ConfigError::InvalidPort));
    assert_eq!(ConfigError::InvalidPort.message(), "BACKEND_PORT must be a valid u16");
}

#[test]
fn public_binds_need_explicit_consent() {
    assert!(check_bind(&BindIp::V4([127, 0, 0, 1]), false).is_ok());
    assert!(check_bind(&BindIp::V4([127, 5, 6, 7]), false).is_ok());
    assert!(check_bind(&BindIp::V6([0, 0, 0, 0, 0, 0, 0, 1]), false).is_ok());
    assert_eq!(check_bind(&BindIp::V4([0, 0, 0, 0]), false), Err(ConfigError::PublicBindRefused));
    assert!(check_bind(&BindIp::V4([0, 0, 0, 0]), true).is_ok());
    let mut values = unset();
    values.allow_public_bind = Some("true".to_owned());
    assert!(settings_from_env(values).ok().unwrap().allow_public_bind);
    let mut values = unset();
    values.allow_public_bind = Some("yes".to_owned());
    assert!(!settings_from_env(values).ok().unwrap().allow_public_bind);
}

#[test]
fn cors_origin_must_be_a_header_value() {
    assert_eq!(cors_origin("http://localhost:3000").unwrap(), "http://localhost:3000");
    assert_eq!(cors_origin("http://bad\norigin").err(), Some(ConfigError::InvalidFrontendOrigin));
}
