use course_signin::config::{Config, ConfigError, DEFAULT_BASE_URL};

#[test]
fn defaults_to_ucas_base_url() {
    let config = Config::new("20250001", "secret", DEFAULT_BASE_URL).expect("配置应有效");
    assert_eq!(config.base_url, DEFAULT_BASE_URL);
    assert_eq!(config.username, "20250001");
}

#[test]
fn rejects_empty_credentials() {
    assert!(Config::new("", "pwd", DEFAULT_BASE_URL).is_err());
    assert!(Config::new("20250001", "", DEFAULT_BASE_URL).is_err());
}

#[test]
fn default_base_config_keeps_fields() {
    let config = Config::new_with_default_base("20250001", "secret").expect("配置应有效");
    assert_eq!(config.base_url, "https://iclass.ucas.edu.cn:8181");
    assert_eq!(config.password, "secret");
    let err = Config::new_with_default_base("", "").unwrap_err();
    assert_eq!(err, ConfigError::Invalid(Box::new(ConfigError::EmptyCredentials)));
    assert_eq!(err.message(), "配置无效: 学号与密码不能为空");
    assert!(Config::new_with_default_base("20250001", "").is_err());
}

#[test]
fn config_error_message() {
    assert_eq!(ConfigError::EmptyCredentials.message(), "学号与密码不能为空");
}
