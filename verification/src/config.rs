//! Run configuration: credentials and the upstream address.

use vstd::prelude::*;
use crate::text::push_str;

verus! {

/// Default address of the upstream iclass service.
pub const DEFAULT_BASE_URL: &'static str = "https://iclass.ucas.edu.cn:8181";

/// UCAS default initial password (shared by accounts that never changed it).
pub const DEFAULT_PASSWORD: &'static str = "Ucas@2025";

/// Program configuration.
#[derive(Debug, Clone)]
pub struct Config {
    /// Student number.
    pub username: String,
    /// Password.
    pub password: String,
    /// Upstream address (`DEFAULT_BASE_URL` by default).
    pub base_url: String,
}

/// Why a configuration is refused.
#[derive(Debug, PartialEq, Eq)]
pub enum ConfigError {
    /// The student number or the password is empty.
    EmptyCredentials,
    /// The configuration is invalid, for the cause held (the context that a
    /// configuration on the default address adds to its error).
    Invalid(Box<ConfigError>),
}

/// The message shown for an error: its cause, after `配置无效: ` for each
/// context around it.
pub open spec fn config_error_text(e: ConfigError) -> Seq<char>
    decreases e,
{
    match e {
        ConfigError::EmptyCredentials => "学号与密码不能为空"@,
        ConfigError::Invalid(cause) => "配置无效: "@ + config_error_text(*cause),
    }
}

impl ConfigError {
    /// The message shown for the error.
    pub fn message(&self) -> (r: String)
        ensures
            r@ == config_error_text(*self),
        decreases self,
    {
        match self {
            ConfigError::EmptyCredentials => "学号与密码不能为空".to_owned(),
            ConfigError::Invalid(cause) => {
                let mut r = "配置无效: ".to_owned();
                let inner = cause.message();
                push_str(&mut r, inner.as_str());
                r
            },
        }
    }
}

impl Config {
    /// Builds a configuration from student number, password and upstream address;
    /// refused when the student number or the password is empty.
    pub fn new(username: &str, password: &str, base_url: &str) -> (r: Result<Config, ConfigError>)
        ensures
            r is Ok <==> (username@.len() > 0 && password@.len() > 0),
            r matches Ok(c) ==> c.username@ == username@ && c.password@ == password@ && c.base_url@
                == base_url@,
            r matches Err(e) ==> e == ConfigError::EmptyCredentials,
    {
        if username.is_empty() || password.is_empty() {
            return Err(ConfigError::EmptyCredentials);
        }
        Ok(Config { username: username.to_owned(), password: password.to_owned(), base_url: base_url.to_owned() })
    }

    /// Builds a configuration on the default upstream address; a refusal is
    /// reported as an invalid configuration, with the refusal as its cause.
    pub fn new_with_default_base(username: &str, password: &str) -> (r: Result<Config, ConfigError>)
        ensures
            r is Ok <==> (username@.len() > 0 && password@.len() > 0),
            r matches Ok(c) ==> c.username@ == username@ && c.password@ == password@ && c.base_url@
                == DEFAULT_BASE_URL@,
            r matches Err(e) ==> e == ConfigError::Invalid(Box::new(ConfigError::EmptyCredentials)),
    {
        match Config::new(username, password, DEFAULT_BASE_URL) {
            Ok(c) => Ok(c),
            Err(e) => Err(ConfigError::Invalid(Box::new(e))),
        }
    }
}

} // verus!
