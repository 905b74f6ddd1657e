//! Settings read from the environment.
use vstd::prelude::*;
use vstd::string::*;
use crate::error::Error;
use crate::text::{owned, str_eq};

verus! {

/// The credentials, store address and log destination.
#[derive(Debug)]
pub struct Config {
    pub api_key: String,
    pub api_secret_key: String,
    pub access_token: String,
    pub access_token_secret: String,
    pub redis_url: String,
    pub log_path: String,
}

impl Clone for Config {
    fn clone(&self) -> (r: Self)
        ensures
            r == *self,
    {
        Config {
            api_key: self.api_key.clone(),
            api_secret_key: self.api_secret_key.clone(),
            access_token: self.access_token.clone(),
            access_token_secret: self.access_token_secret.clone(),
            redis_url: self.redis_url.clone(),
            log_path: self.log_path.clone(),
        }
    }
}

/// How much the log keeps.
#[derive(Debug, Clone, Copy, PartialEq, Eq, Structural)]
pub enum LogLevel {
    Error,
    Warn,
    Info,
    Debug,
    Trace,
}

/// The log level a numeric setting selects: above four only errors, four
/// warnings, three information, two debugging, anything lower everything.
pub fn log_level_of(n: i8) -> (r: LogLevel)
    ensures
        n > 4 ==> r == LogLevel::Error,
        n == 4 ==> r == LogLevel::Warn,
        n == 3 ==> r == LogLevel::Info,
        n == 2 ==> r == LogLevel::Debug,
        n < 2 ==> r == LogLevel::Trace,
{
    if n > 4 {
        LogLevel::Error
    } else if n == 4 {
        LogLevel::Warn
    } else if n == 3 {
        LogLevel::Info
    } else if n == 2 {
        LogLevel::Debug
    } else {
        LogLevel::Trace
    }
}

impl Config {
    /// The configuration from the variables as read (`None` where unset). The
    /// first missing required variable, in the order of the parameters, is
    /// the error; the log path defaults to `/var/log`.
    pub fn new(
        api_key: Option<String>,
        api_secret_key: Option<String>,
        access_token: Option<String>,
        access_token_secret: Option<String>,
        redis_url: Option<String>,
        log_path: Option<String>,
    ) -> (r: Result<Config, Error>)
        ensures
            api_key is None ==> r matches Err(Error::ApiKeyNotFound),
            api_key is Some && api_secret_key is None ==> r matches Err(Error::ApiSecretKeyNotFound),
            api_key is Some && api_secret_key is Some && access_token is None ==> r matches Err(
                Error::AccessTokenNotFound,
            ),
            api_key is Some && api_secret_key is Some && access_token is Some && access_token_secret is None
                ==> r matches Err(Error::AccessTokenSecretNotFound),
            api_key is Some && api_secret_key is Some && access_token is Some && access_token_secret is Some
                && redis_url is None ==> r matches Err(Error::RedisURLNotFound),
            api_key is Some && api_secret_key is Some && access_token is Some && access_token_secret is Some
                && redis_url is Some ==> (r matches Ok(c) && c.api_key == api_key->0 && c.api_secret_key
                == api_secret_key->0 && c.access_token == access_token->0 && c.access_token_secret
                == access_token_secret->0 && c.redis_url == redis_url->0 && (match log_path {
                Some(p) => c.log_path == p,
                None => c.log_path@ == "/var/log"@,
            })),
    {
        let api_key = match api_key {
            Some(v) => v,
            None => return Err(Error::ApiKeyNotFound),
        };
        let api_secret_key = match api_secret_key {
            Some(v) => v,
            None => return Err(Error::ApiSecretKeyNotFound),
        };
        let access_token = match access_token {
            Some(v) => v,
            None => return Err(Error::AccessTokenNotFound),
        };
        let access_token_secret = match access_token_secret {
            Some(v) => v,
            None => return Err(Error::AccessTokenSecretNotFound),
        };
        let redis_url = match redis_url {
            Some(v) => v,
            None => return Err(Error::RedisURLNotFound),
        };
        let log_path = match log_path {
            Some(v) => v,
            None => owned("/var/log"),
        };
        Ok(Config { api_key, api_secret_key, access_token, access_token_secret, redis_url, log_path })
    }

    /// Whether logs go to the console rather than to rotating files.
    pub fn logs_to_console(&self) -> (r: bool)
        ensures
            r == (self.log_path@ == "stdout"@),
    {
        str_eq(self.log_path.as_str(), "stdout")
    }
}

} // verus!
