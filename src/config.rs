//! Process configuration, as values; reading them from the environment is the
//! caller's part.
use vstd::prelude::*;
use crate::message::{path_of, AssetClass};

verus! {

/// Where the feeds are and the credential that subscribes to them.
#[derive(Clone, Debug, PartialEq, Eq)]
pub struct Config {
    pub url: String,
    pub api_key: String,
}

/// A required setting that is missing, by its variable name.
#[derive(Clone, Debug, PartialEq, Eq)]
pub enum ConfigError {
    NotFound(String),
}

pub open spec fn url_var() -> Seq<char> {
    "TIINGO_WS_URL"@
}

pub open spec fn api_key_var() -> Seq<char> {
    "TIINGO_API_KEY"@
}

impl ConfigError {
    /// `<name> must be set`.
    pub fn message(&self) -> (r: String)
        ensures
            match *self {
                ConfigError::NotFound(f) => r@ == f@ + " must be set"@,
            },
    {
        match self {
            ConfigError::NotFound(f) => f.clone().concat(" must be set"),
        }
    }
}

impl Config {
    /// The configuration from the values of the two settings, where the
    /// process has them: the feed base address first, then the credential.
    pub fn from_values(url: Option<String>, api_key: Option<String>) -> (r: Result<Config, ConfigError>)
        ensures
            match (url, api_key) {
                (Some(u), Some(k)) => r == Ok::<Config, ConfigError>(Config { url: u, api_key: k }),
                (None, _) => match r {
                    Err(ConfigError::NotFound(f)) => f@ == url_var(),
                    _ => false,
                },
                (Some(_), None) => match r {
                    Err(ConfigError::NotFound(f)) => f@ == api_key_var(),
                    _ => false,
                },
            },
    {
        match url {
            None => Err(ConfigError::NotFound(String::from_str("TIINGO_WS_URL"))),
            Some(u) => match api_key {
                None => Err(ConfigError::NotFound(String::from_str("TIINGO_API_KEY"))),
                Some(k) => Ok(Config { url: u, api_key: k }),
            },
        }
    }

    /// The address of the feed of an asset class: `<base>/<path>`.
    pub fn feed_url(&self, ac: AssetClass) -> (r: String)
        ensures
            r@ == self.url@ + "/"@ + path_of(ac),
    {
        let mut r = self.url.clone();
        r.append("/");
        r.append(ac.path().as_str());
        r
    }
}

/// Why a feed connection could not be had.
#[derive(Clone, Debug, PartialEq, Eq)]
pub enum ClientError {
    InternalServerError,
    ConnectionFailed(String),
    InvalidResponse(String),
}

pub open spec fn client_error_text(e: ClientError) -> Seq<char> {
    match e {
        ClientError::InternalServerError => "Internal server error occurred"@,
        ClientError::ConnectionFailed(m) => "Connection failed: "@ + m@,
        ClientError::InvalidResponse(m) => "Invalid response: "@ + m@,
    }
}

impl ClientError {
    pub fn message(&self) -> (r: String)
        ensures
            r@ == client_error_text(*self),
    {
        match self {
            ClientError::InternalServerError => String::from_str("Internal server error occurred"),
            ClientError::ConnectionFailed(m) => String::from_str("Connection failed: ").concat(m.as_str()),
            ClientError::InvalidResponse(m) => String::from_str("Invalid response: ").concat(m.as_str()),
        }
    }
}

} // verus!
