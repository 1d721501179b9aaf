//! Process configuration, from the values of the environment variables.

use vstd::prelude::*;
use vstd::string::StringExecFns;

verus! {

/// The configuration of the process.
#[derive(Debug)]
pub struct Config {
    pub kafka_bootstrap_servers: String,
    pub kafka_sasl_username: String,
    pub kafka_sasl_password: String,
    pub kafka_sasl_mechanism: String,
    pub api_signing_key: String,
    pub external_url: String,
    pub namespace: String,
}

impl Clone for Config {
    fn clone(&self) -> (r: Self)
        ensures
            r == *self,
    {
        Config {
            kafka_bootstrap_servers: self.kafka_bootstrap_servers.clone(),
            kafka_sasl_username: self.kafka_sasl_username.clone(),
            kafka_sasl_password: self.kafka_sasl_password.clone(),
            kafka_sasl_mechanism: self.kafka_sasl_mechanism.clone(),
            api_signing_key: self.api_signing_key.clone(),
            external_url: self.external_url.clone(),
            namespace: self.namespace.clone(),
        }
    }
}

/// The values of the variables that configure the process, `None` for one
/// that is not set: `KAFKA_BOOTSTRAP_SERVERS`, `KAFKA_SASL_USERNAME`,
/// `KAFKA_SASL_PASSWORD`, `KAFKA_SASL_MECHANISM`, `API_SIGNING_KEY`,
/// `EXTERNAL_URL` and `NAMESPACE`.
#[derive(Debug)]
pub struct Environment {
    pub kafka_bootstrap_servers: Option<String>,
    pub kafka_sasl_username: Option<String>,
    pub kafka_sasl_password: Option<String>,
    pub kafka_sasl_mechanism: Option<String>,
    pub api_signing_key: Option<String>,
    pub external_url: Option<String>,
    pub namespace: Option<String>,
}

/// A required variable that is not set.
#[derive(Debug, Clone, Copy, PartialEq, Eq, Structural)]
pub enum ConfigError {
    MissingBootstrapServers,
    MissingSaslUsername,
    MissingSaslPassword,
    MissingSigningKey,
}

impl ConfigError {
    /// The error as a sentence.
    pub fn message(&self) -> (m: &'static str)
        ensures
            m@ == match *self {
                ConfigError::MissingBootstrapServers => "KAFKA_BOOTSTRAP_SERVERS must be set"@,
                ConfigError::MissingSaslUsername => "KAFKA_SASL_USERNAME must be set"@,
                ConfigError::MissingSaslPassword => "KAFKA_SASL_PASSWORD must be set"@,
                ConfigError::MissingSigningKey => "API_SIGNING_KEY must be set"@,
            },
    {
        match self {
            ConfigError::MissingBootstrapServers => "KAFKA_BOOTSTRAP_SERVERS must be set",
            ConfigError::MissingSaslUsername => "KAFKA_SASL_USERNAME must be set",
            ConfigError::MissingSaslPassword => "KAFKA_SASL_PASSWORD must be set",
            ConfigError::MissingSigningKey => "API_SIGNING_KEY must be set",
        }
    }
}

/// The first required variable that `env` lacks, in the order in which they
/// are read.
pub open spec fn first_missing(env: Environment) -> Option<ConfigError> {
    if env.kafka_bootstrap_servers is None {
        Some(ConfigError::MissingBootstrapServers)
    } else if env.kafka_sasl_username is None {
        Some(ConfigError::MissingSaslUsername)
    } else if env.kafka_sasl_password is None {
        Some(ConfigError::MissingSaslPassword)
    } else if env.api_signing_key is None {
        Some(ConfigError::MissingSigningKey)
    } else {
        None
    }
}

/// The value of an optional variable, or its default.
pub open spec fn value_or(value: Option<String>, default: Seq<char>) -> Seq<char> {
    match value {
        Some(text) => text@,
        None => default,
    }
}

fn or_default(value: Option<String>, default: &str) -> (r: String)
    ensures
        r@ == value_or(value, default@),
{
    match value {
        Some(text) => text,
        None => String::from_str(default),
    }
}

impl Config {
    /// The configuration that the environment gives.
    ///
    /// The broker's address, user and password and the admin signing key
    /// are required. The SASL mechanism defaults to `SCRAM-SHA-512`, the
    /// external URL to `http://localhost:8080`, the namespace to `default`.
    pub fn from_env(env: Environment) -> (r: Result<Config, ConfigError>)
        ensures
            match first_missing(env) {
                Some(e) => r == Err::<Config, ConfigError>(e),
                None => r matches Ok(config) && config.kafka_bootstrap_servers@
                    == env.kafka_bootstrap_servers->Some_0@ && config.kafka_sasl_username@
                    == env.kafka_sasl_username->Some_0@ && config.kafka_sasl_password@
                    == env.kafka_sasl_password->Some_0@ && config.api_signing_key@
                    == env.api_signing_key->Some_0@ && config.kafka_sasl_mechanism@ == value_or(
                    env.kafka_sasl_mechanism,
                    "SCRAM-SHA-512"@,
                ) && config.external_url@ == value_or(env.external_url, "http://localhost:8080"@)
                    && config.namespace@ == value_or(env.namespace, "default"@),
            },
    {
        let kafka_bootstrap_servers = match env.kafka_bootstrap_servers {
            Some(text) => text,
            None => {
                return Err(ConfigError::MissingBootstrapServers);
            },
        };
        let kafka_sasl_username = match env.kafka_sasl_username {
            Some(text) => text,
            None => {
                return Err(ConfigError::MissingSaslUsername);
            },
        };
        let kafka_sasl_password = match env.kafka_sasl_password {
            Some(text) => text,
            None => {
                return Err(ConfigError::MissingSaslPassword);
            },
        };
        let kafka_sasl_mechanism = or_default(env.kafka_sasl_mechanism, "SCRAM-SHA-512");
        let api_signing_key = match env.api_signing_key {
            Some(text) => text,
            None => {
                return Err(ConfigError::MissingSigningKey);
            },
        };
        Ok(
            Config {
                kafka_bootstrap_servers,
                kafka_sasl_username,
                kafka_sasl_password,
                kafka_sasl_mechanism,
                api_signing_key,
                external_url: or_default(env.external_url, "http://localhost:8080"),
                namespace: or_default(env.namespace, "default"),
            },
        )
    }
}

} // verus!
