//! The publish gateway's settings: how the broker producer is configured.

use crate::config::Config;
use vstd::prelude::*;
use vstd::string::StringExecFns;

verus! {

/// The deadline of one publish, in seconds.
pub const SEND_TIMEOUT_SECONDS: u64 = 5;

/// The producer's settings for `config`, in the order in which they are set:
/// the broker's address, SASL over TLS with the configured mechanism, user
/// and password, a message timeout of five seconds, and acknowledgement by
/// all replicas.
pub open spec fn settings_for(config: Config) -> Seq<(Seq<char>, Seq<char>)> {
    seq![
        ("bootstrap.servers"@, config.kafka_bootstrap_servers@),
        ("security.protocol"@, "SASL_SSL"@),
        ("sasl.mechanism"@, config.kafka_sasl_mechanism@),
        ("sasl.username"@, config.kafka_sasl_username@),
        ("sasl.password"@, config.kafka_sasl_password@),
        ("message.timeout.ms"@, "5000"@),
        ("acks"@, "all"@),
    ]
}

fn setting(key: &str, value: &str) -> (r: (String, String))
    ensures
        r.deep_view() == (key@, value@),
{
    (String::from_str(key), String::from_str(value))
}

/// The settings with which the broker producer is made.
pub fn producer_settings(config: &Config) -> (settings: Vec<(String, String)>)
    ensures
        settings.deep_view() == settings_for(*config),
{
    let mut settings: Vec<(String, String)> = Vec::new();
    settings.push(setting("bootstrap.servers", config.kafka_bootstrap_servers.as_str()));
    settings.push(setting("security.protocol", "SASL_SSL"));
    settings.push(setting("sasl.mechanism", config.kafka_sasl_mechanism.as_str()));
    settings.push(setting("sasl.username", config.kafka_sasl_username.as_str()));
    settings.push(setting("sasl.password", config.kafka_sasl_password.as_str()));
    settings.push(setting("message.timeout.ms", "5000"));
    settings.push(setting("acks", "all"));
    assert(settings.deep_view() =~= settings_for(*config));
    settings
}

} // verus!
