//! Liveness and readiness answers.

use crate::text::{chars_of, contains_chars, is_substring};
use vstd::prelude::*;
use vstd::string::StringExecFns;

verus! {

/// The time, in seconds, that each readiness probe is given to answer.
pub const PROBE_TIMEOUT_SECONDS: u64 = 2;

/// The body of a health answer.
#[derive(Debug)]
pub struct HealthResponse {
    pub status: String,
    pub details: Option<HealthDetails>,
}

/// What the readiness probe found.
#[derive(Debug)]
pub struct HealthDetails {
    pub kafka: String,
    pub kubernetes: String,
    pub handlers_loaded: usize,
}

/// The liveness answer: always healthy.
pub fn health() -> (r: HealthResponse)
    ensures
        r.status@ == "healthy"@,
        r.details is None,
{
    HealthResponse { status: String::from_str("healthy"), details: None }
}

/// How the test message to the broker ended.
#[derive(Debug)]
pub enum SendProbe {
    Sent,
    /// The send failed, with the broker client's words.
    Failed(String),
    /// No answer within the probe's deadline.
    TimedOut,
}

/// Whether the broker is reachable, judged by a test message: it is where
/// the message was sent, and where the only complaint is that the topic
/// does not exist.
pub open spec fn broker_reachable(probe: SendProbe) -> bool {
    match probe {
        SendProbe::Sent => true,
        SendProbe::Failed(reason) => is_substring(reason@, "UnknownTopicOrPartition"@),
        SendProbe::TimedOut => false,
    }
}

/// Judges the broker probe.
pub fn check_kafka_connection(probe: &SendProbe) -> (r: Result<bool, String>)
    ensures
        r is Ok,
        r->Ok_0 == broker_reachable(*probe),
{
    match probe {
        SendProbe::Sent => Ok(true),
        SendProbe::Failed(reason) => {
            let hay = chars_of(reason.as_str());
            let needle = chars_of("UnknownTopicOrPartition");
            Ok(contains_chars(&hay, &needle))
        },
        SendProbe::TimedOut => Ok(false),
    }
}

/// How the attempt to reach the cluster API ended.
#[derive(Debug, Clone, Copy, PartialEq, Eq, Structural)]
pub enum ClientProbe {
    Connected,
    Failed,
    TimedOut,
}

/// Judges the cluster API probe: reachable only where a client was made.
pub fn check_kubernetes_connection(probe: ClientProbe) -> (r: Result<bool, String>)
    ensures
        r is Ok,
        r->Ok_0 == (probe == ClientProbe::Connected),
{
    match probe {
        ClientProbe::Connected => Ok(true),
        ClientProbe::Failed => Ok(false),
        ClientProbe::TimedOut => Ok(false),
    }
}

/// The label of one dependency in the readiness details.
pub open spec fn probe_label(probe: Result<bool, String>) -> Seq<char> {
    match probe {
        Ok(true) => "connected"@,
        Ok(false) => "unreachable"@,
        Err(e) => "error: "@ + e@,
    }
}

/// Whether a probe found its dependency reachable.
pub open spec fn probe_ok(probe: Result<bool, String>) -> bool {
    probe is Ok && probe->Ok_0
}

fn label_of(probe: &Result<bool, String>) -> (label: String)
    ensures
        label@ == probe_label(*probe),
{
    match probe {
        Ok(true) => String::from_str("connected"),
        Ok(false) => String::from_str("unreachable"),
        Err(e) => {
            let mut label = String::from_str("error: ");
            label.append(e.as_str());
            label
        },
    }
}

/// The readiness answer: status 200 and `ready` when the broker and the
/// cluster API are both reachable, else 503 and `not_ready`. The number of
/// loaded handlers is reported and does not count: none is a valid state.
pub fn ready(
    kafka: &Result<bool, String>,
    kubernetes: &Result<bool, String>,
    handlers_loaded: usize,
) -> (r: (u16, HealthResponse))
    ensures
        r.0 == if probe_ok(*kafka) && probe_ok(*kubernetes) {
            200u16
        } else {
            503u16
        },
        r.1.status@ == if probe_ok(*kafka) && probe_ok(*kubernetes) {
            "ready"@
        } else {
            "not_ready"@
        },
        r.1.details matches Some(details) && details.kafka@ == probe_label(*kafka)
            && details.kubernetes@ == probe_label(*kubernetes) && details.handlers_loaded
            == handlers_loaded,
{
    let kafka_ok = match kafka {
        Ok(true) => true,
        _ => false,
    };
    let kubernetes_ok = match kubernetes {
        Ok(true) => true,
        _ => false,
    };
    let is_ready = kafka_ok && kubernetes_ok;
    let details = HealthDetails {
        kafka: label_of(kafka),
        kubernetes: label_of(kubernetes),
        handlers_loaded,
    };
    if is_ready {
        (200, HealthResponse { status: String::from_str("ready"), details: Some(details) })
    } else {
        (503, HealthResponse { status: String::from_str("not_ready"), details: Some(details) })
    }
}

} // verus!
