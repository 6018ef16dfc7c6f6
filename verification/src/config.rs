//! Run configuration.
//!
//! An immutable record constructed before the run starts and shared by
//! reference. The only way a run can fail outright is a malformed target
//! address, which is rejected here before any connection is attempted;
//! every later failure is captured as data in the error tally.

use vstd::prelude::*;

verus! {

/// The benchmark's parameters.
#[derive(Clone, Debug)]
pub struct BenchmarkConfig {
    /// Target address of the WebSocket endpoint.
    pub url: String,
    /// How many connections to open.
    pub connections: u64,
    /// How many timed requests each connection emits.
    pub requests_per_connection: u64,
    /// The pause between consecutive requests of one connection.
    pub request_interval_ms: u64,
    /// The `op` code of the request frames.
    pub message_type: i64,
    /// The `user` payload field merged into each request.
    pub message_user: String,
    /// The `text` payload field merged into each request.
    pub message_text: String,
    /// The window over which connections are ramped up.
    pub ramp_up_time_ms: u64,
}

/// The one run-level failure: the run could not start at all.
#[derive(Clone, Copy, PartialEq, Eq, Structural, Debug)]
pub enum ConfigError {
    /// The target address did not parse as a URL.
    InvalidUrl,
}

/// Whether the url crate accepts the given text as a URL: a function of
/// the text alone.
pub uninterp spec fn url_accepted(s: Seq<char>) -> bool;

/// Relies on url::Url::parse: whether the target address is well-formed
/// depends on its text alone.
#[verifier::external_body]
fn url_parses(s: &str) -> (r: bool)
    ensures
        r == url_accepted(s@),
{
    url::Url::parse(s).is_ok()
}

impl BenchmarkConfig {
    /// Accept the configuration exactly when its target address is a
    /// well-formed URL; nothing else can keep the run from starting.
    pub fn validate(&self) -> (r: Result<(), ConfigError>)
        ensures
            r is Ok <==> url_accepted(self.url@),
            r is Err ==> r == Err::<(), ConfigError>(ConfigError::InvalidUrl),
    {
        if url_parses(self.url.as_str()) {
            Ok(())
        } else {
            Err(ConfigError::InvalidUrl)
        }
    }
}

} // verus!
