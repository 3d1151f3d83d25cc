//! Settings of the RPC client and of its retry policy.
use vstd::prelude::*;

use crate::time::{Duration, NANOS_PER_MILLI, NANOS_PER_SEC};

verus! {

/// How often, and after which pauses, a failed call is tried again.
#[derive(Debug)]
pub struct RetryConfig {
    /// The number of attempts after which a call gives up.
    pub max_attempts: u8,
    /// The pause after the first failed attempt; it doubles with each attempt.
    pub base_delay: Duration,
    /// The longest pause between two attempts, before jitter.
    pub max_delay: Duration,
}

/// The settings of a client.
#[derive(Debug)]
pub struct ClientConfig {
    /// The endpoint.
    pub url: String,
    /// The number of calls that may be in flight at once.
    pub max_concurrency: u32,
    /// The retry policy.
    pub retry_config: RetryConfig,
    /// How long one attempt may take.
    pub timeout: Duration,
}

/// Three attempts, starting at 100 ms and never waiting more than 2 s before jitter.
pub open spec fn is_default_retry(c: RetryConfig) -> bool {
    &&& c.max_attempts == 3
    &&& c.base_delay@ == 100 * NANOS_PER_MILLI
    &&& c.max_delay@ == 2 * NANOS_PER_SEC
}

impl Default for RetryConfig {
    fn default() -> (c: Self)
        ensures
            is_default_retry(c),
    {
        RetryConfig {
            max_attempts: 3,
            base_delay: Duration::from_millis(100),
            max_delay: Duration::from_secs(2),
        }
    }
}

impl ClientConfig {
    /// A client of `url` with ten calls in flight, the default retry policy and 30 s per attempt.
    pub fn new(url: &str) -> (c: Self)
        ensures
            c.url@ == url@,
            c.max_concurrency == 10,
            is_default_retry(c.retry_config),
            c.timeout@ == 30 * NANOS_PER_SEC,
    {
        ClientConfig {
            url: url.to_owned(),
            max_concurrency: 10,
            retry_config: RetryConfig::default(),
            timeout: Duration::from_secs(30),
        }
    }

    /// The same settings with `n` calls in flight.
    pub fn with_concurrency(self, n: u32) -> (c: Self)
        ensures
            c.max_concurrency == n,
            c.url == self.url,
            c.retry_config == self.retry_config,
            c.timeout == self.timeout,
    {
        ClientConfig { max_concurrency: n, ..self }
    }

    /// The same settings with `timeout` per attempt.
    pub fn with_timeout(self, timeout: Duration) -> (c: Self)
        ensures
            c.timeout == timeout,
            c.url == self.url,
            c.max_concurrency == self.max_concurrency,
            c.retry_config == self.retry_config,
    {
        ClientConfig { timeout, ..self }
    }
}

} // verus!
