//! The reconnect policy: an immutable configuration value read by the stream
//! state machine's backoff computation. Delays are given in milliseconds.

use vstd::prelude::*;

verus! {

/// Configuration of the backoff-and-retry behaviour of a stream.
#[derive(Clone, Copy, Debug, PartialEq, Eq, Structural)]
pub struct ReconnectOptions {
    /// Whether a failure of the very first connection attempt is retried
    /// rather than surfaced as a fatal error.
    pub retry_initial: bool,
    /// Whether a successfully established connection that later ends, cleanly
    /// or with a transport error, triggers reconnection rather than ending
    /// the stream.
    pub reconnect: bool,
    /// The wait before the first retry, in milliseconds.
    pub delay_ms: u64,
    /// The upper bound on the backoff wait, in milliseconds.
    pub delay_max_ms: u64,
    /// The multiplicative growth of the wait per consecutive failure.
    pub backoff_factor: u32,
}

/// The delay stored for the occasion after one of `current_ms` was scheduled:
/// the current delay grown by the backoff factor, capped at the policy's
/// maximum.
pub open spec fn next_delay_ms(opts: ReconnectOptions, current_ms: u64) -> int {
    vstd::math::min(opts.delay_max_ms as int, current_ms * opts.backoff_factor)
}

impl Default for ReconnectOptions {
    /// The default policy: reconnect after a disconnection, do not retry a
    /// failing first attempt, wait 1 second before the first retry, double
    /// the wait per consecutive failure, and never wait more than 1 minute.
    fn default() -> (opts: ReconnectOptions)
        ensures
            opts == default_reconnect_options(),
    {
        ReconnectOptions {
            retry_initial: false,
            reconnect: true,
            delay_ms: 1000,
            delay_max_ms: 60000,
            backoff_factor: 2,
        }
    }
}

/// The value that [`ReconnectOptions::default`] returns.
pub open spec fn default_reconnect_options() -> ReconnectOptions {
    ReconnectOptions {
        retry_initial: false,
        reconnect: true,
        delay_ms: 1000,
        delay_max_ms: 60000,
        backoff_factor: 2,
    }
}

impl ReconnectOptions {
    /// Start building a policy from the defaults, fixing whether a stream
    /// reconnects after a disconnection.
    pub fn reconnect(reconnect: bool) -> (builder: ReconnectOptionsBuilder)
        ensures
            builder.opts == (ReconnectOptions { reconnect, ..default_reconnect_options() }),
    {
        let mut opts = ReconnectOptions::default();
        opts.reconnect = reconnect;
        ReconnectOptionsBuilder { opts }
    }
}

/// Builds a [`ReconnectOptions`] value field by field.
#[derive(Clone, Copy, Debug)]
pub struct ReconnectOptionsBuilder {
    /// The policy as configured so far.
    pub opts: ReconnectOptions,
}

impl ReconnectOptionsBuilder {
    /// Set whether a failure of the very first connection attempt is retried.
    pub fn retry_initial(self, retry_initial: bool) -> (builder: ReconnectOptionsBuilder)
        ensures
            builder.opts == (ReconnectOptions { retry_initial, ..self.opts }),
    {
        let mut opts = self.opts;
        opts.retry_initial = retry_initial;
        ReconnectOptionsBuilder { opts }
    }

    /// Set the wait before the first retry, in milliseconds.
    pub fn delay(self, delay_ms: u64) -> (builder: ReconnectOptionsBuilder)
        ensures
            builder.opts == (ReconnectOptions { delay_ms, ..self.opts }),
    {
        let mut opts = self.opts;
        opts.delay_ms = delay_ms;
        ReconnectOptionsBuilder { opts }
    }

    /// Set the upper bound on the backoff wait, in milliseconds.
    pub fn delay_max(self, delay_max_ms: u64) -> (builder: ReconnectOptionsBuilder)
        ensures
            builder.opts == (ReconnectOptions { delay_max_ms, ..self.opts }),
    {
        let mut opts = self.opts;
        opts.delay_max_ms = delay_max_ms;
        ReconnectOptionsBuilder { opts }
    }

    /// Set the multiplicative growth of the wait per consecutive failure.
    pub fn backoff_factor(self, backoff_factor: u32) -> (builder: ReconnectOptionsBuilder)
        ensures
            builder.opts == (ReconnectOptions { backoff_factor, ..self.opts }),
    {
        let mut opts = self.opts;
        opts.backoff_factor = backoff_factor;
        ReconnectOptionsBuilder { opts }
    }

    /// Finish building and hand out the policy.
    pub fn build(self) -> (opts: ReconnectOptions)
        ensures
            opts == self.opts,
    {
        self.opts
    }
}

} // verus!
