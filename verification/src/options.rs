//! Configuration of the pool.

use vstd::prelude::*;

verus! {

/// A span of time: whole seconds, and nanoseconds on top of them.
#[derive(Debug, Clone, Copy, PartialEq, Eq, Structural)]
pub struct Duration {
    /// Whole seconds.
    pub secs: u64,
    /// Nanoseconds on top of the seconds.
    pub nanos: u32,
}

/// No span is longer, in nanoseconds.
pub const LONGEST: u128 = 18_446_744_073_709_551_615 * 1_000_000_000 + 4_294_967_295;

impl View for Duration {
    type V = nat;

    /// The span in nanoseconds.
    open spec fn view(&self) -> nat {
        (self.secs * 1_000_000_000 + self.nanos) as nat
    }
}

impl Duration {
    /// Returns the span of `secs` whole seconds.
    pub fn from_secs(secs: u64) -> (span: Self)
        ensures
            span == (Duration { secs, nanos: 0 }),
            span@ == secs * 1_000_000_000,
    {
        Duration { secs, nanos: 0 }
    }

    /// Returns the span of `millis` milliseconds.
    pub fn from_millis(millis: u64) -> (span: Self)
        ensures
            span@ == millis * 1_000_000,
            span.nanos < 1_000_000_000,
            span.secs == millis / 1000,
            span.nanos == (millis % 1000) * 1_000_000,
    {
        Duration { secs: millis / 1000, nanos: ((millis % 1000) * 1_000_000) as u32 }
    }

    /// Returns the span in nanoseconds.
    pub fn as_nanos(&self) -> (nanos: u128)
        ensures
            nanos == self@,
            nanos == self.secs * 1_000_000_000 + self.nanos,
            nanos <= LONGEST,
    {
        self.secs as u128 * 1_000_000_000 + self.nanos as u128
    }
}

/// Configuration options for the connection pool.
///
/// `F` is the type of the callback for new connections.
pub struct Options<F> {
    /// How long to keep unused connections around.
    ///
    /// Idle here means that there are no references alive for the connection,
    /// not that the connection itself is idle.
    pub idle_timeout: Duration,
    /// Timeout for connect. This includes the time spent in `on_connected`, if
    /// set.
    pub connect_timeout: Duration,
    /// Maximum number of connections to hand out.
    ///
    /// Attempts to connect that are still running do not count, so attempts to
    /// peers that do not answer cannot take the place of connections.
    pub max_connections: usize,
    /// An optional callback that can be used to wait for the connection to enter
    /// some state. An example usage could be to wait for the connection to
    /// become direct before handing it out to the user.
    pub on_connected: Option<F>,
}

impl<F> Default for Options<F> {
    fn default() -> (options: Self)
        ensures
            options.idle_timeout == (Duration { secs: 5, nanos: 0 }),
            options.connect_timeout == (Duration { secs: 1, nanos: 0 }),
            options.max_connections == 1024,
            options.on_connected is None,
    {
        Options {
            idle_timeout: Duration::from_secs(5),
            connect_timeout: Duration::from_secs(1),
            max_connections: 1024,
            on_connected: None,
        }
    }
}

impl<F: Clone> Clone for Options<F> {
    /// Returns the same options, with a clone of the callback.
    fn clone(&self) -> (options: Self)
        ensures
            options.idle_timeout == self.idle_timeout,
            options.connect_timeout == self.connect_timeout,
            options.max_connections == self.max_connections,
            match self.on_connected {
                Some(f) => options.on_connected is Some && cloned(f, options.on_connected->0),
                None => options.on_connected is None,
            },
    {
        Options {
            idle_timeout: self.idle_timeout,
            connect_timeout: self.connect_timeout,
            max_connections: self.max_connections,
            on_connected: match &self.on_connected {
                Some(f) => Some(f.clone()),
                None => None,
            },
        }
    }
}

impl<F> Options<F> {
    /// Sets the `on_connected` callback.
    pub fn with_on_connected(self, f: F) -> (options: Self)
        ensures
            options == (Options { on_connected: Some(f), ..self }),
    {
        Options {
            idle_timeout: self.idle_timeout,
            connect_timeout: self.connect_timeout,
            max_connections: self.max_connections,
            on_connected: Some(f),
        }
    }
}

} // verus!
