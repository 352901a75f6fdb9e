//! Request counting for an asynchronous server.
//!
//! The state update behind each request is a single counted increment; the
//! surrounding server holds it under an async-aware lock so the runtime is
//! never blocked while a request is in flight.

use vstd::prelude::*;

verus! {

/// Shared server state: the number of requests completed.
pub struct ServerState {
    /// Completed requests so far.
    pub request_count: u64,
}

impl ServerState {
    /// Build a server that has served nothing.
    pub fn new() -> (s: Self)
        ensures
            s.request_count == 0,
    {
        ServerState { request_count: 0 }
    }

    /// Complete one request; returns the total served so far.
    pub fn record_request(&mut self) -> (n: u64)
        requires
            old(self).request_count < u64::MAX,
        ensures
            final(self).request_count == old(self).request_count + 1,
            n == final(self).request_count,
    {
        self.request_count = self.request_count + 1;
        self.request_count
    }
}

} // verus!
