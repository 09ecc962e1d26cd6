//! Counters of gRPC traffic.

use vstd::prelude::*;

verus! {

/// Counters of requests, bytes and open connections.
#[derive(Clone, Copy, Debug)]
pub struct DMSCGrpcStats {
    pub requests_received: u64,
    pub requests_completed: u64,
    pub requests_failed: u64,
    pub bytes_received: u64,
    pub bytes_sent: u64,
    pub active_connections: u64,
}

impl DMSCGrpcStats {
    /// All counters at zero.
    pub open spec fn new_spec() -> Self {
        DMSCGrpcStats {
            requests_received: 0,
            requests_completed: 0,
            requests_failed: 0,
            bytes_received: 0,
            bytes_sent: 0,
            active_connections: 0,
        }
    }

    /// The counters after a request of `size` bytes: one more request and
    /// one more open connection, `size` more bytes received.
    pub open spec fn after_request(self, size: nat) -> Self {
        DMSCGrpcStats {
            requests_received: (self.requests_received + 1) as u64,
            bytes_received: (self.bytes_received + size) as u64,
            active_connections: (self.active_connections + 1) as u64,
            ..self
        }
    }

    /// The counters after a response of `size` bytes: one more completed
    /// request, `size` more bytes sent, and one connection fewer if one was
    /// open.
    pub open spec fn after_response(self, size: nat) -> Self {
        DMSCGrpcStats {
            requests_completed: (self.requests_completed + 1) as u64,
            bytes_sent: (self.bytes_sent + size) as u64,
            active_connections: if self.active_connections > 0 {
                (self.active_connections - 1) as u64
            } else {
                0
            },
            ..self
        }
    }

    /// The counters after a failed request: one more failure, and one
    /// connection fewer if one was open.
    pub open spec fn after_error(self) -> Self {
        DMSCGrpcStats {
            requests_failed: (self.requests_failed + 1) as u64,
            active_connections: if self.active_connections > 0 {
                (self.active_connections - 1) as u64
            } else {
                0
            },
            ..self
        }
    }

    /// All counters at zero.
    pub fn new() -> (s: Self)
        ensures
            s == Self::new_spec(),
            s.requests_received == 0,
            s.requests_completed == 0,
            s.requests_failed == 0,
            s.bytes_received == 0,
            s.bytes_sent == 0,
            s.active_connections == 0,
    {
        DMSCGrpcStats {
            requests_received: 0,
            requests_completed: 0,
            requests_failed: 0,
            bytes_received: 0,
            bytes_sent: 0,
            active_connections: 0,
        }
    }

    /// Counts a request of `size` bytes, which opens a connection.
    pub fn record_request(&mut self, size: usize)
        requires
            old(self).requests_received < u64::MAX,
            old(self).bytes_received + size <= u64::MAX,
            old(self).active_connections < u64::MAX,
        ensures
            *final(self) == old(self).after_request(size as nat),
            final(self).requests_received == old(self).requests_received + 1,
            final(self).bytes_received == old(self).bytes_received + size,
            final(self).active_connections == old(self).active_connections + 1,
            final(self).requests_completed == old(self).requests_completed,
            final(self).requests_failed == old(self).requests_failed,
            final(self).bytes_sent == old(self).bytes_sent,
    {
        self.requests_received = self.requests_received + 1;
        self.bytes_received = self.bytes_received + size as u64;
        self.active_connections = self.active_connections + 1;
    }

    /// Counts a response of `size` bytes, which closes a connection if one
    /// is open.
    pub fn record_response(&mut self, size: usize)
        requires
            old(self).requests_completed < u64::MAX,
            old(self).bytes_sent + size <= u64::MAX,
        ensures
            *final(self) == old(self).after_response(size as nat),
            final(self).requests_completed == old(self).requests_completed + 1,
            final(self).bytes_sent == old(self).bytes_sent + size,
            final(self).active_connections == (if old(self).active_connections > 0 {
                old(self).active_connections - 1
            } else {
                0
            }),
            final(self).requests_received == old(self).requests_received,
            final(self).requests_failed == old(self).requests_failed,
            final(self).bytes_received == old(self).bytes_received,
    {
        self.requests_completed = self.requests_completed + 1;
        self.bytes_sent = self.bytes_sent + size as u64;
        if self.active_connections > 0 {
            self.active_connections = self.active_connections - 1;
        }
    }

    /// Counts a failed request, which closes a connection if one is open.
    pub fn record_error(&mut self)
        requires
            old(self).requests_failed < u64::MAX,
        ensures
            *final(self) == old(self).after_error(),
            final(self).requests_failed == old(self).requests_failed + 1,
            final(self).active_connections == (if old(self).active_connections > 0 {
                old(self).active_connections - 1
            } else {
                0
            }),
            final(self).requests_received == old(self).requests_received,
            final(self).requests_completed == old(self).requests_completed,
            final(self).bytes_received == old(self).bytes_received,
            final(self).bytes_sent == old(self).bytes_sent,
    {
        self.requests_failed = self.requests_failed + 1;
        if self.active_connections > 0 {
            self.active_connections = self.active_connections - 1;
        }
    }
}

impl Default for DMSCGrpcStats {
    fn default() -> (s: Self)
        ensures
            s.requests_received == 0,
            s.requests_completed == 0,
            s.requests_failed == 0,
            s.bytes_received == 0,
            s.bytes_sent == 0,
            s.active_connections == 0,
    {
        Self::new()
    }
}

/// A request that is answered, whether by a response or an error, leaves
/// the number of open connections as it was before the request, and counts
/// the request once, as completed or as failed.
pub proof fn law_request_then_answer_balances(s: DMSCGrpcStats, request_size: nat, response_size: nat)
    requires
        s.requests_received < u64::MAX,
        s.active_connections < u64::MAX,
        s.bytes_received + request_size <= u64::MAX,
        s.requests_completed < u64::MAX,
        s.requests_failed < u64::MAX,
        s.bytes_sent + response_size <= u64::MAX,
    ensures
        s.after_request(request_size).after_response(response_size).active_connections == s.active_connections,
        s.after_request(request_size).after_error().active_connections == s.active_connections,
        s.after_request(request_size).after_response(response_size).requests_received == s.requests_received + 1,
        s.after_request(request_size).after_response(response_size).requests_completed == s.requests_completed + 1,
        s.after_request(request_size).after_error().requests_failed == s.requests_failed + 1,
        s.after_request(request_size).after_error().requests_completed == s.requests_completed,
{
}

} // verus!
