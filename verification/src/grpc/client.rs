//! The state and decisions of the gRPC client: connection flag, request
//! identifiers, call paths, and the retry policy applied after each attempt.
//! The network calls and the waits between attempts are made by the caller.

use crate::grpc::error::GrpcError;
use crate::grpc::stats::DMSCGrpcStats;
use crate::text::{chars_of, occurs_in, occurs_between};
use vstd::prelude::*;

verus! {

/// Whether an error text reports a transient failure worth retrying: one
/// naming UNAVAILABLE, DEADLINE_EXCEEDED or RESOURCE_EXHAUSTED.
pub open spec fn retryable_text(text: Seq<char>) -> bool {
    occurs_in(text, 0, text.len() as int, "UNAVAILABLE"@)
        || occurs_in(text, 0, text.len() as int, "DEADLINE_EXCEEDED"@)
        || occurs_in(text, 0, text.len() as int, "RESOURCE_EXHAUSTED"@)
}

/// Whether an error with text `text` is worth retrying.
pub fn is_retryable_error(text: &str) -> (yes: bool)
    ensures
        yes == retryable_text(text@),
{
    let v = chars_of(text);
    let n = v.len();
    occurs_between(&v, 0, n, "UNAVAILABLE") || occurs_between(&v, 0, n, "DEADLINE_EXCEEDED")
        || occurs_between(&v, 0, n, "RESOURCE_EXHAUSTED")
}

/// What the client does after an attempt of a call.
#[derive(PartialEq, Eq, Structural, Clone, Copy, Debug)]
pub enum RiCallDecision {
    /// The attempt answered: return its response.
    Succeed,
    /// Wait the retry delay, then attempt again.
    Retry,
    /// Return the attempt's error.
    Fail,
}

/// The decision after attempt number `attempt` (counted from 0) of a call
/// allowed `retry_count` retries, given the attempt's outcome: the length
/// of its response, or the text of its error.
pub open spec fn call_decision(attempt: u32, retry_count: u32, outcome: Result<usize, Seq<char>>) -> RiCallDecision {
    match outcome {
        Ok(_) => RiCallDecision::Succeed,
        Err(text) => if retryable_text(text) && attempt < retry_count {
            RiCallDecision::Retry
        } else {
            RiCallDecision::Fail
        },
    }
}

/// The client state of a connection to a gRPC endpoint.
pub struct RiGrpcClient {
    endpoint: String,
    timeout_ms: u64,
    retry_count: u32,
    retry_delay_ms: u64,
    stats: DMSCGrpcStats,
    request_id: u64,
    connected: bool,
}

impl RiGrpcClient {
    pub closed spec fn spec_endpoint(&self) -> Seq<char> {
        self.endpoint@
    }

    pub closed spec fn spec_timeout_ms(&self) -> u64 {
        self.timeout_ms
    }

    pub closed spec fn spec_retry_count(&self) -> u32 {
        self.retry_count
    }

    pub closed spec fn spec_retry_delay_ms(&self) -> u64 {
        self.retry_delay_ms
    }

    pub closed spec fn spec_stats(&self) -> DMSCGrpcStats {
        self.stats
    }

    pub closed spec fn spec_next_request_id(&self) -> u64 {
        self.request_id
    }

    pub closed spec fn spec_connected(&self) -> bool {
        self.connected
    }

    /// A client of `endpoint`, not connected: a 30 second timeout, 3 retries
    /// 100 ms apart, zero counters, request identifiers from 0.
    pub fn new(endpoint: String) -> (c: Self)
        ensures
            c.spec_endpoint() == endpoint@,
            c.spec_timeout_ms() == 30_000,
            c.spec_retry_count() == 3,
            c.spec_retry_delay_ms() == 100,
            c.spec_stats() == DMSCGrpcStats::new_spec(),
            c.spec_next_request_id() == 0,
            !c.spec_connected(),
    {
        RiGrpcClient {
            endpoint,
            timeout_ms: 30_000,
            retry_count: 3,
            retry_delay_ms: 100,
            stats: DMSCGrpcStats::new(),
            request_id: 0,
            connected: false,
        }
    }

    /// The same client with a timeout of `timeout_ms` milliseconds.
    pub fn with_timeout(self, timeout_ms: u64) -> (c: Self)
        ensures
            c.spec_timeout_ms() == timeout_ms,
            c.spec_endpoint() == self.spec_endpoint(),
            c.spec_retry_count() == self.spec_retry_count(),
            c.spec_retry_delay_ms() == self.spec_retry_delay_ms(),
            c.spec_stats() == self.spec_stats(),
            c.spec_next_request_id() == self.spec_next_request_id(),
            c.spec_connected() == self.spec_connected(),
    {
        let mut c = self;
        c.timeout_ms = timeout_ms;
        c
    }

    /// The same client allowing `count` retries `delay_ms` milliseconds apart.
    pub fn with_retry(self, count: u32, delay_ms: u64) -> (c: Self)
        ensures
            c.spec_retry_count() == count,
            c.spec_retry_delay_ms() == delay_ms,
            c.spec_timeout_ms() == self.spec_timeout_ms(),
            c.spec_endpoint() == self.spec_endpoint(),
            c.spec_stats() == self.spec_stats(),
            c.spec_next_request_id() == self.spec_next_request_id(),
            c.spec_connected() == self.spec_connected(),
    {
        let mut c = self;
        c.retry_count = count;
        c.retry_delay_ms = delay_ms;
        c
    }

    /// The endpoint the client talks to.
    pub fn endpoint(&self) -> (e: &String)
        ensures
            e@ == self.spec_endpoint(),
    {
        &self.endpoint
    }

    /// The timeout of a call, in milliseconds.
    pub fn timeout_ms(&self) -> (t: u64)
        ensures
            t == self.spec_timeout_ms(),
    {
        self.timeout_ms
    }

    /// The number of retries allowed after a first failed attempt.
    pub fn retry_count(&self) -> (n: u32)
        ensures
            n == self.spec_retry_count(),
    {
        self.retry_count
    }

    /// The wait before each retry, in milliseconds.
    pub fn retry_delay_ms(&self) -> (t: u64)
        ensures
            t == self.spec_retry_delay_ms(),
    {
        self.retry_delay_ms
    }

    /// A copy of the traffic counters.
    pub fn get_stats(&self) -> (s: DMSCGrpcStats)
        ensures
            s == self.spec_stats(),
    {
        self.stats
    }

    /// Whether the client has been connected and not disconnected since.
    pub fn is_connected(&self) -> (b: bool)
        ensures
            b == self.spec_connected(),
    {
        self.connected
    }

    /// Records that a connection was established.
    pub fn mark_connected(&mut self)
        ensures
            final(self).spec_connected(),
            final(self).spec_endpoint() == old(self).spec_endpoint(),
            final(self).spec_timeout_ms() == old(self).spec_timeout_ms(),
            final(self).spec_retry_count() == old(self).spec_retry_count(),
            final(self).spec_retry_delay_ms() == old(self).spec_retry_delay_ms(),
            final(self).spec_stats() == old(self).spec_stats(),
            final(self).spec_next_request_id() == old(self).spec_next_request_id(),
    {
        self.connected = true;
    }

    /// Records that the connection was dropped.
    pub fn mark_disconnected(&mut self)
        ensures
            !final(self).spec_connected(),
            final(self).spec_endpoint() == old(self).spec_endpoint(),
            final(self).spec_timeout_ms() == old(self).spec_timeout_ms(),
            final(self).spec_retry_count() == old(self).spec_retry_count(),
            final(self).spec_retry_delay_ms() == old(self).spec_retry_delay_ms(),
            final(self).spec_stats() == old(self).spec_stats(),
            final(self).spec_next_request_id() == old(self).spec_next_request_id(),
    {
        self.connected = false;
    }

    /// Hands out the next request identifier; identifiers count up from 0
    /// and wrap around after the largest.
    pub fn generate_request_id(&mut self) -> (id: u64)
        ensures
            id == old(self).spec_next_request_id(),
            final(self).spec_next_request_id() == (if id == u64::MAX { 0 } else { (id + 1) as u64 }),
            final(self).spec_connected() == old(self).spec_connected(),
            final(self).spec_endpoint() == old(self).spec_endpoint(),
            final(self).spec_timeout_ms() == old(self).spec_timeout_ms(),
            final(self).spec_retry_count() == old(self).spec_retry_count(),
            final(self).spec_retry_delay_ms() == old(self).spec_retry_delay_ms(),
            final(self).spec_stats() == old(self).spec_stats(),
    {
        let id = self.request_id;
        self.request_id = if id == u64::MAX { 0 } else { id + 1 };
        id
    }

    /// Starts a call of `method` of `service`: fails when no channel is open
    /// (`has_channel` false) or the client is not connected; otherwise hands
    /// out a request identifier and gives the call path "/service/method".
    pub fn begin_call(&mut self, has_channel: bool, service: &str, method: &str) -> (r: Result<(u64, String), GrpcError>)
        ensures
            !has_channel ==> (r matches Err(GrpcError::Client { message }) && message@ == "Not connected to gRPC server"@),
            has_channel && !old(self).spec_connected() ==> (r matches Err(GrpcError::Client { message })
                && message@ == "gRPC client not connected"@),
            r is Err ==> final(self).spec_next_request_id() == old(self).spec_next_request_id(),
            has_channel && old(self).spec_connected() ==> (r matches Ok((id, path)) && id == old(self).spec_next_request_id()
                && path@ == "/"@ + service@ + "/"@ + method@
                && final(self).spec_next_request_id() == (if id == u64::MAX { 0 } else { (id + 1) as u64 })),
            final(self).spec_connected() == old(self).spec_connected(),
            final(self).spec_endpoint() == old(self).spec_endpoint(),
            final(self).spec_timeout_ms() == old(self).spec_timeout_ms(),
            final(self).spec_retry_count() == old(self).spec_retry_count(),
            final(self).spec_retry_delay_ms() == old(self).spec_retry_delay_ms(),
            final(self).spec_stats() == old(self).spec_stats(),
    {
        if !has_channel {
            return Err(GrpcError::Client { message: "Not connected to gRPC server".to_owned() });
        }
        if !self.connected {
            return Err(GrpcError::Client { message: "gRPC client not connected".to_owned() });
        }
        let id = self.generate_request_id();
        let mut path = "/".to_owned();
        path.append(service);
        path.append("/");
        path.append(method);
        Ok((id, path))
    }

    /// Takes the outcome of attempt number `attempt` of a call whose request
    /// carried `request_len` bytes: an answer of `n` bytes counts the request
    /// and its response; an error counts a failure. Decides whether the call
    /// succeeds, fails, or retries after the retry delay.
    pub fn on_attempt(&mut self, attempt: u32, request_len: usize, outcome: &Result<usize, String>) -> (d: RiCallDecision)
        requires
            old(self).spec_stats().requests_received < u64::MAX,
            old(self).spec_stats().active_connections < u64::MAX,
            old(self).spec_stats().bytes_received + request_len <= u64::MAX,
            old(self).spec_stats().requests_completed < u64::MAX,
            old(self).spec_stats().requests_failed < u64::MAX,
            outcome matches Ok(n) ==> old(self).spec_stats().bytes_sent + *n <= u64::MAX,
        ensures
            d == call_decision(attempt, old(self).spec_retry_count(), match *outcome {
                Ok(n) => Ok(n),
                Err(t) => Err(t@),
            }),
            outcome matches Ok(n) ==> ({
                let s0 = old(self).spec_stats();
                let s1 = final(self).spec_stats();
                &&& s1.requests_received == s0.requests_received + 1
                &&& s1.bytes_received == s0.bytes_received + request_len
                &&& s1.requests_completed == s0.requests_completed + 1
                &&& s1.bytes_sent == s0.bytes_sent + *n
                &&& s1.active_connections == s0.active_connections
                &&& s1.requests_failed == s0.requests_failed
            }),
            outcome is Err ==> ({
                let s0 = old(self).spec_stats();
                let s1 = final(self).spec_stats();
                &&& s1.requests_failed == s0.requests_failed + 1
                &&& s1.active_connections == (if s0.active_connections > 0 { s0.active_connections - 1 } else { 0 })
                &&& s1.requests_received == s0.requests_received
                &&& s1.requests_completed == s0.requests_completed
                &&& s1.bytes_received == s0.bytes_received
                &&& s1.bytes_sent == s0.bytes_sent
            }),
            final(self).spec_connected() == old(self).spec_connected(),
            final(self).spec_endpoint() == old(self).spec_endpoint(),
            final(self).spec_timeout_ms() == old(self).spec_timeout_ms(),
            final(self).spec_retry_count() == old(self).spec_retry_count(),
            final(self).spec_retry_delay_ms() == old(self).spec_retry_delay_ms(),
            final(self).spec_next_request_id() == old(self).spec_next_request_id(),
    {
        match outcome {
            Ok(n) => {
                self.stats.record_request(request_len);
                self.stats.record_response(*n);
                RiCallDecision::Succeed
            },
            Err(text) => {
                self.stats.record_error();
                if is_retryable_error(text.as_str()) && attempt < self.retry_count {
                    RiCallDecision::Retry
                } else {
                    RiCallDecision::Fail
                }
            },
        }
    }
}

/// A call makes at most `retry_count + 1` attempts: every retry follows an
/// attempt numbered below `retry_count`; an answer is never retried, and
/// neither is an error that does not report a transient failure.
pub proof fn law_bounded_retries(attempt: u32, retry_count: u32, outcome: Result<usize, Seq<char>>)
    ensures
        call_decision(attempt, retry_count, outcome) == RiCallDecision::Retry ==> attempt < retry_count,
        outcome is Ok ==> call_decision(attempt, retry_count, outcome) == RiCallDecision::Succeed,
        outcome matches Err(t) && !retryable_text(t) ==> call_decision(attempt, retry_count, outcome) == RiCallDecision::Fail,
        attempt >= retry_count ==> call_decision(attempt, retry_count, outcome) != RiCallDecision::Retry,
{
}

/// An error is retried only while retries remain and only when its text
/// contains one of exactly three codes, "UNAVAILABLE",
/// "DEADLINE_EXCEEDED" or "RESOURCE_EXHAUSTED"; a text containing none of
/// them, such as one naming INTERNAL, is never retried.
pub proof fn law_retry_only_transient_codes(attempt: u32, retry_count: u32, text: Seq<char>)
    ensures
        (call_decision(attempt, retry_count, Err(text)) == RiCallDecision::Retry) <==> (attempt < retry_count && (
        (exists|i: int| 0 <= i && i + 11 <= text.len() && #[trigger] text.subrange(i, i + 11) == "UNAVAILABLE"@)
            || (exists|i: int|
            0 <= i && i + 17 <= text.len() && #[trigger] text.subrange(i, i + 17) == "DEADLINE_EXCEEDED"@)
            || (exists|i: int|
            0 <= i && i + 18 <= text.len() && #[trigger] text.subrange(i, i + 18) == "RESOURCE_EXHAUSTED"@))),
        call_decision(attempt, retry_count, Err(text)) != RiCallDecision::Succeed,
{
    reveal_strlit("UNAVAILABLE");
    reveal_strlit("DEADLINE_EXCEEDED");
    reveal_strlit("RESOURCE_EXHAUSTED");
    lemma_occurs_at_start(text, "UNAVAILABLE"@);
    lemma_occurs_at_start(text, "DEADLINE_EXCEEDED"@);
    lemma_occurs_at_start(text, "RESOURCE_EXHAUSTED"@);
}

proof fn lemma_occurs_at_start(text: Seq<char>, pat: Seq<char>)
    ensures
        occurs_in(text, 0, text.len() as int, pat) <==> exists|i: int|
            0 <= i && i + pat.len() <= text.len() && #[trigger] text.subrange(i, i + pat.len()) == pat,
{
}

} // verus!
