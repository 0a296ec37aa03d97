//! The JSON-RPC helper process: error texts, request ids, and the restart
//! policy that gives up after `MAX_RESTARTS` failures in a row.
use vstd::prelude::*;
use crate::text::{chars_of, int_digits, push_dec, push_int, push_str, string_of};

verus! {

/// The most restarts in a row before a call is refused.
pub const MAX_RESTARTS: u32 = 3;

/// The seconds a call waits for its reply.
pub const RPC_TIMEOUT_SECS: u64 = 30;

/// An error reply of the helper process.
pub struct JsonRpcError {
    pub code: i32,
    pub message: String,
}

impl JsonRpcError {
    /// The error a call reports for this reply: `RPC error {code}: {message}`.
    pub fn describe(&self) -> (r: String)
        ensures
            r@ == "RPC error "@ + int_digits(self.code as int) + ": "@ + self.message@,
    {
        let mut v = chars_of("RPC error ");
        push_int(&mut v, self.code as i64);
        push_str(&mut v, ": ");
        push_str(&mut v, self.message.as_str());
        string_of(v.as_slice())
    }
}

/// The error of a call that got no reply in time.
pub fn timeout_message() -> (r: String)
    ensures
        r@ == "RPC timeout ("@ + crate::text::dec_digits(RPC_TIMEOUT_SECS as nat) + "s)"@,
{
    let mut v = chars_of("RPC timeout (");
    push_dec(&mut v, RPC_TIMEOUT_SECS);
    push_str(&mut v, "s)");
    string_of(v.as_slice())
}

/// The numbers given to requests, counting up from 1.
pub struct RequestIds {
    pub next: u64,
}

impl RequestIds {
    /// The first request gets 1.
    pub fn new() -> (r: RequestIds)
        ensures
            r.next == 1,
    {
        RequestIds { next: 1 }
    }

    /// The number of the next request.
    pub fn take(&mut self) -> (r: u64)
        requires
            old(self).next < u64::MAX,
        ensures
            r == old(self).next,
            final(self).next == old(self).next + 1,
    {
        let id = self.next;
        self.next = self.next + 1;
        id
    }
}

/// How many calls in a row have failed and been retried after a restart.
pub struct RestartPolicy {
    pub consecutive: u32,
}

/// What the policy says after a failed call.
pub enum RetryDecision {
    /// Restart the helper and retry; this is the given attempt.
    Retry(u32),
    /// Give up with this error.
    GiveUp(String),
}

impl RestartPolicy {
    /// No failures yet.
    pub fn new() -> (r: RestartPolicy)
        ensures
            r.consecutive == 0,
    {
        RestartPolicy { consecutive: 0 }
    }

    /// At most `MAX_RESTARTS` failures in a row are counted.
    pub open spec fn inv(&self) -> bool {
        self.consecutive <= MAX_RESTARTS
    }

    /// A call went through: the count starts again.
    pub fn on_success(&mut self)
        ensures
            final(self).consecutive == 0,
    {
        self.consecutive = 0;
    }

    /// A call failed with `error`: retry while fewer than `MAX_RESTARTS`
    /// failures are counted, otherwise give up with
    /// `sidecar {n} consecutive failures (max 3): {error}`.
    pub fn on_failure(&mut self, error: &str) -> (r: RetryDecision)
        requires
            old(self).inv(),
        ensures
            final(self).inv(),
            old(self).consecutive >= MAX_RESTARTS ==> final(self).consecutive == old(self).consecutive
                && (r matches RetryDecision::GiveUp(m) && m@ == "sidecar "@ + crate::text::dec_digits(
                old(self).consecutive as nat) + " consecutive failures (max 3): "@ + error@),
            old(self).consecutive < MAX_RESTARTS ==> final(self).consecutive == old(self).consecutive + 1
                && r == RetryDecision::Retry((old(self).consecutive + 1) as u32),
    {
        if self.consecutive >= MAX_RESTARTS {
            let mut v = chars_of("sidecar ");
            push_dec(&mut v, self.consecutive as u64);
            push_str(&mut v, " consecutive failures (max 3): ");
            push_str(&mut v, error);
            return RetryDecision::GiveUp(string_of(v.as_slice()));
        }
        self.consecutive = self.consecutive + 1;
        RetryDecision::Retry(self.consecutive)
    }
}


/// Refuses an empty reply line (the helper closed its output).
pub fn check_reply_line(line: &str) -> (r: Result<(), String>)
    ensures
        line@.len() == 0 ==> (r matches Err(m) && m@ == "empty response"@),
        line@.len() > 0 ==> r is Ok,
{
    if chars_of(line).len() == 0 {
        Err(crate::text::owned("empty response"))
    } else {
        Ok(())
    }
}

/// What a parsed reply gives the caller: its error described, else its
/// result, else `absent` (JSON `null`) when it carries neither.
pub fn reply_outcome<T>(error: Option<JsonRpcError>, result: Option<T>, absent: T) -> (r: Result<T, String>)
    ensures
        match error {
            Some(e) => r matches Err(m) && m@ == "RPC error "@ + int_digits(e.code as int) + ": "@ + e.message@,
            None => r == Ok::<T, String>(match result {
                Some(v) => v,
                None => absent,
            }),
        },
{
    match error {
        Some(e) => Err(e.describe()),
        None => match result {
            Some(v) => Ok(v),
            None => Ok(absent),
        },
    }
}

} // verus!
