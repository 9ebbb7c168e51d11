//! The live-update command channel: sequence allocation, the bounded
//! polling loop that awaits an acknowledgement, and the correlation rule
//! that makes it safe.
//!
//! Command and response files are overwritten in place, so an arbitrarily
//! late read may observe a response belonging to an earlier command.  The
//! sequence check is the sole mechanism preventing that: a response whose
//! sequence number differs from the command just sent is ignored, never
//! treated as success or failure.

use vstd::prelude::*;
use vstd::string::*;
use crate::backoff::{next_delay, spec_next_delay};
use crate::codec::spec_enc_command_response;
use crate::decode::parse_command_response;
use crate::error::ViewerError;
use crate::protocol::ViewerCommandResponse;

verus! {

/// Delay before the first retry when polling for a command response, in
/// milliseconds.
pub const COMMAND_POLL_BASE_MS: u64 = 10;

/// Ceiling on the delay between command-response polls, in milliseconds.
pub const COMMAND_POLL_MAX_MS: u64 = 100;

/// Overall budget for one command acknowledgement, in milliseconds.
pub const COMMAND_TIMEOUT_MS: u64 = 5000;

/// How a single command response relates to the command awaiting an
/// acknowledgement.
#[derive(Debug)]
pub enum ResponseCheck {
    /// The response answers the awaited command and reports success.
    Completed,
    /// The response answers the awaited command and reports failure, with
    /// the carried message.
    Rejected(String),
    /// The response answers an earlier command; it must be ignored.
    Stale,
}

/// Correlate a response with the command bearing `expected_seq`.  Only a
/// response bearing exactly that sequence number can complete the await,
/// one way or the other; any other response is stale.
pub fn evaluate_response(expected_seq: u64, resp: &ViewerCommandResponse) -> (r: ResponseCheck)
    ensures
        resp.seq != expected_seq <==> r is Stale,
        resp.seq == expected_seq && resp.success ==> r is Completed,
        resp.seq == expected_seq && !resp.success ==> (r matches ResponseCheck::Rejected(m) && (
        match resp.error {
            Option::Some(e) => m@ == e@,
            Option::None => m@ == "command rejected by viewer"@,
        })),
{
    if resp.seq != expected_seq {
        ResponseCheck::Stale
    } else if resp.success {
        ResponseCheck::Completed
    } else {
        match &resp.error {
            Option::Some(e) => ResponseCheck::Rejected(e.clone()),
            Option::None => ResponseCheck::Rejected(String::from_str(
                "command rejected by viewer",
            )),
        }
    }
}

/// What the caller's I/O layer must do next while awaiting a command
/// acknowledgement.
#[derive(Debug)]
pub enum RefreshStep {
    /// The command was acknowledged successfully.
    Acknowledged,
    /// The command failed for good; stop polling.
    Failed(ViewerError),
    /// Sleep this many milliseconds, then read the response file again.
    RetryAfter(u64),
}

/// The state of one command-acknowledgement wait: which sequence number
/// must answer, how long has been waited, and the delay before the next
/// poll.
#[derive(Debug)]
pub struct RefreshWait {
    /// The sequence number of the command awaiting acknowledgement.
    pub seq: u64,
    /// Milliseconds spent waiting so far.
    pub elapsed_ms: u64,
    /// Milliseconds to sleep before the next poll.
    pub delay_ms: u64,
}

/// A wait whose delay stays within the poll ceiling.
pub open spec fn spec_wait_ok(w: RefreshWait) -> bool {
    COMMAND_POLL_BASE_MS <= w.delay_ms <= COMMAND_POLL_MAX_MS
}

impl RefreshWait {
    /// Start awaiting the acknowledgement of the command bearing `seq`.
    pub fn new(seq: u64) -> (w: Self)
        ensures
            w.seq == seq,
            w.elapsed_ms == 0,
            w.delay_ms == COMMAND_POLL_BASE_MS,
            spec_wait_ok(w),
    {
        RefreshWait { seq, elapsed_ms: 0, delay_ms: COMMAND_POLL_BASE_MS }
    }

    /// Account one read of the response file and decide what happens
    /// next.
    ///
    /// An unreadable file, and a readable response bearing a different
    /// sequence number, are both waited out with the delay doubling from
    /// 10 ms up to 100 ms; once [`COMMAND_TIMEOUT_MS`] of waiting has been
    /// spent the await fails with a command timeout naming the sequence
    /// number.  A malformed response is protocol corruption and fails at
    /// once.  A response bearing exactly the awaited sequence number
    /// completes the await: success acknowledges the command, failure
    /// surfaces the carried message.
    pub fn on_read(&mut self, read: Option<String>) -> (r: RefreshStep)
        requires
            spec_wait_ok(*old(self)),
        ensures
            spec_wait_ok(*final(self)),
            final(self).seq == old(self).seq,
            read matches Some(text) ==> (forall|v: ViewerCommandResponse, extra: Seq<char>|
                text@ == spec_enc_command_response(v) + extra && v.seq != old(self).seq
                    ==> !(r is Acknowledged) && !(r matches RefreshStep::Failed(e) && e is
                CommandFailed)),
            read matches Some(text) ==> (forall|v: ViewerCommandResponse, extra: Seq<char>|
                text@ == spec_enc_command_response(v) + extra && v.seq == old(self).seq
                    && v.success ==> r is Acknowledged),
            read matches Some(text) ==> (forall|v: ViewerCommandResponse, extra: Seq<char>|
                text@ == spec_enc_command_response(v) + extra && v.seq == old(self).seq
                    && !v.success ==> (r matches RefreshStep::Failed(e) && e is CommandFailed)),
            r matches RefreshStep::RetryAfter(ms) ==> (ms == old(self).delay_ms
                && final(self).elapsed_ms == old(self).elapsed_ms + old(self).delay_ms
                && final(self).delay_ms == spec_next_delay(
                old(self).delay_ms,
                COMMAND_POLL_MAX_MS,
            )),
            r matches RefreshStep::Failed(e) ==> (e matches ViewerError::CommandTimeout {
                seq,
                timeout_secs,
            } ==> seq == old(self).seq && timeout_secs == COMMAND_TIMEOUT_MS / 1000
                && old(self).elapsed_ms >= COMMAND_TIMEOUT_MS),
            read is None ==> (if old(self).elapsed_ms >= COMMAND_TIMEOUT_MS {
                r matches RefreshStep::Failed(e) && e is CommandTimeout
            } else {
                r is RetryAfter
            }),
            read matches Some(text) ==> (forall|v: ViewerCommandResponse, extra: Seq<char>|
                text@ == spec_enc_command_response(v) + extra && v.seq != old(self).seq ==> (
                if old(self).elapsed_ms >= COMMAND_TIMEOUT_MS {
                    r matches RefreshStep::Failed(e) && e is CommandTimeout
                } else {
                    r is RetryAfter
                })),
    {
        match &read {
            Option::None => {},
            Option::Some(text) => {
                match parse_command_response(text.as_str(), 0) {
                    Option::None => {
                        let mut m = String::from_str("command response is malformed: ");
                        m.append(text.as_str());
                        proof {
                            assert forall|v: ViewerCommandResponse, extra: Seq<char>|
                                text@ == spec_enc_command_response(v) + extra implies false by {
                                assert(text@.skip(0) =~= text@);
                            }
                        }
                        return RefreshStep::Failed(ViewerError::InvalidResponse(m));
                    },
                    Option::Some((resp, _end)) => {
                        proof {
                            assert(text@.skip(0) =~= text@);
                        }
                        match evaluate_response(self.seq, &resp) {
                            ResponseCheck::Completed => {
                                return RefreshStep::Acknowledged;
                            },
                            ResponseCheck::Rejected(m) => {
                                return RefreshStep::Failed(ViewerError::CommandFailed(m));
                            },
                            ResponseCheck::Stale => {},
                        }
                    },
                }
            },
        }
        if self.elapsed_ms >= COMMAND_TIMEOUT_MS {
            return RefreshStep::Failed(ViewerError::CommandTimeout {
                seq: self.seq,
                timeout_secs: COMMAND_TIMEOUT_MS / 1000,
            });
        }
        let ms = self.delay_ms;
        self.elapsed_ms = self.elapsed_ms + ms;
        self.delay_ms = next_delay(self.delay_ms, COMMAND_POLL_MAX_MS);
        RefreshStep::RetryAfter(ms)
    }
}

} // verus!
