//! Retrieval of the result artifact: a bounded polling loop with
//! exponential backoff around reads performed by the caller's I/O layer,
//! and the validation of what was read.
//!
//! The race between the child's exit and the artifact reaching the disk is
//! the only condition that is retried; a file that reads but does not
//! parse, an identity mismatch, and a version mismatch are all immediately
//! fatal.

use vstd::prelude::*;
use vstd::string::*;
use crate::backoff::{
    spec_next_delay, spec_delay_at, next_delay, RESULT_POLL_ATTEMPTS, RESULT_POLL_BASE_MS,
    RESULT_POLL_MAX_MS,
};
use crate::codec::spec_enc_exit_status;
use crate::decode::{exit_status_eq, parse_exit_status};
use crate::error::ViewerError;
use crate::protocol::{ViewerExitStatus, PROTOCOL_VERSION};
use crate::version::{check_version_compatibility, spec_compatible, spec_parse_version};

verus! {

/// What one read of the result artifact produced: the file's text, or the
/// reason it could not be read yet.
#[derive(Debug)]
pub enum ReadOutcome {
    /// The artifact was read in full.
    Content(String),
    /// The artifact could not be read; the message describes the
    /// underlying I/O failure.
    NotReady(String),
}

/// What the caller's I/O layer must do next while retrieving the result
/// artifact.
#[derive(Debug)]
pub enum PollVerdict {
    /// The artifact was retrieved and validated.
    Done(ViewerExitStatus),
    /// Retrieval failed for good; stop polling.
    Failed(ViewerError),
    /// Sleep this many milliseconds, then read the artifact again.
    RetryAfter(u64),
}

/// Validation of a retrieved exit status against the request it must
/// answer: the identity must match, and the reported protocol version must
/// be compatible with ours.
pub open spec fn spec_valid_status(status: ViewerExitStatus, expected_id: Seq<char>) -> bool {
    &&& status.id@ == expected_id
    &&& spec_parse_version(PROTOCOL_VERSION@) matches Some(lib)
    &&& spec_parse_version(status.version@) matches Some(v) && spec_compatible(lib, v)
}

/// Check a parsed exit status: its identity must be the expected request
/// id, and its version must negotiate against [`PROTOCOL_VERSION`].
pub fn validate_exit_status(status: &ViewerExitStatus, expected_id: &str) -> (r: Result<
    (),
    ViewerError,
>)
    ensures
        r is Ok <==> spec_valid_status(*status, expected_id@),
        status.id@ != expected_id@ ==> (r matches Err(e) && e matches
            ViewerError::InvalidResponse(m) && m@ == "result id mismatch: expected "@
            + expected_id@ + ", got "@ + status.id@),
        status.id@ == expected_id@ && spec_parse_version(status.version@) is None ==> (r matches
            Err(e) && e is InvalidResponse),
        status.id@ == expected_id@ ==> ((spec_parse_version(PROTOCOL_VERSION@) matches Some(lib)
            && spec_parse_version(status.version@) matches Some(pv) && !spec_compatible(lib, pv))
            ==> (r matches Err(e) && e matches ViewerError::VersionMismatch {
            library,
            viewer,
            suggestion,
        } && library@ == PROTOCOL_VERSION@ && viewer@ == status.version@)),
        status.id@ == expected_id@ && !(spec_parse_version(PROTOCOL_VERSION@) matches Some(lib)
            && spec_parse_version(status.version@) matches Some(v) && spec_compatible(lib, v))
            ==> (r matches Err(e) && (e is InvalidResponse || e is VersionMismatch)),
{
    let sid: &str = status.id.as_str();
    if !str_eq(sid, expected_id) {
        let mut m = String::from_str("result id mismatch: expected ");
        m.append(expected_id);
        m.append(", got ");
        m.append(sid);
        assert(m@ =~= "result id mismatch: expected "@ + expected_id@ + ", got "@ + status.id@);
        return Err(ViewerError::InvalidResponse(m));
    }
    match check_version_compatibility(PROTOCOL_VERSION, status.version.as_str()) {
        Ok(()) => Ok(()),
        Err(e) => Err(e),
    }
}

/// Compare two string slices character for character.
pub fn str_eq(a: &str, b: &str) -> (r: bool)
    ensures
        r == (a@ == b@),
{
    let na = a.unicode_len();
    let nb = b.unicode_len();
    if na != nb {
        assert(a@ != b@);
        return false;
    }
    let mut i: usize = 0;
    while i < na
        invariant
            0 <= i <= na,
            na == a@.len(),
            na == b@.len(),
            forall|k: int| 0 <= k < i ==> a@[k] == b@[k],
        decreases na - i,
    {
        if a.get_char(i) != b.get_char(i) {
            return false;
        }
        i += 1;
    }
    proof {
        assert(a@ =~= b@);
    }
    true
}

/// The state of one bounded result-retrieval loop: how many reads have
/// been attempted and the delay that precedes the next retry.
#[derive(Debug)]
pub struct ResultPoller {
    /// Reads attempted so far.
    pub attempts: u64,
    /// Milliseconds to sleep before the next retry.
    pub delay_ms: u64,
    /// The id of the request whose result is being retrieved.
    pub expected_id: String,
    /// The I/O failure reported by the most recent unreadable attempt.
    pub last_error: String,
}

/// A poller that still owes attempts and whose delay follows the backoff
/// schedule.
pub open spec fn spec_poller_ok(p: ResultPoller) -> bool {
    &&& p.attempts <= RESULT_POLL_ATTEMPTS
    &&& p.delay_ms == spec_delay_at(RESULT_POLL_BASE_MS, RESULT_POLL_MAX_MS, p.attempts as int)
}

impl ResultPoller {
    /// Start retrieving the result artifact for the given request id.
    pub fn new(expected_id: String) -> (p: Self)
        ensures
            p.attempts == 0,
            p.delay_ms == RESULT_POLL_BASE_MS,
            p.expected_id == expected_id,
            spec_poller_ok(p),
    {
        ResultPoller {
            attempts: 0,
            delay_ms: RESULT_POLL_BASE_MS,
            expected_id,
            last_error: String::new(),
        }
    }

    /// Account one read of the result artifact and decide what happens
    /// next.  Every attempt is preceded by its delay: the I/O layer sleeps
    /// `delay_ms` before each read, including the first.
    ///
    /// A readable artifact is parsed and validated at once, and the
    /// verdict is owed both ways: text that begins with the canonical
    /// encoding of a valid, id-matching, version-compatible status must
    /// complete retrieval with that status, and each fatal condition —
    /// malformed text, an identity mismatch (named with both ids), a
    /// malformed or incompatible reported version — must fail with its
    /// own error, never retried.  An unreadable artifact is retried with
    /// the delay doubling from 10 ms up to 1000 ms until the attempt
    /// budget of [`RESULT_POLL_ATTEMPTS`] is spent, and then reported as
    /// a retrieval failure naming the attempt count and the last
    /// underlying I/O error.
    pub fn on_read(&mut self, read: ReadOutcome) -> (r: PollVerdict)
        requires
            spec_poller_ok(*old(self)),
        ensures
            spec_poller_ok(*final(self)),
            final(self).expected_id == old(self).expected_id,
            read matches ReadOutcome::Content(text) ==> *final(self) == *old(self) && (match r {
                PollVerdict::Done(status) => spec_valid_status(status, old(self).expected_id@)
                    && (exists|extra: Seq<char>| text@ == spec_enc_exit_status(status) + extra)
                    && (forall|v: ViewerExitStatus, extra: Seq<char>|
                    text@ == spec_enc_exit_status(v) + extra ==> exit_status_eq(status, v)),
                PollVerdict::Failed(e) => e is InvalidResponse || e is VersionMismatch,
                PollVerdict::RetryAfter(_) => false,
            }),
            read matches ReadOutcome::Content(text) ==> ((exists|
                v: ViewerExitStatus,
                extra: Seq<char>,
            |
                text@ == spec_enc_exit_status(v) + extra && spec_valid_status(
                    v,
                    old(self).expected_id@,
                )) ==> r is Done),
            read matches ReadOutcome::Content(text) ==> (forall|
                v: ViewerExitStatus,
                extra: Seq<char>,
            |
                text@ == spec_enc_exit_status(v) + extra ==> ((v.id@ != old(self).expected_id@
                    ==> (r matches PollVerdict::Failed(e) && e matches
                ViewerError::InvalidResponse(m) && m@ == "result id mismatch: expected "@
                    + old(self).expected_id@ + ", got "@ + v.id@)) && (v.id@ == old(
                    self,
                ).expected_id@ && spec_parse_version(v.version@) is None ==> (r matches
                PollVerdict::Failed(e) && e is InvalidResponse)) && (v.id@ == old(
                    self,
                ).expected_id@ ==> ((spec_parse_version(PROTOCOL_VERSION@) matches Some(lib)
                    && spec_parse_version(v.version@) matches Some(pv) && !spec_compatible(
                    lib,
                    pv,
                )) ==> (r matches PollVerdict::Failed(e) && e matches
                ViewerError::VersionMismatch { library, viewer, suggestion } && library@
                    == PROTOCOL_VERSION@ && viewer@ == v.version@))))),
            read matches ReadOutcome::NotReady(m) ==> (if old(self).attempts + 1
                < RESULT_POLL_ATTEMPTS {
                r == PollVerdict::RetryAfter(spec_next_delay(
                    old(self).delay_ms,
                    RESULT_POLL_MAX_MS,
                )) && final(self).attempts == old(self).attempts + 1 && final(self).delay_ms
                    == spec_next_delay(old(self).delay_ms, RESULT_POLL_MAX_MS)
                    && final(self).last_error == m
            } else {
                r matches PollVerdict::Failed(e) && e matches ViewerError::ResultReadFailed(msg)
                    && msg@ == "no readable result after "@ + crate::text::spec_dec_u64(
                    RESULT_POLL_ATTEMPTS as int,
                ) + " attempts; last error: "@ + m@
            }),
    {
        match read {
            ReadOutcome::Content(text) => {
                match parse_exit_status(text.as_str(), 0) {
                    Option::None => {
                        proof {
                            assert forall|v: ViewerExitStatus, extra: Seq<char>|
                                text@ == spec_enc_exit_status(v) + extra implies false by {
                                assert(text@.skip(0) =~= text@);
                            }
                        }
                        let mut m = String::from_str("result artifact is malformed: ");
                        m.append(text.as_str());
                        PollVerdict::Failed(ViewerError::InvalidResponse(m))
                    },
                    Option::Some((status, end)) => {
                        proof {
                            assert(text@.skip(0) =~= text@);
                            assert(text@ =~= text@.subrange(0, end as int) + text@.skip(
                                end as int,
                            ));
                        }
                        let expected = self.expected_id.clone();
                        match validate_exit_status(&status, expected.as_str()) {
                            Ok(()) => {
                                proof {
                                    assert(text@ == spec_enc_exit_status(status) + text@.skip(
                                        end as int,
                                    ));
                                    assert forall|v: ViewerExitStatus, extra: Seq<char>|
                                        text@ == spec_enc_exit_status(v) + extra implies
                                        exit_status_eq(status, v) by {}
                                }
                                PollVerdict::Done(status)
                            },
                            Err(e) => {
                                proof {
                                    assert forall|v: ViewerExitStatus, extra: Seq<char>|
                                        text@ == spec_enc_exit_status(v) + extra
                                            && spec_valid_status(
                                            v,
                                            old(self).expected_id@,
                                        ) implies false by {
                                        assert(exit_status_eq(status, v));
                                        assert(status.id@ == v.id@);
                                        assert(status.version@ == v.version@);
                                        assert(spec_valid_status(status, old(self).expected_id@));
                                    }
                                    assert forall|v: ViewerExitStatus, extra: Seq<char>|
                                        text@ == spec_enc_exit_status(v) + extra implies (
                                        exit_status_eq(status, v) && status.id@ == v.id@
                                            && status.version@ == v.version@) by {}
                                }
                                PollVerdict::Failed(e)
                            },
                        }
                    },
                }
            },
            ReadOutcome::NotReady(m) => {
                if self.attempts + 1 < RESULT_POLL_ATTEMPTS {
                    proof {
                        crate::backoff::lemma_delay_at_capped(
                            RESULT_POLL_BASE_MS,
                            RESULT_POLL_MAX_MS,
                            old(self).attempts as int,
                        );
                    }
                    let wait = next_delay(self.delay_ms, RESULT_POLL_MAX_MS);
                    self.attempts = self.attempts + 1;
                    self.delay_ms = wait;
                    self.last_error = m;
                    PollVerdict::RetryAfter(wait)
                } else {
                    let mut msg = String::from_str("no readable result after ");
                    crate::text::append_dec_u64(&mut msg, RESULT_POLL_ATTEMPTS);
                    msg.append(" attempts; last error: ");
                    msg.append(m.as_str());
                    proof {
                        assert(msg@ =~= "no readable result after "@ + crate::text::spec_dec_u64(
                            RESULT_POLL_ATTEMPTS as int,
                        ) + " attempts; last error: "@ + m@);
                    }
                    PollVerdict::Failed(ViewerError::ResultReadFailed(msg))
                }
            },
        }
    }
}

} // verus!
