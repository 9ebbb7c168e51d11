//! The launcher: from fully-populated options to either a terminal exit
//! status (blocking) or a live handle (non-blocking).
//!
//! The decisions live here as a state machine.  Each call to
//! [`LaunchSession::step`] consumes the outcome of the previous action and
//! hands back the next one; an unverified I/O layer performs the actions —
//! creating the working area, writing the request artifact, spawning the
//! child, waiting, reading, sleeping, removing the working area — and
//! reports what happened.

use vstd::prelude::*;
use vstd::string::*;
use crate::channel::RefreshWait;
use crate::codec::{encode_command, encode_request, spec_enc_command, spec_enc_request};
use crate::protocol::{ViewerCommand, ViewerContent};
use crate::error::ViewerError;
use crate::options::{ViewerOptions, ViewerWaitMode};
use crate::protocol::{ViewerExitStatus, ViewerRequest};
use crate::text::append_dec_u64;
use crate::backoff::spec_next_delay;
use crate::retriever::{spec_poller_ok, PollVerdict, ReadOutcome, ResultPoller, spec_valid_status};
use crate::workarea::{
    join_path, spec_work_area_dir, work_area_dir_name, WorkAreaGuard, COMMAND_FILE_NAME,
    COMMAND_RESPONSE_FILE_NAME, REQUEST_FILE_NAME, RESULT_FILE_NAME,
};

verus! {

/// A path inside the working area.
pub open spec fn spec_file_path(dir: Seq<char>, file: Seq<char>) -> Seq<char> {
    dir + "/"@ + file
}

/// A handle to a running viewer in non-blocking mode: the working area it
/// owns, the paths of its artifacts, and the private sequence counter of
/// its live-update channel.
#[derive(Debug)]
pub struct ViewerHandle {
    /// Unique identifier of the originating request.
    pub id: String,
    /// Path of the result artifact.
    pub result_path: String,
    /// Path of the live-update command file, if the request opted in.
    pub command_path: Option<String>,
    /// Path of the command-response file.
    pub response_path: String,
    /// The next sequence number to allocate; strictly increasing, never
    /// reused.
    pub next_seq: u64,
    /// Ownership of the working area; armed until the handle is finished.
    pub guard: WorkAreaGuard,
    /// The bounded retrieval loop for the result artifact.
    pub poller: ResultPoller,
}

/// A well-formed handle: its poller expects its own request id.
pub open spec fn spec_handle_ok(h: ViewerHandle) -> bool {
    &&& spec_poller_ok(h.poller)
    &&& h.poller.expected_id@ == h.id@
}

impl ViewerHandle {
    /// Account one read of the result artifact, after the child process
    /// was observed to have exited, and decide what happens next; the
    /// I/O layer sleeps `poller.delay_ms` before each read, including the
    /// first.  The verdict is owed both ways, as for
    /// [`ResultPoller::on_read`]: a valid, id-matching,
    /// version-compatible artifact must complete with exactly the status
    /// it encodes, and a malformed artifact, an identity mismatch or a
    /// version problem must fail.
    pub fn on_result_read(&mut self, read: ReadOutcome) -> (r: PollVerdict)
        requires
            spec_handle_ok(*old(self)),
        ensures
            spec_handle_ok(*final(self)),
            final(self).id == old(self).id,
            final(self).guard == old(self).guard,
            final(self).next_seq == old(self).next_seq,
            final(self).command_path == old(self).command_path,
            final(self).result_path == old(self).result_path,
            final(self).response_path == old(self).response_path,
            read matches ReadOutcome::Content(text) ==> (match r {
                PollVerdict::Done(status) => spec_valid_status(status, old(self).id@) && (exists|
                    extra: Seq<char>,
                |
                    text@ == crate::codec::spec_enc_exit_status(status) + extra) && (forall|
                    v: crate::protocol::ViewerExitStatus,
                    extra: Seq<char>,
                |
                    text@ == crate::codec::spec_enc_exit_status(v) + extra
                        ==> crate::decode::exit_status_eq(status, v)),
                PollVerdict::Failed(e) => e is InvalidResponse || e is VersionMismatch,
                PollVerdict::RetryAfter(_) => false,
            }),
            read matches ReadOutcome::Content(text) ==> ((exists|
                v: crate::protocol::ViewerExitStatus,
                extra: Seq<char>,
            |
                text@ == crate::codec::spec_enc_exit_status(v) + extra && spec_valid_status(
                    v,
                    old(self).id@,
                )) ==> r is Done),
    {
        proof {
            assert(old(self).poller.expected_id@ == old(self).id@);
        }
        self.poller.on_read(read)
    }

    /// Allocate the sequence number for the next live-update command.
    /// Sequence numbers start at one and are handed out exactly once.
    pub fn next_sequence(&mut self) -> (seq: u64)
        requires
            old(self).next_seq < u64::MAX,
        ensures
            seq == old(self).next_seq + 1,
            final(self).next_seq == old(self).next_seq + 1,
            final(self).id == old(self).id,
            final(self).result_path == old(self).result_path,
            final(self).command_path == old(self).command_path,
            final(self).response_path == old(self).response_path,
            final(self).guard == old(self).guard,
            final(self).poller == old(self).poller,
    {
        self.next_seq = self.next_seq + 1;
        self.next_seq
    }

    /// Open one live-update exchange: allocate the next sequence number,
    /// serialize the command, and name the files involved.  The request
    /// must have opted in to live updates — a handle without a command
    /// file fails at once with a capability error, not a retryable one —
    /// and the child must still be alive, since a command written after
    /// its exit would never be read.
    pub fn start_refresh(&mut self, content: ViewerContent, child_alive: bool) -> (r: Result<
        RefreshOrder,
        ViewerError,
    >)
        requires
            old(self).next_seq < u64::MAX,
        ensures
            old(self).command_path is None ==> (r matches Err(e) && e is RefreshNotSupported
                && *final(self) == *old(self)),
            old(self).command_path is Some && !child_alive ==> (r matches Err(e) && e is
                CommandFailed && *final(self) == *old(self)),
            old(self).command_path matches Some(p) ==> (child_alive ==> (r matches Ok(o)
                && o.wait.seq == old(self).next_seq + 1 && o.wait.elapsed_ms == 0
                && final(self).next_seq == old(self).next_seq + 1 && o.command_text@
                == spec_enc_command(
                ViewerCommand { seq: (old(self).next_seq + 1) as u64, content: content },
            ) && o.final_path@ == p@ && o.temp_path@ == p@ + ".tmp"@ + crate::text::spec_dec_u64(
                old(self).next_seq + 1,
            ) && o.response_path@ == old(self).response_path@)),
            final(self).id == old(self).id,
            final(self).guard == old(self).guard,
            final(self).poller == old(self).poller,
    {
        let command_target: String = match &self.command_path {
            Option::None => {
                return Err(ViewerError::RefreshNotSupported(String::from_str(
                    "the request did not opt in to live updates",
                )));
            },
            Option::Some(p) => p.clone(),
        };
        if !child_alive {
            return Err(ViewerError::CommandFailed(String::from_str(
                "viewer process has already exited",
            )));
        }
        let seq = self.next_sequence();
        let command = ViewerCommand { seq, content };
        let command_text = encode_command(&command);
        let mut temp_path = command_target.clone();
        temp_path.append(".tmp");
        append_dec_u64(&mut temp_path, seq);
        Ok(RefreshOrder {
            command_text,
            temp_path,
            final_path: command_target,
            response_path: self.response_path.clone(),
            wait: RefreshWait::new(seq),
        })
    }

    /// The path to remove now, if this handle still owns its working
    /// area; handed out at most once.
    pub fn finish(&mut self) -> (r: Option<String>)
        ensures
            old(self).guard.armed ==> (r matches Some(d) && d == old(self).guard.dir),
            !old(self).guard.armed ==> r is None,
            !final(self).guard.armed,
            final(self).id == old(self).id,
            final(self).poller == old(self).poller,
            final(self).next_seq == old(self).next_seq,
    {
        self.guard.finish()
    }
}

/// Everything the I/O layer needs to send one live-update command: write
/// `command_text` to `temp_path`, atomically rename it onto `final_path`
/// so the viewer never observes a partial command, then drive `wait`
/// against reads of `response_path`.
#[derive(Debug)]
pub struct RefreshOrder {
    /// The serialized command.
    pub command_text: String,
    /// The uniquely named temporary file to write first.
    pub temp_path: String,
    /// The well-known command-file path to rename onto.
    pub final_path: String,
    /// The well-known response-file path to poll.
    pub response_path: String,
    /// The acknowledgement wait, carrying the command's sequence number.
    pub wait: RefreshWait,
}

/// The result of opening a viewer.
#[derive(Debug)]
pub enum ViewerResult {
    /// The viewer was opened in blocking mode and has completed.
    Blocking(ViewerExitStatus),
    /// The viewer was opened in non-blocking mode.
    NonBlocking(ViewerHandle),
}

/// The next action the I/O layer must perform for a launch in progress.
/// All paths are relative to the platform's temporary directory.
#[derive(Debug)]
pub enum LaunchStep {
    /// Create the working-area directory, with owner-only permissions
    /// where the platform supports it.
    CreateWorkArea { dir: String },
    /// Write the serialized request to the request artifact.
    WriteRequest { path: String, content: String },
    /// Resolve the path of the viewer binary.
    LocateBinary,
    /// Spawn the binary at `program` with the request-artifact path and
    /// the intended result-artifact path as its two arguments.
    Spawn { program: String, arg_config: String, arg_result: String },
    /// Wait for the child process to exit.
    WaitChild,
    /// Read the result artifact.
    ReadResult { path: String },
    /// Sleep this many milliseconds, then report back.
    Sleep { ms: u64 },
    /// Remove the working-area directory tree, best effort.
    RemoveWorkArea { dir: String },
    /// The blocking launch is over with this outcome.
    Finished { outcome: Result<ViewerExitStatus, ViewerError> },
    /// The non-blocking launch has handed the working area to this
    /// handle.
    Detached { handle: ViewerHandle },
}

/// Where a launch stands between two actions.
#[derive(Debug)]
pub enum LaunchPhase {
    /// Nothing has happened yet.
    Init,
    /// The working area is being created.
    CreatingDir,
    /// The request artifact is being written.
    WritingRequest,
    /// The viewer binary is being located.
    Locating,
    /// The child process is being spawned.
    Spawning,
    /// The child process is running; blocking mode waits for its exit.
    WaitingChild,
    /// The result artifact is being polled for.
    Polling,
    /// The working area is being removed before the launch finishes with
    /// the recorded outcome.
    Cleanup,
    /// The launch is over.
    Done,
}

/// One viewer launch being driven to completion.
pub struct LaunchSession {
    /// Where the launch stands.
    pub phase: LaunchPhase,
    /// The request being served.
    pub request: ViewerRequest,
    /// Whether the caller blocks for the exit status or takes a handle.
    pub wait: ViewerWaitMode,
    /// The working-area directory name, derived from the request id.
    pub dir: String,
    /// The path of the viewer binary, once located.
    pub binary: Option<String>,
    /// Ownership of the working area until it is removed or handed off.
    pub guard: WorkAreaGuard,
    /// The bounded retrieval loop for the result artifact.
    pub poller: ResultPoller,
    /// The outcome to report once the working area is gone.
    pub pending: Option<Result<ViewerExitStatus, ViewerError>>,
    /// The child's exit code, once it has exited.
    pub child_code: Option<i32>,
    /// Whether the child exited with status zero.
    pub child_success: bool,
}

/// A well-formed session: the working area is derived from the request id
/// and everything that owns or polls it agrees on that.
pub open spec fn spec_session_ok(s: LaunchSession) -> bool {
    &&& spec_poller_ok(s.poller)
    &&& s.poller.expected_id@ == s.request.id@
    &&& s.dir@ == spec_work_area_dir(s.request.id@)
    &&& s.guard.dir@ == s.dir@
}

impl LaunchSession {
    /// Begin a launch: the request is assembled from the options and the
    /// given fresh id, and the working-area name is derived from that id.
    /// The first action comes from the first [`LaunchSession::step`]
    /// call.
    pub fn start(options: ViewerOptions, id: String) -> (s: Self)
        ensures
            spec_session_ok(s),
            s.phase is Init,
            s.request.id@ == id@,
            s.request.content == options.content,
            s.request.window == options.window,
            s.request.behaviour == options.behaviour,
            s.request.environment == options.environment,
            s.request.dialog == options.dialog,
            options.wait == ViewerWaitMode::NonBlocking && options.live_updates ==> (
            s.request.command_file matches Some(f) && f@ == COMMAND_FILE_NAME@),
            !(options.wait == ViewerWaitMode::NonBlocking && options.live_updates)
                ==> s.request.command_file is None,
            s.wait == options.wait,
            s.guard.armed,
            s.poller.attempts == 0,
            s.poller.delay_ms == crate::backoff::RESULT_POLL_BASE_MS,
            s.pending is None,
    {
        let command_file: Option<String> = if options.wait == ViewerWaitMode::NonBlocking
            && options.live_updates {
            Some(String::from_str(COMMAND_FILE_NAME))
        } else {
            None
        };
        let request = ViewerRequest {
            id: id.clone(),
            content: options.content,
            window: options.window,
            behaviour: options.behaviour,
            environment: options.environment,
            dialog: options.dialog,
            command_file,
        };
        let dir = work_area_dir_name(id.as_str());
        let guard = WorkAreaGuard::new(dir.clone());
        let poller = ResultPoller::new(id);
        LaunchSession {
            phase: LaunchPhase::Init,
            request,
            wait: options.wait,
            dir,
            binary: None,
            guard,
            poller,
            pending: None,
            child_code: None,
            child_success: false,
        }
    }

    /// Consume the outcome of the previous action and decide the next
    /// one.
    ///
    /// Failures map to the error taxonomy exactly: a working-area or
    /// artifact-write failure is a configuration-write failure, a locator
    /// failure propagates unchanged, a spawn failure is a spawn failure,
    /// and retrieval failures come from the bounded polling loop.  After
    /// any failure past the creation of the working area, the working
    /// area is removed before the launch finishes.  In the blocking
    /// branch, a non-zero child exit is surfaced as a spawn failure only
    /// when the retrieved artifact does not itself carry an error reason;
    /// the artifact is trusted over the raw exit code.
    #[verifier::rlimit(60)]
    pub fn step(&mut self, event: LaunchEvent) -> (r: LaunchStep)
        requires
            spec_session_ok(*old(self)),
        ensures
            spec_session_ok(*final(self)),
            final(self).request == old(self).request,
            final(self).wait == old(self).wait,
            final(self).dir == old(self).dir,
            old(self).phase is Init && event is Start ==> (r matches LaunchStep::CreateWorkArea {
                dir } && dir@ == old(self).dir@ && final(self).phase is CreatingDir),
            old(self).phase is CreatingDir ==> (match event {
                LaunchEvent::WorkAreaCreated => r matches LaunchStep::WriteRequest { path, content }
                    && path@ == spec_file_path(old(self).dir@, REQUEST_FILE_NAME@) && content@
                    == spec_enc_request(old(self).request) && final(self).phase is WritingRequest,
                LaunchEvent::WorkAreaFailed { message } => r matches LaunchStep::Finished {
                    outcome } && outcome matches Err(e) && e matches
                    ViewerError::ConfigWriteFailed(m) && m@ == message@ && final(self).phase is
                    Done && !final(self).guard.armed,
                _ => true,
            }),
            old(self).phase is WritingRequest ==> (match event {
                LaunchEvent::RequestWritten => r is LocateBinary && final(self).phase is Locating,
                LaunchEvent::WriteFailed { message } => r matches LaunchStep::RemoveWorkArea { dir }
                    && dir@ == old(self).dir@ && final(self).phase is Cleanup && (final(self).pending matches Some(o) && o matches Err(e) && e matches
                    ViewerError::ConfigWriteFailed(m) && m@ == message@) && !final(self).guard.armed,
                _ => true,
            }),
            old(self).phase is Locating ==> (match event {
                LaunchEvent::BinaryLocated { path } => r matches LaunchStep::Spawn {
                    program, arg_config, arg_result } && program@ == path@ && arg_config@
                    == spec_file_path(old(self).dir@, REQUEST_FILE_NAME@) && arg_result@
                    == spec_file_path(old(self).dir@, RESULT_FILE_NAME@) && final(self).phase is
                    Spawning,
                LaunchEvent::LocateFailed { error } => r matches LaunchStep::RemoveWorkArea { dir }
                    && dir@ == old(self).dir@ && final(self).phase is Cleanup && (final(self).pending matches Some(o) && o matches Err(e) && e == error) && !final(self).guard.armed,
                _ => true,
            }),
            old(self).phase is Spawning ==> (match event {
                LaunchEvent::Spawned => (if old(self).wait == ViewerWaitMode::Blocking {
                    r is WaitChild && final(self).phase is WaitingChild
                } else {
                    r matches LaunchStep::Detached { handle } && final(self).phase is Done
                        && !final(self).guard.armed && handle.guard.armed && handle.guard.dir@
                        == old(self).dir@ && handle.id@ == old(self).request.id@
                        && handle.next_seq == 0 && spec_handle_ok(handle) && handle.result_path@
                        == spec_file_path(old(self).dir@, RESULT_FILE_NAME@)
                        && handle.response_path@ == spec_file_path(
                        old(self).dir@,
                        COMMAND_RESPONSE_FILE_NAME@,
                    ) && (old(self).request.command_file matches Some(f) ==> (handle.command_path
                        matches Some(p) && p@ == spec_file_path(old(self).dir@, f@)))
                        && (old(self).request.command_file is None ==> handle.command_path is None)
                }),
                LaunchEvent::SpawnErrored { message } => r matches LaunchStep::RemoveWorkArea { dir }
                    && dir@ == old(self).dir@ && final(self).phase is Cleanup && (final(self).pending matches Some(o) && o matches Err(e) && e matches
                    ViewerError::SpawnFailed(m) && m@ == message@) && !final(self).guard.armed,
                _ => true,
            }),
            old(self).phase is WaitingChild ==> (match event {
                LaunchEvent::ChildExited { code } => r matches LaunchStep::Sleep { ms } && ms
                    == old(self).poller.delay_ms && final(self).phase is Polling
                    && final(self).poller == old(self).poller && final(self).child_code == code
                    && final(self).child_success == (code == Some(0i32)),
                _ => true,
            }),
            old(self).phase is Polling ==> (match event {
                LaunchEvent::ResultRead { text } => (match r {
                    LaunchStep::RemoveWorkArea { dir } => dir@ == old(self).dir@ && !final(self).guard.armed && final(self).phase is Cleanup && (final(self).pending matches Some(o) && (o matches Ok(status) ==> spec_valid_status(
                        status,
                        old(self).request.id@,
                    ) && (old(self).child_success || status.reason is Error)) && (forall|
                        v: ViewerExitStatus,
                        extra: Seq<char>,
                    |
                        text@ == crate::codec::spec_enc_exit_status(v) + extra
                            && spec_valid_status(v, old(self).request.id@) ==> (
                        if old(self).child_success || v.reason is Error {
                            o matches Ok(status) && crate::decode::exit_status_eq(status, v)
                        } else {
                            o matches Err(e) && e matches ViewerError::SpawnFailed(m) && m@
                                == "process exited with code "@ + (match old(self).child_code {
                                Some(c) => crate::codec::spec_enc_i32(c),
                                None => "unknown"@,
                            })
                        }))),
                    _ => false,
                }),
                LaunchEvent::ResultNotReady { message } => (match r {
                    LaunchStep::Sleep { ms } => ms == spec_next_delay(
                        old(self).poller.delay_ms,
                        crate::backoff::RESULT_POLL_MAX_MS,
                    ) && ms == final(self).poller.delay_ms && final(self).phase is Polling,
                    LaunchStep::RemoveWorkArea { dir } => dir@ == old(self).dir@ && !final(self).guard.armed && final(self).phase is Cleanup && (final(self).pending matches Some(o) && o matches Err(e) && e is ResultReadFailed),
                    _ => false,
                }),
                LaunchEvent::Slept => r matches LaunchStep::ReadResult { path } && path@
                    == spec_file_path(old(self).dir@, RESULT_FILE_NAME@) && final(self).phase is
                    Polling,
                _ => true,
            }),
            old(self).phase is Cleanup ==> (event is WorkAreaRemoved ==> (old(self).pending matches Some(o) ==> (r matches LaunchStep::Finished { outcome: out } && out
                == o && final(self).phase is Done))),
    {
        match (&self.phase, event) {
            (LaunchPhase::Init, LaunchEvent::Start) => {
                self.phase = LaunchPhase::CreatingDir;
                LaunchStep::CreateWorkArea { dir: self.dir.clone() }
            },
            (LaunchPhase::CreatingDir, LaunchEvent::WorkAreaCreated) => {
                self.phase = LaunchPhase::WritingRequest;
                let path = join_path(self.dir.as_str(), REQUEST_FILE_NAME);
                let content = encode_request(&self.request);
                LaunchStep::WriteRequest { path, content }
            },
            (LaunchPhase::CreatingDir, LaunchEvent::WorkAreaFailed { message }) => {
                // nothing was created, so there is nothing to remove
                self.guard.disarm();
                self.phase = LaunchPhase::Done;
                LaunchStep::Finished { outcome: Err(ViewerError::ConfigWriteFailed(message)) }
            },
            (LaunchPhase::WritingRequest, LaunchEvent::RequestWritten) => {
                self.phase = LaunchPhase::Locating;
                LaunchStep::LocateBinary
            },
            (LaunchPhase::WritingRequest, LaunchEvent::WriteFailed { message }) => {
                self.begin_cleanup(Err(ViewerError::ConfigWriteFailed(message)))
            },
            (LaunchPhase::Locating, LaunchEvent::BinaryLocated { path }) => {
                self.phase = LaunchPhase::Spawning;
                self.binary = Some(path.clone());
                LaunchStep::Spawn {
                    program: path,
                    arg_config: join_path(self.dir.as_str(), REQUEST_FILE_NAME),
                    arg_result: join_path(self.dir.as_str(), RESULT_FILE_NAME),
                }
            },
            (LaunchPhase::Locating, LaunchEvent::LocateFailed { error }) => {
                self.begin_cleanup(Err(error))
            },
            (LaunchPhase::Spawning, LaunchEvent::Spawned) => {
                if self.wait == ViewerWaitMode::Blocking {
                    self.phase = LaunchPhase::WaitingChild;
                    LaunchStep::WaitChild
                } else {
                    // ownership of the working area moves to the handle
                    self.guard.disarm();
                    self.phase = LaunchPhase::Done;
                    let command_path: Option<String> = match &self.request.command_file {
                        Option::Some(f) => Some(join_path(self.dir.as_str(), f.as_str())),
                        Option::None => None,
                    };
                    let handle = ViewerHandle {
                        id: self.request.id.clone(),
                        result_path: join_path(self.dir.as_str(), RESULT_FILE_NAME),
                        command_path,
                        response_path: join_path(self.dir.as_str(), COMMAND_RESPONSE_FILE_NAME),
                        next_seq: 0,
                        guard: WorkAreaGuard::new(self.dir.clone()),
                        poller: ResultPoller::new(self.request.id.clone()),
                    };
                    LaunchStep::Detached { handle }
                }
            },
            (LaunchPhase::Spawning, LaunchEvent::SpawnErrored { message }) => {
                self.begin_cleanup(Err(ViewerError::SpawnFailed(message)))
            },
            (LaunchPhase::WaitingChild, LaunchEvent::ChildExited { code }) => {
                self.child_code = code;
                self.child_success = code == Some(0i32);
                self.phase = LaunchPhase::Polling;
                // the first read, like every later one, is preceded by
                // its scheduled delay
                LaunchStep::Sleep { ms: self.poller.delay_ms }
            },
            (LaunchPhase::Polling, LaunchEvent::ResultRead { text }) => {
                let ghost text_g = text@;
                let verdict = self.poller.on_read(ReadOutcome::Content(text));
                match verdict {
                    PollVerdict::Done(status) => {
                        let ghost status_g = status;
                        let outcome = self.reconcile_exit(status);
                        let ghost outcome_g = outcome;
                        let step = self.begin_cleanup(outcome);
                        proof {
                            assert forall|v: ViewerExitStatus, extra: Seq<char>|
                                text_g == crate::codec::spec_enc_exit_status(v) + extra
                                    && spec_valid_status(v, old(self).request.id@) implies (
                            if old(self).child_success || v.reason is Error {
                                outcome_g matches Ok(st) && crate::decode::exit_status_eq(st, v)
                            } else {
                                outcome_g matches Err(e) && e matches ViewerError::SpawnFailed(m)
                                    && m@ == "process exited with code "@ + (
                                match old(self).child_code {
                                    Some(c) => crate::codec::spec_enc_i32(c),
                                    None => "unknown"@,
                                })
                            }) by {
                                assert(crate::decode::exit_status_eq(status_g, v));
                                assert(status_g.reason is Error <==> v.reason is Error);
                            }
                        }
                        step
                    },
                    PollVerdict::Failed(e) => {
                        proof {
                            assert forall|v: ViewerExitStatus, extra: Seq<char>|
                                text_g == crate::codec::spec_enc_exit_status(v) + extra
                                    && spec_valid_status(v, old(self).request.id@) implies
                                false by {
                                assert(text_g == crate::codec::spec_enc_exit_status(v) + extra
                                    && spec_valid_status(v, old(self).poller.expected_id@));
                            }
                        }
                        self.begin_cleanup(Err(e))
                    },
                    PollVerdict::RetryAfter(_) => {
                        // a readable artifact is never retried
                        self.begin_cleanup(Err(ViewerError::Timeout))
                    },
                }
            },
            (LaunchPhase::Polling, LaunchEvent::ResultNotReady { message }) => {
                let verdict = self.poller.on_read(ReadOutcome::NotReady(message));
                match verdict {
                    PollVerdict::RetryAfter(ms) => LaunchStep::Sleep { ms },
                    PollVerdict::Failed(e) => self.begin_cleanup(Err(e)),
                    PollVerdict::Done(status) => {
                        // an unreadable artifact never completes retrieval
                        self.begin_cleanup(Err(ViewerError::Timeout))
                    },
                }
            },
            (LaunchPhase::Polling, LaunchEvent::Slept) => {
                LaunchStep::ReadResult { path: join_path(self.dir.as_str(), RESULT_FILE_NAME) }
            },
            (LaunchPhase::Cleanup, LaunchEvent::WorkAreaRemoved) => {
                self.phase = LaunchPhase::Done;
                match self.pending.take() {
                    Option::Some(o) => LaunchStep::Finished { outcome: o },
                    Option::None => LaunchStep::Finished {
                        outcome: Err(ViewerError::SerdeError(String::from_str(
                            "launch finished with no recorded outcome",
                        ))),
                    },
                }
            },
            (_, _) => {
                // no action is owed for an event that does not belong to
                // the current phase
                LaunchStep::Sleep { ms: 0 }
            },
        }
    }

    /// Record the outcome and hand the working area out for removal.
    fn begin_cleanup(&mut self, outcome: Result<ViewerExitStatus, ViewerError>) -> (r: LaunchStep)
        requires
            spec_session_ok(*old(self)),
        ensures
            spec_session_ok(*final(self)),
            final(self).request == old(self).request,
            final(self).wait == old(self).wait,
            final(self).dir == old(self).dir,
            r matches LaunchStep::RemoveWorkArea { dir } && dir@ == old(self).dir@,
            final(self).phase is Cleanup,
            final(self).pending matches Some(o) && o == outcome,
            !final(self).guard.armed,
    {
        self.guard.disarm();
        self.phase = LaunchPhase::Cleanup;
        self.pending = Some(outcome);
        LaunchStep::RemoveWorkArea { dir: self.dir.clone() }
    }

    /// The blocking branch's final decision: the retrieved artifact is
    /// trusted whenever it carries an explicit error reason; otherwise a
    /// non-zero child exit is surfaced as a spawn failure carrying the
    /// exit code.
    fn reconcile_exit(&self, status: ViewerExitStatus) -> (r: Result<
        ViewerExitStatus,
        ViewerError,
    >)
        ensures
            self.child_success || status.reason is Error ==> r == Ok::<
                ViewerExitStatus,
                ViewerError,
            >(status),
            !self.child_success && !(status.reason is Error) ==> (r matches Err(e) && e matches
                ViewerError::SpawnFailed(m) && m@ == "process exited with code "@ + (
            match self.child_code {
                Some(c) => crate::codec::spec_enc_i32(c),
                None => "unknown"@,
            })),
    {
        if self.child_success {
            return Ok(status);
        }
        let carries_error = match &status.reason {
            crate::protocol::ViewerExitReason::Error { .. } => true,
            _ => false,
        };
        if carries_error {
            return Ok(status);
        }
        let mut m = String::from_str("process exited with code ");
        match &self.child_code {
            Option::Some(c) => {
                crate::codec::append_i32(&mut m, *c);
            },
            Option::None => {
                m.append("unknown");
            },
        }
        Err(ViewerError::SpawnFailed(m))
    }
}

/// What the I/O layer reports back after performing a launch action.
#[derive(Debug)]
pub enum LaunchEvent {
    /// Begin: ask for the first action.
    Start,
    /// The working area exists.
    WorkAreaCreated,
    /// The working area could not be created.
    WorkAreaFailed { message: String },
    /// The request artifact is on disk.
    RequestWritten,
    /// The request artifact could not be written.
    WriteFailed { message: String },
    /// The viewer binary was found at this path.
    BinaryLocated { path: String },
    /// The viewer binary could not be found; the error comes from the
    /// locator and is propagated unchanged.
    LocateFailed { error: ViewerError },
    /// The child process started.
    Spawned,
    /// The child process could not be started.
    SpawnErrored { message: String },
    /// The child process exited with this code, if one was available.
    ChildExited { code: Option<i32> },
    /// The result artifact was read in full.
    ResultRead { text: String },
    /// The result artifact could not be read.
    ResultNotReady { message: String },
    /// The requested sleep is over.
    Slept,
    /// The working area is gone.
    WorkAreaRemoved,
}

} // verus!
