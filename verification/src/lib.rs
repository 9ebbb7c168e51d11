//! Out-of-process HTML viewer orchestration.
//!
//! A calling process asks a separately spawned viewer process to display
//! content and report back when it is done.  The two sides share nothing but
//! the filesystem: a per-request working area holds a request artifact, a
//! result artifact, and an optional command/command-response pair for live
//! updates.  This crate holds the protocol itself — the wire format, version
//! negotiation, retry policy, sequence correlation and working-area
//! ownership — as verified code; an unverified shell performs the actual
//! process and file operations it is told to.

use vstd::prelude::*;

mod backoff;
mod channel;
mod codec;
mod content;
mod decode;
mod error;
mod ident;
mod launcher;
mod locator;
mod options;
mod parse;
mod protocol;
mod retriever;
mod text;
mod version;
mod workarea;

pub use backoff::next_delay;
pub use error::ViewerError;
pub use locator::AppLocator;
pub use options::{ViewerOptions, ViewerOptionsBuilder, ViewerWaitMode};
pub use version::{check_version_compatibility, parse_version};
pub use backoff::backoff_delays;
pub use workarea::{work_area_dir_name, WorkAreaGuard};
pub use codec::{encode_command, encode_command_response, encode_exit_status, encode_request};
pub use decode::{parse_command, parse_command_response, parse_exit_status, parse_request};
pub use retriever::{validate_exit_status, PollVerdict, ReadOutcome, ResultPoller};
pub use channel::{evaluate_response, RefreshStep, RefreshWait, ResponseCheck};
pub use launcher::{LaunchEvent, LaunchPhase, LaunchSession, LaunchStep, RefreshOrder, ViewerHandle, ViewerResult};
pub use content::{compose_file_content, generate_toolbar_html, inject_into_html, inline_display, plan_content, ContentDirective, DisplayMethod};
pub use protocol::{
    BehaviourOptions, DialogOptions, EnvironmentOptions, ToolbarButton, ToolbarOptions,
    ViewerCommand, ViewerCommandResponse, ViewerContent, ViewerExitReason, ViewerExitStatus,
    ViewerRequest, WindowOptions, PROTOCOL_VERSION,
};

verus! {

/// Begin a viewer launch for the given options: a fresh unique id is
/// generated, the working area is derived from it, and the returned
/// session hands out the actions an I/O layer must perform, starting with
/// [`LaunchEvent::Start`].
pub fn open_session(options: ViewerOptions) -> (s: LaunchSession)
    ensures
        launcher::spec_session_ok(s),
        s.phase is Init,
        s.wait == options.wait,
        s.guard.armed,
        s.request.content == options.content,
        s.request.window == options.window,
        s.request.behaviour == options.behaviour,
        s.request.environment == options.environment,
        s.request.dialog == options.dialog,
{
    let id = ident::fresh_request_id();
    LaunchSession::start(options, id)
}

/// Display inline HTML with secure defaults and block until the window is
/// closed: the returned session is the whole launch — request assembly,
/// artifact exchange, retrieval and cleanup — ready to be driven by an
/// I/O layer.
pub fn show(html: String) -> (s: LaunchSession)
    ensures
        launcher::spec_session_ok(s),
        s.phase is Init,
        s.wait == ViewerWaitMode::Blocking,
        s.guard.armed,
        s.request.content matches ViewerContent::InlineHtml { html: h, base_dir } && h@ == html@
            && base_dir is None,
        !s.request.behaviour.allow_remote_content,
        !s.request.behaviour.allow_external_navigation,
        !s.request.behaviour.enable_devtools,
        !s.request.behaviour.allow_notifications,
        s.request.behaviour.allowed_domains is None,
        !s.request.dialog.allow_file_dialogs,
        !s.request.dialog.allow_message_dialogs,
        s.request.window.width == Some(1024u32),
        s.request.window.height == Some(768u32),
        s.request.environment.working_dir is None,
        s.request.environment.timeout_seconds is None,
{
    open_session(ViewerOptions::inline_html(html))
}

/// Display inline HTML as [`show`] does, but with the given window
/// configuration in place of the defaults.
pub fn show_with_options(html: String, window_options: WindowOptions) -> (s: LaunchSession)
    ensures
        launcher::spec_session_ok(s),
        s.phase is Init,
        s.wait == ViewerWaitMode::Blocking,
        s.guard.armed,
        s.request.content matches ViewerContent::InlineHtml { html: h, base_dir } && h@ == html@
            && base_dir is None,
        s.request.window == window_options,
        !s.request.behaviour.allow_remote_content,
        !s.request.behaviour.allow_external_navigation,
        !s.request.behaviour.enable_devtools,
        !s.request.behaviour.allow_notifications,
        s.request.behaviour.allowed_domains is None,
        !s.request.dialog.allow_file_dialogs,
        !s.request.dialog.allow_message_dialogs,
        s.request.environment.working_dir is None,
        s.request.environment.timeout_seconds is None,
{
    let mut options = ViewerOptions::inline_html(html);
    options.window = window_options;
    open_session(options)
}

} // verus!
