//! Live-update channel tests: capability gating, sequence allocation, and
//! response correlation.

use html_view::{
    encode_command_response, evaluate_response, open_session, parse_command, LaunchEvent,
    LaunchStep, RefreshStep, RefreshWait, ResponseCheck, ViewerCommandResponse, ViewerContent,
    ViewerError, ViewerOptions,
};

fn response_text(seq: u64, success: bool, error: Option<&str>) -> String {
    encode_command_response(&ViewerCommandResponse {
        seq,
        success,
        error: error.map(|e| e.to_string()),
    })
}

fn detach_handle() -> html_view::ViewerHandle {
    let options = ViewerOptions::new().non_blocking().build();
    let mut session = open_session(options);
    session.step(LaunchEvent::Start);
    session.step(LaunchEvent::WorkAreaCreated);
    session.step(LaunchEvent::RequestWritten);
    session.step(LaunchEvent::BinaryLocated { path: "/opt/viewer".to_string() });
    match session.step(LaunchEvent::Spawned) {
        LaunchStep::Detached { handle } => handle,
        other => panic!("expected Detached, got {:?}", other),
    }
}

fn some_content() -> ViewerContent {
    ViewerContent::InlineHtml { html: "<p>update</p>".to_string(), base_dir: None }
}

#[test]
fn test_stale_response_never_completes_await() {
    // A response bearing a sequence number from an earlier command must
    // never complete a later, still-pending command await.
    let stale = ViewerCommandResponse { seq: 1, success: true, error: None };
    assert!(matches!(evaluate_response(2, &stale), ResponseCheck::Stale));
    let stale_failure = ViewerCommandResponse {
        seq: 1,
        success: false,
        error: Some("old failure".to_string()),
    };
    assert!(matches!(evaluate_response(2, &stale_failure), ResponseCheck::Stale));

    let mut wait = RefreshWait::new(2);
    // the stale response is ignored: the await keeps polling
    match wait.on_read(Some(response_text(1, true, None))) {
        RefreshStep::RetryAfter(ms) => assert_eq!(ms, 10),
        other => panic!("a stale response must be waited out, got {:?}", other),
    }
    // the matching response then completes it
    match wait.on_read(Some(response_text(2, true, None))) {
        RefreshStep::Acknowledged => {}
        other => panic!("expected acknowledgement, got {:?}", other),
    }
}

#[test]
fn test_matching_failure_surfaces_message() {
    let mut wait = RefreshWait::new(5);
    match wait.on_read(Some(response_text(5, false, Some("no webview")))) {
        RefreshStep::Failed(ViewerError::CommandFailed(m)) => assert_eq!(m, "no webview"),
        other => panic!("expected CommandFailed, got {:?}", other),
    }
}

#[test]
fn test_malformed_response_is_fatal() {
    let mut wait = RefreshWait::new(5);
    match wait.on_read(Some("{{nonsense".to_string())) {
        RefreshStep::Failed(ViewerError::InvalidResponse(m)) => assert!(m.contains("malformed")),
        other => panic!("expected InvalidResponse, got {:?}", other),
    }
}

#[test]
fn test_missing_response_times_out() {
    let mut wait = RefreshWait::new(9);
    let mut total: u64 = 0;
    let mut rounds = 0;
    loop {
        match wait.on_read(None) {
            RefreshStep::RetryAfter(ms) => {
                assert!(ms <= 100);
                total += ms;
            }
            RefreshStep::Failed(ViewerError::CommandTimeout { seq, timeout_secs }) => {
                assert_eq!(seq, 9);
                assert_eq!(timeout_secs, 5);
                break;
            }
            other => panic!("expected retry or timeout, got {:?}", other),
        }
        rounds += 1;
        assert!(rounds < 200, "the await never timed out");
    }
    assert!(total >= 5000);
}

#[test]
fn test_refresh_requires_command_file() {
    let mut handle = detach_handle();
    // a handle created with a command file supports refreshing
    assert!(handle.command_path.is_some());
    assert!(handle.start_refresh(some_content(), true).is_ok());

    // one created without fails at once with a capability error
    let mut no_channel = detach_handle();
    no_channel.command_path = None;
    match no_channel.start_refresh(some_content(), true) {
        Err(ViewerError::RefreshNotSupported(m)) => assert!(m.contains("live updates")),
        other => panic!("expected RefreshNotSupported, got {:?}", other),
    }
}

#[test]
fn test_refresh_fails_after_child_exit() {
    let mut handle = detach_handle();
    match handle.start_refresh(some_content(), false) {
        Err(ViewerError::CommandFailed(m)) => assert!(m.contains("exited")),
        other => panic!("expected CommandFailed, got {:?}", other),
    }
}

#[test]
fn test_refresh_sequences_increase_and_name_unique_temp_files() {
    let mut handle = detach_handle();
    let first = handle.start_refresh(some_content(), true).expect("refresh supported");
    let second = handle.start_refresh(some_content(), true).expect("refresh supported");
    assert_eq!(first.wait.seq, 1);
    assert_eq!(second.wait.seq, 2);
    assert_ne!(first.temp_path, second.temp_path);
    assert_eq!(first.final_path, second.final_path);
    assert!(first.temp_path.starts_with(&first.final_path));

    // the serialized command carries the allocated sequence number
    let (command, _) = parse_command(&second.command_text, 0).expect("command must parse");
    assert_eq!(command.seq, 2);
    assert_eq!(
        command.content,
        ViewerContent::InlineHtml { html: "<p>update</p>".to_string(), base_dir: None }
    );
}
