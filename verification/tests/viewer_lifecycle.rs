//! Launch-session scenarios: the full blocking flow, the non-blocking
//! handoff, error mapping, and retrieval behaviour.

use std::collections::HashSet;
use html_view::{
    encode_exit_status, open_session, parse_request, show, show_with_options, LaunchEvent,
    LaunchStep, PollVerdict, ReadOutcome, ResultPoller, ViewerError, ViewerExitReason,
    ViewerExitStatus, ViewerOptions, ViewerWaitMode, WindowOptions, PROTOCOL_VERSION,
};

fn status_text(id: &str, reason: ViewerExitReason) -> String {
    encode_exit_status(&ViewerExitStatus {
        id: id.to_string(),
        reason,
        version: PROTOCOL_VERSION.to_string(),
    })
}

#[test]
fn test_blocking_launch_reports_timeout_and_removes_work_area() {
    // A blocking request with a one-second environment timeout against a
    // viewer double that reports timed_out: the caller receives exactly
    // that reason and the working area is gone afterwards.
    let options = ViewerOptions::new().timeout(1).build();
    let mut session = open_session(options);
    let id = session.request.id.clone();

    let step = session.step(LaunchEvent::Start);
    let dir = match step {
        LaunchStep::CreateWorkArea { dir } => dir,
        other => panic!("expected CreateWorkArea, got {:?}", other),
    };
    assert!(dir.starts_with("html_view_"));
    assert!(dir.ends_with(&id));

    let step = session.step(LaunchEvent::WorkAreaCreated);
    let (config_path, content) = match step {
        LaunchStep::WriteRequest { path, content } => (path, content),
        other => panic!("expected WriteRequest, got {:?}", other),
    };
    assert_eq!(config_path, format!("{}/config.json", dir));
    let (request, _) = parse_request(&content, 0).expect("request artifact must parse");
    assert_eq!(request.environment.timeout_seconds, Some(1));
    assert_eq!(request.id, id);

    assert!(matches!(session.step(LaunchEvent::RequestWritten), LaunchStep::LocateBinary));

    let step = session.step(LaunchEvent::BinaryLocated { path: "/opt/viewer".to_string() });
    match step {
        LaunchStep::Spawn { program, arg_config, arg_result } => {
            assert_eq!(program, "/opt/viewer");
            assert_eq!(arg_config, format!("{}/config.json", dir));
            assert_eq!(arg_result, format!("{}/result.json", dir));
        }
        other => panic!("expected Spawn, got {:?}", other),
    }

    assert!(matches!(session.step(LaunchEvent::Spawned), LaunchStep::WaitChild));

    // every read of the result artifact is preceded by its scheduled
    // delay, the first one included
    let step = session.step(LaunchEvent::ChildExited { code: Some(0) });
    assert!(matches!(step, LaunchStep::Sleep { ms: 10 }));
    let step = session.step(LaunchEvent::Slept);
    assert!(matches!(step, LaunchStep::ReadResult { .. }));

    let text = status_text(&id, ViewerExitReason::TimedOut);
    let step = session.step(LaunchEvent::ResultRead { text });
    match step {
        LaunchStep::RemoveWorkArea { dir: d } => assert_eq!(d, dir),
        other => panic!("expected RemoveWorkArea, got {:?}", other),
    }
    assert!(!session.guard.armed);

    let step = session.step(LaunchEvent::WorkAreaRemoved);
    match step {
        LaunchStep::Finished { outcome } => {
            let status = outcome.expect("a valid timed_out artifact is a success");
            assert!(matches!(status.reason, ViewerExitReason::TimedOut));
        }
        other => panic!("expected Finished, got {:?}", other),
    }
}

#[test]
fn test_nonzero_exit_without_error_reason_is_spawn_failure() {
    let mut session = show("<h1>x</h1>".to_string());
    let id = session.request.id.clone();
    session.step(LaunchEvent::Start);
    session.step(LaunchEvent::WorkAreaCreated);
    session.step(LaunchEvent::RequestWritten);
    session.step(LaunchEvent::BinaryLocated { path: "/opt/viewer".to_string() });
    session.step(LaunchEvent::Spawned);
    session.step(LaunchEvent::ChildExited { code: Some(3) });
    let text = status_text(&id, ViewerExitReason::ClosedByUser);
    session.step(LaunchEvent::ResultRead { text });
    match session.step(LaunchEvent::WorkAreaRemoved) {
        LaunchStep::Finished { outcome } => match outcome {
            Err(ViewerError::SpawnFailed(m)) => assert!(m.contains("3")),
            other => panic!("expected SpawnFailed, got {:?}", other),
        },
        other => panic!("expected Finished, got {:?}", other),
    }
}

#[test]
fn test_nonzero_exit_with_error_reason_trusts_artifact() {
    let mut session = show("<h1>x</h1>".to_string());
    let id = session.request.id.clone();
    session.step(LaunchEvent::Start);
    session.step(LaunchEvent::WorkAreaCreated);
    session.step(LaunchEvent::RequestWritten);
    session.step(LaunchEvent::BinaryLocated { path: "/opt/viewer".to_string() });
    session.step(LaunchEvent::Spawned);
    session.step(LaunchEvent::ChildExited { code: Some(3) });
    let text = status_text(&id, ViewerExitReason::Error { message: "render failed".to_string() });
    session.step(LaunchEvent::ResultRead { text });
    match session.step(LaunchEvent::WorkAreaRemoved) {
        LaunchStep::Finished { outcome } => {
            let status = outcome.expect("an explicit error reason is trusted over the code");
            match status.reason {
                ViewerExitReason::Error { message } => assert_eq!(message, "render failed"),
                other => panic!("expected the error reason, got {:?}", other),
            }
        }
        other => panic!("expected Finished, got {:?}", other),
    }
}

#[test]
fn test_locator_failure_propagates_unchanged() {
    let mut session = show("<h1>x</h1>".to_string());
    session.step(LaunchEvent::Start);
    session.step(LaunchEvent::WorkAreaCreated);
    session.step(LaunchEvent::RequestWritten);
    let err = ViewerError::BinaryNotFound("nothing on PATH".to_string());
    let step = session.step(LaunchEvent::LocateFailed { error: err });
    assert!(matches!(step, LaunchStep::RemoveWorkArea { .. }));
    match session.step(LaunchEvent::WorkAreaRemoved) {
        LaunchStep::Finished { outcome } => match outcome {
            Err(ViewerError::BinaryNotFound(m)) => assert_eq!(m, "nothing on PATH"),
            other => panic!("expected BinaryNotFound, got {:?}", other),
        },
        other => panic!("expected Finished, got {:?}", other),
    }
}

#[test]
fn test_work_area_creation_failure_is_config_write_failure() {
    let mut session = show("<h1>x</h1>".to_string());
    session.step(LaunchEvent::Start);
    let step = session.step(LaunchEvent::WorkAreaFailed { message: "disk full".to_string() });
    match step {
        LaunchStep::Finished { outcome } => match outcome {
            Err(ViewerError::ConfigWriteFailed(m)) => assert_eq!(m, "disk full"),
            other => panic!("expected ConfigWriteFailed, got {:?}", other),
        },
        other => panic!("expected Finished, got {:?}", other),
    }
}

#[test]
fn test_nonblocking_launch_hands_area_to_handle() {
    let options = ViewerOptions::new().non_blocking().build();
    let mut session = open_session(options);
    let id = session.request.id.clone();
    session.step(LaunchEvent::Start);
    session.step(LaunchEvent::WorkAreaCreated);
    session.step(LaunchEvent::RequestWritten);
    session.step(LaunchEvent::BinaryLocated { path: "/opt/viewer".to_string() });
    let step = session.step(LaunchEvent::Spawned);
    let mut handle = match step {
        LaunchStep::Detached { handle } => handle,
        other => panic!("expected Detached, got {:?}", other),
    };
    // ownership moved: the session no longer owes cleanup, the handle does
    assert!(!session.guard.armed);
    assert!(handle.guard.armed);
    assert_eq!(handle.id, id);
    assert_eq!(handle.command_path.as_deref(), Some(&*format!("html_view_{}/command.json", id)));
    // removal is handed out exactly once
    let dir = handle.finish().expect("the handle owes the removal");
    assert_eq!(dir, format!("html_view_{}", id));
    assert_eq!(handle.finish(), None);
}

#[test]
fn test_request_ids_unique_per_invocation() {
    // Every launch derives its working area from a fresh id; N launches
    // give N distinct ids and N distinct working areas.
    let mut ids = HashSet::new();
    let mut dirs = HashSet::new();
    for _ in 0..50 {
        let mut session = show("<p>x</p>".to_string());
        match session.step(LaunchEvent::Start) {
            LaunchStep::CreateWorkArea { dir } => assert!(dirs.insert(dir)),
            other => panic!("expected CreateWorkArea, got {:?}", other),
        }
        assert!(ids.insert(session.request.id.clone()), "request id collision");
    }
    assert_eq!(ids.len(), 50);
    assert_eq!(dirs.len(), 50);
}

#[test]
fn test_show_with_options_uses_given_window() {
    let mut window = WindowOptions::default();
    window.width = Some(333);
    window.title = Some("Sized".to_string());
    let session = show_with_options("<p>x</p>".to_string(), window);
    assert_eq!(session.request.window.width, Some(333));
    assert_eq!(session.request.window.title, Some("Sized".to_string()));
    assert!(matches!(session.wait, ViewerWaitMode::Blocking));
}

#[test]
fn test_result_polling_full_backoff_schedule() {
    // ten reads, each preceded by its delay: [10,20,40,80,160,320,640,
    // 1000,1000,1000] ms, 4270 ms in all, then a retrieval failure that
    // names the attempt count and the last I/O error
    let mut poller = ResultPoller::new("some-id".to_string());
    let mut slept = vec![poller.delay_ms];
    loop {
        match poller.on_read(ReadOutcome::NotReady("no such file".to_string())) {
            PollVerdict::RetryAfter(ms) => slept.push(ms),
            PollVerdict::Failed(ViewerError::ResultReadFailed(m)) => {
                assert_eq!(m, "no readable result after 10 attempts; last error: no such file");
                break;
            }
            other => panic!("expected retry or failure, got {:?}", other),
        }
        assert!(slept.len() < 20, "polling never gave up");
    }
    assert_eq!(slept, vec![10, 20, 40, 80, 160, 320, 640, 1000, 1000, 1000]);
    assert_eq!(slept.iter().sum::<u64>(), 4270);
}

#[test]
fn test_session_polls_with_full_backoff_schedule() {
    // the same schedule, observed through the launch session when the
    // result artifact never appears
    let mut session = show("<p>x</p>".to_string());
    session.step(LaunchEvent::Start);
    session.step(LaunchEvent::WorkAreaCreated);
    session.step(LaunchEvent::RequestWritten);
    session.step(LaunchEvent::BinaryLocated { path: "/opt/viewer".to_string() });
    session.step(LaunchEvent::Spawned);
    let mut step = session.step(LaunchEvent::ChildExited { code: Some(0) });
    let mut slept: Vec<u64> = Vec::new();
    loop {
        match step {
            LaunchStep::Sleep { ms } => {
                slept.push(ms);
                step = session.step(LaunchEvent::Slept);
            }
            LaunchStep::ReadResult { .. } => {
                step = session.step(LaunchEvent::ResultNotReady {
                    message: "no such file".to_string(),
                });
            }
            LaunchStep::RemoveWorkArea { .. } => break,
            other => panic!("expected polling steps, got {:?}", other),
        }
        assert!(slept.len() < 20, "the session never gave up");
    }
    assert_eq!(slept, vec![10, 20, 40, 80, 160, 320, 640, 1000, 1000, 1000]);
    assert_eq!(slept.iter().sum::<u64>(), 4270);
    match session.step(LaunchEvent::WorkAreaRemoved) {
        LaunchStep::Finished { outcome } => match outcome {
            Err(ViewerError::ResultReadFailed(m)) => assert!(m.contains("10 attempts")),
            other => panic!("expected ResultReadFailed, got {:?}", other),
        },
        other => panic!("expected Finished, got {:?}", other),
    }
}

#[test]
fn test_result_id_mismatch_is_fatal() {
    let mut poller = ResultPoller::new("expected-id".to_string());
    let text = status_text("some-other-id", ViewerExitReason::ClosedByUser);
    match poller.on_read(ReadOutcome::Content(text)) {
        PollVerdict::Failed(ViewerError::InvalidResponse(m)) => {
            assert!(m.contains("id mismatch"));
        }
        other => panic!("expected InvalidResponse, got {:?}", other),
    }
}

#[test]
fn test_result_version_mismatch_is_fatal() {
    let mut poller = ResultPoller::new("the-id".to_string());
    let text = encode_exit_status(&ViewerExitStatus {
        id: "the-id".to_string(),
        reason: ViewerExitReason::ClosedByUser,
        version: "9.9.9".to_string(),
    });
    match poller.on_read(ReadOutcome::Content(text)) {
        PollVerdict::Failed(ViewerError::VersionMismatch { viewer, .. }) => {
            assert_eq!(viewer, "9.9.9");
        }
        other => panic!("expected VersionMismatch, got {:?}", other),
    }
}

#[test]
fn test_result_parse_failure_is_fatal_not_retried() {
    let mut poller = ResultPoller::new("the-id".to_string());
    match poller.on_read(ReadOutcome::Content("not json at all".to_string())) {
        PollVerdict::Failed(ViewerError::InvalidResponse(m)) => {
            assert!(m.contains("malformed"));
        }
        other => panic!("expected InvalidResponse, got {:?}", other),
    }
}

#[test]
fn test_result_valid_artifact_completes() {
    let mut poller = ResultPoller::new("the-id".to_string());
    let text = status_text("the-id", ViewerExitReason::ClosedByUser);
    match poller.on_read(ReadOutcome::Content(text)) {
        PollVerdict::Done(status) => {
            assert_eq!(status.id, "the-id");
            assert!(matches!(status.reason, ViewerExitReason::ClosedByUser));
        }
        other => panic!("expected Done, got {:?}", other),
    }
}
