//! Wire-format tests: encoding shapes and round trips for every artifact.

use html_view::{
    encode_command, encode_command_response, encode_exit_status, encode_request, parse_command,
    parse_command_response, parse_exit_status, parse_request, BehaviourOptions, DialogOptions,
    EnvironmentOptions, ToolbarButton, ToolbarOptions, ViewerCommand, ViewerCommandResponse,
    ViewerContent, ViewerExitReason, ViewerExitStatus, ViewerRequest, WindowOptions,
    PROTOCOL_VERSION,
};

fn sample_request() -> ViewerRequest {
    ViewerRequest {
        id: "11111111-2222-3333-4444-555555555555".to_string(),
        content: ViewerContent::InlineHtml {
            html: "<h1>Hello \"world\"\\</h1>\n".to_string(),
            base_dir: Some("/tmp/assets".to_string()),
        },
        window: WindowOptions {
            title: Some("Demo".to_string()),
            width: Some(640),
            height: Some(480),
            x: Some(-10),
            y: Some(25),
            resizable: false,
            maximised: true,
            fullscreen: false,
            decorations: true,
            transparent: false,
            always_on_top: true,
            theme: Some("dark".to_string()),
            background_color: None,
            toolbar: ToolbarOptions {
                show: true,
                title_text: Some("Tools".to_string()),
                background_color: None,
                text_color: Some("#333333".to_string()),
                buttons: vec![
                    ToolbarButton {
                        id: "close".to_string(),
                        label: "Close".to_string(),
                        icon: None,
                    },
                    ToolbarButton {
                        id: "min".to_string(),
                        label: "Minimise".to_string(),
                        icon: Some("chevron".to_string()),
                    },
                ],
            },
        },
        behaviour: BehaviourOptions {
            allow_external_navigation: true,
            allowed_domains: Some(vec!["example.com".to_string(), "test.com".to_string()]),
            enable_devtools: false,
            allow_remote_content: false,
            allow_notifications: true,
        },
        environment: EnvironmentOptions {
            working_dir: Some("/work".to_string()),
            timeout_seconds: Some(30),
        },
        dialog: DialogOptions { allow_file_dialogs: true, allow_message_dialogs: false },
        command_file: Some("command.json".to_string()),
    }
}

#[test]
fn test_viewer_request_roundtrip() {
    let request = sample_request();
    let text = encode_request(&request);
    let (parsed, end) = parse_request(&text, 0).expect("canonical text must parse");
    assert_eq!(end, text.chars().count());
    assert_eq!(parsed, request);
}

#[test]
fn test_viewer_request_roundtrip_other_contents() {
    let mut request = sample_request();
    for content in [
        ViewerContent::LocalFile { path: "/path/to/file.html".to_string() },
        ViewerContent::AppDir { root: "/app/root".to_string(), entry: Some("main.html".to_string()) },
        ViewerContent::AppDir { root: "/app/root".to_string(), entry: None },
        ViewerContent::RemoteUrl { url: "https://example.com/".to_string() },
    ] {
        request.content = content;
        let text = encode_request(&request);
        let (parsed, _) = parse_request(&text, 0).expect("canonical text must parse");
        assert_eq!(parsed, request);
    }
}

#[test]
fn test_viewer_exit_status_roundtrip() {
    for reason in [
        ViewerExitReason::ClosedByUser,
        ViewerExitReason::TimedOut,
        ViewerExitReason::Error { message: "boom: \"quote\"".to_string() },
    ] {
        let status = ViewerExitStatus {
            id: "11111111-2222-3333-4444-555555555555".to_string(),
            reason,
            version: PROTOCOL_VERSION.to_string(),
        };
        let text = encode_exit_status(&status);
        let (parsed, end) = parse_exit_status(&text, 0).expect("canonical text must parse");
        assert_eq!(end, text.chars().count());
        assert_eq!(parsed, status);
    }
}

#[test]
fn test_viewer_command_roundtrip() {
    let command = ViewerCommand {
        seq: 41,
        content: ViewerContent::InlineHtml {
            html: "<p>updated</p>".to_string(),
            base_dir: None,
        },
    };
    let text = encode_command(&command);
    let (parsed, end) = parse_command(&text, 0).expect("canonical text must parse");
    assert_eq!(end, text.chars().count());
    assert_eq!(parsed, command);
}

#[test]
fn test_viewer_command_response_roundtrip() {
    for response in [
        ViewerCommandResponse { seq: 41, success: true, error: None },
        ViewerCommandResponse { seq: 42, success: false, error: Some("no window".to_string()) },
    ] {
        let text = encode_command_response(&response);
        let (parsed, end) = parse_command_response(&text, 0).expect("canonical text must parse");
        assert_eq!(end, text.chars().count());
        assert_eq!(parsed, response);
    }
}

#[test]
fn test_exit_status_encoding_shape() {
    let status = ViewerExitStatus {
        id: "abc".to_string(),
        reason: ViewerExitReason::TimedOut,
        version: "0.1.0".to_string(),
    };
    assert_eq!(
        encode_exit_status(&status),
        "{\"id\":\"abc\",\"reason\":{\"reason\":\"timed_out\"},\"version\":\"0.1.0\"}"
    );
}

#[test]
fn test_command_response_encoding_shape() {
    let response = ViewerCommandResponse { seq: 7, success: false, error: Some("x".to_string()) };
    assert_eq!(
        encode_command_response(&response),
        "{\"seq\":7,\"success\":false,\"error\":\"x\"}"
    );
}

#[test]
fn test_string_escaping_in_encoding() {
    let command = ViewerCommand {
        seq: 1,
        content: ViewerContent::LocalFile { path: "a\"b\\c\nd".to_string() },
    };
    let text = encode_command(&command);
    assert_eq!(
        text,
        "{\"seq\":1,\"content\":{\"type\":\"local_file\",\"path\":\"a\\\"b\\\\c\\nd\"}}"
    );
    let (parsed, _) = parse_command(&text, 0).expect("canonical text must parse");
    assert_eq!(parsed, command);
}

#[test]
fn test_malformed_artifacts_do_not_parse() {
    assert!(parse_exit_status("", 0).is_none());
    assert!(parse_exit_status("{\"id\":\"a\"", 0).is_none());
    assert!(parse_exit_status("{\"id\":\"a\",\"reason\":{\"reason\":\"later\"},\"version\":\"1\"}", 0).is_none());
    assert!(parse_command_response("{\"seq\":01,\"success\":true,\"error\":null}", 0).is_none());
}

#[test]
fn test_window_options_defaults() {
    let opts = WindowOptions::default();
    assert_eq!(opts.title, Some("HTML Viewer".to_string()));
    assert_eq!(opts.width, Some(1024));
    assert_eq!(opts.height, Some(768));
    assert!(opts.resizable);
    assert!(!opts.maximised);
    assert!(!opts.fullscreen);
}

#[test]
fn test_behaviour_options_defaults() {
    let opts = BehaviourOptions::default();
    assert!(!opts.allow_external_navigation);
    assert!(!opts.enable_devtools);
    assert!(!opts.allow_remote_content);
    assert_eq!(opts.allowed_domains, None);
}

#[test]
fn test_u64_boundary_roundtrip() {
    let response = ViewerCommandResponse { seq: u64::MAX, success: true, error: None };
    let text = encode_command_response(&response);
    assert!(text.contains("18446744073709551615"));
    let (parsed, _) = parse_command_response(&text, 0).expect("canonical text must parse");
    assert_eq!(parsed, response);
}

#[test]
fn test_window_position_negative_roundtrip() {
    let mut request = sample_request();
    request.window.x = Some(i32::MIN);
    request.window.y = Some(i32::MAX);
    let text = encode_request(&request);
    let (parsed, _) = parse_request(&text, 0).expect("canonical text must parse");
    assert_eq!(parsed.window.x, Some(i32::MIN));
    assert_eq!(parsed.window.y, Some(i32::MAX));
}
