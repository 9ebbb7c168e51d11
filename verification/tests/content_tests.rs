//! Content planning tests: toolbar markup, injection, data URLs, and the
//! load decision for each content kind.

use html_view::{
    generate_toolbar_html, inject_into_html, inline_display, plan_content, ContentDirective,
    DisplayMethod, ToolbarOptions, ViewerContent, ViewerOptions,
};

fn toolbar() -> ToolbarOptions {
    ToolbarOptions {
        show: true,
        title_text: Some("My Tools".to_string()),
        background_color: Some("#222222".to_string()),
        text_color: None,
        buttons: Vec::new(),
    }
}

#[test]
fn test_toolbar_html_carries_configuration() {
    let html = generate_toolbar_html(&toolbar());
    assert!(html.contains("My Tools"));
    assert!(html.contains("background: #222222"));
    assert!(html.contains("color: #333333")); // stock text color
    assert!(html.contains("toolbar_action"));
}

#[test]
fn test_toolbar_html_defaults() {
    let html = generate_toolbar_html(&ToolbarOptions {
        show: true,
        title_text: None,
        background_color: None,
        text_color: None,
        buttons: Vec::new(),
    });
    assert!(html.contains("HTML Viewer"));
    assert!(html.contains("#f0f0f0"));
}

#[test]
fn test_inject_into_existing_head_and_body() {
    let html = "<html><head><title>t</title></head><body class=\"x\"><p>hi</p></body></html>";
    let out = inject_into_html(html, "[TB]", Some("file:///base/"));
    let base_at = out.find("<base href=\"file:///base/\">").expect("base tag inserted");
    let head_end = out.find("</head>").expect("head kept");
    assert!(base_at < head_end);
    let body_open_end = out.find("<body class=\"x\">").expect("body kept") + "<body class=\"x\">".len();
    assert_eq!(&out[body_open_end..body_open_end + 4], "[TB]");
}

#[test]
fn test_inject_without_head_creates_one() {
    let html = "<html><body><p>hi</p></body></html>";
    let out = inject_into_html(html, "[TB]", Some("file:///b/"));
    assert!(out.starts_with("<html><head><base href=\"file:///b/\"></head>"));
    assert!(out.contains("<body>[TB]"));
}

#[test]
fn test_inject_without_body_prepends_toolbar() {
    let html = "<p>bare</p>";
    let out = inject_into_html(html, "[TB]", None);
    assert_eq!(out, "[TB]<p>bare</p>");
}

#[test]
fn test_inline_display_encodes_base64_data_url() {
    match inline_display("<h1>Hello</h1>") {
        DisplayMethod::NavigateUrl { url } => {
            assert_eq!(url, "data:text/html;base64,PGgxPkhlbGxvPC9oMT4=");
        }
        DisplayMethod::EvalScript { .. } => {
            panic!("a small data URL must be navigable");
        }
    }
}

#[test]
fn test_plan_inline_without_toolbar_is_unchanged() {
    let options = ViewerOptions::inline_html("<p>as is</p>".to_string());
    let mut session = html_view::open_session(options);
    session.step(html_view::LaunchEvent::Start);
    match plan_content(&session.request).expect("inline content always plans") {
        ContentDirective::InlineData { html } => assert_eq!(html, "<p>as is</p>"),
        other => panic!("expected InlineData, got {:?}", other),
    }
}

#[test]
fn test_plan_inline_with_toolbar_injects_it() {
    let mut options = ViewerOptions::inline_html("<body><p>x</p></body>".to_string());
    options.window.toolbar = toolbar();
    let session = html_view::open_session(options);
    match plan_content(&session.request).expect("inline content always plans") {
        ContentDirective::InlineData { html } => {
            assert!(html.contains("My Tools"));
            assert!(html.find("<body>").unwrap() < html.find("My Tools").unwrap());
        }
        other => panic!("expected InlineData, got {:?}", other),
    }
}

#[test]
fn test_plan_local_file_navigates_without_toolbar() {
    let options = ViewerOptions::local_file("/docs/page.html".to_string());
    let session = html_view::open_session(options);
    match plan_content(&session.request).expect("local files always plan") {
        ContentDirective::NavigateFile { path } => assert_eq!(path, "/docs/page.html"),
        other => panic!("expected NavigateFile, got {:?}", other),
    }
}

#[test]
fn test_plan_app_dir_defaults_entry() {
    let options = ViewerOptions::app_dir("/srv/app".to_string());
    let session = html_view::open_session(options);
    match plan_content(&session.request).expect("app dirs always plan") {
        ContentDirective::NavigateFile { path } => assert_eq!(path, "/srv/app/index.html"),
        other => panic!("expected NavigateFile, got {:?}", other),
    }
}

#[test]
fn test_plan_remote_url_requires_opt_in() {
    let mut options = ViewerOptions::remote_url("https://example.com/".to_string());
    options.behaviour.allow_remote_content = false;
    let session = html_view::open_session(options);
    match plan_content(&session.request) {
        Err(m) => assert_eq!(m, "Remote content is not allowed"),
        Ok(other) => panic!("remote content must be refused, got {:?}", other),
    }
}

#[test]
fn test_plan_remote_url_redirect_page() {
    let options = ViewerOptions::remote_url("https://example.com/".to_string());
    let session = html_view::open_session(options);
    match plan_content(&session.request).expect("opted-in remote URLs plan") {
        ContentDirective::InlineData { html } => {
            assert!(html.contains("content=\"0;url=https://example.com/\""));
            assert!(html.contains("Redirecting to"));
        }
        other => panic!("expected InlineData, got {:?}", other),
    }
}

#[test]
fn test_builder_sets_fields() {
    let options = ViewerOptions::new()
        .size(800, 600)
        .position(10, 20)
        .title("T".to_string())
        .fixed_size()
        .devtools()
        .allowed_domains(vec!["example.com".to_string()])
        .timeout(30)
        .non_blocking()
        .build();
    assert_eq!(options.window.width, Some(800));
    assert_eq!(options.window.height, Some(600));
    assert_eq!(options.window.x, Some(10));
    assert_eq!(options.window.y, Some(20));
    assert_eq!(options.window.title, Some("T".to_string()));
    assert!(!options.window.resizable);
    assert!(options.behaviour.enable_devtools);
    assert!(options.behaviour.allow_external_navigation);
    assert_eq!(options.behaviour.allowed_domains, Some(vec!["example.com".to_string()]));
    assert_eq!(options.environment.timeout_seconds, Some(30));
    assert!(matches!(options.wait, html_view::ViewerWaitMode::NonBlocking));
}

#[test]
fn test_remote_url_constructor_enables_remote_content() {
    let options = ViewerOptions::remote_url("https://example.com/".to_string());
    assert!(options.behaviour.allow_remote_content);
    assert!(matches!(
        options.content,
        ViewerContent::RemoteUrl { .. }
    ));
}

#[test]
fn test_inject_finds_first_body_tag() {
    let html = "<body id=\"a\"><div><body id=\"b\"></div></body>";
    let out = inject_into_html(html, "[TB]", None);
    assert!(out.starts_with("<body id=\"a\">[TB]"));
}
