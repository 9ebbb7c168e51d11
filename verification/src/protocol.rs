//! The wire protocol: every value that crosses the process boundary through
//! the working area, and the protocol version the two sides exchange.

use vstd::prelude::*;
use vstd::string::StringExecFns;

verus! {

/// The protocol version this library speaks, reported as
/// `major.minor.patch` and negotiated against the version the viewer
/// process reports in its result artifact.
pub const PROTOCOL_VERSION: &'static str = "0.1.0";

/// Complete request structure sent to the viewer application.
#[derive(Debug, Clone, PartialEq)]
pub struct ViewerRequest {
    /// Unique identifier for this viewer instance.
    pub id: String,
    /// The content to display in the viewer.
    pub content: ViewerContent,
    /// Window configuration options.
    pub window: WindowOptions,
    /// Behaviour and security options.
    pub behaviour: BehaviourOptions,
    /// Environment and runtime options.
    pub environment: EnvironmentOptions,
    /// Dialog configuration.
    pub dialog: DialogOptions,
    /// Name of the live-update command file inside the working area, if the
    /// request opted in to live updates.
    pub command_file: Option<String>,
}

/// The type of content to display in the viewer.
#[derive(Debug, Clone, PartialEq)]
pub enum ViewerContent {
    /// Plain inline HTML string.
    InlineHtml {
        /// The HTML content to display.
        html: String,
        /// Optional base directory used to resolve relative paths in the
        /// HTML, for example when the HTML refers to local assets.
        base_dir: Option<String>,
    },
    /// A single local file, usually an HTML file.
    LocalFile {
        /// Path to the HTML file.
        path: String,
    },
    /// A directory that contains a static HTML application.
    AppDir {
        /// Root directory of the application.
        root: String,
        /// The entry HTML file relative to root, defaults to "index.html".
        entry: Option<String>,
    },
    /// A remote URL. Only allowed if enabled in BehaviourOptions.
    RemoteUrl {
        /// The URL to load.
        url: String,
    },
}

/// Window configuration options.
#[derive(Debug, Clone, PartialEq)]
pub struct WindowOptions {
    /// Window title. If None, a default title is used.
    pub title: Option<String>,
    /// Window width in logical pixels.
    pub width: Option<u32>,
    /// Window height in logical pixels.
    pub height: Option<u32>,
    /// Initial X position.
    pub x: Option<i32>,
    /// Initial Y position.
    pub y: Option<i32>,
    /// Whether the window can be resized.
    pub resizable: bool,
    /// Whether the window starts maximised.
    pub maximised: bool,
    /// Whether the window starts in fullscreen mode.
    pub fullscreen: bool,
    /// Whether to show window decorations (title bar, border).
    pub decorations: bool,
    /// Whether the window background is transparent.
    pub transparent: bool,
    /// Whether the window should always be on top of other windows.
    pub always_on_top: bool,
    /// Window theme ("light", "dark", or "system").
    pub theme: Option<String>,
    /// Background color in hex format (e.g., "#FFFFFF").
    pub background_color: Option<String>,
    /// Toolbar configuration.
    pub toolbar: ToolbarOptions,
}

impl Default for WindowOptions {
    fn default() -> (r: Self)
        ensures
            r.title matches Some(t) && t@ == "HTML Viewer"@,
            r.width == Some(1024u32),
            r.height == Some(768u32),
            r.x is None,
            r.y is None,
            r.resizable,
            !r.maximised,
            !r.fullscreen,
            r.decorations,
            !r.transparent,
            !r.always_on_top,
            r.theme is None,
            r.background_color is None,
            !r.toolbar.show,
            r.toolbar.title_text is None,
            r.toolbar.background_color is None,
            r.toolbar.text_color is None,
            r.toolbar.buttons@ == Seq::<ToolbarButton>::empty(),
    {
        Self {
            title: Some(String::from_str("HTML Viewer")),
            width: Some(1024),
            height: Some(768),
            x: None,
            y: None,
            resizable: true,
            maximised: false,
            fullscreen: false,
            decorations: true,
            transparent: false,
            always_on_top: false,
            theme: None,
            background_color: None,
            toolbar: ToolbarOptions::default(),
        }
    }
}

/// Toolbar configuration options.
#[derive(Debug, Clone, PartialEq)]
pub struct ToolbarOptions {
    /// Whether to show the custom toolbar.
    pub show: bool,
    /// Title text to display in the toolbar.
    pub title_text: Option<String>,
    /// Background color of the toolbar (hex).
    pub background_color: Option<String>,
    /// Text color of the toolbar (hex).
    pub text_color: Option<String>,
    /// List of buttons to show in the toolbar.
    pub buttons: Vec<ToolbarButton>,
}

impl Default for ToolbarOptions {
    fn default() -> (r: Self)
        ensures
            !r.show,
            r.title_text is None,
            r.background_color is None,
            r.text_color is None,
            r.buttons@ == Seq::<ToolbarButton>::empty(),
    {
        Self { show: false, title_text: None, background_color: None, text_color: None, buttons: Vec::new() }
    }
}

/// A button in the custom toolbar.
#[derive(Debug, Clone, PartialEq)]
pub struct ToolbarButton {
    /// Unique identifier for the button action.
    pub id: String,
    /// Text to display on the button.
    pub label: String,
    /// Optional icon name (e.g. from a standard set).
    pub icon: Option<String>,
}

/// Behaviour and security configuration.
#[derive(Debug, Clone, PartialEq)]
pub struct BehaviourOptions {
    /// Whether navigation away from the initial content is allowed.
    pub allow_external_navigation: bool,
    /// Optional allowlist of hostnames that can be navigated to.
    /// Only applies if allow_external_navigation is true.
    pub allowed_domains: Option<Vec<String>>,
    /// Whether devtools are enabled.
    pub enable_devtools: bool,
    /// Whether remote URL loading is permitted at all.
    pub allow_remote_content: bool,
    /// Whether system notifications are allowed.
    pub allow_notifications: bool,
}

impl Default for BehaviourOptions {
    fn default() -> (r: Self)
        ensures
            !r.allow_external_navigation,
            r.allowed_domains is None,
            !r.enable_devtools,
            !r.allow_remote_content,
            !r.allow_notifications,
    {
        Self {
            allow_external_navigation: false,
            allowed_domains: None,
            enable_devtools: false,
            allow_remote_content: false,
            allow_notifications: false,
        }
    }
}

/// Dialog configuration options.
#[derive(Debug, Clone, PartialEq)]
pub struct DialogOptions {
    /// Whether file dialogs are allowed.
    pub allow_file_dialogs: bool,
    /// Whether message dialogs are allowed.
    pub allow_message_dialogs: bool,
}

impl Default for DialogOptions {
    fn default() -> (r: Self)
        ensures
            !r.allow_file_dialogs,
            !r.allow_message_dialogs,
    {
        Self { allow_file_dialogs: false, allow_message_dialogs: false }
    }
}

/// Environment and runtime configuration.
#[derive(Debug, Clone, PartialEq)]
pub struct EnvironmentOptions {
    /// Optional working directory for resolving relative paths.
    pub working_dir: Option<String>,
    /// Optional timeout in seconds after which the viewer will auto-close.
    pub timeout_seconds: Option<u64>,
}

impl Default for EnvironmentOptions {
    fn default() -> (r: Self)
        ensures
            r.working_dir is None,
            r.timeout_seconds is None,
    {
        Self { working_dir: None, timeout_seconds: None }
    }
}

/// Exit status returned by the viewer application through the result
/// artifact.
#[derive(Debug, Clone, PartialEq)]
pub struct ViewerExitStatus {
    /// The unique identifier matching the original request.
    pub id: String,
    /// The reason the viewer exited.
    pub reason: ViewerExitReason,
    /// The protocol version of the process that produced this artifact.
    pub version: String,
}

/// The reason the viewer exited.
#[derive(Debug, Clone, PartialEq)]
pub enum ViewerExitReason {
    /// The user closed the window.
    ClosedByUser,
    /// The viewer timed out according to EnvironmentOptions.
    TimedOut,
    /// An error occurred.
    Error {
        /// Error message.
        message: String,
    },
}

/// A live-update instruction written by the caller side into the command
/// file and consumed by the viewer.
#[derive(Debug, Clone, PartialEq)]
pub struct ViewerCommand {
    /// Strictly increasing sequence number correlating this command with
    /// its response.
    pub seq: u64,
    /// The new content to display.
    pub content: ViewerContent,
}

/// The viewer's acknowledgement of a live-update command.
#[derive(Debug, Clone, PartialEq)]
pub struct ViewerCommandResponse {
    /// The sequence number of the command being acknowledged.
    pub seq: u64,
    /// Whether the command was applied.
    pub success: bool,
    /// The failure message, when the command was not applied.
    pub error: Option<String>,
}

} // verus!
