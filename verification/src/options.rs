//! Caller-side configuration of a viewer launch, and a builder for it.

use vstd::prelude::*;
use vstd::string::StringExecFns;
use crate::protocol::{
    BehaviourOptions, DialogOptions, EnvironmentOptions, ToolbarOptions, ViewerContent,
    WindowOptions,
};

verus! {

/// Determines whether the viewer call blocks or returns immediately.
#[derive(Debug, Clone, Copy, PartialEq, Eq, Structural)]
pub enum ViewerWaitMode {
    /// Block until the viewer exits and return the exit status.
    Blocking,
    /// Return immediately with a handle to the running viewer process.
    NonBlocking,
}

/// Options for configuring a viewer instance.
#[derive(Debug, Clone)]
pub struct ViewerOptions {
    /// The content to display.
    pub content: ViewerContent,
    /// Window configuration.
    pub window: WindowOptions,
    /// Behaviour and security options.
    pub behaviour: BehaviourOptions,
    /// Environment options.
    pub environment: EnvironmentOptions,
    /// Dialog configuration.
    pub dialog: DialogOptions,
    /// Whether to wait for the viewer to close.
    pub wait: ViewerWaitMode,
    /// Whether a non-blocking launch opens the live-update command channel.
    pub live_updates: bool,
}

/// Everything `ViewerOptions::inline_html` promises beyond its content:
/// default window, behaviour, environment and dialog settings, and blocking
/// wait mode.
pub open spec fn spec_default_shell(o: ViewerOptions) -> bool {
    &&& o.window.title matches Some(t) && t@ == "HTML Viewer"@
    &&& o.window.width == Some(1024u32)
    &&& o.window.height == Some(768u32)
    &&& o.window.x is None
    &&& o.window.y is None
    &&& o.window.resizable
    &&& !o.window.maximised
    &&& !o.window.fullscreen
    &&& o.window.decorations
    &&& !o.window.transparent
    &&& !o.window.always_on_top
    &&& o.window.theme is None
    &&& o.window.background_color is None
    &&& !o.window.toolbar.show
    &&& o.window.toolbar.buttons@.len() == 0
    &&& !o.behaviour.allow_external_navigation
    &&& o.behaviour.allowed_domains is None
    &&& !o.behaviour.enable_devtools
    &&& !o.behaviour.allow_notifications
    &&& o.environment.working_dir is None
    &&& o.environment.timeout_seconds is None
    &&& !o.dialog.allow_file_dialogs
    &&& !o.dialog.allow_message_dialogs
    &&& o.wait == ViewerWaitMode::Blocking
    &&& o.live_updates
}

impl ViewerOptions {
    /// Create options for displaying inline HTML with secure defaults:
    /// external navigation, devtools and remote content disabled, blocking
    /// wait mode.
    pub fn inline_html(html: String) -> (r: Self)
        ensures
            r.content == (ViewerContent::InlineHtml { html: html, base_dir: None::<String> }),
            !r.behaviour.allow_remote_content,
            spec_default_shell(r),
    {
        Self {
            content: ViewerContent::InlineHtml { html, base_dir: None },
            window: WindowOptions::default(),
            behaviour: BehaviourOptions::default(),
            environment: EnvironmentOptions::default(),
            dialog: DialogOptions::default(),
            wait: ViewerWaitMode::Blocking,
            live_updates: true,
        }
    }

    /// Create options for displaying a local HTML file.
    pub fn local_file(path: String) -> (r: Self)
        ensures
            r.content == (ViewerContent::LocalFile { path: path }),
            !r.behaviour.allow_remote_content,
            spec_default_shell(r),
    {
        Self {
            content: ViewerContent::LocalFile { path },
            window: WindowOptions::default(),
            behaviour: BehaviourOptions::default(),
            environment: EnvironmentOptions::default(),
            dialog: DialogOptions::default(),
            wait: ViewerWaitMode::Blocking,
            live_updates: true,
        }
    }

    /// Create options for displaying an HTML application directory.
    pub fn app_dir(root: String) -> (r: Self)
        ensures
            r.content == (ViewerContent::AppDir { root: root, entry: None::<String> }),
            !r.behaviour.allow_remote_content,
            spec_default_shell(r),
    {
        Self {
            content: ViewerContent::AppDir { root, entry: None },
            window: WindowOptions::default(),
            behaviour: BehaviourOptions::default(),
            environment: EnvironmentOptions::default(),
            dialog: DialogOptions::default(),
            wait: ViewerWaitMode::Blocking,
            live_updates: true,
        }
    }

    /// Create options for displaying a remote URL.  This automatically
    /// enables `allow_remote_content` in the behaviour options.
    pub fn remote_url(url: String) -> (r: Self)
        ensures
            r.content == (ViewerContent::RemoteUrl { url: url }),
            r.behaviour.allow_remote_content,
            spec_default_shell(r),
    {
        Self {
            content: ViewerContent::RemoteUrl { url },
            window: WindowOptions::default(),
            behaviour: BehaviourOptions {
                allow_remote_content: true,
                ..BehaviourOptions::default()
            },
            environment: EnvironmentOptions::default(),
            dialog: DialogOptions::default(),
            wait: ViewerWaitMode::Blocking,
            live_updates: true,
        }
    }

    /// Create a new builder for ViewerOptions.
    pub fn new() -> (r: ViewerOptionsBuilder)
        ensures
            r.options.content matches ViewerContent::InlineHtml { html, base_dir } && html@
                == Seq::<char>::empty() && base_dir is None,
            spec_default_shell(r.options),
    {
        ViewerOptionsBuilder { options: ViewerOptions::default() }
    }
}

impl Default for ViewerOptions {
    fn default() -> (r: Self)
        ensures
            r.content matches ViewerContent::InlineHtml { html, base_dir } && html@
                == Seq::<char>::empty() && base_dir is None,
            !r.behaviour.allow_remote_content,
            spec_default_shell(r),
    {
        Self {
            content: ViewerContent::InlineHtml { html: String::new(), base_dir: None },
            window: WindowOptions::default(),
            behaviour: BehaviourOptions::default(),
            environment: EnvironmentOptions::default(),
            dialog: DialogOptions::default(),
            wait: ViewerWaitMode::Blocking,
            live_updates: true,
        }
    }
}

/// Builder for constructing ViewerOptions.
pub struct ViewerOptionsBuilder {
    /// The options built so far.
    pub options: ViewerOptions,
}

impl ViewerOptionsBuilder {
    /// Set the content to display.
    pub fn content(self, content: ViewerContent) -> (r: Self)
        ensures
            r.options == (ViewerOptions { content: content, ..self.options }),
    {
        let mut b = self;
        b.options.content = content;
        b
    }

    /// Set the window title.
    pub fn title(self, title: String) -> (r: Self)
        ensures
            r.options == (ViewerOptions {
                window: WindowOptions { title: Some(title), ..self.options.window },
                ..self.options
            }),
    {
        let mut b = self;
        b.options.window.title = Some(title);
        b
    }

    /// Set the window width.
    pub fn width(self, width: u32) -> (r: Self)
        ensures
            r.options == (ViewerOptions {
                window: WindowOptions { width: Some(width), ..self.options.window },
                ..self.options
            }),
    {
        let mut b = self;
        b.options.window.width = Some(width);
        b
    }

    /// Set the window height.
    pub fn height(self, height: u32) -> (r: Self)
        ensures
            r.options == (ViewerOptions {
                window: WindowOptions { height: Some(height), ..self.options.window },
                ..self.options
            }),
    {
        let mut b = self;
        b.options.window.height = Some(height);
        b
    }

    /// Set the window size.
    pub fn size(self, width: u32, height: u32) -> (r: Self)
        ensures
            r.options == (ViewerOptions {
                window: WindowOptions {
                    width: Some(width),
                    height: Some(height),
                    ..self.options.window
                },
                ..self.options
            }),
    {
        let mut b = self;
        b.options.window.width = Some(width);
        b.options.window.height = Some(height);
        b
    }

    /// Set the initial window X position.
    pub fn x(self, x: i32) -> (r: Self)
        ensures
            r.options == (ViewerOptions {
                window: WindowOptions { x: Some(x), ..self.options.window },
                ..self.options
            }),
    {
        let mut b = self;
        b.options.window.x = Some(x);
        b
    }

    /// Set the initial window Y position.
    pub fn y(self, y: i32) -> (r: Self)
        ensures
            r.options == (ViewerOptions {
                window: WindowOptions { y: Some(y), ..self.options.window },
                ..self.options
            }),
    {
        let mut b = self;
        b.options.window.y = Some(y);
        b
    }

    /// Set window position.
    pub fn position(self, x: i32, y: i32) -> (r: Self)
        ensures
            r.options == (ViewerOptions {
                window: WindowOptions { x: Some(x), y: Some(y), ..self.options.window },
                ..self.options
            }),
    {
        let mut b = self;
        b.options.window.x = Some(x);
        b.options.window.y = Some(y);
        b
    }

    /// Disable window decorations (frameless window).
    pub fn no_decorations(self) -> (r: Self)
        ensures
            r.options == (ViewerOptions {
                window: WindowOptions { decorations: false, ..self.options.window },
                ..self.options
            }),
    {
        let mut b = self;
        b.options.window.decorations = false;
        b
    }

    /// Make the window transparent.
    pub fn transparent(self) -> (r: Self)
        ensures
            r.options == (ViewerOptions {
                window: WindowOptions { transparent: true, ..self.options.window },
                ..self.options
            }),
    {
        let mut b = self;
        b.options.window.transparent = true;
        b
    }

    /// Keep window always on top.
    pub fn always_on_top(self) -> (r: Self)
        ensures
            r.options == (ViewerOptions {
                window: WindowOptions { always_on_top: true, ..self.options.window },
                ..self.options
            }),
    {
        let mut b = self;
        b.options.window.always_on_top = true;
        b
    }

    /// Make the window size fixed.
    pub fn fixed_size(self) -> (r: Self)
        ensures
            r.options == (ViewerOptions {
                window: WindowOptions { resizable: false, ..self.options.window },
                ..self.options
            }),
    {
        let mut b = self;
        b.options.window.resizable = false;
        b
    }

    /// Enable devtools.
    pub fn devtools(self) -> (r: Self)
        ensures
            r.options == (ViewerOptions {
                behaviour: BehaviourOptions { enable_devtools: true, ..self.options.behaviour },
                ..self.options
            }),
    {
        let mut b = self;
        b.options.behaviour.enable_devtools = true;
        b
    }

    /// Allow external navigation.
    pub fn allow_navigation(self) -> (r: Self)
        ensures
            r.options == (ViewerOptions {
                behaviour: BehaviourOptions {
                    allow_external_navigation: true,
                    ..self.options.behaviour
                },
                ..self.options
            }),
    {
        let mut b = self;
        b.options.behaviour.allow_external_navigation = true;
        b
    }

    /// Permit loading remote URLs.
    pub fn allow_remote_content(self) -> (r: Self)
        ensures
            r.options == (ViewerOptions {
                behaviour: BehaviourOptions {
                    allow_remote_content: true,
                    ..self.options.behaviour
                },
                ..self.options
            }),
    {
        let mut b = self;
        b.options.behaviour.allow_remote_content = true;
        b
    }

    /// Restrict navigation to the given hostnames; this also enables
    /// external navigation.
    pub fn allowed_domains(self, domains: Vec<String>) -> (r: Self)
        ensures
            r.options == (ViewerOptions {
                behaviour: BehaviourOptions {
                    allowed_domains: Some(domains),
                    allow_external_navigation: true,
                    ..self.options.behaviour
                },
                ..self.options
            }),
    {
        let mut b = self;
        b.options.behaviour.allowed_domains = Some(domains);
        b.options.behaviour.allow_external_navigation = true;
        b
    }

    /// Set timeout in seconds.
    pub fn timeout(self, seconds: u64) -> (r: Self)
        ensures
            r.options == (ViewerOptions {
                environment: EnvironmentOptions {
                    timeout_seconds: Some(seconds),
                    ..self.options.environment
                },
                ..self.options
            }),
    {
        let mut b = self;
        b.options.environment.timeout_seconds = Some(seconds);
        b
    }

    /// Set the working directory for resolving relative paths.
    pub fn working_dir(self, dir: String) -> (r: Self)
        ensures
            r.options == (ViewerOptions {
                environment: EnvironmentOptions {
                    working_dir: Some(dir),
                    ..self.options.environment
                },
                ..self.options
            }),
    {
        let mut b = self;
        b.options.environment.working_dir = Some(dir);
        b
    }

    /// Enable system notifications.
    pub fn enable_notifications(self) -> (r: Self)
        ensures
            r.options == (ViewerOptions {
                behaviour: BehaviourOptions {
                    allow_notifications: true,
                    ..self.options.behaviour
                },
                ..self.options
            }),
    {
        let mut b = self;
        b.options.behaviour.allow_notifications = true;
        b
    }

    /// Enable file and message dialogs.
    pub fn enable_dialogs(self) -> (r: Self)
        ensures
            r.options == (ViewerOptions {
                dialog: DialogOptions { allow_file_dialogs: true, allow_message_dialogs: true },
                ..self.options
            }),
    {
        let mut b = self;
        b.options.dialog.allow_file_dialogs = true;
        b.options.dialog.allow_message_dialogs = true;
        b
    }

    /// Configure the custom toolbar.
    pub fn toolbar(self, toolbar: ToolbarOptions) -> (r: Self)
        ensures
            r.options == (ViewerOptions {
                window: WindowOptions { toolbar: toolbar, ..self.options.window },
                ..self.options
            }),
    {
        let mut b = self;
        b.options.window.toolbar = toolbar;
        b
    }

    /// Return immediately with a handle instead of blocking.
    pub fn non_blocking(self) -> (r: Self)
        ensures
            r.options == (ViewerOptions { wait: ViewerWaitMode::NonBlocking, ..self.options }),
    {
        let mut b = self;
        b.options.wait = ViewerWaitMode::NonBlocking;
        b
    }

    /// Set the base directory used to resolve relative paths in inline
    /// HTML.  Has no effect on other content kinds.
    pub fn base_dir(self, dir: String) -> (r: Self)
        ensures
            self.options.content matches ViewerContent::InlineHtml { html, .. } ==> r.options
                == (ViewerOptions {
                content: (ViewerContent::InlineHtml { html: html, base_dir: Some(dir) }),
                ..self.options
            }),
            !(self.options.content is InlineHtml) ==> r.options == self.options,
    {
        let mut b = self;
        let updated: Option<ViewerContent> = match &b.options.content {
            ViewerContent::InlineHtml { html, base_dir: _ } => Some(
                ViewerContent::InlineHtml { html: html.clone(), base_dir: Some(dir) },
            ),
            _ => None,
        };
        if let Some(c) = updated {
            b.options.content = c;
        }
        b
    }

    /// The finished options.
    pub fn build(self) -> (r: ViewerOptions)
        ensures
            r == self.options,
    {
        self.options
    }
}

} // verus!
