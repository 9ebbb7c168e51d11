//! What the viewer loads for each content descriptor: toolbar markup,
//! injection of markup into an HTML document, and the decision between
//! navigating to a URL and writing the document directly.

use vstd::prelude::*;
use vstd::string::*;
use crate::protocol::{ToolbarOptions, ViewerRequest, ViewerContent};
use crate::version::{spec_find_char, lemma_find_char, find_char};
use base64::Engine;

verus! {

/// The text of an optional string, or a default.
pub open spec fn spec_opt_or(o: Option<String>, default: Seq<char>) -> Seq<char> {
    match o {
        Option::Some(s) => s@,
        Option::None => default,
    }
}

/// The toolbar markup: a fixed template around the configured background
/// color, text color and title, falling back to the stock values.
pub open spec fn spec_toolbar_html(t: ToolbarOptions) -> Seq<char> {
    "<div data-tauri-drag-region style=\"height: 30px; background: "@ + spec_opt_or(
        t.background_color,
        "#f0f0f0"@,
    ) + "; color: "@ + spec_opt_or(t.text_color, "#333333"@)
        + "; display: flex; align-items: center; justify-content: space-between; padding: 0 10px; font-family: system-ui, sans-serif; font-size: 12px; user-select: none; position: fixed; top: 0; left: 0; right: 0; z-index: 999999;\"><div data-tauri-drag-region style=\"flex: 1; display: flex; align-items: center;\"><span data-tauri-drag-region style=\"font-weight: 600;\">"@
        + spec_opt_or(t.title_text, "HTML Viewer"@)
        + "</span></div><div style=\"display: flex; gap: 8px;\"><button onclick=\"window.__TAURI__.invoke('toolbar_action', { action: 'minimize' })\">&#9472;</button><button onclick=\"window.__TAURI__.invoke('toolbar_action', { action: 'maximize' })\">&#9633;</button><button onclick=\"window.__TAURI__.invoke('toolbar_action', { action: 'close' })\">&#10005;</button></div></div><div style=\"height: 30px;\"></div>"@
}

/// Render the custom toolbar's markup.
pub fn generate_toolbar_html(options: &ToolbarOptions) -> (r: String)
    ensures
        r@ == spec_toolbar_html(*options),
{
    let mut out = String::from_str(
        "<div data-tauri-drag-region style=\"height: 30px; background: ",
    );
    match &options.background_color {
        Option::Some(c) => out.append(c.as_str()),
        Option::None => out.append("#f0f0f0"),
    }
    out.append("; color: ");
    match &options.text_color {
        Option::Some(c) => out.append(c.as_str()),
        Option::None => out.append("#333333"),
    }
    out.append(
        "; display: flex; align-items: center; justify-content: space-between; padding: 0 10px; font-family: system-ui, sans-serif; font-size: 12px; user-select: none; position: fixed; top: 0; left: 0; right: 0; z-index: 999999;\"><div data-tauri-drag-region style=\"flex: 1; display: flex; align-items: center;\"><span data-tauri-drag-region style=\"font-weight: 600;\">",
    );
    match &options.title_text {
        Option::Some(s) => out.append(s.as_str()),
        Option::None => out.append("HTML Viewer"),
    }
    out.append(
        "</span></div><div style=\"display: flex; gap: 8px;\"><button onclick=\"window.__TAURI__.invoke('toolbar_action', { action: 'minimize' })\">&#9472;</button><button onclick=\"window.__TAURI__.invoke('toolbar_action', { action: 'maximize' })\">&#9633;</button><button onclick=\"window.__TAURI__.invoke('toolbar_action', { action: 'close' })\">&#10005;</button></div></div><div style=\"height: 30px;\"></div>",
    );
    proof {
        assert(out@ =~= spec_toolbar_html(*options));
    }
    out
}

/// Whether `pat` occurs in `s` starting at position `i`.
pub open spec fn spec_match_at(s: Seq<char>, pat: Seq<char>, i: int) -> bool {
    0 <= i && i + pat.len() <= s.len() && s.subrange(i, i + pat.len()) == pat
}

/// Index of the first occurrence of `pat` in `s`, or -1 if it does not
/// occur.
pub open spec fn spec_find_sub(s: Seq<char>, pat: Seq<char>) -> int
    decreases s.len(),
{
    if spec_match_at(s, pat, 0) {
        0
    } else if s.len() == 0 {
        -1
    } else if spec_find_sub(s.skip(1), pat) < 0 {
        -1
    } else {
        spec_find_sub(s.skip(1), pat) + 1
    }
}

/// `spec_find_sub` returns -1 exactly when the pattern is absent, and
/// otherwise the position of its first occurrence.
pub proof fn lemma_find_sub(s: Seq<char>, pat: Seq<char>)
    ensures
        spec_find_sub(s, pat) == -1 || (0 <= spec_find_sub(s, pat) && spec_find_sub(s, pat)
            + pat.len() <= s.len()),
        spec_find_sub(s, pat) == -1 ==> forall|i: int| !spec_match_at(s, pat, i),
        spec_find_sub(s, pat) >= 0 ==> spec_match_at(s, pat, spec_find_sub(s, pat)),
        spec_find_sub(s, pat) >= 0 ==> forall|i: int|
            0 <= i < spec_find_sub(s, pat) ==> !spec_match_at(s, pat, i),
    decreases s.len(),
{
    if spec_match_at(s, pat, 0) {
    } else if s.len() == 0 {
        assert forall|i: int| !spec_match_at(s, pat, i) by {
            if 0 <= i && i + pat.len() <= s.len() {
                assert(i == 0 && pat.len() == 0);
            }
        }
    } else {
        lemma_find_sub(s.skip(1), pat);
        let r1 = spec_find_sub(s.skip(1), pat);
        assert forall|i: int| 1 <= i && i + pat.len() <= s.len() implies (spec_match_at(
            s,
            pat,
            i,
        ) <==> spec_match_at(s.skip(1), pat, i - 1)) by {
            assert(s.skip(1).subrange(i - 1, i - 1 + pat.len()) =~= s.subrange(
                i,
                i + pat.len(),
            ));
        }
        if r1 == -1 {
            assert forall|i: int| !spec_match_at(s, pat, i) by {
                if 1 <= i && i + pat.len() <= s.len() {
                    assert(!spec_match_at(s.skip(1), pat, i - 1));
                }
            }
        } else {
            assert(spec_match_at(s.skip(1), pat, r1));
            assert(r1 + 1 + pat.len() <= s.len()) by {
                assert(r1 + pat.len() <= s.skip(1).len());
            }
            assert(spec_match_at(s, pat, r1 + 1));
            assert forall|i: int| 0 <= i < r1 + 1 implies !spec_match_at(s, pat, i) by {
                if i >= 1 && i + pat.len() <= s.len() {
                    assert(!spec_match_at(s.skip(1), pat, i - 1));
                }
            }
        }
    }
}

/// Position of the first occurrence of `pat` in `s`, if any.
pub fn find_sub(s: &str, pat: &str) -> (r: Option<usize>)
    ensures
        r matches Some(i) ==> spec_find_sub(s@, pat@) == i as int,
        r is None ==> spec_find_sub(s@, pat@) == -1,
{
    let n = s.unicode_len();
    let m = pat.unicode_len();
    if m == 0 {
        proof {
            assert(s@.subrange(0, 0) =~= pat@);
            assert(spec_match_at(s@, pat@, 0));
        }
        return Some(0);
    }
    if m > n {
        proof {
            lemma_find_sub(s@, pat@);
            if spec_find_sub(s@, pat@) >= 0 {
                assert(spec_match_at(s@, pat@, spec_find_sub(s@, pat@)));
            }
        }
        return None;
    }
    let mut i: usize = 0;
    while i <= n - m
        invariant
            0 <= i <= n - m + 1,
            1 <= m <= n,
            n == s@.len(),
            m == pat@.len(),
            forall|q: int| 0 <= q < i ==> !spec_match_at(s@, pat@, q),
        decreases n - i,
    {
        let mut k: usize = 0;
        let mut matched = true;
        while k < m
            invariant_except_break
                0 <= k <= m,
                i + m <= n,
                n == s@.len(),
                m == pat@.len(),
                matched,
                forall|q: int| 0 <= q < k ==> s@[i + q] == pat@[q],
            ensures
                matched ==> forall|q: int| 0 <= q < m ==> s@[i + q] == pat@[q],
                !matched ==> !spec_match_at(s@, pat@, i as int),
            decreases m - k,
        {
            if s.get_char(i + k) != pat.get_char(k) {
                matched = false;
                proof {
                    if spec_match_at(s@, pat@, i as int) {
                        assert(s@.subrange(i as int, i + pat@.len())[k as int] == s@[i + k]);
                    }
                }
                break;
            }
            k += 1;
        }
        if matched {
            proof {
                assert(s@.subrange(i as int, i + pat@.len()) =~= pat@);
                assert(spec_match_at(s@, pat@, i as int));
                lemma_find_sub(s@, pat@);
                let r = spec_find_sub(s@, pat@);
                if r == -1 {
                    assert(!spec_match_at(s@, pat@, i as int));
                }
                if 0 <= r < i {
                    assert(!spec_match_at(s@, pat@, r));
                    assert(spec_match_at(s@, pat@, r));
                }
                if r > i {
                    assert(!spec_match_at(s@, pat@, i as int));
                }
            }
            return Some(i);
        }
        i += 1;
    }
    proof {
        lemma_find_sub(s@, pat@);
        let r = spec_find_sub(s@, pat@);
        if r >= 0 {
            assert(spec_match_at(s@, pat@, r));
            assert(!spec_match_at(s@, pat@, r));
        }
    }
    None
}

/// The character count of a string slice, binding its view's length.
fn s_len_of(s: &str) -> (n: usize)
    ensures
        n == s@.len(),
{
    s.unicode_len()
}

/// `s` with `ins` inserted at position `i`.
pub open spec fn spec_insert_at(s: Seq<char>, i: int, ins: Seq<char>) -> Seq<char> {
    s.take(i) + ins + s.skip(i)
}

/// Copy `s` with `ins` inserted at position `i`.
pub fn insert_at(s: &str, i: usize, ins: &str) -> (r: String)
    requires
        i <= s@.len(),
    ensures
        r@ == spec_insert_at(s@, i as int, ins@),
{
    let n = s.unicode_len();
    let mut out = String::new();
    let head = s.substring_char(0, i);
    out.append(head);
    out.append(ins);
    let tail = s.substring_char(i, n);
    out.append(tail);
    proof {
        assert(s@.subrange(0, i as int) =~= s@.take(i as int));
        assert(s@.subrange(i as int, s@.len() as int) =~= s@.skip(i as int));
        assert(out@ =~= spec_insert_at(s@, i as int, ins@));
    }
    out
}

/// The base tag for a base URL.
pub open spec fn spec_base_tag(base: Seq<char>) -> Seq<char> {
    "<base href=\""@ + base + "\">"@
}

/// `html` with the base tag for `base` placed in its head: before an
/// existing `</head>`, in a fresh head right after `<html>`, or in a
/// fresh head in front of everything.
pub open spec fn spec_with_base(html: Seq<char>, base: Seq<char>) -> Seq<char> {
    let tag = spec_base_tag(base);
    if spec_find_sub(html, "</head>"@) >= 0 {
        spec_insert_at(html, spec_find_sub(html, "</head>"@), tag)
    } else if spec_find_sub(html, "<html>"@) >= 0 {
        spec_insert_at(html, spec_find_sub(html, "<html>"@) + 6, "<head>"@ + tag + "</head>"@)
    } else {
        "<head>"@ + tag + "</head>"@ + html
    }
}

/// `html` with `toolbar` injected right after the opening `<body ...>`
/// tag, or in front of everything when no body tag is found.
pub open spec fn spec_with_toolbar(html: Seq<char>, toolbar: Seq<char>) -> Seq<char> {
    if spec_find_sub(html, "<body"@) >= 0 {
        let bstart = spec_find_sub(html, "<body"@);
        if spec_find_char(html.skip(bstart), '>') >= 0 {
            spec_insert_at(html, bstart + spec_find_char(html.skip(bstart), '>') + 1, toolbar)
        } else {
            toolbar + html
        }
    } else {
        toolbar + html
    }
}

/// Everything [`inject_into_html`] produces: the base tag first, then the
/// toolbar.
pub open spec fn spec_inject(html: Seq<char>, toolbar: Seq<char>, base: Option<Seq<char>>) -> Seq<
    char,
> {
    let with_base = match base {
        Option::Some(b) => spec_with_base(html, b),
        Option::None => html,
    };
    spec_with_toolbar(with_base, toolbar)
}

/// Inject toolbar markup, and optionally a base URL, into an HTML
/// document.
pub fn inject_into_html(html: &str, toolbar: &str, base_url: Option<&str>) -> (r: String)
    ensures
        r@ == spec_inject(html@, toolbar@, match base_url {
            Option::Some(b) => Some(b@),
            Option::None => None,
        }),
{
    let html_len = s_len_of(html);
    let with_base: String = match base_url {
        Option::Some(b) => {
            let mut tag = String::from_str("<base href=\"");
            tag.append(b);
            tag.append("\">");
            assert(tag@ =~= spec_base_tag(b@));
            match find_sub(html, "</head>") {
                Option::Some(i) => {
                    proof {
                        lemma_find_sub(html@, "</head>"@);
                    }
                    insert_at(html, i, tag.as_str())
                },
                Option::None => {
                    match find_sub(html, "<html>") {
                        Option::Some(i) => {
                            proof {
                                lemma_find_sub(html@, "<html>"@);
                                reveal_strlit("<html>");
                            }
                            let mut head = String::from_str("<head>");
                            head.append(tag.as_str());
                            head.append("</head>");
                            insert_at(html, i + 6, head.as_str())
                        },
                        Option::None => {
                            let mut out = String::from_str("<head>");
                            out.append(tag.as_str());
                            out.append("</head>");
                            out.append(html);
                            assert(out@ =~= "<head>"@ + spec_base_tag(b@) + "</head>"@ + html@);
                            out
                        },
                    }
                },
            }
        },
        Option::None => String::from_str(html),
    };
    let wb = with_base.as_str();
    match find_sub(wb, "<body") {
        Option::Some(bstart) => {
            proof {
                lemma_find_sub(wb@, "<body"@);
            }
            let n = wb.unicode_len();
            let after = wb.substring_char(bstart, n);
            assert(after@ =~= wb@.skip(bstart as int));
            match find_char(after, '>') {
                Option::Some(gt) => {
                    proof {
                        lemma_find_char(after@, '>');
                    }
                    insert_at(wb, bstart + gt + 1, toolbar)
                },
                Option::None => {
                    let mut out = String::from_str(toolbar);
                    out.append(wb);
                    out
                },
            }
        },
        Option::None => {
            let mut out = String::from_str(toolbar);
            out.append(wb);
            out
        },
    }
}

/// The base64 rendering of a byte sequence under the standard alphabet
/// with padding, as produced by the base64 crate's `STANDARD` engine.
pub uninterp spec fn spec_base64_of(bytes: Seq<u8>) -> Seq<char>;

/// Relies on `base64::engine::general_purpose::STANDARD.encode`: the
/// standard-alphabet, padded base64 rendering of the input bytes, a
/// function of the input alone; empty input encodes to the empty string.
#[verifier::external_body]
fn base64_encode(s: &str) -> (r: String)
    ensures
        r@ == spec_base64_of(s.spec_bytes()),
        s@.len() == 0 ==> r@.len() == 0,
{
    base64::engine::general_purpose::STANDARD.encode(s.as_bytes())
}

/// Whether the url crate accepts this text as an absolute URL; a function
/// of the text alone.
pub uninterp spec fn spec_url_ok(s: Seq<char>) -> bool;

/// Relies on `url::Url::parse`: whether the text parses as a URL, a
/// function of the text alone.
#[verifier::external_body]
fn url_parse_ok(s: &str) -> (r: bool)
    ensures
        r == spec_url_ok(s@),
{
    url::Url::parse(s).is_ok()
}

/// How the viewer window is to receive a document held as text.
#[derive(Debug)]
pub enum DisplayMethod {
    /// Navigate to this data URL.
    NavigateUrl { url: String },
    /// Run this script, which writes the document directly; used when the
    /// embedded webview rejects the data URL.
    EvalScript { js: String },
}

/// The script fallback that writes a document into the window.
pub open spec fn spec_eval_js(b64: Seq<char>) -> Seq<char> {
    "document.open();document.write(atob(\""@ + b64 + "\"));document.close();"@
}

/// Decide how to hand inline HTML to the window: as a base64 data URL
/// when the URL parser accepts one of that size, else as a script that
/// writes the decoded document.
pub fn inline_display(html: &str) -> (r: DisplayMethod)
    ensures
        ({
            let b64 = spec_base64_of(html.spec_bytes());
            if spec_url_ok("data:text/html;base64,"@ + b64) {
                r matches DisplayMethod::NavigateUrl { url } && url@ == "data:text/html;base64,"@
                    + b64
            } else {
                r matches DisplayMethod::EvalScript { js } && js@ == spec_eval_js(b64)
            }
        }),
{
    let b64 = base64_encode(html);
    let mut url = String::from_str("data:text/html;base64,");
    url.append(b64.as_str());
    if url_parse_ok(url.as_str()) {
        DisplayMethod::NavigateUrl { url }
    } else {
        let mut js = String::from_str("document.open();document.write(atob(\"");
        js.append(b64.as_str());
        js.append("\"));document.close();");
        assert(js@ =~= spec_eval_js(spec_base64_of(html.spec_bytes())));
        DisplayMethod::EvalScript { js }
    }
}

/// What the viewer must load for a request, before any file contents are
/// available.
#[derive(Debug)]
pub enum ContentDirective {
    /// Show this document text.
    InlineData { html: String },
    /// Navigate straight to this file path.
    NavigateFile { path: String },
    /// Read the file at `path`, then compose it with the toolbar against
    /// the base directory `base_source` (see [`compose_file_content`]).
    NeedsFile { path: String, base_source: String },
}

/// The entry file of an application directory.
pub open spec fn spec_entry_path(root: Seq<char>, entry: Option<String>) -> Seq<char> {
    root + "/"@ + spec_opt_or(entry, "index.html"@)
}

/// The iframe wrapper shown for a remote URL together with a toolbar.
pub open spec fn spec_iframe_wrapper(toolbar: Seq<char>, url: Seq<char>) -> Seq<char> {
    "<!DOCTYPE html><html><body style=\"margin:0; padding:0; overflow:hidden;\">"@ + toolbar
        + "<iframe src=\""@ + url
        + "\" style=\"width:100%; height:calc(100vh - 30px); border:none;\"></iframe></body></html>"@
}

/// The redirect document shown for a remote URL without a toolbar.
pub open spec fn spec_redirect_page(url: Seq<char>) -> Seq<char> {
    "<!DOCTYPE html><html><head><meta http-equiv=\"refresh\" content=\"0;url="@ + url
        + "\"></head><body><p>Redirecting to <a href=\""@ + url + "\">"@ + url
        + "</a>...</p></body></html>"@
}

/// Decide what the viewer loads for a request: inline HTML gets the
/// toolbar injected; a local file or application directory is either
/// navigated to directly or, when a toolbar must be injected, read first;
/// a remote URL is allowed only when the request opted in, and is shown
/// through an iframe wrapper (with a toolbar) or a redirect page.
pub fn plan_content(request: &ViewerRequest) -> (r: Result<ContentDirective, String>)
    ensures
        request.content matches ViewerContent::InlineHtml { html, base_dir } ==> (r matches Ok(d)
            && d matches ContentDirective::InlineData { html: out } && (if request.window.toolbar.show {
            out@ == spec_inject(html@, spec_toolbar_html(request.window.toolbar), None)
        } else {
            out@ == html@
        })),
        request.content matches ViewerContent::LocalFile { path } ==> (r matches Ok(d) && (if request.window.toolbar.show {
            d matches ContentDirective::NeedsFile { path: p, base_source } && p@ == path@
                && base_source@ == path@
        } else {
            d matches ContentDirective::NavigateFile { path: p } && p@ == path@
        })),
        request.content matches ViewerContent::AppDir { root, entry } ==> (r matches Ok(d) && (if request.window.toolbar.show {
            d matches ContentDirective::NeedsFile { path: p, base_source } && p@
                == spec_entry_path(root@, entry) && base_source@ == root@
        } else {
            d matches ContentDirective::NavigateFile { path: p } && p@ == spec_entry_path(
                root@,
                entry,
            )
        })),
        request.content matches ViewerContent::RemoteUrl { url } ==> (if !request.behaviour.allow_remote_content {
            r matches Err(m) && m@ == "Remote content is not allowed"@
        } else {
            r matches Ok(d) && d matches ContentDirective::InlineData { html: out } && (if request.window.toolbar.show {
                out@ == spec_iframe_wrapper(spec_toolbar_html(request.window.toolbar), url@)
            } else {
                out@ == spec_redirect_page(url@)
            })
        }),
{
    let show_toolbar = request.window.toolbar.show;
    match &request.content {
        ViewerContent::InlineHtml { html, base_dir: _ } => {
            if show_toolbar {
                let toolbar = generate_toolbar_html(&request.window.toolbar);
                let out = inject_into_html(html.as_str(), toolbar.as_str(), None);
                Ok(ContentDirective::InlineData { html: out })
            } else {
                Ok(ContentDirective::InlineData { html: html.clone() })
            }
        },
        ViewerContent::LocalFile { path } => {
            if show_toolbar {
                Ok(ContentDirective::NeedsFile { path: path.clone(), base_source: path.clone() })
            } else {
                Ok(ContentDirective::NavigateFile { path: path.clone() })
            }
        },
        ViewerContent::AppDir { root, entry } => {
            let mut full = String::from_str(root.as_str());
            full.append("/");
            match entry {
                Option::Some(e) => full.append(e.as_str()),
                Option::None => full.append("index.html"),
            }
            if show_toolbar {
                Ok(ContentDirective::NeedsFile { path: full, base_source: root.clone() })
            } else {
                Ok(ContentDirective::NavigateFile { path: full })
            }
        },
        ViewerContent::RemoteUrl { url } => {
            if !request.behaviour.allow_remote_content {
                return Err(String::from_str("Remote content is not allowed"));
            }
            if show_toolbar {
                let toolbar = generate_toolbar_html(&request.window.toolbar);
                let mut out = String::from_str(
                    "<!DOCTYPE html><html><body style=\"margin:0; padding:0; overflow:hidden;\">",
                );
                out.append(toolbar.as_str());
                out.append("<iframe src=\"");
                out.append(url.as_str());
                out.append(
                    "\" style=\"width:100%; height:calc(100vh - 30px); border:none;\"></iframe></body></html>",
                );
                assert(out@ =~= spec_iframe_wrapper(
                    spec_toolbar_html(request.window.toolbar),
                    url@,
                ));
                Ok(ContentDirective::InlineData { html: out })
            } else {
                let mut out = String::from_str(
                    "<!DOCTYPE html><html><head><meta http-equiv=\"refresh\" content=\"0;url=",
                );
                out.append(url.as_str());
                out.append("\"></head><body><p>Redirecting to <a href=\"");
                out.append(url.as_str());
                out.append("\">");
                out.append(url.as_str());
                out.append("</a>...</p></body></html>");
                assert(out@ =~= spec_redirect_page(url@));
                Ok(ContentDirective::InlineData { html: out })
            }
        },
    }
}

/// Compose the text of a file with the toolbar and a base URL, as the
/// viewer shows it.
pub fn compose_file_content(text: &str, toolbar_options: &ToolbarOptions, base_url: &str) -> (r:
    String)
    ensures
        r@ == spec_inject(text@, spec_toolbar_html(*toolbar_options), Some(base_url@)),
{
    let toolbar = generate_toolbar_html(toolbar_options);
    inject_into_html(text, toolbar.as_str(), Some(base_url))
}

} // verus!
