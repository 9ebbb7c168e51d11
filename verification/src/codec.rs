//! The wire format of the protocol artifacts: compact JSON, UTF-8.
//!
//! Every artifact that crosses the working area is written by
//! [`encode_request`], [`encode_exit_status`], [`encode_command`] or
//! [`encode_command_response`], whose output is pinned character by
//! character by the `spec_enc_*` functions, and read back by the parsers in
//! [`crate::parse`], which return exactly the encoded value.

use vstd::prelude::*;
use vstd::string::*;
use crate::protocol::{
    BehaviourOptions, DialogOptions, EnvironmentOptions, ToolbarButton, ToolbarOptions,
    ViewerCommand, ViewerCommandResponse, ViewerContent, ViewerExitReason, ViewerExitStatus,
    ViewerRequest, WindowOptions,
};
use crate::text::{push_char, append_dec_u64, spec_dec_u64};

verus! {

/// How a single character appears inside a JSON string literal: quotes,
/// backslashes and the common control characters are escaped, everything
/// else stands for itself.
pub open spec fn spec_esc_char(c: char) -> Seq<char> {
    if c == '"' {
        seq!['\\', '"']
    } else if c == '\\' {
        seq!['\\', '\\']
    } else if c == '\n' {
        seq!['\\', 'n']
    } else if c == '\r' {
        seq!['\\', 'r']
    } else if c == '\t' {
        seq!['\\', 't']
    } else {
        seq![c]
    }
}

/// A character sequence with every character escaped for a JSON string
/// literal.
pub open spec fn spec_escape(t: Seq<char>) -> Seq<char>
    decreases t.len(),
{
    if t.len() == 0 {
        Seq::empty()
    } else {
        spec_esc_char(t[0]) + spec_escape(t.skip(1))
    }
}

/// Escaping distributes over appending one character at the end.
pub proof fn lemma_escape_snoc(t: Seq<char>, c: char)
    ensures
        spec_escape(t.push(c)) == spec_escape(t) + spec_esc_char(c),
    decreases t.len(),
{
    if t.len() == 0 {
        assert(t.push(c) =~= seq![c]);
        assert(t.push(c)[0] == c);
        assert(t.push(c).skip(1) =~= Seq::<char>::empty());
        assert(spec_escape(Seq::<char>::empty()) =~= Seq::<char>::empty());
        assert(spec_escape(t.push(c)) =~= spec_esc_char(c));
        assert(spec_escape(t) + spec_esc_char(c) =~= spec_esc_char(c));
    } else {
        assert(t.push(c)[0] == t[0]);
        assert(t.push(c).skip(1) =~= t.skip(1).push(c));
        lemma_escape_snoc(t.skip(1), c);
        assert(spec_escape(t.push(c)) =~= spec_escape(t) + spec_esc_char(c));
    }
}

/// A JSON string literal: quote, escaped content, quote.
pub open spec fn spec_enc_str(t: Seq<char>) -> Seq<char> {
    seq!['"'] + spec_escape(t) + seq!['"']
}

/// An optional string: `null` or a string literal.
pub open spec fn spec_enc_opt_str(o: Option<String>) -> Seq<char> {
    match o {
        Option::None => "null"@,
        Option::Some(s) => spec_enc_str(s@),
    }
}

/// A boolean: `true` or `false`.
pub open spec fn spec_enc_bool(b: bool) -> Seq<char> {
    if b {
        "true"@
    } else {
        "false"@
    }
}

/// An unsigned number: its decimal digits.
pub open spec fn spec_enc_u64(n: u64) -> Seq<char> {
    spec_dec_u64(n as int)
}

/// An optional unsigned number.
pub open spec fn spec_enc_opt_u64(o: Option<u64>) -> Seq<char> {
    match o {
        Option::None => "null"@,
        Option::Some(n) => spec_enc_u64(n),
    }
}

/// A 32-bit unsigned number: its decimal digits.
pub open spec fn spec_enc_u32(n: u32) -> Seq<char> {
    spec_dec_u64(n as int)
}

/// An optional 32-bit unsigned number.
pub open spec fn spec_enc_opt_u32(o: Option<u32>) -> Seq<char> {
    match o {
        Option::None => "null"@,
        Option::Some(n) => spec_enc_u32(n),
    }
}

/// A signed number: an optional minus sign and decimal digits.
pub open spec fn spec_enc_i32(n: i32) -> Seq<char> {
    if n < 0 {
        seq!['-'] + spec_dec_u64(-(n as int))
    } else {
        spec_dec_u64(n as int)
    }
}

/// An optional signed number.
pub open spec fn spec_enc_opt_i32(o: Option<i32>) -> Seq<char> {
    match o {
        Option::None => "null"@,
        Option::Some(n) => spec_enc_i32(n),
    }
}

/// The elements of a nonempty string array, commas between them, up to and
/// including the closing bracket.
pub open spec fn spec_enc_str_items(l: Seq<String>) -> Seq<char>
    decreases l.len(),
{
    if l.len() <= 1 {
        spec_enc_str(l[0]@) + seq![']']
    } else {
        spec_enc_str(l[0]@) + seq![','] + spec_enc_str_items(l.skip(1))
    }
}

/// A string array.
pub open spec fn spec_enc_str_vec(l: Seq<String>) -> Seq<char> {
    if l.len() == 0 {
        "[]"@
    } else {
        seq!['['] + spec_enc_str_items(l)
    }
}

/// An optional string array.
pub open spec fn spec_enc_opt_str_vec(o: Option<Vec<String>>) -> Seq<char> {
    match o {
        Option::None => "null"@,
        Option::Some(v) => spec_enc_str_vec(v@),
    }
}

/// A toolbar button object.
pub open spec fn spec_enc_button(b: ToolbarButton) -> Seq<char> {
    "{\"id\":"@ + spec_enc_str(b.id@) + ",\"label\":"@ + spec_enc_str(b.label@) + ",\"icon\":"@
        + spec_enc_opt_str(b.icon) + "}"@
}

/// The elements of a nonempty button array, up to and including the
/// closing bracket.
pub open spec fn spec_enc_button_items(l: Seq<ToolbarButton>) -> Seq<char>
    decreases l.len(),
{
    if l.len() <= 1 {
        spec_enc_button(l[0]) + seq![']']
    } else {
        spec_enc_button(l[0]) + seq![','] + spec_enc_button_items(l.skip(1))
    }
}

/// A button array.
pub open spec fn spec_enc_button_vec(l: Seq<ToolbarButton>) -> Seq<char> {
    if l.len() == 0 {
        "[]"@
    } else {
        seq!['['] + spec_enc_button_items(l)
    }
}

/// A toolbar configuration object.
pub open spec fn spec_enc_toolbar(t: ToolbarOptions) -> Seq<char> {
    "{\"show\":"@ + spec_enc_bool(t.show) + ",\"title_text\":"@ + spec_enc_opt_str(t.title_text)
        + ",\"background_color\":"@ + spec_enc_opt_str(t.background_color) + ",\"text_color\":"@
        + spec_enc_opt_str(t.text_color) + ",\"buttons\":"@ + spec_enc_button_vec(t.buttons@)
        + "}"@
}

/// A window configuration object.
pub open spec fn spec_enc_window(w: WindowOptions) -> Seq<char> {
    "{\"title\":"@ + spec_enc_opt_str(w.title) + ",\"width\":"@ + spec_enc_opt_u32(w.width)
        + ",\"height\":"@ + spec_enc_opt_u32(w.height) + ",\"x\":"@ + spec_enc_opt_i32(w.x)
        + ",\"y\":"@ + spec_enc_opt_i32(w.y) + ",\"resizable\":"@ + spec_enc_bool(w.resizable)
        + ",\"maximised\":"@ + spec_enc_bool(w.maximised) + ",\"fullscreen\":"@ + spec_enc_bool(
        w.fullscreen,
    ) + ",\"decorations\":"@ + spec_enc_bool(w.decorations) + ",\"transparent\":"@
        + spec_enc_bool(w.transparent) + ",\"always_on_top\":"@ + spec_enc_bool(w.always_on_top)
        + ",\"theme\":"@ + spec_enc_opt_str(w.theme) + ",\"background_color\":"@
        + spec_enc_opt_str(w.background_color) + ",\"toolbar\":"@ + spec_enc_toolbar(w.toolbar)
        + "}"@
}

/// A behaviour configuration object.
pub open spec fn spec_enc_behaviour(b: BehaviourOptions) -> Seq<char> {
    "{\"allow_external_navigation\":"@ + spec_enc_bool(b.allow_external_navigation)
        + ",\"allowed_domains\":"@ + spec_enc_opt_str_vec(b.allowed_domains)
        + ",\"enable_devtools\":"@ + spec_enc_bool(b.enable_devtools)
        + ",\"allow_remote_content\":"@ + spec_enc_bool(b.allow_remote_content)
        + ",\"allow_notifications\":"@ + spec_enc_bool(b.allow_notifications) + "}"@
}

/// A dialog configuration object.
pub open spec fn spec_enc_dialog(d: DialogOptions) -> Seq<char> {
    "{\"allow_file_dialogs\":"@ + spec_enc_bool(d.allow_file_dialogs)
        + ",\"allow_message_dialogs\":"@ + spec_enc_bool(d.allow_message_dialogs) + "}"@
}

/// An environment configuration object.
pub open spec fn spec_enc_environment(e: EnvironmentOptions) -> Seq<char> {
    "{\"working_dir\":"@ + spec_enc_opt_str(e.working_dir) + ",\"timeout_seconds\":"@
        + spec_enc_opt_u64(e.timeout_seconds) + "}"@
}

/// A content descriptor object, tagged by its kind.
pub open spec fn spec_enc_content(c: ViewerContent) -> Seq<char> {
    match c {
        ViewerContent::InlineHtml { html, base_dir } => "{\"type\":\"inline_html\",\"html\":"@
            + spec_enc_str(html@) + ",\"base_dir\":"@ + spec_enc_opt_str(base_dir) + "}"@,
        ViewerContent::LocalFile { path } => "{\"type\":\"local_file\",\"path\":"@ + spec_enc_str(
            path@,
        ) + "}"@,
        ViewerContent::AppDir { root, entry } => "{\"type\":\"app_dir\",\"root\":"@
            + spec_enc_str(root@) + ",\"entry\":"@ + spec_enc_opt_str(entry) + "}"@,
        ViewerContent::RemoteUrl { url } => "{\"type\":\"remote_url\",\"url\":"@ + spec_enc_str(
            url@,
        ) + "}"@,
    }
}

/// A complete request artifact.
pub open spec fn spec_enc_request(r: ViewerRequest) -> Seq<char> {
    "{\"id\":"@ + spec_enc_str(r.id@) + ",\"content\":"@ + spec_enc_content(r.content)
        + ",\"window\":"@ + spec_enc_window(r.window) + ",\"behaviour\":"@ + spec_enc_behaviour(
        r.behaviour,
    ) + ",\"environment\":"@ + spec_enc_environment(r.environment) + ",\"dialog\":"@
        + spec_enc_dialog(r.dialog) + ",\"command_file\":"@ + spec_enc_opt_str(r.command_file)
        + "}"@
}

/// An exit reason object, tagged by its kind.
pub open spec fn spec_enc_exit_reason(r: ViewerExitReason) -> Seq<char> {
    match r {
        ViewerExitReason::ClosedByUser => "{\"reason\":\"closed_by_user\"}"@,
        ViewerExitReason::TimedOut => "{\"reason\":\"timed_out\"}"@,
        ViewerExitReason::Error { message } => "{\"reason\":\"error\",\"message\":"@
            + spec_enc_str(message@) + "}"@,
    }
}

/// A complete result artifact.
pub open spec fn spec_enc_exit_status(s: ViewerExitStatus) -> Seq<char> {
    "{\"id\":"@ + spec_enc_str(s.id@) + ",\"reason\":"@ + spec_enc_exit_reason(s.reason)
        + ",\"version\":"@ + spec_enc_str(s.version@) + "}"@
}

/// A complete command artifact.
pub open spec fn spec_enc_command(c: ViewerCommand) -> Seq<char> {
    "{\"seq\":"@ + spec_enc_u64(c.seq) + ",\"content\":"@ + spec_enc_content(c.content) + "}"@
}

/// A complete command-response artifact.
pub open spec fn spec_enc_command_response(r: ViewerCommandResponse) -> Seq<char> {
    "{\"seq\":"@ + spec_enc_u64(r.seq) + ",\"success\":"@ + spec_enc_bool(r.success)
        + ",\"error\":"@ + spec_enc_opt_str(r.error) + "}"@
}

/// Append the escaped form of `s` to `out`.
pub fn append_escaped(out: &mut String, s: &str)
    ensures
        final(out)@ == old(out)@ + spec_escape(s@),
{
    let ghost out0 = old(out)@;
    let n = s.unicode_len();
    let mut i: usize = 0;
    while i < n
        invariant
            0 <= i <= n,
            n == s@.len(),
            out@ == out0 + spec_escape(s@.take(i as int)),
        decreases n - i,
    {
        let c = s.get_char(i);
        if c == '"' {
            push_char(out, '\\');
            push_char(out, '"');
        } else if c == '\\' {
            push_char(out, '\\');
            push_char(out, '\\');
        } else if c == '\n' {
            push_char(out, '\\');
            push_char(out, 'n');
        } else if c == '\r' {
            push_char(out, '\\');
            push_char(out, 'r');
        } else if c == '\t' {
            push_char(out, '\\');
            push_char(out, 't');
        } else {
            push_char(out, c);
        }
        proof {
            lemma_escape_snoc(s@.take(i as int), s@[i as int]);
            assert(s@.take(i + 1) =~= s@.take(i as int).push(s@[i as int]));
            assert(out@ =~= out0 + spec_escape(s@.take(i + 1)));
        }
        i += 1;
    }
    proof {
        assert(s@.take(n as int) =~= s@);
    }
}

/// Append a JSON string literal holding `s` to `out`.
pub fn append_json_str(out: &mut String, s: &str)
    ensures
        final(out)@ == old(out)@ + spec_enc_str(s@),
{
    push_char(out, '"');
    append_escaped(out, s);
    push_char(out, '"');
    assert(final(out)@ =~= old(out)@ + spec_enc_str(s@));
}

/// Append `null` or a JSON string literal to `out`.
pub fn append_opt_str(out: &mut String, o: &Option<String>)
    ensures
        final(out)@ == old(out)@ + spec_enc_opt_str(*o),
{
    match o {
        Option::None => {
            out.append("null");
        },
        Option::Some(s) => {
            append_json_str(out, s.as_str());
        },
    }
}

/// Append `true` or `false` to `out`.
pub fn append_bool(out: &mut String, b: bool)
    ensures
        final(out)@ == old(out)@ + spec_enc_bool(b),
{
    if b {
        out.append("true");
    } else {
        out.append("false");
    }
}

/// Append `null` or a decimal number to `out`.
pub fn append_opt_u64(out: &mut String, o: &Option<u64>)
    ensures
        final(out)@ == old(out)@ + spec_enc_opt_u64(*o),
{
    match o {
        Option::None => {
            out.append("null");
        },
        Option::Some(n) => {
            append_dec_u64(out, *n);
        },
    }
}

/// Append `null` or a decimal number to `out`.
pub fn append_opt_u32(out: &mut String, o: &Option<u32>)
    ensures
        final(out)@ == old(out)@ + spec_enc_opt_u32(*o),
{
    match o {
        Option::None => {
            out.append("null");
        },
        Option::Some(n) => {
            append_dec_u64(out, *n as u64);
        },
    }
}

/// Append a signed decimal number to `out`.
pub fn append_i32(out: &mut String, n: i32)
    ensures
        final(out)@ == old(out)@ + spec_enc_i32(n),
{
    if n < 0 {
        push_char(out, '-');
        let mag: u64 = (-(n as i64)) as u64;
        append_dec_u64(out, mag);
        assert(final(out)@ =~= old(out)@ + spec_enc_i32(n));
    } else {
        append_dec_u64(out, n as u64);
    }
}

/// Append `null` or a signed decimal number to `out`.
pub fn append_opt_i32(out: &mut String, o: &Option<i32>)
    ensures
        final(out)@ == old(out)@ + spec_enc_opt_i32(*o),
{
    match o {
        Option::None => {
            out.append("null");
        },
        Option::Some(n) => {
            append_i32(out, *n);
        },
    }
}

/// Append the elements of a nonempty string array from index `idx` on,
/// including the closing bracket.
fn append_str_items(out: &mut String, l: &Vec<String>, idx: usize)
    requires
        idx < l@.len(),
    ensures
        final(out)@ == old(out)@ + spec_enc_str_items(l@.skip(idx as int)),
    decreases l@.len() - idx,
{
    let n = l.len();
    append_json_str(out, l[idx].as_str());
    assert(l@.skip(idx as int)[0] == l@[idx as int]);
    if idx + 1 == n {
        push_char(out, ']');
        assert(final(out)@ =~= old(out)@ + spec_enc_str_items(l@.skip(idx as int)));
    } else {
        push_char(out, ',');
        append_str_items(out, l, idx + 1);
        assert(l@.skip(idx as int).skip(1) =~= l@.skip(idx + 1));
        assert(final(out)@ =~= old(out)@ + spec_enc_str_items(l@.skip(idx as int)));
    }
}

/// Append a string array to `out`.
pub fn append_str_vec(out: &mut String, l: &Vec<String>)
    ensures
        final(out)@ == old(out)@ + spec_enc_str_vec(l@),
{
    if l.len() == 0 {
        out.append("[]");
    } else {
        push_char(out, '[');
        append_str_items(out, l, 0);
        assert(l@.skip(0) =~= l@);
        assert(final(out)@ =~= old(out)@ + spec_enc_str_vec(l@));
    }
}

/// Append `null` or a string array to `out`.
pub fn append_opt_str_vec(out: &mut String, o: &Option<Vec<String>>)
    ensures
        final(out)@ == old(out)@ + spec_enc_opt_str_vec(*o),
{
    match o {
        Option::None => {
            out.append("null");
        },
        Option::Some(l) => {
            append_str_vec(out, l);
        },
    }
}

/// Append a toolbar button object to `out`.
pub fn append_button(out: &mut String, b: &ToolbarButton)
    ensures
        final(out)@ == old(out)@ + spec_enc_button(*b),
{
    out.append("{\"id\":");
    append_json_str(out, b.id.as_str());
    out.append(",\"label\":");
    append_json_str(out, b.label.as_str());
    out.append(",\"icon\":");
    append_opt_str(out, &b.icon);
    out.append("}");
    assert(final(out)@ =~= old(out)@ + spec_enc_button(*b));
}

/// Append the elements of a nonempty button array from index `idx` on,
/// including the closing bracket.
fn append_button_items(out: &mut String, l: &Vec<ToolbarButton>, idx: usize)
    requires
        idx < l@.len(),
    ensures
        final(out)@ == old(out)@ + spec_enc_button_items(l@.skip(idx as int)),
    decreases l@.len() - idx,
{
    let n = l.len();
    append_button(out, &l[idx]);
    assert(l@.skip(idx as int)[0] == l@[idx as int]);
    if idx + 1 == n {
        push_char(out, ']');
        assert(final(out)@ =~= old(out)@ + spec_enc_button_items(l@.skip(idx as int)));
    } else {
        push_char(out, ',');
        append_button_items(out, l, idx + 1);
        assert(l@.skip(idx as int).skip(1) =~= l@.skip(idx + 1));
        assert(final(out)@ =~= old(out)@ + spec_enc_button_items(l@.skip(idx as int)));
    }
}

/// Append a button array to `out`.
pub fn append_button_vec(out: &mut String, l: &Vec<ToolbarButton>)
    ensures
        final(out)@ == old(out)@ + spec_enc_button_vec(l@),
{
    if l.len() == 0 {
        out.append("[]");
    } else {
        push_char(out, '[');
        append_button_items(out, l, 0);
        assert(l@.skip(0) =~= l@);
        assert(final(out)@ =~= old(out)@ + spec_enc_button_vec(l@));
    }
}

/// Append a toolbar configuration object to `out`.
pub fn append_toolbar(out: &mut String, t: &ToolbarOptions)
    ensures
        final(out)@ == old(out)@ + spec_enc_toolbar(*t),
{
    out.append("{\"show\":");
    append_bool(out, t.show);
    out.append(",\"title_text\":");
    append_opt_str(out, &t.title_text);
    out.append(",\"background_color\":");
    append_opt_str(out, &t.background_color);
    out.append(",\"text_color\":");
    append_opt_str(out, &t.text_color);
    out.append(",\"buttons\":");
    append_button_vec(out, &t.buttons);
    out.append("}");
    assert(final(out)@ =~= old(out)@ + spec_enc_toolbar(*t));
}

/// Append a window configuration object to `out`.
/// Append a window configuration object to `out`.
pub fn append_window(out: &mut String, w: &WindowOptions)
    ensures
        final(out)@ == old(out)@ + spec_enc_window(*w),
{
    let ghost out0 = old(out)@;
    let ghost mut pre: Seq<char> = Seq::empty();
    out.append("{\"title\":");
    proof {
        vstd::seq_lib::lemma_concat_associative(out0, pre, "{\"title\":"@);
        assert(out@ == out0 + (pre + "{\"title\":"@));
        pre = pre + "{\"title\":"@;
    }
    append_opt_str(out, &w.title);
    proof {
        vstd::seq_lib::lemma_concat_associative(out0, pre, spec_enc_opt_str(w.title));
        assert(out@ == out0 + (pre + spec_enc_opt_str(w.title)));
        pre = pre + spec_enc_opt_str(w.title);
    }
    out.append(",\"width\":");
    proof {
        vstd::seq_lib::lemma_concat_associative(out0, pre, ",\"width\":"@);
        assert(out@ == out0 + (pre + ",\"width\":"@));
        pre = pre + ",\"width\":"@;
    }
    append_opt_u32(out, &w.width);
    proof {
        vstd::seq_lib::lemma_concat_associative(out0, pre, spec_enc_opt_u32(w.width));
        assert(out@ == out0 + (pre + spec_enc_opt_u32(w.width)));
        pre = pre + spec_enc_opt_u32(w.width);
    }
    out.append(",\"height\":");
    proof {
        vstd::seq_lib::lemma_concat_associative(out0, pre, ",\"height\":"@);
        assert(out@ == out0 + (pre + ",\"height\":"@));
        pre = pre + ",\"height\":"@;
    }
    append_opt_u32(out, &w.height);
    proof {
        vstd::seq_lib::lemma_concat_associative(out0, pre, spec_enc_opt_u32(w.height));
        assert(out@ == out0 + (pre + spec_enc_opt_u32(w.height)));
        pre = pre + spec_enc_opt_u32(w.height);
    }
    out.append(",\"x\":");
    proof {
        vstd::seq_lib::lemma_concat_associative(out0, pre, ",\"x\":"@);
        assert(out@ == out0 + (pre + ",\"x\":"@));
        pre = pre + ",\"x\":"@;
    }
    append_opt_i32(out, &w.x);
    proof {
        vstd::seq_lib::lemma_concat_associative(out0, pre, spec_enc_opt_i32(w.x));
        assert(out@ == out0 + (pre + spec_enc_opt_i32(w.x)));
        pre = pre + spec_enc_opt_i32(w.x);
    }
    out.append(",\"y\":");
    proof {
        vstd::seq_lib::lemma_concat_associative(out0, pre, ",\"y\":"@);
        assert(out@ == out0 + (pre + ",\"y\":"@));
        pre = pre + ",\"y\":"@;
    }
    append_opt_i32(out, &w.y);
    proof {
        vstd::seq_lib::lemma_concat_associative(out0, pre, spec_enc_opt_i32(w.y));
        assert(out@ == out0 + (pre + spec_enc_opt_i32(w.y)));
        pre = pre + spec_enc_opt_i32(w.y);
    }
    out.append(",\"resizable\":");
    proof {
        vstd::seq_lib::lemma_concat_associative(out0, pre, ",\"resizable\":"@);
        assert(out@ == out0 + (pre + ",\"resizable\":"@));
        pre = pre + ",\"resizable\":"@;
    }
    append_bool(out, w.resizable);
    proof {
        vstd::seq_lib::lemma_concat_associative(out0, pre, spec_enc_bool(w.resizable));
        assert(out@ == out0 + (pre + spec_enc_bool(w.resizable)));
        pre = pre + spec_enc_bool(w.resizable);
    }
    out.append(",\"maximised\":");
    proof {
        vstd::seq_lib::lemma_concat_associative(out0, pre, ",\"maximised\":"@);
        assert(out@ == out0 + (pre + ",\"maximised\":"@));
        pre = pre + ",\"maximised\":"@;
    }
    append_bool(out, w.maximised);
    proof {
        vstd::seq_lib::lemma_concat_associative(out0, pre, spec_enc_bool(w.maximised));
        assert(out@ == out0 + (pre + spec_enc_bool(w.maximised)));
        pre = pre + spec_enc_bool(w.maximised);
    }
    out.append(",\"fullscreen\":");
    proof {
        vstd::seq_lib::lemma_concat_associative(out0, pre, ",\"fullscreen\":"@);
        assert(out@ == out0 + (pre + ",\"fullscreen\":"@));
        pre = pre + ",\"fullscreen\":"@;
    }
    append_bool(out, w.fullscreen);
    proof {
        vstd::seq_lib::lemma_concat_associative(out0, pre, spec_enc_bool(w.fullscreen));
        assert(out@ == out0 + (pre + spec_enc_bool(w.fullscreen)));
        pre = pre + spec_enc_bool(w.fullscreen);
    }
    out.append(",\"decorations\":");
    proof {
        vstd::seq_lib::lemma_concat_associative(out0, pre, ",\"decorations\":"@);
        assert(out@ == out0 + (pre + ",\"decorations\":"@));
        pre = pre + ",\"decorations\":"@;
    }
    append_bool(out, w.decorations);
    proof {
        vstd::seq_lib::lemma_concat_associative(out0, pre, spec_enc_bool(w.decorations));
        assert(out@ == out0 + (pre + spec_enc_bool(w.decorations)));
        pre = pre + spec_enc_bool(w.decorations);
    }
    out.append(",\"transparent\":");
    proof {
        vstd::seq_lib::lemma_concat_associative(out0, pre, ",\"transparent\":"@);
        assert(out@ == out0 + (pre + ",\"transparent\":"@));
        pre = pre + ",\"transparent\":"@;
    }
    append_bool(out, w.transparent);
    proof {
        vstd::seq_lib::lemma_concat_associative(out0, pre, spec_enc_bool(w.transparent));
        assert(out@ == out0 + (pre + spec_enc_bool(w.transparent)));
        pre = pre + spec_enc_bool(w.transparent);
    }
    out.append(",\"always_on_top\":");
    proof {
        vstd::seq_lib::lemma_concat_associative(out0, pre, ",\"always_on_top\":"@);
        assert(out@ == out0 + (pre + ",\"always_on_top\":"@));
        pre = pre + ",\"always_on_top\":"@;
    }
    append_bool(out, w.always_on_top);
    proof {
        vstd::seq_lib::lemma_concat_associative(out0, pre, spec_enc_bool(w.always_on_top));
        assert(out@ == out0 + (pre + spec_enc_bool(w.always_on_top)));
        pre = pre + spec_enc_bool(w.always_on_top);
    }
    out.append(",\"theme\":");
    proof {
        vstd::seq_lib::lemma_concat_associative(out0, pre, ",\"theme\":"@);
        assert(out@ == out0 + (pre + ",\"theme\":"@));
        pre = pre + ",\"theme\":"@;
    }
    append_opt_str(out, &w.theme);
    proof {
        vstd::seq_lib::lemma_concat_associative(out0, pre, spec_enc_opt_str(w.theme));
        assert(out@ == out0 + (pre + spec_enc_opt_str(w.theme)));
        pre = pre + spec_enc_opt_str(w.theme);
    }
    out.append(",\"background_color\":");
    proof {
        vstd::seq_lib::lemma_concat_associative(out0, pre, ",\"background_color\":"@);
        assert(out@ == out0 + (pre + ",\"background_color\":"@));
        pre = pre + ",\"background_color\":"@;
    }
    append_opt_str(out, &w.background_color);
    proof {
        vstd::seq_lib::lemma_concat_associative(out0, pre, spec_enc_opt_str(w.background_color));
        assert(out@ == out0 + (pre + spec_enc_opt_str(w.background_color)));
        pre = pre + spec_enc_opt_str(w.background_color);
    }
    out.append(",\"toolbar\":");
    proof {
        vstd::seq_lib::lemma_concat_associative(out0, pre, ",\"toolbar\":"@);
        assert(out@ == out0 + (pre + ",\"toolbar\":"@));
        pre = pre + ",\"toolbar\":"@;
    }
    append_toolbar(out, &w.toolbar);
    proof {
        vstd::seq_lib::lemma_concat_associative(out0, pre, spec_enc_toolbar(w.toolbar));
        assert(out@ == out0 + (pre + spec_enc_toolbar(w.toolbar)));
        pre = pre + spec_enc_toolbar(w.toolbar);
    }
    out.append("}");
    proof {
        vstd::seq_lib::lemma_concat_associative(out0, pre, "}"@);
        assert(out@ == out0 + (pre + "}"@));
        pre = pre + "}"@;
        assert(pre == spec_enc_window(*w));
    }
}

/// Append a behaviour configuration object to `out`.
pub fn append_behaviour(out: &mut String, b: &BehaviourOptions)
    ensures
        final(out)@ == old(out)@ + spec_enc_behaviour(*b),
{
    out.append("{\"allow_external_navigation\":");
    append_bool(out, b.allow_external_navigation);
    out.append(",\"allowed_domains\":");
    append_opt_str_vec(out, &b.allowed_domains);
    out.append(",\"enable_devtools\":");
    append_bool(out, b.enable_devtools);
    out.append(",\"allow_remote_content\":");
    append_bool(out, b.allow_remote_content);
    out.append(",\"allow_notifications\":");
    append_bool(out, b.allow_notifications);
    out.append("}");
    assert(final(out)@ =~= old(out)@ + spec_enc_behaviour(*b));
}

/// Append a dialog configuration object to `out`.
pub fn append_dialog(out: &mut String, d: &DialogOptions)
    ensures
        final(out)@ == old(out)@ + spec_enc_dialog(*d),
{
    out.append("{\"allow_file_dialogs\":");
    append_bool(out, d.allow_file_dialogs);
    out.append(",\"allow_message_dialogs\":");
    append_bool(out, d.allow_message_dialogs);
    out.append("}");
    assert(final(out)@ =~= old(out)@ + spec_enc_dialog(*d));
}

/// Append an environment configuration object to `out`.
pub fn append_environment(out: &mut String, e: &EnvironmentOptions)
    ensures
        final(out)@ == old(out)@ + spec_enc_environment(*e),
{
    out.append("{\"working_dir\":");
    append_opt_str(out, &e.working_dir);
    out.append(",\"timeout_seconds\":");
    append_opt_u64(out, &e.timeout_seconds);
    out.append("}");
    assert(final(out)@ =~= old(out)@ + spec_enc_environment(*e));
}

/// Append a content descriptor object to `out`.
pub fn append_content(out: &mut String, c: &ViewerContent)
    ensures
        final(out)@ == old(out)@ + spec_enc_content(*c),
{
    match c {
        ViewerContent::InlineHtml { html, base_dir } => {
            out.append("{\"type\":\"inline_html\",\"html\":");
            append_json_str(out, html.as_str());
            out.append(",\"base_dir\":");
            append_opt_str(out, base_dir);
            out.append("}");
            assert(final(out)@ =~= old(out)@ + spec_enc_content(*c));
        },
        ViewerContent::LocalFile { path } => {
            out.append("{\"type\":\"local_file\",\"path\":");
            append_json_str(out, path.as_str());
            out.append("}");
            assert(final(out)@ =~= old(out)@ + spec_enc_content(*c));
        },
        ViewerContent::AppDir { root, entry } => {
            out.append("{\"type\":\"app_dir\",\"root\":");
            append_json_str(out, root.as_str());
            out.append(",\"entry\":");
            append_opt_str(out, entry);
            out.append("}");
            assert(final(out)@ =~= old(out)@ + spec_enc_content(*c));
        },
        ViewerContent::RemoteUrl { url } => {
            out.append("{\"type\":\"remote_url\",\"url\":");
            append_json_str(out, url.as_str());
            out.append("}");
            assert(final(out)@ =~= old(out)@ + spec_enc_content(*c));
        },
    }
}

/// Serialize a request to its artifact text.
pub fn encode_request(r: &ViewerRequest) -> (out: String)
    ensures
        out@ == spec_enc_request(*r),
{
    let mut out = String::new();
    out.append("{\"id\":");
    append_json_str(&mut out, r.id.as_str());
    out.append(",\"content\":");
    append_content(&mut out, &r.content);
    out.append(",\"window\":");
    append_window(&mut out, &r.window);
    out.append(",\"behaviour\":");
    append_behaviour(&mut out, &r.behaviour);
    out.append(",\"environment\":");
    append_environment(&mut out, &r.environment);
    out.append(",\"dialog\":");
    append_dialog(&mut out, &r.dialog);
    out.append(",\"command_file\":");
    append_opt_str(&mut out, &r.command_file);
    out.append("}");
    assert(out@ =~= spec_enc_request(*r));
    out
}

/// Append an exit reason object to `out`.
pub fn append_exit_reason(out: &mut String, r: &ViewerExitReason)
    ensures
        final(out)@ == old(out)@ + spec_enc_exit_reason(*r),
{
    match r {
        ViewerExitReason::ClosedByUser => {
            out.append("{\"reason\":\"closed_by_user\"}");
        },
        ViewerExitReason::TimedOut => {
            out.append("{\"reason\":\"timed_out\"}");
        },
        ViewerExitReason::Error { message } => {
            out.append("{\"reason\":\"error\",\"message\":");
            append_json_str(out, message.as_str());
            out.append("}");
            assert(final(out)@ =~= old(out)@ + spec_enc_exit_reason(*r));
        },
    }
}

/// Serialize an exit status to its artifact text.
pub fn encode_exit_status(s: &ViewerExitStatus) -> (out: String)
    ensures
        out@ == spec_enc_exit_status(*s),
{
    let mut out = String::new();
    out.append("{\"id\":");
    append_json_str(&mut out, s.id.as_str());
    out.append(",\"reason\":");
    append_exit_reason(&mut out, &s.reason);
    out.append(",\"version\":");
    append_json_str(&mut out, s.version.as_str());
    out.append("}");
    assert(out@ =~= spec_enc_exit_status(*s));
    out
}

/// Serialize a command to its artifact text.
pub fn encode_command(c: &ViewerCommand) -> (out: String)
    ensures
        out@ == spec_enc_command(*c),
{
    let mut out = String::new();
    out.append("{\"seq\":");
    append_dec_u64(&mut out, c.seq);
    out.append(",\"content\":");
    append_content(&mut out, &c.content);
    out.append("}");
    assert(out@ =~= spec_enc_command(*c));
    out
}

/// Serialize a command response to its artifact text.
pub fn encode_command_response(r: &ViewerCommandResponse) -> (out: String)
    ensures
        out@ == spec_enc_command_response(*r),
{
    let mut out = String::new();
    out.append("{\"seq\":");
    append_dec_u64(&mut out, r.seq);
    out.append(",\"success\":");
    append_bool(&mut out, r.success);
    out.append(",\"error\":");
    append_opt_str(&mut out, &r.error);
    out.append("}");
    assert(out@ =~= spec_enc_command_response(*r));
    out
}

} // verus!
