//! Parsers for the structured artifacts of the wire format.
//!
//! Every parser's contract has the same two sides as the primitives in
//! [`crate::parse`]: a bounds clause for `Some` results, and a completeness
//! clause stating that on text that starts with the canonical encoding of a
//! value the parser returns exactly that value (fields compared through
//! their views) and stops exactly past its encoding.

use vstd::prelude::*;
use vstd::string::*;
use vstd::seq_lib::lemma_concat_associative;
use crate::parse::{
    lemma_skip_concat, lemma_skip_first, lemma_subrange_split, parse_lit, parse_u64, parse_bool,
    parse_json_str, parse_opt_str, parse_opt_u64, parse_opt_u32, parse_opt_i32, opt_str_eq,
    str_list_eq, opt_str_vec_eq, lemma_enc_str_shape,
};
use crate::text::spec_is_digit;
use crate::codec::{
    spec_enc_str, spec_enc_u64, spec_enc_bool, spec_enc_opt_str, spec_enc_opt_u64,
    spec_enc_opt_u32, spec_enc_opt_i32, spec_enc_str_items, spec_enc_str_vec,
    spec_enc_opt_str_vec, spec_enc_button, spec_enc_button_items, spec_enc_button_vec,
    spec_enc_toolbar, spec_enc_window, spec_enc_behaviour, spec_enc_dialog,
    spec_enc_environment, spec_enc_content, spec_enc_request, spec_enc_exit_reason,
    spec_enc_exit_status, spec_enc_command, spec_enc_command_response,
};
use crate::protocol::{
    BehaviourOptions, DialogOptions, EnvironmentOptions, ToolbarButton, ToolbarOptions,
    ViewerCommand, ViewerCommandResponse, ViewerContent, ViewerExitReason, ViewerExitStatus,
    ViewerRequest, WindowOptions,
};

verus! {

/// Whether two environment configurations agree field for field.
pub open spec fn environment_eq(a: EnvironmentOptions, b: EnvironmentOptions) -> bool {
    opt_str_eq(a.working_dir, b.working_dir) && a.timeout_seconds == b.timeout_seconds
}

/// Whether two exit reasons agree, message compared through its view.
pub open spec fn exit_reason_eq(a: ViewerExitReason, b: ViewerExitReason) -> bool {
    match (a, b) {
        (ViewerExitReason::ClosedByUser, ViewerExitReason::ClosedByUser) => true,
        (ViewerExitReason::TimedOut, ViewerExitReason::TimedOut) => true,
        (ViewerExitReason::Error { message: m1 }, ViewerExitReason::Error { message: m2 }) => m1@
            == m2@,
        _ => false,
    }
}

/// Whether two exit statuses agree field for field.
pub open spec fn exit_status_eq(a: ViewerExitStatus, b: ViewerExitStatus) -> bool {
    a.id@ == b.id@ && exit_reason_eq(a.reason, b.reason) && a.version@ == b.version@
}

/// Whether two command responses agree field for field.
pub open spec fn command_response_eq(a: ViewerCommandResponse, b: ViewerCommandResponse) -> bool {
    a.seq == b.seq && a.success == b.success && opt_str_eq(a.error, b.error)
}

/// Parse the elements of a nonempty string array at position `i` (just
/// after the opening bracket or a comma), through the closing bracket.
pub fn parse_str_items(s: &str, i: usize) -> (r: Option<(Vec<String>, usize)>)
    requires
        i <= s@.len(),
    ensures
        r matches Some(p) ==> i < p.1 <= s@.len() && p.0@.len() >= 1,
        forall|l: Seq<String>, rest: Seq<char>|
            l.len() >= 1 && s@.skip(i as int) == spec_enc_str_items(l) + rest ==> (r matches Some(
                p,
            ) && str_list_eq(p.0@, l) && p.1 == i + spec_enc_str_items(l).len()),
    decreases s@.len() - i,
{
    let n = s.unicode_len();
    let (e, j) = match parse_json_str(s, i) {
        Option::None => {
            proof {
                assert forall|l: Seq<String>, rest: Seq<char>|
                    l.len() >= 1 && s@.skip(i as int) == spec_enc_str_items(l) + rest implies
                    false by {
                    lemma_str_items_shape(s@, i as int, l, rest);
                }
            }
            return None;
        },
        Option::Some(p) => p,
    };
    if j < n && s.get_char(j) == ',' {
        match parse_str_items(s, j + 1) {
            Option::None => {
                proof {
                    assert forall|l: Seq<String>, rest: Seq<char>|
                        l.len() >= 1 && s@.skip(i as int) == spec_enc_str_items(l) + rest implies
                        false by {
                        lemma_str_items_shape(s@, i as int, l, rest);
                        if l.len() == 1 {
                            assert(s@[j as int] == ']');
                        } else {
                            assert(s@.skip(j as int)[0] == s@[j as int]);
                            lemma_skip_concat(
                                s@,
                                j as int,
                                seq![','],
                                spec_enc_str_items(l.skip(1)) + rest,
                            );
                        }
                    }
                }
                None
            },
            Option::Some((mut tail, j2)) => {
                tail.insert(0, e);
                proof {
                    assert forall|l: Seq<String>, rest: Seq<char>|
                        l.len() >= 1 && s@.skip(i as int) == spec_enc_str_items(l) + rest implies
                        (str_list_eq(tail@, l) && j2 == i + spec_enc_str_items(l).len()) by {
                        lemma_str_items_shape(s@, i as int, l, rest);
                        if l.len() == 1 {
                            assert(s@[j as int] == ']');
                        } else {
                            lemma_skip_concat(
                                s@,
                                j as int,
                                seq![','],
                                spec_enc_str_items(l.skip(1)) + rest,
                            );
                            assert(s@.skip(j + 1) == spec_enc_str_items(l.skip(1)) + rest);
                            assert(str_list_eq(tail@.skip(1), l.skip(1)));
                            assert(tail@[0]@ == l[0]@);
                            assert forall|k: int| 0 <= k < tail@.len() implies tail@[k]@
                                == l[k]@ by {
                                if k > 0 {
                                    assert(tail@.skip(1)[k - 1] == tail@[k]);
                                    assert(l.skip(1)[k - 1] == l[k]);
                                }
                            }
                        }
                    }
                }
                Some((tail, j2))
            },
        }
    } else if j < n && s.get_char(j) == ']' {
        let mut v: Vec<String> = Vec::new();
        v.push(e);
        proof {
            assert forall|l: Seq<String>, rest: Seq<char>|
                l.len() >= 1 && s@.skip(i as int) == spec_enc_str_items(l) + rest implies (
            str_list_eq(v@, l) && j + 1 == i + spec_enc_str_items(l).len()) by {
                lemma_str_items_shape(s@, i as int, l, rest);
                if l.len() > 1 {
                    assert(s@.skip(j as int)[0] == s@[j as int]);
                }
            }
        }
        Some((v, j + 1))
    } else {
        proof {
            assert forall|l: Seq<String>, rest: Seq<char>|
                l.len() >= 1 && s@.skip(i as int) == spec_enc_str_items(l) + rest implies
                false by {
                lemma_str_items_shape(s@, i as int, l, rest);
                if l.len() == 1 {
                    assert(s@[j as int] == ']');
                } else {
                    assert(s@.skip(j as int)[0] == s@[j as int]);
                }
            }
        }
        None
    }
}

/// A suffix that equals an encoded string-array tail starts with its first
/// element, followed by a comma or the closing bracket.
proof fn lemma_str_items_shape(s: Seq<char>, i: int, l: Seq<String>, rest: Seq<char>)
    requires
        0 <= i <= s.len(),
        l.len() >= 1,
        s.skip(i) == spec_enc_str_items(l) + rest,
    ensures
        s.skip(i) == spec_enc_str(l[0]@) + (if l.len() == 1 {
            seq![']'] + rest
        } else {
            seq![','] + (spec_enc_str_items(l.skip(1)) + rest)
        }),
        i + spec_enc_str(l[0]@).len() <= s.len(),
        ({
            let j = i + spec_enc_str(l[0]@).len();
            if l.len() == 1 {
                j < s.len() && s[j] == ']' && s.skip(j) == seq![']'] + rest
            } else {
                j < s.len() && s[j] == ',' && s.skip(j) == seq![','] + (spec_enc_str_items(
                    l.skip(1),
                ) + rest)
            }
        }),
{
    let e0 = spec_enc_str(l[0]@);
    if l.len() == 1 {
        lemma_concat_associative(e0, seq![']'], rest);
        assert(s.skip(i) == e0 + (seq![']'] + rest));
        lemma_skip_concat(s, i, e0, seq![']'] + rest);
        lemma_skip_first(s, i + e0.len(), seq![']'], rest);
    } else {
        lemma_concat_associative(e0, seq![','], spec_enc_str_items(l.skip(1)));
        assert(spec_enc_str_items(l) == e0 + (seq![','] + spec_enc_str_items(l.skip(1))));
        lemma_concat_associative(e0, seq![','] + spec_enc_str_items(l.skip(1)), rest);
        assert(s.skip(i) == e0 + ((seq![','] + spec_enc_str_items(l.skip(1))) + rest));
        lemma_concat_associative(seq![','], spec_enc_str_items(l.skip(1)), rest);
        assert(s.skip(i) == e0 + (seq![','] + (spec_enc_str_items(l.skip(1)) + rest)));
        lemma_skip_concat(s, i, e0, seq![','] + (spec_enc_str_items(l.skip(1)) + rest));
        lemma_skip_first(
            s,
            i + e0.len(),
            seq![','],
            spec_enc_str_items(l.skip(1)) + rest,
        );
    }
}

/// Parse a string array at position `i`.
pub fn parse_str_vec(s: &str, i: usize) -> (r: Option<(Vec<String>, usize)>)
    requires
        i <= s@.len(),
    ensures
        r matches Some(p) ==> i < p.1 <= s@.len(),
        forall|l: Seq<String>, rest: Seq<char>|
            s@.skip(i as int) == spec_enc_str_vec(l) + rest ==> (r matches Some(p) && str_list_eq(
                p.0@,
                l,
            ) && p.1 == i + spec_enc_str_vec(l).len()),
{
    proof {
        reveal_strlit("[]");
    }
    let n = s.unicode_len();
    if i >= n || s.get_char(i) != '[' {
        proof {
            assert forall|l: Seq<String>, rest: Seq<char>|
                s@.skip(i as int) == spec_enc_str_vec(l) + rest implies false by {
                if l.len() == 0 {
                    lemma_skip_first(s@, i as int, "[]"@, rest);
                } else {
                    lemma_skip_first(s@, i as int, spec_enc_str_vec(l), rest);
                }
            }
        }
        return None;
    }
    if i + 1 < n && s.get_char(i + 1) == ']' {
        let v: Vec<String> = Vec::new();
        proof {
            assert forall|l: Seq<String>, rest: Seq<char>|
                s@.skip(i as int) == spec_enc_str_vec(l) + rest implies (str_list_eq(v@, l) && i
                + 2 == i + spec_enc_str_vec(l).len()) by {
                if l.len() >= 1 {
                    lemma_concat_associative(seq!['['], spec_enc_str_items(l), rest);
                    lemma_skip_concat(s@, i as int, seq!['['], spec_enc_str_items(l) + rest);
                    lemma_str_items_shape(s@, i + 1, l, rest);
                    lemma_enc_str_shape(s@, i + 1, l[0]@, ((if l.len() == 1 {
                        seq![']'] + rest
                    } else {
                        seq![','] + (spec_enc_str_items(l.skip(1)) + rest)
                    })));
                }
            }
        }
        return Some((v, i + 2));
    }
    match parse_str_items(s, i + 1) {
        Option::None => {
            proof {
                assert forall|l: Seq<String>, rest: Seq<char>|
                    s@.skip(i as int) == spec_enc_str_vec(l) + rest implies false by {
                    if l.len() == 0 {
                        lemma_skip_first(s@, i as int, "[]"@, rest);
                        assert("[]"@ =~= seq!['['] + seq![']']);
                        lemma_concat_associative(seq!['['], seq![']'], rest);
                        assert(s@.skip(i as int) == seq!['['] + (seq![']'] + rest));
                        lemma_skip_concat(s@, i as int, seq!['['], seq![']'] + rest);
                        assert(s@.skip(i + 1) == seq![']'] + rest);
                        lemma_skip_first(s@, i + 1, seq![']'], rest);
                    } else {
                        lemma_concat_associative(seq!['['], spec_enc_str_items(l), rest);
                        lemma_skip_concat(s@, i as int, seq!['['], spec_enc_str_items(l) + rest);
                    }
                }
            }
            None
        },
        Option::Some((v, j)) => {
            proof {
                assert forall|l: Seq<String>, rest: Seq<char>|
                    s@.skip(i as int) == spec_enc_str_vec(l) + rest implies (str_list_eq(v@, l)
                    && j == i + spec_enc_str_vec(l).len()) by {
                    if l.len() == 0 {
                        lemma_skip_first(s@, i as int, "[]"@, rest);
                        assert("[]"@ =~= seq!['['] + seq![']']);
                        lemma_concat_associative(seq!['['], seq![']'], rest);
                        assert(s@.skip(i as int) == seq!['['] + (seq![']'] + rest));
                        lemma_skip_concat(s@, i as int, seq!['['], seq![']'] + rest);
                        assert(s@.skip(i + 1) == seq![']'] + rest);
                        lemma_skip_first(s@, i + 1, seq![']'], rest);
                        assert(s@[i + 1] == ']');
                    } else {
                        lemma_concat_associative(seq!['['], spec_enc_str_items(l), rest);
                        lemma_skip_concat(s@, i as int, seq!['['], spec_enc_str_items(l) + rest);
                    }
                }
            }
            Some((v, j))
        },
    }
}

/// Parse `null` or a string array at position `i`.
pub fn parse_opt_str_vec(s: &str, i: usize) -> (r: Option<(Option<Vec<String>>, usize)>)
    requires
        i <= s@.len(),
    ensures
        r matches Some(p) ==> i < p.1 <= s@.len(),
        forall|o: Option<Vec<String>>, rest: Seq<char>|
            s@.skip(i as int) == spec_enc_opt_str_vec(o) + rest ==> (r matches Some(p)
                && opt_str_vec_eq(p.0, o) && p.1 == i + spec_enc_opt_str_vec(o).len()),
{
    proof {
        reveal_strlit("null");
        reveal_strlit("[]");
    }
    let n = s.unicode_len();
    if i < n && s.get_char(i) == 'n' {
        match parse_lit(s, i, "null") {
            Option::Some(j) => {
                proof {
                    assert forall|o: Option<Vec<String>>, rest: Seq<char>|
                        s@.skip(i as int) == spec_enc_opt_str_vec(o) + rest implies (o is None
                        && j == i + spec_enc_opt_str_vec(o).len()) by {
                        if o is Some {
                            let x = o->Some_0;
                            lemma_skip_first(s@, i as int, spec_enc_str_vec(x@), rest);
                            if x@.len() == 0 {
                            } else {
                                assert(spec_enc_str_vec(x@)[0] == '[');
                            }
                        }
                    }
                }
                Some((None, j))
            },
            Option::None => {
                proof {
                    assert forall|o: Option<Vec<String>>, rest: Seq<char>|
                        s@.skip(i as int) == spec_enc_opt_str_vec(o) + rest implies false by {
                        if o is Some {
                            let x = o->Some_0;
                            lemma_skip_first(s@, i as int, spec_enc_str_vec(x@), rest);
                            if x@.len() == 0 {
                            } else {
                                assert(spec_enc_str_vec(x@)[0] == '[');
                            }
                        }
                    }
                }
                None
            },
        }
    } else {
        match parse_str_vec(s, i) {
            Option::Some((v, j)) => {
                proof {
                    assert forall|o: Option<Vec<String>>, rest: Seq<char>|
                        s@.skip(i as int) == spec_enc_opt_str_vec(o) + rest implies (o is Some
                        && str_list_eq(v@, o->Some_0@) && j == i + spec_enc_opt_str_vec(
                            o,
                        ).len()) by {
                        if o is None {
                            lemma_skip_first(s@, i as int, "null"@, rest);
                        }
                    }
                }
                Some((Some(v), j))
            },
            Option::None => {
                proof {
                    assert forall|o: Option<Vec<String>>, rest: Seq<char>|
                        s@.skip(i as int) == spec_enc_opt_str_vec(o) + rest implies false by {
                        if o is None {
                            lemma_skip_first(s@, i as int, "null"@, rest);
                        }
                    }
                }
                None
            },
        }
    }
}

/// Parse a dialog configuration object at position `i`.
pub fn parse_dialog(s: &str, i: usize) -> (r: Option<(DialogOptions, usize)>)
    requires
        i <= s@.len(),
    ensures
        r matches Some(p) ==> i < p.1 <= s@.len(),
        forall|v: DialogOptions, rest: Seq<char>|
            s@.skip(i as int) == spec_enc_dialog(v) + rest ==> (r matches Some(p) && p.0 == v
                && p.1 == i + spec_enc_dialog(v).len()),
{
    let j0 = match parse_lit(s, i, "{\"allow_file_dialogs\":") {
        Option::None => {
            proof {
                assert forall|v: DialogOptions, rest: Seq<char>|
                    s@.skip(i as int) == spec_enc_dialog(v) + rest implies false by {
                    lemma_dialog_parts(s@, i as int, v, rest);
                }
            }
            return None;
        },
        Option::Some(j) => j,
    };
    let (b1, j1) = match parse_bool(s, j0) {
        Option::None => {
            proof {
                assert forall|v: DialogOptions, rest: Seq<char>|
                    s@.skip(i as int) == spec_enc_dialog(v) + rest implies false by {
                    lemma_dialog_parts(s@, i as int, v, rest);
                }
            }
            return None;
        },
        Option::Some(p) => p,
    };
    let j2 = match parse_lit(s, j1, ",\"allow_message_dialogs\":") {
        Option::None => {
            proof {
                assert forall|v: DialogOptions, rest: Seq<char>|
                    s@.skip(i as int) == spec_enc_dialog(v) + rest implies false by {
                    lemma_dialog_parts(s@, i as int, v, rest);
                }
            }
            return None;
        },
        Option::Some(j) => j,
    };
    let (b2, j3) = match parse_bool(s, j2) {
        Option::None => {
            proof {
                assert forall|v: DialogOptions, rest: Seq<char>|
                    s@.skip(i as int) == spec_enc_dialog(v) + rest implies false by {
                    lemma_dialog_parts(s@, i as int, v, rest);
                }
            }
            return None;
        },
        Option::Some(p) => p,
    };
    let j4 = match parse_lit(s, j3, "}") {
        Option::None => {
            proof {
                assert forall|v: DialogOptions, rest: Seq<char>|
                    s@.skip(i as int) == spec_enc_dialog(v) + rest implies false by {
                    lemma_dialog_parts(s@, i as int, v, rest);
                }
            }
            return None;
        },
        Option::Some(j) => j,
    };
    let out = DialogOptions { allow_file_dialogs: b1, allow_message_dialogs: b2 };
    proof {
        assert forall|v: DialogOptions, rest: Seq<char>|
            s@.skip(i as int) == spec_enc_dialog(v) + rest implies (out == v && j4 == i
            + spec_enc_dialog(v).len()) by {
            lemma_dialog_parts(s@, i as int, v, rest);
        }
    }
    Some((out, j4))
}

/// Decomposition of a suffix that equals an encoded dialog object.
proof fn lemma_dialog_parts(s: Seq<char>, i: int, v: DialogOptions, rest: Seq<char>)
    requires
        0 <= i <= s.len(),
        s.skip(i) == spec_enc_dialog(v) + rest,
    ensures
        s.skip(i) == "{\"allow_file_dialogs\":"@ + (spec_enc_bool(v.allow_file_dialogs) + (
        ",\"allow_message_dialogs\":"@ + (spec_enc_bool(v.allow_message_dialogs) + ("}"@
            + rest)))),
        s.skip(i + "{\"allow_file_dialogs\":"@.len()) == spec_enc_bool(v.allow_file_dialogs) + (
        ",\"allow_message_dialogs\":"@ + (spec_enc_bool(v.allow_message_dialogs) + ("}"@
            + rest))),
        s.skip(
            i + "{\"allow_file_dialogs\":"@.len() + spec_enc_bool(v.allow_file_dialogs).len(),
        ) == ",\"allow_message_dialogs\":"@ + (spec_enc_bool(v.allow_message_dialogs) + ("}"@
            + rest)),
        s.skip(
            i + "{\"allow_file_dialogs\":"@.len() + spec_enc_bool(v.allow_file_dialogs).len()
                + ",\"allow_message_dialogs\":"@.len(),
        ) == spec_enc_bool(v.allow_message_dialogs) + ("}"@ + rest),
        s.skip(
            i + "{\"allow_file_dialogs\":"@.len() + spec_enc_bool(v.allow_file_dialogs).len()
                + ",\"allow_message_dialogs\":"@.len() + spec_enc_bool(
                v.allow_message_dialogs,
            ).len(),
        ) == "}"@ + rest,
{
    let a = "{\"allow_file_dialogs\":"@;
    let b = spec_enc_bool(v.allow_file_dialogs);
    let c = ",\"allow_message_dialogs\":"@;
    let d = spec_enc_bool(v.allow_message_dialogs);
    let e = "}"@;
    lemma_concat_associative(a + b + c + d, e, rest);
    lemma_concat_associative(a + b + c, d, e + rest);
    lemma_concat_associative(a + b, c, d + (e + rest));
    lemma_concat_associative(a, b, c + (d + (e + rest)));
    assert(s.skip(i) == a + (b + (c + (d + (e + rest)))));
    lemma_skip_concat(s, i, a, b + (c + (d + (e + rest))));
    lemma_skip_concat(s, i + a.len(), b, c + (d + (e + rest)));
    lemma_skip_concat(s, i + a.len() + b.len(), c, d + (e + rest));
    lemma_skip_concat(s, i + a.len() + b.len() + c.len(), d, e + rest);
}

/// Whether two toolbar buttons agree field for field.
pub open spec fn button_eq(a: ToolbarButton, b: ToolbarButton) -> bool {
    a.id@ == b.id@ && a.label@ == b.label@ && opt_str_eq(a.icon, b.icon)
}

/// Whether two button lists agree element for element.
pub open spec fn button_list_eq(a: Seq<ToolbarButton>, b: Seq<ToolbarButton>) -> bool {
    a.len() == b.len() && forall|k: int| 0 <= k < a.len() ==> button_eq(a[k], b[k])
}

/// Whether two toolbar configurations agree field for field.
pub open spec fn toolbar_eq(a: ToolbarOptions, b: ToolbarOptions) -> bool {
    &&& a.show == b.show
    &&& opt_str_eq(a.title_text, b.title_text)
    &&& opt_str_eq(a.background_color, b.background_color)
    &&& opt_str_eq(a.text_color, b.text_color)
    &&& button_list_eq(a.buttons@, b.buttons@)
}

/// Whether two window configurations agree field for field.
pub open spec fn window_eq(a: WindowOptions, b: WindowOptions) -> bool {
    &&& opt_str_eq(a.title, b.title)
    &&& a.width == b.width
    &&& a.height == b.height
    &&& a.x == b.x
    &&& a.y == b.y
    &&& a.resizable == b.resizable
    &&& a.maximised == b.maximised
    &&& a.fullscreen == b.fullscreen
    &&& a.decorations == b.decorations
    &&& a.transparent == b.transparent
    &&& a.always_on_top == b.always_on_top
    &&& opt_str_eq(a.theme, b.theme)
    &&& opt_str_eq(a.background_color, b.background_color)
    &&& toolbar_eq(a.toolbar, b.toolbar)
}

/// Whether two behaviour configurations agree field for field.
pub open spec fn behaviour_eq(a: BehaviourOptions, b: BehaviourOptions) -> bool {
    &&& a.allow_external_navigation == b.allow_external_navigation
    &&& opt_str_vec_eq(a.allowed_domains, b.allowed_domains)
    &&& a.enable_devtools == b.enable_devtools
    &&& a.allow_remote_content == b.allow_remote_content
    &&& a.allow_notifications == b.allow_notifications
}

/// Whether two content descriptors agree, strings compared through their
/// views.
pub open spec fn content_eq(a: ViewerContent, b: ViewerContent) -> bool {
    match (a, b) {
        (
            ViewerContent::InlineHtml { html: h1, base_dir: b1 },
            ViewerContent::InlineHtml { html: h2, base_dir: b2 },
        ) => h1@ == h2@ && opt_str_eq(b1, b2),
        (ViewerContent::LocalFile { path: p1 }, ViewerContent::LocalFile { path: p2 }) => p1@
            == p2@,
        (
            ViewerContent::AppDir { root: r1, entry: e1 },
            ViewerContent::AppDir { root: r2, entry: e2 },
        ) => r1@ == r2@ && opt_str_eq(e1, e2),
        (ViewerContent::RemoteUrl { url: u1 }, ViewerContent::RemoteUrl { url: u2 }) => u1@
            == u2@,
        _ => false,
    }
}

/// Whether two commands agree field for field.
pub open spec fn command_eq(a: ViewerCommand, b: ViewerCommand) -> bool {
    a.seq == b.seq && content_eq(a.content, b.content)
}

/// Whether two requests agree field for field.
pub open spec fn request_eq(a: ViewerRequest, b: ViewerRequest) -> bool {
    &&& a.id@ == b.id@
    &&& content_eq(a.content, b.content)
    &&& window_eq(a.window, b.window)
    &&& behaviour_eq(a.behaviour, b.behaviour)
    &&& environment_eq(a.environment, b.environment)
    &&& a.dialog == b.dialog
    &&& opt_str_eq(a.command_file, b.command_file)
}

/// An encoded toolbar button starts with an opening brace.
proof fn lemma_button_head(s: Seq<char>, i: int, b: ToolbarButton, t: Seq<char>)
    requires
        0 <= i <= s.len(),
        s.skip(i) == spec_enc_button(b) + t,
    ensures
        i < s.len(),
        s[i] == '{',
{
    reveal_strlit("{\"id\":");
    lemma_skip_first(s, i, spec_enc_button(b), t);
    assert(spec_enc_button(b)[0] == "{\"id\":"@[0]);
}

/// Parse the elements of a nonempty button array at position `i` (just
/// after the opening bracket or a comma), through the closing bracket.
pub fn parse_button_items(s: &str, i: usize) -> (r: Option<(Vec<ToolbarButton>, usize)>)
    requires
        i <= s@.len(),
    ensures
        r matches Some(p) ==> i < p.1 <= s@.len() && p.0@.len() >= 1,
        forall|l: Seq<ToolbarButton>, rest: Seq<char>|
            l.len() >= 1 && s@.skip(i as int) == spec_enc_button_items(l) + rest ==> (r matches
                Some(p) && button_list_eq(p.0@, l) && p.1 == i + spec_enc_button_items(l).len()),
    decreases s@.len() - i,
{
    let n = s.unicode_len();
    let (e, j) = match parse_button(s, i) {
        Option::None => {
            proof {
                assert forall|l: Seq<ToolbarButton>, rest: Seq<char>|
                    l.len() >= 1 && s@.skip(i as int) == spec_enc_button_items(l) + rest implies
                    false by {
                    lemma_button_items_shape(s@, i as int, l, rest);
                }
            }
            return None;
        },
        Option::Some(p) => p,
    };
    if j < n && s.get_char(j) == ',' {
        match parse_button_items(s, j + 1) {
            Option::None => {
                proof {
                    assert forall|l: Seq<ToolbarButton>, rest: Seq<char>|
                        l.len() >= 1 && s@.skip(i as int) == spec_enc_button_items(l)
                            + rest implies false by {
                        lemma_button_items_shape(s@, i as int, l, rest);
                        if l.len() == 1 {
                            assert(s@[j as int] == ']');
                        } else {
                            lemma_skip_concat(
                                s@,
                                j as int,
                                seq![','],
                                spec_enc_button_items(l.skip(1)) + rest,
                            );
                        }
                    }
                }
                None
            },
            Option::Some((mut tail, j2)) => {
                tail.insert(0, e);
                proof {
                    assert forall|l: Seq<ToolbarButton>, rest: Seq<char>|
                        l.len() >= 1 && s@.skip(i as int) == spec_enc_button_items(l)
                            + rest implies (button_list_eq(tail@, l) && j2 == i
                        + spec_enc_button_items(l).len()) by {
                        lemma_button_items_shape(s@, i as int, l, rest);
                        if l.len() == 1 {
                            assert(s@[j as int] == ']');
                        } else {
                            lemma_skip_concat(
                                s@,
                                j as int,
                                seq![','],
                                spec_enc_button_items(l.skip(1)) + rest,
                            );
                            assert(s@.skip(j + 1) == spec_enc_button_items(l.skip(1)) + rest);
                            assert(button_list_eq(tail@.skip(1), l.skip(1)));
                            assert(button_eq(tail@[0], l[0]));
                            assert forall|k: int| 0 <= k < tail@.len() implies button_eq(
                                tail@[k],
                                l[k],
                            ) by {
                                if k > 0 {
                                    assert(tail@.skip(1)[k - 1] == tail@[k]);
                                    assert(l.skip(1)[k - 1] == l[k]);
                                }
                            }
                        }
                    }
                }
                Some((tail, j2))
            },
        }
    } else if j < n && s.get_char(j) == ']' {
        let mut v: Vec<ToolbarButton> = Vec::new();
        v.push(e);
        proof {
            assert forall|l: Seq<ToolbarButton>, rest: Seq<char>|
                l.len() >= 1 && s@.skip(i as int) == spec_enc_button_items(l) + rest implies (
            button_list_eq(v@, l) && j + 1 == i + spec_enc_button_items(l).len()) by {
                lemma_button_items_shape(s@, i as int, l, rest);
                if l.len() > 1 {
                    assert(s@.skip(j as int)[0] == s@[j as int]);
                }
            }
        }
        Some((v, j + 1))
    } else {
        proof {
            assert forall|l: Seq<ToolbarButton>, rest: Seq<char>|
                l.len() >= 1 && s@.skip(i as int) == spec_enc_button_items(l) + rest implies
                false by {
                lemma_button_items_shape(s@, i as int, l, rest);
                if l.len() == 1 {
                    assert(s@[j as int] == ']');
                } else {
                    assert(s@.skip(j as int)[0] == s@[j as int]);
                }
            }
        }
        None
    }
}

/// A suffix that equals an encoded button-array tail starts with its first
/// element, followed by a comma or the closing bracket.
proof fn lemma_button_items_shape(s: Seq<char>, i: int, l: Seq<ToolbarButton>, rest: Seq<char>)
    requires
        0 <= i <= s.len(),
        l.len() >= 1,
        s.skip(i) == spec_enc_button_items(l) + rest,
    ensures
        s.skip(i) == spec_enc_button(l[0]) + (if l.len() == 1 {
            seq![']'] + rest
        } else {
            seq![','] + (spec_enc_button_items(l.skip(1)) + rest)
        }),
        i + spec_enc_button(l[0]).len() <= s.len(),
        ({
            let j = i + spec_enc_button(l[0]).len();
            if l.len() == 1 {
                j < s.len() && s[j] == ']' && s.skip(j) == seq![']'] + rest
            } else {
                j < s.len() && s[j] == ',' && s.skip(j) == seq![','] + (spec_enc_button_items(
                    l.skip(1),
                ) + rest)
            }
        }),
{
    let e0 = spec_enc_button(l[0]);
    if l.len() == 1 {
        lemma_concat_associative(e0, seq![']'], rest);
        assert(s.skip(i) == e0 + (seq![']'] + rest));
        lemma_skip_concat(s, i, e0, seq![']'] + rest);
        lemma_skip_first(s, i + e0.len(), seq![']'], rest);
    } else {
        lemma_concat_associative(e0, seq![','], spec_enc_button_items(l.skip(1)));
        assert(spec_enc_button_items(l) == e0 + (seq![','] + spec_enc_button_items(l.skip(1))));
        lemma_concat_associative(e0, seq![','] + spec_enc_button_items(l.skip(1)), rest);
        assert(s.skip(i) == e0 + ((seq![','] + spec_enc_button_items(l.skip(1))) + rest));
        lemma_concat_associative(seq![','], spec_enc_button_items(l.skip(1)), rest);
        assert(s.skip(i) == e0 + (seq![','] + (spec_enc_button_items(l.skip(1)) + rest)));
        lemma_skip_concat(s, i, e0, seq![','] + (spec_enc_button_items(l.skip(1)) + rest));
        lemma_skip_first(s, i + e0.len(), seq![','], spec_enc_button_items(l.skip(1)) + rest);
    }
}

/// Parse a button array at position `i`.
pub fn parse_button_vec(s: &str, i: usize) -> (r: Option<(Vec<ToolbarButton>, usize)>)
    requires
        i <= s@.len(),
    ensures
        r matches Some(p) ==> i < p.1 <= s@.len(),
        forall|l: Seq<ToolbarButton>, rest: Seq<char>|
            s@.skip(i as int) == spec_enc_button_vec(l) + rest ==> (r matches Some(p)
                && button_list_eq(p.0@, l) && p.1 == i + spec_enc_button_vec(l).len()),
{
    proof {
        reveal_strlit("[]");
    }
    let n = s.unicode_len();
    if i >= n || s.get_char(i) != '[' {
        proof {
            assert forall|l: Seq<ToolbarButton>, rest: Seq<char>|
                s@.skip(i as int) == spec_enc_button_vec(l) + rest implies false by {
                if l.len() == 0 {
                    lemma_skip_first(s@, i as int, "[]"@, rest);
                } else {
                    lemma_skip_first(s@, i as int, spec_enc_button_vec(l), rest);
                }
            }
        }
        return None;
    }
    if i + 1 < n && s.get_char(i + 1) == ']' {
        let v: Vec<ToolbarButton> = Vec::new();
        proof {
            assert forall|l: Seq<ToolbarButton>, rest: Seq<char>|
                s@.skip(i as int) == spec_enc_button_vec(l) + rest implies (button_list_eq(v@, l)
                && i + 2 == i + spec_enc_button_vec(l).len()) by {
                if l.len() >= 1 {
                    lemma_concat_associative(seq!['['], spec_enc_button_items(l), rest);
                    lemma_skip_concat(s@, i as int, seq!['['], spec_enc_button_items(l) + rest);
                    lemma_button_items_shape(s@, i + 1, l, rest);
                    lemma_button_head(s@, i + 1, l[0], ((if l.len() == 1 {
                        seq![']'] + rest
                    } else {
                        seq![','] + (spec_enc_button_items(l.skip(1)) + rest)
                    })));
                }
            }
        }
        return Some((v, i + 2));
    }
    match parse_button_items(s, i + 1) {
        Option::None => {
            proof {
                assert forall|l: Seq<ToolbarButton>, rest: Seq<char>|
                    s@.skip(i as int) == spec_enc_button_vec(l) + rest implies false by {
                    if l.len() == 0 {
                        lemma_skip_first(s@, i as int, "[]"@, rest);
                        assert("[]"@ =~= seq!['['] + seq![']']);
                        lemma_concat_associative(seq!['['], seq![']'], rest);
                        assert(s@.skip(i as int) == seq!['['] + (seq![']'] + rest));
                        lemma_skip_concat(s@, i as int, seq!['['], seq![']'] + rest);
                        assert(s@.skip(i + 1) == seq![']'] + rest);
                        lemma_skip_first(s@, i + 1, seq![']'], rest);
                    } else {
                        lemma_concat_associative(seq!['['], spec_enc_button_items(l), rest);
                        lemma_skip_concat(s@, i as int, seq!['['], spec_enc_button_items(l) + rest);
                    }
                }
            }
            None
        },
        Option::Some((v, j)) => {
            proof {
                assert forall|l: Seq<ToolbarButton>, rest: Seq<char>|
                    s@.skip(i as int) == spec_enc_button_vec(l) + rest implies (button_list_eq(
                        v@,
                        l,
                    ) && j == i + spec_enc_button_vec(l).len()) by {
                    if l.len() == 0 {
                        lemma_skip_first(s@, i as int, "[]"@, rest);
                        assert("[]"@ =~= seq!['['] + seq![']']);
                        lemma_concat_associative(seq!['['], seq![']'], rest);
                        assert(s@.skip(i as int) == seq!['['] + (seq![']'] + rest));
                        lemma_skip_concat(s@, i as int, seq!['['], seq![']'] + rest);
                        assert(s@.skip(i + 1) == seq![']'] + rest);
                        lemma_skip_first(s@, i + 1, seq![']'], rest);
                        assert(s@[i + 1] == ']');
                    } else {
                        lemma_concat_associative(seq!['['], spec_enc_button_items(l), rest);
                        lemma_skip_concat(s@, i as int, seq!['['], spec_enc_button_items(l) + rest);
                    }
                }
            }
            Some((v, j))
        },
    }
}

/// The character that distinguishes the four content kinds in their
/// encodings, just after the common `{"type":"` prefix.
pub open spec fn spec_content_tag(c: ViewerContent) -> char {
    match c {
        ViewerContent::InlineHtml { .. } => 'i',
        ViewerContent::LocalFile { .. } => 'l',
        ViewerContent::AppDir { .. } => 'a',
        ViewerContent::RemoteUrl { .. } => 'r',
    }
}

/// A suffix that equals an encoded content object carries its kind's tag
/// character just after the common prefix.
proof fn lemma_content_tag(s: Seq<char>, i: int, v: ViewerContent, rest: Seq<char>)
    requires
        0 <= i <= s.len(),
        s.skip(i) == spec_enc_content(v) + rest,
    ensures
        i + 9 < s.len(),
        s[i + 9] == spec_content_tag(v),
{
    reveal_strlit("{\"type\":\"inline_html\",\"html\":");
    reveal_strlit("{\"type\":\"local_file\",\"path\":");
    reveal_strlit("{\"type\":\"app_dir\",\"root\":");
    reveal_strlit("{\"type\":\"remote_url\",\"url\":");
    assert(s.skip(i).len() == spec_enc_content(v).len() + rest.len());
    assert(s.skip(i)[9] == s[i + 9]);
    match v {
        ViewerContent::InlineHtml { html, base_dir } => {
            assert((spec_enc_content(v) + rest)[9] == "{\"type\":\"inline_html\",\"html\":"@[9]);
        },
        ViewerContent::LocalFile { path } => {
            assert((spec_enc_content(v) + rest)[9] == "{\"type\":\"local_file\",\"path\":"@[9]);
        },
        ViewerContent::AppDir { root, entry } => {
            assert((spec_enc_content(v) + rest)[9] == "{\"type\":\"app_dir\",\"root\":"@[9]);
        },
        ViewerContent::RemoteUrl { url } => {
            assert((spec_enc_content(v) + rest)[9] == "{\"type\":\"remote_url\",\"url\":"@[9]);
        },
    }
}

/// Parse a content descriptor object at position `i`.
pub fn parse_content(s: &str, i: usize) -> (r: Option<(ViewerContent, usize)>)
    requires
        i <= s@.len(),
    ensures
        r matches Some(p) ==> i < p.1 <= s@.len(),
        forall|v: ViewerContent, rest: Seq<char>|
            s@.skip(i as int) == spec_enc_content(v) + rest ==> (r matches Some(p) && content_eq(
                p.0,
                v,
            ) && p.1 == i + spec_enc_content(v).len()),
{
    if let Option::Some(p) = parse_content_inline_html(s, i) {
        let (c, j) = p;
        proof {
            assert forall|v: ViewerContent, rest: Seq<char>|
                s@.skip(i as int) == spec_enc_content(v) + rest implies (content_eq(c, v) && j
                == i + spec_enc_content(v).len()) by {
                lemma_content_tag(s@, i as int, v, rest);
            }
        }
        return Some((c, j));
    }
    if let Option::Some(p) = parse_content_local_file(s, i) {
        let (c, j) = p;
        proof {
            assert forall|v: ViewerContent, rest: Seq<char>|
                s@.skip(i as int) == spec_enc_content(v) + rest implies (content_eq(c, v) && j
                == i + spec_enc_content(v).len()) by {
                lemma_content_tag(s@, i as int, v, rest);
            }
        }
        return Some((c, j));
    }
    if let Option::Some(p) = parse_content_app_dir(s, i) {
        let (c, j) = p;
        proof {
            assert forall|v: ViewerContent, rest: Seq<char>|
                s@.skip(i as int) == spec_enc_content(v) + rest implies (content_eq(c, v) && j
                == i + spec_enc_content(v).len()) by {
                lemma_content_tag(s@, i as int, v, rest);
            }
        }
        return Some((c, j));
    }
    if let Option::Some(p) = parse_content_remote_url(s, i) {
        let (c, j) = p;
        proof {
            assert forall|v: ViewerContent, rest: Seq<char>|
                s@.skip(i as int) == spec_enc_content(v) + rest implies (content_eq(c, v) && j
                == i + spec_enc_content(v).len()) by {
                lemma_content_tag(s@, i as int, v, rest);
            }
        }
        return Some((c, j));
    }
    proof {
        assert forall|v: ViewerContent, rest: Seq<char>|
            s@.skip(i as int) == spec_enc_content(v) + rest implies false by {
            lemma_content_tag(s@, i as int, v, rest);
        }
    }
    None
}

/// Parse an exit-reason object at position `i`.
pub fn parse_exit_reason(s: &str, i: usize) -> (r: Option<(ViewerExitReason, usize)>)
    requires
        i <= s@.len(),
    ensures
        r matches Some(p) ==> i < p.1 <= s@.len() && s@.subrange(i as int, p.1 as int)
            == spec_enc_exit_reason(p.0),
        forall|v: ViewerExitReason, rest: Seq<char>|
            s@.skip(i as int) == spec_enc_exit_reason(v) + rest ==> (r matches Some(p)
                && exit_reason_eq(p.0, v) && p.1 == i + spec_enc_exit_reason(v).len()),
{
    proof {
        reveal_strlit("{\"reason\":\"closed_by_user\"}");
        reveal_strlit("{\"reason\":\"timed_out\"}");
        reveal_strlit("{\"reason\":\"error\",\"message\":");
    }
    if let Option::Some(j) = parse_lit(s, i, "{\"reason\":\"closed_by_user\"}") {
        proof {
            assert forall|v: ViewerExitReason, rest: Seq<char>|
                s@.skip(i as int) == spec_enc_exit_reason(v) + rest implies (v is ClosedByUser
                && j == i + spec_enc_exit_reason(v).len()) by {
                lemma_reason_tag(s@, i as int, v, rest);
                assert(s@.subrange(i as int, j as int)[11] == s@[i + 11]);
            }
        }
        proof {
            assert(s@.subrange(i as int, j as int) == spec_enc_exit_reason(
                ViewerExitReason::ClosedByUser,
            ));
        }
        return Some((ViewerExitReason::ClosedByUser, j));
    }
    if let Option::Some(j) = parse_lit(s, i, "{\"reason\":\"timed_out\"}") {
        proof {
            assert forall|v: ViewerExitReason, rest: Seq<char>|
                s@.skip(i as int) == spec_enc_exit_reason(v) + rest implies (v is TimedOut && j
                == i + spec_enc_exit_reason(v).len()) by {
                lemma_reason_tag(s@, i as int, v, rest);
                assert(s@.subrange(i as int, j as int)[11] == s@[i + 11]);
            }
        }
        proof {
            assert(s@.subrange(i as int, j as int) == spec_enc_exit_reason(
                ViewerExitReason::TimedOut,
            ));
        }
        return Some((ViewerExitReason::TimedOut, j));
    }
    let j0 = match parse_lit(s, i, "{\"reason\":\"error\",\"message\":") {
        Option::None => {
            proof {
                assert forall|v: ViewerExitReason, rest: Seq<char>|
                    s@.skip(i as int) == spec_enc_exit_reason(v) + rest implies false by {
                    lemma_reason_tag(s@, i as int, v, rest);
                }
            }
            return None;
        },
        Option::Some(j) => j,
    };
    let (msg, j1) = match parse_json_str(s, j0) {
        Option::None => {
            proof {
                assert forall|v: ViewerExitReason, rest: Seq<char>|
                    s@.skip(i as int) == spec_enc_exit_reason(v) + rest implies false by {
                    lemma_reason_tag(s@, i as int, v, rest);
                }
            }
            return None;
        },
        Option::Some(p) => p,
    };
    let j2 = match parse_lit(s, j1, "}") {
        Option::None => {
            proof {
                assert forall|v: ViewerExitReason, rest: Seq<char>|
                    s@.skip(i as int) == spec_enc_exit_reason(v) + rest implies false by {
                    lemma_reason_tag(s@, i as int, v, rest);
                }
            }
            return None;
        },
        Option::Some(j) => j,
    };
    let out = ViewerExitReason::Error { message: msg };
    proof {
        lemma_subrange_split(s@, i as int, j0 as int, j1 as int);
        lemma_subrange_split(s@, i as int, j1 as int, j2 as int);
        assert(s@.subrange(i as int, j2 as int) == spec_enc_exit_reason(out));
        assert forall|v: ViewerExitReason, rest: Seq<char>|
            s@.skip(i as int) == spec_enc_exit_reason(v) + rest implies (exit_reason_eq(out, v)
            && j2 == i + spec_enc_exit_reason(v).len()) by {
            lemma_reason_tag(s@, i as int, v, rest);
        }
    }
    Some((out, j2))
}

/// A suffix that equals an encoded exit reason carries the reason's first
/// distinguishing character just after the common prefix, and for an error
/// reason decomposes into the message and the closing brace.
proof fn lemma_reason_tag(s: Seq<char>, i: int, v: ViewerExitReason, rest: Seq<char>)
    requires
        0 <= i <= s.len(),
        s.skip(i) == spec_enc_exit_reason(v) + rest,
    ensures
        i + 11 < s.len(),
        s[i + 11] == (match v {
            ViewerExitReason::ClosedByUser => 'c',
            ViewerExitReason::TimedOut => 't',
            ViewerExitReason::Error { .. } => 'e',
        }),
        v is ClosedByUser ==> s.skip(i) == "{\"reason\":\"closed_by_user\"}"@ + rest,
        v is TimedOut ==> s.skip(i) == "{\"reason\":\"timed_out\"}"@ + rest,
        v matches ViewerExitReason::Error { message } ==> s.skip(i)
            == "{\"reason\":\"error\",\"message\":"@ + (spec_enc_str(message@) + ("}"@ + rest))
            && s.skip(i + "{\"reason\":\"error\",\"message\":"@.len()) == spec_enc_str(message@)
            + ("}"@ + rest) && s.skip(
            i + "{\"reason\":\"error\",\"message\":"@.len() + spec_enc_str(message@).len(),
        ) == "}"@ + rest,
{
    reveal_strlit("{\"reason\":\"closed_by_user\"}");
    reveal_strlit("{\"reason\":\"timed_out\"}");
    reveal_strlit("{\"reason\":\"error\",\"message\":");
    reveal_strlit("}");
    assert(s.skip(i).len() == spec_enc_exit_reason(v).len() + rest.len());
    assert(s.skip(i)[11] == s[i + 11]);
    match v {
        ViewerExitReason::ClosedByUser => {
            assert((spec_enc_exit_reason(v) + rest)[11]
                == "{\"reason\":\"closed_by_user\"}"@[11]);
        },
        ViewerExitReason::TimedOut => {
            assert((spec_enc_exit_reason(v) + rest)[11] == "{\"reason\":\"timed_out\"}"@[11]);
        },
        ViewerExitReason::Error { message } => {
            let a = "{\"reason\":\"error\",\"message\":"@;
            let b = spec_enc_str(message@);
            let c = "}"@;
            lemma_concat_associative(a + b, c, rest);
            lemma_concat_associative(a, b, c + rest);
            assert(s.skip(i) == a + (b + (c + rest)));
            lemma_skip_concat(s, i, a, b + (c + rest));
            lemma_skip_concat(s, i + a.len(), b, c + rest);
            assert((spec_enc_exit_reason(v) + rest)[11] == a[11]);
        },
    }
}


/// Decomposition of a suffix that equals an encoded `InlineHtml` content object.
proof fn lemma_content_inline_html_parts(s: Seq<char>, i: int, v: ViewerContent, rest: Seq<char>)
    requires
        0 <= i <= s.len(),
        v is InlineHtml,
        s.skip(i) == spec_enc_content(v) + rest,
    ensures
        s.skip(i) == "{\"type\":\"inline_html\",\"html\":"@ + (spec_enc_str(v->html@) + (",\"base_dir\":"@ + (spec_enc_opt_str(v->base_dir) + ("}"@ + rest)))),
        s.skip(i + "{\"type\":\"inline_html\",\"html\":"@.len()) == spec_enc_str(v->html@) + (",\"base_dir\":"@ + (spec_enc_opt_str(v->base_dir) + ("}"@ + rest))),
        s.skip(i + "{\"type\":\"inline_html\",\"html\":"@.len() + spec_enc_str(v->html@).len()) == ",\"base_dir\":"@ + (spec_enc_opt_str(v->base_dir) + ("}"@ + rest)),
        s.skip(i + "{\"type\":\"inline_html\",\"html\":"@.len() + spec_enc_str(v->html@).len() + ",\"base_dir\":"@.len()) == spec_enc_opt_str(v->base_dir) + ("}"@ + rest),
        s.skip(i + "{\"type\":\"inline_html\",\"html\":"@.len() + spec_enc_str(v->html@).len() + ",\"base_dir\":"@.len() + spec_enc_opt_str(v->base_dir).len()) == "}"@ + rest,
{
    lemma_concat_associative("{\"type\":\"inline_html\",\"html\":"@ + spec_enc_str(v->html@) + ",\"base_dir\":"@ + spec_enc_opt_str(v->base_dir), "}"@, rest);
    lemma_concat_associative("{\"type\":\"inline_html\",\"html\":"@ + spec_enc_str(v->html@) + ",\"base_dir\":"@, spec_enc_opt_str(v->base_dir), "}"@ + rest);
    lemma_concat_associative("{\"type\":\"inline_html\",\"html\":"@ + spec_enc_str(v->html@), ",\"base_dir\":"@, spec_enc_opt_str(v->base_dir) + ("}"@ + rest));
    lemma_concat_associative("{\"type\":\"inline_html\",\"html\":"@, spec_enc_str(v->html@), ",\"base_dir\":"@ + (spec_enc_opt_str(v->base_dir) + ("}"@ + rest)));
    assert(s.skip(i) == "{\"type\":\"inline_html\",\"html\":"@ + (spec_enc_str(v->html@) + (",\"base_dir\":"@ + (spec_enc_opt_str(v->base_dir) + ("}"@ + rest)))));
    lemma_skip_concat(s, i, "{\"type\":\"inline_html\",\"html\":"@, spec_enc_str(v->html@) + (",\"base_dir\":"@ + (spec_enc_opt_str(v->base_dir) + ("}"@ + rest))));
    lemma_skip_concat(s, i + "{\"type\":\"inline_html\",\"html\":"@.len(), spec_enc_str(v->html@), ",\"base_dir\":"@ + (spec_enc_opt_str(v->base_dir) + ("}"@ + rest)));
    lemma_skip_concat(s, i + "{\"type\":\"inline_html\",\"html\":"@.len() + spec_enc_str(v->html@).len(), ",\"base_dir\":"@, spec_enc_opt_str(v->base_dir) + ("}"@ + rest));
    lemma_skip_concat(s, i + "{\"type\":\"inline_html\",\"html\":"@.len() + spec_enc_str(v->html@).len() + ",\"base_dir\":"@.len(), spec_enc_opt_str(v->base_dir), "}"@ + rest);
    lemma_skip_concat(s, i + "{\"type\":\"inline_html\",\"html\":"@.len() + spec_enc_str(v->html@).len() + ",\"base_dir\":"@.len() + spec_enc_opt_str(v->base_dir).len(), "}"@, rest);
}

/// Parse a `InlineHtml` content object at position `i`.
fn parse_content_inline_html(s: &str, i: usize) -> (r: Option<(ViewerContent, usize)>)
    requires
        i <= s@.len(),
    ensures
        r matches Some(p) ==> i < p.1 <= s@.len() && i + 9 < s@.len() && s@[i + 9] == 'i',
        forall|v: ViewerContent, rest: Seq<char>|
            v is InlineHtml && s@.skip(i as int) == spec_enc_content(v) + rest ==> (r matches Some(p)
                && content_eq(p.0, v) && p.1 == i + spec_enc_content(v).len()),
{
    proof { reveal_strlit("{\"type\":\"inline_html\",\"html\":"); }
    let j0 = match parse_lit(s, i, "{\"type\":\"inline_html\",\"html\":") {
        Option::None => {
            proof {
                assert forall|v: ViewerContent, rest: Seq<char>|
                    v is InlineHtml && s@.skip(i as int) == spec_enc_content(v) + rest implies false by {
                    lemma_content_inline_html_parts(s@, i as int, v, rest);
                }
            }
            return None;
        },
        Option::Some(j) => j,
    };
    assert(s@[i + 9] == 'i') by {
        assert(s@.subrange(i as int, j0 as int)[9] == s@[i + 9]);
    }
    let (f_html, j1) = match parse_json_str(s, j0) {
        Option::None => {
            proof {
                assert forall|v: ViewerContent, rest: Seq<char>|
                    v is InlineHtml && s@.skip(i as int) == spec_enc_content(v) + rest implies false by {
                    lemma_content_inline_html_parts(s@, i as int, v, rest);
                }
            }
            return None;
        },
        Option::Some(p) => p,
    };
    let j2 = match parse_lit(s, j1, ",\"base_dir\":") {
        Option::None => {
            proof {
                assert forall|v: ViewerContent, rest: Seq<char>|
                    v is InlineHtml && s@.skip(i as int) == spec_enc_content(v) + rest implies false by {
                    lemma_content_inline_html_parts(s@, i as int, v, rest);
                }
            }
            return None;
        },
        Option::Some(j) => j,
    };
    let (f_bd, j3) = match parse_opt_str(s, j2) {
        Option::None => {
            proof {
                assert forall|v: ViewerContent, rest: Seq<char>|
                    v is InlineHtml && s@.skip(i as int) == spec_enc_content(v) + rest implies false by {
                    lemma_content_inline_html_parts(s@, i as int, v, rest);
                }
            }
            return None;
        },
        Option::Some(p) => p,
    };
    let j4 = match parse_lit(s, j3, "}") {
        Option::None => {
            proof {
                assert forall|v: ViewerContent, rest: Seq<char>|
                    v is InlineHtml && s@.skip(i as int) == spec_enc_content(v) + rest implies false by {
                    lemma_content_inline_html_parts(s@, i as int, v, rest);
                }
            }
            return None;
        },
        Option::Some(j) => j,
    };
    let out = ViewerContent::InlineHtml { html: f_html, base_dir: f_bd };
    proof {
        assert forall|v: ViewerContent, rest: Seq<char>|
            v is InlineHtml && s@.skip(i as int) == spec_enc_content(v) + rest implies (content_eq(out, v) && j4 == i
            + spec_enc_content(v).len()) by {
            lemma_content_inline_html_parts(s@, i as int, v, rest);
        }
    }
    Some((out, j4))
}

/// Decomposition of a suffix that equals an encoded `LocalFile` content object.
proof fn lemma_content_local_file_parts(s: Seq<char>, i: int, v: ViewerContent, rest: Seq<char>)
    requires
        0 <= i <= s.len(),
        v is LocalFile,
        s.skip(i) == spec_enc_content(v) + rest,
    ensures
        s.skip(i) == "{\"type\":\"local_file\",\"path\":"@ + (spec_enc_str(v->path@) + ("}"@ + rest)),
        s.skip(i + "{\"type\":\"local_file\",\"path\":"@.len()) == spec_enc_str(v->path@) + ("}"@ + rest),
        s.skip(i + "{\"type\":\"local_file\",\"path\":"@.len() + spec_enc_str(v->path@).len()) == "}"@ + rest,
{
    lemma_concat_associative("{\"type\":\"local_file\",\"path\":"@ + spec_enc_str(v->path@), "}"@, rest);
    lemma_concat_associative("{\"type\":\"local_file\",\"path\":"@, spec_enc_str(v->path@), "}"@ + rest);
    assert(s.skip(i) == "{\"type\":\"local_file\",\"path\":"@ + (spec_enc_str(v->path@) + ("}"@ + rest)));
    lemma_skip_concat(s, i, "{\"type\":\"local_file\",\"path\":"@, spec_enc_str(v->path@) + ("}"@ + rest));
    lemma_skip_concat(s, i + "{\"type\":\"local_file\",\"path\":"@.len(), spec_enc_str(v->path@), "}"@ + rest);
    lemma_skip_concat(s, i + "{\"type\":\"local_file\",\"path\":"@.len() + spec_enc_str(v->path@).len(), "}"@, rest);
}

/// Parse a `LocalFile` content object at position `i`.
fn parse_content_local_file(s: &str, i: usize) -> (r: Option<(ViewerContent, usize)>)
    requires
        i <= s@.len(),
    ensures
        r matches Some(p) ==> i < p.1 <= s@.len() && i + 9 < s@.len() && s@[i + 9] == 'l',
        forall|v: ViewerContent, rest: Seq<char>|
            v is LocalFile && s@.skip(i as int) == spec_enc_content(v) + rest ==> (r matches Some(p)
                && content_eq(p.0, v) && p.1 == i + spec_enc_content(v).len()),
{
    proof { reveal_strlit("{\"type\":\"local_file\",\"path\":"); }
    let j0 = match parse_lit(s, i, "{\"type\":\"local_file\",\"path\":") {
        Option::None => {
            proof {
                assert forall|v: ViewerContent, rest: Seq<char>|
                    v is LocalFile && s@.skip(i as int) == spec_enc_content(v) + rest implies false by {
                    lemma_content_local_file_parts(s@, i as int, v, rest);
                }
            }
            return None;
        },
        Option::Some(j) => j,
    };
    assert(s@[i + 9] == 'l') by {
        assert(s@.subrange(i as int, j0 as int)[9] == s@[i + 9]);
    }
    let (f_path, j1) = match parse_json_str(s, j0) {
        Option::None => {
            proof {
                assert forall|v: ViewerContent, rest: Seq<char>|
                    v is LocalFile && s@.skip(i as int) == spec_enc_content(v) + rest implies false by {
                    lemma_content_local_file_parts(s@, i as int, v, rest);
                }
            }
            return None;
        },
        Option::Some(p) => p,
    };
    let j2 = match parse_lit(s, j1, "}") {
        Option::None => {
            proof {
                assert forall|v: ViewerContent, rest: Seq<char>|
                    v is LocalFile && s@.skip(i as int) == spec_enc_content(v) + rest implies false by {
                    lemma_content_local_file_parts(s@, i as int, v, rest);
                }
            }
            return None;
        },
        Option::Some(j) => j,
    };
    let out = ViewerContent::LocalFile { path: f_path };
    proof {
        assert forall|v: ViewerContent, rest: Seq<char>|
            v is LocalFile && s@.skip(i as int) == spec_enc_content(v) + rest implies (content_eq(out, v) && j2 == i
            + spec_enc_content(v).len()) by {
            lemma_content_local_file_parts(s@, i as int, v, rest);
        }
    }
    Some((out, j2))
}

/// Decomposition of a suffix that equals an encoded `AppDir` content object.
proof fn lemma_content_app_dir_parts(s: Seq<char>, i: int, v: ViewerContent, rest: Seq<char>)
    requires
        0 <= i <= s.len(),
        v is AppDir,
        s.skip(i) == spec_enc_content(v) + rest,
    ensures
        s.skip(i) == "{\"type\":\"app_dir\",\"root\":"@ + (spec_enc_str(v->root@) + (",\"entry\":"@ + (spec_enc_opt_str(v->entry) + ("}"@ + rest)))),
        s.skip(i + "{\"type\":\"app_dir\",\"root\":"@.len()) == spec_enc_str(v->root@) + (",\"entry\":"@ + (spec_enc_opt_str(v->entry) + ("}"@ + rest))),
        s.skip(i + "{\"type\":\"app_dir\",\"root\":"@.len() + spec_enc_str(v->root@).len()) == ",\"entry\":"@ + (spec_enc_opt_str(v->entry) + ("}"@ + rest)),
        s.skip(i + "{\"type\":\"app_dir\",\"root\":"@.len() + spec_enc_str(v->root@).len() + ",\"entry\":"@.len()) == spec_enc_opt_str(v->entry) + ("}"@ + rest),
        s.skip(i + "{\"type\":\"app_dir\",\"root\":"@.len() + spec_enc_str(v->root@).len() + ",\"entry\":"@.len() + spec_enc_opt_str(v->entry).len()) == "}"@ + rest,
{
    lemma_concat_associative("{\"type\":\"app_dir\",\"root\":"@ + spec_enc_str(v->root@) + ",\"entry\":"@ + spec_enc_opt_str(v->entry), "}"@, rest);
    lemma_concat_associative("{\"type\":\"app_dir\",\"root\":"@ + spec_enc_str(v->root@) + ",\"entry\":"@, spec_enc_opt_str(v->entry), "}"@ + rest);
    lemma_concat_associative("{\"type\":\"app_dir\",\"root\":"@ + spec_enc_str(v->root@), ",\"entry\":"@, spec_enc_opt_str(v->entry) + ("}"@ + rest));
    lemma_concat_associative("{\"type\":\"app_dir\",\"root\":"@, spec_enc_str(v->root@), ",\"entry\":"@ + (spec_enc_opt_str(v->entry) + ("}"@ + rest)));
    assert(s.skip(i) == "{\"type\":\"app_dir\",\"root\":"@ + (spec_enc_str(v->root@) + (",\"entry\":"@ + (spec_enc_opt_str(v->entry) + ("}"@ + rest)))));
    lemma_skip_concat(s, i, "{\"type\":\"app_dir\",\"root\":"@, spec_enc_str(v->root@) + (",\"entry\":"@ + (spec_enc_opt_str(v->entry) + ("}"@ + rest))));
    lemma_skip_concat(s, i + "{\"type\":\"app_dir\",\"root\":"@.len(), spec_enc_str(v->root@), ",\"entry\":"@ + (spec_enc_opt_str(v->entry) + ("}"@ + rest)));
    lemma_skip_concat(s, i + "{\"type\":\"app_dir\",\"root\":"@.len() + spec_enc_str(v->root@).len(), ",\"entry\":"@, spec_enc_opt_str(v->entry) + ("}"@ + rest));
    lemma_skip_concat(s, i + "{\"type\":\"app_dir\",\"root\":"@.len() + spec_enc_str(v->root@).len() + ",\"entry\":"@.len(), spec_enc_opt_str(v->entry), "}"@ + rest);
    lemma_skip_concat(s, i + "{\"type\":\"app_dir\",\"root\":"@.len() + spec_enc_str(v->root@).len() + ",\"entry\":"@.len() + spec_enc_opt_str(v->entry).len(), "}"@, rest);
}

/// Parse a `AppDir` content object at position `i`.
fn parse_content_app_dir(s: &str, i: usize) -> (r: Option<(ViewerContent, usize)>)
    requires
        i <= s@.len(),
    ensures
        r matches Some(p) ==> i < p.1 <= s@.len() && i + 9 < s@.len() && s@[i + 9] == 'a',
        forall|v: ViewerContent, rest: Seq<char>|
            v is AppDir && s@.skip(i as int) == spec_enc_content(v) + rest ==> (r matches Some(p)
                && content_eq(p.0, v) && p.1 == i + spec_enc_content(v).len()),
{
    proof { reveal_strlit("{\"type\":\"app_dir\",\"root\":"); }
    let j0 = match parse_lit(s, i, "{\"type\":\"app_dir\",\"root\":") {
        Option::None => {
            proof {
                assert forall|v: ViewerContent, rest: Seq<char>|
                    v is AppDir && s@.skip(i as int) == spec_enc_content(v) + rest implies false by {
                    lemma_content_app_dir_parts(s@, i as int, v, rest);
                }
            }
            return None;
        },
        Option::Some(j) => j,
    };
    assert(s@[i + 9] == 'a') by {
        assert(s@.subrange(i as int, j0 as int)[9] == s@[i + 9]);
    }
    let (f_root, j1) = match parse_json_str(s, j0) {
        Option::None => {
            proof {
                assert forall|v: ViewerContent, rest: Seq<char>|
                    v is AppDir && s@.skip(i as int) == spec_enc_content(v) + rest implies false by {
                    lemma_content_app_dir_parts(s@, i as int, v, rest);
                }
            }
            return None;
        },
        Option::Some(p) => p,
    };
    let j2 = match parse_lit(s, j1, ",\"entry\":") {
        Option::None => {
            proof {
                assert forall|v: ViewerContent, rest: Seq<char>|
                    v is AppDir && s@.skip(i as int) == spec_enc_content(v) + rest implies false by {
                    lemma_content_app_dir_parts(s@, i as int, v, rest);
                }
            }
            return None;
        },
        Option::Some(j) => j,
    };
    let (f_entry, j3) = match parse_opt_str(s, j2) {
        Option::None => {
            proof {
                assert forall|v: ViewerContent, rest: Seq<char>|
                    v is AppDir && s@.skip(i as int) == spec_enc_content(v) + rest implies false by {
                    lemma_content_app_dir_parts(s@, i as int, v, rest);
                }
            }
            return None;
        },
        Option::Some(p) => p,
    };
    let j4 = match parse_lit(s, j3, "}") {
        Option::None => {
            proof {
                assert forall|v: ViewerContent, rest: Seq<char>|
                    v is AppDir && s@.skip(i as int) == spec_enc_content(v) + rest implies false by {
                    lemma_content_app_dir_parts(s@, i as int, v, rest);
                }
            }
            return None;
        },
        Option::Some(j) => j,
    };
    let out = ViewerContent::AppDir { root: f_root, entry: f_entry };
    proof {
        assert forall|v: ViewerContent, rest: Seq<char>|
            v is AppDir && s@.skip(i as int) == spec_enc_content(v) + rest implies (content_eq(out, v) && j4 == i
            + spec_enc_content(v).len()) by {
            lemma_content_app_dir_parts(s@, i as int, v, rest);
        }
    }
    Some((out, j4))
}

/// Decomposition of a suffix that equals an encoded `RemoteUrl` content object.
proof fn lemma_content_remote_url_parts(s: Seq<char>, i: int, v: ViewerContent, rest: Seq<char>)
    requires
        0 <= i <= s.len(),
        v is RemoteUrl,
        s.skip(i) == spec_enc_content(v) + rest,
    ensures
        s.skip(i) == "{\"type\":\"remote_url\",\"url\":"@ + (spec_enc_str(v->url@) + ("}"@ + rest)),
        s.skip(i + "{\"type\":\"remote_url\",\"url\":"@.len()) == spec_enc_str(v->url@) + ("}"@ + rest),
        s.skip(i + "{\"type\":\"remote_url\",\"url\":"@.len() + spec_enc_str(v->url@).len()) == "}"@ + rest,
{
    lemma_concat_associative("{\"type\":\"remote_url\",\"url\":"@ + spec_enc_str(v->url@), "}"@, rest);
    lemma_concat_associative("{\"type\":\"remote_url\",\"url\":"@, spec_enc_str(v->url@), "}"@ + rest);
    assert(s.skip(i) == "{\"type\":\"remote_url\",\"url\":"@ + (spec_enc_str(v->url@) + ("}"@ + rest)));
    lemma_skip_concat(s, i, "{\"type\":\"remote_url\",\"url\":"@, spec_enc_str(v->url@) + ("}"@ + rest));
    lemma_skip_concat(s, i + "{\"type\":\"remote_url\",\"url\":"@.len(), spec_enc_str(v->url@), "}"@ + rest);
    lemma_skip_concat(s, i + "{\"type\":\"remote_url\",\"url\":"@.len() + spec_enc_str(v->url@).len(), "}"@, rest);
}

/// Parse a `RemoteUrl` content object at position `i`.
fn parse_content_remote_url(s: &str, i: usize) -> (r: Option<(ViewerContent, usize)>)
    requires
        i <= s@.len(),
    ensures
        r matches Some(p) ==> i < p.1 <= s@.len() && i + 9 < s@.len() && s@[i + 9] == 'r',
        forall|v: ViewerContent, rest: Seq<char>|
            v is RemoteUrl && s@.skip(i as int) == spec_enc_content(v) + rest ==> (r matches Some(p)
                && content_eq(p.0, v) && p.1 == i + spec_enc_content(v).len()),
{
    proof { reveal_strlit("{\"type\":\"remote_url\",\"url\":"); }
    let j0 = match parse_lit(s, i, "{\"type\":\"remote_url\",\"url\":") {
        Option::None => {
            proof {
                assert forall|v: ViewerContent, rest: Seq<char>|
                    v is RemoteUrl && s@.skip(i as int) == spec_enc_content(v) + rest implies false by {
                    lemma_content_remote_url_parts(s@, i as int, v, rest);
                }
            }
            return None;
        },
        Option::Some(j) => j,
    };
    assert(s@[i + 9] == 'r') by {
        assert(s@.subrange(i as int, j0 as int)[9] == s@[i + 9]);
    }
    let (f_url, j1) = match parse_json_str(s, j0) {
        Option::None => {
            proof {
                assert forall|v: ViewerContent, rest: Seq<char>|
                    v is RemoteUrl && s@.skip(i as int) == spec_enc_content(v) + rest implies false by {
                    lemma_content_remote_url_parts(s@, i as int, v, rest);
                }
            }
            return None;
        },
        Option::Some(p) => p,
    };
    let j2 = match parse_lit(s, j1, "}") {
        Option::None => {
            proof {
                assert forall|v: ViewerContent, rest: Seq<char>|
                    v is RemoteUrl && s@.skip(i as int) == spec_enc_content(v) + rest implies false by {
                    lemma_content_remote_url_parts(s@, i as int, v, rest);
                }
            }
            return None;
        },
        Option::Some(j) => j,
    };
    let out = ViewerContent::RemoteUrl { url: f_url };
    proof {
        assert forall|v: ViewerContent, rest: Seq<char>|
            v is RemoteUrl && s@.skip(i as int) == spec_enc_content(v) + rest implies (content_eq(out, v) && j2 == i
            + spec_enc_content(v).len()) by {
            lemma_content_remote_url_parts(s@, i as int, v, rest);
        }
    }
    Some((out, j2))
}


/// Decomposition of a suffix that equals an encoded environment configuration object.
proof fn lemma_environment_parts(s: Seq<char>, i: int, v: EnvironmentOptions, rest: Seq<char>)
    requires
        0 <= i <= s.len(),
        s.skip(i) == spec_enc_environment(v) + rest,
    ensures
        s.skip(i) == "{\"working_dir\":"@ + (spec_enc_opt_str(v.working_dir) + (",\"timeout_seconds\":"@ + (spec_enc_opt_u64(v.timeout_seconds) + ("}"@ + rest)))),
        s.skip(i + "{\"working_dir\":"@.len()) == spec_enc_opt_str(v.working_dir) + (",\"timeout_seconds\":"@ + (spec_enc_opt_u64(v.timeout_seconds) + ("}"@ + rest))),
        s.skip(i + "{\"working_dir\":"@.len() + spec_enc_opt_str(v.working_dir).len()) == ",\"timeout_seconds\":"@ + (spec_enc_opt_u64(v.timeout_seconds) + ("}"@ + rest)),
        s.skip(i + "{\"working_dir\":"@.len() + spec_enc_opt_str(v.working_dir).len() + ",\"timeout_seconds\":"@.len()) == spec_enc_opt_u64(v.timeout_seconds) + ("}"@ + rest),
        s.skip(i + "{\"working_dir\":"@.len() + spec_enc_opt_str(v.working_dir).len() + ",\"timeout_seconds\":"@.len() + spec_enc_opt_u64(v.timeout_seconds).len()) == "}"@ + rest,
        !spec_is_digit(("}"@ + rest)[0]),
        ("}"@ + rest).len() > 0,
{
    reveal_strlit("}");
    lemma_concat_associative("{\"working_dir\":"@ + spec_enc_opt_str(v.working_dir) + ",\"timeout_seconds\":"@ + spec_enc_opt_u64(v.timeout_seconds), "}"@, rest);
    lemma_concat_associative("{\"working_dir\":"@ + spec_enc_opt_str(v.working_dir) + ",\"timeout_seconds\":"@, spec_enc_opt_u64(v.timeout_seconds), "}"@ + rest);
    lemma_concat_associative("{\"working_dir\":"@ + spec_enc_opt_str(v.working_dir), ",\"timeout_seconds\":"@, spec_enc_opt_u64(v.timeout_seconds) + ("}"@ + rest));
    lemma_concat_associative("{\"working_dir\":"@, spec_enc_opt_str(v.working_dir), ",\"timeout_seconds\":"@ + (spec_enc_opt_u64(v.timeout_seconds) + ("}"@ + rest)));
    assert(s.skip(i) == "{\"working_dir\":"@ + (spec_enc_opt_str(v.working_dir) + (",\"timeout_seconds\":"@ + (spec_enc_opt_u64(v.timeout_seconds) + ("}"@ + rest)))));
    lemma_skip_concat(s, i, "{\"working_dir\":"@, spec_enc_opt_str(v.working_dir) + (",\"timeout_seconds\":"@ + (spec_enc_opt_u64(v.timeout_seconds) + ("}"@ + rest))));
    lemma_skip_concat(s, i + "{\"working_dir\":"@.len(), spec_enc_opt_str(v.working_dir), ",\"timeout_seconds\":"@ + (spec_enc_opt_u64(v.timeout_seconds) + ("}"@ + rest)));
    lemma_skip_concat(s, i + "{\"working_dir\":"@.len() + spec_enc_opt_str(v.working_dir).len(), ",\"timeout_seconds\":"@, spec_enc_opt_u64(v.timeout_seconds) + ("}"@ + rest));
    lemma_skip_concat(s, i + "{\"working_dir\":"@.len() + spec_enc_opt_str(v.working_dir).len() + ",\"timeout_seconds\":"@.len(), spec_enc_opt_u64(v.timeout_seconds), "}"@ + rest);
    lemma_skip_concat(s, i + "{\"working_dir\":"@.len() + spec_enc_opt_str(v.working_dir).len() + ",\"timeout_seconds\":"@.len() + spec_enc_opt_u64(v.timeout_seconds).len(), "}"@, rest);
}

/// Parse an environment configuration object at position `i`.
pub fn parse_environment(s: &str, i: usize) -> (r: Option<(EnvironmentOptions, usize)>)
    requires
        i <= s@.len(),
    ensures
        r matches Some(p) ==> i < p.1 <= s@.len(),
        forall|v: EnvironmentOptions, rest: Seq<char>|
            s@.skip(i as int) == spec_enc_environment(v) + rest ==> (r matches Some(p)
                && environment_eq(p.0, v) && p.1 == i + spec_enc_environment(v).len()),
{
    let j0 = match parse_lit(s, i, "{\"working_dir\":") {
        Option::None => {
            proof {
                assert forall|v: EnvironmentOptions, rest: Seq<char>|
                    s@.skip(i as int) == spec_enc_environment(v) + rest implies false by {
                    lemma_environment_parts(s@, i as int, v, rest);
                }
            }
            return None;
        },
        Option::Some(j) => j,
    };
    let (f_wd, j1) = match parse_opt_str(s, j0) {
        Option::None => {
            proof {
                assert forall|v: EnvironmentOptions, rest: Seq<char>|
                    s@.skip(i as int) == spec_enc_environment(v) + rest implies false by {
                    lemma_environment_parts(s@, i as int, v, rest);
                }
            }
            return None;
        },
        Option::Some(p) => p,
    };
    let j2 = match parse_lit(s, j1, ",\"timeout_seconds\":") {
        Option::None => {
            proof {
                assert forall|v: EnvironmentOptions, rest: Seq<char>|
                    s@.skip(i as int) == spec_enc_environment(v) + rest implies false by {
                    lemma_environment_parts(s@, i as int, v, rest);
                }
            }
            return None;
        },
        Option::Some(j) => j,
    };
    let (f_ts, j3) = match parse_opt_u64(s, j2) {
        Option::None => {
            proof {
                assert forall|v: EnvironmentOptions, rest: Seq<char>|
                    s@.skip(i as int) == spec_enc_environment(v) + rest implies false by {
                    lemma_environment_parts(s@, i as int, v, rest);
                }
            }
            return None;
        },
        Option::Some(p) => p,
    };
    let j4 = match parse_lit(s, j3, "}") {
        Option::None => {
            proof {
                assert forall|v: EnvironmentOptions, rest: Seq<char>|
                    s@.skip(i as int) == spec_enc_environment(v) + rest implies false by {
                    lemma_environment_parts(s@, i as int, v, rest);
                }
            }
            return None;
        },
        Option::Some(j) => j,
    };
    let out = EnvironmentOptions { working_dir: f_wd, timeout_seconds: f_ts };
    proof {
        assert forall|v: EnvironmentOptions, rest: Seq<char>|
            s@.skip(i as int) == spec_enc_environment(v) + rest implies (environment_eq(out, v) && j4 == i
            + spec_enc_environment(v).len()) by {
            lemma_environment_parts(s@, i as int, v, rest);
        }
    }
    Some((out, j4))
}

/// Decomposition of a suffix that equals an encoded toolbar button object.
proof fn lemma_button_parts(s: Seq<char>, i: int, v: ToolbarButton, rest: Seq<char>)
    requires
        0 <= i <= s.len(),
        s.skip(i) == spec_enc_button(v) + rest,
    ensures
        s.skip(i) == "{\"id\":"@ + (spec_enc_str(v.id@) + (",\"label\":"@ + (spec_enc_str(v.label@) + (",\"icon\":"@ + (spec_enc_opt_str(v.icon) + ("}"@ + rest)))))),
        s.skip(i + "{\"id\":"@.len()) == spec_enc_str(v.id@) + (",\"label\":"@ + (spec_enc_str(v.label@) + (",\"icon\":"@ + (spec_enc_opt_str(v.icon) + ("}"@ + rest))))),
        s.skip(i + "{\"id\":"@.len() + spec_enc_str(v.id@).len()) == ",\"label\":"@ + (spec_enc_str(v.label@) + (",\"icon\":"@ + (spec_enc_opt_str(v.icon) + ("}"@ + rest)))),
        s.skip(i + "{\"id\":"@.len() + spec_enc_str(v.id@).len() + ",\"label\":"@.len()) == spec_enc_str(v.label@) + (",\"icon\":"@ + (spec_enc_opt_str(v.icon) + ("}"@ + rest))),
        s.skip(i + "{\"id\":"@.len() + spec_enc_str(v.id@).len() + ",\"label\":"@.len() + spec_enc_str(v.label@).len()) == ",\"icon\":"@ + (spec_enc_opt_str(v.icon) + ("}"@ + rest)),
        s.skip(i + "{\"id\":"@.len() + spec_enc_str(v.id@).len() + ",\"label\":"@.len() + spec_enc_str(v.label@).len() + ",\"icon\":"@.len()) == spec_enc_opt_str(v.icon) + ("}"@ + rest),
        s.skip(i + "{\"id\":"@.len() + spec_enc_str(v.id@).len() + ",\"label\":"@.len() + spec_enc_str(v.label@).len() + ",\"icon\":"@.len() + spec_enc_opt_str(v.icon).len()) == "}"@ + rest,
{
    lemma_concat_associative("{\"id\":"@ + spec_enc_str(v.id@) + ",\"label\":"@ + spec_enc_str(v.label@) + ",\"icon\":"@ + spec_enc_opt_str(v.icon), "}"@, rest);
    lemma_concat_associative("{\"id\":"@ + spec_enc_str(v.id@) + ",\"label\":"@ + spec_enc_str(v.label@) + ",\"icon\":"@, spec_enc_opt_str(v.icon), "}"@ + rest);
    lemma_concat_associative("{\"id\":"@ + spec_enc_str(v.id@) + ",\"label\":"@ + spec_enc_str(v.label@), ",\"icon\":"@, spec_enc_opt_str(v.icon) + ("}"@ + rest));
    lemma_concat_associative("{\"id\":"@ + spec_enc_str(v.id@) + ",\"label\":"@, spec_enc_str(v.label@), ",\"icon\":"@ + (spec_enc_opt_str(v.icon) + ("}"@ + rest)));
    lemma_concat_associative("{\"id\":"@ + spec_enc_str(v.id@), ",\"label\":"@, spec_enc_str(v.label@) + (",\"icon\":"@ + (spec_enc_opt_str(v.icon) + ("}"@ + rest))));
    lemma_concat_associative("{\"id\":"@, spec_enc_str(v.id@), ",\"label\":"@ + (spec_enc_str(v.label@) + (",\"icon\":"@ + (spec_enc_opt_str(v.icon) + ("}"@ + rest)))));
    assert(s.skip(i) == "{\"id\":"@ + (spec_enc_str(v.id@) + (",\"label\":"@ + (spec_enc_str(v.label@) + (",\"icon\":"@ + (spec_enc_opt_str(v.icon) + ("}"@ + rest)))))));
    lemma_skip_concat(s, i, "{\"id\":"@, spec_enc_str(v.id@) + (",\"label\":"@ + (spec_enc_str(v.label@) + (",\"icon\":"@ + (spec_enc_opt_str(v.icon) + ("}"@ + rest))))));
    lemma_skip_concat(s, i + "{\"id\":"@.len(), spec_enc_str(v.id@), ",\"label\":"@ + (spec_enc_str(v.label@) + (",\"icon\":"@ + (spec_enc_opt_str(v.icon) + ("}"@ + rest)))));
    lemma_skip_concat(s, i + "{\"id\":"@.len() + spec_enc_str(v.id@).len(), ",\"label\":"@, spec_enc_str(v.label@) + (",\"icon\":"@ + (spec_enc_opt_str(v.icon) + ("}"@ + rest))));
    lemma_skip_concat(s, i + "{\"id\":"@.len() + spec_enc_str(v.id@).len() + ",\"label\":"@.len(), spec_enc_str(v.label@), ",\"icon\":"@ + (spec_enc_opt_str(v.icon) + ("}"@ + rest)));
    lemma_skip_concat(s, i + "{\"id\":"@.len() + spec_enc_str(v.id@).len() + ",\"label\":"@.len() + spec_enc_str(v.label@).len(), ",\"icon\":"@, spec_enc_opt_str(v.icon) + ("}"@ + rest));
    lemma_skip_concat(s, i + "{\"id\":"@.len() + spec_enc_str(v.id@).len() + ",\"label\":"@.len() + spec_enc_str(v.label@).len() + ",\"icon\":"@.len(), spec_enc_opt_str(v.icon), "}"@ + rest);
    lemma_skip_concat(s, i + "{\"id\":"@.len() + spec_enc_str(v.id@).len() + ",\"label\":"@.len() + spec_enc_str(v.label@).len() + ",\"icon\":"@.len() + spec_enc_opt_str(v.icon).len(), "}"@, rest);
}

/// Parse a toolbar button object at position `i`.
pub fn parse_button(s: &str, i: usize) -> (r: Option<(ToolbarButton, usize)>)
    requires
        i <= s@.len(),
    ensures
        r matches Some(p) ==> i < p.1 <= s@.len(),
        forall|v: ToolbarButton, rest: Seq<char>|
            s@.skip(i as int) == spec_enc_button(v) + rest ==> (r matches Some(p)
                && button_eq(p.0, v) && p.1 == i + spec_enc_button(v).len()),
{
    let j0 = match parse_lit(s, i, "{\"id\":") {
        Option::None => {
            proof {
                assert forall|v: ToolbarButton, rest: Seq<char>|
                    s@.skip(i as int) == spec_enc_button(v) + rest implies false by {
                    lemma_button_parts(s@, i as int, v, rest);
                }
            }
            return None;
        },
        Option::Some(j) => j,
    };
    let (f_id, j1) = match parse_json_str(s, j0) {
        Option::None => {
            proof {
                assert forall|v: ToolbarButton, rest: Seq<char>|
                    s@.skip(i as int) == spec_enc_button(v) + rest implies false by {
                    lemma_button_parts(s@, i as int, v, rest);
                }
            }
            return None;
        },
        Option::Some(p) => p,
    };
    let j2 = match parse_lit(s, j1, ",\"label\":") {
        Option::None => {
            proof {
                assert forall|v: ToolbarButton, rest: Seq<char>|
                    s@.skip(i as int) == spec_enc_button(v) + rest implies false by {
                    lemma_button_parts(s@, i as int, v, rest);
                }
            }
            return None;
        },
        Option::Some(j) => j,
    };
    let (f_lb, j3) = match parse_json_str(s, j2) {
        Option::None => {
            proof {
                assert forall|v: ToolbarButton, rest: Seq<char>|
                    s@.skip(i as int) == spec_enc_button(v) + rest implies false by {
                    lemma_button_parts(s@, i as int, v, rest);
                }
            }
            return None;
        },
        Option::Some(p) => p,
    };
    let j4 = match parse_lit(s, j3, ",\"icon\":") {
        Option::None => {
            proof {
                assert forall|v: ToolbarButton, rest: Seq<char>|
                    s@.skip(i as int) == spec_enc_button(v) + rest implies false by {
                    lemma_button_parts(s@, i as int, v, rest);
                }
            }
            return None;
        },
        Option::Some(j) => j,
    };
    let (f_ic, j5) = match parse_opt_str(s, j4) {
        Option::None => {
            proof {
                assert forall|v: ToolbarButton, rest: Seq<char>|
                    s@.skip(i as int) == spec_enc_button(v) + rest implies false by {
                    lemma_button_parts(s@, i as int, v, rest);
                }
            }
            return None;
        },
        Option::Some(p) => p,
    };
    let j6 = match parse_lit(s, j5, "}") {
        Option::None => {
            proof {
                assert forall|v: ToolbarButton, rest: Seq<char>|
                    s@.skip(i as int) == spec_enc_button(v) + rest implies false by {
                    lemma_button_parts(s@, i as int, v, rest);
                }
            }
            return None;
        },
        Option::Some(j) => j,
    };
    let out = ToolbarButton { id: f_id, label: f_lb, icon: f_ic };
    proof {
        assert forall|v: ToolbarButton, rest: Seq<char>|
            s@.skip(i as int) == spec_enc_button(v) + rest implies (button_eq(out, v) && j6 == i
            + spec_enc_button(v).len()) by {
            lemma_button_parts(s@, i as int, v, rest);
        }
    }
    Some((out, j6))
}

/// Decomposition of a suffix that equals an encoded toolbar configuration object.
proof fn lemma_toolbar_parts(s: Seq<char>, i: int, v: ToolbarOptions, rest: Seq<char>)
    requires
        0 <= i <= s.len(),
        s.skip(i) == spec_enc_toolbar(v) + rest,
    ensures
        s.skip(i) == "{\"show\":"@ + (spec_enc_bool(v.show) + (",\"title_text\":"@ + (spec_enc_opt_str(v.title_text) + (",\"background_color\":"@ + (spec_enc_opt_str(v.background_color) + (",\"text_color\":"@ + (spec_enc_opt_str(v.text_color) + (",\"buttons\":"@ + (spec_enc_button_vec(v.buttons@) + ("}"@ + rest)))))))))),
        s.skip(i + "{\"show\":"@.len()) == spec_enc_bool(v.show) + (",\"title_text\":"@ + (spec_enc_opt_str(v.title_text) + (",\"background_color\":"@ + (spec_enc_opt_str(v.background_color) + (",\"text_color\":"@ + (spec_enc_opt_str(v.text_color) + (",\"buttons\":"@ + (spec_enc_button_vec(v.buttons@) + ("}"@ + rest))))))))),
        s.skip(i + "{\"show\":"@.len() + spec_enc_bool(v.show).len()) == ",\"title_text\":"@ + (spec_enc_opt_str(v.title_text) + (",\"background_color\":"@ + (spec_enc_opt_str(v.background_color) + (",\"text_color\":"@ + (spec_enc_opt_str(v.text_color) + (",\"buttons\":"@ + (spec_enc_button_vec(v.buttons@) + ("}"@ + rest)))))))),
        s.skip(i + "{\"show\":"@.len() + spec_enc_bool(v.show).len() + ",\"title_text\":"@.len()) == spec_enc_opt_str(v.title_text) + (",\"background_color\":"@ + (spec_enc_opt_str(v.background_color) + (",\"text_color\":"@ + (spec_enc_opt_str(v.text_color) + (",\"buttons\":"@ + (spec_enc_button_vec(v.buttons@) + ("}"@ + rest))))))),
        s.skip(i + "{\"show\":"@.len() + spec_enc_bool(v.show).len() + ",\"title_text\":"@.len() + spec_enc_opt_str(v.title_text).len()) == ",\"background_color\":"@ + (spec_enc_opt_str(v.background_color) + (",\"text_color\":"@ + (spec_enc_opt_str(v.text_color) + (",\"buttons\":"@ + (spec_enc_button_vec(v.buttons@) + ("}"@ + rest)))))),
        s.skip(i + "{\"show\":"@.len() + spec_enc_bool(v.show).len() + ",\"title_text\":"@.len() + spec_enc_opt_str(v.title_text).len() + ",\"background_color\":"@.len()) == spec_enc_opt_str(v.background_color) + (",\"text_color\":"@ + (spec_enc_opt_str(v.text_color) + (",\"buttons\":"@ + (spec_enc_button_vec(v.buttons@) + ("}"@ + rest))))),
        s.skip(i + "{\"show\":"@.len() + spec_enc_bool(v.show).len() + ",\"title_text\":"@.len() + spec_enc_opt_str(v.title_text).len() + ",\"background_color\":"@.len() + spec_enc_opt_str(v.background_color).len()) == ",\"text_color\":"@ + (spec_enc_opt_str(v.text_color) + (",\"buttons\":"@ + (spec_enc_button_vec(v.buttons@) + ("}"@ + rest)))),
        s.skip(i + "{\"show\":"@.len() + spec_enc_bool(v.show).len() + ",\"title_text\":"@.len() + spec_enc_opt_str(v.title_text).len() + ",\"background_color\":"@.len() + spec_enc_opt_str(v.background_color).len() + ",\"text_color\":"@.len()) == spec_enc_opt_str(v.text_color) + (",\"buttons\":"@ + (spec_enc_button_vec(v.buttons@) + ("}"@ + rest))),
        s.skip(i + "{\"show\":"@.len() + spec_enc_bool(v.show).len() + ",\"title_text\":"@.len() + spec_enc_opt_str(v.title_text).len() + ",\"background_color\":"@.len() + spec_enc_opt_str(v.background_color).len() + ",\"text_color\":"@.len() + spec_enc_opt_str(v.text_color).len()) == ",\"buttons\":"@ + (spec_enc_button_vec(v.buttons@) + ("}"@ + rest)),
        s.skip(i + "{\"show\":"@.len() + spec_enc_bool(v.show).len() + ",\"title_text\":"@.len() + spec_enc_opt_str(v.title_text).len() + ",\"background_color\":"@.len() + spec_enc_opt_str(v.background_color).len() + ",\"text_color\":"@.len() + spec_enc_opt_str(v.text_color).len() + ",\"buttons\":"@.len()) == spec_enc_button_vec(v.buttons@) + ("}"@ + rest),
        s.skip(i + "{\"show\":"@.len() + spec_enc_bool(v.show).len() + ",\"title_text\":"@.len() + spec_enc_opt_str(v.title_text).len() + ",\"background_color\":"@.len() + spec_enc_opt_str(v.background_color).len() + ",\"text_color\":"@.len() + spec_enc_opt_str(v.text_color).len() + ",\"buttons\":"@.len() + spec_enc_button_vec(v.buttons@).len()) == "}"@ + rest,
{
    lemma_concat_associative("{\"show\":"@ + spec_enc_bool(v.show) + ",\"title_text\":"@ + spec_enc_opt_str(v.title_text) + ",\"background_color\":"@ + spec_enc_opt_str(v.background_color) + ",\"text_color\":"@ + spec_enc_opt_str(v.text_color) + ",\"buttons\":"@ + spec_enc_button_vec(v.buttons@), "}"@, rest);
    lemma_concat_associative("{\"show\":"@ + spec_enc_bool(v.show) + ",\"title_text\":"@ + spec_enc_opt_str(v.title_text) + ",\"background_color\":"@ + spec_enc_opt_str(v.background_color) + ",\"text_color\":"@ + spec_enc_opt_str(v.text_color) + ",\"buttons\":"@, spec_enc_button_vec(v.buttons@), "}"@ + rest);
    lemma_concat_associative("{\"show\":"@ + spec_enc_bool(v.show) + ",\"title_text\":"@ + spec_enc_opt_str(v.title_text) + ",\"background_color\":"@ + spec_enc_opt_str(v.background_color) + ",\"text_color\":"@ + spec_enc_opt_str(v.text_color), ",\"buttons\":"@, spec_enc_button_vec(v.buttons@) + ("}"@ + rest));
    lemma_concat_associative("{\"show\":"@ + spec_enc_bool(v.show) + ",\"title_text\":"@ + spec_enc_opt_str(v.title_text) + ",\"background_color\":"@ + spec_enc_opt_str(v.background_color) + ",\"text_color\":"@, spec_enc_opt_str(v.text_color), ",\"buttons\":"@ + (spec_enc_button_vec(v.buttons@) + ("}"@ + rest)));
    lemma_concat_associative("{\"show\":"@ + spec_enc_bool(v.show) + ",\"title_text\":"@ + spec_enc_opt_str(v.title_text) + ",\"background_color\":"@ + spec_enc_opt_str(v.background_color), ",\"text_color\":"@, spec_enc_opt_str(v.text_color) + (",\"buttons\":"@ + (spec_enc_button_vec(v.buttons@) + ("}"@ + rest))));
    lemma_concat_associative("{\"show\":"@ + spec_enc_bool(v.show) + ",\"title_text\":"@ + spec_enc_opt_str(v.title_text) + ",\"background_color\":"@, spec_enc_opt_str(v.background_color), ",\"text_color\":"@ + (spec_enc_opt_str(v.text_color) + (",\"buttons\":"@ + (spec_enc_button_vec(v.buttons@) + ("}"@ + rest)))));
    lemma_concat_associative("{\"show\":"@ + spec_enc_bool(v.show) + ",\"title_text\":"@ + spec_enc_opt_str(v.title_text), ",\"background_color\":"@, spec_enc_opt_str(v.background_color) + (",\"text_color\":"@ + (spec_enc_opt_str(v.text_color) + (",\"buttons\":"@ + (spec_enc_button_vec(v.buttons@) + ("}"@ + rest))))));
    lemma_concat_associative("{\"show\":"@ + spec_enc_bool(v.show) + ",\"title_text\":"@, spec_enc_opt_str(v.title_text), ",\"background_color\":"@ + (spec_enc_opt_str(v.background_color) + (",\"text_color\":"@ + (spec_enc_opt_str(v.text_color) + (",\"buttons\":"@ + (spec_enc_button_vec(v.buttons@) + ("}"@ + rest)))))));
    lemma_concat_associative("{\"show\":"@ + spec_enc_bool(v.show), ",\"title_text\":"@, spec_enc_opt_str(v.title_text) + (",\"background_color\":"@ + (spec_enc_opt_str(v.background_color) + (",\"text_color\":"@ + (spec_enc_opt_str(v.text_color) + (",\"buttons\":"@ + (spec_enc_button_vec(v.buttons@) + ("}"@ + rest))))))));
    lemma_concat_associative("{\"show\":"@, spec_enc_bool(v.show), ",\"title_text\":"@ + (spec_enc_opt_str(v.title_text) + (",\"background_color\":"@ + (spec_enc_opt_str(v.background_color) + (",\"text_color\":"@ + (spec_enc_opt_str(v.text_color) + (",\"buttons\":"@ + (spec_enc_button_vec(v.buttons@) + ("}"@ + rest)))))))));
    assert(s.skip(i) == "{\"show\":"@ + (spec_enc_bool(v.show) + (",\"title_text\":"@ + (spec_enc_opt_str(v.title_text) + (",\"background_color\":"@ + (spec_enc_opt_str(v.background_color) + (",\"text_color\":"@ + (spec_enc_opt_str(v.text_color) + (",\"buttons\":"@ + (spec_enc_button_vec(v.buttons@) + ("}"@ + rest)))))))))));
    lemma_skip_concat(s, i, "{\"show\":"@, spec_enc_bool(v.show) + (",\"title_text\":"@ + (spec_enc_opt_str(v.title_text) + (",\"background_color\":"@ + (spec_enc_opt_str(v.background_color) + (",\"text_color\":"@ + (spec_enc_opt_str(v.text_color) + (",\"buttons\":"@ + (spec_enc_button_vec(v.buttons@) + ("}"@ + rest))))))))));
    lemma_skip_concat(s, i + "{\"show\":"@.len(), spec_enc_bool(v.show), ",\"title_text\":"@ + (spec_enc_opt_str(v.title_text) + (",\"background_color\":"@ + (spec_enc_opt_str(v.background_color) + (",\"text_color\":"@ + (spec_enc_opt_str(v.text_color) + (",\"buttons\":"@ + (spec_enc_button_vec(v.buttons@) + ("}"@ + rest)))))))));
    lemma_skip_concat(s, i + "{\"show\":"@.len() + spec_enc_bool(v.show).len(), ",\"title_text\":"@, spec_enc_opt_str(v.title_text) + (",\"background_color\":"@ + (spec_enc_opt_str(v.background_color) + (",\"text_color\":"@ + (spec_enc_opt_str(v.text_color) + (",\"buttons\":"@ + (spec_enc_button_vec(v.buttons@) + ("}"@ + rest))))))));
    lemma_skip_concat(s, i + "{\"show\":"@.len() + spec_enc_bool(v.show).len() + ",\"title_text\":"@.len(), spec_enc_opt_str(v.title_text), ",\"background_color\":"@ + (spec_enc_opt_str(v.background_color) + (",\"text_color\":"@ + (spec_enc_opt_str(v.text_color) + (",\"buttons\":"@ + (spec_enc_button_vec(v.buttons@) + ("}"@ + rest)))))));
    lemma_skip_concat(s, i + "{\"show\":"@.len() + spec_enc_bool(v.show).len() + ",\"title_text\":"@.len() + spec_enc_opt_str(v.title_text).len(), ",\"background_color\":"@, spec_enc_opt_str(v.background_color) + (",\"text_color\":"@ + (spec_enc_opt_str(v.text_color) + (",\"buttons\":"@ + (spec_enc_button_vec(v.buttons@) + ("}"@ + rest))))));
    lemma_skip_concat(s, i + "{\"show\":"@.len() + spec_enc_bool(v.show).len() + ",\"title_text\":"@.len() + spec_enc_opt_str(v.title_text).len() + ",\"background_color\":"@.len(), spec_enc_opt_str(v.background_color), ",\"text_color\":"@ + (spec_enc_opt_str(v.text_color) + (",\"buttons\":"@ + (spec_enc_button_vec(v.buttons@) + ("}"@ + rest)))));
    lemma_skip_concat(s, i + "{\"show\":"@.len() + spec_enc_bool(v.show).len() + ",\"title_text\":"@.len() + spec_enc_opt_str(v.title_text).len() + ",\"background_color\":"@.len() + spec_enc_opt_str(v.background_color).len(), ",\"text_color\":"@, spec_enc_opt_str(v.text_color) + (",\"buttons\":"@ + (spec_enc_button_vec(v.buttons@) + ("}"@ + rest))));
    lemma_skip_concat(s, i + "{\"show\":"@.len() + spec_enc_bool(v.show).len() + ",\"title_text\":"@.len() + spec_enc_opt_str(v.title_text).len() + ",\"background_color\":"@.len() + spec_enc_opt_str(v.background_color).len() + ",\"text_color\":"@.len(), spec_enc_opt_str(v.text_color), ",\"buttons\":"@ + (spec_enc_button_vec(v.buttons@) + ("}"@ + rest)));
    lemma_skip_concat(s, i + "{\"show\":"@.len() + spec_enc_bool(v.show).len() + ",\"title_text\":"@.len() + spec_enc_opt_str(v.title_text).len() + ",\"background_color\":"@.len() + spec_enc_opt_str(v.background_color).len() + ",\"text_color\":"@.len() + spec_enc_opt_str(v.text_color).len(), ",\"buttons\":"@, spec_enc_button_vec(v.buttons@) + ("}"@ + rest));
    lemma_skip_concat(s, i + "{\"show\":"@.len() + spec_enc_bool(v.show).len() + ",\"title_text\":"@.len() + spec_enc_opt_str(v.title_text).len() + ",\"background_color\":"@.len() + spec_enc_opt_str(v.background_color).len() + ",\"text_color\":"@.len() + spec_enc_opt_str(v.text_color).len() + ",\"buttons\":"@.len(), spec_enc_button_vec(v.buttons@), "}"@ + rest);
    lemma_skip_concat(s, i + "{\"show\":"@.len() + spec_enc_bool(v.show).len() + ",\"title_text\":"@.len() + spec_enc_opt_str(v.title_text).len() + ",\"background_color\":"@.len() + spec_enc_opt_str(v.background_color).len() + ",\"text_color\":"@.len() + spec_enc_opt_str(v.text_color).len() + ",\"buttons\":"@.len() + spec_enc_button_vec(v.buttons@).len(), "}"@, rest);
}

/// Parse a toolbar configuration object at position `i`.
pub fn parse_toolbar(s: &str, i: usize) -> (r: Option<(ToolbarOptions, usize)>)
    requires
        i <= s@.len(),
    ensures
        r matches Some(p) ==> i < p.1 <= s@.len(),
        forall|v: ToolbarOptions, rest: Seq<char>|
            s@.skip(i as int) == spec_enc_toolbar(v) + rest ==> (r matches Some(p)
                && toolbar_eq(p.0, v) && p.1 == i + spec_enc_toolbar(v).len()),
{
    let j0 = match parse_lit(s, i, "{\"show\":") {
        Option::None => {
            proof {
                assert forall|v: ToolbarOptions, rest: Seq<char>|
                    s@.skip(i as int) == spec_enc_toolbar(v) + rest implies false by {
                    lemma_toolbar_parts(s@, i as int, v, rest);
                }
            }
            return None;
        },
        Option::Some(j) => j,
    };
    let (f_sh, j1) = match parse_bool(s, j0) {
        Option::None => {
            proof {
                assert forall|v: ToolbarOptions, rest: Seq<char>|
                    s@.skip(i as int) == spec_enc_toolbar(v) + rest implies false by {
                    lemma_toolbar_parts(s@, i as int, v, rest);
                }
            }
            return None;
        },
        Option::Some(p) => p,
    };
    let j2 = match parse_lit(s, j1, ",\"title_text\":") {
        Option::None => {
            proof {
                assert forall|v: ToolbarOptions, rest: Seq<char>|
                    s@.skip(i as int) == spec_enc_toolbar(v) + rest implies false by {
                    lemma_toolbar_parts(s@, i as int, v, rest);
                }
            }
            return None;
        },
        Option::Some(j) => j,
    };
    let (f_tt, j3) = match parse_opt_str(s, j2) {
        Option::None => {
            proof {
                assert forall|v: ToolbarOptions, rest: Seq<char>|
                    s@.skip(i as int) == spec_enc_toolbar(v) + rest implies false by {
                    lemma_toolbar_parts(s@, i as int, v, rest);
                }
            }
            return None;
        },
        Option::Some(p) => p,
    };
    let j4 = match parse_lit(s, j3, ",\"background_color\":") {
        Option::None => {
            proof {
                assert forall|v: ToolbarOptions, rest: Seq<char>|
                    s@.skip(i as int) == spec_enc_toolbar(v) + rest implies false by {
                    lemma_toolbar_parts(s@, i as int, v, rest);
                }
            }
            return None;
        },
        Option::Some(j) => j,
    };
    let (f_bg, j5) = match parse_opt_str(s, j4) {
        Option::None => {
            proof {
                assert forall|v: ToolbarOptions, rest: Seq<char>|
                    s@.skip(i as int) == spec_enc_toolbar(v) + rest implies false by {
                    lemma_toolbar_parts(s@, i as int, v, rest);
                }
            }
            return None;
        },
        Option::Some(p) => p,
    };
    let j6 = match parse_lit(s, j5, ",\"text_color\":") {
        Option::None => {
            proof {
                assert forall|v: ToolbarOptions, rest: Seq<char>|
                    s@.skip(i as int) == spec_enc_toolbar(v) + rest implies false by {
                    lemma_toolbar_parts(s@, i as int, v, rest);
                }
            }
            return None;
        },
        Option::Some(j) => j,
    };
    let (f_tc, j7) = match parse_opt_str(s, j6) {
        Option::None => {
            proof {
                assert forall|v: ToolbarOptions, rest: Seq<char>|
                    s@.skip(i as int) == spec_enc_toolbar(v) + rest implies false by {
                    lemma_toolbar_parts(s@, i as int, v, rest);
                }
            }
            return None;
        },
        Option::Some(p) => p,
    };
    let j8 = match parse_lit(s, j7, ",\"buttons\":") {
        Option::None => {
            proof {
                assert forall|v: ToolbarOptions, rest: Seq<char>|
                    s@.skip(i as int) == spec_enc_toolbar(v) + rest implies false by {
                    lemma_toolbar_parts(s@, i as int, v, rest);
                }
            }
            return None;
        },
        Option::Some(j) => j,
    };
    let (f_bt, j9) = match parse_button_vec(s, j8) {
        Option::None => {
            proof {
                assert forall|v: ToolbarOptions, rest: Seq<char>|
                    s@.skip(i as int) == spec_enc_toolbar(v) + rest implies false by {
                    lemma_toolbar_parts(s@, i as int, v, rest);
                }
            }
            return None;
        },
        Option::Some(p) => p,
    };
    let j10 = match parse_lit(s, j9, "}") {
        Option::None => {
            proof {
                assert forall|v: ToolbarOptions, rest: Seq<char>|
                    s@.skip(i as int) == spec_enc_toolbar(v) + rest implies false by {
                    lemma_toolbar_parts(s@, i as int, v, rest);
                }
            }
            return None;
        },
        Option::Some(j) => j,
    };
    let out = ToolbarOptions { show: f_sh, title_text: f_tt, background_color: f_bg, text_color: f_tc, buttons: f_bt };
    proof {
        assert forall|v: ToolbarOptions, rest: Seq<char>|
            s@.skip(i as int) == spec_enc_toolbar(v) + rest implies (toolbar_eq(out, v) && j10 == i
            + spec_enc_toolbar(v).len()) by {
            lemma_toolbar_parts(s@, i as int, v, rest);
        }
    }
    Some((out, j10))
}

/// Decomposition of a suffix that equals an encoded result artifact.
proof fn lemma_exit_status_parts(s: Seq<char>, i: int, v: ViewerExitStatus, rest: Seq<char>)
    requires
        0 <= i <= s.len(),
        s.skip(i) == spec_enc_exit_status(v) + rest,
    ensures
        s.skip(i) == "{\"id\":"@ + (spec_enc_str(v.id@) + (",\"reason\":"@ + (spec_enc_exit_reason(v.reason) + (",\"version\":"@ + (spec_enc_str(v.version@) + ("}"@ + rest)))))),
        s.skip(i + "{\"id\":"@.len()) == spec_enc_str(v.id@) + (",\"reason\":"@ + (spec_enc_exit_reason(v.reason) + (",\"version\":"@ + (spec_enc_str(v.version@) + ("}"@ + rest))))),
        s.skip(i + "{\"id\":"@.len() + spec_enc_str(v.id@).len()) == ",\"reason\":"@ + (spec_enc_exit_reason(v.reason) + (",\"version\":"@ + (spec_enc_str(v.version@) + ("}"@ + rest)))),
        s.skip(i + "{\"id\":"@.len() + spec_enc_str(v.id@).len() + ",\"reason\":"@.len()) == spec_enc_exit_reason(v.reason) + (",\"version\":"@ + (spec_enc_str(v.version@) + ("}"@ + rest))),
        s.skip(i + "{\"id\":"@.len() + spec_enc_str(v.id@).len() + ",\"reason\":"@.len() + spec_enc_exit_reason(v.reason).len()) == ",\"version\":"@ + (spec_enc_str(v.version@) + ("}"@ + rest)),
        s.skip(i + "{\"id\":"@.len() + spec_enc_str(v.id@).len() + ",\"reason\":"@.len() + spec_enc_exit_reason(v.reason).len() + ",\"version\":"@.len()) == spec_enc_str(v.version@) + ("}"@ + rest),
        s.skip(i + "{\"id\":"@.len() + spec_enc_str(v.id@).len() + ",\"reason\":"@.len() + spec_enc_exit_reason(v.reason).len() + ",\"version\":"@.len() + spec_enc_str(v.version@).len()) == "}"@ + rest,
{
    lemma_concat_associative("{\"id\":"@ + spec_enc_str(v.id@) + ",\"reason\":"@ + spec_enc_exit_reason(v.reason) + ",\"version\":"@ + spec_enc_str(v.version@), "}"@, rest);
    lemma_concat_associative("{\"id\":"@ + spec_enc_str(v.id@) + ",\"reason\":"@ + spec_enc_exit_reason(v.reason) + ",\"version\":"@, spec_enc_str(v.version@), "}"@ + rest);
    lemma_concat_associative("{\"id\":"@ + spec_enc_str(v.id@) + ",\"reason\":"@ + spec_enc_exit_reason(v.reason), ",\"version\":"@, spec_enc_str(v.version@) + ("}"@ + rest));
    lemma_concat_associative("{\"id\":"@ + spec_enc_str(v.id@) + ",\"reason\":"@, spec_enc_exit_reason(v.reason), ",\"version\":"@ + (spec_enc_str(v.version@) + ("}"@ + rest)));
    lemma_concat_associative("{\"id\":"@ + spec_enc_str(v.id@), ",\"reason\":"@, spec_enc_exit_reason(v.reason) + (",\"version\":"@ + (spec_enc_str(v.version@) + ("}"@ + rest))));
    lemma_concat_associative("{\"id\":"@, spec_enc_str(v.id@), ",\"reason\":"@ + (spec_enc_exit_reason(v.reason) + (",\"version\":"@ + (spec_enc_str(v.version@) + ("}"@ + rest)))));
    assert(s.skip(i) == "{\"id\":"@ + (spec_enc_str(v.id@) + (",\"reason\":"@ + (spec_enc_exit_reason(v.reason) + (",\"version\":"@ + (spec_enc_str(v.version@) + ("}"@ + rest)))))));
    lemma_skip_concat(s, i, "{\"id\":"@, spec_enc_str(v.id@) + (",\"reason\":"@ + (spec_enc_exit_reason(v.reason) + (",\"version\":"@ + (spec_enc_str(v.version@) + ("}"@ + rest))))));
    lemma_skip_concat(s, i + "{\"id\":"@.len(), spec_enc_str(v.id@), ",\"reason\":"@ + (spec_enc_exit_reason(v.reason) + (",\"version\":"@ + (spec_enc_str(v.version@) + ("}"@ + rest)))));
    lemma_skip_concat(s, i + "{\"id\":"@.len() + spec_enc_str(v.id@).len(), ",\"reason\":"@, spec_enc_exit_reason(v.reason) + (",\"version\":"@ + (spec_enc_str(v.version@) + ("}"@ + rest))));
    lemma_skip_concat(s, i + "{\"id\":"@.len() + spec_enc_str(v.id@).len() + ",\"reason\":"@.len(), spec_enc_exit_reason(v.reason), ",\"version\":"@ + (spec_enc_str(v.version@) + ("}"@ + rest)));
    lemma_skip_concat(s, i + "{\"id\":"@.len() + spec_enc_str(v.id@).len() + ",\"reason\":"@.len() + spec_enc_exit_reason(v.reason).len(), ",\"version\":"@, spec_enc_str(v.version@) + ("}"@ + rest));
    lemma_skip_concat(s, i + "{\"id\":"@.len() + spec_enc_str(v.id@).len() + ",\"reason\":"@.len() + spec_enc_exit_reason(v.reason).len() + ",\"version\":"@.len(), spec_enc_str(v.version@), "}"@ + rest);
    lemma_skip_concat(s, i + "{\"id\":"@.len() + spec_enc_str(v.id@).len() + ",\"reason\":"@.len() + spec_enc_exit_reason(v.reason).len() + ",\"version\":"@.len() + spec_enc_str(v.version@).len(), "}"@, rest);
}

/// Parse a result artifact at position `i`.
pub fn parse_exit_status(s: &str, i: usize) -> (r: Option<(ViewerExitStatus, usize)>)
    requires
        i <= s@.len(),
    ensures
        r matches Some(p) ==> i < p.1 <= s@.len() && s@.subrange(i as int, p.1 as int)
            == spec_enc_exit_status(p.0),
        forall|v: ViewerExitStatus, rest: Seq<char>|
            s@.skip(i as int) == spec_enc_exit_status(v) + rest ==> (r matches Some(p)
                && exit_status_eq(p.0, v) && p.1 == i + spec_enc_exit_status(v).len()),
{
    let j0 = match parse_lit(s, i, "{\"id\":") {
        Option::None => {
            proof {
                assert forall|v: ViewerExitStatus, rest: Seq<char>|
                    s@.skip(i as int) == spec_enc_exit_status(v) + rest implies false by {
                    lemma_exit_status_parts(s@, i as int, v, rest);
                }
            }
            return None;
        },
        Option::Some(j) => j,
    };
    let (f_id, j1) = match parse_json_str(s, j0) {
        Option::None => {
            proof {
                assert forall|v: ViewerExitStatus, rest: Seq<char>|
                    s@.skip(i as int) == spec_enc_exit_status(v) + rest implies false by {
                    lemma_exit_status_parts(s@, i as int, v, rest);
                }
            }
            return None;
        },
        Option::Some(p) => p,
    };
    let j2 = match parse_lit(s, j1, ",\"reason\":") {
        Option::None => {
            proof {
                assert forall|v: ViewerExitStatus, rest: Seq<char>|
                    s@.skip(i as int) == spec_enc_exit_status(v) + rest implies false by {
                    lemma_exit_status_parts(s@, i as int, v, rest);
                }
            }
            return None;
        },
        Option::Some(j) => j,
    };
    let (f_re, j3) = match parse_exit_reason(s, j2) {
        Option::None => {
            proof {
                assert forall|v: ViewerExitStatus, rest: Seq<char>|
                    s@.skip(i as int) == spec_enc_exit_status(v) + rest implies false by {
                    lemma_exit_status_parts(s@, i as int, v, rest);
                }
            }
            return None;
        },
        Option::Some(p) => p,
    };
    let j4 = match parse_lit(s, j3, ",\"version\":") {
        Option::None => {
            proof {
                assert forall|v: ViewerExitStatus, rest: Seq<char>|
                    s@.skip(i as int) == spec_enc_exit_status(v) + rest implies false by {
                    lemma_exit_status_parts(s@, i as int, v, rest);
                }
            }
            return None;
        },
        Option::Some(j) => j,
    };
    let (f_ve, j5) = match parse_json_str(s, j4) {
        Option::None => {
            proof {
                assert forall|v: ViewerExitStatus, rest: Seq<char>|
                    s@.skip(i as int) == spec_enc_exit_status(v) + rest implies false by {
                    lemma_exit_status_parts(s@, i as int, v, rest);
                }
            }
            return None;
        },
        Option::Some(p) => p,
    };
    let j6 = match parse_lit(s, j5, "}") {
        Option::None => {
            proof {
                assert forall|v: ViewerExitStatus, rest: Seq<char>|
                    s@.skip(i as int) == spec_enc_exit_status(v) + rest implies false by {
                    lemma_exit_status_parts(s@, i as int, v, rest);
                }
            }
            return None;
        },
        Option::Some(j) => j,
    };
    let out = ViewerExitStatus { id: f_id, reason: f_re, version: f_ve };
    proof {
        lemma_subrange_split(s@, i as int, j0 as int, j1 as int);
        lemma_subrange_split(s@, i as int, j1 as int, j2 as int);
        lemma_subrange_split(s@, i as int, j2 as int, j3 as int);
        lemma_subrange_split(s@, i as int, j3 as int, j4 as int);
        lemma_subrange_split(s@, i as int, j4 as int, j5 as int);
        lemma_subrange_split(s@, i as int, j5 as int, j6 as int);
        assert(s@.subrange(i as int, j6 as int) == spec_enc_exit_status(out));
        assert forall|v: ViewerExitStatus, rest: Seq<char>|
            s@.skip(i as int) == spec_enc_exit_status(v) + rest implies (exit_status_eq(out, v) && j6 == i
            + spec_enc_exit_status(v).len()) by {
            lemma_exit_status_parts(s@, i as int, v, rest);
        }
    }
    Some((out, j6))
}

/// Decomposition of a suffix that equals an encoded command artifact.
proof fn lemma_command_parts(s: Seq<char>, i: int, v: ViewerCommand, rest: Seq<char>)
    requires
        0 <= i <= s.len(),
        s.skip(i) == spec_enc_command(v) + rest,
    ensures
        s.skip(i) == "{\"seq\":"@ + (spec_enc_u64(v.seq) + (",\"content\":"@ + (spec_enc_content(v.content) + ("}"@ + rest)))),
        s.skip(i + "{\"seq\":"@.len()) == spec_enc_u64(v.seq) + (",\"content\":"@ + (spec_enc_content(v.content) + ("}"@ + rest))),
        s.skip(i + "{\"seq\":"@.len() + spec_enc_u64(v.seq).len()) == ",\"content\":"@ + (spec_enc_content(v.content) + ("}"@ + rest)),
        s.skip(i + "{\"seq\":"@.len() + spec_enc_u64(v.seq).len() + ",\"content\":"@.len()) == spec_enc_content(v.content) + ("}"@ + rest),
        s.skip(i + "{\"seq\":"@.len() + spec_enc_u64(v.seq).len() + ",\"content\":"@.len() + spec_enc_content(v.content).len()) == "}"@ + rest,
        !spec_is_digit((",\"content\":"@ + (spec_enc_content(v.content) + ("}"@ + rest)))[0]),
        (",\"content\":"@ + (spec_enc_content(v.content) + ("}"@ + rest))).len() > 0,
{
    reveal_strlit(",\"content\":");
    lemma_concat_associative("{\"seq\":"@ + spec_enc_u64(v.seq) + ",\"content\":"@ + spec_enc_content(v.content), "}"@, rest);
    lemma_concat_associative("{\"seq\":"@ + spec_enc_u64(v.seq) + ",\"content\":"@, spec_enc_content(v.content), "}"@ + rest);
    lemma_concat_associative("{\"seq\":"@ + spec_enc_u64(v.seq), ",\"content\":"@, spec_enc_content(v.content) + ("}"@ + rest));
    lemma_concat_associative("{\"seq\":"@, spec_enc_u64(v.seq), ",\"content\":"@ + (spec_enc_content(v.content) + ("}"@ + rest)));
    assert(s.skip(i) == "{\"seq\":"@ + (spec_enc_u64(v.seq) + (",\"content\":"@ + (spec_enc_content(v.content) + ("}"@ + rest)))));
    lemma_skip_concat(s, i, "{\"seq\":"@, spec_enc_u64(v.seq) + (",\"content\":"@ + (spec_enc_content(v.content) + ("}"@ + rest))));
    lemma_skip_concat(s, i + "{\"seq\":"@.len(), spec_enc_u64(v.seq), ",\"content\":"@ + (spec_enc_content(v.content) + ("}"@ + rest)));
    lemma_skip_concat(s, i + "{\"seq\":"@.len() + spec_enc_u64(v.seq).len(), ",\"content\":"@, spec_enc_content(v.content) + ("}"@ + rest));
    lemma_skip_concat(s, i + "{\"seq\":"@.len() + spec_enc_u64(v.seq).len() + ",\"content\":"@.len(), spec_enc_content(v.content), "}"@ + rest);
    lemma_skip_concat(s, i + "{\"seq\":"@.len() + spec_enc_u64(v.seq).len() + ",\"content\":"@.len() + spec_enc_content(v.content).len(), "}"@, rest);
}

/// Parse a command artifact at position `i`.
pub fn parse_command(s: &str, i: usize) -> (r: Option<(ViewerCommand, usize)>)
    requires
        i <= s@.len(),
    ensures
        r matches Some(p) ==> i < p.1 <= s@.len(),
        forall|v: ViewerCommand, rest: Seq<char>|
            s@.skip(i as int) == spec_enc_command(v) + rest ==> (r matches Some(p)
                && command_eq(p.0, v) && p.1 == i + spec_enc_command(v).len()),
{
    let j0 = match parse_lit(s, i, "{\"seq\":") {
        Option::None => {
            proof {
                assert forall|v: ViewerCommand, rest: Seq<char>|
                    s@.skip(i as int) == spec_enc_command(v) + rest implies false by {
                    lemma_command_parts(s@, i as int, v, rest);
                }
            }
            return None;
        },
        Option::Some(j) => j,
    };
    let (f_sq, j1) = match parse_u64(s, j0) {
        Option::None => {
            proof {
                assert forall|v: ViewerCommand, rest: Seq<char>|
                    s@.skip(i as int) == spec_enc_command(v) + rest implies false by {
                    lemma_command_parts(s@, i as int, v, rest);
                }
            }
            return None;
        },
        Option::Some(p) => p,
    };
    let j2 = match parse_lit(s, j1, ",\"content\":") {
        Option::None => {
            proof {
                assert forall|v: ViewerCommand, rest: Seq<char>|
                    s@.skip(i as int) == spec_enc_command(v) + rest implies false by {
                    lemma_command_parts(s@, i as int, v, rest);
                }
            }
            return None;
        },
        Option::Some(j) => j,
    };
    let (f_ct, j3) = match parse_content(s, j2) {
        Option::None => {
            proof {
                assert forall|v: ViewerCommand, rest: Seq<char>|
                    s@.skip(i as int) == spec_enc_command(v) + rest implies false by {
                    lemma_command_parts(s@, i as int, v, rest);
                }
            }
            return None;
        },
        Option::Some(p) => p,
    };
    let j4 = match parse_lit(s, j3, "}") {
        Option::None => {
            proof {
                assert forall|v: ViewerCommand, rest: Seq<char>|
                    s@.skip(i as int) == spec_enc_command(v) + rest implies false by {
                    lemma_command_parts(s@, i as int, v, rest);
                }
            }
            return None;
        },
        Option::Some(j) => j,
    };
    let out = ViewerCommand { seq: f_sq, content: f_ct };
    proof {
        assert forall|v: ViewerCommand, rest: Seq<char>|
            s@.skip(i as int) == spec_enc_command(v) + rest implies (command_eq(out, v) && j4 == i
            + spec_enc_command(v).len()) by {
            lemma_command_parts(s@, i as int, v, rest);
        }
    }
    Some((out, j4))
}

/// Decomposition of a suffix that equals an encoded command-response artifact.
proof fn lemma_command_response_parts(s: Seq<char>, i: int, v: ViewerCommandResponse, rest: Seq<char>)
    requires
        0 <= i <= s.len(),
        s.skip(i) == spec_enc_command_response(v) + rest,
    ensures
        s.skip(i) == "{\"seq\":"@ + (spec_enc_u64(v.seq) + (",\"success\":"@ + (spec_enc_bool(v.success) + (",\"error\":"@ + (spec_enc_opt_str(v.error) + ("}"@ + rest)))))),
        s.skip(i + "{\"seq\":"@.len()) == spec_enc_u64(v.seq) + (",\"success\":"@ + (spec_enc_bool(v.success) + (",\"error\":"@ + (spec_enc_opt_str(v.error) + ("}"@ + rest))))),
        s.skip(i + "{\"seq\":"@.len() + spec_enc_u64(v.seq).len()) == ",\"success\":"@ + (spec_enc_bool(v.success) + (",\"error\":"@ + (spec_enc_opt_str(v.error) + ("}"@ + rest)))),
        s.skip(i + "{\"seq\":"@.len() + spec_enc_u64(v.seq).len() + ",\"success\":"@.len()) == spec_enc_bool(v.success) + (",\"error\":"@ + (spec_enc_opt_str(v.error) + ("}"@ + rest))),
        s.skip(i + "{\"seq\":"@.len() + spec_enc_u64(v.seq).len() + ",\"success\":"@.len() + spec_enc_bool(v.success).len()) == ",\"error\":"@ + (spec_enc_opt_str(v.error) + ("}"@ + rest)),
        s.skip(i + "{\"seq\":"@.len() + spec_enc_u64(v.seq).len() + ",\"success\":"@.len() + spec_enc_bool(v.success).len() + ",\"error\":"@.len()) == spec_enc_opt_str(v.error) + ("}"@ + rest),
        s.skip(i + "{\"seq\":"@.len() + spec_enc_u64(v.seq).len() + ",\"success\":"@.len() + spec_enc_bool(v.success).len() + ",\"error\":"@.len() + spec_enc_opt_str(v.error).len()) == "}"@ + rest,
        !spec_is_digit((",\"success\":"@ + (spec_enc_bool(v.success) + (",\"error\":"@ + (spec_enc_opt_str(v.error) + ("}"@ + rest)))))[0]),
        (",\"success\":"@ + (spec_enc_bool(v.success) + (",\"error\":"@ + (spec_enc_opt_str(v.error) + ("}"@ + rest))))).len() > 0,
{
    reveal_strlit(",\"success\":");
    lemma_concat_associative("{\"seq\":"@ + spec_enc_u64(v.seq) + ",\"success\":"@ + spec_enc_bool(v.success) + ",\"error\":"@ + spec_enc_opt_str(v.error), "}"@, rest);
    lemma_concat_associative("{\"seq\":"@ + spec_enc_u64(v.seq) + ",\"success\":"@ + spec_enc_bool(v.success) + ",\"error\":"@, spec_enc_opt_str(v.error), "}"@ + rest);
    lemma_concat_associative("{\"seq\":"@ + spec_enc_u64(v.seq) + ",\"success\":"@ + spec_enc_bool(v.success), ",\"error\":"@, spec_enc_opt_str(v.error) + ("}"@ + rest));
    lemma_concat_associative("{\"seq\":"@ + spec_enc_u64(v.seq) + ",\"success\":"@, spec_enc_bool(v.success), ",\"error\":"@ + (spec_enc_opt_str(v.error) + ("}"@ + rest)));
    lemma_concat_associative("{\"seq\":"@ + spec_enc_u64(v.seq), ",\"success\":"@, spec_enc_bool(v.success) + (",\"error\":"@ + (spec_enc_opt_str(v.error) + ("}"@ + rest))));
    lemma_concat_associative("{\"seq\":"@, spec_enc_u64(v.seq), ",\"success\":"@ + (spec_enc_bool(v.success) + (",\"error\":"@ + (spec_enc_opt_str(v.error) + ("}"@ + rest)))));
    assert(s.skip(i) == "{\"seq\":"@ + (spec_enc_u64(v.seq) + (",\"success\":"@ + (spec_enc_bool(v.success) + (",\"error\":"@ + (spec_enc_opt_str(v.error) + ("}"@ + rest)))))));
    lemma_skip_concat(s, i, "{\"seq\":"@, spec_enc_u64(v.seq) + (",\"success\":"@ + (spec_enc_bool(v.success) + (",\"error\":"@ + (spec_enc_opt_str(v.error) + ("}"@ + rest))))));
    lemma_skip_concat(s, i + "{\"seq\":"@.len(), spec_enc_u64(v.seq), ",\"success\":"@ + (spec_enc_bool(v.success) + (",\"error\":"@ + (spec_enc_opt_str(v.error) + ("}"@ + rest)))));
    lemma_skip_concat(s, i + "{\"seq\":"@.len() + spec_enc_u64(v.seq).len(), ",\"success\":"@, spec_enc_bool(v.success) + (",\"error\":"@ + (spec_enc_opt_str(v.error) + ("}"@ + rest))));
    lemma_skip_concat(s, i + "{\"seq\":"@.len() + spec_enc_u64(v.seq).len() + ",\"success\":"@.len(), spec_enc_bool(v.success), ",\"error\":"@ + (spec_enc_opt_str(v.error) + ("}"@ + rest)));
    lemma_skip_concat(s, i + "{\"seq\":"@.len() + spec_enc_u64(v.seq).len() + ",\"success\":"@.len() + spec_enc_bool(v.success).len(), ",\"error\":"@, spec_enc_opt_str(v.error) + ("}"@ + rest));
    lemma_skip_concat(s, i + "{\"seq\":"@.len() + spec_enc_u64(v.seq).len() + ",\"success\":"@.len() + spec_enc_bool(v.success).len() + ",\"error\":"@.len(), spec_enc_opt_str(v.error), "}"@ + rest);
    lemma_skip_concat(s, i + "{\"seq\":"@.len() + spec_enc_u64(v.seq).len() + ",\"success\":"@.len() + spec_enc_bool(v.success).len() + ",\"error\":"@.len() + spec_enc_opt_str(v.error).len(), "}"@, rest);
}

/// Parse a command-response artifact at position `i`.
pub fn parse_command_response(s: &str, i: usize) -> (r: Option<(ViewerCommandResponse, usize)>)
    requires
        i <= s@.len(),
    ensures
        r matches Some(p) ==> i < p.1 <= s@.len() && s@.subrange(i as int, p.1 as int)
            == spec_enc_command_response(p.0),
        forall|v: ViewerCommandResponse, rest: Seq<char>|
            s@.skip(i as int) == spec_enc_command_response(v) + rest ==> (r matches Some(p)
                && command_response_eq(p.0, v) && p.1 == i + spec_enc_command_response(v).len()),
{
    let j0 = match parse_lit(s, i, "{\"seq\":") {
        Option::None => {
            proof {
                assert forall|v: ViewerCommandResponse, rest: Seq<char>|
                    s@.skip(i as int) == spec_enc_command_response(v) + rest implies false by {
                    lemma_command_response_parts(s@, i as int, v, rest);
                }
            }
            return None;
        },
        Option::Some(j) => j,
    };
    let (f_sq, j1) = match parse_u64(s, j0) {
        Option::None => {
            proof {
                assert forall|v: ViewerCommandResponse, rest: Seq<char>|
                    s@.skip(i as int) == spec_enc_command_response(v) + rest implies false by {
                    lemma_command_response_parts(s@, i as int, v, rest);
                }
            }
            return None;
        },
        Option::Some(p) => p,
    };
    let j2 = match parse_lit(s, j1, ",\"success\":") {
        Option::None => {
            proof {
                assert forall|v: ViewerCommandResponse, rest: Seq<char>|
                    s@.skip(i as int) == spec_enc_command_response(v) + rest implies false by {
                    lemma_command_response_parts(s@, i as int, v, rest);
                }
            }
            return None;
        },
        Option::Some(j) => j,
    };
    let (f_su, j3) = match parse_bool(s, j2) {
        Option::None => {
            proof {
                assert forall|v: ViewerCommandResponse, rest: Seq<char>|
                    s@.skip(i as int) == spec_enc_command_response(v) + rest implies false by {
                    lemma_command_response_parts(s@, i as int, v, rest);
                }
            }
            return None;
        },
        Option::Some(p) => p,
    };
    let j4 = match parse_lit(s, j3, ",\"error\":") {
        Option::None => {
            proof {
                assert forall|v: ViewerCommandResponse, rest: Seq<char>|
                    s@.skip(i as int) == spec_enc_command_response(v) + rest implies false by {
                    lemma_command_response_parts(s@, i as int, v, rest);
                }
            }
            return None;
        },
        Option::Some(j) => j,
    };
    let (f_er, j5) = match parse_opt_str(s, j4) {
        Option::None => {
            proof {
                assert forall|v: ViewerCommandResponse, rest: Seq<char>|
                    s@.skip(i as int) == spec_enc_command_response(v) + rest implies false by {
                    lemma_command_response_parts(s@, i as int, v, rest);
                }
            }
            return None;
        },
        Option::Some(p) => p,
    };
    let j6 = match parse_lit(s, j5, "}") {
        Option::None => {
            proof {
                assert forall|v: ViewerCommandResponse, rest: Seq<char>|
                    s@.skip(i as int) == spec_enc_command_response(v) + rest implies false by {
                    lemma_command_response_parts(s@, i as int, v, rest);
                }
            }
            return None;
        },
        Option::Some(j) => j,
    };
    let out = ViewerCommandResponse { seq: f_sq, success: f_su, error: f_er };
    proof {
        lemma_subrange_split(s@, i as int, j0 as int, j1 as int);
        lemma_subrange_split(s@, i as int, j1 as int, j2 as int);
        lemma_subrange_split(s@, i as int, j2 as int, j3 as int);
        lemma_subrange_split(s@, i as int, j3 as int, j4 as int);
        lemma_subrange_split(s@, i as int, j4 as int, j5 as int);
        lemma_subrange_split(s@, i as int, j5 as int, j6 as int);
        assert(s@.subrange(i as int, j6 as int) == spec_enc_command_response(out));
        assert forall|v: ViewerCommandResponse, rest: Seq<char>|
            s@.skip(i as int) == spec_enc_command_response(v) + rest implies (command_response_eq(out, v) && j6 == i
            + spec_enc_command_response(v).len()) by {
            lemma_command_response_parts(s@, i as int, v, rest);
        }
    }
    Some((out, j6))
}

/// One span of the encoding handled by a chunk parser.
pub open spec fn spec_enc_window_a(v: WindowOptions) -> Seq<char> {
    "{\"title\":"@ + spec_enc_opt_str(v.title) + ",\"width\":"@ + spec_enc_opt_u32(v.width) + ",\"height\":"@ + spec_enc_opt_u32(v.height) + ",\"x\":"@ + spec_enc_opt_i32(v.x) + ",\"y\":"@ + spec_enc_opt_i32(v.y)
}

/// One span of the encoding handled by a chunk parser.
pub open spec fn spec_enc_window_b(v: WindowOptions) -> Seq<char> {
    ",\"resizable\":"@ + spec_enc_bool(v.resizable) + ",\"maximised\":"@ + spec_enc_bool(v.maximised)
}

/// One span of the encoding handled by a chunk parser.
pub open spec fn spec_enc_window_c(v: WindowOptions) -> Seq<char> {
    ",\"fullscreen\":"@ + spec_enc_bool(v.fullscreen) + ",\"decorations\":"@ + spec_enc_bool(v.decorations)
}

/// One span of the encoding handled by a chunk parser.
pub open spec fn spec_enc_window_d(v: WindowOptions) -> Seq<char> {
    ",\"transparent\":"@ + spec_enc_bool(v.transparent) + ",\"always_on_top\":"@ + spec_enc_bool(v.always_on_top)
}

/// One span of the encoding handled by a chunk parser.
pub open spec fn spec_enc_window_e(v: WindowOptions) -> Seq<char> {
    ",\"theme\":"@ + spec_enc_opt_str(v.theme) + ",\"background_color\":"@ + spec_enc_opt_str(v.background_color) + ",\"toolbar\":"@ + spec_enc_toolbar(v.toolbar) + "}"@
}

proof fn lemma_window_a_parts(s: Seq<char>, i: int, v: WindowOptions, rest: Seq<char>)
    requires
        0 <= i <= s.len(),
        s.skip(i) == spec_enc_window_a(v) + rest,
        rest.len() > 0 ==> !spec_is_digit(rest[0]),
    ensures
        s.skip(i) == "{\"title\":"@ + (spec_enc_opt_str(v.title) + (",\"width\":"@ + (spec_enc_opt_u32(v.width) + (",\"height\":"@ + (spec_enc_opt_u32(v.height) + (",\"x\":"@ + (spec_enc_opt_i32(v.x) + (",\"y\":"@ + (spec_enc_opt_i32(v.y) + rest))))))))),
        s.skip(i + "{\"title\":"@.len()) == spec_enc_opt_str(v.title) + (",\"width\":"@ + (spec_enc_opt_u32(v.width) + (",\"height\":"@ + (spec_enc_opt_u32(v.height) + (",\"x\":"@ + (spec_enc_opt_i32(v.x) + (",\"y\":"@ + (spec_enc_opt_i32(v.y) + rest)))))))),
        s.skip(i + "{\"title\":"@.len() + spec_enc_opt_str(v.title).len()) == ",\"width\":"@ + (spec_enc_opt_u32(v.width) + (",\"height\":"@ + (spec_enc_opt_u32(v.height) + (",\"x\":"@ + (spec_enc_opt_i32(v.x) + (",\"y\":"@ + (spec_enc_opt_i32(v.y) + rest))))))),
        s.skip(i + "{\"title\":"@.len() + spec_enc_opt_str(v.title).len() + ",\"width\":"@.len()) == spec_enc_opt_u32(v.width) + (",\"height\":"@ + (spec_enc_opt_u32(v.height) + (",\"x\":"@ + (spec_enc_opt_i32(v.x) + (",\"y\":"@ + (spec_enc_opt_i32(v.y) + rest)))))),
        s.skip(i + "{\"title\":"@.len() + spec_enc_opt_str(v.title).len() + ",\"width\":"@.len() + spec_enc_opt_u32(v.width).len()) == ",\"height\":"@ + (spec_enc_opt_u32(v.height) + (",\"x\":"@ + (spec_enc_opt_i32(v.x) + (",\"y\":"@ + (spec_enc_opt_i32(v.y) + rest))))),
        s.skip(i + "{\"title\":"@.len() + spec_enc_opt_str(v.title).len() + ",\"width\":"@.len() + spec_enc_opt_u32(v.width).len() + ",\"height\":"@.len()) == spec_enc_opt_u32(v.height) + (",\"x\":"@ + (spec_enc_opt_i32(v.x) + (",\"y\":"@ + (spec_enc_opt_i32(v.y) + rest)))),
        s.skip(i + "{\"title\":"@.len() + spec_enc_opt_str(v.title).len() + ",\"width\":"@.len() + spec_enc_opt_u32(v.width).len() + ",\"height\":"@.len() + spec_enc_opt_u32(v.height).len()) == ",\"x\":"@ + (spec_enc_opt_i32(v.x) + (",\"y\":"@ + (spec_enc_opt_i32(v.y) + rest))),
        s.skip(i + "{\"title\":"@.len() + spec_enc_opt_str(v.title).len() + ",\"width\":"@.len() + spec_enc_opt_u32(v.width).len() + ",\"height\":"@.len() + spec_enc_opt_u32(v.height).len() + ",\"x\":"@.len()) == spec_enc_opt_i32(v.x) + (",\"y\":"@ + (spec_enc_opt_i32(v.y) + rest)),
        s.skip(i + "{\"title\":"@.len() + spec_enc_opt_str(v.title).len() + ",\"width\":"@.len() + spec_enc_opt_u32(v.width).len() + ",\"height\":"@.len() + spec_enc_opt_u32(v.height).len() + ",\"x\":"@.len() + spec_enc_opt_i32(v.x).len()) == ",\"y\":"@ + (spec_enc_opt_i32(v.y) + rest),
        s.skip(i + "{\"title\":"@.len() + spec_enc_opt_str(v.title).len() + ",\"width\":"@.len() + spec_enc_opt_u32(v.width).len() + ",\"height\":"@.len() + spec_enc_opt_u32(v.height).len() + ",\"x\":"@.len() + spec_enc_opt_i32(v.x).len() + ",\"y\":"@.len()) == spec_enc_opt_i32(v.y) + rest,
        !spec_is_digit((",\"height\":"@ + (spec_enc_opt_u32(v.height) + (",\"x\":"@ + (spec_enc_opt_i32(v.x) + (",\"y\":"@ + (spec_enc_opt_i32(v.y) + rest))))))[0]),
        (",\"height\":"@ + (spec_enc_opt_u32(v.height) + (",\"x\":"@ + (spec_enc_opt_i32(v.x) + (",\"y\":"@ + (spec_enc_opt_i32(v.y) + rest)))))).len() > 0,
        !spec_is_digit((",\"x\":"@ + (spec_enc_opt_i32(v.x) + (",\"y\":"@ + (spec_enc_opt_i32(v.y) + rest))))[0]),
        (",\"x\":"@ + (spec_enc_opt_i32(v.x) + (",\"y\":"@ + (spec_enc_opt_i32(v.y) + rest)))).len() > 0,
        !spec_is_digit((",\"y\":"@ + (spec_enc_opt_i32(v.y) + rest))[0]),
        (",\"y\":"@ + (spec_enc_opt_i32(v.y) + rest)).len() > 0,
{
    reveal_strlit(",\"height\":");
    reveal_strlit(",\"x\":");
    reveal_strlit(",\"y\":");
    lemma_concat_associative("{\"title\":"@ + spec_enc_opt_str(v.title) + ",\"width\":"@ + spec_enc_opt_u32(v.width) + ",\"height\":"@ + spec_enc_opt_u32(v.height) + ",\"x\":"@ + spec_enc_opt_i32(v.x) + ",\"y\":"@, spec_enc_opt_i32(v.y), rest);
    lemma_concat_associative("{\"title\":"@ + spec_enc_opt_str(v.title) + ",\"width\":"@ + spec_enc_opt_u32(v.width) + ",\"height\":"@ + spec_enc_opt_u32(v.height) + ",\"x\":"@ + spec_enc_opt_i32(v.x), ",\"y\":"@, spec_enc_opt_i32(v.y) + rest);
    lemma_concat_associative("{\"title\":"@ + spec_enc_opt_str(v.title) + ",\"width\":"@ + spec_enc_opt_u32(v.width) + ",\"height\":"@ + spec_enc_opt_u32(v.height) + ",\"x\":"@, spec_enc_opt_i32(v.x), ",\"y\":"@ + (spec_enc_opt_i32(v.y) + rest));
    lemma_concat_associative("{\"title\":"@ + spec_enc_opt_str(v.title) + ",\"width\":"@ + spec_enc_opt_u32(v.width) + ",\"height\":"@ + spec_enc_opt_u32(v.height), ",\"x\":"@, spec_enc_opt_i32(v.x) + (",\"y\":"@ + (spec_enc_opt_i32(v.y) + rest)));
    lemma_concat_associative("{\"title\":"@ + spec_enc_opt_str(v.title) + ",\"width\":"@ + spec_enc_opt_u32(v.width) + ",\"height\":"@, spec_enc_opt_u32(v.height), ",\"x\":"@ + (spec_enc_opt_i32(v.x) + (",\"y\":"@ + (spec_enc_opt_i32(v.y) + rest))));
    lemma_concat_associative("{\"title\":"@ + spec_enc_opt_str(v.title) + ",\"width\":"@ + spec_enc_opt_u32(v.width), ",\"height\":"@, spec_enc_opt_u32(v.height) + (",\"x\":"@ + (spec_enc_opt_i32(v.x) + (",\"y\":"@ + (spec_enc_opt_i32(v.y) + rest)))));
    lemma_concat_associative("{\"title\":"@ + spec_enc_opt_str(v.title) + ",\"width\":"@, spec_enc_opt_u32(v.width), ",\"height\":"@ + (spec_enc_opt_u32(v.height) + (",\"x\":"@ + (spec_enc_opt_i32(v.x) + (",\"y\":"@ + (spec_enc_opt_i32(v.y) + rest))))));
    lemma_concat_associative("{\"title\":"@ + spec_enc_opt_str(v.title), ",\"width\":"@, spec_enc_opt_u32(v.width) + (",\"height\":"@ + (spec_enc_opt_u32(v.height) + (",\"x\":"@ + (spec_enc_opt_i32(v.x) + (",\"y\":"@ + (spec_enc_opt_i32(v.y) + rest)))))));
    lemma_concat_associative("{\"title\":"@, spec_enc_opt_str(v.title), ",\"width\":"@ + (spec_enc_opt_u32(v.width) + (",\"height\":"@ + (spec_enc_opt_u32(v.height) + (",\"x\":"@ + (spec_enc_opt_i32(v.x) + (",\"y\":"@ + (spec_enc_opt_i32(v.y) + rest))))))));
    assert(s.skip(i) == "{\"title\":"@ + (spec_enc_opt_str(v.title) + (",\"width\":"@ + (spec_enc_opt_u32(v.width) + (",\"height\":"@ + (spec_enc_opt_u32(v.height) + (",\"x\":"@ + (spec_enc_opt_i32(v.x) + (",\"y\":"@ + (spec_enc_opt_i32(v.y) + rest))))))))));
    lemma_skip_concat(s, i, "{\"title\":"@, spec_enc_opt_str(v.title) + (",\"width\":"@ + (spec_enc_opt_u32(v.width) + (",\"height\":"@ + (spec_enc_opt_u32(v.height) + (",\"x\":"@ + (spec_enc_opt_i32(v.x) + (",\"y\":"@ + (spec_enc_opt_i32(v.y) + rest)))))))));
    lemma_skip_concat(s, i + "{\"title\":"@.len(), spec_enc_opt_str(v.title), ",\"width\":"@ + (spec_enc_opt_u32(v.width) + (",\"height\":"@ + (spec_enc_opt_u32(v.height) + (",\"x\":"@ + (spec_enc_opt_i32(v.x) + (",\"y\":"@ + (spec_enc_opt_i32(v.y) + rest))))))));
    lemma_skip_concat(s, i + "{\"title\":"@.len() + spec_enc_opt_str(v.title).len(), ",\"width\":"@, spec_enc_opt_u32(v.width) + (",\"height\":"@ + (spec_enc_opt_u32(v.height) + (",\"x\":"@ + (spec_enc_opt_i32(v.x) + (",\"y\":"@ + (spec_enc_opt_i32(v.y) + rest)))))));
    lemma_skip_concat(s, i + "{\"title\":"@.len() + spec_enc_opt_str(v.title).len() + ",\"width\":"@.len(), spec_enc_opt_u32(v.width), ",\"height\":"@ + (spec_enc_opt_u32(v.height) + (",\"x\":"@ + (spec_enc_opt_i32(v.x) + (",\"y\":"@ + (spec_enc_opt_i32(v.y) + rest))))));
    lemma_skip_concat(s, i + "{\"title\":"@.len() + spec_enc_opt_str(v.title).len() + ",\"width\":"@.len() + spec_enc_opt_u32(v.width).len(), ",\"height\":"@, spec_enc_opt_u32(v.height) + (",\"x\":"@ + (spec_enc_opt_i32(v.x) + (",\"y\":"@ + (spec_enc_opt_i32(v.y) + rest)))));
    lemma_skip_concat(s, i + "{\"title\":"@.len() + spec_enc_opt_str(v.title).len() + ",\"width\":"@.len() + spec_enc_opt_u32(v.width).len() + ",\"height\":"@.len(), spec_enc_opt_u32(v.height), ",\"x\":"@ + (spec_enc_opt_i32(v.x) + (",\"y\":"@ + (spec_enc_opt_i32(v.y) + rest))));
    lemma_skip_concat(s, i + "{\"title\":"@.len() + spec_enc_opt_str(v.title).len() + ",\"width\":"@.len() + spec_enc_opt_u32(v.width).len() + ",\"height\":"@.len() + spec_enc_opt_u32(v.height).len(), ",\"x\":"@, spec_enc_opt_i32(v.x) + (",\"y\":"@ + (spec_enc_opt_i32(v.y) + rest)));
    lemma_skip_concat(s, i + "{\"title\":"@.len() + spec_enc_opt_str(v.title).len() + ",\"width\":"@.len() + spec_enc_opt_u32(v.width).len() + ",\"height\":"@.len() + spec_enc_opt_u32(v.height).len() + ",\"x\":"@.len(), spec_enc_opt_i32(v.x), ",\"y\":"@ + (spec_enc_opt_i32(v.y) + rest));
    lemma_skip_concat(s, i + "{\"title\":"@.len() + spec_enc_opt_str(v.title).len() + ",\"width\":"@.len() + spec_enc_opt_u32(v.width).len() + ",\"height\":"@.len() + spec_enc_opt_u32(v.height).len() + ",\"x\":"@.len() + spec_enc_opt_i32(v.x).len(), ",\"y\":"@, spec_enc_opt_i32(v.y) + rest);
    lemma_skip_concat(s, i + "{\"title\":"@.len() + spec_enc_opt_str(v.title).len() + ",\"width\":"@.len() + spec_enc_opt_u32(v.width).len() + ",\"height\":"@.len() + spec_enc_opt_u32(v.height).len() + ",\"x\":"@.len() + spec_enc_opt_i32(v.x).len() + ",\"y\":"@.len(), spec_enc_opt_i32(v.y), rest);
}

/// Parse one span of a window configuration object at position `i`.
fn parse_window_a(s: &str, i: usize) -> (r: Option<((Option<String>, Option<u32>, Option<u32>, Option<i32>, Option<i32>), usize)>)
    requires
        i <= s@.len(),
    ensures
        r matches Some(p) ==> i <= p.1 <= s@.len(),
        forall|v: WindowOptions, rest: Seq<char>|
            s@.skip(i as int) == spec_enc_window_a(v) + rest && (rest.len() > 0 ==> !spec_is_digit(rest[0])) ==> (r matches Some(p)
                && opt_str_eq(p.0.0, v.title) && p.0.1 == v.width && p.0.2 == v.height && p.0.3 == v.x && p.0.4 == v.y && p.1 == i + spec_enc_window_a(v).len()),
{
    let j0 = match parse_lit(s, i, "{\"title\":") {
        Option::None => {
            proof {
                assert forall|v: WindowOptions, rest: Seq<char>|
                    s@.skip(i as int) == spec_enc_window_a(v) + rest && (rest.len() > 0 ==> !spec_is_digit(rest[0])) implies false by {
                    lemma_window_a_parts(s@, i as int, v, rest);
                }
            }
            return None;
        },
        Option::Some(j) => j,
    };
    let (f_ti, j1) = match parse_opt_str(s, j0) {
        Option::None => {
            proof {
                assert forall|v: WindowOptions, rest: Seq<char>|
                    s@.skip(i as int) == spec_enc_window_a(v) + rest && (rest.len() > 0 ==> !spec_is_digit(rest[0])) implies false by {
                    lemma_window_a_parts(s@, i as int, v, rest);
                }
            }
            return None;
        },
        Option::Some(p) => p,
    };
    let j2 = match parse_lit(s, j1, ",\"width\":") {
        Option::None => {
            proof {
                assert forall|v: WindowOptions, rest: Seq<char>|
                    s@.skip(i as int) == spec_enc_window_a(v) + rest && (rest.len() > 0 ==> !spec_is_digit(rest[0])) implies false by {
                    lemma_window_a_parts(s@, i as int, v, rest);
                }
            }
            return None;
        },
        Option::Some(j) => j,
    };
    let (f_w, j3) = match parse_opt_u32(s, j2) {
        Option::None => {
            proof {
                assert forall|v: WindowOptions, rest: Seq<char>|
                    s@.skip(i as int) == spec_enc_window_a(v) + rest && (rest.len() > 0 ==> !spec_is_digit(rest[0])) implies false by {
                    lemma_window_a_parts(s@, i as int, v, rest);
                }
            }
            return None;
        },
        Option::Some(p) => p,
    };
    let j4 = match parse_lit(s, j3, ",\"height\":") {
        Option::None => {
            proof {
                assert forall|v: WindowOptions, rest: Seq<char>|
                    s@.skip(i as int) == spec_enc_window_a(v) + rest && (rest.len() > 0 ==> !spec_is_digit(rest[0])) implies false by {
                    lemma_window_a_parts(s@, i as int, v, rest);
                }
            }
            return None;
        },
        Option::Some(j) => j,
    };
    let (f_h, j5) = match parse_opt_u32(s, j4) {
        Option::None => {
            proof {
                assert forall|v: WindowOptions, rest: Seq<char>|
                    s@.skip(i as int) == spec_enc_window_a(v) + rest && (rest.len() > 0 ==> !spec_is_digit(rest[0])) implies false by {
                    lemma_window_a_parts(s@, i as int, v, rest);
                }
            }
            return None;
        },
        Option::Some(p) => p,
    };
    let j6 = match parse_lit(s, j5, ",\"x\":") {
        Option::None => {
            proof {
                assert forall|v: WindowOptions, rest: Seq<char>|
                    s@.skip(i as int) == spec_enc_window_a(v) + rest && (rest.len() > 0 ==> !spec_is_digit(rest[0])) implies false by {
                    lemma_window_a_parts(s@, i as int, v, rest);
                }
            }
            return None;
        },
        Option::Some(j) => j,
    };
    let (f_x, j7) = match parse_opt_i32(s, j6) {
        Option::None => {
            proof {
                assert forall|v: WindowOptions, rest: Seq<char>|
                    s@.skip(i as int) == spec_enc_window_a(v) + rest && (rest.len() > 0 ==> !spec_is_digit(rest[0])) implies false by {
                    lemma_window_a_parts(s@, i as int, v, rest);
                }
            }
            return None;
        },
        Option::Some(p) => p,
    };
    let j8 = match parse_lit(s, j7, ",\"y\":") {
        Option::None => {
            proof {
                assert forall|v: WindowOptions, rest: Seq<char>|
                    s@.skip(i as int) == spec_enc_window_a(v) + rest && (rest.len() > 0 ==> !spec_is_digit(rest[0])) implies false by {
                    lemma_window_a_parts(s@, i as int, v, rest);
                }
            }
            return None;
        },
        Option::Some(j) => j,
    };
    let (f_y, j9) = match parse_opt_i32(s, j8) {
        Option::None => {
            proof {
                assert forall|v: WindowOptions, rest: Seq<char>|
                    s@.skip(i as int) == spec_enc_window_a(v) + rest && (rest.len() > 0 ==> !spec_is_digit(rest[0])) implies false by {
                    lemma_window_a_parts(s@, i as int, v, rest);
                }
            }
            return None;
        },
        Option::Some(p) => p,
    };
    proof {
        assert forall|v: WindowOptions, rest: Seq<char>|
            s@.skip(i as int) == spec_enc_window_a(v) + rest && (rest.len() > 0 ==> !spec_is_digit(rest[0])) implies (opt_str_eq(f_ti, v.title) && f_w == v.width && f_h == v.height && f_x == v.x && f_y == v.y && j9 == i
            + spec_enc_window_a(v).len()) by {
            lemma_window_a_parts(s@, i as int, v, rest);
        }
    }
    Some(((f_ti, f_w, f_h, f_x, f_y), j9))
}

proof fn lemma_window_b_parts(s: Seq<char>, i: int, v: WindowOptions, rest: Seq<char>)
    requires
        0 <= i <= s.len(),
        s.skip(i) == spec_enc_window_b(v) + rest,
    ensures
        s.skip(i) == ",\"resizable\":"@ + (spec_enc_bool(v.resizable) + (",\"maximised\":"@ + (spec_enc_bool(v.maximised) + rest))),
        s.skip(i + ",\"resizable\":"@.len()) == spec_enc_bool(v.resizable) + (",\"maximised\":"@ + (spec_enc_bool(v.maximised) + rest)),
        s.skip(i + ",\"resizable\":"@.len() + spec_enc_bool(v.resizable).len()) == ",\"maximised\":"@ + (spec_enc_bool(v.maximised) + rest),
        s.skip(i + ",\"resizable\":"@.len() + spec_enc_bool(v.resizable).len() + ",\"maximised\":"@.len()) == spec_enc_bool(v.maximised) + rest,
{
    lemma_concat_associative(",\"resizable\":"@ + spec_enc_bool(v.resizable) + ",\"maximised\":"@, spec_enc_bool(v.maximised), rest);
    lemma_concat_associative(",\"resizable\":"@ + spec_enc_bool(v.resizable), ",\"maximised\":"@, spec_enc_bool(v.maximised) + rest);
    lemma_concat_associative(",\"resizable\":"@, spec_enc_bool(v.resizable), ",\"maximised\":"@ + (spec_enc_bool(v.maximised) + rest));
    assert(s.skip(i) == ",\"resizable\":"@ + (spec_enc_bool(v.resizable) + (",\"maximised\":"@ + (spec_enc_bool(v.maximised) + rest))));
    lemma_skip_concat(s, i, ",\"resizable\":"@, spec_enc_bool(v.resizable) + (",\"maximised\":"@ + (spec_enc_bool(v.maximised) + rest)));
    lemma_skip_concat(s, i + ",\"resizable\":"@.len(), spec_enc_bool(v.resizable), ",\"maximised\":"@ + (spec_enc_bool(v.maximised) + rest));
    lemma_skip_concat(s, i + ",\"resizable\":"@.len() + spec_enc_bool(v.resizable).len(), ",\"maximised\":"@, spec_enc_bool(v.maximised) + rest);
    lemma_skip_concat(s, i + ",\"resizable\":"@.len() + spec_enc_bool(v.resizable).len() + ",\"maximised\":"@.len(), spec_enc_bool(v.maximised), rest);
}

/// Parse one span of a window configuration object at position `i`.
fn parse_window_b(s: &str, i: usize) -> (r: Option<((bool, bool), usize)>)
    requires
        i <= s@.len(),
    ensures
        r matches Some(p) ==> i <= p.1 <= s@.len(),
        forall|v: WindowOptions, rest: Seq<char>|
            s@.skip(i as int) == spec_enc_window_b(v) + rest ==> (r matches Some(p)
                && p.0.0 == v.resizable && p.0.1 == v.maximised && p.1 == i + spec_enc_window_b(v).len()),
{
    let j0 = match parse_lit(s, i, ",\"resizable\":") {
        Option::None => {
            proof {
                assert forall|v: WindowOptions, rest: Seq<char>|
                    s@.skip(i as int) == spec_enc_window_b(v) + rest implies false by {
                    lemma_window_b_parts(s@, i as int, v, rest);
                }
            }
            return None;
        },
        Option::Some(j) => j,
    };
    let (f_rs, j1) = match parse_bool(s, j0) {
        Option::None => {
            proof {
                assert forall|v: WindowOptions, rest: Seq<char>|
                    s@.skip(i as int) == spec_enc_window_b(v) + rest implies false by {
                    lemma_window_b_parts(s@, i as int, v, rest);
                }
            }
            return None;
        },
        Option::Some(p) => p,
    };
    let j2 = match parse_lit(s, j1, ",\"maximised\":") {
        Option::None => {
            proof {
                assert forall|v: WindowOptions, rest: Seq<char>|
                    s@.skip(i as int) == spec_enc_window_b(v) + rest implies false by {
                    lemma_window_b_parts(s@, i as int, v, rest);
                }
            }
            return None;
        },
        Option::Some(j) => j,
    };
    let (f_mx, j3) = match parse_bool(s, j2) {
        Option::None => {
            proof {
                assert forall|v: WindowOptions, rest: Seq<char>|
                    s@.skip(i as int) == spec_enc_window_b(v) + rest implies false by {
                    lemma_window_b_parts(s@, i as int, v, rest);
                }
            }
            return None;
        },
        Option::Some(p) => p,
    };
    proof {
        assert forall|v: WindowOptions, rest: Seq<char>|
            s@.skip(i as int) == spec_enc_window_b(v) + rest implies (f_rs == v.resizable && f_mx == v.maximised && j3 == i
            + spec_enc_window_b(v).len()) by {
            lemma_window_b_parts(s@, i as int, v, rest);
        }
    }
    Some(((f_rs, f_mx), j3))
}

proof fn lemma_window_c_parts(s: Seq<char>, i: int, v: WindowOptions, rest: Seq<char>)
    requires
        0 <= i <= s.len(),
        s.skip(i) == spec_enc_window_c(v) + rest,
    ensures
        s.skip(i) == ",\"fullscreen\":"@ + (spec_enc_bool(v.fullscreen) + (",\"decorations\":"@ + (spec_enc_bool(v.decorations) + rest))),
        s.skip(i + ",\"fullscreen\":"@.len()) == spec_enc_bool(v.fullscreen) + (",\"decorations\":"@ + (spec_enc_bool(v.decorations) + rest)),
        s.skip(i + ",\"fullscreen\":"@.len() + spec_enc_bool(v.fullscreen).len()) == ",\"decorations\":"@ + (spec_enc_bool(v.decorations) + rest),
        s.skip(i + ",\"fullscreen\":"@.len() + spec_enc_bool(v.fullscreen).len() + ",\"decorations\":"@.len()) == spec_enc_bool(v.decorations) + rest,
{
    lemma_concat_associative(",\"fullscreen\":"@ + spec_enc_bool(v.fullscreen) + ",\"decorations\":"@, spec_enc_bool(v.decorations), rest);
    lemma_concat_associative(",\"fullscreen\":"@ + spec_enc_bool(v.fullscreen), ",\"decorations\":"@, spec_enc_bool(v.decorations) + rest);
    lemma_concat_associative(",\"fullscreen\":"@, spec_enc_bool(v.fullscreen), ",\"decorations\":"@ + (spec_enc_bool(v.decorations) + rest));
    assert(s.skip(i) == ",\"fullscreen\":"@ + (spec_enc_bool(v.fullscreen) + (",\"decorations\":"@ + (spec_enc_bool(v.decorations) + rest))));
    lemma_skip_concat(s, i, ",\"fullscreen\":"@, spec_enc_bool(v.fullscreen) + (",\"decorations\":"@ + (spec_enc_bool(v.decorations) + rest)));
    lemma_skip_concat(s, i + ",\"fullscreen\":"@.len(), spec_enc_bool(v.fullscreen), ",\"decorations\":"@ + (spec_enc_bool(v.decorations) + rest));
    lemma_skip_concat(s, i + ",\"fullscreen\":"@.len() + spec_enc_bool(v.fullscreen).len(), ",\"decorations\":"@, spec_enc_bool(v.decorations) + rest);
    lemma_skip_concat(s, i + ",\"fullscreen\":"@.len() + spec_enc_bool(v.fullscreen).len() + ",\"decorations\":"@.len(), spec_enc_bool(v.decorations), rest);
}

/// Parse one span of a window configuration object at position `i`.
fn parse_window_c(s: &str, i: usize) -> (r: Option<((bool, bool), usize)>)
    requires
        i <= s@.len(),
    ensures
        r matches Some(p) ==> i <= p.1 <= s@.len(),
        forall|v: WindowOptions, rest: Seq<char>|
            s@.skip(i as int) == spec_enc_window_c(v) + rest ==> (r matches Some(p)
                && p.0.0 == v.fullscreen && p.0.1 == v.decorations && p.1 == i + spec_enc_window_c(v).len()),
{
    let j0 = match parse_lit(s, i, ",\"fullscreen\":") {
        Option::None => {
            proof {
                assert forall|v: WindowOptions, rest: Seq<char>|
                    s@.skip(i as int) == spec_enc_window_c(v) + rest implies false by {
                    lemma_window_c_parts(s@, i as int, v, rest);
                }
            }
            return None;
        },
        Option::Some(j) => j,
    };
    let (f_fs, j1) = match parse_bool(s, j0) {
        Option::None => {
            proof {
                assert forall|v: WindowOptions, rest: Seq<char>|
                    s@.skip(i as int) == spec_enc_window_c(v) + rest implies false by {
                    lemma_window_c_parts(s@, i as int, v, rest);
                }
            }
            return None;
        },
        Option::Some(p) => p,
    };
    let j2 = match parse_lit(s, j1, ",\"decorations\":") {
        Option::None => {
            proof {
                assert forall|v: WindowOptions, rest: Seq<char>|
                    s@.skip(i as int) == spec_enc_window_c(v) + rest implies false by {
                    lemma_window_c_parts(s@, i as int, v, rest);
                }
            }
            return None;
        },
        Option::Some(j) => j,
    };
    let (f_dc, j3) = match parse_bool(s, j2) {
        Option::None => {
            proof {
                assert forall|v: WindowOptions, rest: Seq<char>|
                    s@.skip(i as int) == spec_enc_window_c(v) + rest implies false by {
                    lemma_window_c_parts(s@, i as int, v, rest);
                }
            }
            return None;
        },
        Option::Some(p) => p,
    };
    proof {
        assert forall|v: WindowOptions, rest: Seq<char>|
            s@.skip(i as int) == spec_enc_window_c(v) + rest implies (f_fs == v.fullscreen && f_dc == v.decorations && j3 == i
            + spec_enc_window_c(v).len()) by {
            lemma_window_c_parts(s@, i as int, v, rest);
        }
    }
    Some(((f_fs, f_dc), j3))
}

proof fn lemma_window_d_parts(s: Seq<char>, i: int, v: WindowOptions, rest: Seq<char>)
    requires
        0 <= i <= s.len(),
        s.skip(i) == spec_enc_window_d(v) + rest,
    ensures
        s.skip(i) == ",\"transparent\":"@ + (spec_enc_bool(v.transparent) + (",\"always_on_top\":"@ + (spec_enc_bool(v.always_on_top) + rest))),
        s.skip(i + ",\"transparent\":"@.len()) == spec_enc_bool(v.transparent) + (",\"always_on_top\":"@ + (spec_enc_bool(v.always_on_top) + rest)),
        s.skip(i + ",\"transparent\":"@.len() + spec_enc_bool(v.transparent).len()) == ",\"always_on_top\":"@ + (spec_enc_bool(v.always_on_top) + rest),
        s.skip(i + ",\"transparent\":"@.len() + spec_enc_bool(v.transparent).len() + ",\"always_on_top\":"@.len()) == spec_enc_bool(v.always_on_top) + rest,
{
    lemma_concat_associative(",\"transparent\":"@ + spec_enc_bool(v.transparent) + ",\"always_on_top\":"@, spec_enc_bool(v.always_on_top), rest);
    lemma_concat_associative(",\"transparent\":"@ + spec_enc_bool(v.transparent), ",\"always_on_top\":"@, spec_enc_bool(v.always_on_top) + rest);
    lemma_concat_associative(",\"transparent\":"@, spec_enc_bool(v.transparent), ",\"always_on_top\":"@ + (spec_enc_bool(v.always_on_top) + rest));
    assert(s.skip(i) == ",\"transparent\":"@ + (spec_enc_bool(v.transparent) + (",\"always_on_top\":"@ + (spec_enc_bool(v.always_on_top) + rest))));
    lemma_skip_concat(s, i, ",\"transparent\":"@, spec_enc_bool(v.transparent) + (",\"always_on_top\":"@ + (spec_enc_bool(v.always_on_top) + rest)));
    lemma_skip_concat(s, i + ",\"transparent\":"@.len(), spec_enc_bool(v.transparent), ",\"always_on_top\":"@ + (spec_enc_bool(v.always_on_top) + rest));
    lemma_skip_concat(s, i + ",\"transparent\":"@.len() + spec_enc_bool(v.transparent).len(), ",\"always_on_top\":"@, spec_enc_bool(v.always_on_top) + rest);
    lemma_skip_concat(s, i + ",\"transparent\":"@.len() + spec_enc_bool(v.transparent).len() + ",\"always_on_top\":"@.len(), spec_enc_bool(v.always_on_top), rest);
}

/// Parse one span of a window configuration object at position `i`.
fn parse_window_d(s: &str, i: usize) -> (r: Option<((bool, bool), usize)>)
    requires
        i <= s@.len(),
    ensures
        r matches Some(p) ==> i <= p.1 <= s@.len(),
        forall|v: WindowOptions, rest: Seq<char>|
            s@.skip(i as int) == spec_enc_window_d(v) + rest ==> (r matches Some(p)
                && p.0.0 == v.transparent && p.0.1 == v.always_on_top && p.1 == i + spec_enc_window_d(v).len()),
{
    let j0 = match parse_lit(s, i, ",\"transparent\":") {
        Option::None => {
            proof {
                assert forall|v: WindowOptions, rest: Seq<char>|
                    s@.skip(i as int) == spec_enc_window_d(v) + rest implies false by {
                    lemma_window_d_parts(s@, i as int, v, rest);
                }
            }
            return None;
        },
        Option::Some(j) => j,
    };
    let (f_tr, j1) = match parse_bool(s, j0) {
        Option::None => {
            proof {
                assert forall|v: WindowOptions, rest: Seq<char>|
                    s@.skip(i as int) == spec_enc_window_d(v) + rest implies false by {
                    lemma_window_d_parts(s@, i as int, v, rest);
                }
            }
            return None;
        },
        Option::Some(p) => p,
    };
    let j2 = match parse_lit(s, j1, ",\"always_on_top\":") {
        Option::None => {
            proof {
                assert forall|v: WindowOptions, rest: Seq<char>|
                    s@.skip(i as int) == spec_enc_window_d(v) + rest implies false by {
                    lemma_window_d_parts(s@, i as int, v, rest);
                }
            }
            return None;
        },
        Option::Some(j) => j,
    };
    let (f_at, j3) = match parse_bool(s, j2) {
        Option::None => {
            proof {
                assert forall|v: WindowOptions, rest: Seq<char>|
                    s@.skip(i as int) == spec_enc_window_d(v) + rest implies false by {
                    lemma_window_d_parts(s@, i as int, v, rest);
                }
            }
            return None;
        },
        Option::Some(p) => p,
    };
    proof {
        assert forall|v: WindowOptions, rest: Seq<char>|
            s@.skip(i as int) == spec_enc_window_d(v) + rest implies (f_tr == v.transparent && f_at == v.always_on_top && j3 == i
            + spec_enc_window_d(v).len()) by {
            lemma_window_d_parts(s@, i as int, v, rest);
        }
    }
    Some(((f_tr, f_at), j3))
}

proof fn lemma_window_e_parts(s: Seq<char>, i: int, v: WindowOptions, rest: Seq<char>)
    requires
        0 <= i <= s.len(),
        s.skip(i) == spec_enc_window_e(v) + rest,
    ensures
        s.skip(i) == ",\"theme\":"@ + (spec_enc_opt_str(v.theme) + (",\"background_color\":"@ + (spec_enc_opt_str(v.background_color) + (",\"toolbar\":"@ + (spec_enc_toolbar(v.toolbar) + ("}"@ + rest)))))),
        s.skip(i + ",\"theme\":"@.len()) == spec_enc_opt_str(v.theme) + (",\"background_color\":"@ + (spec_enc_opt_str(v.background_color) + (",\"toolbar\":"@ + (spec_enc_toolbar(v.toolbar) + ("}"@ + rest))))),
        s.skip(i + ",\"theme\":"@.len() + spec_enc_opt_str(v.theme).len()) == ",\"background_color\":"@ + (spec_enc_opt_str(v.background_color) + (",\"toolbar\":"@ + (spec_enc_toolbar(v.toolbar) + ("}"@ + rest)))),
        s.skip(i + ",\"theme\":"@.len() + spec_enc_opt_str(v.theme).len() + ",\"background_color\":"@.len()) == spec_enc_opt_str(v.background_color) + (",\"toolbar\":"@ + (spec_enc_toolbar(v.toolbar) + ("}"@ + rest))),
        s.skip(i + ",\"theme\":"@.len() + spec_enc_opt_str(v.theme).len() + ",\"background_color\":"@.len() + spec_enc_opt_str(v.background_color).len()) == ",\"toolbar\":"@ + (spec_enc_toolbar(v.toolbar) + ("}"@ + rest)),
        s.skip(i + ",\"theme\":"@.len() + spec_enc_opt_str(v.theme).len() + ",\"background_color\":"@.len() + spec_enc_opt_str(v.background_color).len() + ",\"toolbar\":"@.len()) == spec_enc_toolbar(v.toolbar) + ("}"@ + rest),
        s.skip(i + ",\"theme\":"@.len() + spec_enc_opt_str(v.theme).len() + ",\"background_color\":"@.len() + spec_enc_opt_str(v.background_color).len() + ",\"toolbar\":"@.len() + spec_enc_toolbar(v.toolbar).len()) == "}"@ + rest,
{
    lemma_concat_associative(",\"theme\":"@ + spec_enc_opt_str(v.theme) + ",\"background_color\":"@ + spec_enc_opt_str(v.background_color) + ",\"toolbar\":"@ + spec_enc_toolbar(v.toolbar), "}"@, rest);
    lemma_concat_associative(",\"theme\":"@ + spec_enc_opt_str(v.theme) + ",\"background_color\":"@ + spec_enc_opt_str(v.background_color) + ",\"toolbar\":"@, spec_enc_toolbar(v.toolbar), "}"@ + rest);
    lemma_concat_associative(",\"theme\":"@ + spec_enc_opt_str(v.theme) + ",\"background_color\":"@ + spec_enc_opt_str(v.background_color), ",\"toolbar\":"@, spec_enc_toolbar(v.toolbar) + ("}"@ + rest));
    lemma_concat_associative(",\"theme\":"@ + spec_enc_opt_str(v.theme) + ",\"background_color\":"@, spec_enc_opt_str(v.background_color), ",\"toolbar\":"@ + (spec_enc_toolbar(v.toolbar) + ("}"@ + rest)));
    lemma_concat_associative(",\"theme\":"@ + spec_enc_opt_str(v.theme), ",\"background_color\":"@, spec_enc_opt_str(v.background_color) + (",\"toolbar\":"@ + (spec_enc_toolbar(v.toolbar) + ("}"@ + rest))));
    lemma_concat_associative(",\"theme\":"@, spec_enc_opt_str(v.theme), ",\"background_color\":"@ + (spec_enc_opt_str(v.background_color) + (",\"toolbar\":"@ + (spec_enc_toolbar(v.toolbar) + ("}"@ + rest)))));
    assert(s.skip(i) == ",\"theme\":"@ + (spec_enc_opt_str(v.theme) + (",\"background_color\":"@ + (spec_enc_opt_str(v.background_color) + (",\"toolbar\":"@ + (spec_enc_toolbar(v.toolbar) + ("}"@ + rest)))))));
    lemma_skip_concat(s, i, ",\"theme\":"@, spec_enc_opt_str(v.theme) + (",\"background_color\":"@ + (spec_enc_opt_str(v.background_color) + (",\"toolbar\":"@ + (spec_enc_toolbar(v.toolbar) + ("}"@ + rest))))));
    lemma_skip_concat(s, i + ",\"theme\":"@.len(), spec_enc_opt_str(v.theme), ",\"background_color\":"@ + (spec_enc_opt_str(v.background_color) + (",\"toolbar\":"@ + (spec_enc_toolbar(v.toolbar) + ("}"@ + rest)))));
    lemma_skip_concat(s, i + ",\"theme\":"@.len() + spec_enc_opt_str(v.theme).len(), ",\"background_color\":"@, spec_enc_opt_str(v.background_color) + (",\"toolbar\":"@ + (spec_enc_toolbar(v.toolbar) + ("}"@ + rest))));
    lemma_skip_concat(s, i + ",\"theme\":"@.len() + spec_enc_opt_str(v.theme).len() + ",\"background_color\":"@.len(), spec_enc_opt_str(v.background_color), ",\"toolbar\":"@ + (spec_enc_toolbar(v.toolbar) + ("}"@ + rest)));
    lemma_skip_concat(s, i + ",\"theme\":"@.len() + spec_enc_opt_str(v.theme).len() + ",\"background_color\":"@.len() + spec_enc_opt_str(v.background_color).len(), ",\"toolbar\":"@, spec_enc_toolbar(v.toolbar) + ("}"@ + rest));
    lemma_skip_concat(s, i + ",\"theme\":"@.len() + spec_enc_opt_str(v.theme).len() + ",\"background_color\":"@.len() + spec_enc_opt_str(v.background_color).len() + ",\"toolbar\":"@.len(), spec_enc_toolbar(v.toolbar), "}"@ + rest);
    lemma_skip_concat(s, i + ",\"theme\":"@.len() + spec_enc_opt_str(v.theme).len() + ",\"background_color\":"@.len() + spec_enc_opt_str(v.background_color).len() + ",\"toolbar\":"@.len() + spec_enc_toolbar(v.toolbar).len(), "}"@, rest);
}

/// Parse one span of a window configuration object at position `i`.
fn parse_window_e(s: &str, i: usize) -> (r: Option<((Option<String>, Option<String>, ToolbarOptions), usize)>)
    requires
        i <= s@.len(),
    ensures
        r matches Some(p) ==> i <= p.1 <= s@.len(),
        forall|v: WindowOptions, rest: Seq<char>|
            s@.skip(i as int) == spec_enc_window_e(v) + rest ==> (r matches Some(p)
                && opt_str_eq(p.0.0, v.theme) && opt_str_eq(p.0.1, v.background_color) && toolbar_eq(p.0.2, v.toolbar) && p.1 == i + spec_enc_window_e(v).len()),
{
    let j0 = match parse_lit(s, i, ",\"theme\":") {
        Option::None => {
            proof {
                assert forall|v: WindowOptions, rest: Seq<char>|
                    s@.skip(i as int) == spec_enc_window_e(v) + rest implies false by {
                    lemma_window_e_parts(s@, i as int, v, rest);
                }
            }
            return None;
        },
        Option::Some(j) => j,
    };
    let (f_th, j1) = match parse_opt_str(s, j0) {
        Option::None => {
            proof {
                assert forall|v: WindowOptions, rest: Seq<char>|
                    s@.skip(i as int) == spec_enc_window_e(v) + rest implies false by {
                    lemma_window_e_parts(s@, i as int, v, rest);
                }
            }
            return None;
        },
        Option::Some(p) => p,
    };
    let j2 = match parse_lit(s, j1, ",\"background_color\":") {
        Option::None => {
            proof {
                assert forall|v: WindowOptions, rest: Seq<char>|
                    s@.skip(i as int) == spec_enc_window_e(v) + rest implies false by {
                    lemma_window_e_parts(s@, i as int, v, rest);
                }
            }
            return None;
        },
        Option::Some(j) => j,
    };
    let (f_bc, j3) = match parse_opt_str(s, j2) {
        Option::None => {
            proof {
                assert forall|v: WindowOptions, rest: Seq<char>|
                    s@.skip(i as int) == spec_enc_window_e(v) + rest implies false by {
                    lemma_window_e_parts(s@, i as int, v, rest);
                }
            }
            return None;
        },
        Option::Some(p) => p,
    };
    let j4 = match parse_lit(s, j3, ",\"toolbar\":") {
        Option::None => {
            proof {
                assert forall|v: WindowOptions, rest: Seq<char>|
                    s@.skip(i as int) == spec_enc_window_e(v) + rest implies false by {
                    lemma_window_e_parts(s@, i as int, v, rest);
                }
            }
            return None;
        },
        Option::Some(j) => j,
    };
    let (f_tb, j5) = match parse_toolbar(s, j4) {
        Option::None => {
            proof {
                assert forall|v: WindowOptions, rest: Seq<char>|
                    s@.skip(i as int) == spec_enc_window_e(v) + rest implies false by {
                    lemma_window_e_parts(s@, i as int, v, rest);
                }
            }
            return None;
        },
        Option::Some(p) => p,
    };
    let j6 = match parse_lit(s, j5, "}") {
        Option::None => {
            proof {
                assert forall|v: WindowOptions, rest: Seq<char>|
                    s@.skip(i as int) == spec_enc_window_e(v) + rest implies false by {
                    lemma_window_e_parts(s@, i as int, v, rest);
                }
            }
            return None;
        },
        Option::Some(j) => j,
    };
    proof {
        assert forall|v: WindowOptions, rest: Seq<char>|
            s@.skip(i as int) == spec_enc_window_e(v) + rest implies (opt_str_eq(f_th, v.theme) && opt_str_eq(f_bc, v.background_color) && toolbar_eq(f_tb, v.toolbar) && j6 == i
            + spec_enc_window_e(v).len()) by {
            lemma_window_e_parts(s@, i as int, v, rest);
        }
    }
    Some(((f_th, f_bc, f_tb), j6))
}

/// An encoded window configuration object is the concatenation of its spans.
#[verifier::rlimit(100)]
proof fn lemma_window_split(s: Seq<char>, i: int, v: WindowOptions, rest: Seq<char>)
    requires
        0 <= i <= s.len(),
        s.skip(i) == spec_enc_window(v) + rest,
    ensures
        s.skip(i) == spec_enc_window_a(v) + (spec_enc_window_b(v) + (spec_enc_window_c(v) + (spec_enc_window_d(v) + (spec_enc_window_e(v) + rest)))),
        s.skip(i + spec_enc_window_a(v).len()) == spec_enc_window_b(v) + (spec_enc_window_c(v) + (spec_enc_window_d(v) + (spec_enc_window_e(v) + rest))),
        s.skip(i + spec_enc_window_a(v).len() + spec_enc_window_b(v).len()) == spec_enc_window_c(v) + (spec_enc_window_d(v) + (spec_enc_window_e(v) + rest)),
        s.skip(i + spec_enc_window_a(v).len() + spec_enc_window_b(v).len() + spec_enc_window_c(v).len()) == spec_enc_window_d(v) + (spec_enc_window_e(v) + rest),
        s.skip(i + spec_enc_window_a(v).len() + spec_enc_window_b(v).len() + spec_enc_window_c(v).len() + spec_enc_window_d(v).len()) == spec_enc_window_e(v) + rest,
        spec_enc_window(v).len() == spec_enc_window_a(v).len() + spec_enc_window_b(v).len() + spec_enc_window_c(v).len() + spec_enc_window_d(v).len() + spec_enc_window_e(v).len(),
        (spec_enc_window_b(v) + (spec_enc_window_c(v) + (spec_enc_window_d(v) + (spec_enc_window_e(v) + rest)))).len() > 0 ==> !spec_is_digit((spec_enc_window_b(v) + (spec_enc_window_c(v) + (spec_enc_window_d(v) + (spec_enc_window_e(v) + rest))))[0]),
{
    reveal_strlit(",\"resizable\":");
    lemma_concat_associative((spec_enc_window_a(v)), ",\"resizable\":"@, spec_enc_bool(v.resizable));
    lemma_concat_associative((spec_enc_window_a(v)), ",\"resizable\":"@ + spec_enc_bool(v.resizable), ",\"maximised\":"@);
    lemma_concat_associative((spec_enc_window_a(v)), ",\"resizable\":"@ + spec_enc_bool(v.resizable) + ",\"maximised\":"@, spec_enc_bool(v.maximised));
    lemma_concat_associative(((spec_enc_window_a(v)) + spec_enc_window_b(v)), ",\"fullscreen\":"@, spec_enc_bool(v.fullscreen));
    lemma_concat_associative(((spec_enc_window_a(v)) + spec_enc_window_b(v)), ",\"fullscreen\":"@ + spec_enc_bool(v.fullscreen), ",\"decorations\":"@);
    lemma_concat_associative(((spec_enc_window_a(v)) + spec_enc_window_b(v)), ",\"fullscreen\":"@ + spec_enc_bool(v.fullscreen) + ",\"decorations\":"@, spec_enc_bool(v.decorations));
    lemma_concat_associative((((spec_enc_window_a(v)) + spec_enc_window_b(v)) + spec_enc_window_c(v)), ",\"transparent\":"@, spec_enc_bool(v.transparent));
    lemma_concat_associative((((spec_enc_window_a(v)) + spec_enc_window_b(v)) + spec_enc_window_c(v)), ",\"transparent\":"@ + spec_enc_bool(v.transparent), ",\"always_on_top\":"@);
    lemma_concat_associative((((spec_enc_window_a(v)) + spec_enc_window_b(v)) + spec_enc_window_c(v)), ",\"transparent\":"@ + spec_enc_bool(v.transparent) + ",\"always_on_top\":"@, spec_enc_bool(v.always_on_top));
    lemma_concat_associative(((((spec_enc_window_a(v)) + spec_enc_window_b(v)) + spec_enc_window_c(v)) + spec_enc_window_d(v)), ",\"theme\":"@, spec_enc_opt_str(v.theme));
    lemma_concat_associative(((((spec_enc_window_a(v)) + spec_enc_window_b(v)) + spec_enc_window_c(v)) + spec_enc_window_d(v)), ",\"theme\":"@ + spec_enc_opt_str(v.theme), ",\"background_color\":"@);
    lemma_concat_associative(((((spec_enc_window_a(v)) + spec_enc_window_b(v)) + spec_enc_window_c(v)) + spec_enc_window_d(v)), ",\"theme\":"@ + spec_enc_opt_str(v.theme) + ",\"background_color\":"@, spec_enc_opt_str(v.background_color));
    lemma_concat_associative(((((spec_enc_window_a(v)) + spec_enc_window_b(v)) + spec_enc_window_c(v)) + spec_enc_window_d(v)), ",\"theme\":"@ + spec_enc_opt_str(v.theme) + ",\"background_color\":"@ + spec_enc_opt_str(v.background_color), ",\"toolbar\":"@);
    lemma_concat_associative(((((spec_enc_window_a(v)) + spec_enc_window_b(v)) + spec_enc_window_c(v)) + spec_enc_window_d(v)), ",\"theme\":"@ + spec_enc_opt_str(v.theme) + ",\"background_color\":"@ + spec_enc_opt_str(v.background_color) + ",\"toolbar\":"@, spec_enc_toolbar(v.toolbar));
    lemma_concat_associative(((((spec_enc_window_a(v)) + spec_enc_window_b(v)) + spec_enc_window_c(v)) + spec_enc_window_d(v)), ",\"theme\":"@ + spec_enc_opt_str(v.theme) + ",\"background_color\":"@ + spec_enc_opt_str(v.background_color) + ",\"toolbar\":"@ + spec_enc_toolbar(v.toolbar), "}"@);
    assert(spec_enc_window(v) == ((((spec_enc_window_a(v)) + spec_enc_window_b(v)) + spec_enc_window_c(v)) + spec_enc_window_d(v)) + spec_enc_window_e(v));
    lemma_concat_associative((((spec_enc_window_a(v)) + spec_enc_window_b(v)) + spec_enc_window_c(v)) + spec_enc_window_d(v), spec_enc_window_e(v), rest);
    lemma_concat_associative(((spec_enc_window_a(v)) + spec_enc_window_b(v)) + spec_enc_window_c(v), spec_enc_window_d(v), spec_enc_window_e(v) + rest);
    lemma_concat_associative((spec_enc_window_a(v)) + spec_enc_window_b(v), spec_enc_window_c(v), spec_enc_window_d(v) + (spec_enc_window_e(v) + rest));
    lemma_concat_associative(spec_enc_window_a(v), spec_enc_window_b(v), spec_enc_window_c(v) + (spec_enc_window_d(v) + (spec_enc_window_e(v) + rest)));
    assert(s.skip(i) == spec_enc_window_a(v) + (spec_enc_window_b(v) + (spec_enc_window_c(v) + (spec_enc_window_d(v) + (spec_enc_window_e(v) + rest)))));
    lemma_skip_concat(s, i, spec_enc_window_a(v), spec_enc_window_b(v) + (spec_enc_window_c(v) + (spec_enc_window_d(v) + (spec_enc_window_e(v) + rest))));
    lemma_skip_concat(s, i + spec_enc_window_a(v).len(), spec_enc_window_b(v), spec_enc_window_c(v) + (spec_enc_window_d(v) + (spec_enc_window_e(v) + rest)));
    lemma_skip_concat(s, i + spec_enc_window_a(v).len() + spec_enc_window_b(v).len(), spec_enc_window_c(v), spec_enc_window_d(v) + (spec_enc_window_e(v) + rest));
    lemma_skip_concat(s, i + spec_enc_window_a(v).len() + spec_enc_window_b(v).len() + spec_enc_window_c(v).len(), spec_enc_window_d(v), spec_enc_window_e(v) + rest);
    lemma_skip_concat(s, i + spec_enc_window_a(v).len() + spec_enc_window_b(v).len() + spec_enc_window_c(v).len() + spec_enc_window_d(v).len(), spec_enc_window_e(v), rest);
    assert((spec_enc_window_b(v) + (spec_enc_window_c(v) + (spec_enc_window_d(v) + (spec_enc_window_e(v) + rest))))[0] == ",\"resizable\":"@[0]);
}

/// Parse a window configuration object at position `i`.
#[verifier::rlimit(100)]
pub fn parse_window(s: &str, i: usize) -> (r: Option<(WindowOptions, usize)>)
    requires
        i <= s@.len(),
    ensures
        r matches Some(p) ==> i <= p.1 <= s@.len(),
        forall|v: WindowOptions, rest: Seq<char>|
            s@.skip(i as int) == spec_enc_window(v) + rest ==> (r matches Some(p) && window_eq(p.0, v)
                && p.1 == i + spec_enc_window(v).len()),
{
    let (c0, k0) = match parse_window_a(s, i) {
        Option::None => {
            proof {
                assert forall|v: WindowOptions, rest: Seq<char>|
                    s@.skip(i as int) == spec_enc_window(v) + rest implies false by {
                    lemma_window_split(s@, i as int, v, rest);
                }
            }
            return None;
        },
        Option::Some(p) => p,
    };
    let (c1, k1) = match parse_window_b(s, k0) {
        Option::None => {
            proof {
                assert forall|v: WindowOptions, rest: Seq<char>|
                    s@.skip(i as int) == spec_enc_window(v) + rest implies false by {
                    lemma_window_split(s@, i as int, v, rest);
                }
            }
            return None;
        },
        Option::Some(p) => p,
    };
    let (c2, k2) = match parse_window_c(s, k1) {
        Option::None => {
            proof {
                assert forall|v: WindowOptions, rest: Seq<char>|
                    s@.skip(i as int) == spec_enc_window(v) + rest implies false by {
                    lemma_window_split(s@, i as int, v, rest);
                }
            }
            return None;
        },
        Option::Some(p) => p,
    };
    let (c3, k3) = match parse_window_d(s, k2) {
        Option::None => {
            proof {
                assert forall|v: WindowOptions, rest: Seq<char>|
                    s@.skip(i as int) == spec_enc_window(v) + rest implies false by {
                    lemma_window_split(s@, i as int, v, rest);
                }
            }
            return None;
        },
        Option::Some(p) => p,
    };
    let (c4, k4) = match parse_window_e(s, k3) {
        Option::None => {
            proof {
                assert forall|v: WindowOptions, rest: Seq<char>|
                    s@.skip(i as int) == spec_enc_window(v) + rest implies false by {
                    lemma_window_split(s@, i as int, v, rest);
                }
            }
            return None;
        },
        Option::Some(p) => p,
    };
    let (f_ti, f_w, f_h, f_x, f_y) = c0;
    let (f_rs, f_mx) = c1;
    let (f_fs, f_dc) = c2;
    let (f_tr, f_at) = c3;
    let (f_th, f_bc, f_tb) = c4;
    let out = WindowOptions { title: f_ti, width: f_w, height: f_h, x: f_x, y: f_y, resizable: f_rs, maximised: f_mx, fullscreen: f_fs, decorations: f_dc, transparent: f_tr, always_on_top: f_at, theme: f_th, background_color: f_bc, toolbar: f_tb };
    proof {
        assert forall|v: WindowOptions, rest: Seq<char>|
            s@.skip(i as int) == spec_enc_window(v) + rest implies (window_eq(out, v) && k4 == i
            + spec_enc_window(v).len()) by {
            lemma_window_split(s@, i as int, v, rest);
        }
    }
    Some((out, k4))
}

/// One span of the encoding handled by a chunk parser.
pub open spec fn spec_enc_behaviour_a(v: BehaviourOptions) -> Seq<char> {
    "{\"allow_external_navigation\":"@ + spec_enc_bool(v.allow_external_navigation) + ",\"allowed_domains\":"@ + spec_enc_opt_str_vec(v.allowed_domains)
}

/// One span of the encoding handled by a chunk parser.
pub open spec fn spec_enc_behaviour_b(v: BehaviourOptions) -> Seq<char> {
    ",\"enable_devtools\":"@ + spec_enc_bool(v.enable_devtools) + ",\"allow_remote_content\":"@ + spec_enc_bool(v.allow_remote_content)
}

/// One span of the encoding handled by a chunk parser.
pub open spec fn spec_enc_behaviour_c(v: BehaviourOptions) -> Seq<char> {
    ",\"allow_notifications\":"@ + spec_enc_bool(v.allow_notifications) + "}"@
}

proof fn lemma_behaviour_a_parts(s: Seq<char>, i: int, v: BehaviourOptions, rest: Seq<char>)
    requires
        0 <= i <= s.len(),
        s.skip(i) == spec_enc_behaviour_a(v) + rest,
    ensures
        s.skip(i) == "{\"allow_external_navigation\":"@ + (spec_enc_bool(v.allow_external_navigation) + (",\"allowed_domains\":"@ + (spec_enc_opt_str_vec(v.allowed_domains) + rest))),
        s.skip(i + "{\"allow_external_navigation\":"@.len()) == spec_enc_bool(v.allow_external_navigation) + (",\"allowed_domains\":"@ + (spec_enc_opt_str_vec(v.allowed_domains) + rest)),
        s.skip(i + "{\"allow_external_navigation\":"@.len() + spec_enc_bool(v.allow_external_navigation).len()) == ",\"allowed_domains\":"@ + (spec_enc_opt_str_vec(v.allowed_domains) + rest),
        s.skip(i + "{\"allow_external_navigation\":"@.len() + spec_enc_bool(v.allow_external_navigation).len() + ",\"allowed_domains\":"@.len()) == spec_enc_opt_str_vec(v.allowed_domains) + rest,
{
    lemma_concat_associative("{\"allow_external_navigation\":"@ + spec_enc_bool(v.allow_external_navigation) + ",\"allowed_domains\":"@, spec_enc_opt_str_vec(v.allowed_domains), rest);
    lemma_concat_associative("{\"allow_external_navigation\":"@ + spec_enc_bool(v.allow_external_navigation), ",\"allowed_domains\":"@, spec_enc_opt_str_vec(v.allowed_domains) + rest);
    lemma_concat_associative("{\"allow_external_navigation\":"@, spec_enc_bool(v.allow_external_navigation), ",\"allowed_domains\":"@ + (spec_enc_opt_str_vec(v.allowed_domains) + rest));
    assert(s.skip(i) == "{\"allow_external_navigation\":"@ + (spec_enc_bool(v.allow_external_navigation) + (",\"allowed_domains\":"@ + (spec_enc_opt_str_vec(v.allowed_domains) + rest))));
    lemma_skip_concat(s, i, "{\"allow_external_navigation\":"@, spec_enc_bool(v.allow_external_navigation) + (",\"allowed_domains\":"@ + (spec_enc_opt_str_vec(v.allowed_domains) + rest)));
    lemma_skip_concat(s, i + "{\"allow_external_navigation\":"@.len(), spec_enc_bool(v.allow_external_navigation), ",\"allowed_domains\":"@ + (spec_enc_opt_str_vec(v.allowed_domains) + rest));
    lemma_skip_concat(s, i + "{\"allow_external_navigation\":"@.len() + spec_enc_bool(v.allow_external_navigation).len(), ",\"allowed_domains\":"@, spec_enc_opt_str_vec(v.allowed_domains) + rest);
    lemma_skip_concat(s, i + "{\"allow_external_navigation\":"@.len() + spec_enc_bool(v.allow_external_navigation).len() + ",\"allowed_domains\":"@.len(), spec_enc_opt_str_vec(v.allowed_domains), rest);
}

/// Parse one span of a behaviour configuration object at position `i`.
fn parse_behaviour_a(s: &str, i: usize) -> (r: Option<((bool, Option<Vec<String>>), usize)>)
    requires
        i <= s@.len(),
    ensures
        r matches Some(p) ==> i <= p.1 <= s@.len(),
        forall|v: BehaviourOptions, rest: Seq<char>|
            s@.skip(i as int) == spec_enc_behaviour_a(v) + rest ==> (r matches Some(p)
                && p.0.0 == v.allow_external_navigation && opt_str_vec_eq(p.0.1, v.allowed_domains) && p.1 == i + spec_enc_behaviour_a(v).len()),
{
    let j0 = match parse_lit(s, i, "{\"allow_external_navigation\":") {
        Option::None => {
            proof {
                assert forall|v: BehaviourOptions, rest: Seq<char>|
                    s@.skip(i as int) == spec_enc_behaviour_a(v) + rest implies false by {
                    lemma_behaviour_a_parts(s@, i as int, v, rest);
                }
            }
            return None;
        },
        Option::Some(j) => j,
    };
    let (f_an, j1) = match parse_bool(s, j0) {
        Option::None => {
            proof {
                assert forall|v: BehaviourOptions, rest: Seq<char>|
                    s@.skip(i as int) == spec_enc_behaviour_a(v) + rest implies false by {
                    lemma_behaviour_a_parts(s@, i as int, v, rest);
                }
            }
            return None;
        },
        Option::Some(p) => p,
    };
    let j2 = match parse_lit(s, j1, ",\"allowed_domains\":") {
        Option::None => {
            proof {
                assert forall|v: BehaviourOptions, rest: Seq<char>|
                    s@.skip(i as int) == spec_enc_behaviour_a(v) + rest implies false by {
                    lemma_behaviour_a_parts(s@, i as int, v, rest);
                }
            }
            return None;
        },
        Option::Some(j) => j,
    };
    let (f_ad, j3) = match parse_opt_str_vec(s, j2) {
        Option::None => {
            proof {
                assert forall|v: BehaviourOptions, rest: Seq<char>|
                    s@.skip(i as int) == spec_enc_behaviour_a(v) + rest implies false by {
                    lemma_behaviour_a_parts(s@, i as int, v, rest);
                }
            }
            return None;
        },
        Option::Some(p) => p,
    };
    proof {
        assert forall|v: BehaviourOptions, rest: Seq<char>|
            s@.skip(i as int) == spec_enc_behaviour_a(v) + rest implies (f_an == v.allow_external_navigation && opt_str_vec_eq(f_ad, v.allowed_domains) && j3 == i
            + spec_enc_behaviour_a(v).len()) by {
            lemma_behaviour_a_parts(s@, i as int, v, rest);
        }
    }
    Some(((f_an, f_ad), j3))
}

proof fn lemma_behaviour_b_parts(s: Seq<char>, i: int, v: BehaviourOptions, rest: Seq<char>)
    requires
        0 <= i <= s.len(),
        s.skip(i) == spec_enc_behaviour_b(v) + rest,
    ensures
        s.skip(i) == ",\"enable_devtools\":"@ + (spec_enc_bool(v.enable_devtools) + (",\"allow_remote_content\":"@ + (spec_enc_bool(v.allow_remote_content) + rest))),
        s.skip(i + ",\"enable_devtools\":"@.len()) == spec_enc_bool(v.enable_devtools) + (",\"allow_remote_content\":"@ + (spec_enc_bool(v.allow_remote_content) + rest)),
        s.skip(i + ",\"enable_devtools\":"@.len() + spec_enc_bool(v.enable_devtools).len()) == ",\"allow_remote_content\":"@ + (spec_enc_bool(v.allow_remote_content) + rest),
        s.skip(i + ",\"enable_devtools\":"@.len() + spec_enc_bool(v.enable_devtools).len() + ",\"allow_remote_content\":"@.len()) == spec_enc_bool(v.allow_remote_content) + rest,
{
    lemma_concat_associative(",\"enable_devtools\":"@ + spec_enc_bool(v.enable_devtools) + ",\"allow_remote_content\":"@, spec_enc_bool(v.allow_remote_content), rest);
    lemma_concat_associative(",\"enable_devtools\":"@ + spec_enc_bool(v.enable_devtools), ",\"allow_remote_content\":"@, spec_enc_bool(v.allow_remote_content) + rest);
    lemma_concat_associative(",\"enable_devtools\":"@, spec_enc_bool(v.enable_devtools), ",\"allow_remote_content\":"@ + (spec_enc_bool(v.allow_remote_content) + rest));
    assert(s.skip(i) == ",\"enable_devtools\":"@ + (spec_enc_bool(v.enable_devtools) + (",\"allow_remote_content\":"@ + (spec_enc_bool(v.allow_remote_content) + rest))));
    lemma_skip_concat(s, i, ",\"enable_devtools\":"@, spec_enc_bool(v.enable_devtools) + (",\"allow_remote_content\":"@ + (spec_enc_bool(v.allow_remote_content) + rest)));
    lemma_skip_concat(s, i + ",\"enable_devtools\":"@.len(), spec_enc_bool(v.enable_devtools), ",\"allow_remote_content\":"@ + (spec_enc_bool(v.allow_remote_content) + rest));
    lemma_skip_concat(s, i + ",\"enable_devtools\":"@.len() + spec_enc_bool(v.enable_devtools).len(), ",\"allow_remote_content\":"@, spec_enc_bool(v.allow_remote_content) + rest);
    lemma_skip_concat(s, i + ",\"enable_devtools\":"@.len() + spec_enc_bool(v.enable_devtools).len() + ",\"allow_remote_content\":"@.len(), spec_enc_bool(v.allow_remote_content), rest);
}

/// Parse one span of a behaviour configuration object at position `i`.
fn parse_behaviour_b(s: &str, i: usize) -> (r: Option<((bool, bool), usize)>)
    requires
        i <= s@.len(),
    ensures
        r matches Some(p) ==> i <= p.1 <= s@.len(),
        forall|v: BehaviourOptions, rest: Seq<char>|
            s@.skip(i as int) == spec_enc_behaviour_b(v) + rest ==> (r matches Some(p)
                && p.0.0 == v.enable_devtools && p.0.1 == v.allow_remote_content && p.1 == i + spec_enc_behaviour_b(v).len()),
{
    let j0 = match parse_lit(s, i, ",\"enable_devtools\":") {
        Option::None => {
            proof {
                assert forall|v: BehaviourOptions, rest: Seq<char>|
                    s@.skip(i as int) == spec_enc_behaviour_b(v) + rest implies false by {
                    lemma_behaviour_b_parts(s@, i as int, v, rest);
                }
            }
            return None;
        },
        Option::Some(j) => j,
    };
    let (f_dt, j1) = match parse_bool(s, j0) {
        Option::None => {
            proof {
                assert forall|v: BehaviourOptions, rest: Seq<char>|
                    s@.skip(i as int) == spec_enc_behaviour_b(v) + rest implies false by {
                    lemma_behaviour_b_parts(s@, i as int, v, rest);
                }
            }
            return None;
        },
        Option::Some(p) => p,
    };
    let j2 = match parse_lit(s, j1, ",\"allow_remote_content\":") {
        Option::None => {
            proof {
                assert forall|v: BehaviourOptions, rest: Seq<char>|
                    s@.skip(i as int) == spec_enc_behaviour_b(v) + rest implies false by {
                    lemma_behaviour_b_parts(s@, i as int, v, rest);
                }
            }
            return None;
        },
        Option::Some(j) => j,
    };
    let (f_rc, j3) = match parse_bool(s, j2) {
        Option::None => {
            proof {
                assert forall|v: BehaviourOptions, rest: Seq<char>|
                    s@.skip(i as int) == spec_enc_behaviour_b(v) + rest implies false by {
                    lemma_behaviour_b_parts(s@, i as int, v, rest);
                }
            }
            return None;
        },
        Option::Some(p) => p,
    };
    proof {
        assert forall|v: BehaviourOptions, rest: Seq<char>|
            s@.skip(i as int) == spec_enc_behaviour_b(v) + rest implies (f_dt == v.enable_devtools && f_rc == v.allow_remote_content && j3 == i
            + spec_enc_behaviour_b(v).len()) by {
            lemma_behaviour_b_parts(s@, i as int, v, rest);
        }
    }
    Some(((f_dt, f_rc), j3))
}

proof fn lemma_behaviour_c_parts(s: Seq<char>, i: int, v: BehaviourOptions, rest: Seq<char>)
    requires
        0 <= i <= s.len(),
        s.skip(i) == spec_enc_behaviour_c(v) + rest,
    ensures
        s.skip(i) == ",\"allow_notifications\":"@ + (spec_enc_bool(v.allow_notifications) + ("}"@ + rest)),
        s.skip(i + ",\"allow_notifications\":"@.len()) == spec_enc_bool(v.allow_notifications) + ("}"@ + rest),
        s.skip(i + ",\"allow_notifications\":"@.len() + spec_enc_bool(v.allow_notifications).len()) == "}"@ + rest,
{
    lemma_concat_associative(",\"allow_notifications\":"@ + spec_enc_bool(v.allow_notifications), "}"@, rest);
    lemma_concat_associative(",\"allow_notifications\":"@, spec_enc_bool(v.allow_notifications), "}"@ + rest);
    assert(s.skip(i) == ",\"allow_notifications\":"@ + (spec_enc_bool(v.allow_notifications) + ("}"@ + rest)));
    lemma_skip_concat(s, i, ",\"allow_notifications\":"@, spec_enc_bool(v.allow_notifications) + ("}"@ + rest));
    lemma_skip_concat(s, i + ",\"allow_notifications\":"@.len(), spec_enc_bool(v.allow_notifications), "}"@ + rest);
    lemma_skip_concat(s, i + ",\"allow_notifications\":"@.len() + spec_enc_bool(v.allow_notifications).len(), "}"@, rest);
}

/// Parse one span of a behaviour configuration object at position `i`.
fn parse_behaviour_c(s: &str, i: usize) -> (r: Option<(bool, usize)>)
    requires
        i <= s@.len(),
    ensures
        r matches Some(p) ==> i <= p.1 <= s@.len(),
        forall|v: BehaviourOptions, rest: Seq<char>|
            s@.skip(i as int) == spec_enc_behaviour_c(v) + rest ==> (r matches Some(p)
                && p.0 == v.allow_notifications && p.1 == i + spec_enc_behaviour_c(v).len()),
{
    let j0 = match parse_lit(s, i, ",\"allow_notifications\":") {
        Option::None => {
            proof {
                assert forall|v: BehaviourOptions, rest: Seq<char>|
                    s@.skip(i as int) == spec_enc_behaviour_c(v) + rest implies false by {
                    lemma_behaviour_c_parts(s@, i as int, v, rest);
                }
            }
            return None;
        },
        Option::Some(j) => j,
    };
    let (f_no, j1) = match parse_bool(s, j0) {
        Option::None => {
            proof {
                assert forall|v: BehaviourOptions, rest: Seq<char>|
                    s@.skip(i as int) == spec_enc_behaviour_c(v) + rest implies false by {
                    lemma_behaviour_c_parts(s@, i as int, v, rest);
                }
            }
            return None;
        },
        Option::Some(p) => p,
    };
    let j2 = match parse_lit(s, j1, "}") {
        Option::None => {
            proof {
                assert forall|v: BehaviourOptions, rest: Seq<char>|
                    s@.skip(i as int) == spec_enc_behaviour_c(v) + rest implies false by {
                    lemma_behaviour_c_parts(s@, i as int, v, rest);
                }
            }
            return None;
        },
        Option::Some(j) => j,
    };
    proof {
        assert forall|v: BehaviourOptions, rest: Seq<char>|
            s@.skip(i as int) == spec_enc_behaviour_c(v) + rest implies (f_no == v.allow_notifications && j2 == i
            + spec_enc_behaviour_c(v).len()) by {
            lemma_behaviour_c_parts(s@, i as int, v, rest);
        }
    }
    Some((f_no, j2))
}

/// An encoded behaviour configuration object is the concatenation of its spans.
#[verifier::rlimit(100)]
proof fn lemma_behaviour_split(s: Seq<char>, i: int, v: BehaviourOptions, rest: Seq<char>)
    requires
        0 <= i <= s.len(),
        s.skip(i) == spec_enc_behaviour(v) + rest,
    ensures
        s.skip(i) == spec_enc_behaviour_a(v) + (spec_enc_behaviour_b(v) + (spec_enc_behaviour_c(v) + rest)),
        s.skip(i + spec_enc_behaviour_a(v).len()) == spec_enc_behaviour_b(v) + (spec_enc_behaviour_c(v) + rest),
        s.skip(i + spec_enc_behaviour_a(v).len() + spec_enc_behaviour_b(v).len()) == spec_enc_behaviour_c(v) + rest,
        spec_enc_behaviour(v).len() == spec_enc_behaviour_a(v).len() + spec_enc_behaviour_b(v).len() + spec_enc_behaviour_c(v).len(),
{
    lemma_concat_associative((spec_enc_behaviour_a(v)), ",\"enable_devtools\":"@, spec_enc_bool(v.enable_devtools));
    lemma_concat_associative((spec_enc_behaviour_a(v)), ",\"enable_devtools\":"@ + spec_enc_bool(v.enable_devtools), ",\"allow_remote_content\":"@);
    lemma_concat_associative((spec_enc_behaviour_a(v)), ",\"enable_devtools\":"@ + spec_enc_bool(v.enable_devtools) + ",\"allow_remote_content\":"@, spec_enc_bool(v.allow_remote_content));
    lemma_concat_associative(((spec_enc_behaviour_a(v)) + spec_enc_behaviour_b(v)), ",\"allow_notifications\":"@, spec_enc_bool(v.allow_notifications));
    lemma_concat_associative(((spec_enc_behaviour_a(v)) + spec_enc_behaviour_b(v)), ",\"allow_notifications\":"@ + spec_enc_bool(v.allow_notifications), "}"@);
    assert(spec_enc_behaviour(v) == ((spec_enc_behaviour_a(v)) + spec_enc_behaviour_b(v)) + spec_enc_behaviour_c(v));
    lemma_concat_associative((spec_enc_behaviour_a(v)) + spec_enc_behaviour_b(v), spec_enc_behaviour_c(v), rest);
    lemma_concat_associative(spec_enc_behaviour_a(v), spec_enc_behaviour_b(v), spec_enc_behaviour_c(v) + rest);
    assert(s.skip(i) == spec_enc_behaviour_a(v) + (spec_enc_behaviour_b(v) + (spec_enc_behaviour_c(v) + rest)));
    lemma_skip_concat(s, i, spec_enc_behaviour_a(v), spec_enc_behaviour_b(v) + (spec_enc_behaviour_c(v) + rest));
    lemma_skip_concat(s, i + spec_enc_behaviour_a(v).len(), spec_enc_behaviour_b(v), spec_enc_behaviour_c(v) + rest);
    lemma_skip_concat(s, i + spec_enc_behaviour_a(v).len() + spec_enc_behaviour_b(v).len(), spec_enc_behaviour_c(v), rest);
}

/// Parse a behaviour configuration object at position `i`.
#[verifier::rlimit(100)]
pub fn parse_behaviour(s: &str, i: usize) -> (r: Option<(BehaviourOptions, usize)>)
    requires
        i <= s@.len(),
    ensures
        r matches Some(p) ==> i <= p.1 <= s@.len(),
        forall|v: BehaviourOptions, rest: Seq<char>|
            s@.skip(i as int) == spec_enc_behaviour(v) + rest ==> (r matches Some(p) && behaviour_eq(p.0, v)
                && p.1 == i + spec_enc_behaviour(v).len()),
{
    let (c0, k0) = match parse_behaviour_a(s, i) {
        Option::None => {
            proof {
                assert forall|v: BehaviourOptions, rest: Seq<char>|
                    s@.skip(i as int) == spec_enc_behaviour(v) + rest implies false by {
                    lemma_behaviour_split(s@, i as int, v, rest);
                }
            }
            return None;
        },
        Option::Some(p) => p,
    };
    let (c1, k1) = match parse_behaviour_b(s, k0) {
        Option::None => {
            proof {
                assert forall|v: BehaviourOptions, rest: Seq<char>|
                    s@.skip(i as int) == spec_enc_behaviour(v) + rest implies false by {
                    lemma_behaviour_split(s@, i as int, v, rest);
                }
            }
            return None;
        },
        Option::Some(p) => p,
    };
    let (c2, k2) = match parse_behaviour_c(s, k1) {
        Option::None => {
            proof {
                assert forall|v: BehaviourOptions, rest: Seq<char>|
                    s@.skip(i as int) == spec_enc_behaviour(v) + rest implies false by {
                    lemma_behaviour_split(s@, i as int, v, rest);
                }
            }
            return None;
        },
        Option::Some(p) => p,
    };
    let (f_an, f_ad) = c0;
    let (f_dt, f_rc) = c1;
    let f_no = c2;
    let out = BehaviourOptions { allow_external_navigation: f_an, allowed_domains: f_ad, enable_devtools: f_dt, allow_remote_content: f_rc, allow_notifications: f_no };
    proof {
        assert forall|v: BehaviourOptions, rest: Seq<char>|
            s@.skip(i as int) == spec_enc_behaviour(v) + rest implies (behaviour_eq(out, v) && k2 == i
            + spec_enc_behaviour(v).len()) by {
            lemma_behaviour_split(s@, i as int, v, rest);
        }
    }
    Some((out, k2))
}


/// One span of the encoding handled by a chunk parser.
pub open spec fn spec_enc_request_a(v: ViewerRequest) -> Seq<char> {
    "{\"id\":"@ + spec_enc_str(v.id@) + ",\"content\":"@ + spec_enc_content(v.content) + ",\"window\":"@ + spec_enc_window(v.window)
}

/// One span of the encoding handled by a chunk parser.
pub open spec fn spec_enc_request_b(v: ViewerRequest) -> Seq<char> {
    ",\"behaviour\":"@ + spec_enc_behaviour(v.behaviour) + ",\"environment\":"@ + spec_enc_environment(v.environment)
}

/// One span of the encoding handled by a chunk parser.
pub open spec fn spec_enc_request_c(v: ViewerRequest) -> Seq<char> {
    ",\"dialog\":"@ + spec_enc_dialog(v.dialog) + ",\"command_file\":"@ + spec_enc_opt_str(v.command_file) + "}"@
}

proof fn lemma_request_a_parts(s: Seq<char>, i: int, v: ViewerRequest, rest: Seq<char>)
    requires
        0 <= i <= s.len(),
        s.skip(i) == spec_enc_request_a(v) + rest,
    ensures
        s.skip(i) == "{\"id\":"@ + (spec_enc_str(v.id@) + (",\"content\":"@ + (spec_enc_content(v.content) + (",\"window\":"@ + (spec_enc_window(v.window) + rest))))),
        s.skip(i + "{\"id\":"@.len()) == spec_enc_str(v.id@) + (",\"content\":"@ + (spec_enc_content(v.content) + (",\"window\":"@ + (spec_enc_window(v.window) + rest)))),
        s.skip(i + "{\"id\":"@.len() + spec_enc_str(v.id@).len()) == ",\"content\":"@ + (spec_enc_content(v.content) + (",\"window\":"@ + (spec_enc_window(v.window) + rest))),
        s.skip(i + "{\"id\":"@.len() + spec_enc_str(v.id@).len() + ",\"content\":"@.len()) == spec_enc_content(v.content) + (",\"window\":"@ + (spec_enc_window(v.window) + rest)),
        s.skip(i + "{\"id\":"@.len() + spec_enc_str(v.id@).len() + ",\"content\":"@.len() + spec_enc_content(v.content).len()) == ",\"window\":"@ + (spec_enc_window(v.window) + rest),
        s.skip(i + "{\"id\":"@.len() + spec_enc_str(v.id@).len() + ",\"content\":"@.len() + spec_enc_content(v.content).len() + ",\"window\":"@.len()) == spec_enc_window(v.window) + rest,
{
    lemma_concat_associative("{\"id\":"@ + spec_enc_str(v.id@) + ",\"content\":"@ + spec_enc_content(v.content) + ",\"window\":"@, spec_enc_window(v.window), rest);
    lemma_concat_associative("{\"id\":"@ + spec_enc_str(v.id@) + ",\"content\":"@ + spec_enc_content(v.content), ",\"window\":"@, spec_enc_window(v.window) + rest);
    lemma_concat_associative("{\"id\":"@ + spec_enc_str(v.id@) + ",\"content\":"@, spec_enc_content(v.content), ",\"window\":"@ + (spec_enc_window(v.window) + rest));
    lemma_concat_associative("{\"id\":"@ + spec_enc_str(v.id@), ",\"content\":"@, spec_enc_content(v.content) + (",\"window\":"@ + (spec_enc_window(v.window) + rest)));
    lemma_concat_associative("{\"id\":"@, spec_enc_str(v.id@), ",\"content\":"@ + (spec_enc_content(v.content) + (",\"window\":"@ + (spec_enc_window(v.window) + rest))));
    assert(s.skip(i) == "{\"id\":"@ + (spec_enc_str(v.id@) + (",\"content\":"@ + (spec_enc_content(v.content) + (",\"window\":"@ + (spec_enc_window(v.window) + rest))))));
    lemma_skip_concat(s, i, "{\"id\":"@, spec_enc_str(v.id@) + (",\"content\":"@ + (spec_enc_content(v.content) + (",\"window\":"@ + (spec_enc_window(v.window) + rest)))));
    lemma_skip_concat(s, i + "{\"id\":"@.len(), spec_enc_str(v.id@), ",\"content\":"@ + (spec_enc_content(v.content) + (",\"window\":"@ + (spec_enc_window(v.window) + rest))));
    lemma_skip_concat(s, i + "{\"id\":"@.len() + spec_enc_str(v.id@).len(), ",\"content\":"@, spec_enc_content(v.content) + (",\"window\":"@ + (spec_enc_window(v.window) + rest)));
    lemma_skip_concat(s, i + "{\"id\":"@.len() + spec_enc_str(v.id@).len() + ",\"content\":"@.len(), spec_enc_content(v.content), ",\"window\":"@ + (spec_enc_window(v.window) + rest));
    lemma_skip_concat(s, i + "{\"id\":"@.len() + spec_enc_str(v.id@).len() + ",\"content\":"@.len() + spec_enc_content(v.content).len(), ",\"window\":"@, spec_enc_window(v.window) + rest);
    lemma_skip_concat(s, i + "{\"id\":"@.len() + spec_enc_str(v.id@).len() + ",\"content\":"@.len() + spec_enc_content(v.content).len() + ",\"window\":"@.len(), spec_enc_window(v.window), rest);
}

/// Parse one span of a request artifact at position `i`.
fn parse_request_a(s: &str, i: usize) -> (r: Option<((String, ViewerContent, WindowOptions), usize)>)
    requires
        i <= s@.len(),
    ensures
        r matches Some(p) ==> i <= p.1 <= s@.len(),
        forall|v: ViewerRequest, rest: Seq<char>|
            s@.skip(i as int) == spec_enc_request_a(v) + rest ==> (r matches Some(p)
                && p.0.0@ == v.id@ && content_eq(p.0.1, v.content) && window_eq(p.0.2, v.window) && p.1 == i + spec_enc_request_a(v).len()),
{
    let j0 = match parse_lit(s, i, "{\"id\":") {
        Option::None => {
            proof {
                assert forall|v: ViewerRequest, rest: Seq<char>|
                    s@.skip(i as int) == spec_enc_request_a(v) + rest implies false by {
                    lemma_request_a_parts(s@, i as int, v, rest);
                }
            }
            return None;
        },
        Option::Some(j) => j,
    };
    let (f_id, j1) = match parse_json_str(s, j0) {
        Option::None => {
            proof {
                assert forall|v: ViewerRequest, rest: Seq<char>|
                    s@.skip(i as int) == spec_enc_request_a(v) + rest implies false by {
                    lemma_request_a_parts(s@, i as int, v, rest);
                }
            }
            return None;
        },
        Option::Some(p) => p,
    };
    let j2 = match parse_lit(s, j1, ",\"content\":") {
        Option::None => {
            proof {
                assert forall|v: ViewerRequest, rest: Seq<char>|
                    s@.skip(i as int) == spec_enc_request_a(v) + rest implies false by {
                    lemma_request_a_parts(s@, i as int, v, rest);
                }
            }
            return None;
        },
        Option::Some(j) => j,
    };
    let (f_ct, j3) = match parse_content(s, j2) {
        Option::None => {
            proof {
                assert forall|v: ViewerRequest, rest: Seq<char>|
                    s@.skip(i as int) == spec_enc_request_a(v) + rest implies false by {
                    lemma_request_a_parts(s@, i as int, v, rest);
                }
            }
            return None;
        },
        Option::Some(p) => p,
    };
    let j4 = match parse_lit(s, j3, ",\"window\":") {
        Option::None => {
            proof {
                assert forall|v: ViewerRequest, rest: Seq<char>|
                    s@.skip(i as int) == spec_enc_request_a(v) + rest implies false by {
                    lemma_request_a_parts(s@, i as int, v, rest);
                }
            }
            return None;
        },
        Option::Some(j) => j,
    };
    let (f_wi, j5) = match parse_window(s, j4) {
        Option::None => {
            proof {
                assert forall|v: ViewerRequest, rest: Seq<char>|
                    s@.skip(i as int) == spec_enc_request_a(v) + rest implies false by {
                    lemma_request_a_parts(s@, i as int, v, rest);
                }
            }
            return None;
        },
        Option::Some(p) => p,
    };
    proof {
        assert forall|v: ViewerRequest, rest: Seq<char>|
            s@.skip(i as int) == spec_enc_request_a(v) + rest implies (f_id@ == v.id@ && content_eq(f_ct, v.content) && window_eq(f_wi, v.window) && j5 == i
            + spec_enc_request_a(v).len()) by {
            lemma_request_a_parts(s@, i as int, v, rest);
        }
    }
    Some(((f_id, f_ct, f_wi), j5))
}

proof fn lemma_request_b_parts(s: Seq<char>, i: int, v: ViewerRequest, rest: Seq<char>)
    requires
        0 <= i <= s.len(),
        s.skip(i) == spec_enc_request_b(v) + rest,
    ensures
        s.skip(i) == ",\"behaviour\":"@ + (spec_enc_behaviour(v.behaviour) + (",\"environment\":"@ + (spec_enc_environment(v.environment) + rest))),
        s.skip(i + ",\"behaviour\":"@.len()) == spec_enc_behaviour(v.behaviour) + (",\"environment\":"@ + (spec_enc_environment(v.environment) + rest)),
        s.skip(i + ",\"behaviour\":"@.len() + spec_enc_behaviour(v.behaviour).len()) == ",\"environment\":"@ + (spec_enc_environment(v.environment) + rest),
        s.skip(i + ",\"behaviour\":"@.len() + spec_enc_behaviour(v.behaviour).len() + ",\"environment\":"@.len()) == spec_enc_environment(v.environment) + rest,
{
    lemma_concat_associative(",\"behaviour\":"@ + spec_enc_behaviour(v.behaviour) + ",\"environment\":"@, spec_enc_environment(v.environment), rest);
    lemma_concat_associative(",\"behaviour\":"@ + spec_enc_behaviour(v.behaviour), ",\"environment\":"@, spec_enc_environment(v.environment) + rest);
    lemma_concat_associative(",\"behaviour\":"@, spec_enc_behaviour(v.behaviour), ",\"environment\":"@ + (spec_enc_environment(v.environment) + rest));
    assert(s.skip(i) == ",\"behaviour\":"@ + (spec_enc_behaviour(v.behaviour) + (",\"environment\":"@ + (spec_enc_environment(v.environment) + rest))));
    lemma_skip_concat(s, i, ",\"behaviour\":"@, spec_enc_behaviour(v.behaviour) + (",\"environment\":"@ + (spec_enc_environment(v.environment) + rest)));
    lemma_skip_concat(s, i + ",\"behaviour\":"@.len(), spec_enc_behaviour(v.behaviour), ",\"environment\":"@ + (spec_enc_environment(v.environment) + rest));
    lemma_skip_concat(s, i + ",\"behaviour\":"@.len() + spec_enc_behaviour(v.behaviour).len(), ",\"environment\":"@, spec_enc_environment(v.environment) + rest);
    lemma_skip_concat(s, i + ",\"behaviour\":"@.len() + spec_enc_behaviour(v.behaviour).len() + ",\"environment\":"@.len(), spec_enc_environment(v.environment), rest);
}

/// Parse one span of a request artifact at position `i`.
fn parse_request_b(s: &str, i: usize) -> (r: Option<((BehaviourOptions, EnvironmentOptions), usize)>)
    requires
        i <= s@.len(),
    ensures
        r matches Some(p) ==> i <= p.1 <= s@.len(),
        forall|v: ViewerRequest, rest: Seq<char>|
            s@.skip(i as int) == spec_enc_request_b(v) + rest ==> (r matches Some(p)
                && behaviour_eq(p.0.0, v.behaviour) && environment_eq(p.0.1, v.environment) && p.1 == i + spec_enc_request_b(v).len()),
{
    let j0 = match parse_lit(s, i, ",\"behaviour\":") {
        Option::None => {
            proof {
                assert forall|v: ViewerRequest, rest: Seq<char>|
                    s@.skip(i as int) == spec_enc_request_b(v) + rest implies false by {
                    lemma_request_b_parts(s@, i as int, v, rest);
                }
            }
            return None;
        },
        Option::Some(j) => j,
    };
    let (f_be, j1) = match parse_behaviour(s, j0) {
        Option::None => {
            proof {
                assert forall|v: ViewerRequest, rest: Seq<char>|
                    s@.skip(i as int) == spec_enc_request_b(v) + rest implies false by {
                    lemma_request_b_parts(s@, i as int, v, rest);
                }
            }
            return None;
        },
        Option::Some(p) => p,
    };
    let j2 = match parse_lit(s, j1, ",\"environment\":") {
        Option::None => {
            proof {
                assert forall|v: ViewerRequest, rest: Seq<char>|
                    s@.skip(i as int) == spec_enc_request_b(v) + rest implies false by {
                    lemma_request_b_parts(s@, i as int, v, rest);
                }
            }
            return None;
        },
        Option::Some(j) => j,
    };
    let (f_en, j3) = match parse_environment(s, j2) {
        Option::None => {
            proof {
                assert forall|v: ViewerRequest, rest: Seq<char>|
                    s@.skip(i as int) == spec_enc_request_b(v) + rest implies false by {
                    lemma_request_b_parts(s@, i as int, v, rest);
                }
            }
            return None;
        },
        Option::Some(p) => p,
    };
    proof {
        assert forall|v: ViewerRequest, rest: Seq<char>|
            s@.skip(i as int) == spec_enc_request_b(v) + rest implies (behaviour_eq(f_be, v.behaviour) && environment_eq(f_en, v.environment) && j3 == i
            + spec_enc_request_b(v).len()) by {
            lemma_request_b_parts(s@, i as int, v, rest);
        }
    }
    Some(((f_be, f_en), j3))
}

proof fn lemma_request_c_parts(s: Seq<char>, i: int, v: ViewerRequest, rest: Seq<char>)
    requires
        0 <= i <= s.len(),
        s.skip(i) == spec_enc_request_c(v) + rest,
    ensures
        s.skip(i) == ",\"dialog\":"@ + (spec_enc_dialog(v.dialog) + (",\"command_file\":"@ + (spec_enc_opt_str(v.command_file) + ("}"@ + rest)))),
        s.skip(i + ",\"dialog\":"@.len()) == spec_enc_dialog(v.dialog) + (",\"command_file\":"@ + (spec_enc_opt_str(v.command_file) + ("}"@ + rest))),
        s.skip(i + ",\"dialog\":"@.len() + spec_enc_dialog(v.dialog).len()) == ",\"command_file\":"@ + (spec_enc_opt_str(v.command_file) + ("}"@ + rest)),
        s.skip(i + ",\"dialog\":"@.len() + spec_enc_dialog(v.dialog).len() + ",\"command_file\":"@.len()) == spec_enc_opt_str(v.command_file) + ("}"@ + rest),
        s.skip(i + ",\"dialog\":"@.len() + spec_enc_dialog(v.dialog).len() + ",\"command_file\":"@.len() + spec_enc_opt_str(v.command_file).len()) == "}"@ + rest,
{
    lemma_concat_associative(",\"dialog\":"@ + spec_enc_dialog(v.dialog) + ",\"command_file\":"@ + spec_enc_opt_str(v.command_file), "}"@, rest);
    lemma_concat_associative(",\"dialog\":"@ + spec_enc_dialog(v.dialog) + ",\"command_file\":"@, spec_enc_opt_str(v.command_file), "}"@ + rest);
    lemma_concat_associative(",\"dialog\":"@ + spec_enc_dialog(v.dialog), ",\"command_file\":"@, spec_enc_opt_str(v.command_file) + ("}"@ + rest));
    lemma_concat_associative(",\"dialog\":"@, spec_enc_dialog(v.dialog), ",\"command_file\":"@ + (spec_enc_opt_str(v.command_file) + ("}"@ + rest)));
    assert(s.skip(i) == ",\"dialog\":"@ + (spec_enc_dialog(v.dialog) + (",\"command_file\":"@ + (spec_enc_opt_str(v.command_file) + ("}"@ + rest)))));
    lemma_skip_concat(s, i, ",\"dialog\":"@, spec_enc_dialog(v.dialog) + (",\"command_file\":"@ + (spec_enc_opt_str(v.command_file) + ("}"@ + rest))));
    lemma_skip_concat(s, i + ",\"dialog\":"@.len(), spec_enc_dialog(v.dialog), ",\"command_file\":"@ + (spec_enc_opt_str(v.command_file) + ("}"@ + rest)));
    lemma_skip_concat(s, i + ",\"dialog\":"@.len() + spec_enc_dialog(v.dialog).len(), ",\"command_file\":"@, spec_enc_opt_str(v.command_file) + ("}"@ + rest));
    lemma_skip_concat(s, i + ",\"dialog\":"@.len() + spec_enc_dialog(v.dialog).len() + ",\"command_file\":"@.len(), spec_enc_opt_str(v.command_file), "}"@ + rest);
    lemma_skip_concat(s, i + ",\"dialog\":"@.len() + spec_enc_dialog(v.dialog).len() + ",\"command_file\":"@.len() + spec_enc_opt_str(v.command_file).len(), "}"@, rest);
}

/// Parse one span of a request artifact at position `i`.
fn parse_request_c(s: &str, i: usize) -> (r: Option<((DialogOptions, Option<String>), usize)>)
    requires
        i <= s@.len(),
    ensures
        r matches Some(p) ==> i <= p.1 <= s@.len(),
        forall|v: ViewerRequest, rest: Seq<char>|
            s@.skip(i as int) == spec_enc_request_c(v) + rest ==> (r matches Some(p)
                && p.0.0 == v.dialog && opt_str_eq(p.0.1, v.command_file) && p.1 == i + spec_enc_request_c(v).len()),
{
    let j0 = match parse_lit(s, i, ",\"dialog\":") {
        Option::None => {
            proof {
                assert forall|v: ViewerRequest, rest: Seq<char>|
                    s@.skip(i as int) == spec_enc_request_c(v) + rest implies false by {
                    lemma_request_c_parts(s@, i as int, v, rest);
                }
            }
            return None;
        },
        Option::Some(j) => j,
    };
    let (f_di, j1) = match parse_dialog(s, j0) {
        Option::None => {
            proof {
                assert forall|v: ViewerRequest, rest: Seq<char>|
                    s@.skip(i as int) == spec_enc_request_c(v) + rest implies false by {
                    lemma_request_c_parts(s@, i as int, v, rest);
                }
            }
            return None;
        },
        Option::Some(p) => p,
    };
    let j2 = match parse_lit(s, j1, ",\"command_file\":") {
        Option::None => {
            proof {
                assert forall|v: ViewerRequest, rest: Seq<char>|
                    s@.skip(i as int) == spec_enc_request_c(v) + rest implies false by {
                    lemma_request_c_parts(s@, i as int, v, rest);
                }
            }
            return None;
        },
        Option::Some(j) => j,
    };
    let (f_cf, j3) = match parse_opt_str(s, j2) {
        Option::None => {
            proof {
                assert forall|v: ViewerRequest, rest: Seq<char>|
                    s@.skip(i as int) == spec_enc_request_c(v) + rest implies false by {
                    lemma_request_c_parts(s@, i as int, v, rest);
                }
            }
            return None;
        },
        Option::Some(p) => p,
    };
    let j4 = match parse_lit(s, j3, "}") {
        Option::None => {
            proof {
                assert forall|v: ViewerRequest, rest: Seq<char>|
                    s@.skip(i as int) == spec_enc_request_c(v) + rest implies false by {
                    lemma_request_c_parts(s@, i as int, v, rest);
                }
            }
            return None;
        },
        Option::Some(j) => j,
    };
    proof {
        assert forall|v: ViewerRequest, rest: Seq<char>|
            s@.skip(i as int) == spec_enc_request_c(v) + rest implies (f_di == v.dialog && opt_str_eq(f_cf, v.command_file) && j4 == i
            + spec_enc_request_c(v).len()) by {
            lemma_request_c_parts(s@, i as int, v, rest);
        }
    }
    Some(((f_di, f_cf), j4))
}

/// An encoded request artifact is the concatenation of its spans.
#[verifier::rlimit(100)]
proof fn lemma_request_split(s: Seq<char>, i: int, v: ViewerRequest, rest: Seq<char>)
    requires
        0 <= i <= s.len(),
        s.skip(i) == spec_enc_request(v) + rest,
    ensures
        s.skip(i) == spec_enc_request_a(v) + (spec_enc_request_b(v) + (spec_enc_request_c(v) + rest)),
        s.skip(i + spec_enc_request_a(v).len()) == spec_enc_request_b(v) + (spec_enc_request_c(v) + rest),
        s.skip(i + spec_enc_request_a(v).len() + spec_enc_request_b(v).len()) == spec_enc_request_c(v) + rest,
        spec_enc_request(v).len() == spec_enc_request_a(v).len() + spec_enc_request_b(v).len() + spec_enc_request_c(v).len(),
{
    lemma_concat_associative((spec_enc_request_a(v)), ",\"behaviour\":"@, spec_enc_behaviour(v.behaviour));
    lemma_concat_associative((spec_enc_request_a(v)), ",\"behaviour\":"@ + spec_enc_behaviour(v.behaviour), ",\"environment\":"@);
    lemma_concat_associative((spec_enc_request_a(v)), ",\"behaviour\":"@ + spec_enc_behaviour(v.behaviour) + ",\"environment\":"@, spec_enc_environment(v.environment));
    lemma_concat_associative(((spec_enc_request_a(v)) + spec_enc_request_b(v)), ",\"dialog\":"@, spec_enc_dialog(v.dialog));
    lemma_concat_associative(((spec_enc_request_a(v)) + spec_enc_request_b(v)), ",\"dialog\":"@ + spec_enc_dialog(v.dialog), ",\"command_file\":"@);
    lemma_concat_associative(((spec_enc_request_a(v)) + spec_enc_request_b(v)), ",\"dialog\":"@ + spec_enc_dialog(v.dialog) + ",\"command_file\":"@, spec_enc_opt_str(v.command_file));
    lemma_concat_associative(((spec_enc_request_a(v)) + spec_enc_request_b(v)), ",\"dialog\":"@ + spec_enc_dialog(v.dialog) + ",\"command_file\":"@ + spec_enc_opt_str(v.command_file), "}"@);
    assert(spec_enc_request(v) == ((spec_enc_request_a(v)) + spec_enc_request_b(v)) + spec_enc_request_c(v));
    lemma_concat_associative((spec_enc_request_a(v)) + spec_enc_request_b(v), spec_enc_request_c(v), rest);
    lemma_concat_associative(spec_enc_request_a(v), spec_enc_request_b(v), spec_enc_request_c(v) + rest);
    assert(s.skip(i) == spec_enc_request_a(v) + (spec_enc_request_b(v) + (spec_enc_request_c(v) + rest)));
    lemma_skip_concat(s, i, spec_enc_request_a(v), spec_enc_request_b(v) + (spec_enc_request_c(v) + rest));
    lemma_skip_concat(s, i + spec_enc_request_a(v).len(), spec_enc_request_b(v), spec_enc_request_c(v) + rest);
    lemma_skip_concat(s, i + spec_enc_request_a(v).len() + spec_enc_request_b(v).len(), spec_enc_request_c(v), rest);
}

/// Parse a request artifact at position `i`.
#[verifier::rlimit(100)]
pub fn parse_request(s: &str, i: usize) -> (r: Option<(ViewerRequest, usize)>)
    requires
        i <= s@.len(),
    ensures
        r matches Some(p) ==> i <= p.1 <= s@.len(),
        forall|v: ViewerRequest, rest: Seq<char>|
            s@.skip(i as int) == spec_enc_request(v) + rest ==> (r matches Some(p) && request_eq(p.0, v)
                && p.1 == i + spec_enc_request(v).len()),
{
    let (c0, k0) = match parse_request_a(s, i) {
        Option::None => {
            proof {
                assert forall|v: ViewerRequest, rest: Seq<char>|
                    s@.skip(i as int) == spec_enc_request(v) + rest implies false by {
                    lemma_request_split(s@, i as int, v, rest);
                }
            }
            return None;
        },
        Option::Some(p) => p,
    };
    let (c1, k1) = match parse_request_b(s, k0) {
        Option::None => {
            proof {
                assert forall|v: ViewerRequest, rest: Seq<char>|
                    s@.skip(i as int) == spec_enc_request(v) + rest implies false by {
                    lemma_request_split(s@, i as int, v, rest);
                }
            }
            return None;
        },
        Option::Some(p) => p,
    };
    let (c2, k2) = match parse_request_c(s, k1) {
        Option::None => {
            proof {
                assert forall|v: ViewerRequest, rest: Seq<char>|
                    s@.skip(i as int) == spec_enc_request(v) + rest implies false by {
                    lemma_request_split(s@, i as int, v, rest);
                }
            }
            return None;
        },
        Option::Some(p) => p,
    };
    let (f_id, f_ct, f_wi) = c0;
    let (f_be, f_en) = c1;
    let (f_di, f_cf) = c2;
    let out = ViewerRequest { id: f_id, content: f_ct, window: f_wi, behaviour: f_be, environment: f_en, dialog: f_di, command_file: f_cf };
    proof {
        assert forall|v: ViewerRequest, rest: Seq<char>|
            s@.skip(i as int) == spec_enc_request(v) + rest implies (request_eq(out, v) && k2 == i
            + spec_enc_request(v).len()) by {
            lemma_request_split(s@, i as int, v, rest);
        }
    }
    Some((out, k2))
}

} // verus!