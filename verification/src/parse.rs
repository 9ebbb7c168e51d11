//! Parsers for the wire format of [`crate::codec`].
//!
//! Each parser carries its whole correctness statement in its contract: it
//! returns `Some` exactly on text that starts (at the given position) with
//! the canonical encoding of some value, and then it returns that value and
//! the position just past its encoding.  Reading back an encoded artifact
//! therefore yields the original, field for field.

use vstd::prelude::*;
use vstd::string::*;
use vstd::seq_lib::lemma_concat_associative;
use crate::text::{
    push_char, is_digit, spec_is_digit, spec_digit_val, spec_all_digits, spec_val_of,
    spec_dec_u64, lemma_dec_u64_digits, lemma_val_of_dec, lemma_val_of_prefix,
    lemma_val_of_nonneg,
};
use crate::codec::{spec_esc_char, spec_escape, spec_enc_str, spec_enc_u64};

verus! {

/// Peeling a known prefix off a suffix of `s` moves the suffix forward by
/// the prefix's length.
pub proof fn lemma_skip_concat(s: Seq<char>, i: int, p: Seq<char>, t: Seq<char>)
    requires
        0 <= i <= s.len(),
        s.skip(i) == p + t,
    ensures
        i + p.len() <= s.len(),
        s.skip(i + p.len()) == t,
{
    assert(s.skip(i).len() == s.len() - i);
    assert(s.skip(i + p.len()) =~= t) by {
        assert forall|k: int| 0 <= k < s.len() - i - p.len() implies s.skip(
            i + p.len(),
        )[k] == t[k] by {
            assert(s.skip(i + p.len())[k] == s[i + p.len() + k]);
            assert(s.skip(i)[p.len() + k] == s[i + p.len() + k]);
            assert((p + t)[p.len() + k] == t[k]);
        }
    }
}

/// A subrange splits at any interior position into the two adjacent
/// subranges.
pub proof fn lemma_subrange_split(s: Seq<char>, a: int, b: int, c: int)
    requires
        0 <= a <= b <= c <= s.len(),
    ensures
        s.subrange(a, c) == s.subrange(a, b) + s.subrange(b, c),
{
    assert(s.subrange(a, c) =~= s.subrange(a, b) + s.subrange(b, c));
}

/// A suffix of `s` that equals a nonempty concatenation starts with the
/// first character of that concatenation.
pub proof fn lemma_skip_first(s: Seq<char>, i: int, p: Seq<char>, t: Seq<char>)
    requires
        0 <= i <= s.len(),
        s.skip(i) == p + t,
        p.len() > 0,
    ensures
        i < s.len(),
        s[i] == p[0],
{
    assert(s.skip(i).len() == s.len() - i);
    assert(s.skip(i)[0] == s[i]);
    assert((p + t)[0] == p[0]);
}

/// The decimal representation never starts with a superfluous zero.
pub proof fn lemma_dec_no_leading_zero(n: int)
    requires
        0 <= n,
    ensures
        spec_dec_u64(n).len() > 1 ==> spec_dec_u64(n)[0] != '0',
    decreases n,
{
    if n >= 10 {
        lemma_dec_no_leading_zero(n / 10);
        let d0 = spec_dec_u64(n / 10);
        lemma_dec_u64_digits(n / 10);
        assert(spec_dec_u64(n) == d0.push(crate::text::spec_digit_char(n % 10)));
        assert(spec_dec_u64(n)[0] == d0[0]);
        if n / 10 < 10 {
            assert(d0 == seq![crate::text::spec_digit_char(n / 10)]);
            assert(d0[0] as int == n / 10 + 48);
            assert(n / 10 >= 1);
            assert('0' as int == 48);
        } else {
            lemma_dec_u64_digits(n / 10 / 10);
            assert(d0 == spec_dec_u64(n / 10 / 10).push(
                crate::text::spec_digit_char(n / 10 % 10),
            ));
            assert(d0.len() >= 2);
        }
    }
}

/// A digit string whose value is read back is the decimal representation
/// of that value, provided it has no leading zero.
pub proof fn lemma_dec_val_of(d: Seq<char>)
    requires
        d.len() >= 1,
        spec_all_digits(d),
        d.len() > 1 ==> d[0] != '0',
    ensures
        spec_dec_u64(spec_val_of(d)) == d,
    decreases d.len(),
{
    if d.len() == 1 {
        assert(d.drop_last() =~= Seq::<char>::empty());
        assert(spec_val_of(Seq::<char>::empty()) == 0);
        assert(d.last() == d[0]);
        assert(spec_val_of(d) == spec_digit_val(d[0]));
        assert(spec_is_digit(d[0]));
        assert(spec_dec_u64(spec_val_of(d)) =~= seq![crate::text::spec_digit_char(
            spec_digit_val(d[0]),
        )]);
        assert(crate::text::spec_digit_char(spec_digit_val(d[0])) == d[0]);
    } else {
        let d0 = d.drop_last();
        assert(spec_all_digits(d0));
        assert(d0[0] == d[0]);
        lemma_dec_val_of(d0);
        lemma_val_of_positive(d0);
        let v = spec_val_of(d);
        assert(v == spec_val_of(d0) * 10 + spec_digit_val(d.last()));
        assert(spec_val_of(d0) * 10 >= 10) by (nonlinear_arith)
            requires spec_val_of(d0) >= 1;
        assert(0 <= spec_digit_val(d.last()) < 10);
        assert(v >= 10);
        assert(v / 10 == spec_val_of(d0) && v % 10 == spec_digit_val(d.last()))
            by (nonlinear_arith)
            requires
                v == spec_val_of(d0) * 10 + spec_digit_val(d.last()),
                0 <= spec_digit_val(d.last()) < 10,
                spec_val_of(d0) >= 0;
        assert(spec_dec_u64(v) == spec_dec_u64(v / 10).push(crate::text::spec_digit_char(
            v % 10,
        )));
        assert(crate::text::spec_digit_char(spec_digit_val(d.last())) == d.last());
        assert(spec_dec_u64(v) =~= d);
    }
}

/// A nonempty digit string without a leading zero has a positive value.
pub proof fn lemma_val_of_positive(d: Seq<char>)
    requires
        d.len() >= 1,
        spec_all_digits(d),
        d[0] != '0',
    ensures
        spec_val_of(d) >= 1,
    decreases d.len(),
{
    if d.len() == 1 {
        assert(d.drop_last() =~= Seq::<char>::empty());
        assert(spec_val_of(Seq::<char>::empty()) == 0);
        assert(d.last() == d[0]);
        assert(spec_is_digit(d[0]));
        assert(d[0] as int != 48);
        assert(spec_digit_val(d[0]) >= 1);
    } else {
        let d0 = d.drop_last();
        assert(d0[0] == d[0]);
        assert(spec_all_digits(d0));
        lemma_val_of_positive(d0);
        assert(spec_val_of(d0) * 10 >= 10) by (nonlinear_arith)
            requires spec_val_of(d0) >= 1;
        assert(spec_is_digit(d.last()));
    }
}

/// Match an exact literal at position `i`.
pub fn parse_lit(s: &str, i: usize, lit: &str) -> (r: Option<usize>)
    requires
        i <= s@.len(),
    ensures
        r matches Some(j) ==> j == i + lit@.len() && j <= s@.len() && s@.subrange(
            i as int,
            j as int,
        ) == lit@,
        forall|rest: Seq<char>| s@.skip(i as int) == lit@ + rest ==> (r matches Some(j) && j == i
            + lit@.len()),
{
    let n = s.unicode_len();
    let m = lit.unicode_len();
    if m > n - i {
        proof {
            assert forall|rest: Seq<char>| s@.skip(i as int) == lit@ + rest implies false by {
                assert(s@.skip(i as int).len() == n - i);
            }
        }
        return None;
    }
    let mut k: usize = 0;
    while k < m
        invariant
            0 <= k <= m,
            i + m <= n,
            n == s@.len(),
            m == lit@.len(),
            forall|q: int| 0 <= q < k ==> s@[i + q] == lit@[q],
        decreases m - k,
    {
        if s.get_char(i + k) != lit.get_char(k) {
            proof {
                assert forall|rest: Seq<char>| s@.skip(i as int) == lit@ + rest implies false by {
                    assert(s@.skip(i as int)[k as int] == s@[i + k]);
                    assert((lit@ + rest)[k as int] == lit@[k as int]);
                }
            }
            return None;
        }
        k += 1;
    }
    proof {
        assert(s@.subrange(i as int, (i + m) as int) =~= lit@);
    }
    Some(i + m)
}

/// The end of the run of decimal digits that starts at `i`.
fn scan_digits(s: &str, i: usize) -> (j: usize)
    requires
        i <= s@.len(),
    ensures
        i <= j <= s@.len(),
        forall|k: int| i <= k < j ==> spec_is_digit(s@[k]),
        j < s@.len() ==> !spec_is_digit(s@[j as int]),
{
    let n = s.unicode_len();
    let mut j: usize = i;
    while j < n
        invariant
            i <= j <= n,
            n == s@.len(),
            forall|k: int| i <= k < j ==> spec_is_digit(s@[k]),
        decreases n - j,
    {
        if !is_digit(s.get_char(j)) {
            return j;
        }
        j += 1;
    }
    j
}

/// Under the parse hypothesis for a number, the digit run at `i` is
/// exactly the number's decimal representation.
proof fn lemma_digit_run(s: Seq<char>, i: int, j: int, n: u64, rest: Seq<char>)
    requires
        0 <= i <= s.len(),
        s.skip(i) == spec_enc_u64(n) + rest,
        rest.len() > 0 ==> !spec_is_digit(rest[0]),
        i <= j <= s.len(),
        forall|k: int| i <= k < j ==> spec_is_digit(s[k]),
        j < s.len() ==> !spec_is_digit(s[j]),
    ensures
        j == i + spec_enc_u64(n).len(),
        s.subrange(i, j) == spec_enc_u64(n),
{
    let d = spec_enc_u64(n);
    lemma_dec_u64_digits(n as int);
    lemma_skip_concat(s, i, d, rest);
    assert forall|k: int| 0 <= k < d.len() implies s[i + k] == d[k] by {
        assert(s.skip(i)[k] == s[i + k]);
        assert((d + rest)[k] == d[k]);
    }
    // the run covers all of d
    if j < i + d.len() {
        assert(s[j] == d[j - i]);
        assert(spec_is_digit(d[j - i]));
        assert(j < s.len());
    }
    // and no more
    if j > i + d.len() {
        assert(rest.len() > 0) by {
            assert(s.len() - i == d.len() + rest.len());
        }
        assert(s.skip(i + d.len())[0] == s[i + d.len()]);
        assert(rest[0] == s[i + d.len()]);
        assert(spec_is_digit(s[i + d.len()]));
    }
    assert(s.subrange(i, j) =~= d);
}

/// Parse a decimal `u64` at position `i`: a nonempty digit run without a
/// leading zero whose value fits.
pub fn parse_u64(s: &str, i: usize) -> (r: Option<(u64, usize)>)
    requires
        i <= s@.len(),
    ensures
        r matches Some(p) ==> i < p.1 <= s@.len() && s@.subrange(i as int, p.1 as int)
            == spec_enc_u64(p.0),
        forall|n: u64, rest: Seq<char>|
            s@.skip(i as int) == spec_enc_u64(n) + rest && (rest.len() > 0 ==> !spec_is_digit(
                rest[0],
            )) ==> (r matches Some(p) && p.0 == n && p.1 == i + spec_enc_u64(n).len()),
{
    let j = scan_digits(s, i);
    if j == i {
        proof {
            assert forall|n: u64, rest: Seq<char>|
                s@.skip(i as int) == spec_enc_u64(n) + rest && (rest.len() > 0 ==> !spec_is_digit(
                    rest[0],
                )) implies false by {
                lemma_digit_run(s@, i as int, j as int, n, rest);
                lemma_dec_u64_digits(n as int);
            }
        }
        return None;
    }
    if s.get_char(i) == '0' && j > i + 1 {
        proof {
            assert forall|n: u64, rest: Seq<char>|
                s@.skip(i as int) == spec_enc_u64(n) + rest && (rest.len() > 0 ==> !spec_is_digit(
                    rest[0],
                )) implies false by {
                lemma_digit_run(s@, i as int, j as int, n, rest);
                lemma_dec_no_leading_zero(n as int);
                assert(s@.subrange(i as int, j as int)[0] == s@[i as int]);
            }
        }
        return None;
    }
    let ghost run = s@.subrange(i as int, j as int);
    proof {
        assert(spec_all_digits(run));
        assert(s@.subrange(i as int, i as int) =~= Seq::<char>::empty());
    }
    let mut acc: u64 = 0;
    let mut k: usize = i;
    while k < j
        invariant
            i <= k <= j <= s@.len(),
            run == s@.subrange(i as int, j as int),
            spec_all_digits(run),
            acc == spec_val_of(s@.subrange(i as int, k as int)),
            forall|q: int| i <= q < j ==> spec_is_digit(s@[q]),
            j < s@.len() ==> !spec_is_digit(s@[j as int]),
            i < j,
        decreases j - k,
    {
        let c = s.get_char(k);
        assert(spec_is_digit(c));
        let d: u64 = (c as u32 as u64) - 48;
        proof {
            assert(s@.subrange(i as int, k + 1).drop_last() =~= s@.subrange(i as int, k as int));
            assert(s@.subrange(i as int, k + 1).last() == s@[k as int]);
            lemma_val_of_nonneg(s@.subrange(i as int, k as int));
        }
        if acc > (0xFFFF_FFFF_FFFF_FFFF - d) / 10 {
            proof {
                assert forall|n: u64, rest: Seq<char>|
                    s@.skip(i as int) == spec_enc_u64(n) + rest && (rest.len() > 0
                        ==> !spec_is_digit(rest[0])) implies false by {
                    lemma_digit_run(s@, i as int, j as int, n, rest);
                    lemma_val_of_dec(n as int);
                    assert(spec_val_of(run) == n);
                    assert(spec_all_digits(run));
                    lemma_val_of_prefix(run, k + 1 - i, run.len() as int);
                    assert(run.subrange(0, run.len() as int) =~= run);
                    assert(run.subrange(0, k + 1 - i) =~= s@.subrange(i as int, k + 1));
                    assert(spec_val_of(s@.subrange(i as int, k + 1)) <= n);
                    assert(spec_val_of(s@.subrange(i as int, k + 1)) == acc * 10 + d);
                    assert(acc * 10 + d > 0xFFFF_FFFF_FFFF_FFFF) by (nonlinear_arith)
                        requires
                            acc > (0xFFFF_FFFF_FFFF_FFFFu64 - d) / 10,
                            0 <= d < 10,
                            acc >= 0;
                }
            }
            return None;
        }
        proof {
            assert(acc * 10 + d <= 0xFFFF_FFFF_FFFF_FFFF) by (nonlinear_arith)
                requires
                    acc <= (0xFFFF_FFFF_FFFF_FFFFu64 - d) / 10,
                    0 <= d < 10,
                    acc >= 0;
        }
        acc = acc * 10 + d;
        k += 1;
    }
    proof {
        assert(s@.subrange(i as int, j as int) == run);
        assert(acc == spec_val_of(run));
        lemma_dec_val_of(run);
        assert(run[0] == s@[i as int]);
        assert(s@.subrange(i as int, j as int) == spec_enc_u64(acc));
        assert forall|n: u64, rest: Seq<char>|
            s@.skip(i as int) == spec_enc_u64(n) + rest && (rest.len() > 0 ==> !spec_is_digit(
                rest[0],
            )) implies acc == n && j == i + spec_enc_u64(n).len() by {
            lemma_digit_run(s@, i as int, j as int, n, rest);
            lemma_val_of_dec(n as int);
        }
    }
    Some((acc, j))
}

/// Parse a decimal `u32` at position `i`.
pub fn parse_u32(s: &str, i: usize) -> (r: Option<(u32, usize)>)
    requires
        i <= s@.len(),
    ensures
        r matches Some(p) ==> i < p.1 <= s@.len() && s@.subrange(i as int, p.1 as int)
            == crate::codec::spec_enc_u32(p.0),
        forall|n: u32, rest: Seq<char>|
            s@.skip(i as int) == crate::codec::spec_enc_u32(n) + rest && (rest.len() > 0
                ==> !spec_is_digit(rest[0])) ==> (r matches Some(p) && p.0 == n && p.1 == i
                + crate::codec::spec_enc_u32(n).len()),
{
    match parse_u64(s, i) {
        Option::None => {
            proof {
                assert forall|n: u32, rest: Seq<char>|
                    s@.skip(i as int) == crate::codec::spec_enc_u32(n) + rest && (rest.len() > 0
                        ==> !spec_is_digit(rest[0])) implies false by {
                    assert(crate::codec::spec_enc_u32(n) == spec_enc_u64(n as u64));
                }
            }
            None
        },
        Option::Some((v, j)) => {
            if v <= 0xFFFF_FFFF {
                proof {
                    assert forall|n: u32, rest: Seq<char>|
                        s@.skip(i as int) == crate::codec::spec_enc_u32(n) + rest && (rest.len()
                            > 0 ==> !spec_is_digit(rest[0])) implies v as u32 == n && j == i
                        + crate::codec::spec_enc_u32(n).len() by {
                        assert(crate::codec::spec_enc_u32(n) == spec_enc_u64(n as u64));
                    }
                }
                Some((v as u32, j))
            } else {
                proof {
                    assert forall|n: u32, rest: Seq<char>|
                        s@.skip(i as int) == crate::codec::spec_enc_u32(n) + rest && (rest.len()
                            > 0 ==> !spec_is_digit(rest[0])) implies false by {
                        assert(crate::codec::spec_enc_u32(n) == spec_enc_u64(n as u64));
                    }
                }
                None
            }
        },
    }
}

/// Parse a decimal `i32` at position `i`: an optional minus sign and a
/// digit run.
pub fn parse_i32(s: &str, i: usize) -> (r: Option<(i32, usize)>)
    requires
        i <= s@.len(),
    ensures
        r matches Some(p) ==> i < p.1 <= s@.len() && s@.subrange(i as int, p.1 as int)
            == crate::codec::spec_enc_i32(p.0),
        forall|n: i32, rest: Seq<char>|
            s@.skip(i as int) == crate::codec::spec_enc_i32(n) + rest && (rest.len() > 0
                ==> !spec_is_digit(rest[0])) ==> (r matches Some(p) && p.0 == n && p.1 == i
                + crate::codec::spec_enc_i32(n).len()),
{
    let n_len = s.unicode_len();
    if i < n_len && s.get_char(i) == '-' {
        let mag = match parse_u64(s, i + 1) {
            Option::None => {
                proof {
                    assert forall|n: i32, rest: Seq<char>|
                        s@.skip(i as int) == crate::codec::spec_enc_i32(n) + rest && (rest.len()
                            > 0 ==> !spec_is_digit(rest[0])) implies false by {
                        lemma_neg_hyp(s@, i as int, n, rest);
                    }
                }
                return None;
            },
            Option::Some(p) => p,
        };
        let (m, j) = mag;
        if 1 <= m && m <= 0x8000_0000 {
            let v: i32 = if m == 0x8000_0000 {
                i32::MIN
            } else {
                -((m as i64) as i32)
            };
            proof {
                assert(v as int == -(m as int));
                assert(s@.subrange(i as int, j as int) =~= seq!['-'] + s@.subrange(
                    i + 1,
                    j as int,
                ));
                assert forall|n: i32, rest: Seq<char>|
                    s@.skip(i as int) == crate::codec::spec_enc_i32(n) + rest && (rest.len() > 0
                        ==> !spec_is_digit(rest[0])) implies v == n && j == i
                    + crate::codec::spec_enc_i32(n).len() by {
                    lemma_neg_hyp(s@, i as int, n, rest);
                }
            }
            Some((v, j))
        } else {
            proof {
                assert forall|n: i32, rest: Seq<char>|
                    s@.skip(i as int) == crate::codec::spec_enc_i32(n) + rest && (rest.len() > 0
                        ==> !spec_is_digit(rest[0])) implies false by {
                    lemma_neg_hyp(s@, i as int, n, rest);
                }
            }
            None
        }
    } else {
        match parse_u64(s, i) {
            Option::None => {
                proof {
                    assert forall|n: i32, rest: Seq<char>|
                        s@.skip(i as int) == crate::codec::spec_enc_i32(n) + rest && (rest.len()
                            > 0 ==> !spec_is_digit(rest[0])) implies false by {
                        lemma_pos_hyp(s@, i as int, n, rest, n_len as int);
                    }
                }
                None
            },
            Option::Some((m, j)) => {
                if m <= 0x7FFF_FFFF {
                    proof {
                        assert forall|n: i32, rest: Seq<char>|
                            s@.skip(i as int) == crate::codec::spec_enc_i32(n) + rest && (
                            rest.len() > 0 ==> !spec_is_digit(rest[0])) implies m as i32 == n && j
                            == i + crate::codec::spec_enc_i32(n).len() by {
                            lemma_pos_hyp(s@, i as int, n, rest, n_len as int);
                        }
                    }
                    Some((m as i32, j))
                } else {
                    proof {
                        assert forall|n: i32, rest: Seq<char>|
                            s@.skip(i as int) == crate::codec::spec_enc_i32(n) + rest && (
                            rest.len() > 0 ==> !spec_is_digit(rest[0])) implies false by {
                            lemma_pos_hyp(s@, i as int, n, rest, n_len as int);
                        }
                    }
                    None
                }
            },
        }
    }
}

/// Under the `i32` parse hypothesis with a leading minus sign, the number
/// is negative and its magnitude's digits follow the sign.
proof fn lemma_neg_hyp(s: Seq<char>, i: int, n: i32, rest: Seq<char>)
    requires
        0 <= i <= s.len(),
        s.skip(i) == crate::codec::spec_enc_i32(n) + rest,
        i < s.len() && s[i] == '-',
    ensures
        n < 0,
        s.skip(i + 1) == spec_enc_u64((-(n as int)) as u64) + rest,
        1 <= -(n as int) <= 0x8000_0000,
{
    if n >= 0 {
        lemma_dec_u64_digits(n as int);
        lemma_skip_first(s, i, crate::codec::spec_enc_i32(n), rest);
        assert(spec_is_digit(spec_dec_u64(n as int)[0]));
        assert(spec_is_digit('-'));
    }
    let mag = spec_dec_u64(-(n as int));
    lemma_concat_associative(seq!['-'], mag, rest);
    assert(s.skip(i) == seq!['-'] + (mag + rest));
    lemma_skip_concat(s, i, seq!['-'], mag + rest);
    assert(spec_enc_u64((-(n as int)) as u64) == mag);
}

/// Under the `i32` parse hypothesis without a leading minus sign, the
/// number is the digit run itself.
proof fn lemma_pos_hyp(s: Seq<char>, i: int, n: i32, rest: Seq<char>, len: int)
    requires
        0 <= i <= s.len(),
        len == s.len(),
        s.skip(i) == crate::codec::spec_enc_i32(n) + rest,
        !(i < s.len() && s[i] == '-'),
    ensures
        n >= 0,
        s.skip(i) == spec_enc_u64(n as u64) + rest,
        0 <= n <= 0x7FFF_FFFF,
{
    if n < 0 {
        lemma_skip_first(s, i, crate::codec::spec_enc_i32(n), rest);
        assert(crate::codec::spec_enc_i32(n)[0] == '-');
    }
    assert(spec_enc_u64(n as u64) == crate::codec::spec_enc_i32(n));
}

/// Parse `true` or `false` at position `i`.
pub fn parse_bool(s: &str, i: usize) -> (r: Option<(bool, usize)>)
    requires
        i <= s@.len(),
    ensures
        r matches Some(p) ==> i < p.1 <= s@.len() && s@.subrange(i as int, p.1 as int)
            == crate::codec::spec_enc_bool(p.0),
        forall|b: bool, rest: Seq<char>|
            s@.skip(i as int) == crate::codec::spec_enc_bool(b) + rest ==> (r matches Some(p)
                && p.0 == b && p.1 == i + crate::codec::spec_enc_bool(b).len()),
{
    proof {
        reveal_strlit("true");
        reveal_strlit("false");
    }
    match parse_lit(s, i, "true") {
        Option::Some(j) => {
            proof {
                assert forall|b: bool, rest: Seq<char>|
                    s@.skip(i as int) == crate::codec::spec_enc_bool(b) + rest implies (b && j
                    == i + crate::codec::spec_enc_bool(b).len()) by {
                    if !b {
                        lemma_skip_first(s@, i as int, "false"@, rest);
                        assert(s@.subrange(i as int, j as int)[0] == s@[i as int]);
                    }
                }
            }
            Some((true, j))
        },
        Option::None => {
            match parse_lit(s, i, "false") {
                Option::Some(j) => {
                    proof {
                        assert forall|b: bool, rest: Seq<char>|
                            s@.skip(i as int) == crate::codec::spec_enc_bool(b) + rest implies (!b
                            && j == i + crate::codec::spec_enc_bool(b).len()) by {
                            if b {
                                lemma_skip_first(s@, i as int, "true"@, rest);
                                assert(s@.subrange(i as int, j as int)[0] == s@[i as int]);
                            }
                        }
                    }
                    Some((false, j))
                },
                Option::None => None,
            }
        },
    }
}

/// Translate the character after a backslash back to the character it
/// stands for.
pub open spec fn spec_unesc(d: char) -> Option<char> {
    if d == '"' {
        Some('"')
    } else if d == '\\' {
        Some('\\')
    } else if d == 'n' {
        Some('\n')
    } else if d == 'r' {
        Some('\r')
    } else if d == 't' {
        Some('\t')
    } else {
        None
    }
}

/// Parse the body of a JSON string literal at position `i` (just after
/// the opening quote), through its closing quote.
pub fn parse_str_body(s: &str, i: usize) -> (r: Option<(String, usize)>)
    requires
        i <= s@.len(),
    ensures
        r matches Some(p) ==> i < p.1 <= s@.len() && s@.subrange(i as int, p.1 as int)
            == spec_escape(p.0@) + seq!['"'],
        forall|t: Seq<char>, rest: Seq<char>|
            s@.skip(i as int) == spec_escape(t) + seq!['"'] + rest ==> (r matches Some(p) && p.0@
                == t && p.1 == i + spec_escape(t).len() + 1),
    decreases s@.len() - i,
{
    let n = s.unicode_len();
    if i >= n {
        proof {
            assert forall|t: Seq<char>, rest: Seq<char>|
                s@.skip(i as int) == spec_escape(t) + seq!['"'] + rest implies false by {
                assert(s@.skip(i as int).len() == 0);
            }
        }
        return None;
    }
    let c = s.get_char(i);
    if c == '"' {
        proof {
            assert(s@.subrange(i as int, i + 1) =~= seq!['"']);
            assert(spec_escape(Seq::<char>::empty()) + seq!['"'] =~= seq!['"']);
            assert forall|t: Seq<char>, rest: Seq<char>|
                s@.skip(i as int) == spec_escape(t) + seq!['"'] + rest implies t
                =~= Seq::<char>::empty() by {
                if t.len() > 0 {
                    lemma_concat_associative(spec_escape(t), seq!['"'], rest);
                    lemma_skip_first(s@, i as int, spec_escape(t), seq!['"'] + rest);
                    assert(spec_escape(t)[0] == spec_esc_char(t[0])[0]);
                }
            }
        }
        return Some((String::new(), i + 1));
    }
    if c == '\\' {
        if i + 1 >= n {
            proof {
                assert forall|t: Seq<char>, rest: Seq<char>|
                    s@.skip(i as int) == spec_escape(t) + seq!['"'] + rest implies false by {
                    lemma_str_body_esc_shape(s@, i as int, t, rest);
                }
            }
            return None;
        }
        let d = s.get_char(i + 1);
        let u: char = if d == '"' {
            '"'
        } else if d == '\\' {
            '\\'
        } else if d == 'n' {
            '\n'
        } else if d == 'r' {
            '\r'
        } else if d == 't' {
            '\t'
        } else {
            proof {
                assert forall|t: Seq<char>, rest: Seq<char>|
                    s@.skip(i as int) == spec_escape(t) + seq!['"'] + rest implies false by {
                    lemma_str_body_esc_shape(s@, i as int, t, rest);
                }
            }
            return None;
        };
        assert(spec_unesc(d) == Some(u));
        match parse_str_body(s, i + 2) {
            Option::None => {
                proof {
                    assert forall|t: Seq<char>, rest: Seq<char>|
                        s@.skip(i as int) == spec_escape(t) + seq!['"'] + rest implies false by {
                        lemma_str_body_esc_shape(s@, i as int, t, rest);
                    }
                }
                None
            },
            Option::Some((tail, j)) => {
                let mut out = String::new();
                push_char(&mut out, u);
                out.append(tail.as_str());
                proof {
                    assert(out@ =~= seq![u] + tail@);
                    assert(spec_esc_char(u) =~= seq!['\\', d]);
                    assert((seq![u] + tail@)[0] == u);
                    assert((seq![u] + tail@).skip(1) =~= tail@);
                    assert(spec_escape(out@) == spec_esc_char(u) + spec_escape(tail@));
                    assert(s@.subrange(i as int, j as int) =~= seq!['\\', d] + s@.subrange(
                        i + 2,
                        j as int,
                    ));
                    assert(spec_escape(out@) + seq!['"'] =~= seq!['\\', d] + (spec_escape(tail@)
                        + seq!['"']));
                    assert(s@.subrange(i as int, j as int) == spec_escape(out@) + seq!['"']);
                    assert forall|t: Seq<char>, rest: Seq<char>|
                        s@.skip(i as int) == spec_escape(t) + seq!['"'] + rest implies (out@ == t
                        && j == i + spec_escape(t).len() + 1) by {
                        lemma_str_body_esc_shape(s@, i as int, t, rest);
                        assert(t[0] == u);
                        assert(tail@ == t.skip(1));
                        assert(out@ =~= t);
                    }
                }
                Some((out, j))
            },
        }
    } else {
        if c == '\n' || c == '\r' || c == '\t' {
            proof {
                assert forall|t: Seq<char>, rest: Seq<char>|
                    s@.skip(i as int) == spec_escape(t) + seq!['"'] + rest implies false by {
                    lemma_str_body_raw_shape(s@, i as int, t, rest);
                }
            }
            return None;
        }
        match parse_str_body(s, i + 1) {
            Option::None => {
                proof {
                    assert forall|t: Seq<char>, rest: Seq<char>|
                        s@.skip(i as int) == spec_escape(t) + seq!['"'] + rest implies false by {
                        lemma_str_body_raw_shape(s@, i as int, t, rest);
                    }
                }
                None
            },
            Option::Some((tail, j)) => {
                let mut out = String::new();
                push_char(&mut out, c);
                out.append(tail.as_str());
                proof {
                    assert(out@ =~= seq![c] + tail@);
                    assert(spec_esc_char(c) =~= seq![c]);
                    assert((seq![c] + tail@)[0] == c);
                    assert((seq![c] + tail@).skip(1) =~= tail@);
                    assert(spec_escape(out@) == spec_esc_char(c) + spec_escape(tail@));
                    assert(s@.subrange(i as int, j as int) =~= seq![c] + s@.subrange(
                        i + 1,
                        j as int,
                    ));
                    assert(spec_escape(out@) + seq!['"'] =~= seq![c] + (spec_escape(tail@)
                        + seq!['"']));
                    assert(s@.subrange(i as int, j as int) == spec_escape(out@) + seq!['"']);
                    assert forall|t: Seq<char>, rest: Seq<char>|
                        s@.skip(i as int) == spec_escape(t) + seq!['"'] + rest implies (out@ == t
                        && j == i + spec_escape(t).len() + 1) by {
                        lemma_str_body_raw_shape(s@, i as int, t, rest);
                        assert(t[0] == c);
                        assert(tail@ == t.skip(1));
                        assert(out@ =~= t);
                    }
                }
                Some((out, j))
            },
        }
    }
}

/// Under the string-body parse hypothesis, a backslash at the front means
/// the hypothetical string starts with an escaped character whose escape
/// pair sits at the front of the text.
proof fn lemma_str_body_esc_shape(s: Seq<char>, i: int, t: Seq<char>, rest: Seq<char>)
    requires
        0 <= i < s.len(),
        s.skip(i) == spec_escape(t) + seq!['"'] + rest,
        s[i] == '\\',
    ensures
        t.len() >= 1,
        spec_unesc(s[i + 1]) matches Some(u) && u == t[0],
        i + 2 <= s.len(),
        s.skip(i + 2) == spec_escape(t.skip(1)) + seq!['"'] + rest,
{
    lemma_concat_associative(spec_escape(t), seq!['"'], rest);
    if t.len() == 0 {
        lemma_skip_first(s, i, seq!['"'], rest);
    }
    assert(t.len() >= 1);
    let e0 = spec_esc_char(t[0]);
    assert(spec_escape(t) == e0 + spec_escape(t.skip(1)));
    lemma_concat_associative(e0, spec_escape(t.skip(1)), seq!['"'] + rest);
    assert(s.skip(i) == e0 + (spec_escape(t.skip(1)) + (seq!['"'] + rest)));
    lemma_skip_first(s, i, e0, spec_escape(t.skip(1)) + (seq!['"'] + rest));
    assert(e0[0] == '\\');
    assert(e0.len() == 2);
    lemma_skip_concat(s, i, e0, spec_escape(t.skip(1)) + (seq!['"'] + rest));
    assert(s.skip(i + 2) == spec_escape(t.skip(1)) + (seq!['"'] + rest));
    lemma_concat_associative(spec_escape(t.skip(1)), seq!['"'], rest);
    // the mapped character at position i + 1
    assert(s.skip(i)[1] == s[i + 1]);
    assert((e0 + (spec_escape(t.skip(1)) + (seq!['"'] + rest)))[1] == e0[1]);
    assert(spec_unesc(e0[1]) == Some(t[0]));
}

/// Under the string-body parse hypothesis, an unescaped ordinary character
/// at the front is the hypothetical string's first character.
proof fn lemma_str_body_raw_shape(s: Seq<char>, i: int, t: Seq<char>, rest: Seq<char>)
    requires
        0 <= i < s.len(),
        s.skip(i) == spec_escape(t) + seq!['"'] + rest,
        s[i] != '"',
        s[i] != '\\',
    ensures
        t.len() >= 1,
        t[0] == s[i],
        spec_esc_char(t[0]) == seq![s[i]],
        s[i] != '\n' && s[i] != '\r' && s[i] != '\t',
        i + 1 <= s.len(),
        s.skip(i + 1) == spec_escape(t.skip(1)) + seq!['"'] + rest,
{
    lemma_concat_associative(spec_escape(t), seq!['"'], rest);
    if t.len() == 0 {
        lemma_skip_first(s, i, seq!['"'], rest);
    }
    assert(t.len() >= 1);
    let e0 = spec_esc_char(t[0]);
    assert(spec_escape(t) == e0 + spec_escape(t.skip(1)));
    lemma_concat_associative(e0, spec_escape(t.skip(1)), seq!['"'] + rest);
    assert(s.skip(i) == e0 + (spec_escape(t.skip(1)) + (seq!['"'] + rest)));
    lemma_skip_first(s, i, e0, spec_escape(t.skip(1)) + (seq!['"'] + rest));
    assert(e0[0] == s[i]);
    assert(t[0] == s[i] && e0 == seq![s[i]]);
    lemma_skip_concat(s, i, e0, spec_escape(t.skip(1)) + (seq!['"'] + rest));
    lemma_concat_associative(spec_escape(t.skip(1)), seq!['"'], rest);
}

/// Parse a JSON string literal at position `i`.
pub fn parse_json_str(s: &str, i: usize) -> (r: Option<(String, usize)>)
    requires
        i <= s@.len(),
    ensures
        r matches Some(p) ==> i < p.1 <= s@.len() && s@.subrange(i as int, p.1 as int)
            == spec_enc_str(p.0@),
        forall|t: Seq<char>, rest: Seq<char>|
            s@.skip(i as int) == spec_enc_str(t) + rest ==> (r matches Some(p) && p.0@ == t && p.1
                == i + spec_enc_str(t).len()),
{
    let n = s.unicode_len();
    if i >= n || s.get_char(i) != '"' {
        proof {
            assert forall|t: Seq<char>, rest: Seq<char>|
                s@.skip(i as int) == spec_enc_str(t) + rest implies false by {
                lemma_enc_str_shape(s@, i as int, t, rest);
            }
        }
        return None;
    }
    match parse_str_body(s, i + 1) {
        Option::None => {
            proof {
                assert forall|t: Seq<char>, rest: Seq<char>|
                    s@.skip(i as int) == spec_enc_str(t) + rest implies false by {
                    lemma_enc_str_shape(s@, i as int, t, rest);
                }
            }
            None
        },
        Option::Some((out, j)) => {
            proof {
                assert(s@.subrange(i as int, j as int) =~= seq!['"'] + s@.subrange(
                    i + 1,
                    j as int,
                ));
                assert(spec_enc_str(out@) =~= seq!['"'] + (spec_escape(out@) + seq!['"']));
                assert(s@.subrange(i as int, j as int) == spec_enc_str(out@));
                assert forall|t: Seq<char>, rest: Seq<char>|
                    s@.skip(i as int) == spec_enc_str(t) + rest implies (out@ == t && j == i
                    + spec_enc_str(t).len()) by {
                    lemma_enc_str_shape(s@, i as int, t, rest);
                }
            }
            Some((out, j))
        },
    }
}

/// A suffix that equals an encoded string literal starts with a quote, and
/// what follows is a string body.
pub proof fn lemma_enc_str_shape(s: Seq<char>, i: int, t: Seq<char>, rest: Seq<char>)
    requires
        0 <= i <= s.len(),
        s.skip(i) == spec_enc_str(t) + rest,
    ensures
        i < s.len(),
        s[i] == '"',
        s.skip(i + 1) == spec_escape(t) + seq!['"'] + rest,
{
    lemma_concat_associative(seq!['"'], spec_escape(t), seq!['"']);
    assert(spec_enc_str(t) == seq!['"'] + (spec_escape(t) + seq!['"']));
    lemma_concat_associative(seq!['"'], spec_escape(t) + seq!['"'], rest);
    assert(s.skip(i) == seq!['"'] + ((spec_escape(t) + seq!['"']) + rest));
    lemma_skip_first(s, i, seq!['"'], (spec_escape(t) + seq!['"']) + rest);
    lemma_skip_concat(s, i, seq!['"'], (spec_escape(t) + seq!['"']) + rest);
    lemma_concat_associative(spec_escape(t), seq!['"'], rest);
}

/// Whether two optional strings hold the same text.
pub open spec fn opt_str_eq(a: Option<String>, b: Option<String>) -> bool {
    match (a, b) {
        (Option::None, Option::None) => true,
        (Option::Some(x), Option::Some(y)) => x@ == y@,
        _ => false,
    }
}

/// Whether two string lists hold the same texts in the same order.
pub open spec fn str_list_eq(a: Seq<String>, b: Seq<String>) -> bool {
    a.len() == b.len() && forall|k: int| 0 <= k < a.len() ==> a[k]@ == b[k]@
}

/// Whether two optional string lists hold the same texts.
pub open spec fn opt_str_vec_eq(a: Option<Vec<String>>, b: Option<Vec<String>>) -> bool {
    match (a, b) {
        (Option::None, Option::None) => true,
        (Option::Some(x), Option::Some(y)) => str_list_eq(x@, y@),
        _ => false,
    }
}

/// Parse `null` or a JSON string literal at position `i`.
pub fn parse_opt_str(s: &str, i: usize) -> (r: Option<(Option<String>, usize)>)
    requires
        i <= s@.len(),
    ensures
        r matches Some(p) ==> i < p.1 <= s@.len() && s@.subrange(i as int, p.1 as int)
            == crate::codec::spec_enc_opt_str(p.0),
        forall|o: Option<String>, rest: Seq<char>|
            s@.skip(i as int) == crate::codec::spec_enc_opt_str(o) + rest ==> (r matches Some(p)
                && opt_str_eq(p.0, o) && p.1 == i + crate::codec::spec_enc_opt_str(o).len()),
{
    proof {
        reveal_strlit("null");
    }
    let n = s.unicode_len();
    if i < n && s.get_char(i) == 'n' {
        match parse_lit(s, i, "null") {
            Option::Some(j) => {
                proof {
                    assert forall|o: Option<String>, rest: Seq<char>|
                        s@.skip(i as int) == crate::codec::spec_enc_opt_str(o) + rest implies (o
                        is None && j == i + crate::codec::spec_enc_opt_str(o).len()) by {
                        if o is Some {
                            lemma_enc_str_shape(
                                s@,
                                i as int,
                                o->Some_0@,
                                rest,
                            );
                        }
                    }
                }
                Some((None, j))
            },
            Option::None => {
                proof {
                    assert forall|o: Option<String>, rest: Seq<char>|
                        s@.skip(i as int) == crate::codec::spec_enc_opt_str(o) + rest implies
                        false by {
                        if o is Some {
                            lemma_enc_str_shape(s@, i as int, o->Some_0@, rest);
                        }
                    }
                }
                None
            },
        }
    } else {
        match parse_json_str(s, i) {
            Option::Some((t, j)) => {
                proof {
                    assert forall|o: Option<String>, rest: Seq<char>|
                        s@.skip(i as int) == crate::codec::spec_enc_opt_str(o) + rest implies (o
                        matches Some(x) && t@ == x@ && j == i + crate::codec::spec_enc_opt_str(
                            o,
                        ).len()) by {
                        if o is None {
                            lemma_skip_first(s@, i as int, "null"@, rest);
                        }
                    }
                }
                Some((Some(t), j))
            },
            Option::None => {
                proof {
                    assert forall|o: Option<String>, rest: Seq<char>|
                        s@.skip(i as int) == crate::codec::spec_enc_opt_str(o) + rest implies
                        false by {
                        if o is None {
                            lemma_skip_first(s@, i as int, "null"@, rest);
                        } else {
                            lemma_enc_str_shape(s@, i as int, o->Some_0@, rest);
                        }
                    }
                }
                None
            },
        }
    }
}

/// Parse `null` or a decimal `u64` at position `i`.
pub fn parse_opt_u64(s: &str, i: usize) -> (r: Option<(Option<u64>, usize)>)
    requires
        i <= s@.len(),
    ensures
        r matches Some(p) ==> i < p.1 <= s@.len() && s@.subrange(i as int, p.1 as int)
            == crate::codec::spec_enc_opt_u64(p.0),
        forall|o: Option<u64>, rest: Seq<char>|
            s@.skip(i as int) == crate::codec::spec_enc_opt_u64(o) + rest && (rest.len() > 0
                ==> !spec_is_digit(rest[0])) ==> (r matches Some(p) && p.0 == o && p.1 == i
                + crate::codec::spec_enc_opt_u64(o).len()),
{
    proof {
        reveal_strlit("null");
    }
    let n = s.unicode_len();
    if i < n && s.get_char(i) == 'n' {
        match parse_lit(s, i, "null") {
            Option::Some(j) => {
                proof {
                    assert forall|o: Option<u64>, rest: Seq<char>|
                        s@.skip(i as int) == crate::codec::spec_enc_opt_u64(o) + rest && (
                        rest.len() > 0 ==> !spec_is_digit(rest[0])) implies (o is None && j == i
                        + crate::codec::spec_enc_opt_u64(o).len()) by {
                        if o is Some {
                            let m = o->Some_0;
                            lemma_dec_u64_digits(m as int);
                            lemma_skip_first(s@, i as int, spec_enc_u64(m), rest);
                        }
                    }
                }
                Some((None, j))
            },
            Option::None => {
                proof {
                    assert forall|o: Option<u64>, rest: Seq<char>|
                        s@.skip(i as int) == crate::codec::spec_enc_opt_u64(o) + rest && (
                        rest.len() > 0 ==> !spec_is_digit(rest[0])) implies false by {
                        if o is Some {
                            let m = o->Some_0;
                            lemma_dec_u64_digits(m as int);
                            lemma_skip_first(s@, i as int, spec_enc_u64(m), rest);
                        }
                    }
                }
                None
            },
        }
    } else {
        match parse_u64(s, i) {
            Option::Some((m, j)) => {
                proof {
                    assert forall|o: Option<u64>, rest: Seq<char>|
                        s@.skip(i as int) == crate::codec::spec_enc_opt_u64(o) + rest && (
                        rest.len() > 0 ==> !spec_is_digit(rest[0])) implies (o == Some(m) && j
                        == i + crate::codec::spec_enc_opt_u64(o).len()) by {
                        if o is None {
                            lemma_skip_first(s@, i as int, "null"@, rest);
                        }
                    }
                }
                Some((Some(m), j))
            },
            Option::None => {
                proof {
                    assert forall|o: Option<u64>, rest: Seq<char>|
                        s@.skip(i as int) == crate::codec::spec_enc_opt_u64(o) + rest && (
                        rest.len() > 0 ==> !spec_is_digit(rest[0])) implies false by {
                        if o is None {
                            lemma_skip_first(s@, i as int, "null"@, rest);
                        }
                    }
                }
                None
            },
        }
    }
}

/// Parse `null` or a decimal `u32` at position `i`.
pub fn parse_opt_u32(s: &str, i: usize) -> (r: Option<(Option<u32>, usize)>)
    requires
        i <= s@.len(),
    ensures
        r matches Some(p) ==> i < p.1 <= s@.len() && s@.subrange(i as int, p.1 as int)
            == crate::codec::spec_enc_opt_u32(p.0),
        forall|o: Option<u32>, rest: Seq<char>|
            s@.skip(i as int) == crate::codec::spec_enc_opt_u32(o) + rest && (rest.len() > 0
                ==> !spec_is_digit(rest[0])) ==> (r matches Some(p) && p.0 == o && p.1 == i
                + crate::codec::spec_enc_opt_u32(o).len()),
{
    proof {
        reveal_strlit("null");
    }
    let n = s.unicode_len();
    if i < n && s.get_char(i) == 'n' {
        match parse_lit(s, i, "null") {
            Option::Some(j) => {
                proof {
                    assert forall|o: Option<u32>, rest: Seq<char>|
                        s@.skip(i as int) == crate::codec::spec_enc_opt_u32(o) + rest && (
                        rest.len() > 0 ==> !spec_is_digit(rest[0])) implies (o is None && j == i
                        + crate::codec::spec_enc_opt_u32(o).len()) by {
                        if o is Some {
                            let m = o->Some_0;
                            lemma_dec_u64_digits(m as int);
                            lemma_skip_first(s@, i as int, crate::codec::spec_enc_u32(m), rest);
                        }
                    }
                }
                Some((None, j))
            },
            Option::None => {
                proof {
                    assert forall|o: Option<u32>, rest: Seq<char>|
                        s@.skip(i as int) == crate::codec::spec_enc_opt_u32(o) + rest && (
                        rest.len() > 0 ==> !spec_is_digit(rest[0])) implies false by {
                        if o is Some {
                            let m = o->Some_0;
                            lemma_dec_u64_digits(m as int);
                            lemma_skip_first(s@, i as int, crate::codec::spec_enc_u32(m), rest);
                        }
                    }
                }
                None
            },
        }
    } else {
        match parse_u32(s, i) {
            Option::Some((m, j)) => {
                proof {
                    assert forall|o: Option<u32>, rest: Seq<char>|
                        s@.skip(i as int) == crate::codec::spec_enc_opt_u32(o) + rest && (
                        rest.len() > 0 ==> !spec_is_digit(rest[0])) implies (o == Some(m) && j
                        == i + crate::codec::spec_enc_opt_u32(o).len()) by {
                        if o is None {
                            lemma_skip_first(s@, i as int, "null"@, rest);
                        }
                    }
                }
                Some((Some(m), j))
            },
            Option::None => {
                proof {
                    assert forall|o: Option<u32>, rest: Seq<char>|
                        s@.skip(i as int) == crate::codec::spec_enc_opt_u32(o) + rest && (
                        rest.len() > 0 ==> !spec_is_digit(rest[0])) implies false by {
                        if o is None {
                            lemma_skip_first(s@, i as int, "null"@, rest);
                        }
                    }
                }
                None
            },
        }
    }
}

/// Parse `null` or a decimal `i32` at position `i`.
pub fn parse_opt_i32(s: &str, i: usize) -> (r: Option<(Option<i32>, usize)>)
    requires
        i <= s@.len(),
    ensures
        r matches Some(p) ==> i < p.1 <= s@.len() && s@.subrange(i as int, p.1 as int)
            == crate::codec::spec_enc_opt_i32(p.0),
        forall|o: Option<i32>, rest: Seq<char>|
            s@.skip(i as int) == crate::codec::spec_enc_opt_i32(o) + rest && (rest.len() > 0
                ==> !spec_is_digit(rest[0])) ==> (r matches Some(p) && p.0 == o && p.1 == i
                + crate::codec::spec_enc_opt_i32(o).len()),
{
    proof {
        reveal_strlit("null");
    }
    let n = s.unicode_len();
    if i < n && s.get_char(i) == 'n' {
        match parse_lit(s, i, "null") {
            Option::Some(j) => {
                proof {
                    assert forall|o: Option<i32>, rest: Seq<char>|
                        s@.skip(i as int) == crate::codec::spec_enc_opt_i32(o) + rest && (
                        rest.len() > 0 ==> !spec_is_digit(rest[0])) implies (o is None && j == i
                        + crate::codec::spec_enc_opt_i32(o).len()) by {
                        if o is Some {
                            let m = o->Some_0;
                            lemma_enc_i32_head(m);
                            lemma_skip_first(s@, i as int, crate::codec::spec_enc_i32(m), rest);
                        }
                    }
                }
                Some((None, j))
            },
            Option::None => {
                proof {
                    assert forall|o: Option<i32>, rest: Seq<char>|
                        s@.skip(i as int) == crate::codec::spec_enc_opt_i32(o) + rest && (
                        rest.len() > 0 ==> !spec_is_digit(rest[0])) implies false by {
                        if o is Some {
                            let m = o->Some_0;
                            lemma_enc_i32_head(m);
                            lemma_skip_first(s@, i as int, crate::codec::spec_enc_i32(m), rest);
                        }
                    }
                }
                None
            },
        }
    } else {
        match parse_i32(s, i) {
            Option::Some((m, j)) => {
                proof {
                    assert forall|o: Option<i32>, rest: Seq<char>|
                        s@.skip(i as int) == crate::codec::spec_enc_opt_i32(o) + rest && (
                        rest.len() > 0 ==> !spec_is_digit(rest[0])) implies (o == Some(m) && j
                        == i + crate::codec::spec_enc_opt_i32(o).len()) by {
                        if o is None {
                            lemma_skip_first(s@, i as int, "null"@, rest);
                        }
                    }
                }
                Some((Some(m), j))
            },
            Option::None => {
                proof {
                    assert forall|o: Option<i32>, rest: Seq<char>|
                        s@.skip(i as int) == crate::codec::spec_enc_opt_i32(o) + rest && (
                        rest.len() > 0 ==> !spec_is_digit(rest[0])) implies false by {
                        if o is None {
                            lemma_skip_first(s@, i as int, "null"@, rest);
                        }
                    }
                }
                None
            },
        }
    }
}

/// An encoded `i32` starts with a digit or a minus sign, never with `n`.
proof fn lemma_enc_i32_head(m: i32)
    ensures
        crate::codec::spec_enc_i32(m).len() > 0,
        crate::codec::spec_enc_i32(m)[0] == '-' || spec_is_digit(crate::codec::spec_enc_i32(m)[0]),
        crate::codec::spec_enc_i32(m)[0] != 'n',
{
    if m < 0 {
        lemma_dec_u64_digits(-(m as int));
    } else {
        lemma_dec_u64_digits(m as int);
    }
}

} // verus!
