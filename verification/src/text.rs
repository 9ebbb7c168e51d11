//! Small string-building and digit helpers shared by the wire codec, the
//! error messages and the content planner.

use vstd::prelude::*;

verus! {

/// Relies on `String::push`: appends exactly the given character to the end
/// of the string.
#[verifier::external_body]
pub fn push_char(s: &mut String, c: char)
    ensures
        final(s)@ == old(s)@ + seq![c],
{
    s.push(c);
}

/// The decimal digit character for a value below ten.
pub open spec fn spec_digit_char(d: int) -> char {
    ((d + 48) as u8) as char
}

/// The numeric value of a decimal digit character.
pub open spec fn spec_digit_val(c: char) -> int {
    c as int - 48
}

/// Whether a character is a decimal digit.
pub open spec fn spec_is_digit(c: char) -> bool {
    48 <= c as int && c as int <= 57
}

/// The decimal representation of `n`, most significant digit first, with no
/// leading zeros (a single `'0'` for zero).
pub open spec fn spec_dec_u64(n: int) -> Seq<char>
    decreases n,
{
    if n < 10 {
        seq![spec_digit_char(n)]
    } else {
        spec_dec_u64(n / 10).push(spec_digit_char(n % 10))
    }
}

pub fn digit_char(d: u64) -> (c: char)
    requires
        d < 10,
    ensures
        c == spec_digit_char(d as int),
        spec_is_digit(c),
        spec_digit_val(c) == d,
{
    let c = (d as u8 + 48) as char;
    assert(c as int == d + 48);
    c
}

pub fn is_digit(c: char) -> (r: bool)
    ensures
        r == spec_is_digit(c),
{
    let v = c as u32;
    48 <= v && v <= 57
}

/// Append the decimal representation of `n` to `out`.
pub fn append_dec_u64(out: &mut String, n: u64)
    ensures
        final(out)@ == old(out)@ + spec_dec_u64(n as int),
    decreases n,
{
    if n < 10 {
        let c = digit_char(n);
        push_char(out, c);
    } else {
        append_dec_u64(out, n / 10);
        let c = digit_char(n % 10);
        push_char(out, c);
        assert(final(out)@ =~= old(out)@ + spec_dec_u64(n as int));
    }
}

/// The decimal representation of `n` as a string.
pub fn u64_to_string(n: u64) -> (s: String)
    ensures
        s@ == spec_dec_u64(n as int),
{
    let mut s = String::new();
    append_dec_u64(&mut s, n);
    assert(s@ =~= spec_dec_u64(n as int));
    s
}

/// Whether every character of `s` is a decimal digit.
pub open spec fn spec_all_digits(s: Seq<char>) -> bool {
    forall|i: int| 0 <= i < s.len() ==> spec_is_digit(#[trigger] s[i])
}

/// The numeric value of a digit sequence, most significant digit first.
pub open spec fn spec_val_of(s: Seq<char>) -> int
    decreases s.len(),
{
    if s.len() == 0 {
        0
    } else {
        spec_val_of(s.drop_last()) * 10 + spec_digit_val(s.last())
    }
}

/// Extending a digit sequence on the right never decreases its value.
pub proof fn lemma_val_of_prefix(s: Seq<char>, j: int, k: int)
    requires
        spec_all_digits(s),
        0 <= j <= k <= s.len(),
    ensures
        spec_val_of(s.subrange(0, j)) <= spec_val_of(s.subrange(0, k)),
        spec_val_of(s.subrange(0, k)) >= 0,
    decreases k - j,
{
    if j == k {
        lemma_val_of_nonneg(s.subrange(0, k));
    } else {
        lemma_val_of_prefix(s, j, k - 1);
        assert(s.subrange(0, k).drop_last() =~= s.subrange(0, k - 1));
        lemma_val_of_nonneg(s.subrange(0, k - 1));
        assert(spec_is_digit(s[k - 1]));
        assert(spec_val_of(s.subrange(0, k)) == spec_val_of(s.subrange(0, k - 1)) * 10
            + spec_digit_val(s[k - 1]));
        assert(spec_val_of(s.subrange(0, k - 1)) * 10 >= spec_val_of(s.subrange(0, k - 1)))
            by (nonlinear_arith)
            requires spec_val_of(s.subrange(0, k - 1)) >= 0;
    }
}

/// The value of an all-digit sequence is never negative.
pub proof fn lemma_val_of_nonneg(s: Seq<char>)
    requires
        spec_all_digits(s),
    ensures
        spec_val_of(s) >= 0,
    decreases s.len(),
{
    if s.len() > 0 {
        assert(spec_all_digits(s.drop_last()));
        lemma_val_of_nonneg(s.drop_last());
        assert(spec_is_digit(s.last()));
        assert(spec_val_of(s.drop_last()) * 10 >= 0) by (nonlinear_arith)
            requires spec_val_of(s.drop_last()) >= 0;
    }
}

/// Reading back the decimal representation of `n` yields `n`.
pub proof fn lemma_val_of_dec(n: int)
    requires
        0 <= n,
    ensures
        spec_val_of(spec_dec_u64(n)) == n,
    decreases n,
{
    if n < 10 {
        assert(spec_dec_u64(n) =~= seq![spec_digit_char(n)]);
        assert(spec_dec_u64(n).drop_last() =~= Seq::<char>::empty());
        assert(spec_dec_u64(n).last() == spec_digit_char(n));
        assert(spec_digit_val(spec_digit_char(n)) == n);
        assert(spec_val_of(spec_dec_u64(n)) == spec_val_of(Seq::<char>::empty()) * 10 + n);
    } else {
        lemma_val_of_dec(n / 10);
        let d = spec_dec_u64(n);
        assert(d.drop_last() =~= spec_dec_u64(n / 10));
        assert(d.last() == spec_digit_char(n % 10));
        assert(spec_digit_val(spec_digit_char(n % 10)) == n % 10);
        assert((n / 10) * 10 + n % 10 == n) by (nonlinear_arith);
    }
}

/// Every character of a decimal representation is a digit, and the first is
/// nonzero unless the number itself is a single zero digit.
pub proof fn lemma_dec_u64_digits(n: int)
    requires
        0 <= n,
    ensures
        spec_dec_u64(n).len() >= 1,
        forall|i: int|
            0 <= i < spec_dec_u64(n).len() ==> spec_is_digit(#[trigger] spec_dec_u64(n)[i]),
    decreases n,
{
    if n < 10 {
    } else {
        lemma_dec_u64_digits(n / 10);
    }
}

} // verus!
