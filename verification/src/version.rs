//! Protocol version negotiation.  Both sides report `major.minor.patch`
//! strings; the caller decides compatibility from the parsed pair.

use vstd::prelude::*;
use vstd::string::*;
use crate::error::ViewerError;
use crate::text::{spec_all_digits, spec_is_digit, spec_digit_val, spec_val_of, is_digit,
    lemma_val_of_prefix, lemma_val_of_nonneg};

verus! {

/// Index of the first occurrence of `c` in `s`, or -1 if `c` does not
/// occur.
pub open spec fn spec_find_char(s: Seq<char>, c: char) -> int
    decreases s.len(),
{
    if s.len() == 0 {
        -1
    } else if s[0] == c {
        0
    } else if spec_find_char(s.skip(1), c) < 0 {
        -1
    } else {
        spec_find_char(s.skip(1), c) + 1
    }
}

/// `spec_find_char` returns -1 exactly when `c` is absent, and otherwise
/// the position of the first occurrence.
pub proof fn lemma_find_char(s: Seq<char>, c: char)
    ensures
        spec_find_char(s, c) == -1 || (0 <= spec_find_char(s, c) < s.len()),
        spec_find_char(s, c) == -1 ==> forall|i: int| 0 <= i < s.len() ==> s[i] != c,
        spec_find_char(s, c) >= 0 ==> s[spec_find_char(s, c)] == c,
        spec_find_char(s, c) >= 0 ==> forall|i: int| 0 <= i < spec_find_char(s, c) ==> s[i] != c,
    decreases s.len(),
{
    if s.len() == 0 {
    } else if s[0] == c {
    } else {
        lemma_find_char(s.skip(1), c);
        let r1 = spec_find_char(s.skip(1), c);
        if r1 == -1 {
            assert forall|i: int| 0 <= i < s.len() implies s[i] != c by {
                if i > 0 {
                    assert(s.skip(1)[i - 1] == s[i]);
                }
            }
        } else {
            assert(s.skip(1)[r1] == s[r1 + 1]);
            assert forall|i: int| 0 <= i < r1 + 1 implies s[i] != c by {
                if i > 0 {
                    assert(s.skip(1)[i - 1] == s[i]);
                }
            }
        }
    }
}

/// Position of the first occurrence of `c` in `s`, if any.
pub fn find_char(s: &str, c: char) -> (r: Option<usize>)
    ensures
        r matches Some(i) ==> spec_find_char(s@, c) == i as int,
        r is None ==> spec_find_char(s@, c) == -1,
{
    let n = s.unicode_len();
    let mut i: usize = 0;
    proof {
        lemma_find_char(s@, c);
    }
    while i < n
        invariant
            0 <= i <= n,
            n == s@.len(),
            forall|j: int| 0 <= j < i ==> s@[j] != c,
        decreases n - i,
    {
        if s.get_char(i) == c {
            proof {
                lemma_find_char(s@, c);
                let r = spec_find_char(s@, c);
                if r == -1 {
                    assert(s@[i as int] != c);
                } else if r < i {
                    assert(s@[r] != c);
                    assert(s@[r] == c);
                } else if r > i {
                    assert(s@[i as int] != c);
                }
            }
            return Some(i);
        }
        i += 1;
    }
    None
}

/// The numeric value of a nonempty all-digit segment, if it fits in `u32`.
pub open spec fn spec_parse_u32(seg: Seq<char>) -> Option<u32> {
    if seg.len() == 0 || !spec_all_digits(seg) {
        None
    } else if spec_val_of(seg) > u32::MAX {
        None
    } else {
        Some(spec_val_of(seg) as u32)
    }
}

/// Parse the characters of `s` between `from` and `to` as a decimal `u32`.
pub fn parse_u32_range(s: &str, from: usize, to: usize) -> (r: Option<u32>)
    requires
        from <= to <= s@.len(),
    ensures
        r == spec_parse_u32(s@.subrange(from as int, to as int)),
{
    let ghost seg = s@.subrange(from as int, to as int);
    if from == to {
        return None;
    }
    let mut acc: u64 = 0;
    let mut i: usize = from;
    while i < to
        invariant
            from <= i <= to <= s@.len(),
            seg == s@.subrange(from as int, to as int),
            spec_all_digits(seg.subrange(0, i - from)),
            acc == spec_val_of(seg.subrange(0, i - from)),
            acc <= u32::MAX,
        decreases to - i,
    {
        let c = s.get_char(i);
        assert(c == seg[i - from]);
        if !is_digit(c) {
            assert(!spec_all_digits(seg));
            return None;
        }
        let d: u64 = (c as u32 as u64) - 48;
        let next: u64 = acc * 10 + d;
        proof {
            let k = i - from;
            assert(seg.subrange(0, k + 1).drop_last() =~= seg.subrange(0, k));
            assert(seg.subrange(0, k + 1).last() == seg[k]);
            assert(spec_val_of(seg.subrange(0, k + 1)) == acc * 10 + spec_digit_val(seg[k]));
        }
        if next > 0xFFFF_FFFF {
            proof {
                if spec_all_digits(seg) {
                    lemma_val_of_prefix(seg, i + 1 - from, seg.len() as int);
                    assert(seg.subrange(0, seg.len() as int) =~= seg);
                }
            }
            return None;
        }
        acc = next;
        i += 1;
    }
    assert(seg.subrange(0, to - from) =~= seg);
    Some(acc as u32)
}

/// The result of reading a `major.minor.patch` version string: the segments
/// are separated by dots, there must be at least three, and the third is
/// truncated at the first `'-'` and then at the first `'+'` so that
/// pre-release and build-metadata suffixes are tolerated.
pub open spec fn spec_parse_version(s: Seq<char>) -> Option<(u32, u32, u32)> {
    let d1 = spec_find_char(s, '.');
    if d1 < 0 {
        None
    } else {
        let rest1 = s.skip(d1 + 1);
        let d2 = spec_find_char(rest1, '.');
        if d2 < 0 {
            None
        } else {
            let rest2 = rest1.skip(d2 + 1);
            let d3 = spec_find_char(rest2, '.');
            let third = if d3 < 0 { rest2 } else { rest2.take(d3) };
            let dm = spec_find_char(third, '-');
            let t2 = if dm < 0 { third } else { third.take(dm) };
            let dp = spec_find_char(t2, '+');
            let t3 = if dp < 0 { t2 } else { t2.take(dp) };
            match (spec_parse_u32(s.take(d1)), spec_parse_u32(rest1.take(d2)), spec_parse_u32(t3)) {
                (Some(major), Some(minor), Some(patch)) => Some((major, minor, patch)),
                _ => None,
            }
        }
    }
}

/// Parse a `major.minor.patch` version string.
pub fn parse_version(s: &str) -> (r: Option<(u32, u32, u32)>)
    ensures
        r == spec_parse_version(s@),
{
    let n = s.unicode_len();
    proof {
        lemma_find_char(s@, '.');
    }
    let d1 = match find_char(s, '.') {
        None => {
            return None;
        },
        Some(i) => i,
    };
    let rest1 = s.substring_char(d1 + 1, n);
    assert(rest1@ =~= s@.skip(d1 + 1));
    let rest1_len = n - (d1 + 1);
    proof {
        lemma_find_char(rest1@, '.');
    }
    let d2 = match find_char(rest1, '.') {
        None => {
            return None;
        },
        Some(i) => i,
    };
    let rest2 = rest1.substring_char(d2 + 1, rest1_len);
    assert(rest2@ =~= rest1@.skip(d2 + 1));
    let rest2_len = rest1_len - (d2 + 1);
    proof {
        lemma_find_char(rest2@, '.');
    }
    let third_end = match find_char(rest2, '.') {
        None => rest2_len,
        Some(i) => i,
    };
    let third = rest2.substring_char(0, third_end);
    assert(third@ =~= rest2@.take(third_end as int));
    proof {
        lemma_find_char(third@, '-');
        if spec_find_char(rest2@, '.') < 0 {
            assert(rest2@.take(rest2_len as int) =~= rest2@);
        }
    }
    let t2_end = match find_char(third, '-') {
        None => third_end,
        Some(i) => i,
    };
    let t2 = third.substring_char(0, t2_end);
    assert(t2@ =~= third@.take(t2_end as int));
    proof {
        lemma_find_char(t2@, '+');
        if spec_find_char(third@, '-') < 0 {
            assert(third@.take(third_end as int) =~= third@);
        }
    }
    let t3_end = match find_char(t2, '+') {
        None => t2_end,
        Some(i) => i,
    };
    proof {
        if spec_find_char(t2@, '+') < 0 {
            assert(t2@.take(t2_end as int) =~= t2@);
        }
    }
    let major = parse_u32_range(s, 0, d1);
    assert(s@.subrange(0, d1 as int) =~= s@.take(d1 as int));
    let minor = parse_u32_range(rest1, 0, d2);
    assert(rest1@.subrange(0, d2 as int) =~= rest1@.take(d2 as int));
    let patch = parse_u32_range(t2, 0, t3_end);
    assert(t2@.subrange(0, t3_end as int) =~= t2@.take(t3_end as int));
    match (major, minor, patch) {
        (Some(a), Some(b), Some(c)) => Some((a, b, c)),
        _ => None,
    }
}

/// Whether a viewer that reports version `v` may serve a library that
/// speaks version `lib`: a viewer version of `0.0` predates version
/// reporting and is always rejected; differing major versions are
/// incompatible; and while the library's major version is zero the minor
/// versions must also agree.
pub open spec fn spec_compatible(lib: (u32, u32, u32), v: (u32, u32, u32)) -> bool {
    &&& !(v.0 == 0 && v.1 == 0)
    &&& v.0 == lib.0
    &&& (lib.0 != 0 || v.1 == lib.1)
}

/// Decide whether the viewer's reported protocol version can serve this
/// library's version.  Malformed version strings are a parse failure,
/// distinct from a genuine version mismatch.
pub fn check_version_compatibility(library: &str, viewer: &str) -> (r: Result<(), ViewerError>)
    ensures
        r is Ok <==> (spec_parse_version(library@) matches Some(lib)
            && spec_parse_version(viewer@) matches Some(v) && spec_compatible(lib, v)),
        spec_parse_version(library@) is None ==> (r matches Err(e) && e matches
            ViewerError::InvalidResponse(m) && m@ == "malformed protocol version: "@ + library@),
        spec_parse_version(library@) is Some && spec_parse_version(viewer@) is None ==> (r matches
            Err(e) && e matches ViewerError::InvalidResponse(m) && m@
            == "malformed protocol version: "@ + viewer@),
        (spec_parse_version(library@) matches Some(lib) && spec_parse_version(viewer@)
            matches Some(v) && !spec_compatible(lib, v)) ==> (r matches Err(e) && e matches
            ViewerError::VersionMismatch { library: l, viewer: w, suggestion } && l@ == library@
            && w@ == viewer@),
{
    let lib = match parse_version(library) {
        None => {
            let mut m = String::from_str("malformed protocol version: ");
            m.append(library);
            return Err(ViewerError::InvalidResponse(m));
        },
        Some(t) => t,
    };
    let v = match parse_version(viewer) {
        None => {
            let mut m = String::from_str("malformed protocol version: ");
            m.append(viewer);
            return Err(ViewerError::InvalidResponse(m));
        },
        Some(t) => t,
    };
    if v.0 == 0 && v.1 == 0 {
        return Err(ViewerError::VersionMismatch {
            library: String::from_str(library),
            viewer: String::from_str(viewer),
            suggestion: String::from_str(
                "the viewer predates version reporting; please upgrade the viewer binary",
            ),
        });
    }
    if v.0 != lib.0 {
        return Err(ViewerError::VersionMismatch {
            library: String::from_str(library),
            viewer: String::from_str(viewer),
            suggestion: String::from_str(
                "major protocol versions differ; install matching library and viewer versions",
            ),
        });
    }
    if lib.0 == 0 && v.1 != lib.1 {
        return Err(ViewerError::VersionMismatch {
            library: String::from_str(library),
            viewer: String::from_str(viewer),
            suggestion: String::from_str(
                "pre-stable minor versions must match exactly; install matching versions",
            ),
        });
    }
    Ok(())
}

} // verus!
