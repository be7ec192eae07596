//! Release versions: the `major.minor.patch` shape, its numeric
//! ordering, and the scanner that pulls a `v`-prefixed version out of a
//! release file name.

use core::cmp::Ordering;
use vstd::prelude::*;

use crate::errors::SuiupError;
use crate::strutil::{
    append_u64, find_str_spec, is_digit, parse_u64, spec_find_str, spec_numeral, spec_u64_string,
};

verus! {

/// A release version, ordered numerically component by component, not
/// as a plain string: `1.40.1` comes after `1.9.0`.
#[derive(Debug, Clone, Copy, PartialEq, Eq, Structural)]
pub struct Ver {
    pub major: u64,
    pub minor: u64,
    pub patch: u64,
}

/// Numeric, component-wise strict order on versions.
pub open spec fn spec_ver_lt(a: Ver, b: Ver) -> bool {
    a.major < b.major || (a.major == b.major && (a.minor < b.minor || (a.minor == b.minor
        && a.patch < b.patch)))
}

/// Whether `a` denotes a strictly earlier version than `b`.
pub fn ver_lt(a: &Ver, b: &Ver) -> (r: bool)
    ensures
        r == spec_ver_lt(*a, *b),
{
    a.major < b.major || (a.major == b.major && (a.minor < b.minor || (a.minor == b.minor
        && a.patch < b.patch)))
}

impl PartialOrd for Ver {
    fn partial_cmp(&self, other: &Self) -> (r: Option<Ordering>) {
        if ver_lt(self, other) {
            Some(Ordering::Less)
        } else if ver_lt(other, self) {
            Some(Ordering::Greater)
        } else {
            Some(Ordering::Equal)
        }
    }
}

impl vstd::std_specs::cmp::PartialOrdSpecImpl for Ver {
    open spec fn obeys_partial_cmp_spec() -> bool {
        true
    }

    open spec fn partial_cmp_spec(&self, other: &Self) -> Option<Ordering> {
        if spec_ver_lt(*self, *other) {
            Some(Ordering::Less)
        } else if spec_ver_lt(*other, *self) {
            Some(Ordering::Greater)
        } else {
            Some(Ordering::Equal)
        }
    }
}

/// The version a `major.minor.patch` string denotes: exactly three
/// dot-separated decimal numerals, the first of which may carry a
/// leading `v`.
pub open spec fn spec_parse_ver(s: Seq<char>) -> Option<Ver> {
    match spec_find_str(s, "."@) {
        None => None,
        Some(i) => {
            let rest = s.skip(i + 1);
            match spec_find_str(rest, "."@) {
                None => None,
                Some(j) => {
                    let p0 = s.take(i);
                    let p1 = rest.take(j);
                    let p2 = rest.skip(j + 1);
                    if spec_find_str(p2, "."@) is Some {
                        None
                    } else {
                        let head = if p0.len() > 0 && p0[0] == 'v' {
                            p0.skip(1)
                        } else {
                            p0
                        };
                        match (spec_numeral(head), spec_numeral(p1), spec_numeral(p2)) {
                            (Some(ma), Some(mi), Some(pa)) => if 0 <= ma <= u64::MAX && 0 <= mi
                                <= u64::MAX && 0 <= pa <= u64::MAX {
                                Some(Ver { major: ma as u64, minor: mi as u64, patch: pa as u64 })
                            } else {
                                None
                            },
                            _ => None,
                        }
                    }
                },
            }
        },
    }
}

impl Ver {
    /// Parses a `major.minor.patch` version, tolerating a leading `v`.
    pub fn from_str(s: &str) -> (r: Result<Ver, SuiupError>)
        ensures
            match r {
                Ok(v) => spec_parse_ver(s@) == Some(v),
                Err(_) => spec_parse_ver(s@) is None,
            },
    {
        let i = match find_str_spec(s, ".") {
            Some(i) => i,
            None => {
                return Err(SuiupError::InvalidVersionFormat);
            },
        };
        let len = s.unicode_len();
        proof {
            reveal_strlit(".");
        }
        let p0 = s.substring_char(0, i);
        let rest = s.substring_char(i + 1, len);
        proof {
            assert(p0@ =~= s@.take(i as int));
            assert(rest@ =~= s@.skip(i + 1));
        }
        let j = match find_str_spec(rest, ".") {
            Some(j) => j,
            None => {
                return Err(SuiupError::InvalidVersionFormat);
            },
        };
        let rlen = rest.unicode_len();
        let p1 = rest.substring_char(0, j);
        let p2 = rest.substring_char(j + 1, rlen);
        proof {
            assert(p1@ =~= rest@.take(j as int));
            assert(p2@ =~= rest@.skip(j + 1));
        }
        if let Some(_) = find_str_spec(p2, ".") {
            return Err(SuiupError::InvalidVersionFormat);
        }
        let p0len = p0.unicode_len();
        let head = if p0len > 0 && p0.get_char(0) == 'v' {
            let h = p0.substring_char(1, p0len);
            proof {
                assert(h@ =~= p0@.skip(1));
            }
            h
        } else {
            p0
        };
        let major = match parse_u64(head) {
            Some(v) => v,
            None => {
                return Err(SuiupError::InvalidVersionFormat);
            },
        };
        let minor = match parse_u64(p1) {
            Some(v) => v,
            None => {
                return Err(SuiupError::InvalidVersionFormat);
            },
        };
        let patch = match parse_u64(p2) {
            Some(v) => v,
            None => {
                return Err(SuiupError::InvalidVersionFormat);
            },
        };
        Ok(Ver { major, minor, patch })
    }

    /// The version, written `major.minor.patch` without a `v` prefix.
    pub fn to_display_string(&self) -> (r: String)
        ensures
            r@ == spec_ver_string(*self),
    {
        let mut s = String::new();
        append_u64(&mut s, self.major);
        s.append(".");
        append_u64(&mut s, self.minor);
        s.append(".");
        append_u64(&mut s, self.patch);
        proof {
            reveal_strlit(".");
            assert(s@ =~= spec_ver_string(*self));
        }
        s
    }
}

/// The `major.minor.patch` rendering of a version.
pub open spec fn spec_ver_string(v: Ver) -> Seq<char> {
    spec_u64_string(v.major as int) + "."@ + spec_u64_string(v.minor as int) + "."@
        + spec_u64_string(v.patch as int)
}

/// The order "latest" selection uses on version strings: numeric,
/// component by component, when both parse as versions; a string that
/// is not a version comes before any that is; two non-versions fall
/// back to lexicographic order.
pub open spec fn spec_version_key_lt(a: Seq<char>, b: Seq<char>) -> bool {
    match (spec_parse_ver(a), spec_parse_ver(b)) {
        (Some(va), Some(vb)) => spec_ver_lt(va, vb),
        (None, Some(_)) => true,
        (Some(_), None) => false,
        (None, None) => crate::strutil::spec_str_lt(a, b),
    }
}

/// Whether `a` comes before `b` in the order "latest" selection uses.
pub fn version_key_lt(a: &str, b: &str) -> (r: bool)
    ensures
        r == spec_version_key_lt(a@, b@),
{
    match (Ver::from_str(a), Ver::from_str(b)) {
        (Ok(va), Ok(vb)) => ver_lt(&va, &vb),
        (Err(_), Ok(_)) => true,
        (Ok(_), Err(_)) => false,
        (Err(_), Err(_)) => crate::strutil::str_lt(a, b),
    }
}

/// Version ordering for "latest" selection is numeric on the
/// dot-separated integer components, never plain string order: on two
/// strings that parse as versions the selection order is exactly the
/// numeric component order.
pub proof fn lemma_version_order_numeric(a: Seq<char>, b: Seq<char>, va: Ver, vb: Ver)
    requires
        spec_parse_ver(a) == Some(va),
        spec_parse_ver(b) == Some(vb),
    ensures
        spec_version_key_lt(a, b) == spec_ver_lt(va, vb),
{
}

/// The selection order is irreflexive.
pub proof fn lemma_version_key_irrefl(a: Seq<char>)
    ensures
        !spec_version_key_lt(a, a),
{
    if spec_parse_ver(a) is None {
        crate::strutil::lemma_str_lt_irrefl(a);
    }
}

/// The selection order is asymmetric.
pub proof fn lemma_version_key_asymm(a: Seq<char>, b: Seq<char>)
    requires
        spec_version_key_lt(a, b),
    ensures
        !spec_version_key_lt(b, a),
{
    match (spec_parse_ver(a), spec_parse_ver(b)) {
        (None, None) => {
            crate::strutil::lemma_str_lt_asymm(a, b);
        },
        _ => {},
    }
}

/// Not coming after is transitive in the selection order: what is at
/// least as late as `b`, which is at least as late as `c`, is at
/// least as late as `c`.
pub proof fn lemma_version_key_at_least(a: Seq<char>, b: Seq<char>, c: Seq<char>)
    requires
        !spec_version_key_lt(a, b),
        !spec_version_key_lt(b, c),
    ensures
        !spec_version_key_lt(a, c),
{
    if spec_version_key_lt(a, c) {
        match (spec_parse_ver(a), spec_parse_ver(b), spec_parse_ver(c)) {
            (None, None, None) => {
                if crate::strutil::spec_str_lt(b, a) {
                    if crate::strutil::spec_str_lt(c, b) {
                        crate::strutil::lemma_str_lt_trans(a, c, b);
                    } else {
                        crate::strutil::lemma_str_lt_connex(b, c);
                    }
                } else {
                    crate::strutil::lemma_str_lt_connex(a, b);
                }
            },
            _ => {},
        }
    }
}

/// The end of the run of decimal digits that starts at `j`.
pub open spec fn spec_digit_run_end(s: Seq<char>, j: int) -> int
    decreases s.len() - j,
{
    if 0 <= j < s.len() && is_digit(s[j]) {
        spec_digit_run_end(s, j + 1)
    } else {
        j
    }
}

/// Where the version embedded at position `i` ends, if one begins
/// there: a `v`, then three runs of one or more digits separated by
/// dots, each run taken as long as possible.
pub open spec fn spec_ver_match_end(s: Seq<char>, i: int) -> Option<int> {
    if 0 <= i < s.len() && s[i] == 'v' {
        let e1 = spec_digit_run_end(s, i + 1);
        if e1 > i + 1 && e1 < s.len() && s[e1] == '.' {
            let e2 = spec_digit_run_end(s, e1 + 1);
            if e2 > e1 + 1 && e2 < s.len() && s[e2] == '.' {
                let e3 = spec_digit_run_end(s, e2 + 1);
                if e3 > e2 + 1 {
                    Some(e3)
                } else {
                    None
                }
            } else {
                None
            }
        } else {
            None
        }
    } else {
        None
    }
}

/// The version embedded in a release file name: the match that starts
/// earliest, written with its `v` prefix.
pub open spec fn spec_extract_version(s: Seq<char>) -> Option<Seq<char>> {
    if exists|i: int| spec_ver_match_end(s, i) is Some {
        let i = choose|i: int|
            spec_ver_match_end(s, i) is Some && forall|j: int|
                0 <= j < i ==> spec_ver_match_end(s, j) is None;
        Some(s.subrange(i, spec_ver_match_end(s, i)->Some_0))
    } else {
        None
    }
}

proof fn lemma_ver_match_least(s: Seq<char>, i: int)
    requires
        spec_ver_match_end(s, i) is Some,
        forall|j: int| 0 <= j < i ==> spec_ver_match_end(s, j) is None,
    ensures
        spec_extract_version(s) == Some(s.subrange(i, spec_ver_match_end(s, i)->Some_0)),
{
    assert(exists|k: int| spec_ver_match_end(s, k) is Some);
    let k = choose|k: int|
        spec_ver_match_end(s, k) is Some && forall|j: int|
            0 <= j < k ==> spec_ver_match_end(s, j) is None;
    assert(spec_ver_match_end(s, i) is Some && forall|j: int|
        0 <= j < i ==> spec_ver_match_end(s, j) is None);
    if k < i {
        assert(spec_ver_match_end(s, k) is None);
        assert(false);
    }
    if i < k {
        if i >= 0 {
            assert(spec_ver_match_end(s, i) is None);
            assert(false);
        } else {
            assert(spec_ver_match_end(s, i) is None);
            assert(false);
        }
    }
}

/// The end of the digit run starting at `j`.
fn digit_run_end(s: &str, j: usize) -> (r: usize)
    requires
        j <= s@.len(),
    ensures
        r == spec_digit_run_end(s@, j as int),
        j <= r <= s@.len(),
{
    let n = s.unicode_len();
    let mut k = j;
    loop
        invariant
            j <= k <= n,
            n == s@.len(),
            spec_digit_run_end(s@, j as int) == spec_digit_run_end(s@, k as int),
        decreases n - k,
    {
        if k >= n {
            return k;
        }
        let c = s.get_char(k);
        if !('0' <= c && c <= '9') {
            return k;
        }
        k = k + 1;
    }
}

/// Extracts the `v`-prefixed version embedded in a release file name,
/// such as `v1.39.3` out of a release archive name carrying it.
pub fn extract_version_from_release(release: &str) -> (r: Result<String, SuiupError>)
    ensures
        match r {
            Ok(v) => spec_extract_version(release@) == Some(v@),
            Err(e) => spec_extract_version(release@) is None && e@
                == crate::errors::ErrorView::NoVersionInRelease,
        },
{
    let n = release.unicode_len();
    let mut i: usize = 0;
    while i < n
        invariant
            i <= n,
            n == release@.len(),
            forall|j: int| 0 <= j < i ==> spec_ver_match_end(release@, j) is None,
        decreases n - i,
    {
        if release.get_char(i) == 'v' {
            let e1 = digit_run_end(release, i + 1);
            if e1 > i + 1 && e1 < n && release.get_char(e1) == '.' {
                let e2 = digit_run_end(release, e1 + 1);
                if e2 > e1 + 1 && e2 < n && release.get_char(e2) == '.' {
                    let e3 = digit_run_end(release, e2 + 1);
                    if e3 > e2 + 1 {
                        let m = release.substring_char(i, e3);
                        proof {
                            assert(spec_ver_match_end(release@, i as int) == Some(e3 as int));
                            lemma_ver_match_least(release@, i as int);
                        }
                        return Ok(m.to_owned());
                    }
                }
            }
            proof {
                assert(spec_ver_match_end(release@, i as int) is None);
            }
        }
        i = i + 1;
    }
    proof {
        assert(forall|j: int| spec_ver_match_end(release@, j) is Some ==> 0 <= j < n);
        assert(!(exists|j: int| spec_ver_match_end(release@, j) is Some));
    }
    Err(SuiupError::NoVersionInRelease)
}

} // verus!
