//! Verified building blocks for working with strings: equality,
//! searching, numeric conversion and lexicographic comparison.
//! Contracts are stated over `Seq<char>` views.

use vstd::prelude::*;

verus! {

/// Relies on String::push: appends exactly the given character.
#[verifier::external_body]
pub(crate) fn push_char(s: &mut String, c: char)
    ensures
        final(s)@ == old(s)@ + seq![c],
{
    s.push(c);
}

/// Character-wise string equality.
pub fn str_eq(a: &str, b: &str) -> (r: bool)
    ensures
        r == (a@ == b@),
{
    let na = a.unicode_len();
    let nb = b.unicode_len();
    if na != nb {
        proof {
            assert(a@ != b@);
        }
        return false;
    }
    let mut i: usize = 0;
    while i < na
        invariant
            i <= na,
            na == a@.len(),
            na == b@.len(),
            forall|j: int| 0 <= j < i ==> a@[j] == b@[j],
        decreases na - i,
    {
        if a.get_char(i) != b.get_char(i) {
            return false;
        }
        i = i + 1;
    }
    proof {
        assert(a@ =~= b@);
    }
    true
}

/// The needle occurs in the haystack starting at position `i`.
pub open spec fn spec_match_at(h: Seq<char>, n: Seq<char>, i: int) -> bool {
    0 <= i && i + n.len() <= h.len() && h.subrange(i, i + n.len() as int) == n
}

/// The needle occurs somewhere in the haystack.
pub open spec fn spec_contains(h: Seq<char>, n: Seq<char>) -> bool {
    exists|i: int| spec_match_at(h, n, i)
}

/// Whether the needle occurs in the haystack at position `i`.
pub fn match_at(h: &str, n: &str, i: usize) -> (r: bool)
    requires
        i + n@.len() <= h@.len(),
    ensures
        r == spec_match_at(h@, n@, i as int),
{
    let lh = h.unicode_len();
    let ln = n.unicode_len();
    let mut j: usize = 0;
    while j < ln
        invariant
            j <= ln,
            ln == n@.len(),
            lh == h@.len(),
            i + ln <= lh,
            forall|k: int| 0 <= k < j ==> h@[i + k] == n@[k],
        decreases ln - j,
    {
        if h.get_char(i + j) != n.get_char(j) {
            proof {
                assert(h@.subrange(i as int, i + n@.len() as int)[j as int] == h@[i + j]);
            }
            return false;
        }
        j = j + 1;
    }
    proof {
        assert(h@.subrange(i as int, i + n@.len() as int) =~= n@);
    }
    true
}

/// The position of the first occurrence of the needle, if any.
pub fn find_str(h: &str, n: &str) -> (r: Option<usize>)
    ensures
        match r {
            Some(i) => spec_match_at(h@, n@, i as int) && forall|j: int|
                0 <= j < i ==> !spec_match_at(h@, n@, j),
            None => forall|j: int| !spec_match_at(h@, n@, j),
        },
{
    let lh = h.unicode_len();
    let ln = n.unicode_len();
    if ln > lh {
        return None;
    }
    let bound = lh - ln;
    let mut i: usize = 0;
    loop
        invariant
            ln <= lh,
            lh == h@.len(),
            ln == n@.len(),
            bound == lh - ln,
            i <= bound,
            forall|j: int| 0 <= j < i ==> !spec_match_at(h@, n@, j),
        decreases bound - i,
    {
        if match_at(h, n, i) {
            return Some(i);
        }
        if i == bound {
            proof {
                assert(forall|j: int| j > bound ==> !spec_match_at(h@, n@, j));
            }
            return None;
        }
        i = i + 1;
    }
}

/// The needle occurs at position `i` and nowhere earlier.
pub open spec fn is_first_match(h: Seq<char>, n: Seq<char>, i: int) -> bool {
    spec_match_at(h, n, i) && forall|j: int| 0 <= j < i ==> !spec_match_at(h, n, j)
}

/// The position of the first occurrence of the needle, if any.
pub open spec fn spec_find_str(h: Seq<char>, n: Seq<char>) -> Option<int> {
    if spec_contains(h, n) {
        Some(choose|i: int| is_first_match(h, n, i))
    } else {
        None
    }
}

/// A first match is the unique one, so it is what `spec_find_str` denotes.
pub proof fn lemma_find_str_unique(h: Seq<char>, n: Seq<char>, i: int)
    requires
        is_first_match(h, n, i),
    ensures
        spec_find_str(h, n) == Some(i),
{
    assert(spec_contains(h, n));
    let k = choose|j: int| is_first_match(h, n, j);
    assert(is_first_match(h, n, k));
    if k < i {
        assert(spec_match_at(h, n, k));
        assert(false);
    }
    if i < k {
        assert(spec_match_at(h, n, i));
        assert(false);
    }
}

/// The position of the first occurrence of the needle, as
/// `spec_find_str` denotes it.
pub fn find_str_spec(h: &str, n: &str) -> (r: Option<usize>)
    ensures
        match r {
            Some(i) => spec_find_str(h@, n@) == Some(i as int) && spec_match_at(h@, n@, i as int),
            None => spec_find_str(h@, n@) is None,
        },
{
    match find_str(h, n) {
        Some(i) => {
            proof {
                lemma_find_str_unique(h@, n@, i as int);
            }
            Some(i)
        },
        None => {
            proof {
                assert(!spec_contains(h@, n@));
            }
            None
        },
    }
}

/// Whether the haystack contains the needle.
pub fn contains_str(h: &str, n: &str) -> (r: bool)
    ensures
        r == spec_contains(h@, n@),
{
    match find_str(h, n) {
        Some(_) => true,
        None => false,
    }
}

/// The string starts with the given prefix.
pub open spec fn spec_starts_with(s: Seq<char>, p: Seq<char>) -> bool {
    spec_match_at(s, p, 0)
}

/// Whether the string starts with the given prefix.
pub fn starts_with(s: &str, p: &str) -> (r: bool)
    ensures
        r == spec_starts_with(s@, p@),
{
    if p.unicode_len() > s.unicode_len() {
        return false;
    }
    match_at(s, p, 0)
}

/// The position of the first occurrence of the character, if any.
pub fn find_char(s: &str, c: char) -> (r: Option<usize>)
    ensures
        match r {
            Some(i) => i < s@.len() && s@[i as int] == c && forall|j: int|
                0 <= j < i ==> s@[j] != c,
            None => forall|j: int| 0 <= j < s@.len() ==> s@[j] != c,
        },
{
    let n = s.unicode_len();
    let mut i: usize = 0;
    while i < n
        invariant
            i <= n,
            n == s@.len(),
            forall|j: int| 0 <= j < i ==> s@[j] != c,
        decreases n - i,
    {
        if s.get_char(i) == c {
            return Some(i);
        }
        i = i + 1;
    }
    None
}

/// A decimal digit.
pub open spec fn is_digit(c: char) -> bool {
    '0' <= c && c <= '9'
}

/// The numeric value of a sequence of decimal digits, most significant first.
pub open spec fn digits_value(s: Seq<char>) -> int
    decreases s.len(),
{
    if s.len() == 0 {
        0
    } else {
        digits_value(s.drop_last()) * 10 + (s.last() as u32 - '0' as u32)
    }
}

/// Every character is a decimal digit.
pub open spec fn all_digits(s: Seq<char>) -> bool {
    forall|i: int| 0 <= i < s.len() ==> is_digit(s[i])
}

/// The digits of a numeral, with an optional leading `+` removed.
pub open spec fn numeral_body(s: Seq<char>) -> Seq<char> {
    if s.len() > 0 && s[0] == '+' {
        s.skip(1)
    } else {
        s
    }
}

/// The value denoted by a decimal numeral: an optional leading `+`,
/// then one or more digits.
pub open spec fn spec_numeral(s: Seq<char>) -> Option<int> {
    if numeral_body(s).len() > 0 && all_digits(numeral_body(s)) {
        Some(digits_value(numeral_body(s)))
    } else {
        None
    }
}

proof fn lemma_digits_value_take(s: Seq<char>, i: int)
    requires
        0 <= i < s.len(),
    ensures
        digits_value(s.take(i + 1)) == digits_value(s.take(i)) * 10 + (s[i] as u32 - '0' as u32),
    decreases s.len(),
{
    assert(s.take(i + 1).drop_last() =~= s.take(i));
    assert(s.take(i + 1).last() == s[i]);
}

proof fn lemma_digits_value_nonneg(s: Seq<char>)
    requires
        forall|j: int| 0 <= j < s.len() ==> is_digit(s[j]),
    ensures
        digits_value(s) >= 0,
    decreases s.len(),
{
    if s.len() > 0 {
        assert(forall|j: int| 0 <= j < s.drop_last().len() ==> is_digit(s.drop_last()[j]));
        lemma_digits_value_nonneg(s.drop_last());
    }
}

proof fn lemma_digits_value_monotone(s: Seq<char>, i: int)
    requires
        0 <= i <= s.len(),
        forall|j: int| 0 <= j < s.len() ==> is_digit(s[j]),
    ensures
        digits_value(s.take(i)) <= digits_value(s),
    decreases s.len() - i,
{
    if i < s.len() {
        lemma_digits_value_take(s, i);
        assert(forall|j: int| 0 <= j < s.take(i).len() ==> is_digit(s.take(i)[j]));
        lemma_digits_value_nonneg(s.take(i));
        lemma_digits_value_monotone(s, i + 1);
    } else {
        assert(s.take(i) =~= s);
    }
}

/// Parses a decimal numeral, as `str::parse` for an unsigned 64-bit
/// integer does: an optional leading `+`, then digits; overflow fails.
pub fn parse_u64(s: &str) -> (r: Option<u64>)
    ensures
        match spec_numeral(s@) {
            Some(v) => if 0 <= v <= u64::MAX {
                r == Some(v as u64)
            } else {
                r is None
            },
            None => r is None,
        },
{
    let n = s.unicode_len();
    let start: usize = if n > 0 && s.get_char(0) == '+' {
        1
    } else {
        0
    };
    let ghost body = numeral_body(s@);
    proof {
        assert(body =~= s@.subrange(start as int, n as int));
    }
    if start >= n {
        return None;
    }
    let mut acc: u64 = 0;
    let mut i: usize = start;
    while i < n
        invariant
            start <= i <= n,
            n == s@.len(),
            body == numeral_body(s@),
            body == s@.subrange(start as int, n as int),
            forall|j: int| start <= j < i ==> is_digit(s@[j]),
            acc == digits_value(body.take(i - start)),
        decreases n - i,
    {
        let c = s.get_char(i);
        if !('0' <= c && c <= '9') {
            proof {
                assert(body[i - start] == c);
                assert(!is_digit(body[i - start]));
                assert(!all_digits(body));
                assert(spec_numeral(s@) is None);
            }
            return None;
        }
        proof {
            assert(body[i - start] == c);
            assert('0' as u32 <= c as u32 <= '9' as u32);
            lemma_digits_value_take(body, i - start);
            assert(forall|j: int| 0 <= j < i - start + 1 ==> is_digit(#[trigger] body.take(
                i - start + 1,
            )[j]));
            lemma_digits_value_nonneg(body.take(i - start + 1));
        }
        let d: u64 = (c as u32 - '0' as u32) as u64;
        if acc > (u64::MAX - d) / 10 {
            proof {
                assert(digits_value(body.take(i - start + 1)) == acc * 10 + d);
                assert(acc * 10 + d > u64::MAX) by (nonlinear_arith)
                    requires
                        acc > (u64::MAX - d) / 10,
                        0 <= d <= 9,
                ;
                if spec_numeral(s@) is Some {
                    assert(all_digits(body));
                    lemma_digits_value_monotone(body, i - start + 1);
                    assert(digits_value(body) > u64::MAX);
                }
            }
            return None;
        }
        acc = acc * 10 + d;
        i = i + 1;
    }
    proof {
        assert(body.take(n - start) =~= body);
        assert(all_digits(body));
    }
    Some(acc)
}

/// The decimal digit character for a value below ten.
pub open spec fn digit_char(d: int) -> char {
    ('0' as u32 + d) as char
}

/// The decimal numeral of an unsigned integer, most significant digit first.
pub open spec fn spec_u64_string(n: int) -> Seq<char>
    decreases n,
{
    if n < 10 {
        seq![digit_char(n)]
    } else {
        spec_u64_string(n / 10) + seq![digit_char(n % 10)]
    }
}

fn digit_str(d: u64) -> (r: &'static str)
    requires
        d < 10,
    ensures
        r@ == seq![digit_char(d as int)],
{
    proof {
        reveal_strlit("0");
        reveal_strlit("1");
        reveal_strlit("2");
        reveal_strlit("3");
        reveal_strlit("4");
        reveal_strlit("5");
        reveal_strlit("6");
        reveal_strlit("7");
        reveal_strlit("8");
        reveal_strlit("9");
    }
    if d == 0 {
        "0"
    } else if d == 1 {
        "1"
    } else if d == 2 {
        "2"
    } else if d == 3 {
        "3"
    } else if d == 4 {
        "4"
    } else if d == 5 {
        "5"
    } else if d == 6 {
        "6"
    } else if d == 7 {
        "7"
    } else if d == 8 {
        "8"
    } else {
        "9"
    }
}

/// Appends the decimal numeral of `n` to the string.
pub fn append_u64(s: &mut String, n: u64)
    ensures
        final(s)@ == old(s)@ + spec_u64_string(n as int),
    decreases n,
{
    if n < 10 {
        let d = digit_str(n);
        s.append(d);
    } else {
        append_u64(s, n / 10);
        let d = digit_str(n % 10);
        s.append(d);
        proof {
            assert(old(s)@ + spec_u64_string(n as int) =~= old(s)@ + spec_u64_string(
                n as int / 10,
            ) + seq![digit_char(n as int % 10)]);
        }
    }
}

/// The code point of a character, with an ASCII capital letter folded
/// to its small form.
pub open spec fn lower_u32(c: char) -> u32 {
    if 'A' as u32 <= c as u32 && c as u32 <= 'Z' as u32 {
        (c as u32 + 32) as u32
    } else {
        c as u32
    }
}

/// The strings are equal once ASCII capitals in the first are folded.
pub open spec fn lower_eq(s: Seq<char>, t: Seq<char>) -> bool {
    s.len() == t.len() && forall|i: int| 0 <= i < s.len() ==> lower_u32(s[i]) == t[i] as u32
}

/// Whether the string equals the target after folding ASCII capitals.
pub fn eq_lower(s: &str, t: &str) -> (r: bool)
    ensures
        r == lower_eq(s@, t@),
{
    let ns = s.unicode_len();
    let nt = t.unicode_len();
    if ns != nt {
        return false;
    }
    let mut i: usize = 0;
    while i < ns
        invariant
            i <= ns,
            ns == s@.len(),
            ns == t@.len(),
            forall|j: int| 0 <= j < i ==> lower_u32(s@[j]) == t@[j] as u32,
        decreases ns - i,
    {
        let c = s.get_char(i) as u32;
        let d = t.get_char(i) as u32;
        let folded: u32 = if 65 <= c && c <= 90 {
            c + 32
        } else {
            c
        };
        if folded != d {
            return false;
        }
        i = i + 1;
    }
    true
}

/// The parts joined with the separator between consecutive parts.
pub open spec fn spec_join(parts: Seq<Seq<char>>, sep: Seq<char>) -> Seq<char>
    decreases parts.len(),
{
    if parts.len() == 0 {
        Seq::empty()
    } else if parts.len() == 1 {
        parts[0]
    } else {
        parts[0] + sep + spec_join(parts.skip(1), sep)
    }
}

proof fn lemma_join_push(parts: Seq<Seq<char>>, sep: Seq<char>, x: Seq<char>)
    requires
        parts.len() > 0,
    ensures
        spec_join(parts.push(x), sep) == spec_join(parts, sep) + sep + x,
    decreases parts.len(),
{
    if parts.len() == 1 {
        assert(parts.push(x)[0] == parts[0]);
        assert(parts.push(x).skip(1) =~= seq![x]);
        assert(spec_join(parts.push(x).skip(1), sep) == x);
        assert(spec_join(parts.push(x), sep) == parts[0] + sep + x);
        assert(spec_join(parts, sep) + sep + x =~= parts[0] + sep + x);
    } else {
        lemma_join_push(parts.skip(1), sep, x);
        assert(parts.push(x).skip(1) =~= parts.skip(1).push(x));
        assert(parts.push(x)[0] == parts[0]);
        assert(spec_join(parts.push(x), sep) =~= parts[0] + sep + spec_join(
            parts.skip(1).push(x),
            sep,
        ));
        assert(spec_join(parts, sep) + sep + x =~= parts[0] + sep + (spec_join(parts.skip(1), sep)
            + sep + x));
    }
}

/// Joins the parts, putting the separator between consecutive parts.
pub fn join(parts: &Vec<String>, sep: &str) -> (r: String)
    ensures
        r@ == spec_join(parts.deep_view(), sep@),
{
    let mut r = String::new();
    let mut i: usize = 0;
    while i < parts.len()
        invariant
            i <= parts@.len(),
            parts.deep_view().len() == parts@.len(),
            forall|j: int| 0 <= j < parts@.len() ==> parts.deep_view()[j] == parts@[j]@,
            r@ == spec_join(parts.deep_view().take(i as int), sep@),
        decreases parts@.len() - i,
    {
        if i > 0 {
            r.append(sep);
        }
        r.append(parts[i].as_str());
        proof {
            let views = parts.deep_view();
            assert(views.take(i + 1) =~= views.take(i as int).push(views[i as int]));
            if i == 0 {
                assert(views.take(1) =~= seq![views[0]]);
                assert(r@ =~= spec_join(views.take(1), sep@));
            } else {
                lemma_join_push(views.take(i as int), sep@, views[i as int]);
                assert(r@ =~= spec_join(views.take(i + 1), sep@));
            }
        }
        i = i + 1;
    }
    proof {
        assert(parts.deep_view().take(parts@.len() as int) =~= parts.deep_view());
    }
    r
}

/// Strict lexicographic order on character sequences, by code point;
/// a proper prefix comes first. This is the order `str` comparison uses.
pub open spec fn spec_str_lt(a: Seq<char>, b: Seq<char>) -> bool
    decreases a.len(),
{
    if b.len() == 0 {
        false
    } else if a.len() == 0 {
        true
    } else if a[0] != b[0] {
        (a[0] as u32) < (b[0] as u32)
    } else {
        spec_str_lt(a.skip(1), b.skip(1))
    }
}

/// Lexicographic order is transitive.
pub proof fn lemma_str_lt_trans(a: Seq<char>, b: Seq<char>, c: Seq<char>)
    requires
        spec_str_lt(a, b),
        spec_str_lt(b, c),
    ensures
        spec_str_lt(a, c),
    decreases a.len() + b.len() + c.len(),
{
    if a.len() == 0 {
    } else {
        if a[0] == b[0] && b[0] == c[0] {
            lemma_str_lt_trans(a.skip(1), b.skip(1), c.skip(1));
        }
    }
}

/// Lexicographic order is asymmetric.
pub proof fn lemma_str_lt_asymm(a: Seq<char>, b: Seq<char>)
    requires
        spec_str_lt(a, b),
    ensures
        !spec_str_lt(b, a),
{
    if spec_str_lt(b, a) {
        lemma_str_lt_trans(a, b, a);
        lemma_str_lt_irrefl(a);
    }
}

/// Lexicographic order is irreflexive.
pub proof fn lemma_str_lt_irrefl(a: Seq<char>)
    ensures
        !spec_str_lt(a, a),
    decreases a.len(),
{
    if a.len() > 0 {
        lemma_str_lt_irrefl(a.skip(1));
    }
}

/// Two strings neither of which comes before the other are equal.
pub proof fn lemma_str_lt_connex(a: Seq<char>, b: Seq<char>)
    requires
        !spec_str_lt(a, b),
        !spec_str_lt(b, a),
    ensures
        a == b,
    decreases a.len(),
{
    if b.len() == 0 {
        assert(a.len() == 0);
        assert(a =~= b);
    } else {
        assert(a.len() > 0);
        assert(a[0] as u32 == b[0] as u32);
        assert(a[0] == b[0]) by {
            vstd::utf8::char_u32_cast(a[0], a[0] as u32);
            vstd::utf8::char_u32_cast(b[0], b[0] as u32);
        }
        lemma_str_lt_connex(a.skip(1), b.skip(1));
        assert(a =~= b) by {
            assert(forall|i: int|
                1 <= i < a.len() ==> a[i] == a.skip(1)[i - 1] && b[i] == b.skip(1)[i - 1]);
        }
    }
}

/// Whether `a` comes strictly before `b` in lexicographic order.
pub fn str_lt(a: &str, b: &str) -> (r: bool)
    ensures
        r == spec_str_lt(a@, b@),
{
    let na = a.unicode_len();
    let nb = b.unicode_len();
    let mut i: usize = 0;
    proof {
        assert(a@.skip(0) =~= a@);
        assert(b@.skip(0) =~= b@);
    }
    loop
        invariant
            i <= na,
            i <= nb,
            na == a@.len(),
            nb == b@.len(),
            forall|j: int| 0 <= j < i ==> a@[j] == b@[j],
            spec_str_lt(a@, b@) == spec_str_lt(a@.skip(i as int), b@.skip(i as int)),
        decreases na - i,
    {
        if i >= nb {
            proof {
                assert(b@.skip(i as int).len() == 0);
            }
            return false;
        }
        if i >= na {
            proof {
                assert(a@.skip(i as int).len() == 0);
                assert(b@.skip(i as int).len() > 0);
            }
            return true;
        }
        let ca = a.get_char(i);
        let cb = b.get_char(i);
        proof {
            assert(a@.skip(i as int)[0] == a@[i as int]);
            assert(b@.skip(i as int)[0] == b@[i as int]);
            assert(a@.skip(i as int).skip(1) =~= a@.skip(i + 1));
            assert(b@.skip(i as int).skip(1) =~= b@.skip(i + 1));
        }
        if ca != cb {
            return (ca as u32) < (cb as u32);
        }
        i = i + 1;
    }
}

} // verus!
