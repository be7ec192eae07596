//! The JSON encoding of the tool's persisted documents: the
//! installed-binaries ledger, the promoted-defaults map, and the cached
//! release catalog. The writer emits one canonical form; the reader
//! accepts that form with ordinary JSON whitespace between tokens, and
//! fails loudly on anything else, so a corrupt store is an error,
//! never an empty store. Reading back what was written yields exactly
//! the written value.

use vstd::prelude::*;

use crate::strutil::push_char;

verus! {

/// The characters that are written escaped inside a JSON string.
pub open spec fn needs_escape(c: char) -> bool {
    c == '"' || c == '\\' || c == '\n' || c == '\t' || c == '\r'
}

/// The escape code a character is written as, after a backslash.
pub open spec fn escape_code(c: char) -> char {
    if c == '\n' {
        'n'
    } else if c == '\t' {
        't'
    } else if c == '\r' {
        'r'
    } else {
        c
    }
}

/// The character an escape code denotes.
pub open spec fn unescape_code(c: char) -> char {
    if c == 'n' {
        '\n'
    } else if c == 't' {
        '\t'
    } else if c == 'r' {
        '\r'
    } else {
        c
    }
}

/// An escape code the reader accepts.
pub open spec fn valid_escape_code(c: char) -> bool {
    c == '"' || c == '\\' || c == 'n' || c == 't' || c == 'r'
}

/// The escaped form of one character.
pub open spec fn esc_char(c: char) -> Seq<char> {
    if needs_escape(c) {
        seq!['\\', escape_code(c)]
    } else {
        seq![c]
    }
}

/// The escaped form of a string body.
pub open spec fn esc(s: Seq<char>) -> Seq<char>
    decreases s.len(),
{
    if s.len() == 0 {
        Seq::empty()
    } else {
        esc_char(s[0]) + esc(s.skip(1))
    }
}

/// A JSON string: a quote, the escaped body, a quote.
pub open spec fn ser_string(s: Seq<char>) -> Seq<char> {
    seq!['"'] + esc(s) + seq!['"']
}

/// A JSON boolean.
pub open spec fn ser_bool(b: bool) -> Seq<char> {
    if b {
        "true"@
    } else {
        "false"@
    }
}

/// Reads a string body up to its closing quote, starting at `i`. Yields
/// the decoded body and the position after the closing quote.
pub open spec fn ps_str_body(s: Seq<char>, i: int) -> Option<(Seq<char>, int)>
    decreases s.len() - i,
{
    if i < 0 || i >= s.len() {
        None
    } else if s[i] == '"' {
        Some((Seq::empty(), i + 1))
    } else if s[i] == '\\' {
        if i + 1 >= s.len() || !valid_escape_code(s[i + 1]) {
            None
        } else {
            match ps_str_body(s, i + 2) {
                Some((rest, e)) => Some((seq![unescape_code(s[i + 1])] + rest, e)),
                None => None,
            }
        }
    } else if needs_escape(s[i]) {
        None
    } else {
        match ps_str_body(s, i + 1) {
            Some((rest, e)) => Some((seq![s[i]] + rest, e)),
            None => None,
        }
    }
}

/// Reads a JSON string starting at `i`.
pub open spec fn ps_string(s: Seq<char>, i: int) -> Option<(Seq<char>, int)> {
    if 0 <= i < s.len() && s[i] == '"' {
        ps_str_body(s, i + 1)
    } else {
        None
    }
}

/// Reads the given literal text starting at `i`; yields the position
/// after it.
pub open spec fn ps_lit(s: Seq<char>, i: int, lit: Seq<char>) -> Option<int> {
    if 0 <= i && i + lit.len() <= s.len() && s.subrange(i, i + lit.len() as int) == lit {
        Some(i + lit.len() as int)
    } else {
        None
    }
}

/// Reads a JSON boolean starting at `i`.
pub open spec fn ps_bool(s: Seq<char>, i: int) -> Option<(bool, int)> {
    if ps_lit(s, i, "true"@) is Some {
        Some((true, ps_lit(s, i, "true"@)->Some_0))
    } else if ps_lit(s, i, "false"@) is Some {
        Some((false, ps_lit(s, i, "false"@)->Some_0))
    } else {
        None
    }
}

/// A JSON whitespace character, as printers put between tokens.
pub open spec fn is_json_ws(c: char) -> bool {
    c == ' ' || c == '\t' || c == '\n' || c == '\r'
}

/// The first position at or after `i` holding something other than
/// JSON whitespace.
pub open spec fn ws_end(s: Seq<char>, i: int) -> int
    decreases s.len() - i,
{
    if 0 <= i < s.len() && is_json_ws(s[i]) {
        ws_end(s, i + 1)
    } else {
        i
    }
}

/// Reads the given literal, tolerating whitespace before it.
pub open spec fn ps_tok(s: Seq<char>, i: int, lit: Seq<char>) -> Option<int> {
    ps_lit(s, ws_end(s, i), lit)
}

/// Reads a JSON string, tolerating whitespace before it.
pub open spec fn ps_string_tok(s: Seq<char>, i: int) -> Option<(Seq<char>, int)> {
    ps_string(s, ws_end(s, i))
}

/// Reads a JSON boolean, tolerating whitespace before it.
pub open spec fn ps_bool_tok(s: Seq<char>, i: int) -> Option<(bool, int)> {
    ps_bool(s, ws_end(s, i))
}

/// Reads a JSON string or `null`, tolerating whitespace before it.
pub open spec fn ps_opt_string_tok(s: Seq<char>, i: int) -> Option<(Option<Seq<char>>, int)> {
    ps_opt_string(s, ws_end(s, i))
}

/// Reads one object member with a fixed key and a string value:
/// the key, a colon and the value, each with whitespace allowed
/// before it.
pub open spec fn ps_member_string(s: Seq<char>, i: int, key: Seq<char>) -> Option<
    (Seq<char>, int),
> {
    match ps_tok(s, i, key) {
        None => None,
        Some(i1) => match ps_tok(s, i1, ":"@) {
            None => None,
            Some(i2) => ps_string_tok(s, i2),
        },
    }
}

/// Reads one object member with a fixed key and a boolean value.
pub open spec fn ps_member_bool(s: Seq<char>, i: int, key: Seq<char>) -> Option<(bool, int)> {
    match ps_tok(s, i, key) {
        None => None,
        Some(i1) => match ps_tok(s, i1, ":"@) {
            None => None,
            Some(i2) => ps_bool_tok(s, i2),
        },
    }
}

/// Reads one object member with a fixed key and a string-or-null value.
pub open spec fn ps_member_opt_string(s: Seq<char>, i: int, key: Seq<char>) -> Option<
    (Option<Seq<char>>, int),
> {
    match ps_tok(s, i, key) {
        None => None,
        Some(i1) => match ps_tok(s, i1, ":"@) {
            None => None,
            Some(i2) => ps_opt_string_tok(s, i2),
        },
    }
}

/// Reading a serialized string body yields the body that was written:
/// the escaped body followed by the closing quote and anything after it
/// decodes to the body itself, ending right after that quote.
pub proof fn lemma_ps_str_body_of_esc(s: Seq<char>, i: int, x: Seq<char>)
    requires
        0 <= i,
        i + esc(x).len() + 1 <= s.len(),
        s.subrange(i, i + esc(x).len() + 1) == esc(x) + seq!['"'],
    ensures
        ps_str_body(s, i) == Some((x, i + esc(x).len() + 1)),
    decreases x.len(),
{
    let piece = esc(x) + seq!['"'];
    assert(forall|k: int| 0 <= k < piece.len() ==> s[i + k] == #[trigger] piece[k]) by {
        assert(forall|k: int|
            0 <= k < piece.len() ==> s.subrange(i, i + piece.len() as int)[k] == #[trigger] piece[
                k
            ]);
    }
    if x.len() == 0 {
        assert(s[i] == piece[0]);
        assert(s[i] == '"');
    } else {
        let c = x[0];
        let rest = x.skip(1);
        assert(esc(x) == esc_char(c) + esc(rest));
        let sub = esc(rest) + seq!['"'];
        assert(piece =~= esc_char(c) + sub);
        if needs_escape(c) {
            assert(piece[0] == '\\');
            assert(piece[1] == escape_code(c));
            assert(s[i] == '\\');
            assert(s[i + 1] == escape_code(c));
            assert(valid_escape_code(escape_code(c)));
            assert(unescape_code(escape_code(c)) == c);
            assert forall|k: int| 0 <= k < sub.len() implies s.subrange(
                i + 2,
                i + 2 + sub.len() as int,
            )[k] == sub[k] by {
                assert(s[i + 2 + k] == piece[k + 2]);
                assert(piece == esc_char(c) + sub);
                assert((esc_char(c) + sub)[k + 2] == sub[k]);
            }
            assert(s.subrange(i + 2, i + 2 + sub.len() as int) =~= sub);
            lemma_ps_str_body_of_esc(s, i + 2, rest);
            assert(seq![c] + rest =~= x);
        } else {
            assert(piece[0] == c);
            assert(s[i] == c);
            assert(s[i] != '"' && s[i] != '\\');
            assert forall|k: int| 0 <= k < sub.len() implies s.subrange(
                i + 1,
                i + 1 + sub.len() as int,
            )[k] == sub[k] by {
                assert(s[i + 1 + k] == piece[k + 1]);
                assert(piece == esc_char(c) + sub);
                assert((esc_char(c) + sub)[k + 1] == sub[k]);
            }
            assert(s.subrange(i + 1, i + 1 + sub.len() as int) =~= sub);
            lemma_ps_str_body_of_esc(s, i + 1, rest);
            assert(seq![c] + rest =~= x);
        }
    }
}

/// Reading a serialized string yields the string that was written.
pub proof fn lemma_ps_string_of_ser(s: Seq<char>, i: int, x: Seq<char>)
    requires
        0 <= i,
        i + ser_string(x).len() <= s.len(),
        s.subrange(i, i + ser_string(x).len() as int) == ser_string(x),
    ensures
        ps_string(s, i) == Some((x, i + ser_string(x).len() as int)),
{
    let piece = ser_string(x);
    let body = esc(x) + seq!['"'];
    assert(piece =~= seq!['"'] + body);
    assert(forall|k: int| 0 <= k < piece.len() ==> s[i + k] == #[trigger] piece[k]) by {
        assert(forall|k: int|
            0 <= k < piece.len() ==> s.subrange(i, i + piece.len() as int)[k] == #[trigger] piece[
                k
            ]);
    }
    assert(s[i] == piece[0]);
    assert(s[i] == '"');
    assert forall|k: int| 0 <= k < body.len() implies s.subrange(
        i + 1,
        i + 1 + body.len() as int,
    )[k] == body[k] by {
        assert(s[i + 1 + k] == piece[k + 1]);
        assert(piece == seq!['"'] + body);
        assert((seq!['"'] + body)[k + 1] == body[k]);
    }
    assert(s.subrange(i + 1, i + 1 + body.len() as int) =~= body);
    lemma_ps_str_body_of_esc(s, i + 1, x);
}

/// A possibly absent string: a JSON string, or `null`.
pub open spec fn ser_opt_string(p: Option<Seq<char>>) -> Seq<char> {
    match p {
        Some(s) => ser_string(s),
        None => "null"@,
    }
}

/// Reads a JSON string or `null` starting at `i`.
pub open spec fn ps_opt_string(s: Seq<char>, i: int) -> Option<(Option<Seq<char>>, int)> {
    if ps_lit(s, i, "null"@) is Some {
        Some((None, ps_lit(s, i, "null"@)->Some_0))
    } else {
        match ps_string(s, i) {
            Some((x, e)) => Some((Some(x), e)),
            None => None,
        }
    }
}

/// Splitting a known concatenation: when the input from `i` holds
/// `a + b`, it holds `a` and then `b`.
pub proof fn lemma_split_concat(s: Seq<char>, i: int, a: Seq<char>, b: Seq<char>)
    requires
        0 <= i,
        i + a.len() + b.len() <= s.len(),
        s.subrange(i, i + a.len() + b.len()) == a + b,
    ensures
        s.subrange(i, i + a.len() as int) == a,
        s.subrange(i + a.len(), i + a.len() + b.len()) == b,
{
    let ab = a + b;
    assert forall|k: int| 0 <= k < a.len() implies s.subrange(i, i + a.len() as int)[k] == a[k] by {
        assert(ab[k] == a[k]);
        assert(s.subrange(i, i + ab.len() as int)[k] == ab[k]);
        assert(s.subrange(i, i + ab.len() as int)[k] == s[i + k]);
        assert(s.subrange(i, i + a.len() as int)[k] == s[i + k]);
    }
    assert(s.subrange(i, i + a.len() as int) =~= a);
    assert forall|k: int| 0 <= k < b.len() implies s.subrange(
        i + a.len(),
        i + a.len() + b.len(),
    )[k] == b[k] by {
        assert(ab[a.len() + k] == b[k]);
        assert(s.subrange(i, i + ab.len() as int)[a.len() + k] == ab[a.len() + k]);
        assert(s.subrange(i, i + ab.len() as int)[a.len() + k] == s[i + a.len() + k]);
        assert(s.subrange(i + a.len(), i + a.len() + b.len())[k] == s[i + a.len() + k]);
    }
    assert(s.subrange(i + a.len(), i + a.len() + b.len()) =~= b);
}

/// Joining known pieces: when the input holds `a` up to `m` and `b`
/// from `m` to `e`, it holds `a + b` from `i` to `e`.
pub proof fn lemma_join_concat(s: Seq<char>, i: int, m: int, e: int, a: Seq<char>, b: Seq<char>)
    requires
        0 <= i <= m <= e <= s.len(),
        s.subrange(i, m) == a,
        s.subrange(m, e) == b,
    ensures
        s.subrange(i, e) == a + b,
        e - i == a.len() + b.len(),
{
    assert(forall|k: int| 0 <= k < a.len() ==> s[i + k] == #[trigger] a[k]) by {
        assert(forall|k: int| 0 <= k < a.len() ==> s.subrange(i, m)[k] == #[trigger] a[k]);
    }
    assert(forall|k: int| 0 <= k < b.len() ==> s[m + k] == #[trigger] b[k]) by {
        assert(forall|k: int| 0 <= k < b.len() ==> s.subrange(m, e)[k] == #[trigger] b[k]);
    }
    assert(s.subrange(i, e) =~= a + b);
}

/// Reading a serialized boolean yields the boolean that was written.
pub proof fn lemma_ps_bool_of_ser(s: Seq<char>, i: int, b: bool)
    requires
        0 <= i,
        i + ser_bool(b).len() <= s.len(),
        s.subrange(i, i + ser_bool(b).len() as int) == ser_bool(b),
    ensures
        ps_bool(s, i) == Some((b, i + ser_bool(b).len() as int)),
{
    reveal_strlit("true");
    reveal_strlit("false");
    if b {
        assert(ps_lit(s, i, "true"@) is Some);
    } else {
        assert(s.subrange(i, i + 5)[0] == 'f');
        assert(s[i] == 'f');
        if ps_lit(s, i, "true"@) is Some {
            assert(s.subrange(i, i + 4)[0] == 't');
            assert(false);
        }
        assert(ps_lit(s, i, "false"@) is Some);
    }
}

/// Reading a serialized optional string yields what was written.
pub proof fn lemma_ps_opt_string_of_ser(s: Seq<char>, i: int, p: Option<Seq<char>>)
    requires
        0 <= i,
        i + ser_opt_string(p).len() <= s.len(),
        s.subrange(i, i + ser_opt_string(p).len() as int) == ser_opt_string(p),
    ensures
        ps_opt_string(s, i) == Some((p, i + ser_opt_string(p).len() as int)),
{
    reveal_strlit("null");
    match p {
        None => {
            assert(ps_lit(s, i, "null"@) is Some);
        },
        Some(x) => {
            assert(s.subrange(i, i + ser_string(x).len() as int)[0] == '"');
            assert(s[i] == '"');
            if ps_lit(s, i, "null"@) is Some {
                assert(s.subrange(i, i + 4)[0] == 'n');
                assert(false);
            }
            lemma_ps_string_of_ser(s, i, x);
        },
    }
}

/// One ledger record, written with its fixed keys in fixed order.
pub open spec fn ser_record(b: crate::types::BinaryVersionView) -> Seq<char> {
    "{\"binary_name\":"@ + ser_string(b.binary_name) + ",\"network_release\":"@ + ser_string(
        b.network_release,
    ) + ",\"version\":"@ + ser_string(b.version) + ",\"debug\":"@ + ser_bool(b.debug)
        + ",\"path\":"@ + ser_opt_string(b.path) + "}"@
}

/// Reads one ledger record starting at `i`: its fixed keys in fixed
/// order, with whitespace allowed between tokens.
pub open spec fn ps_record(s: Seq<char>, i: int) -> Option<(crate::types::BinaryVersionView, int)> {
    match ps_tok(s, i, "{"@) {
        None => None,
        Some(i1) => match ps_member_string(s, i1, "\"binary_name\""@) {
            None => None,
            Some((binary_name, i2)) => match ps_tok(s, i2, ","@) {
                None => None,
                Some(i3) => match ps_member_string(s, i3, "\"network_release\""@) {
                    None => None,
                    Some((network_release, i4)) => match ps_tok(s, i4, ","@) {
                        None => None,
                        Some(i5) => match ps_member_string(s, i5, "\"version\""@) {
                            None => None,
                            Some((version, i6)) => match ps_tok(s, i6, ","@) {
                                None => None,
                                Some(i7) => match ps_member_bool(s, i7, "\"debug\""@) {
                                    None => None,
                                    Some((debug, i8)) => match ps_tok(s, i8, ","@) {
                                        None => None,
                                        Some(i9) => match ps_member_opt_string(
                                            s,
                                            i9,
                                            "\"path\""@,
                                        ) {
                                            None => None,
                                            Some((path, i10)) => match ps_tok(s, i10, "}"@) {
                                                None => None,
                                                Some(i11) => Some(
                                                    (
                                                        crate::types::BinaryVersionView {
                                                            binary_name,
                                                            network_release,
                                                            version,
                                                            debug,
                                                            path,
                                                        },
                                                        i11,
                                                    ),
                                                ),
                                            },
                                        },
                                    },
                                },
                            },
                        },
                    },
                },
            },
        },
    }
}

/// The text from `i` holds no whitespace to skip there.
pub proof fn lemma_ws_none(s: Seq<char>, i: int)
    requires
        0 <= i,
        i < s.len() ==> !is_json_ws(s[i]),
    ensures
        ws_end(s, i) == i,
{
}

/// Reading a serialized member with a string value yields the value
/// written after its key and colon.
pub proof fn lemma_ps_member_string_of_ser(s: Seq<char>, i: int, key: Seq<char>, x: Seq<char>)
    requires
        0 <= i,
        key.len() > 0,
        key[0] == '"',
        i + key.len() + 1 + ser_string(x).len() <= s.len(),
        s.subrange(i, i + key.len() + 1 + ser_string(x).len()) == key + ":"@ + ser_string(x),
    ensures
        ps_member_string(s, i, key) == Some((x, i + key.len() + 1 + ser_string(x).len())),
{
    reveal_strlit(":");
    let v = ser_string(x);
    assert(key + ":"@ + v =~= key + (":"@ + v));
    lemma_split_concat(s, i, key, ":"@ + v);
    lemma_split_concat(s, i + key.len(), ":"@, v);
    assert(s.subrange(i, i + key.len() as int)[0] == '"');
    lemma_ws_none(s, i);
    assert(ps_tok(s, i, key) == Some(i + key.len() as int));
    assert(s.subrange(i + key.len(), i + key.len() + 1)[0] == ':');
    lemma_ws_none(s, i + key.len());
    assert(ps_tok(s, i + key.len(), ":"@) == Some(i + key.len() + 1));
    let iv = i + key.len() + 1;
    assert(s.subrange(iv, iv + v.len() as int)[0] == '"');
    lemma_ws_none(s, iv);
    lemma_ps_string_of_ser(s, iv, x);
}

/// Reading a serialized member with a boolean value yields the value
/// written after its key and colon.
pub proof fn lemma_ps_member_bool_of_ser(s: Seq<char>, i: int, key: Seq<char>, x: bool)
    requires
        0 <= i,
        key.len() > 0,
        key[0] == '"',
        i + key.len() + 1 + ser_bool(x).len() <= s.len(),
        s.subrange(i, i + key.len() + 1 + ser_bool(x).len()) == key + ":"@ + ser_bool(x),
    ensures
        ps_member_bool(s, i, key) == Some((x, i + key.len() + 1 + ser_bool(x).len())),
{
    reveal_strlit(":");
    reveal_strlit("true");
    reveal_strlit("false");
    let v = ser_bool(x);
    assert(key + ":"@ + v =~= key + (":"@ + v));
    lemma_split_concat(s, i, key, ":"@ + v);
    lemma_split_concat(s, i + key.len(), ":"@, v);
    assert(s.subrange(i, i + key.len() as int)[0] == '"');
    lemma_ws_none(s, i);
    assert(ps_tok(s, i, key) == Some(i + key.len() as int));
    assert(s.subrange(i + key.len(), i + key.len() + 1)[0] == ':');
    lemma_ws_none(s, i + key.len());
    assert(ps_tok(s, i + key.len(), ":"@) == Some(i + key.len() + 1));
    let iv = i + key.len() + 1;
    assert(s.subrange(iv, iv + v.len() as int)[0] == v[0]);
    assert(!is_json_ws(v[0]));
    lemma_ws_none(s, iv);
    lemma_ps_bool_of_ser(s, iv, x);
}

/// Reading a serialized member with a string-or-null value yields the
/// value written after its key and colon.
pub proof fn lemma_ps_member_opt_string_of_ser(
    s: Seq<char>,
    i: int,
    key: Seq<char>,
    x: Option<Seq<char>>,
)
    requires
        0 <= i,
        key.len() > 0,
        key[0] == '"',
        i + key.len() + 1 + ser_opt_string(x).len() <= s.len(),
        s.subrange(i, i + key.len() + 1 + ser_opt_string(x).len()) == key + ":"@ + ser_opt_string(
            x,
        ),
    ensures
        ps_member_opt_string(s, i, key) == Some(
            (x, i + key.len() + 1 + ser_opt_string(x).len()),
        ),
{
    reveal_strlit(":");
    reveal_strlit("null");
    let v = ser_opt_string(x);
    assert(key + ":"@ + v =~= key + (":"@ + v));
    lemma_split_concat(s, i, key, ":"@ + v);
    lemma_split_concat(s, i + key.len(), ":"@, v);
    assert(s.subrange(i, i + key.len() as int)[0] == '"');
    lemma_ws_none(s, i);
    assert(ps_tok(s, i, key) == Some(i + key.len() as int));
    assert(s.subrange(i + key.len(), i + key.len() + 1)[0] == ':');
    lemma_ws_none(s, i + key.len());
    assert(ps_tok(s, i + key.len(), ":"@) == Some(i + key.len() + 1));
    let iv = i + key.len() + 1;
    assert(s.subrange(iv, iv + v.len() as int)[0] == v[0]);
    assert(!is_json_ws(v[0]));
    lemma_ws_none(s, iv);
    lemma_ps_opt_string_of_ser(s, iv, x);
}

/// Reading a serialized record yields the record that was written.
#[verifier::rlimit(100)]
pub proof fn lemma_ps_record_of_ser(s: Seq<char>, i: int, b: crate::types::BinaryVersionView)
    requires
        0 <= i,
        i + ser_record(b).len() <= s.len(),
        s.subrange(i, i + ser_record(b).len() as int) == ser_record(b),
    ensures
        ps_record(s, i) == Some((b, i + ser_record(b).len() as int)),
{
    reveal_strlit("{\"binary_name\":");
    reveal_strlit(",\"network_release\":");
    reveal_strlit(",\"version\":");
    reveal_strlit(",\"debug\":");
    reveal_strlit(",\"path\":");
    reveal_strlit("}");
    reveal_strlit("{");
    reveal_strlit(",");
    reveal_strlit(":");
    reveal_strlit("\"binary_name\"");
    reveal_strlit("\"network_release\"");
    reveal_strlit("\"version\"");
    reveal_strlit("\"debug\"");
    reveal_strlit("\"path\"");
    let l1 = "{\"binary_name\":"@;
    let v1 = ser_string(b.binary_name);
    let l2 = ",\"network_release\":"@;
    let v2 = ser_string(b.network_release);
    let l3 = ",\"version\":"@;
    let v3 = ser_string(b.version);
    let l4 = ",\"debug\":"@;
    let v4 = ser_bool(b.debug);
    let l5 = ",\"path\":"@;
    let v5 = ser_opt_string(b.path);
    let l6 = "}"@;
    let r10 = v5 + l6;
    let r9 = l5 + r10;
    let r8 = v4 + r9;
    let r7 = l4 + r8;
    let r6 = v3 + r7;
    let r5 = l3 + r6;
    let r4 = v2 + r5;
    let r3 = l2 + r4;
    let r2 = v1 + r3;
    let r1 = l1 + r2;
    assert(ser_record(b) =~= r1);
    let i0 = i;
    lemma_split_concat(s, i0, l1, r2);
    let i1 = i0 + l1.len();
    lemma_split_concat(s, i1, v1, r3);
    let i2 = i1 + v1.len();
    lemma_split_concat(s, i2, l2, r4);
    let i3 = i2 + l2.len();
    lemma_split_concat(s, i3, v2, r5);
    let i4 = i3 + v2.len();
    lemma_split_concat(s, i4, l3, r6);
    let i5 = i4 + l3.len();
    lemma_split_concat(s, i5, v3, r7);
    let i6 = i5 + v3.len();
    lemma_split_concat(s, i6, l4, r8);
    let i7 = i6 + l4.len();
    lemma_split_concat(s, i7, v4, r9);
    let i8 = i7 + v4.len();
    lemma_split_concat(s, i8, l5, r10);
    let i9 = i8 + l5.len();
    lemma_split_concat(s, i9, v5, l6);
    let i10 = i9 + v5.len();
    // The opening brace, then each member and its separating comma.
    let k1 = "\"binary_name\""@;
    assert(l1 =~= "{"@ + (k1 + ":"@));
    lemma_split_concat(s, i0, "{"@, k1 + ":"@);
    assert(s.subrange(i0, i0 + 1)[0] == '{');
    assert(s[i0] == '{');
    lemma_ws_none(s, i0);
    assert(ps_tok(s, i0, "{"@) == Some(i0 + 1));
    lemma_join_concat(s, i0 + 1, i1, i2, k1 + ":"@, v1);
    assert(s.subrange(i0 + 1, i2) =~= k1 + ":"@ + v1);
    lemma_ps_member_string_of_ser(s, i0 + 1, k1, b.binary_name);
    let k2 = "\"network_release\""@;
    assert(l2 =~= ","@ + (k2 + ":"@));
    lemma_split_concat(s, i2, ","@, k2 + ":"@);
    assert(s.subrange(i2, i2 + 1)[0] == ',');
    assert(s[i2] == ',');
    lemma_ws_none(s, i2);
    assert(ps_tok(s, i2, ","@) == Some(i2 + 1));
    lemma_join_concat(s, i2 + 1, i3, i4, k2 + ":"@, v2);
    assert(s.subrange(i2 + 1, i4) =~= k2 + ":"@ + v2);
    lemma_ps_member_string_of_ser(s, i2 + 1, k2, b.network_release);
    let k3 = "\"version\""@;
    assert(l3 =~= ","@ + (k3 + ":"@));
    lemma_split_concat(s, i4, ","@, k3 + ":"@);
    assert(s.subrange(i4, i4 + 1)[0] == ',');
    assert(s[i4] == ',');
    lemma_ws_none(s, i4);
    assert(ps_tok(s, i4, ","@) == Some(i4 + 1));
    lemma_join_concat(s, i4 + 1, i5, i6, k3 + ":"@, v3);
    assert(s.subrange(i4 + 1, i6) =~= k3 + ":"@ + v3);
    lemma_ps_member_string_of_ser(s, i4 + 1, k3, b.version);
    let k4 = "\"debug\""@;
    assert(l4 =~= ","@ + (k4 + ":"@));
    lemma_split_concat(s, i6, ","@, k4 + ":"@);
    assert(s.subrange(i6, i6 + 1)[0] == ',');
    assert(s[i6] == ',');
    lemma_ws_none(s, i6);
    assert(ps_tok(s, i6, ","@) == Some(i6 + 1));
    lemma_join_concat(s, i6 + 1, i7, i8, k4 + ":"@, v4);
    assert(s.subrange(i6 + 1, i8) =~= k4 + ":"@ + v4);
    lemma_ps_member_bool_of_ser(s, i6 + 1, k4, b.debug);
    let k5 = "\"path\""@;
    assert(l5 =~= ","@ + (k5 + ":"@));
    lemma_split_concat(s, i8, ","@, k5 + ":"@);
    assert(s.subrange(i8, i8 + 1)[0] == ',');
    assert(s[i8] == ',');
    lemma_ws_none(s, i8);
    assert(ps_tok(s, i8, ","@) == Some(i8 + 1));
    lemma_join_concat(s, i8 + 1, i9, i10, k5 + ":"@, v5);
    assert(s.subrange(i8 + 1, i10) =~= k5 + ":"@ + v5);
    lemma_ps_member_opt_string_of_ser(s, i8 + 1, k5, b.path);
    assert(s.subrange(i10, i10 + 1)[0] == '}');
    assert(s[i10] == '}');
    lemma_ws_none(s, i10);
    assert(ps_tok(s, i10, "}"@) == Some(i10 + 1));
}

/// What remains of a record list after its first record: for each
/// further record a comma and the record, then the closing bracket.
pub open spec fn ser_items_rest(rs: Seq<crate::types::BinaryVersionView>) -> Seq<char>
    decreases rs.len(),
{
    if rs.len() == 0 {
        seq![']']
    } else {
        seq![','] + ser_record(rs[0]) + ser_items_rest(rs.skip(1))
    }
}

/// A JSON list of ledger records.
pub open spec fn ser_record_list(rs: Seq<crate::types::BinaryVersionView>) -> Seq<char> {
    if rs.len() == 0 {
        seq!['[', ']']
    } else {
        seq!['['] + ser_record(rs[0]) + ser_items_rest(rs.skip(1))
    }
}

/// Reads what remains of a record list after a record: a comma and a
/// record, repeated, then the closing bracket, with whitespace
/// allowed between tokens.
pub open spec fn ps_items_rest(s: Seq<char>, i: int) -> Option<
    (Seq<crate::types::BinaryVersionView>, int),
>
    decreases s.len() - i,
{
    let j = ws_end(s, i);
    if j < i || j >= s.len() {
        None
    } else if s[j] == ']' {
        Some((Seq::empty(), j + 1))
    } else if s[j] == ',' {
        match ps_record(s, j + 1) {
            None => None,
            Some((b, e)) => if i < e <= s.len() {
                match ps_items_rest(s, e) {
                    None => None,
                    Some((rest, e2)) => Some((seq![b] + rest, e2)),
                }
            } else {
                None
            },
        }
    } else {
        None
    }
}

/// Reads a JSON list of ledger records starting at `i`.
pub open spec fn ps_record_list(s: Seq<char>, i: int) -> Option<
    (Seq<crate::types::BinaryVersionView>, int),
> {
    match ps_tok(s, i, "["@) {
        None => None,
        Some(i1) => {
            let j = ws_end(s, i1);
            if i1 <= j < s.len() && s[j] == ']' {
                Some((Seq::empty(), j + 1))
            } else {
                match ps_record(s, i1) {
                    None => None,
                    Some((b, e)) => if i1 < e <= s.len() {
                        match ps_items_rest(s, e) {
                            None => None,
                            Some((rest, e2)) => Some((seq![b] + rest, e2)),
                        }
                    } else {
                        None
                    },
                }
            }
        },
    }
}

/// Reading a serialized list tail yields the records that were written.
pub proof fn lemma_ps_items_rest_of_ser(s: Seq<char>, i: int, rs: Seq<
    crate::types::BinaryVersionView,
>)
    requires
        0 <= i,
        i + ser_items_rest(rs).len() <= s.len(),
        s.subrange(i, i + ser_items_rest(rs).len() as int) == ser_items_rest(rs),
    ensures
        ps_items_rest(s, i) == Some((rs, i + ser_items_rest(rs).len() as int)),
    decreases rs.len(),
{
    let piece = ser_items_rest(rs);
    if rs.len() == 0 {
        assert(s.subrange(i, i + 1)[0] == piece[0]);
        assert(s[i] == ']');
        lemma_ws_none(s, i);
    } else {
        let rec = ser_record(rs[0]);
        let tail = ser_items_rest(rs.skip(1));
        assert(piece =~= seq![','] + (rec + tail));
        lemma_split_concat(s, i, seq![','], rec + tail);
        assert(s.subrange(i, i + 1)[0] == ',');
        assert(s[i] == ',');
        lemma_ws_none(s, i);
        lemma_split_concat(s, i + 1, rec, tail);
        lemma_ps_record_of_ser(s, i + 1, rs[0]);
        reveal_strlit("{\"binary_name\":");
        assert(rec.len() > 0) by {
            assert(ser_record(rs[0]).len() >= "{\"binary_name\":"@.len());
        }
        let e = i + 1 + rec.len();
        lemma_ps_items_rest_of_ser(s, e, rs.skip(1));
        assert(seq![rs[0]] + rs.skip(1) =~= rs);
    }
}

/// Reading a serialized record list yields the records written.
#[verifier::rlimit(100)]
pub proof fn lemma_ps_record_list_of_ser(s: Seq<char>, i: int, rs: Seq<
    crate::types::BinaryVersionView,
>)
    requires
        0 <= i,
        i + ser_record_list(rs).len() <= s.len(),
        s.subrange(i, i + ser_record_list(rs).len() as int) == ser_record_list(rs),
    ensures
        ps_record_list(s, i) == Some((rs, i + ser_record_list(rs).len() as int)),
{
    let piece = ser_record_list(rs);
    assert(s.subrange(i, i + piece.len() as int)[0] == piece[0]);
    assert(s[i] == '[');
    lemma_ws_none(s, i);
    reveal_strlit("[");
    assert(s.subrange(i, i + 1) =~= "["@);
    assert(ps_tok(s, i, "["@) == Some(i + 1));
    if rs.len() == 0 {
        assert(s.subrange(i, i + piece.len() as int)[1] == piece[1]);
        assert(s[i + 1] == ']');
        lemma_ws_none(s, i + 1);
    } else {
        let rec = ser_record(rs[0]);
        let tail = ser_items_rest(rs.skip(1));
        assert(piece =~= seq!['['] + (rec + tail));
        lemma_split_concat(s, i, seq!['['], rec + tail);
        lemma_split_concat(s, i + 1, rec, tail);
        lemma_ps_record_of_ser(s, i + 1, rs[0]);
        reveal_strlit("{\"binary_name\":");
        assert(rec.len() > 0) by {
            assert(ser_record(rs[0]).len() >= "{\"binary_name\":"@.len());
        }
        assert(s.subrange(i + 1, i + 1 + rec.len() as int)[0] == rec[0]);
        assert(s[i + 1] == '{');
        assert(s[i + 1] != ']');
        lemma_ws_none(s, i + 1);
        let e = i + 1 + rec.len();
        lemma_ps_items_rest_of_ser(s, e, rs.skip(1));
        assert(seq![rs[0]] + rs.skip(1) =~= rs);
    }
}

/// The installed-binaries document: the record list under its one key.
pub open spec fn ser_installed(rs: Seq<crate::types::BinaryVersionView>) -> Seq<char> {
    "{\"binaries\":"@ + ser_record_list(rs) + "}"@
}

/// Reads the installed-binaries document starting at `i`.
pub open spec fn ps_installed(s: Seq<char>, i: int) -> Option<
    (Seq<crate::types::BinaryVersionView>, int),
> {
    match ps_tok(s, i, "{"@) {
        None => None,
        Some(i1) => match ps_tok(s, i1, "\"binaries\""@) {
            None => None,
            Some(i2) => match ps_tok(s, i2, ":"@) {
                None => None,
                Some(i3) => match ps_record_list(s, i3) {
                    None => None,
                    Some((rs, e)) => match ps_tok(s, e, "}"@) {
                        None => None,
                        Some(e2) => Some((rs, e2)),
                    },
                },
            },
        },
    }
}

/// What an installed-binaries document denotes: the records, when the
/// whole text is one well-formed document with nothing but whitespace
/// around or after it.
pub open spec fn spec_installed_doc(s: Seq<char>) -> Option<Seq<crate::types::BinaryVersionView>> {
    match ps_installed(s, 0) {
        Some((rs, e)) => if 0 <= e <= s.len() && ws_end(s, e) == s.len() {
            Some(rs)
        } else {
            None
        },
        None => None,
    }
}

/// The fixed head of the installed-binaries document: the brace, the
/// one key, and the colon.
proof fn lemma_installed_head(s: Seq<char>)
    requires
        12 <= s.len(),
        s.subrange(0, 12) == "{\"binaries\":"@,
    ensures
        ps_tok(s, 0, "{"@) == Some(1int),
        ps_tok(s, 1, "\"binaries\""@) == Some(11int),
        ps_tok(s, 11, ":"@) == Some(12int),
{
    reveal_strlit("{\"binaries\":");
    reveal_strlit("{");
    reveal_strlit("\"binaries\"");
    reveal_strlit(":");
    let l1 = "{\"binaries\":"@;
    assert(l1 =~= "{"@ + ("\"binaries\""@ + ":"@));
    lemma_split_concat(s, 0, "{"@, "\"binaries\""@ + ":"@);
    lemma_split_concat(s, 1, "\"binaries\""@, ":"@);
    assert(s.subrange(0, 1)[0] == '{');
    assert(s[0] == '{');
    lemma_ws_none(s, 0);
    assert(s.subrange(1, 11)[0] == '"');
    lemma_ws_none(s, 1);
    assert(s.subrange(11, 12)[0] == ':');
    lemma_ws_none(s, 11);
}

/// Reading back a written ledger yields the ledger that was written.
#[verifier::rlimit(100)]
pub proof fn lemma_installed_round_trip(rs: Seq<crate::types::BinaryVersionView>)
    ensures
        spec_installed_doc(ser_installed(rs)) == Some(rs),
{
    let s = ser_installed(rs);
    reveal_strlit("{\"binaries\":");
    reveal_strlit("}");
    let l1 = "{\"binaries\":"@;
    let lst = ser_record_list(rs);
    let l2 = "}"@;
    assert(s.subrange(0, s.len() as int) =~= s);
    assert(s =~= l1 + (lst + l2));
    lemma_split_concat(s, 0, l1, lst + l2);
    lemma_split_concat(s, l1.len() as int, lst, l2);
    lemma_installed_head(s);
    lemma_ps_record_list_of_ser(s, 12, rs);
    let e: int = 12 + lst.len() as int;
    assert(s.subrange(e, e + 1)[0] == '}');
    assert(s[e] == '}');
    lemma_ws_none(s, e);
    assert(ps_tok(s, e, "}"@) == Some(e + 1));
    assert(ps_installed(s, 0) == Some((rs, s.len() as int)));
    lemma_ws_none(s, s.len() as int);
}

/// Escaping distributes over concatenation.
pub proof fn lemma_esc_concat(a: Seq<char>, b: Seq<char>)
    ensures
        esc(a + b) == esc(a) + esc(b),
    decreases a.len(),
{
    if a.len() == 0 {
        assert(a + b =~= b);
        assert(esc(a) + esc(b) =~= esc(b));
    } else {
        assert((a + b)[0] == a[0]);
        assert((a + b).skip(1) =~= a.skip(1) + b);
        lemma_esc_concat(a.skip(1), b);
        assert(esc(a + b) =~= esc(a) + esc(b));
    }
}

/// Appends the escaped body of a string.
fn append_escaped(out: &mut String, s: &str)
    ensures
        final(out)@ == old(out)@ + esc(s@),
{
    let n = s.unicode_len();
    let mut i: usize = 0;
    proof {
        assert(s@.take(0) =~= Seq::<char>::empty());
        assert(old(out)@ + esc(s@.take(0)) =~= old(out)@);
    }
    while i < n
        invariant
            i <= n,
            n == s@.len(),
            out@ == old(out)@ + esc(s@.take(i as int)),
        decreases n - i,
    {
        let c = s.get_char(i);
        if c == '"' {
            out.append("\\\"");
            proof {
                reveal_strlit("\\\"");
            }
        } else if c == '\\' {
            out.append("\\\\");
            proof {
                reveal_strlit("\\\\");
            }
        } else if c == '\n' {
            out.append("\\n");
            proof {
                reveal_strlit("\\n");
            }
        } else if c == '\t' {
            out.append("\\t");
            proof {
                reveal_strlit("\\t");
            }
        } else if c == '\r' {
            out.append("\\r");
            proof {
                reveal_strlit("\\r");
            }
        } else {
            push_char(out, c);
        }
        proof {
            assert(s@.take(i + 1) =~= s@.take(i as int) + seq![c]);
            lemma_esc_concat(s@.take(i as int), seq![c]);
            assert(seq![c].skip(1) =~= Seq::<char>::empty());
            assert(esc(seq![c]) =~= esc_char(c) + esc(Seq::<char>::empty()));
            assert(esc(seq![c]) =~= esc_char(c));
            assert(out@ =~= old(out)@ + esc(s@.take(i + 1)));
        }
        i = i + 1;
    }
    proof {
        assert(s@.take(n as int) =~= s@);
    }
}

/// Appends a JSON string.
fn append_json_string(out: &mut String, s: &str)
    ensures
        final(out)@ == old(out)@ + ser_string(s@),
{
    out.append("\"");
    append_escaped(out, s);
    out.append("\"");
    proof {
        reveal_strlit("\"");
        assert(out@ =~= old(out)@ + ser_string(s@));
    }
}

/// Appends a JSON boolean.
fn append_bool(out: &mut String, b: bool)
    ensures
        final(out)@ == old(out)@ + ser_bool(b),
{
    if b {
        out.append("true");
    } else {
        out.append("false");
    }
}

/// Appends a JSON string or `null`.
fn append_opt_string(out: &mut String, p: &Option<String>)
    ensures
        final(out)@ == old(out)@ + ser_opt_string(
            match p {
                Some(ref s) => Some(s@),
                None => None,
            },
        ),
{
    match p {
        Some(s) => append_json_string(out, s.as_str()),
        None => out.append("null"),
    }
}

/// Appends one ledger record.
fn append_record(out: &mut String, b: &crate::types::BinaryVersion)
    ensures
        final(out)@ == old(out)@ + ser_record(b@),
{
    out.append("{\"binary_name\":");
    append_json_string(out, b.binary_name.as_str());
    out.append(",\"network_release\":");
    append_json_string(out, b.network_release.as_str());
    out.append(",\"version\":");
    append_json_string(out, b.version.as_str());
    out.append(",\"debug\":");
    append_bool(out, b.debug);
    out.append(",\"path\":");
    append_opt_string(out, &b.path);
    out.append("}");
    proof {
        assert(out@ =~= old(out)@ + ser_record(b@));
    }
}

/// The view of a sequence of records.
pub open spec fn records_view(v: Seq<crate::types::BinaryVersion>) -> Seq<
    crate::types::BinaryVersionView,
> {
    Seq::new(v.len(), |i: int| v[i]@)
}

/// Appends a JSON list of ledger records.
fn append_record_list(out: &mut String, records: &Vec<crate::types::BinaryVersion>)
    ensures
        final(out)@ == old(out)@ + ser_record_list(records_view(records@)),
{
    let ghost rs = records_view(records@);
    if records.len() == 0 {
        out.append("[]");
        proof {
            reveal_strlit("[]");
            assert(out@ =~= old(out)@ + ser_record_list(rs));
        }
        return ;
    }
    out.append("[");
    append_record(out, &records[0]);
    proof {
        reveal_strlit("[");
        assert(out@ =~= old(out)@ + seq!['['] + ser_record(rs[0]));
    }
    let mut k: usize = 1;
    while k < records.len()
        invariant
            1 <= k <= records@.len(),
            rs == records_view(records@),
            rs.len() == records@.len(),
            out@ + ser_items_rest(rs.skip(k as int)) == old(out)@ + ser_record_list(rs),
        decreases records@.len() - k,
    {
        out.append(",");
        append_record(out, &records[k]);
        proof {
            reveal_strlit(",");
            let tail = rs.skip(k as int);
            assert(tail[0] == rs[k as int]);
            assert(tail.skip(1) =~= rs.skip(k + 1));
            assert(ser_items_rest(tail) =~= seq![','] + ser_record(rs[k as int])
                + ser_items_rest(rs.skip(k + 1)));
            assert(out@ + ser_items_rest(rs.skip(k + 1)) =~= old(out)@ + ser_record_list(rs));
        }
        k = k + 1;
    }
    out.append("]");
    proof {
        reveal_strlit("]");
        assert(rs.skip(records@.len() as int) =~= Seq::<crate::types::BinaryVersionView>::empty());
        assert(ser_items_rest(rs.skip(records@.len() as int)) =~= seq![']']);
        assert(out@ =~= old(out)@ + ser_record_list(rs));
    }
}

/// The installed-binaries ledger, as the text of its JSON document.
pub fn installed_to_text(store: &crate::types::InstalledBinaries) -> (r: String)
    ensures
        r@ == ser_installed(store@),
{
    let mut out = String::new();
    out.append("{\"binaries\":");
    let records = store.binaries();
    append_record_list(&mut out, records);
    out.append("}");
    proof {
        assert(records_view(records@) =~= store@);
        assert(out@ =~= ser_installed(store@));
    }
    out
}

/// Reads the given literal starting at `pos`.
fn parse_lit(s: &str, pos: usize, lit: &str) -> (r: Option<usize>)
    ensures
        match r {
            Some(e) => ps_lit(s@, pos as int, lit@) == Some(e as int) && pos <= e <= s@.len(),
            None => ps_lit(s@, pos as int, lit@) is None,
        },
{
    let n = s.unicode_len();
    let ll = lit.unicode_len();
    if pos > n || ll > n - pos {
        return None;
    }
    if crate::strutil::match_at(s, lit, pos) {
        Some(pos + ll)
    } else {
        None
    }
}

/// The position after any leading whitespace.
fn skip_ws(s: &str, pos: usize) -> (r: usize)
    requires
        pos <= s@.len(),
    ensures
        r == ws_end(s@, pos as int),
        pos <= r <= s@.len(),
{
    let n = s.unicode_len();
    let mut k = pos;
    loop
        invariant
            pos <= k <= n,
            n == s@.len(),
            ws_end(s@, pos as int) == ws_end(s@, k as int),
        decreases n - k,
    {
        if k >= n {
            return k;
        }
        let c = s.get_char(k);
        if !(c == ' ' || c == '\t' || c == '\n' || c == '\r') {
            return k;
        }
        k = k + 1;
    }
}

/// Reads the given literal, tolerating whitespace before it.
fn parse_tok(s: &str, pos: usize, lit: &str) -> (r: Option<usize>)
    requires
        pos <= s@.len(),
    ensures
        match r {
            Some(e) => ps_tok(s@, pos as int, lit@) == Some(e as int) && pos <= e <= s@.len() && (
            lit@.len() > 0 ==> pos < e),
            None => ps_tok(s@, pos as int, lit@) is None,
        },
{
    let p = skip_ws(s, pos);
    parse_lit(s, p, lit)
}

/// Reads a JSON string, tolerating whitespace before it.
fn parse_string_tok(s: &str, pos: usize) -> (r: Option<(String, usize)>)
    requires
        pos <= s@.len(),
    ensures
        match r {
            Some((x, e)) => ps_string_tok(s@, pos as int) == Some((x@, e as int)) && pos < e
                <= s@.len(),
            None => ps_string_tok(s@, pos as int) is None,
        },
{
    let p = skip_ws(s, pos);
    parse_string(s, p)
}

/// Reads a JSON boolean, tolerating whitespace before it.
fn parse_bool_tok(s: &str, pos: usize) -> (r: Option<(bool, usize)>)
    requires
        pos <= s@.len(),
    ensures
        match r {
            Some((b, e)) => ps_bool_tok(s@, pos as int) == Some((b, e as int)) && pos < e
                <= s@.len(),
            None => ps_bool_tok(s@, pos as int) is None,
        },
{
    let p = skip_ws(s, pos);
    parse_bool(s, p)
}

/// Reads a JSON string or `null`, tolerating whitespace before it.
fn parse_opt_string_tok(s: &str, pos: usize) -> (r: Option<(Option<String>, usize)>)
    requires
        pos <= s@.len(),
    ensures
        match r {
            Some((p2, e)) => ps_opt_string_tok(s@, pos as int) == Some(
                (
                    match p2 {
                        Some(ref x) => Some(x@),
                        None => None,
                    },
                    e as int,
                ),
            ) && pos < e <= s@.len(),
            None => ps_opt_string_tok(s@, pos as int) is None,
        },
{
    let p = skip_ws(s, pos);
    parse_opt_string(s, p)
}

/// Reads one object member with a fixed key and a string value.
fn parse_member_string(s: &str, pos: usize, key: &str) -> (r: Option<(String, usize)>)
    requires
        pos <= s@.len(),
    ensures
        match r {
            Some((x, e)) => ps_member_string(s@, pos as int, key@) == Some((x@, e as int)) && pos
                < e <= s@.len(),
            None => ps_member_string(s@, pos as int, key@) is None,
        },
{
    let i1 = match parse_tok(s, pos, key) {
        Some(i) => i,
        None => {
            return None;
        },
    };
    let i2 = match parse_tok(s, i1, ":") {
        Some(i) => i,
        None => {
            return None;
        },
    };
    parse_string_tok(s, i2)
}

/// Reads one object member with a fixed key and a boolean value.
fn parse_member_bool(s: &str, pos: usize, key: &str) -> (r: Option<(bool, usize)>)
    requires
        pos <= s@.len(),
    ensures
        match r {
            Some((b, e)) => ps_member_bool(s@, pos as int, key@) == Some((b, e as int)) && pos < e
                <= s@.len(),
            None => ps_member_bool(s@, pos as int, key@) is None,
        },
{
    let i1 = match parse_tok(s, pos, key) {
        Some(i) => i,
        None => {
            return None;
        },
    };
    let i2 = match parse_tok(s, i1, ":") {
        Some(i) => i,
        None => {
            return None;
        },
    };
    parse_bool_tok(s, i2)
}

/// Reads one object member with a fixed key and a string-or-null value.
fn parse_member_opt_string(s: &str, pos: usize, key: &str) -> (r: Option<(Option<String>, usize)>)
    requires
        pos <= s@.len(),
    ensures
        match r {
            Some((p2, e)) => ps_member_opt_string(s@, pos as int, key@) == Some(
                (
                    match p2 {
                        Some(ref x) => Some(x@),
                        None => None,
                    },
                    e as int,
                ),
            ) && pos < e <= s@.len(),
            None => ps_member_opt_string(s@, pos as int, key@) is None,
        },
{
    let i1 = match parse_tok(s, pos, key) {
        Some(i) => i,
        None => {
            return None;
        },
    };
    let i2 = match parse_tok(s, i1, ":") {
        Some(i) => i,
        None => {
            return None;
        },
    };
    parse_opt_string_tok(s, i2)
}

/// What reading a string yields once `a` has already been read./// What reading a string yields once `a` has already been read.
pub open spec fn ps_cat(a: Seq<char>, o: Option<(Seq<char>, int)>) -> Option<(Seq<char>, int)> {
    match o {
        Some((x, e)) => Some((a + x, e)),
        None => None,
    }
}

/// Reads a JSON string starting at `pos`.
fn parse_string(s: &str, pos: usize) -> (r: Option<(String, usize)>)
    ensures
        match r {
            Some((x, e)) => ps_string(s@, pos as int) == Some((x@, e as int)) && pos < e
                <= s@.len(),
            None => ps_string(s@, pos as int) is None,
        },
{
    let n = s.unicode_len();
    if pos >= n {
        return None;
    }
    if s.get_char(pos) != '"' {
        return None;
    }
    let mut acc = String::new();
    let mut i = pos + 1;
    proof {
        assert(acc@ + ps_str_body(s@, pos + 1)->Some_0.0 == ps_str_body(s@, pos + 1)->Some_0.0)
            by {
            if ps_str_body(s@, pos + 1) is Some {
                assert(acc@ + ps_str_body(s@, pos + 1)->Some_0.0 =~= ps_str_body(
                    s@,
                    pos + 1,
                )->Some_0.0);
            }
        }
    }
    loop
        invariant
            pos + 1 <= i <= n,
            n == s@.len(),
            pos < n,
            s@[pos as int] == '"',
            ps_cat(acc@, ps_str_body(s@, i as int)) == ps_str_body(s@, pos + 1),
        decreases n - i,
    {
        if i >= n {
            return None;
        }
        let c = s.get_char(i);
        if c == '"' {
            proof {
                assert(ps_str_body(s@, i as int) == Some(
                    (Seq::<char>::empty(), i + 1),
                ));
                assert(acc@ + Seq::<char>::empty() =~= acc@);
            }
            return Some((acc, i + 1));
        }
        if c == '\\' {
            if i + 1 >= n {
                return None;
            }
            let d = s.get_char(i + 1);
            let ghost prev = acc@;
            if d == '"' {
                push_char(&mut acc, '"');
            } else if d == '\\' {
                push_char(&mut acc, '\\');
            } else if d == 'n' {
                push_char(&mut acc, '\n');
            } else if d == 't' {
                push_char(&mut acc, '\t');
            } else if d == 'r' {
                push_char(&mut acc, '\r');
            } else {
                return None;
            }
            proof {
                assert(acc@ == prev + seq![unescape_code(d)]);
                if ps_str_body(s@, i + 2) is Some {
                    let (x, e) = ps_str_body(s@, i + 2)->Some_0;
                    assert(ps_str_body(s@, i as int) == Some(
                        (seq![unescape_code(d)] + x, e),
                    ));
                    assert(prev + (seq![unescape_code(d)] + x) =~= acc@ + x);
                }
            }
            i = i + 2;
        } else if c == '\n' || c == '\t' || c == '\r' {
            return None;
        } else {
            let ghost prev = acc@;
            push_char(&mut acc, c);
            proof {
                if ps_str_body(s@, i + 1) is Some {
                    let (x, e) = ps_str_body(s@, i + 1)->Some_0;
                    assert(ps_str_body(s@, i as int) == Some((seq![c] + x, e)));
                    assert(prev + (seq![c] + x) =~= acc@ + x);
                }
            }
            i = i + 1;
        }
    }
}

/// Reads a JSON boolean starting at `pos`.
fn parse_bool(s: &str, pos: usize) -> (r: Option<(bool, usize)>)
    ensures
        match r {
            Some((b, e)) => ps_bool(s@, pos as int) == Some((b, e as int)) && pos < e <= s@.len(),
            None => ps_bool(s@, pos as int) is None,
        },
{
    proof {
        reveal_strlit("true");
        reveal_strlit("false");
    }
    match parse_lit(s, pos, "true") {
        Some(e) => Some((true, e)),
        None => match parse_lit(s, pos, "false") {
            Some(e) => Some((false, e)),
            None => None,
        },
    }
}

/// Reads a JSON string or `null` starting at `pos`.
fn parse_opt_string(s: &str, pos: usize) -> (r: Option<(Option<String>, usize)>)
    ensures
        match r {
            Some((p, e)) => ps_opt_string(s@, pos as int) == Some(
                (
                    match p {
                        Some(ref x) => Some(x@),
                        None => None,
                    },
                    e as int,
                ),
            ) && pos < e <= s@.len(),
            None => ps_opt_string(s@, pos as int) is None,
        },
{
    proof {
        reveal_strlit("null");
    }
    match parse_lit(s, pos, "null") {
        Some(e) => Some((None, e)),
        None => match parse_string(s, pos) {
            Some((x, e)) => Some((Some(x), e)),
            None => None,
        },
    }
}

/// Reads one ledger record starting at `pos`.
#[verifier::rlimit(100)]
fn parse_record(s: &str, pos: usize) -> (r: Option<(crate::types::BinaryVersion, usize)>)
    requires
        pos <= s@.len(),
    ensures
        match r {
            Some((b, e)) => ps_record(s@, pos as int) == Some((b@, e as int)) && pos < e
                <= s@.len(),
            None => ps_record(s@, pos as int) is None,
        },
{
    proof {
        reveal_strlit("}");
    }
    let i1 = match parse_tok(s, pos, "{") {
        Some(i) => i,
        None => {
            return None;
        },
    };
    let (binary_name, i2) = match parse_member_string(s, i1, "\"binary_name\"") {
        Some(v) => v,
        None => {
            return None;
        },
    };
    let i3 = match parse_tok(s, i2, ",") {
        Some(i) => i,
        None => {
            return None;
        },
    };
    let (network_release, i4) = match parse_member_string(s, i3, "\"network_release\"") {
        Some(v) => v,
        None => {
            return None;
        },
    };
    let i5 = match parse_tok(s, i4, ",") {
        Some(i) => i,
        None => {
            return None;
        },
    };
    let (version, i6) = match parse_member_string(s, i5, "\"version\"") {
        Some(v) => v,
        None => {
            return None;
        },
    };
    let i7 = match parse_tok(s, i6, ",") {
        Some(i) => i,
        None => {
            return None;
        },
    };
    let (debug, i8) = match parse_member_bool(s, i7, "\"debug\"") {
        Some(v) => v,
        None => {
            return None;
        },
    };
    let i9 = match parse_tok(s, i8, ",") {
        Some(i) => i,
        None => {
            return None;
        },
    };
    let (path, i10) = match parse_member_opt_string(s, i9, "\"path\"") {
        Some(v) => v,
        None => {
            return None;
        },
    };
    let i11 = match parse_tok(s, i10, "}") {
        Some(i) => i,
        None => {
            return None;
        },
    };
    Some((crate::types::BinaryVersion { binary_name, network_release, version, debug, path }, i11))
}

/// What reading further records yields once some have been read.
pub open spec fn ps_cat_records(
    a: Seq<crate::types::BinaryVersionView>,
    o: Option<(Seq<crate::types::BinaryVersionView>, int)>,
) -> Option<(Seq<crate::types::BinaryVersionView>, int)> {
    match o {
        Some((x, e)) => Some((a + x, e)),
        None => None,
    }
}

/// Reads a JSON list of ledger records starting at `pos`.
#[verifier::rlimit(100)]
fn parse_record_list(s: &str, pos: usize) -> (r: Option<(Vec<crate::types::BinaryVersion>, usize)>)
    requires
        pos <= s@.len(),
    ensures
        match r {
            Some((v, e)) => ps_record_list(s@, pos as int) == Some((records_view(v@), e as int))
                && pos <= e <= s@.len(),
            None => ps_record_list(s@, pos as int) is None,
        },
{
    let n = s.unicode_len();
    let i1 = match parse_tok(s, pos, "[") {
        Some(i) => i,
        None => {
            return None;
        },
    };
    let j = skip_ws(s, i1);
    if j < n && s.get_char(j) == ']' {
        let out: Vec<crate::types::BinaryVersion> = Vec::new();
        proof {
            assert(records_view(out@) =~= Seq::<crate::types::BinaryVersionView>::empty());
        }
        return Some((out, j + 1));
    }
    let (first, e0) = match parse_record(s, i1) {
        Some(v) => v,
        None => {
            return None;
        },
    };
    let mut out: Vec<crate::types::BinaryVersion> = Vec::new();
    out.push(first);
    let mut i = e0;
    loop
        invariant
            pos <= i <= n,
            n == s@.len(),
            out@.len() >= 1,
            ps_cat_records(records_view(out@), ps_items_rest(s@, i as int)) == ps_record_list(
                s@,
                pos as int,
            ),
        decreases n - i,
    {
        let j2 = skip_ws(s, i);
        if j2 >= n {
            return None;
        }
        let c = s.get_char(j2);
        if c == ']' {
            proof {
                assert(ps_items_rest(s@, i as int) == Some(
                    (Seq::<crate::types::BinaryVersionView>::empty(), j2 + 1),
                ));
                assert(records_view(out@) + Seq::<crate::types::BinaryVersionView>::empty()
                    =~= records_view(out@));
            }
            return Some((out, j2 + 1));
        }
        if c != ',' {
            return None;
        }
        let (b, e) = match parse_record(s, j2 + 1) {
            Some(v) => v,
            None => {
                return None;
            },
        };
        let ghost prev = records_view(out@);
        out.push(b);
        proof {
            assert(records_view(out@) =~= prev + seq![b@]);
            if ps_items_rest(s@, e as int) is Some {
                let (x, e2) = ps_items_rest(s@, e as int)->Some_0;
                assert(ps_items_rest(s@, i as int) == Some((seq![b@] + x, e2)));
                assert(prev + (seq![b@] + x) =~= records_view(out@) + x);
            } else {
                assert(ps_items_rest(s@, i as int) is None);
            }
        }
        i = e;
    }
}

/// Reads the installed-binaries ledger from the text of its document;
/// whitespace between tokens is tolerated, and anything else out of
/// form is a corrupt store.
#[verifier::rlimit(100)]
pub fn installed_from_text(s: &str) -> (r: Result<
    crate::types::InstalledBinaries,
    crate::errors::SuiupError,
>)
    ensures
        match r {
            Ok(v) => spec_installed_doc(s@) == Some(v@),
            Err(e) => spec_installed_doc(s@) is None && e@
                == crate::errors::ErrorView::CorruptInstalledStore,
        },
{
    let i1 = match parse_tok(s, 0, "{") {
        Some(i) => i,
        None => {
            return Err(crate::errors::SuiupError::CorruptInstalledStore);
        },
    };
    let i2 = match parse_tok(s, i1, "\"binaries\"") {
        Some(i) => i,
        None => {
            return Err(crate::errors::SuiupError::CorruptInstalledStore);
        },
    };
    let i3 = match parse_tok(s, i2, ":") {
        Some(i) => i,
        None => {
            return Err(crate::errors::SuiupError::CorruptInstalledStore);
        },
    };
    let (records, e) = match parse_record_list(s, i3) {
        Some(v) => v,
        None => {
            return Err(crate::errors::SuiupError::CorruptInstalledStore);
        },
    };
    let e2 = match parse_tok(s, e, "}") {
        Some(i) => i,
        None => {
            return Err(crate::errors::SuiupError::CorruptInstalledStore);
        },
    };
    let e3 = skip_ws(s, e2);
    if e3 != s.unicode_len() {
        return Err(crate::errors::SuiupError::CorruptInstalledStore);
    }
    let store = crate::types::InstalledBinaries::from_records(records);
    Ok(store)
}

/// One promoted default, written as a key and a three-element tuple.
pub open spec fn ser_default_entry(x: crate::types::DefaultEntryView) -> Seq<char> {
    ser_string(x.binary_name) + ":["@ + ser_string(x.network) + ","@ + ser_string(x.version)
        + ","@ + ser_bool(x.debug) + "]"@
}

/// Reads one promoted default starting at `i`: the binary name as
/// key, then the channel, version and flavor as a three-element
/// tuple, with whitespace allowed between tokens.
pub open spec fn ps_default_entry(s: Seq<char>, i: int) -> Option<
    (crate::types::DefaultEntryView, int),
> {
    match ps_string_tok(s, i) {
        None => None,
        Some((binary_name, i1)) => match ps_tok(s, i1, ":"@) {
            None => None,
            Some(i2) => match ps_tok(s, i2, "["@) {
                None => None,
                Some(i3) => match ps_string_tok(s, i3) {
                    None => None,
                    Some((network, i4)) => match ps_tok(s, i4, ","@) {
                        None => None,
                        Some(i5) => match ps_string_tok(s, i5) {
                            None => None,
                            Some((version, i6)) => match ps_tok(s, i6, ","@) {
                                None => None,
                                Some(i7) => match ps_bool_tok(s, i7) {
                                    None => None,
                                    Some((debug, i8)) => match ps_tok(s, i8, "]"@) {
                                        None => None,
                                        Some(i9) => Some(
                                            (
                                                crate::types::DefaultEntryView {
                                                    binary_name,
                                                    network,
                                                    version,
                                                    debug,
                                                },
                                                i9,
                                            ),
                                        ),
                                    },
                                },
                            },
                        },
                    },
                },
            },
        },
    }
}

/// Reading a serialized default entry yields what was written.
#[verifier::rlimit(100)]
pub proof fn lemma_ps_default_entry_of_ser(s: Seq<char>, i: int, x: crate::types::DefaultEntryView)
    requires
        0 <= i,
        i + ser_default_entry(x).len() <= s.len(),
        s.subrange(i, i + ser_default_entry(x).len() as int) == ser_default_entry(x),
    ensures
        ps_default_entry(s, i) == Some((x, i + ser_default_entry(x).len() as int)),
{
    reveal_strlit(":[");
    reveal_strlit(":");
    reveal_strlit("[");
    reveal_strlit(",");
    reveal_strlit("]");
    reveal_strlit("true");
    reveal_strlit("false");
    let v1 = ser_string(x.binary_name);
    let l1 = ":["@;
    let v2 = ser_string(x.network);
    let l2 = ","@;
    let v3 = ser_string(x.version);
    let l3 = ","@;
    let v4 = ser_bool(x.debug);
    let l4 = "]"@;
    let r7 = v4 + l4;
    let r6 = l3 + r7;
    let r5 = v3 + r6;
    let r4 = l2 + r5;
    let r3 = v2 + r4;
    let r2 = l1 + r3;
    let r1 = v1 + r2;
    assert(ser_default_entry(x) =~= r1);
    lemma_split_concat(s, i, v1, r2);
    let i1 = i + v1.len();
    lemma_split_concat(s, i1, l1, r3);
    let i2 = i1 + l1.len();
    lemma_split_concat(s, i2, v2, r4);
    let i3 = i2 + v2.len();
    lemma_split_concat(s, i3, l2, r5);
    let i4 = i3 + l2.len();
    lemma_split_concat(s, i4, v3, r6);
    let i5 = i4 + v3.len();
    lemma_split_concat(s, i5, l3, r7);
    let i6 = i5 + l3.len();
    lemma_split_concat(s, i6, v4, l4);
    let i7 = i6 + v4.len();
    assert(s.subrange(i, i + v1.len() as int)[0] == '"');
    lemma_ws_none(s, i);
    lemma_ps_string_of_ser(s, i, x.binary_name);
    assert(l1 =~= ":"@ + "["@);
    lemma_split_concat(s, i1, ":"@, "["@);
    assert(s.subrange(i1, i1 + 1)[0] == ':');
    lemma_ws_none(s, i1);
    assert(ps_tok(s, i1, ":"@) == Some(i1 + 1));
    assert(s.subrange(i1 + 1, i2)[0] == '[');
    lemma_ws_none(s, i1 + 1);
    assert(ps_tok(s, i1 + 1, "["@) == Some(i2));
    assert(s.subrange(i2, i2 + v2.len() as int)[0] == '"');
    lemma_ws_none(s, i2);
    lemma_ps_string_of_ser(s, i2, x.network);
    assert(s.subrange(i3, i3 + 1)[0] == ',');
    lemma_ws_none(s, i3);
    assert(ps_tok(s, i3, ","@) == Some(i4));
    assert(s.subrange(i4, i4 + v3.len() as int)[0] == '"');
    lemma_ws_none(s, i4);
    lemma_ps_string_of_ser(s, i4, x.version);
    assert(s.subrange(i5, i5 + 1)[0] == ',');
    lemma_ws_none(s, i5);
    assert(ps_tok(s, i5, ","@) == Some(i6));
    assert(s.subrange(i6, i6 + v4.len() as int)[0] == v4[0]);
    assert(!is_json_ws(v4[0]));
    lemma_ws_none(s, i6);
    lemma_ps_bool_of_ser(s, i6, x.debug);
    assert(s.subrange(i7, i7 + 1)[0] == ']');
    lemma_ws_none(s, i7);
    assert(ps_tok(s, i7, "]"@) == Some(i7 + 1));
}

/// What remains of the defaults object after its first entry.
pub open spec fn ser_default_rest(es: Seq<crate::types::DefaultEntryView>) -> Seq<char>
    decreases es.len(),
{
    if es.len() == 0 {
        seq!['}']
    } else {
        seq![','] + ser_default_entry(es[0]) + ser_default_rest(es.skip(1))
    }
}

/// The promoted-defaults document: a JSON object keyed by binary name.
pub open spec fn ser_default(es: Seq<crate::types::DefaultEntryView>) -> Seq<char> {
    if es.len() == 0 {
        seq!['{', '}']
    } else {
        seq!['{'] + ser_default_entry(es[0]) + ser_default_rest(es.skip(1))
    }
}

/// Reads what remains of the defaults object after an entry: a comma
/// and an entry, repeated, then the closing brace, with whitespace
/// allowed between tokens.
pub open spec fn ps_default_rest(s: Seq<char>, i: int) -> Option<
    (Seq<crate::types::DefaultEntryView>, int),
>
    decreases s.len() - i,
{
    let j = ws_end(s, i);
    if j < i || j >= s.len() {
        None
    } else if s[j] == '}' {
        Some((Seq::empty(), j + 1))
    } else if s[j] == ',' {
        match ps_default_entry(s, j + 1) {
            None => None,
            Some((x, e)) => if i < e <= s.len() {
                match ps_default_rest(s, e) {
                    None => None,
                    Some((rest, e2)) => Some((seq![x] + rest, e2)),
                }
            } else {
                None
            },
        }
    } else {
        None
    }
}

/// Reads the promoted-defaults object starting at `i`.
pub open spec fn ps_default_obj(s: Seq<char>, i: int) -> Option<
    (Seq<crate::types::DefaultEntryView>, int),
> {
    match ps_tok(s, i, "{"@) {
        None => None,
        Some(i1) => {
            let j = ws_end(s, i1);
            if i1 <= j < s.len() && s[j] == '}' {
                Some((Seq::empty(), j + 1))
            } else {
                match ps_default_entry(s, i1) {
                    None => None,
                    Some((x, e)) => if i1 < e <= s.len() {
                        match ps_default_rest(s, e) {
                            None => None,
                            Some((rest, e2)) => Some((seq![x] + rest, e2)),
                        }
                    } else {
                        None
                    },
                }
            }
        },
    }
}

/// Reading a serialized defaults tail yields the entries written.
pub proof fn lemma_ps_default_rest_of_ser(s: Seq<char>, i: int, es: Seq<
    crate::types::DefaultEntryView,
>)
    requires
        0 <= i,
        i + ser_default_rest(es).len() <= s.len(),
        s.subrange(i, i + ser_default_rest(es).len() as int) == ser_default_rest(es),
    ensures
        ps_default_rest(s, i) == Some((es, i + ser_default_rest(es).len() as int)),
    decreases es.len(),
{
    let piece = ser_default_rest(es);
    if es.len() == 0 {
        assert(s.subrange(i, i + 1)[0] == piece[0]);
        assert(s[i] == '}');
        lemma_ws_none(s, i);
    } else {
        let ent = ser_default_entry(es[0]);
        let tail = ser_default_rest(es.skip(1));
        assert(piece =~= seq![','] + (ent + tail));
        lemma_split_concat(s, i, seq![','], ent + tail);
        assert(s.subrange(i, i + 1)[0] == ',');
        assert(s[i] == ',');
        lemma_ws_none(s, i);
        lemma_split_concat(s, i + 1, ent, tail);
        lemma_ps_default_entry_of_ser(s, i + 1, es[0]);
        assert(ent.len() > 0) by {
            assert(ser_default_entry(es[0]).len() >= ser_string(es[0].binary_name).len());
        }
        let e = i + 1 + ent.len();
        lemma_ps_default_rest_of_ser(s, e, es.skip(1));
        assert(seq![es[0]] + es.skip(1) =~= es);
    }
}

/// Reading a serialized defaults object yields the entries written.
#[verifier::rlimit(100)]
pub proof fn lemma_ps_default_obj_of_ser(s: Seq<char>, i: int, es: Seq<
    crate::types::DefaultEntryView,
>)
    requires
        0 <= i,
        i + ser_default(es).len() <= s.len(),
        s.subrange(i, i + ser_default(es).len() as int) == ser_default(es),
    ensures
        ps_default_obj(s, i) == Some((es, i + ser_default(es).len() as int)),
{
    reveal_strlit("{");
    let piece = ser_default(es);
    assert(s.subrange(i, i + piece.len() as int)[0] == piece[0]);
    assert(s[i] == '{');
    lemma_ws_none(s, i);
    assert(s.subrange(i, i + 1) =~= "{"@);
    assert(ps_tok(s, i, "{"@) == Some(i + 1));
    if es.len() == 0 {
        assert(s.subrange(i, i + piece.len() as int)[1] == piece[1]);
        assert(s[i + 1] == '}');
        lemma_ws_none(s, i + 1);
    } else {
        let ent = ser_default_entry(es[0]);
        let tail = ser_default_rest(es.skip(1));
        assert(piece =~= seq!['{'] + (ent + tail));
        lemma_split_concat(s, i, seq!['{'], ent + tail);
        lemma_split_concat(s, i + 1, ent, tail);
        lemma_ps_default_entry_of_ser(s, i + 1, es[0]);
        assert(ent.len() > 0) by {
            assert(ser_default_entry(es[0]).len() >= ser_string(es[0].binary_name).len());
        }
        assert(s.subrange(i + 1, i + 1 + ent.len() as int)[0] == ent[0]);
        assert(s[i + 1] == '"');
        assert(s[i + 1] != '}');
        lemma_ws_none(s, i + 1);
        let e = i + 1 + ent.len();
        lemma_ps_default_rest_of_ser(s, e, es.skip(1));
        assert(seq![es[0]] + es.skip(1) =~= es);
    }
}

/// What a promoted-defaults document denotes: the entries, when the
/// whole text is one well-formed object with nothing but whitespace
/// around or after it.
pub open spec fn spec_default_doc(s: Seq<char>) -> Option<Seq<crate::types::DefaultEntryView>> {
    match ps_default_obj(s, 0) {
        Some((es, e)) => if 0 <= e <= s.len() && ws_end(s, e) == s.len() {
            Some(es)
        } else {
            None
        },
        None => None,
    }
}

/// Reading back a written defaults map yields the map written.
pub proof fn lemma_default_round_trip(es: Seq<crate::types::DefaultEntryView>)
    ensures
        spec_default_doc(ser_default(es)) == Some(es),
{
    let s = ser_default(es);
    assert(s.subrange(0, s.len() as int) =~= s);
    lemma_ps_default_obj_of_ser(s, 0, es);
    lemma_ws_none(s, s.len() as int);
}

/// The view of a sequence of default entries.
pub open spec fn entries_view(v: Seq<crate::types::DefaultEntry>) -> Seq<
    crate::types::DefaultEntryView,
> {
    Seq::new(v.len(), |i: int| v[i]@)
}

/// Appends one promoted default.
fn append_default_entry(out: &mut String, x: &crate::types::DefaultEntry)
    ensures
        final(out)@ == old(out)@ + ser_default_entry(x@),
{
    append_json_string(out, x.binary_name.as_str());
    out.append(":[");
    append_json_string(out, x.network.as_str());
    out.append(",");
    append_json_string(out, x.version.as_str());
    out.append(",");
    append_bool(out, x.debug);
    out.append("]");
    proof {
        assert(out@ =~= old(out)@ + ser_default_entry(x@));
    }
}

/// The promoted-defaults map, as the text of its JSON document.
pub fn default_to_text(store: &crate::types::DefaultBinaries) -> (r: String)
    ensures
        r@ == ser_default(store@),
{
    let entries = store.entries();
    let ghost es = store@;
    let mut out = String::new();
    if entries.len() == 0 {
        out.append("{}");
        proof {
            reveal_strlit("{}");
            assert(out@ =~= ser_default(es));
        }
        return out;
    }
    out.append("{");
    append_default_entry(&mut out, &entries[0]);
    proof {
        reveal_strlit("{");
        assert(out@ =~= seq!['{'] + ser_default_entry(es[0]));
    }
    let mut k: usize = 1;
    while k < entries.len()
        invariant
            1 <= k <= entries@.len(),
            es == store@,
            es.len() == entries@.len(),
            forall|j: int| 0 <= j < entries@.len() ==> entries@[j]@ == es[j],
            out@ + ser_default_rest(es.skip(k as int)) == ser_default(es),
        decreases entries@.len() - k,
    {
        out.append(",");
        append_default_entry(&mut out, &entries[k]);
        proof {
            reveal_strlit(",");
            let tail = es.skip(k as int);
            assert(tail[0] == es[k as int]);
            assert(tail.skip(1) =~= es.skip(k + 1));
            assert(ser_default_rest(tail) =~= seq![','] + ser_default_entry(es[k as int])
                + ser_default_rest(es.skip(k + 1)));
            assert(out@ + ser_default_rest(es.skip(k + 1)) =~= ser_default(es));
        }
        k = k + 1;
    }
    out.append("}");
    proof {
        reveal_strlit("}");
        assert(es.skip(entries@.len() as int) =~= Seq::<crate::types::DefaultEntryView>::empty());
        assert(ser_default_rest(es.skip(entries@.len() as int)) =~= seq!['}']);
        assert(out@ =~= ser_default(es));
    }
    out
}

/// Reads one promoted default starting at `pos`.
#[verifier::rlimit(100)]
fn parse_default_entry(s: &str, pos: usize) -> (r: Option<(crate::types::DefaultEntry, usize)>)
    requires
        pos <= s@.len(),
    ensures
        match r {
            Some((x, e)) => ps_default_entry(s@, pos as int) == Some((x@, e as int)) && pos < e
                <= s@.len(),
            None => ps_default_entry(s@, pos as int) is None,
        },
{
    proof {
        reveal_strlit("]");
    }
    let (binary_name, i1) = match parse_string_tok(s, pos) {
        Some(v) => v,
        None => {
            return None;
        },
    };
    let i2 = match parse_tok(s, i1, ":") {
        Some(i) => i,
        None => {
            return None;
        },
    };
    let i3 = match parse_tok(s, i2, "[") {
        Some(i) => i,
        None => {
            return None;
        },
    };
    let (network, i4) = match parse_string_tok(s, i3) {
        Some(v) => v,
        None => {
            return None;
        },
    };
    let i5 = match parse_tok(s, i4, ",") {
        Some(i) => i,
        None => {
            return None;
        },
    };
    let (version, i6) = match parse_string_tok(s, i5) {
        Some(v) => v,
        None => {
            return None;
        },
    };
    let i7 = match parse_tok(s, i6, ",") {
        Some(i) => i,
        None => {
            return None;
        },
    };
    let (debug, i8) = match parse_bool_tok(s, i7) {
        Some(v) => v,
        None => {
            return None;
        },
    };
    let i9 = match parse_tok(s, i8, "]") {
        Some(i) => i,
        None => {
            return None;
        },
    };
    Some((crate::types::DefaultEntry { binary_name, network, version, debug }, i9))
}

/// What reading further entries yields once some have been read.
pub open spec fn ps_cat_entries(
    a: Seq<crate::types::DefaultEntryView>,
    o: Option<(Seq<crate::types::DefaultEntryView>, int)>,
) -> Option<(Seq<crate::types::DefaultEntryView>, int)> {
    match o {
        Some((x, e)) => Some((a + x, e)),
        None => None,
    }
}

/// Reads the promoted-defaults object starting at `pos`.
#[verifier::rlimit(100)]
fn parse_default_obj(s: &str, pos: usize) -> (r: Option<(Vec<crate::types::DefaultEntry>, usize)>)
    requires
        pos <= s@.len(),
    ensures
        match r {
            Some((v, e)) => ps_default_obj(s@, pos as int) == Some((entries_view(v@), e as int))
                && pos <= e <= s@.len(),
            None => ps_default_obj(s@, pos as int) is None,
        },
{
    let n = s.unicode_len();
    let i1 = match parse_tok(s, pos, "{") {
        Some(i) => i,
        None => {
            return None;
        },
    };
    let j = skip_ws(s, i1);
    if j < n && s.get_char(j) == '}' {
        let out: Vec<crate::types::DefaultEntry> = Vec::new();
        proof {
            assert(entries_view(out@) =~= Seq::<crate::types::DefaultEntryView>::empty());
        }
        return Some((out, j + 1));
    }
    let (first, e0) = match parse_default_entry(s, i1) {
        Some(v) => v,
        None => {
            return None;
        },
    };
    let mut out: Vec<crate::types::DefaultEntry> = Vec::new();
    out.push(first);
    let mut i = e0;
    loop
        invariant
            pos <= i <= n,
            n == s@.len(),
            out@.len() >= 1,
            ps_cat_entries(entries_view(out@), ps_default_rest(s@, i as int)) == ps_default_obj(
                s@,
                pos as int,
            ),
        decreases n - i,
    {
        let j2 = skip_ws(s, i);
        if j2 >= n {
            return None;
        }
        let c = s.get_char(j2);
        if c == '}' {
            proof {
                assert(ps_default_rest(s@, i as int) == Some(
                    (Seq::<crate::types::DefaultEntryView>::empty(), j2 + 1),
                ));
                assert(entries_view(out@) + Seq::<crate::types::DefaultEntryView>::empty()
                    =~= entries_view(out@));
            }
            return Some((out, j2 + 1));
        }
        if c != ',' {
            return None;
        }
        let (x, e) = match parse_default_entry(s, j2 + 1) {
            Some(v) => v,
            None => {
                return None;
            },
        };
        let ghost prev = entries_view(out@);
        out.push(x);
        proof {
            assert(entries_view(out@) =~= prev + seq![x@]);
            if ps_default_rest(s@, e as int) is Some {
                let (y, e2) = ps_default_rest(s@, e as int)->Some_0;
                assert(ps_default_rest(s@, i as int) == Some((seq![x@] + y, e2)));
                assert(prev + (seq![x@] + y) =~= entries_view(out@) + y);
            } else {
                assert(ps_default_rest(s@, i as int) is None);
            }
        }
        i = e;
    }
}

/// Reads the promoted-defaults map from the text of its document./// Reads the promoted-defaults map from the text of its document. The
/// entries must be strictly ordered by binary name, as written; any
/// deviation is a corrupt store.
#[verifier::rlimit(100)]
pub fn default_from_text(s: &str) -> (r: Result<
    crate::types::DefaultBinaries,
    crate::errors::SuiupError,
>)
    ensures
        match r {
            Ok(v) => spec_default_doc(s@) == Some(v@) && crate::types::default_entries_sorted(v@),
            Err(e) => (spec_default_doc(s@) is None || !crate::types::default_entries_sorted(
                spec_default_doc(s@)->Some_0,
            )) && e@ == crate::errors::ErrorView::CorruptDefaultStore,
        },
{
    let (entries, e) = match parse_default_obj(s, 0) {
        Some(v) => v,
        None => {
            return Err(crate::errors::SuiupError::CorruptDefaultStore);
        },
    };
    let e2 = skip_ws(s, e);
    if e2 != s.unicode_len() {
        return Err(crate::errors::SuiupError::CorruptDefaultStore);
    }
    let mut k: usize = 1;
    while k < entries.len()
        invariant
            1 <= k <= entries@.len() || entries@.len() == 0,
            spec_default_doc(s@) == Some(entries_view(entries@)),
            forall|i2: int, j2: int|
                0 <= i2 < j2 < k ==> crate::strutil::spec_str_lt(
                    entries@[i2]@.binary_name,
                    entries@[j2]@.binary_name,
                ),
        decreases entries@.len() - k,
    {
        if !crate::strutil::str_lt(
            entries[k - 1].binary_name.as_str(),
            entries[k].binary_name.as_str(),
        ) {
            proof {
                let ev = entries_view(entries@);
                assert(ev[k - 1].binary_name == entries@[k - 1]@.binary_name);
                assert(ev[k as int].binary_name == entries@[k as int]@.binary_name);
                assert(!crate::strutil::spec_str_lt(
                    ev[k - 1].binary_name,
                    ev[k as int].binary_name,
                ));
                assert(!crate::types::default_entries_sorted(ev));
            }
            return Err(crate::errors::SuiupError::CorruptDefaultStore);
        }
        proof {
            assert forall|i2: int, j2: int| 0 <= i2 < j2 < k + 1 implies crate::strutil::spec_str_lt(
                entries@[i2]@.binary_name,
                entries@[j2]@.binary_name,
            ) by {
                if j2 == k {
                    if i2 < k - 1 {
                        crate::strutil::lemma_str_lt_trans(
                            entries@[i2]@.binary_name,
                            entries@[k - 1]@.binary_name,
                            entries@[k as int]@.binary_name,
                        );
                    }
                }
            }
        }
        k = k + 1;
    }
    proof {
        assert(crate::types::default_entries_sorted(entries_view(entries@)));
    }
    let store = crate::types::DefaultBinaries::from_entries(entries);
    Ok(store)
}

/// One release asset, written with its fixed keys in fixed order.
pub open spec fn ser_asset(a: crate::types::AssetView) -> Seq<char> {
    "{\"browser_download_url\":"@ + ser_string(a.url) + ",\"name\":"@ + ser_string(a.name) + "}"@
}

/// Reads one release asset starting at `i`: its fixed keys in fixed
/// order, with whitespace allowed between tokens.
pub open spec fn ps_asset(s: Seq<char>, i: int) -> Option<(crate::types::AssetView, int)> {
    match ps_tok(s, i, "{"@) {
        None => None,
        Some(i1) => match ps_member_string(s, i1, "\"browser_download_url\""@) {
            None => None,
            Some((url, i2)) => match ps_tok(s, i2, ","@) {
                None => None,
                Some(i3) => match ps_member_string(s, i3, "\"name\""@) {
                    None => None,
                    Some((name, i4)) => match ps_tok(s, i4, "}"@) {
                        None => None,
                        Some(i5) => Some((crate::types::AssetView { url, name }, i5)),
                    },
                },
            },
        },
    }
}

/// Reading a serialized asset yields the asset that was written.
#[verifier::rlimit(100)]
pub proof fn lemma_ps_asset_of_ser(s: Seq<char>, i: int, a: crate::types::AssetView)
    requires
        0 <= i,
        i + ser_asset(a).len() <= s.len(),
        s.subrange(i, i + ser_asset(a).len() as int) == ser_asset(a),
    ensures
        ps_asset(s, i) == Some((a, i + ser_asset(a).len() as int)),
{
    reveal_strlit("{\"browser_download_url\":");
    reveal_strlit(",\"name\":");
    reveal_strlit("{");
    reveal_strlit(",");
    reveal_strlit(":");
    reveal_strlit("}");
    reveal_strlit("\"browser_download_url\"");
    reveal_strlit("\"name\"");
    let l1 = "{\"browser_download_url\":"@;
    let v1 = ser_string(a.url);
    let l2 = ",\"name\":"@;
    let v2 = ser_string(a.name);
    let l3 = "}"@;
    let r4 = v2 + l3;
    let r3 = l2 + r4;
    let r2 = v1 + r3;
    let r1 = l1 + r2;
    assert(ser_asset(a) =~= r1);
    lemma_split_concat(s, i, l1, r2);
    let i1 = i + l1.len();
    lemma_split_concat(s, i1, v1, r3);
    let i2 = i1 + v1.len();
    lemma_split_concat(s, i2, l2, r4);
    let i3 = i2 + l2.len();
    lemma_split_concat(s, i3, v2, l3);
    let i4 = i3 + v2.len();
    let k1 = "\"browser_download_url\""@;
    assert(l1 =~= "{"@ + (k1 + ":"@));
    lemma_split_concat(s, i, "{"@, k1 + ":"@);
    assert(s.subrange(i, i + 1)[0] == '{');
    assert(s[i] == '{');
    lemma_ws_none(s, i);
    assert(ps_tok(s, i, "{"@) == Some(i + 1));
    lemma_join_concat(s, i + 1, i1, i2, k1 + ":"@, v1);
    assert(s.subrange(i + 1, i2) =~= k1 + ":"@ + v1);
    lemma_ps_member_string_of_ser(s, i + 1, k1, a.url);
    let k2 = "\"name\""@;
    assert(l2 =~= ","@ + (k2 + ":"@));
    lemma_split_concat(s, i2, ","@, k2 + ":"@);
    assert(s.subrange(i2, i2 + 1)[0] == ',');
    assert(s[i2] == ',');
    lemma_ws_none(s, i2);
    assert(ps_tok(s, i2, ","@) == Some(i2 + 1));
    lemma_join_concat(s, i2 + 1, i3, i4, k2 + ":"@, v2);
    assert(s.subrange(i2 + 1, i4) =~= k2 + ":"@ + v2);
    lemma_ps_member_string_of_ser(s, i2 + 1, k2, a.name);
    assert(s.subrange(i4, i4 + 1)[0] == '}');
    assert(s[i4] == '}');
    lemma_ws_none(s, i4);
    assert(ps_tok(s, i4, "}"@) == Some(i4 + 1));
}

/// What remains of an asset list after its first asset.
pub open spec fn ser_asset_rest(xs: Seq<crate::types::AssetView>) -> Seq<char>
    decreases xs.len(),
{
    if xs.len() == 0 {
        seq![']']
    } else {
        seq![','] + ser_asset(xs[0]) + ser_asset_rest(xs.skip(1))
    }
}

/// A JSON list of release assets.
pub open spec fn ser_asset_list(xs: Seq<crate::types::AssetView>) -> Seq<char> {
    if xs.len() == 0 {
        seq!['[', ']']
    } else {
        seq!['['] + ser_asset(xs[0]) + ser_asset_rest(xs.skip(1))
    }
}

/// Reads what remains of an asset list after an asset, with
/// whitespace allowed between tokens.
pub open spec fn ps_asset_rest(s: Seq<char>, i: int) -> Option<(Seq<crate::types::AssetView>, int)>
    decreases s.len() - i,
{
    let j = ws_end(s, i);
    if j < i || j >= s.len() {
        None
    } else if s[j] == ']' {
        Some((Seq::empty(), j + 1))
    } else if s[j] == ',' {
        match ps_asset(s, j + 1) {
            None => None,
            Some((a, e)) => if i < e <= s.len() {
                match ps_asset_rest(s, e) {
                    None => None,
                    Some((rest, e2)) => Some((seq![a] + rest, e2)),
                }
            } else {
                None
            },
        }
    } else {
        None
    }
}

/// Reads a JSON list of release assets starting at `i`.
pub open spec fn ps_asset_list(s: Seq<char>, i: int) -> Option<(Seq<crate::types::AssetView>, int)> {
    match ps_tok(s, i, "["@) {
        None => None,
        Some(i1) => {
            let j = ws_end(s, i1);
            if i1 <= j < s.len() && s[j] == ']' {
                Some((Seq::empty(), j + 1))
            } else {
                match ps_asset(s, i1) {
                    None => None,
                    Some((a, e)) => if i1 < e <= s.len() {
                        match ps_asset_rest(s, e) {
                            None => None,
                            Some((rest, e2)) => Some((seq![a] + rest, e2)),
                        }
                    } else {
                        None
                    },
                }
            }
        },
    }
}

/// Reading a serialized asset-list tail yields the assets written.
pub proof fn lemma_ps_asset_rest_of_ser(s: Seq<char>, i: int, xs: Seq<crate::types::AssetView>)
    requires
        0 <= i,
        i + ser_asset_rest(xs).len() <= s.len(),
        s.subrange(i, i + ser_asset_rest(xs).len() as int) == ser_asset_rest(xs),
    ensures
        ps_asset_rest(s, i) == Some((xs, i + ser_asset_rest(xs).len() as int)),
    decreases xs.len(),
{
    let piece = ser_asset_rest(xs);
    if xs.len() == 0 {
        assert(s.subrange(i, i + 1)[0] == piece[0]);
        assert(s[i] == ']');
        lemma_ws_none(s, i);
    } else {
        let rec = ser_asset(xs[0]);
        let tail = ser_asset_rest(xs.skip(1));
        assert(piece =~= seq![','] + (rec + tail));
        lemma_split_concat(s, i, seq![','], rec + tail);
        assert(s.subrange(i, i + 1)[0] == ',');
        assert(s[i] == ',');
        lemma_ws_none(s, i);
        lemma_split_concat(s, i + 1, rec, tail);
        lemma_ps_asset_of_ser(s, i + 1, xs[0]);
        reveal_strlit("{\"browser_download_url\":");
        assert(rec.len() > 0) by {
            assert(ser_asset(xs[0]).len() >= "{\"browser_download_url\":"@.len());
        }
        let e = i + 1 + rec.len();
        lemma_ps_asset_rest_of_ser(s, e, xs.skip(1));
        assert(seq![xs[0]] + xs.skip(1) =~= xs);
    }
}

/// Reading a serialized asset list yields the assets written.
#[verifier::rlimit(100)]
pub proof fn lemma_ps_asset_list_of_ser(s: Seq<char>, i: int, xs: Seq<crate::types::AssetView>)
    requires
        0 <= i,
        i + ser_asset_list(xs).len() <= s.len(),
        s.subrange(i, i + ser_asset_list(xs).len() as int) == ser_asset_list(xs),
    ensures
        ps_asset_list(s, i) == Some((xs, i + ser_asset_list(xs).len() as int)),
{
    reveal_strlit("[");
    let piece = ser_asset_list(xs);
    assert(s.subrange(i, i + piece.len() as int)[0] == piece[0]);
    assert(s[i] == '[');
    lemma_ws_none(s, i);
    assert(s.subrange(i, i + 1) =~= "["@);
    assert(ps_tok(s, i, "["@) == Some(i + 1));
    if xs.len() == 0 {
        assert(s.subrange(i, i + piece.len() as int)[1] == piece[1]);
        assert(s[i + 1] == ']');
        lemma_ws_none(s, i + 1);
    } else {
        let rec = ser_asset(xs[0]);
        let tail = ser_asset_rest(xs.skip(1));
        assert(piece =~= seq!['['] + (rec + tail));
        lemma_split_concat(s, i, seq!['['], rec + tail);
        lemma_split_concat(s, i + 1, rec, tail);
        lemma_ps_asset_of_ser(s, i + 1, xs[0]);
        reveal_strlit("{\"browser_download_url\":");
        assert(rec.len() > 0) by {
            assert(ser_asset(xs[0]).len() >= "{\"browser_download_url\":"@.len());
        }
        assert(s.subrange(i + 1, i + 1 + rec.len() as int)[0] == rec[0]);
        assert(s[i + 1] == '{');
        assert(s[i + 1] != ']');
        lemma_ws_none(s, i + 1);
        let e = i + 1 + rec.len();
        lemma_ps_asset_rest_of_ser(s, e, xs.skip(1));
        assert(seq![xs[0]] + xs.skip(1) =~= xs);
    }
}

/// One release: its asset list under its one key.
pub open spec fn ser_release(r: crate::types::ReleaseView) -> Seq<char> {
    "{\"assets\":"@ + ser_asset_list(r.assets) + "}"@
}

/// Reads one release starting at `i`.
pub open spec fn ps_release(s: Seq<char>, i: int) -> Option<(crate::types::ReleaseView, int)> {
    match ps_tok(s, i, "{"@) {
        None => None,
        Some(i1) => match ps_tok(s, i1, "\"assets\""@) {
            None => None,
            Some(i2) => match ps_tok(s, i2, ":"@) {
                None => None,
                Some(i3) => match ps_asset_list(s, i3) {
                    None => None,
                    Some((assets, e)) => match ps_tok(s, e, "}"@) {
                        None => None,
                        Some(e2) => Some((crate::types::ReleaseView { assets }, e2)),
                    },
                },
            },
        },
    }
}

/// Reading a serialized release yields the release that was written.
#[verifier::rlimit(100)]
pub proof fn lemma_ps_release_of_ser(s: Seq<char>, i: int, r: crate::types::ReleaseView)
    requires
        0 <= i,
        i + ser_release(r).len() <= s.len(),
        s.subrange(i, i + ser_release(r).len() as int) == ser_release(r),
    ensures
        ps_release(s, i) == Some((r, i + ser_release(r).len() as int)),
{
    reveal_strlit("{\"assets\":");
    reveal_strlit("{");
    reveal_strlit("\"assets\"");
    reveal_strlit(":");
    reveal_strlit("}");
    let l1 = "{\"assets\":"@;
    let v1 = ser_asset_list(r.assets);
    let l2 = "}"@;
    let r2 = v1 + l2;
    assert(ser_release(r) =~= l1 + r2);
    lemma_split_concat(s, i, l1, r2);
    let i1 = i + l1.len();
    lemma_split_concat(s, i1, v1, l2);
    let i2 = i1 + v1.len();
    let k1 = "\"assets\""@;
    assert(l1 =~= "{"@ + (k1 + ":"@));
    lemma_split_concat(s, i, "{"@, k1 + ":"@);
    lemma_split_concat(s, i + 1, k1, ":"@);
    assert(s.subrange(i, i + 1)[0] == '{');
    assert(s[i] == '{');
    lemma_ws_none(s, i);
    assert(ps_tok(s, i, "{"@) == Some(i + 1));
    assert(s.subrange(i + 1, i + 1 + k1.len() as int)[0] == '"');
    lemma_ws_none(s, i + 1);
    assert(ps_tok(s, i + 1, k1) == Some(i + 1 + k1.len() as int));
    assert(s.subrange(i + 1 + k1.len(), i1 as int)[0] == ':');
    lemma_ws_none(s, i + 1 + k1.len());
    assert(ps_tok(s, i + 1 + k1.len(), ":"@) == Some(i1 as int));
    assert(s.subrange(i1, i1 + v1.len() as int)[0] == '[');
    lemma_ws_none(s, i1);
    lemma_ps_asset_list_of_ser(s, i1, r.assets);
    assert(s.subrange(i2, i2 + 1)[0] == '}');
    assert(s[i2] == '}');
    lemma_ws_none(s, i2);
    assert(ps_tok(s, i2, "}"@) == Some(i2 + 1));
}

/// What remains of the catalog list after its first release.
pub open spec fn ser_release_rest(rs: Seq<crate::types::ReleaseView>) -> Seq<char>
    decreases rs.len(),
{
    if rs.len() == 0 {
        seq![']']
    } else {
        seq![','] + ser_release(rs[0]) + ser_release_rest(rs.skip(1))
    }
}

/// The cached release catalog: a JSON list of releases, in catalog
/// order, newest first.
pub open spec fn ser_releases(rs: Seq<crate::types::ReleaseView>) -> Seq<char> {
    if rs.len() == 0 {
        seq!['[', ']']
    } else {
        seq!['['] + ser_release(rs[0]) + ser_release_rest(rs.skip(1))
    }
}

/// Reads what remains of the catalog list after a release, with
/// whitespace allowed between tokens.
pub open spec fn ps_release_rest(s: Seq<char>, i: int) -> Option<
    (Seq<crate::types::ReleaseView>, int),
>
    decreases s.len() - i,
{
    let j = ws_end(s, i);
    if j < i || j >= s.len() {
        None
    } else if s[j] == ']' {
        Some((Seq::empty(), j + 1))
    } else if s[j] == ',' {
        match ps_release(s, j + 1) {
            None => None,
            Some((r, e)) => if i < e <= s.len() {
                match ps_release_rest(s, e) {
                    None => None,
                    Some((rest, e2)) => Some((seq![r] + rest, e2)),
                }
            } else {
                None
            },
        }
    } else {
        None
    }
}

/// Reads the catalog list starting at `i`.
pub open spec fn ps_releases(s: Seq<char>, i: int) -> Option<(Seq<crate::types::ReleaseView>, int)> {
    match ps_tok(s, i, "["@) {
        None => None,
        Some(i1) => {
            let j = ws_end(s, i1);
            if i1 <= j < s.len() && s[j] == ']' {
                Some((Seq::empty(), j + 1))
            } else {
                match ps_release(s, i1) {
                    None => None,
                    Some((r, e)) => if i1 < e <= s.len() {
                        match ps_release_rest(s, e) {
                            None => None,
                            Some((rest, e2)) => Some((seq![r] + rest, e2)),
                        }
                    } else {
                        None
                    },
                }
            }
        },
    }
}

/// Reading a serialized catalog tail yields the releases written.
pub proof fn lemma_ps_release_rest_of_ser(s: Seq<char>, i: int, rs: Seq<crate::types::ReleaseView>)
    requires
        0 <= i,
        i + ser_release_rest(rs).len() <= s.len(),
        s.subrange(i, i + ser_release_rest(rs).len() as int) == ser_release_rest(rs),
    ensures
        ps_release_rest(s, i) == Some((rs, i + ser_release_rest(rs).len() as int)),
    decreases rs.len(),
{
    let piece = ser_release_rest(rs);
    if rs.len() == 0 {
        assert(s.subrange(i, i + 1)[0] == piece[0]);
        assert(s[i] == ']');
        lemma_ws_none(s, i);
    } else {
        let rec = ser_release(rs[0]);
        let tail = ser_release_rest(rs.skip(1));
        assert(piece =~= seq![','] + (rec + tail));
        lemma_split_concat(s, i, seq![','], rec + tail);
        assert(s.subrange(i, i + 1)[0] == ',');
        assert(s[i] == ',');
        lemma_ws_none(s, i);
        lemma_split_concat(s, i + 1, rec, tail);
        lemma_ps_release_of_ser(s, i + 1, rs[0]);
        reveal_strlit("{\"assets\":");
        assert(rec.len() > 0) by {
            assert(ser_release(rs[0]).len() >= "{\"assets\":"@.len());
        }
        let e = i + 1 + rec.len();
        lemma_ps_release_rest_of_ser(s, e, rs.skip(1));
        assert(seq![rs[0]] + rs.skip(1) =~= rs);
    }
}

/// Reading a serialized catalog yields the releases written.
#[verifier::rlimit(100)]
pub proof fn lemma_ps_releases_of_ser(s: Seq<char>, i: int, rs: Seq<crate::types::ReleaseView>)
    requires
        0 <= i,
        i + ser_releases(rs).len() <= s.len(),
        s.subrange(i, i + ser_releases(rs).len() as int) == ser_releases(rs),
    ensures
        ps_releases(s, i) == Some((rs, i + ser_releases(rs).len() as int)),
{
    reveal_strlit("[");
    let piece = ser_releases(rs);
    assert(s.subrange(i, i + piece.len() as int)[0] == piece[0]);
    assert(s[i] == '[');
    lemma_ws_none(s, i);
    assert(s.subrange(i, i + 1) =~= "["@);
    assert(ps_tok(s, i, "["@) == Some(i + 1));
    if rs.len() == 0 {
        assert(s.subrange(i, i + piece.len() as int)[1] == piece[1]);
        assert(s[i + 1] == ']');
        lemma_ws_none(s, i + 1);
    } else {
        let rec = ser_release(rs[0]);
        let tail = ser_release_rest(rs.skip(1));
        assert(piece =~= seq!['['] + (rec + tail));
        lemma_split_concat(s, i, seq!['['], rec + tail);
        lemma_split_concat(s, i + 1, rec, tail);
        lemma_ps_release_of_ser(s, i + 1, rs[0]);
        reveal_strlit("{\"assets\":");
        assert(rec.len() > 0) by {
            assert(ser_release(rs[0]).len() >= "{\"assets\":"@.len());
        }
        assert(s.subrange(i + 1, i + 1 + rec.len() as int)[0] == rec[0]);
        assert(s[i + 1] == '{');
        assert(s[i + 1] != ']');
        lemma_ws_none(s, i + 1);
        let e = i + 1 + rec.len();
        lemma_ps_release_rest_of_ser(s, e, rs.skip(1));
        assert(seq![rs[0]] + rs.skip(1) =~= rs);
    }
}

/// What a cached catalog document denotes: the releases, when the
/// whole text is one well-formed list with nothing but whitespace
/// around or after it.
pub open spec fn spec_releases_doc(s: Seq<char>) -> Option<Seq<crate::types::ReleaseView>> {
    match ps_releases(s, 0) {
        Some((rs, e)) => if 0 <= e <= s.len() && ws_end(s, e) == s.len() {
            Some(rs)
        } else {
            None
        },
        None => None,
    }
}

/// Reading back a written catalog yields the catalog written.
pub proof fn lemma_releases_round_trip(rs: Seq<crate::types::ReleaseView>)
    ensures
        spec_releases_doc(ser_releases(rs)) == Some(rs),
{
    let s = ser_releases(rs);
    assert(s.subrange(0, s.len() as int) =~= s);
    lemma_ps_releases_of_ser(s, 0, rs);
    lemma_ws_none(s, s.len() as int);
}

/// The view of a sequence of assets.
pub open spec fn assets_view(v: Seq<crate::types::Asset>) -> Seq<crate::types::AssetView> {
    Seq::new(v.len(), |i: int| v[i]@)
}

/// The view of a sequence of releases.
pub open spec fn releases_view(v: Seq<crate::types::Release>) -> Seq<crate::types::ReleaseView> {
    Seq::new(v.len(), |i: int| v[i]@)
}

/// Appends one release asset.
fn append_asset(out: &mut String, a: &crate::types::Asset)
    ensures
        final(out)@ == old(out)@ + ser_asset(a@),
{
    out.append("{\"browser_download_url\":");
    append_json_string(out, a.browser_download_url.as_str());
    out.append(",\"name\":");
    append_json_string(out, a.name.as_str());
    out.append("}");
    proof {
        assert(out@ =~= old(out)@ + ser_asset(a@));
    }
}

/// Appends a JSON list of release assets.
fn append_asset_list(out: &mut String, assets: &Vec<crate::types::Asset>)
    ensures
        final(out)@ == old(out)@ + ser_asset_list(assets_view(assets@)),
{
    let ghost xs = assets_view(assets@);
    if assets.len() == 0 {
        out.append("[]");
        proof {
            reveal_strlit("[]");
            assert(out@ =~= old(out)@ + ser_asset_list(xs));
        }
        return ;
    }
    out.append("[");
    append_asset(out, &assets[0]);
    proof {
        reveal_strlit("[");
        assert(out@ =~= old(out)@ + seq!['['] + ser_asset(xs[0]));
    }
    let mut k: usize = 1;
    while k < assets.len()
        invariant
            1 <= k <= assets@.len(),
            xs == assets_view(assets@),
            xs.len() == assets@.len(),
            out@ + ser_asset_rest(xs.skip(k as int)) == old(out)@ + ser_asset_list(xs),
        decreases assets@.len() - k,
    {
        out.append(",");
        append_asset(out, &assets[k]);
        proof {
            reveal_strlit(",");
            let tail = xs.skip(k as int);
            assert(tail[0] == xs[k as int]);
            assert(tail.skip(1) =~= xs.skip(k + 1));
            assert(ser_asset_rest(tail) =~= seq![','] + ser_asset(xs[k as int]) + ser_asset_rest(
                xs.skip(k + 1),
            ));
            assert(out@ + ser_asset_rest(xs.skip(k + 1)) =~= old(out)@ + ser_asset_list(xs));
        }
        k = k + 1;
    }
    out.append("]");
    proof {
        reveal_strlit("]");
        assert(xs.skip(assets@.len() as int) =~= Seq::<crate::types::AssetView>::empty());
        assert(ser_asset_rest(xs.skip(assets@.len() as int)) =~= seq![']']);
        assert(out@ =~= old(out)@ + ser_asset_list(xs));
    }
}

/// Appends one release.
fn append_release(out: &mut String, r: &crate::types::Release)
    ensures
        final(out)@ == old(out)@ + ser_release(r@),
{
    out.append("{\"assets\":");
    append_asset_list(out, &r.assets);
    out.append("}");
    proof {
        assert(assets_view(r.assets@) =~= r@.assets);
        assert(out@ =~= old(out)@ + ser_release(r@));
    }
}

/// The release catalog, as the text of its cache document.
pub fn releases_to_text(releases: &Vec<crate::types::Release>) -> (r: String)
    ensures
        r@ == ser_releases(releases_view(releases@)),
{
    let ghost rs = releases_view(releases@);
    let mut out = String::new();
    if releases.len() == 0 {
        out.append("[]");
        proof {
            reveal_strlit("[]");
            assert(out@ =~= ser_releases(rs));
        }
        return out;
    }
    out.append("[");
    append_release(&mut out, &releases[0]);
    proof {
        reveal_strlit("[");
        assert(out@ =~= seq!['['] + ser_release(rs[0]));
    }
    let mut k: usize = 1;
    while k < releases.len()
        invariant
            1 <= k <= releases@.len(),
            rs == releases_view(releases@),
            rs.len() == releases@.len(),
            out@ + ser_release_rest(rs.skip(k as int)) == ser_releases(rs),
        decreases releases@.len() - k,
    {
        out.append(",");
        append_release(&mut out, &releases[k]);
        proof {
            reveal_strlit(",");
            let tail = rs.skip(k as int);
            assert(tail[0] == rs[k as int]);
            assert(tail.skip(1) =~= rs.skip(k + 1));
            assert(ser_release_rest(tail) =~= seq![','] + ser_release(rs[k as int])
                + ser_release_rest(rs.skip(k + 1)));
            assert(out@ + ser_release_rest(rs.skip(k + 1)) =~= ser_releases(rs));
        }
        k = k + 1;
    }
    out.append("]");
    proof {
        reveal_strlit("]");
        assert(rs.skip(releases@.len() as int) =~= Seq::<crate::types::ReleaseView>::empty());
        assert(ser_release_rest(rs.skip(releases@.len() as int)) =~= seq![']']);
        assert(out@ =~= ser_releases(rs));
    }
    out
}

/// Reads one release asset starting at `pos`.
#[verifier::rlimit(100)]
fn parse_asset(s: &str, pos: usize) -> (r: Option<(crate::types::Asset, usize)>)
    requires
        pos <= s@.len(),
    ensures
        match r {
            Some((a, e)) => ps_asset(s@, pos as int) == Some((a@, e as int)) && pos < e
                <= s@.len(),
            None => ps_asset(s@, pos as int) is None,
        },
{
    proof {
        reveal_strlit("}");
    }
    let i1 = match parse_tok(s, pos, "{") {
        Some(i) => i,
        None => {
            return None;
        },
    };
    let (url, i2) = match parse_member_string(s, i1, "\"browser_download_url\"") {
        Some(v) => v,
        None => {
            return None;
        },
    };
    let i3 = match parse_tok(s, i2, ",") {
        Some(i) => i,
        None => {
            return None;
        },
    };
    let (name, i4) = match parse_member_string(s, i3, "\"name\"") {
        Some(v) => v,
        None => {
            return None;
        },
    };
    let i5 = match parse_tok(s, i4, "}") {
        Some(i) => i,
        None => {
            return None;
        },
    };
    Some((crate::types::Asset { browser_download_url: url, name }, i5))
}

/// What reading further assets yields once some have been read.
pub open spec fn ps_cat_assets(
    a: Seq<crate::types::AssetView>,
    o: Option<(Seq<crate::types::AssetView>, int)>,
) -> Option<(Seq<crate::types::AssetView>, int)> {
    match o {
        Some((x, e)) => Some((a + x, e)),
        None => None,
    }
}

/// Reads a JSON list of release assets starting at `pos`.
#[verifier::rlimit(100)]
fn parse_asset_list(s: &str, pos: usize) -> (r: Option<(Vec<crate::types::Asset>, usize)>)
    requires
        pos <= s@.len(),
    ensures
        match r {
            Some((v, e)) => ps_asset_list(s@, pos as int) == Some((assets_view(v@), e as int))
                && pos <= e <= s@.len(),
            None => ps_asset_list(s@, pos as int) is None,
        },
{
    let n = s.unicode_len();
    let i1 = match parse_tok(s, pos, "[") {
        Some(i) => i,
        None => {
            return None;
        },
    };
    let j = skip_ws(s, i1);
    if j < n && s.get_char(j) == ']' {
        let out: Vec<crate::types::Asset> = Vec::new();
        proof {
            assert(assets_view(out@) =~= Seq::<crate::types::AssetView>::empty());
        }
        return Some((out, j + 1));
    }
    let (first, e0) = match parse_asset(s, i1) {
        Some(v) => v,
        None => {
            return None;
        },
    };
    let mut out: Vec<crate::types::Asset> = Vec::new();
    out.push(first);
    let mut i = e0;
    loop
        invariant
            pos <= i <= n,
            n == s@.len(),
            out@.len() >= 1,
            ps_cat_assets(assets_view(out@), ps_asset_rest(s@, i as int)) == ps_asset_list(
                s@,
                pos as int,
            ),
        decreases n - i,
    {
        let j2 = skip_ws(s, i);
        if j2 >= n {
            return None;
        }
        let c = s.get_char(j2);
        if c == ']' {
            proof {
                assert(ps_asset_rest(s@, i as int) == Some(
                    (Seq::<crate::types::AssetView>::empty(), j2 + 1),
                ));
                assert(assets_view(out@) + Seq::<crate::types::AssetView>::empty() =~= assets_view(
                    out@,
                ));
            }
            return Some((out, j2 + 1));
        }
        if c != ',' {
            return None;
        }
        let (a, e) = match parse_asset(s, j2 + 1) {
            Some(v) => v,
            None => {
                return None;
            },
        };
        let ghost prev = assets_view(out@);
        out.push(a);
        proof {
            assert(assets_view(out@) =~= prev + seq![a@]);
            if ps_asset_rest(s@, e as int) is Some {
                let (x, e2) = ps_asset_rest(s@, e as int)->Some_0;
                assert(ps_asset_rest(s@, i as int) == Some((seq![a@] + x, e2)));
                assert(prev + (seq![a@] + x) =~= assets_view(out@) + x);
            } else {
                assert(ps_asset_rest(s@, i as int) is None);
            }
        }
        i = e;
    }
}

/// Reads one release starting at `pos`.
#[verifier::rlimit(100)]
fn parse_release(s: &str, pos: usize) -> (r: Option<(crate::types::Release, usize)>)
    requires
        pos <= s@.len(),
    ensures
        match r {
            Some((rel, e)) => ps_release(s@, pos as int) == Some((rel@, e as int)) && pos < e
                <= s@.len(),
            None => ps_release(s@, pos as int) is None,
        },
{
    proof {
        reveal_strlit("}");
    }
    let i1 = match parse_tok(s, pos, "{") {
        Some(i) => i,
        None => {
            return None;
        },
    };
    let i2 = match parse_tok(s, i1, "\"assets\"") {
        Some(i) => i,
        None => {
            return None;
        },
    };
    let i3 = match parse_tok(s, i2, ":") {
        Some(i) => i,
        None => {
            return None;
        },
    };
    let (assets, i4) = match parse_asset_list(s, i3) {
        Some(v) => v,
        None => {
            return None;
        },
    };
    let i5 = match parse_tok(s, i4, "}") {
        Some(i) => i,
        None => {
            return None;
        },
    };
    let rel = crate::types::Release { assets };
    proof {
        assert(rel@.assets =~= assets_view(rel.assets@));
    }
    Some((rel, i5))
}

/// What reading further releases yields once some have been read.
pub open spec fn ps_cat_releases(
    a: Seq<crate::types::ReleaseView>,
    o: Option<(Seq<crate::types::ReleaseView>, int)>,
) -> Option<(Seq<crate::types::ReleaseView>, int)> {
    match o {
        Some((x, e)) => Some((a + x, e)),
        None => None,
    }
}

/// Reads the release catalog from the text of its cache document;
/// whitespace between tokens is tolerated, and anything else out of
/// form is a corrupt cache.
#[verifier::rlimit(100)]
pub fn releases_from_text(s: &str) -> (r: Result<
    Vec<crate::types::Release>,
    crate::errors::SuiupError,
>)
    ensures
        match r {
            Ok(v) => spec_releases_doc(s@) == Some(releases_view(v@)),
            Err(e) => spec_releases_doc(s@) is None && e@
                == crate::errors::ErrorView::CorruptReleaseCache,
        },
{
    let n = s.unicode_len();
    let i1 = match parse_tok(s, 0, "[") {
        Some(i) => i,
        None => {
            return Err(crate::errors::SuiupError::CorruptReleaseCache);
        },
    };
    let j = skip_ws(s, i1);
    if j < n && s.get_char(j) == ']' {
        let e2 = skip_ws(s, j + 1);
        if e2 != n {
            return Err(crate::errors::SuiupError::CorruptReleaseCache);
        }
        let out: Vec<crate::types::Release> = Vec::new();
        proof {
            assert(releases_view(out@) =~= Seq::<crate::types::ReleaseView>::empty());
        }
        return Ok(out);
    }
    let (first, e0) = match parse_release(s, i1) {
        Some(v) => v,
        None => {
            return Err(crate::errors::SuiupError::CorruptReleaseCache);
        },
    };
    let mut out: Vec<crate::types::Release> = Vec::new();
    out.push(first);
    let mut i = e0;
    loop
        invariant
            0 <= i <= n,
            n == s@.len(),
            out@.len() >= 1,
            ps_cat_releases(releases_view(out@), ps_release_rest(s@, i as int)) == ps_releases(
                s@,
                0,
            ),
        decreases n - i,
    {
        let j2 = skip_ws(s, i);
        if j2 >= n {
            return Err(crate::errors::SuiupError::CorruptReleaseCache);
        }
        let c = s.get_char(j2);
        if c == ']' {
            proof {
                assert(ps_release_rest(s@, i as int) == Some(
                    (Seq::<crate::types::ReleaseView>::empty(), j2 + 1),
                ));
                assert(releases_view(out@) + Seq::<crate::types::ReleaseView>::empty()
                    =~= releases_view(out@));
            }
            let e2 = skip_ws(s, j2 + 1);
            if e2 != n {
                return Err(crate::errors::SuiupError::CorruptReleaseCache);
            }
            return Ok(out);
        }
        if c != ',' {
            return Err(crate::errors::SuiupError::CorruptReleaseCache);
        }
        let (rel, e) = match parse_release(s, j2 + 1) {
            Some(v) => v,
            None => {
                return Err(crate::errors::SuiupError::CorruptReleaseCache);
            },
        };
        let ghost prev = releases_view(out@);
        out.push(rel);
        proof {
            assert(releases_view(out@) =~= prev + seq![rel@]);
            if ps_release_rest(s@, e as int) is Some {
                let (x, e2) = ps_release_rest(s@, e as int)->Some_0;
                assert(ps_release_rest(s@, i as int) == Some((seq![rel@] + x, e2)));
                assert(prev + (seq![rel@] + x) =~= releases_view(out@) + x);
            } else {
                assert(ps_release_rest(s@, i as int) is None);
            }
        }
        i = e;
    }
}

} // verus!
