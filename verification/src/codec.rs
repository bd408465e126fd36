//! The cache file's text form: a pretty-printed object mapping each
//! entry-point string to its identifier string, one entry per line. The
//! serializer escapes quotes, backslashes and the common control characters;
//! the parser accepts the serialized form, with arbitrary whitespace between
//! tokens and the usual string escapes. Parsing the serialized form of a
//! cache reproduces its entries exactly.

use vstd::prelude::*;
use vstd::string::StrSliceExecFns;

verus! {

use crate::cache::{BundleCache, CacheModel, entry_views};

// --- serialized form ---

/// The text standing for one character inside a quoted string: quotes,
/// backslashes and the common control characters are escaped, everything
/// else stands for itself.
pub open spec fn escape_char(c: char) -> Seq<char> {
    if c == '"' {
        seq!['\\', '"']
    } else if c == '\\' {
        seq!['\\', '\\']
    } else if c == '\n' {
        seq!['\\', 'n']
    } else if c == '\r' {
        seq!['\\', 'r']
    } else if c == '\t' {
        seq!['\\', 't']
    } else {
        seq![c]
    }
}

/// The text standing for a string's characters inside quotes.
pub open spec fn escape_str(s: Seq<char>) -> Seq<char>
    decreases s.len(),
{
    if s.len() == 0 {
        Seq::empty()
    } else {
        escape_char(s[0]) + escape_str(s.drop_first())
    }
}

/// One serialized entry: the quoted key, a colon and a space, the quoted
/// value.
pub open spec fn ser_entry(k: Seq<char>, v: Seq<char>) -> Seq<char> {
    seq!['"'] + escape_str(k) + seq!['"', ':', ' ', '"'] + escape_str(v) + seq!['"']
}

/// The serialized entry list: each entry indented by two spaces, entries
/// separated by a comma and a newline, and a newline and the closing brace
/// after the last one.
pub open spec fn ser_entries(es: CacheModel) -> Seq<char>
    decreases es.len(),
{
    if es.len() == 0 {
        Seq::empty()
    } else if es.len() == 1 {
        seq![' ', ' '] + ser_entry(es[0].0, es[0].1) + seq!['\n', '}']
    } else {
        seq![' ', ' '] + ser_entry(es[0].0, es[0].1) + seq![',', '\n'] + ser_entries(
            es.drop_first(),
        )
    }
}

/// The whole serialized cache.
pub open spec fn ser_cache(es: CacheModel) -> Seq<char> {
    if es.len() == 0 {
        seq!['{', '}']
    } else {
        seq!['{', '\n'] + ser_entries(es)
    }
}

// --- parsing ---

/// The whitespace accepted between tokens.
pub open spec fn is_ws_char(c: char) -> bool {
    c == ' ' || c == '\n' || c == '\r' || c == '\t'
}

/// The first position at or after `i` that holds no whitespace.
pub open spec fn skip_ws(t: Seq<char>, i: int) -> int
    decreases t.len() - i,
{
    if 0 <= i < t.len() && is_ws_char(t[i]) {
        skip_ws(t, i + 1)
    } else {
        i
    }
}

/// The character an escape code stands for.
pub open spec fn unescape_code(c: char) -> Option<char> {
    if c == '"' {
        Some('"')
    } else if c == '\\' {
        Some('\\')
    } else if c == '/' {
        Some('/')
    } else if c == 'n' {
        Some('\n')
    } else if c == 'r' {
        Some('\r')
    } else if c == 't' {
        Some('\t')
    } else if c == 'b' {
        Some('\u{8}')
    } else if c == 'f' {
        Some('\u{c}')
    } else {
        None
    }
}

/// Parses the inside of a quoted string starting at `i`, through the closing
/// quote: the string's characters and the position after the quote.
pub open spec fn parse_string_body(t: Seq<char>, i: int) -> Option<(Seq<char>, int)>
    decreases t.len() - i,
{
    if i < 0 || i >= t.len() {
        None
    } else if t[i] == '"' {
        Some((Seq::empty(), i + 1))
    } else if t[i] == '\\' {
        if i + 1 < t.len() {
            match unescape_code(t[i + 1]) {
                Some(c) => match parse_string_body(t, i + 2) {
                    Some(r) => Some((seq![c] + r.0, r.1)),
                    None => None,
                },
                None => None,
            }
        } else {
            None
        }
    } else {
        match parse_string_body(t, i + 1) {
            Some(r) => Some((seq![t[i]] + r.0, r.1)),
            None => None,
        }
    }
}

/// Parses a quoted string: the opening quote, then its body.
pub open spec fn parse_quoted(t: Seq<char>, i: int) -> Option<(Seq<char>, int)> {
    if 0 <= i < t.len() && t[i] == '"' {
        parse_string_body(t, i + 1)
    } else {
        None
    }
}

/// Parses one entry: quoted key, colon, quoted value, with whitespace
/// around the colon.
pub open spec fn parse_entry(t: Seq<char>, i: int) -> Option<((Seq<char>, Seq<char>), int)> {
    match parse_quoted(t, i) {
        Some(k) => {
            let j = skip_ws(t, k.1);
            if j < t.len() && t[j] == ':' {
                match parse_quoted(t, skip_ws(t, j + 1)) {
                    Some(v) => Some(((k.0, v.0), v.1)),
                    None => None,
                }
            } else {
                None
            }
        },
        None => None,
    }
}

/// Parses a comma-separated entry list starting at an entry's opening quote,
/// through the closing brace.
pub open spec fn parse_entries(t: Seq<char>, i: int) -> Option<(CacheModel, int)>
    decreases t.len() - i,
    via parse_entries_decreases
{
    match parse_entry(t, i) {
        Some(e) => {
            let j = skip_ws(t, e.1);
            if j < t.len() && t[j] == ',' {
                match parse_entries(t, skip_ws(t, j + 1)) {
                    Some(r) => Some((seq![e.0] + r.0, r.1)),
                    None => None,
                }
            } else if j < t.len() && t[j] == '}' {
                Some((seq![e.0], j + 1))
            } else {
                None
            }
        },
        None => None,
    }
}

#[via_fn]
proof fn parse_entries_decreases(t: Seq<char>, i: int) {
    match parse_entry(t, i) {
        Some(e) => {
            lemma_parse_entry_advances(t, i);
            let j = skip_ws(t, e.1);
            lemma_skip_ws_bounds(t, e.1);
            if j < t.len() && t[j] == ',' {
                lemma_skip_ws_bounds(t, j + 1);
            }
        },
        None => {},
    }
}

/// Parses a whole cache file: an object of string-to-string entries, with
/// nothing but whitespace around it.
pub open spec fn parse_cache_text(t: Seq<char>) -> Option<CacheModel> {
    let i = skip_ws(t, 0);
    if i < t.len() && t[i] == '{' {
        let j = skip_ws(t, i + 1);
        if j < t.len() && t[j] == '}' {
            if skip_ws(t, j + 1) == t.len() {
                Some(Seq::empty())
            } else {
                None
            }
        } else {
            match parse_entries(t, j) {
                Some(r) => if skip_ws(t, r.1) == t.len() {
                    Some(r.0)
                } else {
                    None
                },
                None => None,
            }
        }
    } else {
        None
    }
}

// --- positions only move forward ---

/// Skipping whitespace stays within the text and never moves backward.
pub proof fn lemma_skip_ws_bounds(t: Seq<char>, i: int)
    requires
        0 <= i <= t.len(),
    ensures
        i <= skip_ws(t, i) <= t.len(),
    decreases t.len() - i,
{
    if i < t.len() && is_ws_char(t[i]) {
        lemma_skip_ws_bounds(t, i + 1);
    }
}

/// A parsed string body ends after its opening position and within the text.
pub proof fn lemma_parse_string_body_advances(t: Seq<char>, i: int)
    requires
        parse_string_body(t, i) is Some,
    ensures
        i < (parse_string_body(t, i)->0).1 <= t.len(),
    decreases t.len() - i,
{
    if t[i] == '"' {
    } else if t[i] == '\\' {
        lemma_parse_string_body_advances(t, i + 2);
    } else {
        lemma_parse_string_body_advances(t, i + 1);
    }
}

/// A parsed entry ends after its opening position and within the text.
pub proof fn lemma_parse_entry_advances(t: Seq<char>, i: int)
    requires
        parse_entry(t, i) is Some,
    ensures
        i < (parse_entry(t, i)->0).1 <= t.len(),
{
    let k = parse_quoted(t, i)->0;
    lemma_parse_string_body_advances(t, i + 1);
    lemma_skip_ws_bounds(t, k.1);
    let j = skip_ws(t, k.1);
    let m = skip_ws(t, j + 1);
    lemma_skip_ws_bounds(t, j + 1);
    lemma_parse_string_body_advances(t, m + 1);
}

// --- round trip ---

/// A position inside a text segment known equal to a pattern holds the
/// pattern's character.
proof fn lemma_index_of_eq(t: Seq<char>, i: int, pat: Seq<char>, a: int)
    requires
        0 <= i,
        i + pat.len() <= t.len(),
        t.subrange(i, i + pat.len() as int) == pat,
        0 <= a < pat.len(),
    ensures
        t[i + a] == pat[a],
{
    assert(t.subrange(i, i + pat.len() as int)[a] == t[i + a]);
}

/// A sub-segment of a text segment known equal to a pattern equals the
/// pattern's sub-segment.
proof fn lemma_subrange_of_eq(t: Seq<char>, i: int, pat: Seq<char>, a: int, b: int)
    requires
        0 <= i,
        i + pat.len() <= t.len(),
        t.subrange(i, i + pat.len() as int) == pat,
        0 <= a <= b <= pat.len(),
    ensures
        t.subrange(i + a, i + b) == pat.subrange(a, b),
{
    assert forall|q: int| 0 <= q < b - a implies t.subrange(i + a, i + b)[q] == pat.subrange(
        a,
        b,
    )[q] by {
        assert(t.subrange(i, i + pat.len() as int)[a + q] == t[i + a + q]);
        assert(t.subrange(i + a, i + b)[q] == t[i + a + q]);
        assert(pat.subrange(a, b)[q] == pat[a + q]);
    }
    assert(t.subrange(i + a, i + b) =~= pat.subrange(a, b));
}

/// Parsing a string body over the escaped text of `s` followed by a closing
/// quote yields exactly `s` and stops after the quote.
pub proof fn lemma_parse_escaped(t: Seq<char>, i: int, s: Seq<char>)
    requires
        0 <= i,
        i + escape_str(s).len() + 1 <= t.len(),
        t.subrange(i, i + escape_str(s).len() + 1) == escape_str(s) + seq!['"'],
    ensures
        parse_string_body(t, i) == Some((s, i + escape_str(s).len() + 1)),
    decreases s.len(),
{
    let pat = escape_str(s) + seq!['"'];
    assert(t.subrange(i, i + pat.len() as int) == pat);
    if s.len() == 0 {
        lemma_index_of_eq(t, i, pat, 0);
        assert(pat[0] == '"');
        assert(s =~= Seq::<char>::empty());
    } else {
        let c = s[0];
        let rest = s.drop_first();
        let ec = escape_char(c);
        assert(escape_str(s) == ec + escape_str(rest));
        assert(pat.subrange(ec.len() as int, pat.len() as int) =~= escape_str(rest) + seq!['"'])
            by {
            assert(forall|q: int|
                0 <= q < pat.len() - ec.len() ==> #[trigger] pat.subrange(
                    ec.len() as int,
                    pat.len() as int,
                )[q] == pat[ec.len() + q]);
        }
        lemma_subrange_of_eq(t, i, pat, ec.len() as int, pat.len() as int);
        lemma_parse_escaped(t, i + ec.len(), rest);
        assert(seq![c] + rest =~= s);
        lemma_index_of_eq(t, i, pat, 0);
        if c == '"' || c == '\\' || c == '\n' || c == '\r' || c == '\t' {
            lemma_index_of_eq(t, i, pat, 1);
            assert(pat[0] == '\\');
            assert(t[i] == '\\');
            assert(unescape_code(t[i + 1]) == Some(c));
            assert(parse_string_body(t, i) == Some((s, i + escape_str(s).len() + 1)));
        } else {
            assert(pat[0] == c);
            assert(t[i] == c);
            assert(parse_string_body(t, i) == Some((s, i + escape_str(s).len() + 1)));
        }
    }
}

/// Parsing an entry over the serialized text of `(k, v)` yields exactly that
/// pair and stops after it.
pub proof fn lemma_parse_ser_entry(t: Seq<char>, i: int, k: Seq<char>, v: Seq<char>)
    requires
        0 <= i,
        i + ser_entry(k, v).len() <= t.len(),
        t.subrange(i, i + ser_entry(k, v).len()) == ser_entry(k, v),
    ensures
        parse_entry(t, i) == Some(((k, v), i + ser_entry(k, v).len())),
{
    let pat = ser_entry(k, v);
    let wk = escape_str(k).len() as int;
    let wv = escape_str(v).len() as int;
    assert(t.subrange(i, i + pat.len() as int) == pat);
    assert(pat[0] == '"');
    lemma_index_of_eq(t, i, pat, 0);
    assert(pat.subrange(1, 1 + wk + 1) =~= escape_str(k) + seq!['"']) by {
        assert(forall|q: int|
            0 <= q < wk + 1 ==> #[trigger] pat.subrange(1, 1 + wk + 1)[q] == pat[1 + q]);
    }
    lemma_subrange_of_eq(t, i, pat, 1, 1 + wk + 1);
    lemma_parse_escaped(t, i + 1, k);
    let j1 = i + 1 + wk + 1;
    assert(parse_quoted(t, i) == Some((k, j1)));
    assert(pat[2 + wk] == ':');
    assert(pat[3 + wk] == ' ');
    assert(pat[4 + wk] == '"');
    lemma_index_of_eq(t, i, pat, 2 + wk);
    lemma_index_of_eq(t, i, pat, 3 + wk);
    lemma_index_of_eq(t, i, pat, 4 + wk);
    assert(skip_ws(t, j1) == j1);
    assert(skip_ws(t, j1 + 2) == j1 + 2);
    assert(skip_ws(t, j1 + 1) == j1 + 2);
    assert(pat.subrange(5 + wk, 5 + wk + wv + 1) =~= escape_str(v) + seq!['"']) by {
        assert(forall|q: int|
            0 <= q < wv + 1 ==> #[trigger] pat.subrange(5 + wk, 5 + wk + wv + 1)[q] == pat[5 + wk
                + q]);
    }
    lemma_subrange_of_eq(t, i, pat, 5 + wk, 5 + wk + wv + 1);
    lemma_parse_escaped(t, j1 + 3, v);
    assert(parse_quoted(t, j1 + 2) == Some((v, j1 + 3 + wv + 1)));
    assert(j1 + 3 + wv + 1 == i + pat.len());
}

/// Parsing an entry list over the serialized text of a non-empty entry
/// sequence, from just past its two-space indent, yields exactly those
/// entries and stops after the closing brace.
pub proof fn lemma_parse_ser_entries(t: Seq<char>, p: int, es: CacheModel)
    requires
        es.len() >= 1,
        0 <= p,
        p + ser_entries(es).len() <= t.len(),
        t.subrange(p, p + ser_entries(es).len()) == ser_entries(es),
    ensures
        parse_entries(t, p + 2) == Some((es, p + ser_entries(es).len())),
    decreases es.len(),
{
    let pat = ser_entries(es);
    let e0 = ser_entry(es[0].0, es[0].1);
    let w0 = e0.len() as int;
    assert(t.subrange(p, p + pat.len() as int) == pat);
    assert(pat.subrange(2, 2 + w0) =~= e0) by {
        assert(forall|q: int| 0 <= q < w0 ==> #[trigger] pat.subrange(2, 2 + w0)[q] == pat[2 + q]);
    }
    lemma_subrange_of_eq(t, p, pat, 2, 2 + w0);
    lemma_parse_ser_entry(t, p + 2, es[0].0, es[0].1);
    let j = p + 2 + w0;
    assert(es[0] =~= (es[0].0, es[0].1));
    if es.len() == 1 {
        assert(pat[2 + w0] == '\n');
        assert(pat[3 + w0] == '}');
        lemma_index_of_eq(t, p, pat, 2 + w0);
        lemma_index_of_eq(t, p, pat, 3 + w0);
        assert(skip_ws(t, j + 1) == j + 1);
        assert(skip_ws(t, j) == j + 1);
        assert(seq![es[0]] =~= es);
        assert(parse_entries(t, p + 2) == Some((es, j + 2)));
    } else {
        assert(pat[2 + w0] == ',');
        assert(pat[3 + w0] == '\n');
        lemma_index_of_eq(t, p, pat, 2 + w0);
        lemma_index_of_eq(t, p, pat, 3 + w0);
        assert(skip_ws(t, j) == j);
        let rest = es.drop_first();
        let p2 = j + 2;
        assert(pat.subrange(4 + w0, pat.len() as int) =~= ser_entries(rest)) by {
            assert(forall|q: int|
                0 <= q < pat.len() - (4 + w0) ==> #[trigger] pat.subrange(
                    4 + w0,
                    pat.len() as int,
                )[q] == pat[4 + w0 + q]);
        }
        lemma_subrange_of_eq(t, p, pat, 4 + w0, pat.len() as int);
        lemma_parse_ser_entries(t, p2, rest);
        assert(ser_entries(rest)[0] == ' ' && ser_entries(rest)[1] == ' ' && ser_entries(rest)[2]
            == '"') by {
            assert(ser_entry(rest[0].0, rest[0].1)[0] == '"');
        }
        lemma_index_of_eq(t, p2, ser_entries(rest), 0);
        lemma_index_of_eq(t, p2, ser_entries(rest), 1);
        lemma_index_of_eq(t, p2, ser_entries(rest), 2);
        assert(skip_ws(t, p2 + 2) == p2 + 2);
        assert(skip_ws(t, p2 + 1) == p2 + 2);
        assert(skip_ws(t, p2) == p2 + 2);
        assert(skip_ws(t, j + 1) == p2 + 2);
        assert(seq![es[0]] + rest =~= es);
        assert(parse_entries(t, p + 2) == Some((es, p + pat.len())));
    }
}

/// Round trip: parsing the serialized form of any entry sequence reproduces
/// exactly those entries.
pub proof fn lemma_cache_round_trip(es: CacheModel)
    ensures
        parse_cache_text(ser_cache(es)) == Some(es),
{
    let t = ser_cache(es);
    if es.len() == 0 {
        assert(t[0] == '{');
        assert(t[1] == '}');
        assert(skip_ws(t, 0) == 0);
        assert(skip_ws(t, 1) == 1);
        assert(skip_ws(t, 2) == 2);
        assert(es =~= Seq::<(Seq<char>, Seq<char>)>::empty());
    } else {
        let p = 2;
        assert(t[0] == '{');
        assert(t[1] == '\n');
        assert(t[2] == ' ');
        assert(t[3] == ' ');
        assert(t[4] == '"') by {
            assert(ser_entry(es[0].0, es[0].1)[0] == '"');
            assert(ser_entries(es)[2] == '"');
        }
        assert(skip_ws(t, 0) == 0);
        assert(skip_ws(t, 4) == 4);
        assert(skip_ws(t, 3) == 4);
        assert(skip_ws(t, 2) == 4);
        assert(skip_ws(t, 1) == 4);
        assert(t.subrange(p, p + ser_entries(es).len()) =~= ser_entries(es));
        lemma_parse_ser_entries(t, p, es);
        assert(skip_ws(t, t.len() as int) == t.len());
    }
}


// --- executable serializer ---

/// Relies on String::push: appends the given character to the end of the
/// string.
#[verifier::external_body]
fn push_char(out: &mut String, c: char)
    ensures
        final(out)@ == old(out)@ + seq![c],
{
    out.push(c);
}

/// Appending a character extends a string's escaped text by that character's
/// escape.
proof fn lemma_escape_str_snoc(s: Seq<char>, c: char)
    ensures
        escape_str(s.push(c)) == escape_str(s) + escape_char(c),
    decreases s.len(),
{
    if s.len() == 0 {
        assert(s.push(c)[0] == c);
        assert(s.push(c).drop_first() =~= Seq::<char>::empty());
        assert(escape_str(Seq::<char>::empty()) == Seq::<char>::empty());
        assert(escape_str(s.push(c)) == escape_char(c) + Seq::<char>::empty());
        assert(escape_char(c) + Seq::<char>::empty() =~= escape_char(c));
        assert(escape_str(s) + escape_char(c) =~= escape_char(c));
    } else {
        assert(s.push(c)[0] == s[0]);
        assert(s.push(c).drop_first() =~= s.drop_first().push(c));
        lemma_escape_str_snoc(s.drop_first(), c);
        assert(escape_str(s.push(c)) == escape_char(s[0]) + escape_str(s.drop_first().push(c)));
        assert(escape_char(s[0]) + (escape_str(s.drop_first()) + escape_char(c)) =~= (escape_char(
            s[0],
        ) + escape_str(s.drop_first())) + escape_char(c));
    }
}

/// Appends the escaped text of `s`.
fn append_escaped(out: &mut String, s: &str)
    ensures
        final(out)@ == old(out)@ + escape_str(s@),
{
    let n = s.unicode_len();
    let mut i: usize = 0;
    while i < n
        invariant
            n == s@.len(),
            i <= n,
            out@ == old(out)@ + escape_str(s@.subrange(0, i as int)),
        decreases n - i,
    {
        let c = s.get_char(i);
        if c == '"' {
            push_char(out, '\\');
            push_char(out, '"');
        } else if c == '\\' {
            push_char(out, '\\');
            push_char(out, '\\');
        } else if c == '\n' {
            push_char(out, '\\');
            push_char(out, 'n');
        } else if c == '\r' {
            push_char(out, '\\');
            push_char(out, 'r');
        } else if c == '\t' {
            push_char(out, '\\');
            push_char(out, 't');
        } else {
            push_char(out, c);
        }
        proof {
            lemma_escape_str_snoc(s@.subrange(0, i as int), c);
            assert(s@.subrange(0, i as int).push(c) =~= s@.subrange(0, i + 1 as int));
            assert((old(out)@ + escape_str(s@.subrange(0, i as int))) + escape_char(c) =~= old(
                out,
            )@ + (escape_str(s@.subrange(0, i as int)) + escape_char(c)));
        }
        i += 1;
    }
    assert(s@.subrange(0, n as int) =~= s@);
}

/// Serializes a cache as its text form.
pub fn serialize_cache(cache: &BundleCache) -> (r: String)
    ensures
        r@ == ser_cache(cache@),
{
    let ghost es = cache@;
    let entries = cache.to_entries();
    let mut out = String::new();
    push_char(&mut out, '{');
    if entries.len() == 0 {
        push_char(&mut out, '}');
        assert(out@ =~= ser_cache(es));
        return out;
    }
    push_char(&mut out, '\n');
    assert(es.subrange(0, es.len() as int) =~= es);
    let mut i: usize = 0;
    while i < entries.len()
        invariant
            entry_views(entries@) == es,
            entries@.len() == es.len(),
            es.len() >= 1,
            i <= entries.len(),
            i < es.len() ==> out@ + ser_entries(es.subrange(i as int, es.len() as int))
                == ser_cache(es),
            i == es.len() ==> out@ == ser_cache(es),
        decreases entries.len() - i,
    {
        let ghost out0 = out@;
        let ghost sub = es.subrange(i as int, es.len() as int);
        push_char(&mut out, ' ');
        push_char(&mut out, ' ');
        push_char(&mut out, '"');
        append_escaped(&mut out, entries[i].0.as_str());
        push_char(&mut out, '"');
        push_char(&mut out, ':');
        push_char(&mut out, ' ');
        push_char(&mut out, '"');
        append_escaped(&mut out, entries[i].1.as_str());
        push_char(&mut out, '"');
        proof {
            assert(sub[0] == es[i as int]);
            assert(es[i as int] == (entries@[i as int].0@, entries@[i as int].1@));
            assert(out@ =~= out0 + (seq![' ', ' '] + ser_entry(sub[0].0, sub[0].1)));
        }
        if i + 1 == entries.len() {
            push_char(&mut out, '\n');
            push_char(&mut out, '}');
            proof {
                assert(sub.len() == 1);
                assert(ser_entries(sub) == seq![' ', ' '] + ser_entry(sub[0].0, sub[0].1) + seq![
                    '\n',
                    '}',
                ]);
                assert(out@ =~= out0 + ser_entries(sub));
                assert(out@ =~= ser_cache(es));
            }
        } else {
            push_char(&mut out, ',');
            push_char(&mut out, '\n');
            proof {
                assert(sub.len() >= 2);
                assert(sub.drop_first() =~= es.subrange(i + 1 as int, es.len() as int));
                assert(ser_entries(sub) == seq![' ', ' '] + ser_entry(sub[0].0, sub[0].1) + seq![
                    ',',
                    '\n',
                ] + ser_entries(sub.drop_first()));
                assert(out@ + ser_entries(sub.drop_first()) =~= out0 + ser_entries(sub));
            }
        }
        i += 1;
    }
    out
}

// --- executable parser ---

/// The first position at or after `i` that holds no whitespace.
fn skip_ws_exec(s: &str, i: usize) -> (j: usize)
    requires
        i <= s@.len(),
    ensures
        j == skip_ws(s@, i as int),
        i <= j <= s@.len(),
{
    let n = s.unicode_len();
    let mut pos = i;
    while pos < n
        invariant
            n == s@.len(),
            i as int <= pos as int <= n,
            skip_ws(s@, i as int) == skip_ws(s@, pos as int),
        decreases n - pos,
    {
        let c = s.get_char(pos);
        if !(c == ' ' || c == '\n' || c == '\r' || c == '\t') {
            proof {
                assert(!is_ws_char(s@[pos as int]));
                assert(skip_ws(s@, pos as int) == pos as int);
            }
            return pos;
        }
        proof {
            assert(is_ws_char(s@[pos as int]));
            assert(skip_ws(s@, pos as int) == skip_ws(s@, pos as int + 1));
        }
        pos += 1;
    }
    proof {
        assert(skip_ws(s@, pos as int) == pos as int);
    }
    pos
}

/// Parses the inside of a quoted string, from just past the opening quote.
fn parse_string_body_exec(s: &str, start: usize) -> (r: Option<(String, usize)>)
    requires
        start <= s@.len(),
    ensures
        match r {
            Some(p) => parse_string_body(s@, start as int) == Some((p.0@, p.1 as int)) && start
                < p.1 <= s@.len(),
            None => parse_string_body(s@, start as int) is None,
        },
{
    let n = s.unicode_len();
    let mut i = start;
    let mut acc = String::new();
    while i < n
        invariant
            n == s@.len(),
            start <= i <= n,
            parse_string_body(s@, start as int) == (match parse_string_body(s@, i as int) {
                Some(p) => Some((acc@ + p.0, p.1)),
                None => None::<(Seq<char>, int)>,
            }),
        decreases n - i,
    {
        let c = s.get_char(i);
        if c == '"' {
            proof {
                assert(acc@ + Seq::<char>::empty() =~= acc@);
                lemma_parse_string_body_advances(s@, start as int);
            }
            return Some((acc, i + 1));
        } else if c == '\\' {
            if i + 1 >= n {
                return None;
            }
            let e = s.get_char(i + 1);
            let d: char;
            if e == '"' {
                d = '"';
            } else if e == '\\' {
                d = '\\';
            } else if e == '/' {
                d = '/';
            } else if e == 'n' {
                d = '\n';
            } else if e == 'r' {
                d = '\r';
            } else if e == 't' {
                d = '\t';
            } else if e == 'b' {
                d = '\u{8}';
            } else if e == 'f' {
                d = '\u{c}';
            } else {
                assert(unescape_code(s@[i as int + 1]) is None);
                return None;
            }
            let ghost acc0 = acc@;
            push_char(&mut acc, d);
            proof {
                assert(unescape_code(s@[i as int + 1]) == Some(d));
                if parse_string_body(s@, i as int + 2) is Some {
                    let p2 = parse_string_body(s@, i as int + 2)->0;
                    assert((acc0 + seq![d]) + p2.0 =~= acc0 + (seq![d] + p2.0));
                }
            }
            i += 2;
        } else {
            let ghost acc0 = acc@;
            push_char(&mut acc, c);
            proof {
                if parse_string_body(s@, i as int + 1) is Some {
                    let p2 = parse_string_body(s@, i as int + 1)->0;
                    assert((acc0 + seq![c]) + p2.0 =~= acc0 + (seq![c] + p2.0));
                }
            }
            i += 1;
        }
    }
    None
}

/// Parses a quoted string: the opening quote, then its body.
fn parse_quoted_exec(s: &str, i: usize) -> (r: Option<(String, usize)>)
    requires
        i <= s@.len(),
    ensures
        match r {
            Some(p) => parse_quoted(s@, i as int) == Some((p.0@, p.1 as int)) && i < p.1
                <= s@.len(),
            None => parse_quoted(s@, i as int) is None,
        },
{
    let n = s.unicode_len();
    if i >= n {
        return None;
    }
    if s.get_char(i) != '"' {
        return None;
    }
    parse_string_body_exec(s, i + 1)
}

/// Parses one entry: quoted key, colon, quoted value.
fn parse_entry_exec(s: &str, i: usize) -> (r: Option<((String, String), usize)>)
    requires
        i <= s@.len(),
    ensures
        match r {
            Some(p) => parse_entry(s@, i as int) == Some((((p.0).0@, (p.0).1@), p.1 as int)) && i
                < p.1 <= s@.len(),
            None => parse_entry(s@, i as int) is None,
        },
{
    let n = s.unicode_len();
    let k = match parse_quoted_exec(s, i) {
        Some(k) => k,
        None => {
            return None;
        },
    };
    let j = skip_ws_exec(s, k.1);
    if j == n {
        return None;
    }
    if s.get_char(j) != ':' {
        return None;
    }
    let m = skip_ws_exec(s, j + 1);
    let v = match parse_quoted_exec(s, m) {
        Some(v) => v,
        None => {
            return None;
        },
    };
    Some(((k.0, v.0), v.1))
}

/// Parses a comma-separated entry list through the closing brace.
fn parse_entries_exec(s: &str, start: usize) -> (r: Option<(Vec<(String, String)>, usize)>)
    requires
        start <= s@.len(),
    ensures
        match r {
            Some(p) => parse_entries(s@, start as int) == Some((entry_views(p.0@), p.1 as int))
                && p.1 <= s@.len(),
            None => parse_entries(s@, start as int) is None,
        },
    decreases s@.len() - start,
{
    let n = s.unicode_len();
    let e = match parse_entry_exec(s, start) {
        Some(e) => e,
        None => {
            return None;
        },
    };
    let j = skip_ws_exec(s, e.1);
    if j == n {
        return None;
    }
    let c = s.get_char(j);
    if c == ',' {
        let m = skip_ws_exec(s, j + 1);
        proof {
            lemma_parse_entry_advances(s@, start as int);
        }
        match parse_entries_exec(s, m) {
            Some(rest) => {
                let (mut tail, endpos) = rest;
                let ghost tailv = tail@;
                let mut out: Vec<(String, String)> = Vec::new();
                out.push(e.0);
                out.append(&mut tail);
                proof {
                    assert(out@ =~= seq![(out@[0].0, out@[0].1)] + tailv) by {
                        assert(out@[0] =~= (out@[0].0, out@[0].1));
                    }
                    assert(entry_views(out@) =~= seq![(out@[0].0@, out@[0].1@)] + entry_views(
                        tailv,
                    ));
                }
                Some((out, endpos))
            },
            None => None,
        }
    } else if c == '}' {
        let mut out: Vec<(String, String)> = Vec::new();
        out.push(e.0);
        proof {
            assert(entry_views(out@) =~= seq![(out@[0].0@, out@[0].1@)]);
        }
        Some((out, j + 1))
    } else {
        None
    }
}

/// Parses a whole cache file: the entries of an object of string-to-string
/// entries with nothing but whitespace around it, or nothing when the text is
/// not of that form.
pub fn parse_cache(text: &str) -> (r: Option<Vec<(String, String)>>)
    ensures
        match r {
            Some(v) => parse_cache_text(text@) == Some(entry_views(v@)),
            None => parse_cache_text(text@) is None,
        },
{
    let n = text.unicode_len();
    let i = skip_ws_exec(text, 0);
    if i == n {
        return None;
    }
    if text.get_char(i) != '{' {
        return None;
    }
    let j = skip_ws_exec(text, i + 1);
    if j < n && text.get_char(j) == '}' {
        let k = skip_ws_exec(text, j + 1);
        if k == n {
            let out: Vec<(String, String)> = Vec::new();
            assert(entry_views(out@) =~= Seq::<(Seq<char>, Seq<char>)>::empty());
            return Some(out);
        } else {
            return None;
        }
    }
    match parse_entries_exec(text, j) {
        Some(p) => {
            let k = skip_ws_exec(text, p.1);
            if k == n {
                Some(p.0)
            } else {
                None
            }
        },
        None => None,
    }
}

} // verus!
