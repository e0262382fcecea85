//! The probe's small JSON writer and its flat key lookup.

use vstd::prelude::*;

use crate::text::{
    find_from, find_index, hex_digit, is_whitespace, is_whitespace_char, leading_ws,
    lemma_find_index_first, lemma_leading_ws_bound, occurs_at, trim_range, trim_str,
    push_char, skip_ws, string_from_chars, to_chars, trim,
    trim_start, HEX_DIGITS,
};

verus! {

/// How one character is written inside a JSON string literal.
pub open spec fn escape_char(c: char) -> Seq<char> {
    if c == '"' {
        seq!['\\', '"']
    } else if c == '\\' {
        seq!['\\', '\\']
    } else if c == '\n' {
        seq!['\\', 'n']
    } else if c == '\r' {
        seq!['\\', 'r']
    } else if c == '\t' {
        seq!['\\', 't']
    } else if (c as u32) < 0x20 {
        seq!['\\', 'u', '0', '0', hex_digit((c as u32) >> 4u32), hex_digit((c as u32) & 0xfu32)]
    } else {
        seq![c]
    }
}

/// The escaped body of a JSON string literal.
pub open spec fn escape_all(s: Seq<char>) -> Seq<char>
    decreases s.len(),
{
    if s.len() == 0 {
        Seq::empty()
    } else {
        escape_all(s.drop_last()) + escape_char(s.last())
    }
}

/// `s` as a quoted JSON string literal.
pub open spec fn json_quote(s: Seq<char>) -> Seq<char> {
    seq!['"'] + escape_all(s) + seq!['"']
}

fn push_escaped(out: &mut String, c: char)
    ensures
        final(out)@ == old(out)@ + escape_char(c),
{
    let ghost start = out@;
    if c == '"' {
        push_char(out, '\\');
        push_char(out, '"');
    } else if c == '\\' {
        push_char(out, '\\');
        push_char(out, '\\');
    } else if c == '\n' {
        push_char(out, '\\');
        push_char(out, 'n');
    } else if c == '\r' {
        push_char(out, '\\');
        push_char(out, 'r');
    } else if c == '\t' {
        push_char(out, '\\');
        push_char(out, 't');
    } else if (c as u32) < 0x20 {
        let u = c as u32;
        assert((u >> 4u32) < 16 && (u & 0xfu32) < 16) by (bit_vector)
            requires
                u < 0x20,
        ;
        push_char(out, '\\');
        push_char(out, 'u');
        push_char(out, '0');
        push_char(out, '0');
        push_char(out, HEX_DIGITS[(u >> 4u32) as usize]);
        push_char(out, HEX_DIGITS[(u & 0xfu32) as usize]);
    } else {
        push_char(out, c);
    }
    assert(out@ =~= start + escape_char(c));
}

/// `s` as a quoted JSON string literal: quotes, backslashes and control characters
/// are escaped, everything else is copied.
pub fn jstr(s: &str) -> (out: String)
    ensures
        out@ == json_quote(s@),
{
    let cs = to_chars(s);
    let mut out = String::new();
    push_char(&mut out, '"');
    let mut i: usize = 0;
    while i < cs.len()
        invariant
            0 <= i <= cs@.len(),
            out@ == seq!['"'] + escape_all(cs@.subrange(0, i as int)),
        decreases cs@.len() - i,
    {
        push_escaped(&mut out, cs[i]);
        assert(cs@.subrange(0, i + 1).drop_last() =~= cs@.subrange(0, i as int));
        assert(out@ =~= seq!['"'] + escape_all(cs@.subrange(0, i + 1)));
        i += 1;
    }
    push_char(&mut out, '"');
    assert(cs@.subrange(0, cs@.len() as int) =~= cs@);
    out
}

/// A JSON array holding one string, `s`.
pub fn single_string_array(s: &str) -> (out: String)
    ensures
        out@ == seq!['['] + json_quote(s@) + seq![']'],
{
    let q = jstr(s);
    let qv = to_chars(q.as_str());
    let mut out = String::new();
    push_char(&mut out, '[');
    let mut i: usize = 0;
    while i < qv.len()
        invariant
            0 <= i <= qv@.len(),
            out@ == seq!['['] + qv@.subrange(0, i as int),
        decreases qv@.len() - i,
    {
        push_char(&mut out, qv[i]);
        assert(out@ =~= seq!['['] + qv@.subrange(0, i + 1));
        i += 1;
    }
    push_char(&mut out, ']');
    assert(qv@.subrange(0, qv@.len() as int) =~= qv@);
    out
}

/// The rest of `after` once a `:` and the whitespace around it are skipped, if it starts
/// that way.
pub open spec fn after_colon(after: Seq<char>) -> Option<Seq<char>> {
    let a1 = trim_start(after);
    if a1.len() > 0 && a1[0] == ':' {
        Some(trim_start(a1.drop_first()))
    } else {
        None
    }
}

/// What follows `"key"` and a colon at the first occurrence of `"key"` in `json`.
pub open spec fn value_text(json: Seq<char>, key: Seq<char>) -> Option<Seq<char>> {
    let pat = seq!['"'] + key + seq!['"'];
    match find_index(json, pat) {
        Some(p) => after_colon(json.subrange(p + pat.len(), json.len() as int)),
        None => None,
    }
}

/// The string value of `key` as the flat lookup reads it: at the first occurrence of
/// `"key"`, after a colon, the characters between the next two double quotes
/// (no unescaping).
pub open spec fn json_str_spec(json: Seq<char>, key: Seq<char>) -> Option<Seq<char>> {
    match value_text(json, key) {
        Some(a2) => if a2.len() > 0 && a2[0] == '"' {
            let a3 = a2.drop_first();
            match find_index(a3, seq!['"']) {
                Some(e) => Some(a3.subrange(0, e)),
                None => None,
            }
        } else {
            None
        },
        None => None,
    }
}

proof fn lemma_trim_start_subrange(s: Seq<char>, k: int)
    requires
        0 <= k <= s.len(),
    ensures
        trim_start(s.subrange(k, s.len() as int)) == s.subrange(
            k + leading_ws(s.subrange(k, s.len() as int)),
            s.len() as int,
        ),
{
    lemma_leading_ws_bound(s.subrange(k, s.len() as int));
    assert(trim_start(s.subrange(k, s.len() as int)) =~= s.subrange(
        k + leading_ws(s.subrange(k, s.len() as int)),
        s.len() as int,
    ));
}

/// `"key"` as characters.
fn quoted_pattern(key: &str) -> (pat: Vec<char>)
    ensures
        pat@ == seq!['"'] + key@ + seq!['"'],
{
    let kc = to_chars(key);
    let mut pat: Vec<char> = Vec::new();
    pat.push('"');
    let mut i: usize = 0;
    while i < kc.len()
        invariant
            0 <= i <= kc@.len(),
            pat@ == seq!['"'] + kc@.subrange(0, i as int),
        decreases kc@.len() - i,
    {
        pat.push(kc[i]);
        assert(pat@ =~= seq!['"'] + kc@.subrange(0, i + 1));
        i += 1;
    }
    pat.push('"');
    assert(pat@ =~= seq!['"'] + key@ + seq!['"']);
    pat
}

/// Where the text after a colon (and the whitespace around it) starts in `c[k..]`.
fn colon_then_ws(c: &Vec<char>, k: usize) -> (r: Option<usize>)
    requires
        k <= c@.len(),
    ensures
        match after_colon(c@.subrange(k as int, c@.len() as int)) {
            Some(t) => r is Some && r->0 <= c@.len() && t == c@.subrange(r->0 as int, c@.len() as int),
            None => r is None,
        },
{
    let a = skip_ws(c, k);
    proof {
        lemma_trim_start_subrange(c@, k as int);
    }
    if a >= c.len() || c[a] != ':' {
        return None;
    }
    let b = skip_ws(c, a + 1);
    proof {
        lemma_trim_start_subrange(c@, a + 1);
        assert(c@.subrange(a as int, c@.len() as int).drop_first() =~= c@.subrange(
            a + 1,
            c@.len() as int,
        ));
    }
    Some(b)
}

/// Locates the text after `"key":` in `c`; returns its start index.
fn value_start(c: &Vec<char>, key: &str) -> (r: Option<usize>)
    ensures
        match value_text(c@, key@) {
            Some(t) => r is Some && r->0 <= c@.len() && t == c@.subrange(r->0 as int, c@.len() as int),
            None => r is None,
        },
{
    let pat = quoted_pattern(key);
    assert(c@.subrange(0, c@.len() as int) =~= c@);
    match find_from(c, 0, &pat) {
        Some(p) => {
            if pat.len() > c.len() - p {
                return None;
            }
            colon_then_ws(c, p + pat.len())
        },
        None => None,
    }
}

/// The characters between a double quote at `c[b]` and the next one.
fn quoted_at(c: &Vec<char>, b: usize) -> (r: Option<String>)
    requires
        b <= c@.len(),
    ensures
        ({
            let a2 = c@.subrange(b as int, c@.len() as int);
            if a2.len() > 0 && a2[0] == '"' {
                match find_index(a2.drop_first(), seq!['"']) {
                    Some(e) => r is Some && r->0@ == a2.drop_first().subrange(0, e),
                    None => r is None,
                }
            } else {
                r is None
            }
        }),
{
    if b >= c.len() || c[b] != '"' {
        return None;
    }
    let start = b + 1;
    let q: Vec<char> = vec!['"'];
    proof {
        assert(c@.subrange(b as int, c@.len() as int).drop_first() =~= c@.subrange(
            start as int,
            c@.len() as int,
        ));
        assert(q@ =~= seq!['"']);
    }
    match find_from(&c, start, &q) {
        Some(e) => {
            let v = string_from_chars(&c, start, e);
            assert(v@ =~= c@.subrange(start as int, c@.len() as int).subrange(0, e - start));
            Some(v)
        },
        None => None,
    }
}

/// The string value stored under `key` in a flat JSON text, read as `json_str_spec` says.
pub fn json_str(json: &str, key: &str) -> (r: Option<String>)
    ensures
        match json_str_spec(json@, key@) {
            Some(v) => r is Some && r->0@ == v,
            None => r is None,
        },
{
    let c = to_chars(json);
    match value_start(&c, key) {
        Some(b) => quoted_at(&c, b),
        None => None,
    }
}

/// A character that ends a bare JSON value: `,`, `}`, `]` or whitespace.
pub open spec fn ends_value(c: char) -> bool {
    c == ',' || c == '}' || c == ']' || is_whitespace(c)
}

/// Index of the first character of `s` that ends a value, or `s.len()`.
pub open spec fn value_end(s: Seq<char>) -> nat
    decreases s.len(),
{
    if s.len() == 0 || ends_value(s[0]) {
        0
    } else {
        1 + value_end(s.drop_first())
    }
}

/// The text of the bare (numeric) value stored under `key`, up to the next `,`, `}`, `]`
/// or whitespace, trimmed; this is the text the probe parses as a number.
pub open spec fn json_num_text_spec(json: Seq<char>, key: Seq<char>) -> Option<Seq<char>> {
    match value_text(json, key) {
        Some(a2) => Some(trim(a2.subrange(0, value_end(a2) as int))),
        None => None,
    }
}

/// The text of the numeric value stored under `key` in a flat JSON text.
pub fn json_num_text(json: &str, key: &str) -> (r: Option<String>)
    ensures
        match json_num_text_spec(json@, key@) {
            Some(v) => r is Some && r->0@ == v,
            None => r is None,
        },
{
    let c = to_chars(json);
    let b = match value_start(&c, key) {
        Some(b) => b,
        None => {
            return None;
        },
    };
    let ghost a2 = c@.subrange(b as int, c@.len() as int);
    let mut e = b;
    while e < c.len() && !(c[e] == ',' || c[e] == '}' || c[e] == ']' || is_whitespace_char(c[e]))
        invariant
            b <= e <= c@.len(),
            a2 == c@.subrange(b as int, c@.len() as int),
            value_end(a2) == (e - b) + value_end(c@.subrange(e as int, c@.len() as int)),
        decreases c@.len() - e,
    {
        assert(c@.subrange(e as int, c@.len() as int).drop_first() =~= c@.subrange(
            e + 1,
            c@.len() as int,
        ));
        e += 1;
    }
    let (x, y) = trim_range(&c, b, e);
    assert(a2.subrange(0, value_end(a2) as int) =~= c@.subrange(b as int, e as int));
    Some(string_from_chars(&c, x, y))
}

/// Scanner state after the first `n` characters: brace depth, start of the open
/// top-level object, and the `(start, end)` of each top-level object closed so far.
pub open spec fn scan_objects(s: Seq<char>, n: nat) -> (int, Option<int>, Seq<(int, int)>)
    decreases n,
{
    if n == 0 {
        (0, None, Seq::empty())
    } else {
        let prev = scan_objects(s, (n - 1) as nat);
        let i = n - 1;
        if s[i] == '{' {
            (prev.0 + 1, if prev.0 == 0 {
                Some(i)
            } else {
                prev.1
            }, prev.2)
        } else if s[i] == '}' {
            if prev.0 - 1 == 0 {
                (
                    0,
                    None,
                    match prev.1 {
                        Some(a) => prev.2.push((a, i)),
                        None => prev.2,
                    },
                )
            } else {
                (prev.0 - 1, prev.1, prev.2)
            }
        } else {
            prev
        }
    }
}

/// The top-level `{...}` objects of `s`, in order, as the brace scan finds them.
pub open spec fn top_level_objects_spec(s: Seq<char>) -> Seq<Seq<char>> {
    scan_objects(s, s.len()).2.map_values(|p: (int, int)| s.subrange(p.0, p.1 + 1))
}

proof fn lemma_scan_bounds(s: Seq<char>, n: nat)
    requires
        n <= s.len(),
    ensures
        ({
            let st = scan_objects(s, n);
            &&& (st.1 matches Some(a) ==> 0 <= a < n && s[a] == '{')
            &&& forall|k: int|
                0 <= k < st.2.len() ==> 0 <= (#[trigger] st.2[k]).0 < st.2[k].1 < n && s[st.2[k].0]
                    == '{' && s[st.2[k].1] == '}'
        }),
    decreases n,
{
    if n > 0 {
        lemma_scan_bounds(s, (n - 1) as nat);
    }
}

/// Every object the scan returns runs from a `{` to a `}`.
pub proof fn lemma_objects_braced(s: Seq<char>)
    ensures
        forall|k: int|
            0 <= k < top_level_objects_spec(s).len() ==> {
                let o = #[trigger] top_level_objects_spec(s)[k];
                &&& o.len() >= 2
                &&& o[0] == '{'
                &&& o.last() == '}'
            },
{
    lemma_scan_bounds(s, s.len());
    let spans = scan_objects(s, s.len()).2;
    assert forall|k: int| 0 <= k < top_level_objects_spec(s).len() implies {
        let o = #[trigger] top_level_objects_spec(s)[k];
        &&& o.len() >= 2
        &&& o[0] == '{'
        &&& o.last() == '}'
    } by {
        let p = spans[k];
        assert(top_level_objects_spec(s)[k] == s.subrange(p.0, p.1 + 1));
    }
}

/// The top-level JSON objects of `json`, each from its `{` to the matching `}`: the
/// per-run records of the engine's JSON output.
pub fn top_level_objects(json: &str) -> (objs: Vec<String>)
    ensures
        objs@.map_values(|o: String| o@) == top_level_objects_spec(json@),
{
    let c = to_chars(json);
    let n = c.len();
    let mut opens: usize = 0;
    let mut closes: usize = 0;
    let mut start: Option<usize> = None;
    let mut objs: Vec<String> = Vec::new();
    let ghost spans: Seq<(int, int)> = Seq::empty();
    let mut i: usize = 0;
    while i < n
        invariant
            0 <= i <= n,
            n == c@.len(),
            c@ == json@,
            opens <= i,
            closes <= i,
            ({
                let st = scan_objects(c@, i as nat);
                &&& st.0 == opens - closes
                &&& st.1 == (match start {
                    Some(a) => Some(a as int),
                    None => None,
                })
                &&& st.2 == spans
            }),
            objs@.map_values(|o: String| o@) == spans.map_values(
                |p: (int, int)| c@.subrange(p.0, p.1 + 1),
            ),
        decreases n - i,
    {
        proof {
            lemma_scan_bounds(c@, i as nat);
        }
        if c[i] == '{' {
            if opens == closes {
                start = Some(i);
            }
            opens += 1;
        } else if c[i] == '}' {
            closes += 1;
            if opens == closes {
                match start {
                    Some(a) => {
                        let o = string_from_chars(&c, a, i + 1);
                        let ghost before = objs@.map_values(|o: String| o@);
                        objs.push(o);
                        proof {
                            spans = spans.push((a as int, i as int));
                        }
                        assert(objs@.map_values(|o: String| o@) =~= before.push(o@));
                        assert(spans.map_values(|p: (int, int)| c@.subrange(p.0, p.1 + 1))
                            =~= before.push(o@));
                    },
                    None => {},
                }
                start = None;
            }
        }
        i += 1;
    }
    objs
}

/// The value of `key`, trimmed, when it is a string with something in it.
pub open spec fn nonblank_value(json: Seq<char>, key: Seq<char>) -> Option<Seq<char>> {
    match json_str_spec(json, key) {
        Some(v) => if trim(v).len() > 0 {
            Some(trim(v))
        } else {
            None
        },
        None => None,
    }
}

/// A one-line GPU description out of the raw GPU inventory JSON: the first non-blank of
/// `Name`, `VideoProcessor` and `description`.
pub open spec fn gpu_description_spec(gpu_json: Seq<char>) -> Option<Seq<char>> {
    match nonblank_value(gpu_json, "Name"@) {
        Some(v) => Some(v),
        None => match nonblank_value(gpu_json, "VideoProcessor"@) {
            Some(v) => Some(v),
            None => nonblank_value(gpu_json, "description"@),
        },
    }
}

fn nonblank_value_of(json: &str, key: &str) -> (r: Option<String>)
    ensures
        match nonblank_value(json@, key@) {
            Some(v) => r is Some && r->0@ == v,
            None => r is None,
        },
{
    match json_str(json, key) {
        Some(v) => {
            let t = trim_str(v.as_str());
            let tv = to_chars(t.as_str());
            if tv.len() > 0 {
                Some(t)
            } else {
                None
            }
        },
        None => None,
    }
}

/// A one-line GPU description from the raw GPU inventory JSON.
pub fn gpu_description(gpu_json: &str) -> (r: Option<String>)
    ensures
        match gpu_description_spec(gpu_json@) {
            Some(v) => r is Some && r->0@ == v,
            None => r is None,
        },
{
    match nonblank_value_of(gpu_json, "Name") {
        Some(v) => Some(v),
        None => match nonblank_value_of(gpu_json, "VideoProcessor") {
            Some(v) => Some(v),
            None => nonblank_value_of(gpu_json, "description"),
        },
    }
}

/// A character that a JSON string literal holds as itself.
pub open spec fn is_plain(c: char) -> bool {
    c != '"' && c != '\\' && (c as u32) >= 0x20
}

proof fn lemma_escape_plain(s: Seq<char>)
    requires
        forall|i: int| 0 <= i < s.len() ==> is_plain(#[trigger] s[i]),
    ensures
        escape_all(s) == s,
    decreases s.len(),
{
    if s.len() > 0 {
        lemma_escape_plain(s.drop_last());
        assert(is_plain(s[s.len() - 1]));
        assert(escape_all(s) =~= s);
    }
}

proof fn lemma_escape_char_printable(c: char)
    ensures
        forall|i: int| 0 <= i < escape_char(c).len() ==> (#[trigger] escape_char(c)[i] as u32) >= 0x20,
{
    if (c as u32) < 0x20 && c != '\n' && c != '\r' && c != '\t' {
        let u = c as u32;
        assert((u >> 4u32) < 16 && (u & 0xfu32) < 16) by (bit_vector)
            requires
                u < 0x20,
        ;
        assert(HEX_DIGITS@[(u >> 4u32) as int] as u32 >= 0x20);
        assert(HEX_DIGITS@[(u & 0xfu32) as int] as u32 >= 0x20);
    }
}

/// A JSON string literal written by `jstr` is quoted at both ends and holds no raw
/// control character: every character below U+0020 comes out as an escape.
pub proof fn lemma_json_quote_printable(s: Seq<char>)
    ensures
        json_quote(s).len() >= 2,
        json_quote(s)[0] == '"',
        json_quote(s).last() == '"',
        forall|i: int| 0 <= i < json_quote(s).len() ==> (#[trigger] json_quote(s)[i] as u32) >= 0x20,
    decreases s.len(),
{
    lemma_escape_all_printable(s);
    let q = json_quote(s);
    assert forall|i: int| 0 <= i < q.len() implies (#[trigger] q[i] as u32) >= 0x20 by {
        if 0 < i < q.len() - 1 {
            assert(q[i] == escape_all(s)[i - 1]);
        }
    }
}

proof fn lemma_escape_all_printable(s: Seq<char>)
    ensures
        forall|i: int| 0 <= i < escape_all(s).len() ==> (#[trigger] escape_all(s)[i] as u32) >= 0x20,
    decreases s.len(),
{
    if s.len() > 0 {
        lemma_escape_all_printable(s.drop_last());
        lemma_escape_char_printable(s.last());
        let a = escape_all(s.drop_last());
        let b = escape_char(s.last());
        assert forall|i: int| 0 <= i < escape_all(s).len() implies (#[trigger] escape_all(s)[i] as u32)
            >= 0x20 by {
            if i < a.len() {
                assert(escape_all(s)[i] == a[i]);
            } else {
                assert(escape_all(s)[i] == b[i - a.len()]);
            }
        }
    }
}

/// The flat lookup reads back what the writer wrote: in `{"key":"value"}` written with
/// `jstr`, looking up `key` gives `value`, for keys and values made of characters that
/// need no escaping.
pub proof fn lemma_json_str_reads_jstr(key: Seq<char>, v: Seq<char>)
    requires
        forall|i: int| 0 <= i < key.len() ==> is_plain(#[trigger] key[i]),
        forall|i: int| 0 <= i < v.len() ==> is_plain(#[trigger] v[i]),
    ensures
        json_str_spec(seq!['{'] + json_quote(key) + seq![':'] + json_quote(v) + seq!['}'], key)
            == Some(v),
{
    lemma_escape_plain(key);
    lemma_escape_plain(v);
    let doc = seq!['{'] + json_quote(key) + seq![':'] + json_quote(v) + seq!['}'];
    let pat = seq!['"'] + key + seq!['"'];
    assert(doc =~= seq!['{'] + pat + seq![':', '"'] + v + seq!['"', '}']);
    assert(doc.subrange(1, 1 + pat.len() as int) =~= pat);
    assert(!occurs_at(doc, pat, 0)) by {
        assert(doc.subrange(0, pat.len() as int)[0] != pat[0]);
    }
    lemma_find_index_first(doc, pat, 1);
    let rest = doc.subrange(1 + pat.len() as int, doc.len() as int);
    assert(rest =~= seq![':', '"'] + v + seq!['"', '}']);
    assert(!is_whitespace(rest[0]));
    assert(leading_ws(rest) == 0);
    let a1 = trim_start(rest);
    assert(a1 =~= rest);
    let d = a1.drop_first();
    assert(d =~= seq!['"'] + v + seq!['"', '}']);
    assert(!is_whitespace(d[0]));
    assert(leading_ws(d) == 0);
    assert(trim_start(d) =~= d);
    let a3 = d.drop_first();
    assert(a3 =~= v + seq!['"', '}']);
    let q = seq!['"'];
    assert(a3.subrange(v.len() as int, v.len() + 1 as int) =~= q);
    assert forall|j: int| 0 <= j < v.len() implies !occurs_at(a3, q, j) by {
        assert(a3.subrange(j, j + 1)[0] == v[j]);
        assert(is_plain(v[j]));
    }
    lemma_find_index_first(a3, q, v.len() as int);
    assert(a3.subrange(0, v.len() as int) =~= v);
}

/// The value of a hexadecimal digit, either case.
pub open spec fn hex_value(c: char) -> Option<int> {
    if '0' <= c && c <= '9' {
        Some(c as int - 48)
    } else if 'a' <= c && c <= 'f' {
        Some(c as int - 87)
    } else if 'A' <= c && c <= 'F' {
        Some(c as int - 55)
    } else {
        None
    }
}

/// The value of the four hexadecimal digits `t[i..i + 4]`.
pub open spec fn hex4_value(t: Seq<char>, i: int) -> Option<int> {
    if 0 <= i && i + 4 <= t.len() && hex_value(t[i]) is Some && hex_value(t[i + 1]) is Some
        && hex_value(t[i + 2]) is Some && hex_value(t[i + 3]) is Some {
        Some(
            4096 * hex_value(t[i])->0 + 256 * hex_value(t[i + 1])->0 + 16 * hex_value(t[i + 2])->0
                + hex_value(t[i + 3])->0,
        )
    } else {
        None
    }
}

/// The character that a one-letter escape `\e` stands for.
pub open spec fn short_escape(e: char) -> Option<char> {
    if e == '"' {
        Some('"')
    } else if e == '\\' {
        Some('\\')
    } else if e == '/' {
        Some('/')
    } else if e == 'b' {
        Some('\u{8}')
    } else if e == 'f' {
        Some('\u{c}')
    } else if e == 'n' {
        Some('\n')
    } else if e == 'r' {
        Some('\r')
    } else if e == 't' {
        Some('\t')
    } else {
        None
    }
}

/// `c` in front of the decoded rest, if the rest decodes.
pub open spec fn prepend(c: char, rest: Option<Seq<char>>) -> Option<Seq<char>> {
    match rest {
        Some(r) => Some(seq![c] + r),
        None => None,
    }
}

/// The characters that the body of a JSON string literal stands for (RFC 8259): escapes
/// decoded, `\uXXXX` pairs of surrogates combined; `None` when the body is not valid (a
/// raw `"` or control character, a bad escape, a lone surrogate).
pub open spec fn json_unescape(t: Seq<char>) -> Option<Seq<char>>
    decreases t.len(),
{
    if t.len() == 0 {
        Some(Seq::empty())
    } else if t[0] == '\\' {
        if t.len() < 2 {
            None
        } else if t[1] == 'u' {
            match hex4_value(t, 2) {
                Some(v) => if 0xd800 <= v < 0xdc00 {
                    if t.len() >= 12 && t[6] == '\\' && t[7] == 'u' && hex4_value(t, 8) is Some
                        && 0xdc00 <= hex4_value(t, 8)->0 < 0xe000 {
                        prepend(
                            (0x10000 + (v - 0xd800) * 0x400 + (hex4_value(t, 8)->0 - 0xdc00)) as char,
                            json_unescape(t.subrange(12, t.len() as int)),
                        )
                    } else {
                        None
                    }
                } else if 0xdc00 <= v < 0xe000 {
                    None
                } else {
                    prepend(v as char, json_unescape(t.subrange(6, t.len() as int)))
                },
                None => None,
            }
        } else {
            match short_escape(t[1]) {
                Some(c) => prepend(c, json_unescape(t.subrange(2, t.len() as int))),
                None => None,
            }
        }
    } else if t[0] == '"' || (t[0] as u32) < 0x20 {
        None
    } else {
        prepend(t[0], json_unescape(t.drop_first()))
    }
}

/// The string that a JSON string literal stands for, if `lit` is one.
pub open spec fn json_string_value(lit: Seq<char>) -> Option<Seq<char>> {
    if lit.len() >= 2 && lit[0] == '"' && lit.last() == '"' {
        json_unescape(lit.subrange(1, lit.len() - 1))
    } else {
        None
    }
}

proof fn lemma_escape_all_front(c: char, s: Seq<char>)
    ensures
        escape_all(seq![c] + s) == escape_char(c) + escape_all(s),
    decreases s.len(),
{
    if s.len() == 0 {
        assert(seq![c] + s =~= seq![c]);
        assert(seq![c].drop_last() =~= Seq::<char>::empty());
        assert(escape_all(Seq::<char>::empty()) == Seq::<char>::empty());
        assert(escape_all(seq![c]) == escape_all(seq![c].drop_last()) + escape_char(c));
        assert(escape_all(seq![c]) =~= escape_char(c));
        assert(escape_char(c) + escape_all(s) =~= escape_char(c));
    } else {
        lemma_escape_all_front(c, s.drop_last());
        assert((seq![c] + s).drop_last() =~= seq![c] + s.drop_last());
        assert((seq![c] + s).last() == s.last());
        assert(escape_char(c) + escape_all(s) =~= (escape_char(c) + escape_all(s.drop_last()))
            + escape_char(s.last()));
    }
}

proof fn lemma_hex_digit_value(n: u32)
    requires
        n < 16,
    ensures
        hex_value(hex_digit(n)) == Some(n as int),
{
    assert(HEX_DIGITS@[n as int] == hex_digit(n));
    if n < 10 {
        assert(HEX_DIGITS@[n as int] as int == n + 48);
    } else {
        assert(HEX_DIGITS@[n as int] as int == n + 87);
    }
}

proof fn lemma_unescape_char(c: char, rest: Seq<char>)
    ensures
        json_unescape(escape_char(c) + rest) == prepend(c, json_unescape(rest)),
{
    let t = escape_char(c) + rest;
    if c == '"' || c == '\\' || c == '\n' || c == '\r' || c == '\t' {
        assert(t.subrange(2, t.len() as int) =~= rest);
    } else if (c as u32) < 0x20 {
        let u = c as u32;
        let hi = u >> 4u32;
        let lo = u & 0xfu32;
        assert(hi == u / 16 && lo == u % 16) by (bit_vector)
            requires
                hi == u >> 4u32,
                lo == u & 0xfu32,
        ;
        assert(hi < 2 && lo < 16 && 16 * hi + lo == u);
        lemma_hex_digit_value(hi);
        lemma_hex_digit_value(lo);
        assert(t[2] == '0' && t[3] == '0' && t[4] == hex_digit(hi) && t[5] == hex_digit(lo));
        assert(hex4_value(t, 2) == Some(u as int));
        assert(t.subrange(6, t.len() as int) =~= rest);
        assert((u as int) as char == c);
    } else {
        assert(t[0] == c);
        assert(t.drop_first() =~= rest);
    }
}

proof fn lemma_unescape_escape_all(s: Seq<char>)
    ensures
        json_unescape(escape_all(s)) == Some(s),
    decreases s.len(),
{
    if s.len() == 0 {
        assert(escape_all(s) =~= Seq::<char>::empty());
    } else {
        let c = s[0];
        let rest = s.drop_first();
        assert(s =~= seq![c] + rest);
        lemma_escape_all_front(c, rest);
        lemma_unescape_char(c, escape_all(rest));
        lemma_unescape_escape_all(rest);
        assert(seq![c] + rest =~= s);
    }
}

/// `jstr` writes a JSON string literal (RFC 8259) whose value is its input, so different
/// strings are written differently.
pub proof fn lemma_jstr_decodes(s: Seq<char>, other: Seq<char>)
    ensures
        json_string_value(json_quote(s)) == Some(s),
        json_quote(s) == json_quote(other) ==> s == other,
{
    let q = json_quote(s);
    assert(q.subrange(1, q.len() - 1) =~= escape_all(s));
    lemma_unescape_escape_all(s);
    let q2 = json_quote(other);
    assert(q2.subrange(1, q2.len() - 1) =~= escape_all(other));
    lemma_unescape_escape_all(other);
}

} // verus!
