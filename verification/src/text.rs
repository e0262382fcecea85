//! Character-level helpers on strings: whitespace, searching, case and hexadecimal digits.

use vstd::prelude::*;

verus! {

/// Lower-case hexadecimal digits.
pub const HEX_DIGITS: [char; 16] = [
    '0', '1', '2', '3', '4', '5', '6', '7', '8', '9', 'a', 'b', 'c', 'd', 'e', 'f',
];

/// The hexadecimal digit of a value below 16.
pub open spec fn hex_digit(n: u32) -> char {
    HEX_DIGITS@[n as int]
}

/// Appends one character to a `String` (std's `String::push`).
#[verifier::external_body]
pub(crate) fn push_char(s: &mut String, c: char)
    ensures
        final(s)@ == old(s)@.push(c),
{
    s.push(c);
}

/// The characters of a string slice, in order.
pub fn to_chars(s: &str) -> (v: Vec<char>)
    ensures
        v@ == s@,
{
    let mut v: Vec<char> = Vec::new();
    for c in it: s.chars()
        invariant
            v@ == it.seq().subrange(0, it.index() as int),
    {
        v.push(c);
    }
    v
}

/// A `String` holding `v[from..to]`.
pub fn string_from_chars(v: &Vec<char>, from: usize, to: usize) -> (s: String)
    requires
        from <= to <= v@.len(),
    ensures
        s@ == v@.subrange(from as int, to as int),
{
    let mut s = String::new();
    let mut i = from;
    while i < to
        invariant
            from <= i <= to,
            to <= v@.len(),
            s@ == v@.subrange(from as int, i as int),
        decreases to - i,
    {
        push_char(&mut s, v[i]);
        assert(s@ =~= v@.subrange(from as int, i + 1));
        i += 1;
    }
    s
}

/// Unicode `White_Space`, the property that std's `char::is_whitespace` tests.
pub open spec fn is_whitespace(c: char) -> bool {
    let u = c as u32;
    ||| 0x09 <= u <= 0x0d
    ||| u == 0x20
    ||| u == 0x85
    ||| u == 0xa0
    ||| u == 0x1680
    ||| 0x2000 <= u <= 0x200a
    ||| u == 0x2028
    ||| u == 0x2029
    ||| u == 0x202f
    ||| u == 0x205f
    ||| u == 0x3000
}

/// Whether `c` is Unicode whitespace.
pub fn is_whitespace_char(c: char) -> (b: bool)
    ensures
        b == is_whitespace(c),
{
    let u = c as u32;
    (0x09 <= u && u <= 0x0d) || u == 0x20 || u == 0x85 || u == 0xa0 || u == 0x1680 || (0x2000 <= u
        && u <= 0x200a) || u == 0x2028 || u == 0x2029 || u == 0x202f || u == 0x205f || u == 0x3000
}

/// Number of whitespace characters at the start of `s`.
pub open spec fn leading_ws(s: Seq<char>) -> nat
    decreases s.len(),
{
    if s.len() > 0 && is_whitespace(s[0]) {
        1 + leading_ws(s.drop_first())
    } else {
        0
    }
}

/// `s` without its leading whitespace (std's `str::trim_start`).
pub open spec fn trim_start(s: Seq<char>) -> Seq<char> {
    s.subrange(leading_ws(s) as int, s.len() as int)
}

/// Number of whitespace characters at the end of `s`.
pub open spec fn trailing_ws(s: Seq<char>) -> nat
    decreases s.len(),
{
    if s.len() > 0 && is_whitespace(s.last()) {
        1 + trailing_ws(s.drop_last())
    } else {
        0
    }
}

/// `s` without whitespace at either end (std's `str::trim`).
pub open spec fn trim(s: Seq<char>) -> Seq<char> {
    let t = trim_start(s);
    t.subrange(0, t.len() - trailing_ws(t))
}

/// The leading whitespace of `s` is a prefix of it, made of whitespace, and is followed by
/// a character that is not whitespace (or by nothing).
pub proof fn lemma_leading_ws_bound(s: Seq<char>)
    ensures
        leading_ws(s) <= s.len(),
        leading_ws(s) < s.len() ==> !is_whitespace(s[leading_ws(s) as int]),
        forall|j: int| 0 <= j < leading_ws(s) ==> is_whitespace(#[trigger] s[j]),
    decreases s.len(),
{
    if s.len() > 0 && is_whitespace(s[0]) {
        lemma_leading_ws_bound(s.drop_first());
        assert forall|j: int| 0 <= j < leading_ws(s) implies is_whitespace(#[trigger] s[j]) by {
            if j > 0 {
                assert(s[j] == s.drop_first()[j - 1]);
            }
        }
    }
}

/// A string of whitespace trims to nothing.
pub proof fn lemma_leading_ws_all(s: Seq<char>)
    requires
        forall|i: int| 0 <= i < s.len() ==> is_whitespace(#[trigger] s[i]),
    ensures
        leading_ws(s) == s.len(),
        trim(s).len() == 0,
    decreases s.len(),
{
    if s.len() > 0 {
        assert(is_whitespace(s[0]));
        assert forall|i: int| 0 <= i < s.drop_first().len() implies is_whitespace(
            #[trigger] s.drop_first()[i],
        ) by {
            assert(s.drop_first()[i] == s[i + 1]);
        }
        lemma_leading_ws_all(s.drop_first());
    }
    assert(trim_start(s).len() == 0);
    lemma_trailing_ws_bound(trim_start(s));
}

/// The trailing whitespace of `s` is a suffix of it, made of whitespace, and is preceded by
/// a character that is not whitespace (or by nothing).
pub proof fn lemma_trailing_ws_bound(s: Seq<char>)
    ensures
        trailing_ws(s) <= s.len(),
        trailing_ws(s) < s.len() ==> !is_whitespace(s[s.len() - trailing_ws(s) - 1]),
        forall|j: int| s.len() - trailing_ws(s) <= j < s.len() ==> is_whitespace(#[trigger] s[j]),
    decreases s.len(),
{
    if s.len() > 0 && is_whitespace(s.last()) {
        lemma_trailing_ws_bound(s.drop_last());
        assert forall|j: int| s.len() - trailing_ws(s) <= j < s.len() implies is_whitespace(
            #[trigger] s[j],
        ) by {
            if j < s.len() - 1 {
                assert(s[j] == s.drop_last()[j]);
            }
        }
    }
}

/// The index of the first non-whitespace character of `v` at or after `start`.
pub fn skip_ws(v: &Vec<char>, start: usize) -> (k: usize)
    requires
        start <= v@.len(),
    ensures
        start <= k <= v@.len(),
        k - start == leading_ws(v@.subrange(start as int, v@.len() as int)),
{
    let mut k = start;
    while k < v.len() && is_whitespace_char(v[k])
        invariant
            start <= k <= v@.len(),
            leading_ws(v@.subrange(start as int, v@.len() as int)) == (k - start) + leading_ws(
                v@.subrange(k as int, v@.len() as int),
            ),
        decreases v@.len() - k,
    {
        assert(v@.subrange(k as int, v@.len() as int).drop_first() =~= v@.subrange(
            k + 1,
            v@.len() as int,
        ));
        k += 1;
    }
    k
}

/// The index just past the last non-whitespace character of `v[start..end]`.
pub fn skip_ws_back(v: &Vec<char>, start: usize, end: usize) -> (k: usize)
    requires
        start <= end <= v@.len(),
    ensures
        start <= k <= end,
        end - k == trailing_ws(v@.subrange(start as int, end as int)),
{
    let mut k = end;
    while k > start && is_whitespace_char(v[k - 1])
        invariant
            start <= k <= end,
            end <= v@.len(),
            trailing_ws(v@.subrange(start as int, end as int)) == (end - k) + trailing_ws(
                v@.subrange(start as int, k as int),
            ),
        decreases k - start,
    {
        assert(v@.subrange(start as int, k as int).drop_last() =~= v@.subrange(
            start as int,
            k - 1,
        ));
        k -= 1;
    }
    k
}

/// Whether `pat` occurs in `hay` starting at index `i`.
pub open spec fn occurs_at(hay: Seq<char>, pat: Seq<char>, i: int) -> bool {
    0 <= i && i + pat.len() <= hay.len() && hay.subrange(i, i + pat.len()) == pat
}

/// The index of the first occurrence of `pat` in `hay` (std's `str::find`).
#[verifier::opaque]
pub open spec fn find_index(hay: Seq<char>, pat: Seq<char>) -> Option<int> {
    if exists|i: int| occurs_at(hay, pat, i) {
        Some(
            choose|i: int|
                occurs_at(hay, pat, i) && forall|j: int| 0 <= j < i ==> !occurs_at(hay, pat, j),
        )
    } else {
        None
    }
}

/// A match at `i` with no match before it is what `find_index` returns.
pub proof fn lemma_find_index_first(hay: Seq<char>, pat: Seq<char>, i: int)
    requires
        occurs_at(hay, pat, i),
        forall|j: int| 0 <= j < i ==> !occurs_at(hay, pat, j),
    ensures
        find_index(hay, pat) == Some(i),
{
    reveal(find_index);
    let c = choose|c: int|
        occurs_at(hay, pat, c) && forall|j: int| 0 <= j < c ==> !occurs_at(hay, pat, j);
    assert(occurs_at(hay, pat, c));
    if c < i {
        assert(!occurs_at(hay, pat, c));
    }
    if i < c {
        assert(!occurs_at(hay, pat, i));
    }
}

/// Whether `pat` occurs in `v` at index `i`.
fn matches_at(v: &Vec<char>, pat: &Vec<char>, i: usize) -> (b: bool)
    requires
        i <= v@.len(),
    ensures
        b == occurs_at(v@, pat@, i as int),
{
    let n = v.len();
    if pat.len() > n - i {
        return false;
    }
    let mut j: usize = 0;
    while j < pat.len()
        invariant
            0 <= j <= pat@.len(),
            n == v@.len(),
            i + pat@.len() <= v@.len(),
            forall|x: int| 0 <= x < j ==> v@[i + x] == pat@[x],
        decreases pat@.len() - j,
    {
        if v[i + j] != pat[j] {
            assert(v@.subrange(i as int, i + pat@.len())[j as int] != pat@[j as int]);
            return false;
        }
        j += 1;
    }
    assert(v@.subrange(i as int, i + pat@.len()) =~= pat@);
    true
}

/// The first index at or after `start` where `pat` occurs in `v`.
pub fn find_from(v: &Vec<char>, start: usize, pat: &Vec<char>) -> (r: Option<usize>)
    requires
        start <= v@.len(),
    ensures
        r is None <==> find_index(v@.subrange(start as int, v@.len() as int), pat@) is None,
        r matches Some(x) ==> start <= x && x + pat@.len() <= v@.len() && find_index(
            v@.subrange(start as int, v@.len() as int),
            pat@,
        ) == Some(x - start),
{
    let ghost hay = v@.subrange(start as int, v@.len() as int);
    let n = v.len();
    if pat.len() > n - start {
        assert forall|j: int| !occurs_at(hay, pat@, j) by {}
        proof {
            reveal(find_index);
        }
        return None;
    }
    let last = n - pat.len();
    let mut i = start;
    loop
        invariant
            start <= i <= last,
            last + pat@.len() == n,
            n == v@.len(),
            hay == v@.subrange(start as int, v@.len() as int),
            forall|j: int| 0 <= j < i - start ==> !occurs_at(hay, pat@, j),
        ensures
            i == last,
            forall|j: int| 0 <= j <= i - start ==> !occurs_at(hay, pat@, j),
        decreases last - i,
    {
        let m = matches_at(v, pat, i);
        proof {
            assert(hay.subrange(i - start, i - start + pat@.len()) =~= v@.subrange(
                i as int,
                i + pat@.len(),
            ));
        }
        if m {
            proof {
                lemma_find_index_first(hay, pat@, i - start);
            }
            return Some(i);
        }
        if i == last {
            break;
        }
        i += 1;
    }
    assert forall|j: int| !occurs_at(hay, pat@, j) by {
        if 0 <= j <= last - start {
            assert(!occurs_at(hay, pat@, j));
        }
    }
    proof {
        reveal(find_index);
    }
    None
}

/// Number of non-whitespace characters at the end of `s`.
pub open spec fn trailing_nonws(s: Seq<char>) -> nat
    decreases s.len(),
{
    if s.len() > 0 && !is_whitespace(s.last()) {
        1 + trailing_nonws(s.drop_last())
    } else {
        0
    }
}

/// The last whitespace-separated word of `s` (what `split_whitespace().last()` yields).
pub open spec fn last_token(s: Seq<char>) -> Option<Seq<char>> {
    let t = s.subrange(0, s.len() - trailing_ws(s));
    if t.len() == 0 {
        None
    } else {
        Some(t.subrange(t.len() - trailing_nonws(t), t.len() as int))
    }
}

/// The last whitespace-separated word of `v`, if there is one.
pub fn last_token_of(v: &Vec<char>) -> (r: Option<String>)
    ensures
        match last_token(v@) {
            Some(t) => r is Some && r->0@ == t,
            None => r is None,
        },
{
    let end = skip_ws_back(v, 0, v.len());
    proof {
        lemma_trailing_ws_bound(v@);
        assert(v@.subrange(0, v@.len() as int) =~= v@);
    }
    if end == 0 {
        return None;
    }
    let ghost t = v@.subrange(0, end as int);
    let mut k = end;
    while k > 0 && !is_whitespace_char(v[k - 1])
        invariant
            0 <= k <= end,
            end <= v@.len(),
            t == v@.subrange(0, end as int),
            trailing_nonws(t) == (end - k) + trailing_nonws(v@.subrange(0, k as int)),
        decreases k,
    {
        assert(v@.subrange(0, k as int).drop_last() =~= v@.subrange(0, k - 1));
        k -= 1;
    }
    let s = string_from_chars(v, k, end);
    assert(s@ =~= t.subrange(t.len() - trailing_nonws(t), t.len() as int));
    Some(s)
}

/// ASCII upper-case letters mapped to lower case, all else unchanged
/// (std's `char::to_ascii_lowercase`).
pub open spec fn ascii_lower_char(c: char) -> char {
    if 'A' <= c && c <= 'Z' {
        ((c as u32) + 32) as char
    } else {
        c
    }
}

/// `s` with ASCII letters in lower case (std's `str::to_ascii_lowercase`).
pub open spec fn ascii_lower(s: Seq<char>) -> Seq<char> {
    s.map_values(|c: char| ascii_lower_char(c))
}

/// The lower-case form of an ASCII letter, any other character unchanged.
pub fn ascii_lower_of(c: char) -> (r: char)
    ensures
        r == ascii_lower_char(c),
{
    if 'A' <= c && c <= 'Z' {
        let u = c as u8;
        ((u + 32) as char)
    } else {
        c
    }
}

/// A `String` with the characters of `s`, ASCII letters in lower case.
pub fn to_ascii_lowercase(s: &str) -> (r: String)
    ensures
        r@ == ascii_lower(s@),
{
    let v = to_chars(s);
    let mut r = String::new();
    let mut i: usize = 0;
    while i < v.len()
        invariant
            0 <= i <= v@.len(),
            v@ == s@,
            r@ == ascii_lower(v@.subrange(0, i as int)),
        decreases v@.len() - i,
    {
        push_char(&mut r, ascii_lower_of(v[i]));
        assert(r@ =~= ascii_lower(v@.subrange(0, i + 1)));
        i += 1;
    }
    assert(v@.subrange(0, v@.len() as int) =~= v@);
    r
}

/// Whether two character vectors are equal.
pub fn chars_eq(a: &Vec<char>, b: &Vec<char>) -> (r: bool)
    ensures
        r == (a@ == b@),
{
    if a.len() != b.len() {
        return false;
    }
    let mut i: usize = 0;
    while i < a.len()
        invariant
            0 <= i <= a@.len(),
            a@.len() == b@.len(),
            forall|j: int| 0 <= j < i ==> a@[j] == b@[j],
        decreases a@.len() - i,
    {
        if a[i] != b[i] {
            return false;
        }
        i += 1;
    }
    assert(a@ =~= b@);
    true
}

/// Whether the characters of `v` spell `s`.
pub fn chars_eq_str(v: &Vec<char>, s: &str) -> (r: bool)
    ensures
        r == (v@ == s@),
{
    let w = to_chars(s);
    chars_eq(v, &w)
}

/// Whether `needle` occurs anywhere in `hay`.
pub open spec fn contains_seq(hay: Seq<char>, needle: Seq<char>) -> bool {
    exists|i: int| occurs_at(hay, needle, i)
}

/// Whether `needle` occurs in `hay` (std's `str::contains` with a string pattern).
pub fn contains_str(hay: &Vec<char>, needle: &str) -> (r: bool)
    ensures
        r == contains_seq(hay@, needle@),
{
    let n = to_chars(needle);
    assert(hay@.subrange(0, hay@.len() as int) =~= hay@);
    let r = find_from(hay, 0, &n);
    proof {
        reveal(find_index);
    }
    r.is_some()
}

/// Index of the first `c` in `s`, or `s.len()` when there is none.
pub open spec fn first_index(s: Seq<char>, c: char) -> int
    decreases s.len(),
{
    if s.len() == 0 {
        0
    } else if s[0] == c {
        0
    } else {
        1 + first_index(s.drop_first(), c)
    }
}

/// The first index of `c` is `i` when `c` is at `i` and nowhere before.
pub proof fn lemma_first_index_at(s: Seq<char>, c: char, i: int)
    requires
        0 <= i <= s.len(),
        i < s.len() ==> s[i] == c,
        forall|j: int| 0 <= j < i ==> s[j] != c,
    ensures
        first_index(s, c) == i,
    decreases s.len(),
{
    if s.len() > 0 && i > 0 {
        assert(s[0] != c);
        assert forall|j: int| 0 <= j < i - 1 implies s.drop_first()[j] != c by {
            assert(s.drop_first()[j] == s[j + 1]);
        }
        lemma_first_index_at(s.drop_first(), c, i - 1);
    }
}

/// A line without the `\r` of a `\r\n` ending.
pub open spec fn strip_cr(l: Seq<char>) -> Seq<char> {
    if l.len() > 0 && l.last() == '\r' {
        l.drop_last()
    } else {
        l
    }
}

/// The lines of `s` as std's `str::lines` yields them: split at `\n`, a `\r` before the
/// `\n` removed, no empty line after a final `\n`.
pub open spec fn lines(s: Seq<char>) -> Seq<Seq<char>>
    decreases s.len(),
{
    if s.len() == 0 {
        Seq::empty()
    } else {
        let i = first_index(s, '\n');
        if 0 <= i < s.len() {
            seq![strip_cr(s.subrange(0, i))] + lines(s.subrange(i + 1, s.len() as int))
        } else {
            seq![s]
        }
    }
}

/// The lines of `s` (std's `str::lines`).
pub fn split_lines(s: &str) -> (out: Vec<String>)
    ensures
        out@.map_values(|l: String| l@) == lines(s@),
{
    let v = to_chars(s);
    let n = v.len();
    let mut out: Vec<String> = Vec::new();
    let mut start: usize = 0;
    let mut i: usize = 0;
    assert(v@.subrange(0, n as int) =~= s@);
    assert(out@.map_values(|l: String| l@) =~= Seq::<Seq<char>>::empty());
    while i < n
        invariant
            0 <= start <= i <= n,
            n == v@.len(),
            v@ == s@,
            forall|j: int| start <= j < i ==> v@[j] != '\n',
            lines(s@) == out@.map_values(|l: String| l@) + lines(v@.subrange(start as int, n as int)),
        decreases n - i,
    {
        if v[i] == '\n' {
            let mut end = i;
            if end > start && v[end - 1] == '\r' {
                end = end - 1;
            }
            let line = string_from_chars(&v, start, end);
            proof {
                let rest = v@.subrange(start as int, n as int);
                lemma_first_index_at(rest, '\n', i - start);
                assert(rest.subrange(0, i - start) =~= v@.subrange(start as int, i as int));
                assert(rest.subrange(i - start + 1, rest.len() as int) =~= v@.subrange(
                    i + 1,
                    n as int,
                ));
                assert(line@ =~= strip_cr(v@.subrange(start as int, i as int)));
            }
            let ghost before = out@.map_values(|l: String| l@);
            out.push(line);
            assert(out@.map_values(|l: String| l@) =~= before.push(line@));
            assert(before.push(line@) + lines(v@.subrange(i + 1, n as int)) =~= before + (seq![
                line@,
            ] + lines(v@.subrange(i + 1, n as int))));
            start = i + 1;
        }
        i += 1;
    }
    if start < n {
        let line = string_from_chars(&v, start, n);
        proof {
            let rest = v@.subrange(start as int, n as int);
            lemma_first_index_at(rest, '\n', rest.len() as int);
        }
        let ghost before = out@.map_values(|l: String| l@);
        out.push(line);
        assert(out@.map_values(|l: String| l@) =~= before.push(line@));
    } else {
        assert(v@.subrange(start as int, n as int).len() == 0);
        assert(out@.map_values(|l: String| l@) + lines(v@.subrange(start as int, n as int))
            =~= out@.map_values(|l: String| l@));
    }
    out
}

/// Whether `s` starts with `p`.
pub open spec fn starts_with(s: Seq<char>, p: Seq<char>) -> bool {
    p.len() <= s.len() && s.subrange(0, p.len() as int) == p
}

/// Whether the characters of `s` start with `p` (std's `str::starts_with`).
pub fn starts_with_str(s: &str, p: &str) -> (b: bool)
    ensures
        b == starts_with(s@, p@),
{
    let v = to_chars(s);
    let w = to_chars(p);
    if w.len() > v.len() {
        return false;
    }
    let mut i: usize = 0;
    while i < w.len()
        invariant
            0 <= i <= w@.len(),
            w@.len() <= v@.len(),
            v@ == s@,
            w@ == p@,
            forall|j: int| 0 <= j < i ==> v@[j] == w@[j],
        decreases w@.len() - i,
    {
        if v[i] != w[i] {
            assert(v@.subrange(0, w@.len() as int)[i as int] != w@[i as int]);
            assert(v@.subrange(0, w@.len() as int) != w@);
            return false;
        }
        i += 1;
    }
    assert(v@.subrange(0, w@.len() as int) =~= w@);
    true
}

/// Bounds of `v[a..b]` without whitespace at either end.
pub fn trim_range(v: &Vec<char>, a: usize, b: usize) -> (r: (usize, usize))
    requires
        a <= b <= v@.len(),
    ensures
        a <= r.0 <= r.1 <= b,
        v@.subrange(r.0 as int, r.1 as int) == trim(v@.subrange(a as int, b as int)),
{
    let ghost s = v@.subrange(a as int, b as int);
    let mut x = a;
    while x < b && is_whitespace_char(v[x])
        invariant
            a <= x <= b,
            b <= v@.len(),
            leading_ws(s) == (x - a) + leading_ws(v@.subrange(x as int, b as int)),
            s == v@.subrange(a as int, b as int),
        decreases b - x,
    {
        assert(v@.subrange(x as int, b as int).drop_first() =~= v@.subrange(x + 1, b as int));
        x += 1;
    }
    proof {
        lemma_leading_ws_bound(s);
        assert(trim_start(s) =~= v@.subrange(x as int, b as int));
    }
    let y = skip_ws_back(v, x, b);
    proof {
        lemma_trailing_ws_bound(trim_start(s));
        assert(v@.subrange(x as int, y as int) =~= trim(s));
    }
    (x, y)
}

/// `s` without whitespace at either end (std's `str::trim`).
pub fn trim_str(s: &str) -> (r: String)
    ensures
        r@ == trim(s@),
{
    let v = to_chars(s);
    let (x, y) = trim_range(&v, 0, v.len());
    assert(v@.subrange(0, v@.len() as int) =~= v@);
    string_from_chars(&v, x, y)
}

/// Whether `c` is an ASCII decimal digit.
pub open spec fn is_digit(c: char) -> bool {
    '0' <= c && c <= '9'
}

/// Number of characters before the first ASCII digit of `s`.
pub open spec fn leading_nondigits(s: Seq<char>) -> nat
    decreases s.len(),
{
    if s.len() > 0 && !is_digit(s[0]) {
        1 + leading_nondigits(s.drop_first())
    } else {
        0
    }
}

/// Number of leading characters of `s` that are digits or `.`.
pub open spec fn leading_number_chars(s: Seq<char>) -> nat
    decreases s.len(),
{
    if s.len() > 0 && (is_digit(s[0]) || s[0] == '.') {
        1 + leading_number_chars(s.drop_first())
    } else {
        0
    }
}

/// The first run of digits and dots in `s` that starts with a digit, or nothing.
pub open spec fn first_number(s: Seq<char>) -> Seq<char> {
    let t = s.subrange(leading_nondigits(s) as int, s.len() as int);
    t.subrange(0, leading_number_chars(t) as int)
}

proof fn lemma_leading_nondigits_bound(s: Seq<char>)
    ensures
        leading_nondigits(s) <= s.len(),
    decreases s.len(),
{
    if s.len() > 0 && !is_digit(s[0]) {
        lemma_leading_nondigits_bound(s.drop_first());
    }
}

proof fn lemma_leading_number_chars_bound(s: Seq<char>)
    ensures
        leading_number_chars(s) <= s.len(),
    decreases s.len(),
{
    if s.len() > 0 && (is_digit(s[0]) || s[0] == '.') {
        lemma_leading_number_chars_bound(s.drop_first());
    }
}

/// The text of the first number in `s`: skip to the first ASCII digit, then take digits
/// and dots. It is what the probe hands to the float parser.
pub fn first_number_text(s: &str) -> (r: String)
    ensures
        r@ == first_number(s@),
{
    let v = to_chars(s);
    let n = v.len();
    let mut a: usize = 0;
    assert(v@.subrange(0, n as int) =~= s@);
    while a < n && !('0' <= v[a] && v[a] <= '9')
        invariant
            0 <= a <= n,
            n == v@.len(),
            v@ == s@,
            leading_nondigits(s@) == a + leading_nondigits(v@.subrange(a as int, n as int)),
        decreases n - a,
    {
        assert(v@.subrange(a as int, n as int).drop_first() =~= v@.subrange(a + 1, n as int));
        a += 1;
    }
    proof {
        assert(v@.subrange(a as int, n as int).len() == 0 || is_digit(v@[a as int]));
        lemma_leading_nondigits_bound(s@);
    }
    let ghost t = v@.subrange(a as int, n as int);
    let mut b = a;
    while b < n && (('0' <= v[b] && v[b] <= '9') || v[b] == '.')
        invariant
            a <= b <= n,
            n == v@.len(),
            t == v@.subrange(a as int, n as int),
            leading_number_chars(t) == (b - a) + leading_number_chars(v@.subrange(b as int, n as int)),
        decreases n - b,
    {
        assert(v@.subrange(b as int, n as int).drop_first() =~= v@.subrange(b + 1, n as int));
        b += 1;
    }
    let r = string_from_chars(&v, a, b);
    assert(r@ =~= first_number(s@));
    r
}

/// The position of the first `c` in `v[start..]`, or `v.len()`.
pub fn first_index_from(v: &Vec<char>, start: usize, c: char) -> (k: usize)
    requires
        start <= v@.len(),
    ensures
        start <= k <= v@.len(),
        k - start == first_index(v@.subrange(start as int, v@.len() as int), c),
{
    let mut k = start;
    while k < v.len() && v[k] != c
        invariant
            start <= k <= v@.len(),
            forall|j: int| start <= j < k ==> v@[j] != c,
        decreases v@.len() - k,
    {
        k += 1;
    }
    proof {
        lemma_first_index_at(v@.subrange(start as int, v@.len() as int), c, k - start);
    }
    k
}

/// Unicode lower case of a string, as std's `str::to_lowercase` computes it.
pub uninterp spec fn unicode_lowercase(s: Seq<char>) -> Seq<char>;

/// std's `str::to_lowercase`: full Unicode case mapping, whose tables are not restated here.
#[verifier::external_body]
pub(crate) fn to_lowercase(s: &str) -> (r: String)
    ensures
        r@ == unicode_lowercase(s@),
{
    s.to_lowercase()
}

} // verus!
