//! What the probe reads out of the operating system's own reports when it takes the
//! machine's inventory.

use vstd::prelude::*;

use crate::text::{
    contains_seq, contains_str, first_index, first_index_from, first_number, first_number_text,
    lines, split_lines, starts_with, starts_with_str, string_from_chars,
    to_chars, to_lowercase, trim, trim_range, unicode_lowercase,
};

verus! {

/// The second `:`-separated field of a line, if the line has a `:`.
pub open spec fn colon_field(l: Seq<char>) -> Option<Seq<char>> {
    let p = first_index(l, ':');
    if p < l.len() {
        let rest = l.subrange(p + 1, l.len() as int);
        Some(rest.subrange(0, first_index(rest, ':')))
    } else {
        None
    }
}

/// A `/proc/cpuinfo` line that names the processor.
pub open spec fn is_cpu_name_line(l: Seq<char>) -> bool {
    starts_with(l, "model name"@) || starts_with(l, "Model"@)
}

/// The processor name in the first naming line that has a value.
pub open spec fn cpu_name_in(ls: Seq<Seq<char>>) -> Option<Seq<char>>
    decreases ls.len(),
{
    if ls.len() == 0 {
        None
    } else if is_cpu_name_line(ls[0]) && colon_field(ls[0]) is Some {
        Some(trim(colon_field(ls[0])->0))
    } else {
        cpu_name_in(ls.drop_first())
    }
}

fn colon_field_of(l: &str) -> (r: Option<String>)
    ensures
        match colon_field(l@) {
            Some(f) => r is Some && r->0@ == f,
            None => r is None,
        },
{
    let v = to_chars(l);
    let p = first_index_from(&v, 0, ':');
    assert(v@.subrange(0, v@.len() as int) =~= v@);
    if p >= v.len() {
        return None;
    }
    let e = first_index_from(&v, p + 1, ':');
    let f = string_from_chars(&v, p + 1, e);
    assert(f@ =~= v@.subrange(p + 1, v@.len() as int).subrange(0, e - (p + 1)));
    Some(f)
}

/// The processor name from the text of `/proc/cpuinfo`: the first line that starts with
/// `model name` or `Model` and has a `:`, its second `:`-field, trimmed.
pub fn cpu_name_from_cpuinfo(text: &str) -> (r: Option<String>)
    ensures
        match cpu_name_in(lines(text@)) {
            Some(n) => r is Some && r->0@ == n,
            None => r is None,
        },
{
    let ls = split_lines(text);
    let ghost lv = ls@.map_values(|l: String| l@);
    let mut i: usize = 0;
    assert(lv.subrange(0, lv.len() as int) =~= lv);
    while i < ls.len()
        invariant
            0 <= i <= ls@.len(),
            lv == ls@.map_values(|l: String| l@),
            lv == lines(text@),
            cpu_name_in(lv) == cpu_name_in(lv.subrange(i as int, lv.len() as int)),
        decreases ls@.len() - i,
    {
        let l = ls[i].as_str();
        let ghost rest = lv.subrange(i as int, lv.len() as int);
        assert(rest[0] == l@);
        assert(rest.drop_first() =~= lv.subrange(i + 1, lv.len() as int));
        if starts_with_str(l, "model name") || starts_with_str(l, "Model") {
            match colon_field_of(l) {
                Some(f) => {
                    let fv = to_chars(f.as_str());
                    let (x, y) = trim_range(&fv, 0, fv.len());
                    assert(fv@.subrange(0, fv@.len() as int) =~= fv@);
                    return Some(string_from_chars(&fv, x, y));
                },
                None => {},
            }
        }
        i += 1;
    }
    None
}

/// The text of the number on the last line that starts with `prefix`.
pub open spec fn last_prefixed_number(ls: Seq<Seq<char>>, prefix: Seq<char>) -> Option<Seq<char>>
    decreases ls.len(),
{
    if ls.len() == 0 {
        None
    } else if starts_with(ls.last(), prefix) {
        Some(first_number(ls.last()))
    } else {
        last_prefixed_number(ls.drop_last(), prefix)
    }
}

/// The text of the number on the last line of `text` that starts with `prefix`
/// (as in `/proc/meminfo`, `MemTotal:       16318856 kB`).
pub fn meminfo_number(text: &str, prefix: &str) -> (r: Option<String>)
    ensures
        match last_prefixed_number(lines(text@), prefix@) {
            Some(n) => r is Some && r->0@ == n,
            None => r is None,
        },
{
    let ls = split_lines(text);
    let ghost lv = ls@.map_values(|l: String| l@);
    let mut found: Option<String> = None;
    let mut i: usize = 0;
    while i < ls.len()
        invariant
            0 <= i <= ls@.len(),
            lv == ls@.map_values(|l: String| l@),
            lv == lines(text@),
            match last_prefixed_number(lv.subrange(0, i as int), prefix@) {
                Some(n) => found is Some && found->0@ == n,
                None => found is None,
            },
        decreases ls@.len() - i,
    {
        let l = ls[i].as_str();
        assert(lv.subrange(0, i + 1).drop_last() =~= lv.subrange(0, i as int));
        assert(lv.subrange(0, i + 1).last() == l@);
        if starts_with_str(l, prefix) {
            found = Some(first_number_text(l));
        }
        i += 1;
    }
    assert(lv.subrange(0, lv.len() as int) =~= lv);
    found
}

/// The raw JSON that a query returned, as an array: unchanged if it already is one,
/// otherwise wrapped in brackets (a single object comes back unwrapped).
pub fn json_array(s: String) -> (r: String)
    ensures
        r@ == (if s@.len() > 0 && s@[0] == '[' {
            s@
        } else {
            seq!['['] + s@ + seq![']']
        }),
{
    let v = to_chars(s.as_str());
    if v.len() > 0 && v[0] == '[' {
        s
    } else {
        let mut r = String::new();
        crate::text::push_char(&mut r, '[');
        let mut i: usize = 0;
        while i < v.len()
            invariant
                0 <= i <= v@.len(),
                r@ == seq!['['] + v@.subrange(0, i as int),
            decreases v@.len() - i,
        {
            crate::text::push_char(&mut r, v[i]);
            assert(r@ =~= seq!['['] + v@.subrange(0, i + 1));
            i += 1;
        }
        crate::text::push_char(&mut r, ']');
        assert(v@.subrange(0, v@.len() as int) =~= v@);
        r
    }
}

/// The note the probe prints when Windows is not in a full-speed power mode.
pub open spec fn power_note_text() -> Seq<char> {
    "Windows power mode is not Best performance; ARM laptops in particular clock down. Rerun on Best performance, plugged in."@
}

/// Whether a lower-cased power mode names a power-saving mode.
pub open spec fn names_power_saving(lower: Seq<char>) -> bool {
    contains_seq(lower, "efficiency"@) || contains_seq(lower, "power saver"@)
}

/// The power-mode note for a power mode already in lower case.
pub fn power_note_for_lowercase(lower: &str) -> (r: Option<String>)
    ensures
        names_power_saving(lower@) ==> r is Some && r->0@ == power_note_text(),
        !names_power_saving(lower@) ==> r is None,
{
    let v = to_chars(lower);
    if contains_str(&v, "efficiency") || contains_str(&v, "power saver") {
        Some(
            "Windows power mode is not Best performance; ARM laptops in particular clock down. Rerun on Best performance, plugged in.".to_owned(),
        )
    } else {
        None
    }
}

/// The power-mode note for a power mode, compared in Unicode lower case.
pub fn power_mode_note(mode: &str) -> (r: Option<String>)
    ensures
        names_power_saving(unicode_lowercase(mode@)) ==> r is Some && r->0@ == power_note_text(),
        !names_power_saving(unicode_lowercase(mode@)) ==> r is None,
{
    let lower = to_lowercase(mode);
    power_note_for_lowercase(lower.as_str())
}

} // verus!
