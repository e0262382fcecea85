//! The run conditions the probe records next to its numbers (power source, power mode),
//! read from what the operating system reports, and the warnings they give rise to.

use vstd::prelude::*;
use vstd::string::StringExecFns;

use crate::platform::views;
use crate::text::{
    ascii_lower, chars_eq_str, contains_seq, contains_str, lines, split_lines, string_from_chars,
    to_ascii_lowercase, to_chars, trim, trim_range, trim_str,
};

verus! {

/// Battery presence and power source from the `BatteryStatus` that Windows reports
/// (`none` when there is no battery): `(has_battery, on_ac)`. Status 1 means discharging.
pub open spec fn battery_state_spec(status: Seq<char>) -> (bool, Option<bool>) {
    let v = trim(status);
    if v == "none"@ || v.len() == 0 {
        (false, Some(true))
    } else {
        (true, Some(v != "1"@))
    }
}

/// What a `BatteryStatus` means: no battery when the query printed `none` or nothing (then
/// the machine is on mains power); otherwise a battery, and running on it exactly when the
/// status is 1 (discharging). Every other status (2 on AC, 3 fully charged, 6 to 9
/// charging, ...) is on AC.
pub proof fn lemma_battery_status_meaning(status: Seq<char>)
    ensures
        battery_state_spec(status).0 <==> (trim(status) != "none"@ && trim(status).len() > 0),
        battery_state_spec(status).1 is Some,
        battery_state_spec(status).1 == Some(false) <==> trim(status) == "1"@,
{
    reveal_strlit("none");
    reveal_strlit("1");
}

/// Battery presence and power source from the Windows `BatteryStatus` query output.
pub fn battery_state(status: &str) -> (r: (bool, Option<bool>))
    ensures
        r == battery_state_spec(status@),
{
    let t = trim_str(status);
    let v = to_chars(t.as_str());
    if chars_eq_str(&v, "none") || v.len() == 0 {
        (false, Some(true))
    } else {
        (true, Some(!chars_eq_str(&v, "1")))
    }
}

/// The part of `s` after its last `c` (all of `s` when it has none).
pub open spec fn after_last(s: Seq<char>, c: char) -> Seq<char>
    decreases s.len(),
{
    if s.len() == 0 {
        s
    } else if s.last() == c {
        Seq::empty()
    } else {
        after_last(s.drop_last(), c).push(s.last())
    }
}

/// Whether `s` ends with `p`.
pub open spec fn ends_with(s: Seq<char>, p: Seq<char>) -> bool {
    p.len() <= s.len() && s.subrange(s.len() - p.len(), s.len() as int) == p
}

/// `s` with every trailing copy of a non-empty `p` removed (std's `trim_end_matches`).
pub open spec fn strip_suffixes(s: Seq<char>, p: Seq<char>) -> Seq<char>
    decreases s.len(),
{
    if p.len() > 0 && ends_with(s, p) {
        strip_suffixes(s.subrange(0, s.len() - p.len()), p)
    } else {
        s
    }
}

/// The plan name in `powercfg /getactivescheme` output, `... (Balanced)` giving
/// `Balanced`; the whole trimmed output when that leaves nothing.
pub open spec fn plan_name_spec(v: Seq<char>) -> Seq<char> {
    let p = trim(strip_suffixes(strip_suffixes(after_last(v, '('), ")\n"@), ")"@));
    if p.len() == 0 {
        trim(v)
    } else {
        p
    }
}

proof fn lemma_after_last(s: Seq<char>, c: char, k: int)
    requires
        0 <= k <= s.len(),
        k == 0 || s[k - 1] == c,
        forall|j: int| k <= j < s.len() ==> s[j] != c,
    ensures
        after_last(s, c) == s.subrange(k, s.len() as int),
    decreases s.len(),
{
    if s.len() > 0 {
        if s.last() == c {
            assert(k == s.len());
        } else {
            lemma_after_last(s.drop_last(), c, k);
            assert(s.subrange(k, s.len() as int) =~= s.drop_last().subrange(
                k,
                s.drop_last().len() as int,
            ).push(s.last()));
        }
    } else {
        assert(s.subrange(k, s.len() as int) =~= s);
    }
}

/// End of `v[a..b]` once every trailing copy of `p` is removed.
fn strip_suffixes_end(v: &Vec<char>, a: usize, b: usize, p: &str) -> (e: usize)
    requires
        a <= b <= v@.len(),
        p@.len() > 0,
    ensures
        a <= e <= b,
        v@.subrange(a as int, e as int) == strip_suffixes(v@.subrange(a as int, b as int), p@),
{
    let pv = to_chars(p);
    let mut e = b;
    loop
        invariant
            a <= e <= b,
            b <= v@.len(),
            pv@ == p@,
            pv@.len() > 0,
            strip_suffixes(v@.subrange(a as int, b as int), p@) == strip_suffixes(
                v@.subrange(a as int, e as int),
                p@,
            ),
        ensures
            a <= e <= b,
            v@.subrange(a as int, e as int) == strip_suffixes(v@.subrange(a as int, b as int), p@),
        decreases e,
    {
        let n = pv.len();
        if n > e - a {
            break;
        }
        let mut j: usize = 0;
        let mut same = true;
        while j < n
            invariant
                0 <= j <= n,
                n == pv@.len(),
                n <= e - a,
                e <= v@.len(),
                same == (forall|x: int| 0 <= x < j ==> v@[e - n + x] == pv@[x]),
            decreases n - j,
        {
            if v[e - n + j] != pv[j] {
                same = false;
            }
            j += 1;
        }
        let ghost s = v@.subrange(a as int, e as int);
        if !same {
            proof {
                if ends_with(s, p@) {
                    assert forall|x: int| 0 <= x < n implies v@[e - n + x] == pv@[x] by {
                        assert(s.subrange(s.len() - n, s.len() as int)[x] == v@[e - n + x]);
                    }
                }
            }
            break;
        }
        assert(s.subrange(s.len() - n, s.len() as int) =~= pv@);
        assert(s.subrange(0, s.len() - n) =~= v@.subrange(a as int, e - n));
        e = e - n;
    }
    e
}

/// No battery means mains power: on Windows and on macOS, a machine whose report shows no
/// battery is recorded as on AC.
pub proof fn lemma_no_battery_is_mains(status: Seq<char>, pmset: Seq<char>)
    ensures
        !battery_state_spec(status).0 ==> battery_state_spec(status).1 == Some(true),
        !mac_battery_spec(pmset).0 ==> mac_battery_spec(pmset).1 == Some(true),
{
}

/// The plan name is what stands in the last parentheses: `<anything> (<name>)` gives
/// `<name>`, for a name without `(`, not ending in `)`, with no whitespace at either end.
pub proof fn lemma_plan_name_in_parentheses(prefix: Seq<char>, name: Seq<char>)
    requires
        name.len() > 0,
        !crate::text::is_whitespace(name[0]),
        !crate::text::is_whitespace(name.last()),
        name.last() != ')',
        forall|i: int| 0 <= i < name.len() ==> #[trigger] name[i] != '(',
    ensures
        plan_name_spec(prefix + seq!['('] + name + seq![')']) == name,
{
    let s = prefix + seq!['('] + name + seq![')'];
    let k: int = prefix.len() as int + 1;
    assert forall|j: int| k <= j < s.len() implies s[j] != '(' by {
        if j < s.len() - 1 {
            assert(s[j] == name[j - k]);
        }
    }
    lemma_after_last(s, '(', k);
    let t = name + seq![')'];
    assert(s.subrange(k, s.len() as int) =~= t);
    reveal_strlit(")\n");
    reveal_strlit(")");
    assert(!ends_with(t, ")\n"@)) by {
        if ends_with(t, ")\n"@) {
            assert(t.subrange(t.len() - 2, t.len() as int)[1] == t.last());
        }
    }
    assert(strip_suffixes(t, ")\n"@) == t);
    assert(ends_with(t, ")"@)) by {
        assert(t.subrange(t.len() - 1, t.len() as int) =~= ")"@);
    }
    assert(t.subrange(0, t.len() - 1) =~= name);
    assert(!ends_with(name, ")"@)) by {
        if ends_with(name, ")"@) {
            assert(name.subrange(name.len() - 1, name.len() as int)[0] == name.last());
        }
    }
    assert(strip_suffixes(name, ")"@) == name);
    assert(strip_suffixes(t, ")"@) == name);
    assert(crate::text::leading_ws(name) == 0);
    assert(crate::text::trim_start(name) =~= name);
    assert(crate::text::trailing_ws(name) == 0);
    assert(trim(name) =~= name);
}

/// The plan name in the output of `powercfg /getactivescheme`.
pub fn power_plan_name(v: &str) -> (name: String)
    ensures
        name@ == plan_name_spec(v@),
{
    let c = to_chars(v);
    let n = c.len();
    let mut k = n;
    while k > 0 && c[k - 1] != '('
        invariant
            0 <= k <= n,
            n == c@.len(),
            forall|j: int| k <= j < n ==> c@[j] != '(',
        decreases k,
    {
        k -= 1;
    }
    proof {
        lemma_after_last(c@, '(', k as int);
        assert(c@ == v@);
    }
    proof {
        reveal_strlit(")\n");
        reveal_strlit(")");
    }
    let e1 = strip_suffixes_end(&c, k, n, ")\n");
    let e2 = strip_suffixes_end(&c, k, e1, ")");
    let (x, y) = trim_range(&c, k, e2);
    if x == y {
        let (x2, y2) = trim_range(&c, 0, n);
        assert(c@.subrange(0, n as int) =~= c@);
        string_from_chars(&c, x2, y2)
    } else {
        string_from_chars(&c, x, y)
    }
}

/// Power source on Linux: the first AC adapter's `online` flag if one was found; with no
/// adapter and no battery, mains power.
pub fn linux_on_ac(ac_online: Option<&str>, has_battery: bool) -> (r: Option<bool>)
    ensures
        r == (match ac_online {
            Some(s) => Some(trim(s@) == "1"@),
            None => if has_battery {
                None
            } else {
                Some(true)
            },
        }),
{
    match ac_online {
        Some(s) => {
            let t = trim_str(s);
            let v = to_chars(t.as_str());
            Some(chars_eq_str(&v, "1"))
        },
        None => if has_battery {
            None
        } else {
            Some(true)
        },
    }
}

/// Battery presence and power source in `pmset -g batt` output: a battery when it lists
/// `InternalBattery`, on AC when it says `AC Power` or when there is no battery.
pub open spec fn mac_battery_spec(pmset: Seq<char>) -> (bool, Option<bool>) {
    let has_battery = contains_seq(pmset, "InternalBattery"@);
    (has_battery, Some(!has_battery || contains_seq(pmset, "AC Power"@)))
}

/// Battery presence and power source from `pmset -g batt` on macOS: `(has_battery, on_ac)`.
pub fn mac_battery(pmset: &str) -> (r: (bool, Option<bool>))
    ensures
        r == mac_battery_spec(pmset@),
{
    let v = to_chars(pmset);
    let has_battery = contains_str(&v, "InternalBattery");
    let mut on_ac = Some(contains_str(&v, "AC Power"));
    if !has_battery {
        on_ac = Some(true);
    }
    (has_battery, on_ac)
}

/// The first line that contains `needle`.
pub open spec fn first_line_with(ls: Seq<Seq<char>>, needle: Seq<char>) -> Option<Seq<char>>
    decreases ls.len(),
{
    if ls.len() == 0 {
        None
    } else if contains_seq(ls[0], needle) {
        Some(ls[0])
    } else {
        first_line_with(ls.drop_first(), needle)
    }
}

/// The CPU speed limit line of `pmset -g therm` on macOS, trimmed, if it reports one.
pub fn mac_speed_limit(therm: &str) -> (r: Option<String>)
    ensures
        !contains_seq(therm@, "CPU_Speed_Limit"@) ==> r is None,
        contains_seq(therm@, "CPU_Speed_Limit"@) ==> r is Some && r->0@ == trim(
            match first_line_with(lines(therm@), "CPU_Speed_Limit"@) {
                Some(l) => l,
                None => Seq::empty(),
            },
        ),
{
    let v = to_chars(therm);
    if !contains_str(&v, "CPU_Speed_Limit") {
        return None;
    }
    let ls = split_lines(therm);
    let ghost lv = ls@.map_values(|l: String| l@);
    let mut i: usize = 0;
    assert(lv.subrange(0, lv.len() as int) =~= lv);
    while i < ls.len()
        invariant
            0 <= i <= ls@.len(),
            lv == ls@.map_values(|l: String| l@),
            lv == lines(therm@),
            contains_seq(therm@, "CPU_Speed_Limit"@),
            first_line_with(lv, "CPU_Speed_Limit"@) == first_line_with(
                lv.subrange(i as int, lv.len() as int),
                "CPU_Speed_Limit"@,
            ),
        decreases ls@.len() - i,
    {
        let ghost rest = lv.subrange(i as int, lv.len() as int);
        assert(rest[0] == ls@[i as int]@);
        assert(rest.drop_first() =~= lv.subrange(i + 1, lv.len() as int));
        let lc = to_chars(ls[i].as_str());
        if contains_str(&lc, "CPU_Speed_Limit") {
            return Some(trim_str(ls[i].as_str()));
        }
        i += 1;
    }
    Some(String::new())
}

/// Whether a power mode, in ASCII lower case, names a power-saving mode.
pub open spec fn is_saving_mode(lower: Seq<char>) -> bool {
    contains_seq(lower, "saver"@) || contains_seq(lower, "powersave"@) || contains_seq(
        lower,
        "eco"@,
    ) || contains_seq(lower, "efficiency"@)
}

/// The warning for running on battery.
pub open spec fn battery_warning() -> Seq<char> {
    "Running on battery; plug in for a full-speed result."@
}

/// The warning for a power-saving mode.
pub open spec fn power_mode_warning(mode: Seq<char>) -> Seq<char> {
    "Power mode is \""@ + mode + "\"; set it to Balanced or Best Performance for a full-speed result."@
}

/// The warnings that the power source and power mode give: on battery, then a
/// power-saving mode.
pub open spec fn power_warnings_spec(has_battery: bool, on_ac: Option<bool>, mode: Seq<char>) -> Seq<
    Seq<char>,
> {
    (if has_battery && on_ac == Some(false) {
        seq![battery_warning()]
    } else {
        Seq::empty()
    }) + (if is_saving_mode(ascii_lower(mode)) {
        seq![power_mode_warning(mode)]
    } else {
        Seq::empty()
    })
}

/// What makes a run not comparable with a clean one, as far as power goes.
pub fn power_warnings(has_battery: bool, on_ac: Option<bool>, power_mode: &str) -> (w: Vec<String>)
    ensures
        views(w@) == power_warnings_spec(has_battery, on_ac, power_mode@),
{
    let mut w: Vec<String> = Vec::new();
    if has_battery && on_ac == Some(false) {
        w.push("Running on battery; plug in for a full-speed result.".to_owned());
    }
    let ghost first = views(w@);
    let m = to_ascii_lowercase(power_mode);
    let mv = to_chars(m.as_str());
    if contains_str(&mv, "saver") || contains_str(&mv, "powersave") || contains_str(&mv, "eco")
        || contains_str(&mv, "efficiency") {
        let mut s = "Power mode is \"".to_owned();
        s.append(power_mode);
        s.append("\"; set it to Balanced or Best Performance for a full-speed result.");
        w.push(s);
    }
    assert(views(w@) =~= power_warnings_spec(has_battery, on_ac, power_mode@));
    w
}

/// How the power source is described to the user.
pub open spec fn power_source_label_spec(has_battery: bool, on_ac: Option<bool>) -> Seq<char> {
    if !has_battery {
        "mains powered"@
    } else {
        match on_ac {
            Some(true) => "plugged in"@,
            Some(false) => "on battery"@,
            None => "power source unknown"@,
        }
    }
}

/// How the power source is described to the user.
pub fn power_source_label(has_battery: bool, on_ac: Option<bool>) -> (s: &'static str)
    ensures
        s@ == power_source_label_spec(has_battery, on_ac),
{
    if !has_battery {
        "mains powered"
    } else {
        match on_ac {
            Some(true) => "plugged in",
            Some(false) => "on battery",
            None => "power source unknown",
        }
    }
}

/// Whether an answer to the share prompt is consent: anything but `n` or `no` (in any
/// ASCII case, surrounding whitespace ignored), so a bare Enter shares.
pub open spec fn consents_spec(answer: Seq<char>) -> bool {
    let a = ascii_lower(trim(answer));
    a != "n"@ && a != "no"@
}

/// A bare Enter (an answer of nothing but whitespace) is consent: the prompt defaults to yes.
pub proof fn lemma_bare_enter_consents(answer: Seq<char>)
    requires
        forall|i: int| 0 <= i < answer.len() ==> crate::text::is_whitespace(#[trigger] answer[i]),
    ensures
        consents_spec(answer),
{
    crate::text::lemma_leading_ws_all(answer);
    reveal_strlit("n");
    reveal_strlit("no");
    assert(ascii_lower(trim(answer)).len() == 0);
}

/// Whether an answer read from the terminal consents to sharing.
pub fn consents(answer: &str) -> (yes: bool)
    ensures
        yes == consents_spec(answer@),
{
    let t = trim_str(answer);
    let l = to_ascii_lowercase(t.as_str());
    let v = to_chars(l.as_str());
    !chars_eq_str(&v, "n") && !chars_eq_str(&v, "no")
}

/// Whether the receipt is sent, given what reading the answer returned (the number of
/// bytes read, `None` on a read error) and the answer: only an answer that was actually
/// read, and that consents.
pub open spec fn share_spec(read: Option<usize>, answer: Seq<char>) -> bool {
    match read {
        Some(n) => n > 0 && consents_spec(answer),
        None => false,
    }
}

/// End of input is not a bare Enter: when nothing could be read, nobody was there to
/// answer, and nothing is sent, whatever the buffer holds.
pub proof fn lemma_end_of_input_sends_nothing(answer: Seq<char>)
    ensures
        !share_spec(Some(0), answer),
        !share_spec(None, answer),
{
}

/// Whether to send the receipt, from the result of reading the answer.
pub fn share_decision(read: Option<usize>, answer: &str) -> (yes: bool)
    ensures
        yes == share_spec(read, answer@),
{
    match read {
        Some(n) => n > 0 && consents(answer),
        None => false,
    }
}

} // verus!
