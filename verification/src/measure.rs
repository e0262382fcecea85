//! The plan of the measurements: which thread counts and working sets are measured,
//! the storage test's data, and the check of a downloaded model.

use vstd::prelude::*;
use vstd::string::StringExecFns;

use crate::text::{chars_eq, push_char, to_chars};

verus! {

/// Thread counts of the bandwidth sweep: one, half the cores (from four cores on) and
/// all cores (from two on).
pub open spec fn thread_counts_spec(cores: usize) -> Seq<usize> {
    seq![1usize] + (if cores >= 4 {
        seq![(cores / 2) as usize]
    } else {
        Seq::empty()
    }) + (if cores > 1 {
        seq![cores]
    } else {
        Seq::empty()
    })
}

/// Thread counts at which memory bandwidth is measured.
pub fn thread_counts(cores: usize) -> (counts: Vec<usize>)
    ensures
        counts@ == thread_counts_spec(cores),
{
    let mut counts: Vec<usize> = Vec::new();
    counts.push(1);
    if cores >= 4 {
        counts.push(cores / 2);
    }
    if cores > 1 {
        counts.push(cores);
    }
    assert(counts@ =~= thread_counts_spec(cores));
    counts
}

/// The sweep's thread counts rise strictly from one to the core count, so none is
/// measured twice.
pub proof fn lemma_thread_counts_increasing(cores: usize)
    ensures
        thread_counts_spec(cores)[0] == 1,
        forall|i: int, j: int|
            0 <= i < j < thread_counts_spec(cores).len() ==> thread_counts_spec(cores)[i]
                < thread_counts_spec(cores)[j],
        cores >= 1 ==> thread_counts_spec(cores).last() == cores,
{
}

/// The sweep measures exactly these thread counts: one, half the cores when there are four
/// or more, and all the cores when there are two or more. With the rise in
/// `lemma_thread_counts_increasing` this fixes the list.
pub proof fn lemma_thread_counts_members(cores: usize, x: usize)
    ensures
        thread_counts_spec(cores).contains(x) <==> (x == 1 || (cores >= 4 && x == cores / 2) || (
        cores > 1 && x == cores)),
{
    let t = thread_counts_spec(cores);
    if cores >= 4 {
        assert(t =~= seq![1usize, (cores / 2) as usize, cores]);
    } else if cores > 1 {
        assert(t =~= seq![1usize, cores]);
    } else {
        assert(t =~= seq![1usize]);
    }
    if x == 1 {
        assert(t[0] == x);
    } else if cores >= 4 && x == cores / 2 {
        assert(t[1] == x);
    } else if cores > 1 && x == cores {
        assert(t[t.len() - 1] == x);
    }
}

/// Working sets of the bandwidth sweep, in bytes (a, b and c together), from L2 to DRAM.
pub open spec fn all_working_sets() -> Seq<usize> {
    seq![
        196608usize,
        1572864usize,
        6291456usize,
        25165824usize,
        100663296usize,
        402653184usize,
        1610612736usize,
    ]
}

/// The working sets that fit the cap (at least 64 MiB), in rising order.
pub open spec fn working_sets_spec(cap_bytes: usize) -> Seq<usize> {
    let cap = if cap_bytes > 67108864 {
        cap_bytes
    } else {
        67108864
    };
    all_working_sets().filter(|s: usize| s <= cap)
}

/// The working sets measured when a quarter of the free memory is `cap_bytes`.
pub fn working_sets(cap_bytes: usize) -> (sizes: Vec<usize>)
    ensures
        sizes@ == working_sets_spec(cap_bytes),
{
    let cap = if cap_bytes > 67108864 {
        cap_bytes
    } else {
        67108864
    };
    let all: [usize; 7] = [196608, 1572864, 6291456, 25165824, 100663296, 402653184, 1610612736];
    let ghost pred = |s: usize| s <= cap;
    let mut sizes: Vec<usize> = Vec::new();
    let mut i: usize = 0;
    assert(all@ =~= all_working_sets());
    while i < 7
        invariant
            0 <= i <= 7,
            all@ == all_working_sets(),
            pred == (|s: usize| s <= cap),
            sizes@ == all@.subrange(0, i as int).filter(pred),
        decreases 7 - i,
    {
        reveal_with_fuel(Seq::<_>::filter, 1);
        assert(all@.subrange(0, i + 1).drop_last() =~= all@.subrange(0, i as int));
        if all[i] <= cap {
            sizes.push(all[i]);
        }
        i += 1;
    }
    assert(all@.subrange(0, 7) =~= all@);
    sizes
}

/// However little memory is free, the sweep measures the four smallest working sets,
/// so it always has a largest one to report.
pub proof fn lemma_working_sets_nonempty(cap_bytes: usize)
    ensures
        working_sets_spec(cap_bytes).len() >= 4,
        working_sets_spec(cap_bytes).subrange(0, 4) == all_working_sets().subrange(0, 4),
{
    let cap: usize = if cap_bytes > 67108864 {
        cap_bytes
    } else {
        67108864
    };
    let pred = |s: usize| s <= cap;
    let a = all_working_sets();
    reveal_with_fuel(Seq::<_>::filter, 8);
    assert(a.subrange(0, 4) =~= seq![196608usize, 1572864usize, 6291456usize, 25165824usize]);
    assert(a.take(4).filter(pred) =~= a.take(4)) by {
        assert(a.take(4).drop_last().drop_last().drop_last().drop_last() =~= Seq::<usize>::empty());
        assert(a.take(4).drop_last().drop_last().drop_last() =~= seq![196608usize]);
        assert(a.take(4).drop_last().drop_last() =~= seq![196608usize, 1572864usize]);
        assert(a.take(4).drop_last() =~= seq![196608usize, 1572864usize, 6291456usize]);
    }
    Seq::filter_distributes_over_add(a.take(4), a.skip(4), pred);
    assert(a =~= a.take(4) + a.skip(4));
    assert(working_sets_spec(cap_bytes) =~= a.take(4) + a.skip(4).filter(pred));
}

/// The working sets measured single-threaded: the smallest, the middle and the largest
/// of three or more; all of them otherwise.
pub open spec fn single_thread_picks_spec(sizes: Seq<usize>) -> Seq<usize> {
    if sizes.len() >= 3 {
        seq![sizes[0], sizes[(sizes.len() / 2) as int], sizes.last()]
    } else {
        sizes
    }
}

/// The working sets measured single-threaded.
pub fn single_thread_picks(sizes: &Vec<usize>) -> (picks: Vec<usize>)
    ensures
        picks@ == single_thread_picks_spec(sizes@),
{
    if sizes.len() >= 3 {
        let mut picks: Vec<usize> = Vec::new();
        picks.push(sizes[0]);
        picks.push(sizes[sizes.len() / 2]);
        picks.push(sizes[sizes.len() - 1]);
        assert(picks@ =~= single_thread_picks_spec(sizes@));
        picks
    } else {
        sizes.clone()
    }
}

/// Number of sampling windows in a sustained run: the whole windows that fit, at least one.
pub fn sustained_windows(total_secs: u64, window_secs: u64) -> (n: u64)
    requires
        window_secs > 0,
    ensures
        n == (if total_secs / window_secs > 1 {
            total_secs / window_secs
        } else {
            1
        }),
{
    let w = total_secs / window_secs;
    if w > 1 {
        w
    } else {
        1
    }
}

/// Fewest tokens the calibration run generates.
pub const MIN_GEN_TOKENS: u64 = 128;

/// Most tokens the calibration run generates.
pub const MAX_GEN_TOKENS: u64 = 8192;

/// Tokens to generate in the calibration run, from the count that would take the target
/// time at the sizing run's speed: that count, kept between 128 and 8192.
pub fn generation_tokens(estimate: u64) -> (n: u64)
    ensures
        n == (if estimate < MIN_GEN_TOKENS {
            MIN_GEN_TOKENS
        } else if estimate > MAX_GEN_TOKENS {
            MAX_GEN_TOKENS
        } else {
            estimate
        }),
        MIN_GEN_TOKENS <= n <= MAX_GEN_TOKENS,
{
    if estimate < MIN_GEN_TOKENS {
        MIN_GEN_TOKENS
    } else if estimate > MAX_GEN_TOKENS {
        MAX_GEN_TOKENS
    } else {
        estimate
    }
}

/// Seed of the storage test's pseudo-random data.
pub const STORAGE_SEED: u64 = 0x9E3779B97F4A7C15;

/// One xorshift64 step (shifts 13, 7, 17).
pub open spec fn xorshift(x: u64) -> u64 {
    let a = x ^ (x << 13u64);
    let b = a ^ (a >> 7u64);
    b ^ (b << 17u64)
}

/// The generator's state after `n` steps from the seed.
pub open spec fn xorshift_state(n: nat) -> u64
    decreases n,
{
    if n == 0 {
        STORAGE_SEED
    } else {
        xorshift(xorshift_state((n - 1) as nat))
    }
}

/// Byte `k` of the storage test's data: the low byte of the generator after `k + 1` steps.
pub open spec fn storage_byte(k: int) -> u8 {
    (xorshift_state((k + 1) as nat) & 0xffu64) as u8
}

/// The block that the storage test writes, `len` bytes of xorshift64 output.
pub fn storage_block(len: usize) -> (buf: Vec<u8>)
    ensures
        buf@.len() == len,
        forall|k: int| 0 <= k < len ==> buf@[k] == storage_byte(k),
{
    let mut buf: Vec<u8> = Vec::new();
    let mut x: u64 = STORAGE_SEED;
    let mut k: usize = 0;
    while k < len
        invariant
            0 <= k <= len,
            buf@.len() == k,
            x == xorshift_state(k as nat),
            forall|j: int| 0 <= j < k ==> buf@[j] == storage_byte(j),
        decreases len - k,
    {
        x ^= x << 13u64;
        x ^= x >> 7u64;
        x ^= x << 17u64;
        buf.push((x & 0xffu64) as u8);
        k += 1;
    }
    buf
}

/// Decimal digits of a value (no sign, no leading zeros; `0` for zero).
pub open spec fn decimal(v: nat) -> Seq<char>
    decreases v,
{
    if v < 10 {
        seq![((v + 48) as u32) as char]
    } else {
        decimal(v / 10) + seq![(((v % 10) + 48) as u32) as char]
    }
}

/// A value written in decimal.
pub fn u64_to_decimal(v: u64) -> (s: String)
    ensures
        s@ == decimal(v as nat),
{
    let mut digits: Vec<char> = Vec::new();
    let mut x = v;
    let ghost mut rest: nat = v as nat;
    loop
        invariant_except_break
            x as nat == rest,
            decimal(v as nat) == decimal(rest) + digits@.reverse(),
        ensures
            decimal(v as nat) == digits@.reverse(),
        decreases x,
    {
        let d = x % 10;
        let c = ((d as u8) + 48) as char;
        if x < 10 {
            assert(decimal(rest) =~= seq![c]);
            let ghost before = digits@;
            digits.push(c);
            assert(digits@.reverse() =~= seq![c] + before.reverse());
            break;
        }
        let ghost before = digits@;
        digits.push(c);
        assert(digits@.reverse() =~= seq![c] + before.reverse());
        assert(decimal(rest) == decimal(rest / 10) + seq![c]);
        x = x / 10;
        proof {
            rest = rest / 10;
        }
    }
    let mut s = String::new();
    let mut i = digits.len();
    while i > 0
        invariant
            0 <= i <= digits@.len(),
            s@ == digits@.reverse().subrange(0, digits@.len() - i),
        decreases i,
    {
        push_char(&mut s, digits[i - 1]);
        i -= 1;
        assert(s@ =~= digits@.reverse().subrange(0, digits@.len() - i));
    }
    assert(digits@.reverse().subrange(0, digits@.len() as int) =~= digits@.reverse());
    s
}

proof fn lemma_decimal_digits(v: nat)
    ensures
        decimal(v).len() > 0,
        crate::opts::all_digits(decimal(v)),
        crate::opts::digits_value(decimal(v)) == v,
        decimal(v)[0] != '+',
    decreases v,
{
    if v < 10 {
        let c = ((v + 48) as u32) as char;
        assert(c as u32 == v + 48);
        assert(decimal(v).drop_last() =~= Seq::<char>::empty());
        assert(crate::opts::digits_value(Seq::<char>::empty()) == 0);
        assert(decimal(v).last() == c);
    } else {
        lemma_decimal_digits(v / 10);
        let c = (((v % 10) + 48) as u32) as char;
        assert(c as u32 == (v % 10) + 48);
        let d = decimal(v);
        assert(d.drop_last() =~= decimal(v / 10));
        assert(d.last() == c);
        assert(crate::opts::digits_value(d) == 10 * crate::opts::digits_value(decimal(v / 10)) + (
        (c as u32) - 48));
        assert(v == 10 * (v / 10) + v % 10);
        assert forall|i: int| 0 <= i < d.len() implies crate::text::is_digit(#[trigger] d[i]) by {
            if i < d.len() - 1 {
                assert(d[i] == decimal(v / 10)[i]);
            }
        }
        assert(d[0] == decimal(v / 10)[0]);
    }
}

/// Writing a number in decimal and reading it back as std's `u64::from_str` does gives
/// the number again.
pub proof fn lemma_decimal_round_trip(v: u64)
    ensures
        crate::opts::parse_u64_spec(decimal(v as nat)) == Some(v),
{
    lemma_decimal_digits(v as nat);
    let d = decimal(v as nat);
    if d.len() > 1 {
        assert(d[0] != '+');
    }
}

/// Why a download does not match the manifest, if it does not: the size is checked
/// first, then the SHA-256.
pub open spec fn download_error(total: u64, expected_size: u64, got: Seq<char>, expected: Seq<char>) -> Option<Seq<char>> {
    if total != expected_size {
        Some(
            "size mismatch: got "@ + decimal(total as nat) + " bytes, manifest says "@ + decimal(
                expected_size as nat,
            ),
        )
    } else if got != expected {
        Some("sha256 mismatch: got "@ + got + ", manifest says "@ + expected)
    } else {
        None
    }
}

/// Checks a downloaded model against the manifest: its size in bytes and its SHA-256
/// in hexadecimal.
pub fn check_download(total: u64, expected_size: u64, got: &str, expected: &str) -> (r: Result<(), String>)
    ensures
        match download_error(total, expected_size, got@, expected@) {
            Some(e) => r is Err && r->Err_0@ == e,
            None => r is Ok,
        },
{
    if total != expected_size {
        let mut e = "size mismatch: got ".to_owned();
        e.append(u64_to_decimal(total).as_str());
        e.append(" bytes, manifest says ");
        e.append(u64_to_decimal(expected_size).as_str());
        return Err(e);
    }
    let g = to_chars(got);
    let x = to_chars(expected);
    if !chars_eq(&g, &x) {
        let mut e = "sha256 mismatch: got ".to_owned();
        e.append(got);
        e.append(", manifest says ");
        e.append(expected);
        return Err(e);
    }
    Ok(())
}

} // verus!
