//! 64-bit FNV-1a, used to turn the host name into an anonymous identifier.

use vstd::prelude::*;

use vstd::string::StringSliceAdditionalSpecFns;

use crate::text::{hex_digit, push_char, HEX_DIGITS};

verus! {

/// FNV-1a offset basis (64-bit).
pub const FNV_OFFSET: u64 = 0xcbf29ce484222325;

/// FNV-1a prime (64-bit).
pub const FNV_PRIME: u64 = 0x100000001b3;

/// FNV-1a state after hashing `bytes` starting from state `h`.
pub open spec fn fnv1a_from(h: u64, bytes: Seq<u8>) -> u64
    decreases bytes.len(),
{
    if bytes.len() == 0 {
        h
    } else {
        (fnv1a_from(h, bytes.drop_last()) ^ (bytes.last() as u64)).wrapping_mul(FNV_PRIME)
    }
}

/// 64-bit FNV-1a of the UTF-8 bytes of `s`.
pub fn fnv1a(s: &str) -> (h: u64)
    ensures
        h == fnv1a_from(FNV_OFFSET, s.spec_bytes()),
{
    let bytes = s.as_bytes();
    let mut h: u64 = FNV_OFFSET;
    let mut i: usize = 0;
    while i < bytes.len()
        invariant
            0 <= i <= bytes@.len(),
            bytes@ == s.spec_bytes(),
            h == fnv1a_from(FNV_OFFSET, bytes@.subrange(0, i as int)),
        decreases bytes@.len() - i,
    {
        h ^= bytes[i] as u64;
        h = h.wrapping_mul(FNV_PRIME);
        assert(bytes@.subrange(0, i + 1).drop_last() =~= bytes@.subrange(0, i as int));
        i += 1;
    }
    assert(bytes@.subrange(0, bytes@.len() as int) =~= bytes@);
    h
}

/// Hashing is incremental: hashing `a` then continuing with `b` is hashing `a + b`.
pub proof fn lemma_fnv1a_concat(h: u64, a: Seq<u8>, b: Seq<u8>)
    ensures
        fnv1a_from(fnv1a_from(h, a), b) == fnv1a_from(h, a + b),
    decreases b.len(),
{
    if b.len() == 0 {
        assert(a + b =~= a);
    } else {
        lemma_fnv1a_concat(h, a, b.drop_last());
        assert((a + b).drop_last() =~= a + b.drop_last());
        assert((a + b).last() == b.last());
    }
}

/// A 64-bit value as sixteen lower-case hexadecimal digits, most significant first.
pub open spec fn hex_u64(v: u64) -> Seq<char> {
    Seq::new(16, |k: int| hex_digit(((v >> ((60 - 4 * k) as u64)) & 0xfu64) as u32))
}

/// A hexadecimal form is sixteen hexadecimal digits.
pub proof fn lemma_hex_u64_shape(v: u64)
    ensures
        hex_u64(v).len() == 16,
        forall|k: int| 0 <= k < 16 ==> HEX_DIGITS@.contains(#[trigger] hex_u64(v)[k]),
{
    assert forall|k: int| 0 <= k < 16 implies HEX_DIGITS@.contains(#[trigger] hex_u64(v)[k]) by {
        let sh = (60 - 4 * k) as u64;
        assert(((v >> sh) & 0xfu64) < 16) by (bit_vector);
        let n = (((v >> sh) & 0xfu64) as u32) as int;
        assert(HEX_DIGITS@[n] == hex_u64(v)[k]);
    }
}

/// The host's anonymous identifier: FNV-1a of its name as sixteen hexadecimal digits.
pub fn hostname_hash(host: &str) -> (out: String)
    ensures
        out@ == hex_u64(fnv1a_from(FNV_OFFSET, host.spec_bytes())),
{
    let v = fnv1a(host);
    let mut out = String::new();
    let mut k: u64 = 0;
    while k < 16
        invariant
            0 <= k <= 16,
            out@ == hex_u64(v).subrange(0, k as int),
        decreases 16 - k,
    {
        let sh: u64 = 60 - 4 * k;
        let nib = (v >> sh) & 0xfu64;
        assert(((v >> sh) & 0xfu64) < 16) by (bit_vector);
        push_char(&mut out, HEX_DIGITS[nib as usize]);
        assert(out@ =~= hex_u64(v).subrange(0, k + 1));
        k += 1;
    }
    assert(hex_u64(v).subrange(0, 16) =~= hex_u64(v));
    out
}

} // verus!
