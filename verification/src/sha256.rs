//! SHA-256 (FIPS 180-4), with a streaming hasher whose output is proved equal
//! to the one-shot definition of the digest.

use vstd::prelude::*;

use crate::text::{hex_digit, push_char, HEX_DIGITS};

verus! {

/// Round constants of SHA-256.
pub const SHA256_K: [u32; 64] = [
    0x428a2f98, 0x71374491, 0xb5c0fbcf, 0xe9b5dba5, 0x3956c25b, 0x59f111f1, 0x923f82a4, 0xab1c5ed5,
    0xd807aa98, 0x12835b01, 0x243185be, 0x550c7dc3, 0x72be5d74, 0x80deb1fe, 0x9bdc06a7, 0xc19bf174,
    0xe49b69c1, 0xefbe4786, 0x0fc19dc6, 0x240ca1cc, 0x2de92c6f, 0x4a7484aa, 0x5cb0a9dc, 0x76f988da,
    0x983e5152, 0xa831c66d, 0xb00327c8, 0xbf597fc7, 0xc6e00bf3, 0xd5a79147, 0x06ca6351, 0x14292967,
    0x27b70a85, 0x2e1b2138, 0x4d2c6dfc, 0x53380d13, 0x650a7354, 0x766a0abb, 0x81c2c92e, 0x92722c85,
    0xa2bfe8a1, 0xa81a664b, 0xc24b8b70, 0xc76c51a3, 0xd192e819, 0xd6990624, 0xf40e3585, 0x106aa070,
    0x19a4c116, 0x1e376c08, 0x2748774c, 0x34b0bcb5, 0x391c0cb3, 0x4ed8aa4a, 0x5b9cca4f, 0x682e6ff3,
    0x748f82ee, 0x78a5636f, 0x84c87814, 0x8cc70208, 0x90befffa, 0xa4506ceb, 0xbef9a3f7, 0xc67178f2,
];

/// Initial hash value of SHA-256.
pub const SHA256_H0: [u32; 8] = [
    0x6a09e667, 0xbb67ae85, 0x3c6ef372, 0xa54ff53a, 0x510e527f, 0x9b05688c, 0x1f83d9ab, 0x5be0cd19,
];

/// Right rotation of a 32-bit word by `n` places, `0 < n < 32`.
pub open spec fn rotr(x: u32, n: u32) -> u32 {
    (x >> n) | (x << ((32 - n) as u32))
}

/// The compression function's Σ0 of the working variable `a`.
pub open spec fn big_sigma0(x: u32) -> u32 {
    rotr(x, 2) ^ rotr(x, 13) ^ rotr(x, 22)
}

/// The compression function's Σ1 of the working variable `e`.
pub open spec fn big_sigma1(x: u32) -> u32 {
    rotr(x, 6) ^ rotr(x, 11) ^ rotr(x, 25)
}

/// The message schedule's σ0.
pub open spec fn small_sigma0(x: u32) -> u32 {
    rotr(x, 7) ^ rotr(x, 18) ^ (x >> 3u32)
}

/// The message schedule's σ1.
pub open spec fn small_sigma1(x: u32) -> u32 {
    rotr(x, 17) ^ rotr(x, 19) ^ (x >> 10u32)
}

/// Ch: each bit from `f` where `e` has a one, from `g` where it has a zero.
pub open spec fn choose_bits(e: u32, f: u32, g: u32) -> u32 {
    (e & f) ^ (!e & g)
}

/// Maj: each bit as the majority of `a`, `b` and `c` have it.
pub open spec fn majority(a: u32, b: u32, c: u32) -> u32 {
    (a & b) ^ (a & c) ^ (b & c)
}

/// The `i`-th big-endian 32-bit word of a block.
pub open spec fn be_word(block: Seq<u8>, i: int) -> u32 {
    ((block[4 * i] as u32) << 24u32) | ((block[4 * i + 1] as u32) << 16u32) | ((block[4 * i + 2] as u32)
        << 8u32) | (block[4 * i + 3] as u32)
}

/// The first `n` words of the message schedule of a 64-byte block.
pub open spec fn schedule(block: Seq<u8>, n: nat) -> Seq<u32>
    decreases n,
{
    if n == 0 {
        Seq::empty()
    } else {
        let prev = schedule(block, (n - 1) as nat);
        let t = n - 1;
        if t < 16 {
            prev.push(be_word(block, t))
        } else {
            prev.push(
                prev[t - 16].wrapping_add(small_sigma0(prev[t - 15])).wrapping_add(
                    prev[t - 7],
                ).wrapping_add(small_sigma1(prev[t - 2])),
            )
        }
    }
}

/// One round of the compression function on the working variables `a..h`.
pub open spec fn round(s: Seq<u32>, k: u32, w: u32) -> Seq<u32> {
    let t1 = s[7].wrapping_add(big_sigma1(s[4])).wrapping_add(choose_bits(s[4], s[5], s[6])).wrapping_add(
        k,
    ).wrapping_add(w);
    let t2 = big_sigma0(s[0]).wrapping_add(majority(s[0], s[1], s[2]));
    seq![t1.wrapping_add(t2), s[0], s[1], s[2], s[3].wrapping_add(t1), s[4], s[5], s[6]]
}

/// The working variables after the first `n` rounds.
pub open spec fn rounds(init: Seq<u32>, w: Seq<u32>, n: nat) -> Seq<u32>
    decreases n,
{
    if n == 0 {
        init
    } else {
        round(rounds(init, w, (n - 1) as nat), SHA256_K@[n - 1], w[n - 1])
    }
}

/// The SHA-256 compression function: the chaining value after absorbing one block.
pub open spec fn compress_spec(h: Seq<u32>, block: Seq<u8>) -> Seq<u32> {
    let s = rounds(h, schedule(block, 64), 64);
    Seq::new(8, |i: int| h[i].wrapping_add(s[i]))
}

proof fn lemma_schedule_len(block: Seq<u8>, n: nat)
    ensures
        schedule(block, n).len() == n,
    decreases n,
{
    if n > 0 {
        lemma_schedule_len(block, (n - 1) as nat);
    }
}

proof fn lemma_rounds_len(init: Seq<u32>, w: Seq<u32>, n: nat)
    requires
        init.len() == 8,
    ensures
        rounds(init, w, n).len() == 8,
    decreases n,
{
    if n > 0 {
        lemma_rounds_len(init, w, (n - 1) as nat);
    }
}

fn rotr_exec(x: u32, n: u32) -> (r: u32)
    requires
        0 < n < 32,
    ensures
        r == rotr(x, n),
{
    (x >> n) | (x << (32 - n))
}

impl Sha256 {
    /// The bytes absorbed so far.
    pub closed spec fn message(&self) -> Seq<u8> {
        self.absorbed@
    }

    /// The hasher's state is the one that absorbing `message()` yields.
    pub closed spec fn wf(&self) -> bool {
        let m = self.absorbed@;
        &&& m.len() <= MAX_MESSAGE_BYTES
        &&& self.total_len == m.len()
        &&& self.buf_len < 64
        &&& self.buf_len == m.len() % 64
        &&& self.h@ == hash_blocks(m, m.len() / 64)
        &&& forall|j: int| 0 <= j < self.buf_len ==> self.buf@[j] == m[64 * (m.len() / 64) + j]
    }

    /// The chaining value: the hash state after the complete blocks absorbed so far.
    pub closed spec fn chaining_value(&self) -> Seq<u32> {
        self.h@
    }

    /// The absorbed bytes that do not yet fill a block.
    pub closed spec fn pending(&self) -> Seq<u8> {
        self.buf@.subrange(0, self.buf_len as int)
    }

    /// A hasher's state is determined by the bytes it has absorbed, however they were split
    /// into `update` calls: its chaining value is the hash of the complete blocks of the
    /// message, and its pending bytes are the rest.
    pub proof fn lemma_state_determined_by_message(&self, other: &Self)
        requires
            self.wf(),
            other.wf(),
            self.message() == other.message(),
        ensures
            self.chaining_value() == other.chaining_value(),
            self.pending() == other.pending(),
            self.chaining_value() == hash_blocks(self.message(), self.message().len() / 64),
            self.pending() == self.message().subrange(
                64 * (self.message().len() / 64) as int,
                self.message().len() as int,
            ),
    {
        let m = self.message();
        let q: int = (m.len() / 64) as int;
        assert(self.pending() =~= m.subrange(64 * q, m.len() as int));
        assert(other.pending() =~= m.subrange(64 * q, m.len() as int));
    }

    /// A hasher that has absorbed nothing.
    pub fn new() -> (s: Self)
        ensures
            s.wf(),
            s.message() == Seq::<u8>::empty(),
    {
        let s = Sha256 {
            h: [0x6a09e667, 0xbb67ae85, 0x3c6ef372, 0xa54ff53a, 0x510e527f, 0x9b05688c, 0x1f83d9ab, 0x5be0cd19],
            buf: [0u8; 64],
            buf_len: 0,
            total_len: 0,
            absorbed: Ghost(Seq::empty()),
        };
        assert(s.h@ =~= SHA256_H0@);
        s
    }

    /// Appends `data` to the message absorbed so far.
    pub fn update(&mut self, data: &[u8])
        requires
            old(self).wf(),
            old(self).message().len() + data@.len() <= MAX_MESSAGE_BYTES,
        ensures
            final(self).wf(),
            final(self).message() == old(self).message() + data@,
            final(self).chaining_value() == compress_blocks(
                old(self).chaining_value(),
                old(self).pending() + data@,
                ((old(self).pending() + data@).len() / 64) as nat,
            ),
            final(self).pending() == (old(self).pending() + data@).subrange(
                64 * ((old(self).pending() + data@).len() / 64) as int,
                (old(self).pending() + data@).len() as int,
            ),
            final(self).pending().len() < 64,
    {
        let ghost m0 = self.absorbed@;
        let ghost old_pending = old(self).pending();
        let ghost old_chain = old(self).chaining_value();
        proof {
            self.lemma_state_determined_by_message(self);
        }
        let ghost q0: int = (m0.len() / 64) as int;
        self.total_len = self.total_len + data.len() as u64;
        let mut pos: usize = 0;
        if self.buf_len > 0 {
            let need = 64 - self.buf_len;
            let take = if need < data.len() {
                need
            } else {
                data.len()
            };
            let start = self.buf_len;
            let mut j: usize = 0;
            while j < take
                invariant
                    0 <= j <= take,
                    start + take <= 64,
                    take <= data.len(),
                    start == self.buf_len,
                    self.h == old(self).h,
                    self.total_len == m0.len() + data@.len(),
                    forall|x: int| 0 <= x < start ==> self.buf@[x] == old(self).buf@[x],
                    forall|x: int| 0 <= x < j ==> self.buf@[start + x] == data@[x],
                decreases take - j,
            {
                self.buf[start + j] = data[j];
                j += 1;
            }
            self.buf_len = start + take;
            pos = take;
            let ghost cur = m0 + data@.subrange(0, pos as int);
            assert forall|x: int| 0 <= x < self.buf_len implies self.buf@[x] == cur[64 * q0 + x] by {
                if x >= start {
                    assert(cur[64 * q0 + x] == data@[x - start]);
                }
            }
            if self.buf_len == 64 {
                let block = self.buf;
                proof {
                    assert(cur.len() == 64 * q0 + 64);
                    assert(block@ =~= cur.subrange(64 * q0, 64 * q0 + 64));
                    assert(cur.subrange(0, 64 * q0) =~= m0.subrange(0, 64 * q0));
                    lemma_hash_blocks_prefix(cur, m0, q0 as nat);
                    assert(hash_blocks(cur, (q0 + 1) as nat) == compress_spec(
                        hash_blocks(cur, q0 as nat),
                        cur.subrange(64 * q0, 64 * q0 + 64),
                    ));
                }
                let mut h = self.h;
                Self::compress(&mut h, &block);
                self.h = h;
                self.buf_len = 0;
            } else {
                proof {
                    if pos < data.len() {
                        assert(take == need);
                    }
                    assert(cur.subrange(0, 64 * q0) =~= m0.subrange(0, 64 * q0));
                    lemma_hash_blocks_prefix(cur, m0, q0 as nat);
                }
            }
        }
        while data.len() - pos >= 64
            invariant
                pos <= data.len(),
                m0.len() + data@.len() <= MAX_MESSAGE_BYTES,
                self.total_len == m0.len() + data@.len(),
                self.buf_len < 64,
                self.buf_len == (m0 + data@.subrange(0, pos as int)).len() % 64,
                self.buf_len > 0 ==> pos == data.len(),
                self.h@ == hash_blocks(
                    m0 + data@.subrange(0, pos as int),
                    (m0 + data@.subrange(0, pos as int)).len() / 64,
                ),
                forall|x: int|
                    0 <= x < self.buf_len ==> #[trigger] self.buf@[x] == (m0 + data@.subrange(
                        0,
                        pos as int,
                    ))[64 * ((m0 + data@.subrange(0, pos as int)).len() / 64) + x],
            decreases data.len() - pos,
        {
            let ghost cur = m0 + data@.subrange(0, pos as int);
            let ghost q: int = (cur.len() / 64) as int;
            let mut block = [0u8; 64];
            let mut j: usize = 0;
            while j < 64
                invariant
                    0 <= j <= 64,
                    pos + 64 <= data.len(),
                    forall|x: int| 0 <= x < j ==> block@[x] == data@[pos + x],
                decreases 64 - j,
            {
                block[j] = data[pos + j];
                j += 1;
            }
            let ghost next = m0 + data@.subrange(0, pos + 64);
            proof {
                assert(cur.len() == 64 * q);
                assert(next.len() == 64 * q + 64);
                assert(block@ =~= next.subrange(64 * q, 64 * q + 64));
                assert(next.subrange(0, 64 * q) =~= cur.subrange(0, 64 * q));
                lemma_hash_blocks_prefix(next, cur, q as nat);
                assert(hash_blocks(next, (q + 1) as nat) == compress_spec(
                    hash_blocks(next, q as nat),
                    next.subrange(64 * q, 64 * q + 64),
                ));
            }
            let mut h = self.h;
            Self::compress(&mut h, &block);
            self.h = h;
            pos = pos + 64;
        }
        if pos < data.len() {
            let ghost cur = m0 + data@.subrange(0, pos as int);
            let ghost q: int = (cur.len() / 64) as int;
            let rest = data.len() - pos;
            let ghost h_before = self.h;
            let mut j: usize = 0;
            while j < rest
                invariant
                    0 <= j <= rest,
                    rest < 64,
                    pos + rest == data.len(),
                    self.h == h_before,
                    self.total_len == m0.len() + data@.len(),
                    forall|x: int| 0 <= x < j ==> self.buf@[x] == data@[pos + x],
                decreases rest - j,
            {
                self.buf[j] = data[j + pos];
                j += 1;
            }
            self.buf_len = rest;
            proof {
                let full = m0 + data@;
                assert(full =~= m0 + data@.subrange(0, data@.len() as int));
                assert(cur.len() == 64 * q);
                assert(full.len() / 64 == q);
                assert(full.subrange(0, 64 * q) =~= cur.subrange(0, 64 * q));
                lemma_hash_blocks_prefix(full, cur, q as nat);
                assert forall|x: int| 0 <= x < self.buf_len implies self.buf@[x] == full[64 * q + x] by {
                    assert(full[64 * q + x] == data@[pos + x]);
                }
            }
        } else {
            assert(data@.subrange(0, pos as int) =~= data@);
        }
        self.absorbed = Ghost(m0 + data@);
        proof {
            self.lemma_state_determined_by_message(self);
            lemma_update_blocks(m0, data@, old_pending, old_chain);
        }
    }

    /// Absorbing `a` and then `b` leaves the hasher in the state that absorbing `a + b` at
    /// once does, and absorbing nothing changes nothing: the same chaining value and the
    /// same pending bytes.
    pub proof fn lemma_split_updates(
        start: &Self,
        after_a: &Self,
        after_ab: &Self,
        at_once: &Self,
        a: Seq<u8>,
        b: Seq<u8>,
    )
        requires
            start.wf(),
            after_a.wf(),
            after_ab.wf(),
            at_once.wf(),
            after_a.message() == start.message() + a,
            after_ab.message() == after_a.message() + b,
            at_once.message() == start.message() + (a + b),
        ensures
            after_ab.chaining_value() == at_once.chaining_value(),
            after_ab.pending() == at_once.pending(),
            after_ab.message() == at_once.message(),
            a.len() == 0 ==> after_a.chaining_value() == start.chaining_value()
                && after_a.pending() == start.pending(),
    {
        assert(after_ab.message() =~= at_once.message());
        after_ab.lemma_state_determined_by_message(at_once);
        if a.len() == 0 {
            assert(after_a.message() =~= start.message());
            after_a.lemma_state_determined_by_message(start);
        }
    }

    /// Pads the message, absorbs the last block(s) and returns the digest as
    /// 64 lower-case hexadecimal characters.
    pub fn finalize_hex(self) -> (out: String)
        requires
            self.wf(),
        ensures
            out@ == sha256_hex_spec(self.message()),
    {
        let ghost m = self.absorbed@;
        let ghost len = m.len();
        let ghost q: int = (len / 64) as int;
        let ghost r: int = (len % 64) as int;
        let ghost p = pad(m);
        let bit_len: u64 = self.total_len * 8;
        let mut buf = self.buf;
        let mut h = self.h;
        let mut idx = self.buf_len;
        buf[idx] = 0x80;
        idx += 1;
        assert(len == 64 * q + r);
        assert(p.len() == len + 1 + zero_count(len) + 8);
        if idx <= 56 {
            while idx < 56
                invariant
                    r + 1 <= idx <= 56,
                    r == self.buf_len,
                    buf@[r] == 0x80u8,
                    forall|x: int| 0 <= x < r ==> buf@[x] == self.buf@[x],
                    forall|x: int| r < x < idx ==> buf@[x] == 0u8,
                decreases 56 - idx,
            {
                buf[idx] = 0;
                idx += 1;
            }
        } else {
            while idx < 64
                invariant
                    r + 1 <= idx <= 64,
                    r == self.buf_len,
                    buf@[r] == 0x80u8,
                    forall|x: int| 0 <= x < r ==> buf@[x] == self.buf@[x],
                    forall|x: int| r < x < idx ==> buf@[x] == 0u8,
                decreases 64 - idx,
            {
                buf[idx] = 0;
                idx += 1;
            }
            let block = buf;
            proof {
                assert(p.len() == 64 * q + 128);
                assert forall|x: int| 0 <= x < 64 implies block@[x] == p[64 * q + x] by {
                    if x < r {
                        assert(p[64 * q + x] == m[64 * q + x]);
                    }
                }
                assert(block@ =~= p.subrange(64 * q, 64 * q + 64));
                assert(p.subrange(0, 64 * q) =~= m.subrange(0, 64 * q));
                lemma_hash_blocks_prefix(p, m, q as nat);
                assert(hash_blocks(p, (q + 1) as nat) == compress_spec(
                    hash_blocks(p, q as nat),
                    p.subrange(64 * q, 64 * q + 64),
                ));
            }
            Self::compress(&mut h, &block);
            buf = [0u8; 64];
        }
        buf[56] = (bit_len >> 56u64) as u8;
        buf[57] = (bit_len >> 48u64) as u8;
        buf[58] = (bit_len >> 40u64) as u8;
        buf[59] = (bit_len >> 32u64) as u8;
        buf[60] = (bit_len >> 24u64) as u8;
        buf[61] = (bit_len >> 16u64) as u8;
        buf[62] = (bit_len >> 8u64) as u8;
        buf[63] = bit_len as u8;
        let block = buf;
        proof {
            let nb: int = (p.len() / 64) as int;
            let tail = be_u64((len * 8) as u64);
            assert(bit_len == (len * 8) as u64);
            if r < 56 {
                assert(p.len() == 64 * q + 64);
                assert(nb == q + 1);
                assert forall|x: int| 0 <= x < 64 implies block@[x] == p[64 * q + x] by {
                    if x < r {
                        assert(p[64 * q + x] == m[64 * q + x]);
                    } else if x >= 56 {
                        assert(p[64 * q + x] == tail[x - 56]);
                    }
                }
                assert(p.subrange(0, 64 * q) =~= m.subrange(0, 64 * q));
                lemma_hash_blocks_prefix(p, m, q as nat);
            } else {
                assert(nb == q + 2);
                assert forall|x: int| 0 <= x < 64 implies block@[x] == p[64 * q + 64 + x] by {
                    if x >= 56 {
                        assert(p[64 * q + 64 + x] == tail[x - 56]);
                    }
                }
            }
            assert(block@ =~= p.subrange(64 * (nb - 1), 64 * nb));
            assert(hash_blocks(p, nb as nat) == compress_spec(
                hash_blocks(p, (nb - 1) as nat),
                p.subrange(64 * (nb - 1), 64 * nb),
            ));
        }
        Self::compress(&mut h, &block);
        let ghost digest = h@;
        assert(digest == sha256(m));
        let mut out = String::new();
        let mut i: usize = 0;
        while i < 8
            invariant
                0 <= i <= 8,
                h@ == digest,
                digest.len() == 8,
                out@ == hex_words(digest.subrange(0, i as int)),
            decreases 8 - i,
        {
            push_hex_u32(&mut out, h[i]);
            assert(digest.subrange(0, i + 1).drop_last() =~= digest.subrange(0, i as int));
            i += 1;
        }
        assert(digest.subrange(0, 8) =~= digest);
        out
    }

    /// Absorbs one 64-byte block into the chaining value `h`.
    pub fn compress(h: &mut [u32; 8], block: &[u8; 64])
        ensures
            final(h)@ == compress_spec(old(h)@, block@),
    {
        let ghost b = block@;
        let mut w = [0u32; 64];
        let mut i: usize = 0;
        while i < 64
            invariant
                0 <= i <= 64,
                b == block@,
                w@.len() == 64,
                w@.subrange(0, i as int) == schedule(b, i as nat),
            decreases 64 - i,
        {
            proof {
                lemma_schedule_len(b, i as nat);
            }
            let v = if i < 16 {
                ((block[4 * i] as u32) << 24u32) | ((block[4 * i + 1] as u32) << 16u32) | ((block[4 * i
                    + 2] as u32) << 8u32) | (block[4 * i + 3] as u32)
            } else {
                let x15 = w[i - 15];
                let x2 = w[i - 2];
                let s0 = rotr_exec(x15, 7) ^ rotr_exec(x15, 18) ^ (x15 >> 3u32);
                let s1 = rotr_exec(x2, 17) ^ rotr_exec(x2, 19) ^ (x2 >> 10u32);
                assert(w@[i - 16] == schedule(b, i as nat)[i - 16]);
                assert(w@[i - 15] == schedule(b, i as nat)[i - 15]);
                assert(w@[i - 7] == schedule(b, i as nat)[i - 7]);
                assert(w@[i - 2] == schedule(b, i as nat)[i - 2]);
                w[i - 16].wrapping_add(s0).wrapping_add(w[i - 7]).wrapping_add(s1)
            };
            w[i] = v;
            assert(w@.subrange(0, i + 1) =~= schedule(b, i as nat).push(v));
            i += 1;
        }
        assert(w@ =~= schedule(b, 64));
        let ghost h0 = h@;
        let ghost ws = w@;
        let mut a = h[0];
        let mut bb = h[1];
        let mut c = h[2];
        let mut d = h[3];
        let mut e = h[4];
        let mut f = h[5];
        let mut g = h[6];
        let mut hh = h[7];
        assert(seq![a, bb, c, d, e, f, g, hh] =~= rounds(h0, ws, 0));
        let mut i: usize = 0;
        while i < 64
            invariant
                0 <= i <= 64,
                w@ == ws,
                ws.len() == 64,
                h@ == h0,
                h0.len() == 8,
                seq![a, bb, c, d, e, f, g, hh] == rounds(h0, ws, i as nat),
            decreases 64 - i,
        {
            let s1 = rotr_exec(e, 6) ^ rotr_exec(e, 11) ^ rotr_exec(e, 25);
            let ch = (e & f) ^ ((!e) & g);
            let temp1 = hh.wrapping_add(s1).wrapping_add(ch).wrapping_add(SHA256_K[i]).wrapping_add(
                w[i],
            );
            let s0 = rotr_exec(a, 2) ^ rotr_exec(a, 13) ^ rotr_exec(a, 22);
            let maj = (a & bb) ^ (a & c) ^ (bb & c);
            let temp2 = s0.wrapping_add(maj);
            proof {
                let prev = rounds(h0, ws, i as nat);
                assert(prev[0] == a && prev[1] == bb && prev[2] == c && prev[3] == d);
                assert(prev[4] == e && prev[5] == f && prev[6] == g && prev[7] == hh);
            }
            hh = g;
            g = f;
            f = e;
            e = d.wrapping_add(temp1);
            d = c;
            c = bb;
            bb = a;
            a = temp1.wrapping_add(temp2);
            assert(seq![a, bb, c, d, e, f, g, hh] =~= rounds(h0, ws, (i + 1) as nat));
            i += 1;
        }
        proof {
            lemma_rounds_len(h0, ws, 64);
        }
        let ghost s = rounds(h0, ws, 64);
        assert(s[0] == a && s[1] == bb && s[2] == c && s[3] == d);
        assert(s[4] == e && s[5] == f && s[6] == g && s[7] == hh);
        h[0] = h[0].wrapping_add(a);
        h[1] = h[1].wrapping_add(bb);
        h[2] = h[2].wrapping_add(c);
        h[3] = h[3].wrapping_add(d);
        h[4] = h[4].wrapping_add(e);
        h[5] = h[5].wrapping_add(f);
        h[6] = h[6].wrapping_add(g);
        h[7] = h[7].wrapping_add(hh);
        assert(h@ =~= compress_spec(h0, b));
    }
}

/// Streaming SHA-256 hasher.
pub struct Sha256 {
    h: [u32; 8],
    buf: [u8; 64],
    buf_len: usize,
    total_len: u64,
    absorbed: Ghost<Seq<u8>>,
}

/// The chaining value `h` after compressing the first `n` 64-byte blocks of `p`, in order.
pub open spec fn compress_blocks(h: Seq<u32>, p: Seq<u8>, n: nat) -> Seq<u32>
    decreases n,
{
    if n == 0 {
        h
    } else {
        compress_spec(compress_blocks(h, p, (n - 1) as nat), p.subrange(64 * (n - 1), 64 * (n as int)))
    }
}

/// Hashing the blocks of `q + r`, with `q` made of `k` whole blocks, is hashing `q` and then
/// compressing the blocks of `r`.
proof fn lemma_hash_blocks_split(q: Seq<u8>, r: Seq<u8>, k: nat, j: nat)
    requires
        q.len() == 64 * k,
        64 * j <= r.len(),
    ensures
        hash_blocks(q + r, k + j) == compress_blocks(hash_blocks(q, k), r, j),
    decreases j,
{
    if j == 0 {
        assert((q + r).subrange(0, 64 * k as int) =~= q.subrange(0, 64 * k as int));
        lemma_hash_blocks_prefix(q + r, q, k);
    } else {
        lemma_hash_blocks_split(q, r, k, (j - 1) as nat);
        let n: nat = k + j;
        assert((q + r).subrange(64 * (n - 1), 64 * (n as int)) =~= r.subrange(
            64 * (j - 1),
            64 * (j as int),
        ));
        assert((k + j - 1) as nat == k + (j - 1) as nat);
    }
}

/// Appending `data` to a message `m0` whose pending bytes are `pending` and whose chaining
/// value is `chain`: the new chaining value compresses the blocks of `pending + data`, and
/// the new pending bytes are what is left of them.
proof fn lemma_update_blocks(m0: Seq<u8>, data: Seq<u8>, pending: Seq<u8>, chain: Seq<u32>)
    requires
        pending == m0.subrange(64 * (m0.len() / 64) as int, m0.len() as int),
        chain == hash_blocks(m0, m0.len() / 64),
    ensures
        hash_blocks(m0 + data, (m0 + data).len() / 64) == compress_blocks(
            chain,
            pending + data,
            ((pending + data).len() / 64) as nat,
        ),
        (m0 + data).subrange(64 * ((m0 + data).len() / 64) as int, (m0 + data).len() as int)
            == (pending + data).subrange(
            64 * ((pending + data).len() / 64) as int,
            (pending + data).len() as int,
        ),
{
    let k0: int = (m0.len() / 64) as int;
    let q = m0.subrange(0, 64 * k0);
    let r = pending + data;
    let full = m0 + data;
    assert(full =~= q + r);
    let j: int = (r.len() / 64) as int;
    assert(full.len() / 64 == k0 + j);
    lemma_hash_blocks_split(q, r, k0 as nat, j as nat);
    assert(q.subrange(0, 64 * k0) =~= m0.subrange(0, 64 * k0));
    lemma_hash_blocks_prefix(q, m0, k0 as nat);
    assert(full.subrange(64 * (k0 + j), full.len() as int) =~= r.subrange(64 * j, r.len() as int));
}

/// The longest message, in bytes, whose length in bits fits the 64-bit length field.
pub const MAX_MESSAGE_BYTES: u64 = 0x1fff_ffff_ffff_ffff;

/// The chaining value after absorbing the first `n` 64-byte blocks of `msg`.
pub open spec fn hash_blocks(msg: Seq<u8>, n: nat) -> Seq<u32>
    decreases n,
{
    if n == 0 {
        SHA256_H0@
    } else {
        compress_spec(hash_blocks(msg, (n - 1) as nat), msg.subrange(64 * (n - 1), 64 * (n as int)))
    }
}

/// Big-endian bytes of a 64-bit value.
pub open spec fn be_u64(v: u64) -> Seq<u8> {
    seq![
        (v >> 56u64) as u8,
        (v >> 48u64) as u8,
        (v >> 40u64) as u8,
        (v >> 32u64) as u8,
        (v >> 24u64) as u8,
        (v >> 16u64) as u8,
        (v >> 8u64) as u8,
        v as u8,
    ]
}

/// Number of zero bytes between the `0x80` marker and the length field.
pub open spec fn zero_count(len: nat) -> nat {
    let r = len % 64;
    if r < 56 {
        (55 - r) as nat
    } else {
        (119 - r) as nat
    }
}

/// The padded message: `msg`, a `0x80` byte, zeros, and the bit length in 64 bits.
pub open spec fn pad(msg: Seq<u8>) -> Seq<u8> {
    msg + seq![0x80u8] + Seq::new(zero_count(msg.len()), |i: int| 0u8) + be_u64(
        (msg.len() * 8) as u64,
    )
}

/// The SHA-256 digest of `msg`, as eight words.
pub open spec fn sha256(msg: Seq<u8>) -> Seq<u32> {
    hash_blocks(pad(msg), pad(msg).len() / 64)
}

/// A word as eight lower-case hexadecimal digits, most significant first.
pub open spec fn hex_u32(w: u32) -> Seq<char> {
    Seq::new(8, |k: int| hex_digit((w >> ((28 - 4 * k) as u32)) & 0xfu32))
}

/// Words written one after the other as hexadecimal.
pub open spec fn hex_words(ws: Seq<u32>) -> Seq<char>
    decreases ws.len(),
{
    if ws.len() == 0 {
        Seq::empty()
    } else {
        hex_words(ws.drop_last()) + hex_u32(ws.last())
    }
}

/// The SHA-256 digest of `msg` in its usual 64-character hexadecimal form.
pub open spec fn sha256_hex_spec(msg: Seq<u8>) -> Seq<char> {
    hex_words(sha256(msg))
}

proof fn lemma_hash_blocks_prefix(m1: Seq<u8>, m2: Seq<u8>, n: nat)
    requires
        64 * n <= m1.len(),
        64 * n <= m2.len(),
        m1.subrange(0, 64 * n as int) == m2.subrange(0, 64 * n as int),
    ensures
        hash_blocks(m1, n) == hash_blocks(m2, n),
    decreases n,
{
    let e: int = 64 * n as int;
    if n > 0 {
        let k = 64 * (n - 1);
        assert(m1.subrange(0, k) =~= m1.subrange(0, e).subrange(0, k));
        assert(m2.subrange(0, k) =~= m2.subrange(0, e).subrange(0, k));
        lemma_hash_blocks_prefix(m1, m2, (n - 1) as nat);
        assert(m1.subrange(k, e) =~= m1.subrange(0, e).subrange(k, e));
        assert(m2.subrange(k, e) =~= m2.subrange(0, e).subrange(k, e));
    }
}

/// The SHA-256 digest of `data` as 64 lower-case hexadecimal characters.
pub fn sha256_hex(data: &[u8]) -> (out: String)
    requires
        data@.len() <= MAX_MESSAGE_BYTES,
    ensures
        out@ == sha256_hex_spec(data@),
{
    let mut h = Sha256::new();
    h.update(data);
    assert(Seq::<u8>::empty() + data@ =~= data@);
    h.finalize_hex()
}

proof fn lemma_compress_len(h: Seq<u32>, block: Seq<u8>)
    ensures
        compress_spec(h, block).len() == 8,
{
}

proof fn lemma_hash_blocks_len(msg: Seq<u8>, n: nat)
    ensures
        hash_blocks(msg, n).len() == 8,
    decreases n,
{
    if n == 0 {
        assert(SHA256_H0@.len() == 8);
    } else {
        lemma_compress_len(hash_blocks(msg, (n - 1) as nat), msg.subrange(64 * (n - 1), 64 * (n as int)));
    }
}

/// Padding appends between 9 and 72 bytes, keeps the message as a prefix, ends with the
/// message length in bits, and yields a whole number of 64-byte blocks.
pub proof fn lemma_pad_shape(msg: Seq<u8>)
    requires
        msg.len() <= MAX_MESSAGE_BYTES,
    ensures
        pad(msg).len() % 64 == 0,
        msg.len() + 9 <= pad(msg).len() <= msg.len() + 72,
        pad(msg).subrange(0, msg.len() as int) == msg,
        pad(msg)[msg.len() as int] == 0x80u8,
        pad(msg).subrange(pad(msg).len() - 8, pad(msg).len() as int) == be_u64(
            (msg.len() * 8) as u64,
        ),
{
    let p = pad(msg);
    assert(p.subrange(0, msg.len() as int) =~= msg);
    assert(p.subrange(p.len() - 8, p.len() as int) =~= be_u64((msg.len() * 8) as u64));
}

/// A digest is eight words, written as 64 hexadecimal digits.
pub proof fn lemma_digest_len(msg: Seq<u8>)
    ensures
        sha256(msg).len() == 8,
        sha256_hex_spec(msg).len() == 64,
        forall|i: int|
            0 <= i < 64 ==> HEX_DIGITS@.contains(#[trigger] sha256_hex_spec(msg)[i]),
{
    lemma_hash_blocks_len(pad(msg), pad(msg).len() / 64);
    lemma_hex_words_len(sha256(msg));
    lemma_hex_words_digits(sha256(msg));
}

proof fn lemma_hex_u32_digits(w: u32)
    ensures
        forall|k: int| 0 <= k < 8 ==> HEX_DIGITS@.contains(#[trigger] hex_u32(w)[k]),
{
    assert forall|k: int| 0 <= k < 8 implies HEX_DIGITS@.contains(#[trigger] hex_u32(w)[k]) by {
        let sh = (28 - 4 * k) as u32;
        assert(((w >> sh) & 0xfu32) < 16) by (bit_vector);
        let n = ((w >> sh) & 0xfu32) as int;
        assert(HEX_DIGITS@[n] == hex_u32(w)[k]);
    }
}

proof fn lemma_hex_words_digits(ws: Seq<u32>)
    ensures
        forall|i: int|
            0 <= i < hex_words(ws).len() ==> HEX_DIGITS@.contains(#[trigger] hex_words(ws)[i]),
    decreases ws.len(),
{
    if ws.len() > 0 {
        lemma_hex_words_digits(ws.drop_last());
        lemma_hex_u32_digits(ws.last());
        lemma_hex_words_len(ws.drop_last());
        let a = hex_words(ws.drop_last());
        let b = hex_u32(ws.last());
        assert forall|i: int| 0 <= i < hex_words(ws).len() implies HEX_DIGITS@.contains(
            #[trigger] hex_words(ws)[i],
        ) by {
            if i < a.len() {
                assert(hex_words(ws)[i] == a[i]);
            } else {
                assert(hex_words(ws)[i] == b[i - a.len()]);
            }
        }
    }
}

proof fn lemma_hex_words_len(ws: Seq<u32>)
    ensures
        hex_words(ws).len() == 8 * ws.len(),
    decreases ws.len(),
{
    if ws.len() > 0 {
        lemma_hex_words_len(ws.drop_last());
    }
}

fn push_hex_u32(out: &mut String, w: u32)
    ensures
        final(out)@ == old(out)@ + hex_u32(w),
{
    let ghost start = out@;
    let mut k: u32 = 0;
    while k < 8
        invariant
            0 <= k <= 8,
            out@ == start + hex_u32(w).subrange(0, k as int),
        decreases 8 - k,
    {
        let sh: u32 = 28 - 4 * k;
        let nib = (w >> sh) & 0xfu32;
        assert(((w >> sh) & 0xfu32) < 16) by (bit_vector);
        let c = HEX_DIGITS[nib as usize];
        push_char(out, c);
        assert(out@ =~= start + hex_u32(w).subrange(0, k + 1));
        k += 1;
    }
    assert(hex_u32(w).subrange(0, 8) =~= hex_u32(w));
}

} // verus!
