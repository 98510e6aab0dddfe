//! SHA-256, for deriving addresses from seeds.

use vstd::prelude::*;

verus! {

// SHA-256 (FIPS 180-4) over byte strings.

pub open spec fn spec_rotr(x: u32, n: u32) -> u32 {
    (x >> n) | (x << (32 - n))
}

pub open spec fn spec_ch(x: u32, y: u32, z: u32) -> u32 {
    (x & y) ^ (!x & z)
}

pub open spec fn spec_maj(x: u32, y: u32, z: u32) -> u32 {
    (x & y) ^ (x & z) ^ (y & z)
}

pub open spec fn spec_big_sigma0(x: u32) -> u32 {
    spec_rotr(x, 2) ^ spec_rotr(x, 13) ^ spec_rotr(x, 22)
}

pub open spec fn spec_big_sigma1(x: u32) -> u32 {
    spec_rotr(x, 6) ^ spec_rotr(x, 11) ^ spec_rotr(x, 25)
}

pub open spec fn spec_small_sigma0(x: u32) -> u32 {
    spec_rotr(x, 7) ^ spec_rotr(x, 18) ^ (x >> 3)
}

pub open spec fn spec_small_sigma1(x: u32) -> u32 {
    spec_rotr(x, 17) ^ spec_rotr(x, 19) ^ (x >> 10)
}

/// The 64 round constants.
pub open spec fn round_constants() -> [u32; 64] {
    K_TABLE
}

/// The initial hash value.
pub open spec fn initial_hash() -> [u32; 8] {
    H_TABLE
}

/// Number of zero bytes between the 0x80 marker and the length field.
pub open spec fn pad_zeros(len: nat) -> nat {
    if len % 64 <= 55 {
        (55 - len % 64) as nat
    } else {
        (119 - len % 64) as nat
    }
}

pub open spec fn be_u64_bytes(x: u64) -> Seq<u8> {
    seq![
        (x >> 56) as u8,
        (x >> 48) as u8,
        (x >> 40) as u8,
        (x >> 32) as u8,
        (x >> 24) as u8,
        (x >> 16) as u8,
        (x >> 8) as u8,
        x as u8,
    ]
}

/// The padded message: the bytes, 0x80, zeros, and the bit length big-endian,
/// a multiple of 64 bytes long.
pub open spec fn padded(m: Seq<u8>) -> Seq<u8> {
    m + seq![0x80u8] + Seq::new(pad_zeros(m.len()), |i: int| 0u8) + be_u64_bytes((m.len() * 8) as u64)
}

/// The big-endian word at byte `off` of a block.
pub open spec fn be_word(b: Seq<u8>, off: int) -> u32 {
    ((b[off] as u32) << 24) | ((b[off + 1] as u32) << 16) | ((b[off + 2] as u32) << 8) | (b[off + 3] as u32)
}

/// Word `t` of the message schedule of a 64-byte block.
pub open spec fn schedule(block: Seq<u8>, t: int) -> u32
    decreases t,
{
    if t < 16 {
        be_word(block, 4 * t)
    } else if t < 64 {
        spec_small_sigma1(schedule(block, t - 2)).wrapping_add(schedule(block, t - 7)).wrapping_add(
            spec_small_sigma0(schedule(block, t - 15)),
        ).wrapping_add(schedule(block, t - 16))
    } else {
        0
    }
}

/// One compression round on the working variables `s` (a..h).
pub open spec fn round(s: Seq<u32>, k: u32, w: u32) -> Seq<u32> {
    let t1 = s[7].wrapping_add(spec_big_sigma1(s[4])).wrapping_add(spec_ch(s[4], s[5], s[6])).wrapping_add(k).wrapping_add(w);
    let t2 = spec_big_sigma0(s[0]).wrapping_add(spec_maj(s[0], s[1], s[2]));
    seq![t1.wrapping_add(t2), s[0], s[1], s[2], s[3].wrapping_add(t1), s[4], s[5], s[6]]
}

/// The working variables after the first `t` rounds on `block`, from `h`.
pub open spec fn rounds(h: Seq<u32>, block: Seq<u8>, t: int) -> Seq<u32>
    decreases t,
{
    if t <= 0 {
        h
    } else {
        round(rounds(h, block, t - 1), round_constants()[t - 1], schedule(block, t - 1))
    }
}

/// The hash value after compressing one block into `h`.
pub open spec fn compress(h: Seq<u32>, block: Seq<u8>) -> Seq<u32> {
    let v = rounds(h, block, 64);
    Seq::new(8, |i: int| h[i].wrapping_add(v[i]))
}

/// The hash value after the first `n` blocks of `p`.
pub open spec fn hash_blocks(p: Seq<u8>, n: int) -> Seq<u32>
    decreases n,
{
    if n <= 0 {
        initial_hash()@
    } else {
        compress(hash_blocks(p, n - 1), p.subrange(64 * (n - 1), 64 * n))
    }
}

pub open spec fn word_bytes(h: Seq<u32>) -> Seq<u8> {
    Seq::new(32, |j: int| (h[j / 4] >> (24 - 8 * (j % 4)) as u32) as u8)
}

/// The SHA-256 digest of a message.
pub open spec fn sha256(m: Seq<u8>) -> Seq<u8> {
    let p = padded(m);
    word_bytes(hash_blocks(p, (p.len() / 64) as int))
}

pub const K_TABLE: [u32; 64] = [
        0x428a2f98, 0x71374491, 0xb5c0fbcf, 0xe9b5dba5,
        0x3956c25b, 0x59f111f1, 0x923f82a4, 0xab1c5ed5,
        0xd807aa98, 0x12835b01, 0x243185be, 0x550c7dc3,
        0x72be5d74, 0x80deb1fe, 0x9bdc06a7, 0xc19bf174,
        0xe49b69c1, 0xefbe4786, 0x0fc19dc6, 0x240ca1cc,
        0x2de92c6f, 0x4a7484aa, 0x5cb0a9dc, 0x76f988da,
        0x983e5152, 0xa831c66d, 0xb00327c8, 0xbf597fc7,
        0xc6e00bf3, 0xd5a79147, 0x06ca6351, 0x14292967,
        0x27b70a85, 0x2e1b2138, 0x4d2c6dfc, 0x53380d13,
        0x650a7354, 0x766a0abb, 0x81c2c92e, 0x92722c85,
        0xa2bfe8a1, 0xa81a664b, 0xc24b8b70, 0xc76c51a3,
        0xd192e819, 0xd6990624, 0xf40e3585, 0x106aa070,
        0x19a4c116, 0x1e376c08, 0x2748774c, 0x34b0bcb5,
        0x391c0cb3, 0x4ed8aa4a, 0x5b9cca4f, 0x682e6ff3,
        0x748f82ee, 0x78a5636f, 0x84c87814, 0x8cc70208,
        0x90befffa, 0xa4506ceb, 0xbef9a3f7, 0xc67178f2,
    ];

pub const H_TABLE: [u32; 8] = [
        0x6a09e667, 0xbb67ae85, 0x3c6ef372, 0xa54ff53a,
        0x510e527f, 0x9b05688c, 0x1f83d9ab, 0x5be0cd19,
    ];

fn rotr(x: u32, n: u32) -> (r: u32)
    requires
        0 < n < 32,
    ensures
        r == spec_rotr(x, n),
{
    (x >> n) | (x << (32 - n))
}

fn ch(x: u32, y: u32, z: u32) -> (r: u32)
    ensures
        r == spec_ch(x, y, z),
{
    (x & y) ^ (!x & z)
}

fn maj(x: u32, y: u32, z: u32) -> (r: u32)
    ensures
        r == spec_maj(x, y, z),
{
    (x & y) ^ (x & z) ^ (y & z)
}

fn big_sigma0(x: u32) -> (r: u32)
    ensures
        r == spec_big_sigma0(x),
{
    rotr(x, 2) ^ rotr(x, 13) ^ rotr(x, 22)
}

fn big_sigma1(x: u32) -> (r: u32)
    ensures
        r == spec_big_sigma1(x),
{
    rotr(x, 6) ^ rotr(x, 11) ^ rotr(x, 25)
}

fn small_sigma0(x: u32) -> (r: u32)
    ensures
        r == spec_small_sigma0(x),
{
    rotr(x, 7) ^ rotr(x, 18) ^ (x >> 3)
}

fn small_sigma1(x: u32) -> (r: u32)
    ensures
        r == spec_small_sigma1(x),
{
    rotr(x, 17) ^ rotr(x, 19) ^ (x >> 10)
}

fn pad_message(data: &[u8]) -> (p: Vec<u8>)
    requires
        data@.len() * 8 <= u64::MAX,
    ensures
        p@ == padded(data@),
        p@.len() % 64 == 0,
{
    let len = data.len();
    let mut p: Vec<u8> = Vec::new();
    let mut i: usize = 0;
    while i < len
        invariant
            i <= len,
            len == data@.len(),
            p@ == data@.subrange(0, i as int),
        decreases len - i,
    {
        p.push(data[i]);
        i = i + 1;
        assert(p@ =~= data@.subrange(0, i as int));
    }
    assert(data@.subrange(0, len as int) =~= data@);
    p.push(0x80u8);
    let rem = len % 64;
    let zeros: usize = if rem <= 55 { 55 - rem } else { 119 - rem };
    let mut j: usize = 0;
    while j < zeros
        invariant
            j <= zeros,
            zeros == pad_zeros(len as nat),
            len == data@.len(),
            p@ == data@ + seq![0x80u8] + Seq::new(j as nat, |i: int| 0u8),
        decreases zeros - j,
    {
        p.push(0u8);
        j = j + 1;
        assert(p@ =~= data@ + seq![0x80u8] + Seq::new(j as nat, |i: int| 0u8));
    }
    let bits: u64 = (len as u64) * 8;
    p.push((bits >> 56) as u8);
    p.push((bits >> 48) as u8);
    p.push((bits >> 40) as u8);
    p.push((bits >> 32) as u8);
    p.push((bits >> 24) as u8);
    p.push((bits >> 16) as u8);
    p.push((bits >> 8) as u8);
    p.push(bits as u8);
    assert(p@ =~= padded(data@));
    p
}

fn load_word(p: &Vec<u8>, off: usize) -> (r: u32)
    requires
        off + 4 <= p@.len(),
    ensures
        r == be_word(p@, off as int),
{
    let len = p.len();
    ((p[off] as u32) << 24) | ((p[off + 1] as u32) << 16) | ((p[off + 2] as u32) << 8) | (p[off + 3] as u32)
}

proof fn lemma_block_word(p: Seq<u8>, base: int, t: int)
    requires
        0 <= base,
        base + 64 <= p.len(),
        0 <= t < 16,
    ensures
        be_word(p, base + 4 * t) == be_word(p.subrange(base, base + 64), 4 * t),
{
}

/// Compresses the block of `p` at byte `base` into `h`.
fn compress_block(h: &mut [u32; 8], p: &Vec<u8>, base: usize)
    requires
        base + 64 <= p@.len(),
    ensures
        final(h)@ == compress(old(h)@, p@.subrange(base as int, base + 64)),
{
    let ghost block = p@.subrange(base as int, base + 64);
    let plen = p.len();
    let k = K_TABLE;
    let mut w: [u32; 64] = [0u32; 64];
    let mut t: usize = 0;
    while t < 16
        invariant
            t <= 16,
            base + 64 <= p@.len(),
            plen == p@.len(),
            block == p@.subrange(base as int, base + 64),
            forall|j: int| 0 <= j < t ==> w[j] == schedule(block, j),
        decreases 16 - t,
    {
        proof {
            lemma_block_word(p@, base as int, t as int);
        }
        w[t] = load_word(p, base + 4 * t);
        t = t + 1;
    }
    while t < 64
        invariant
            16 <= t <= 64,
            forall|j: int| 0 <= j < t ==> w[j] == schedule(block, j),
        decreases 64 - t,
    {
        assert(w[t - 2] == schedule(block, t - 2));
        assert(w[t - 7] == schedule(block, t - 7));
        assert(w[t - 15] == schedule(block, t - 15));
        assert(w[t - 16] == schedule(block, t - 16));
        let s1 = small_sigma1(w[t - 2]);
        let s0 = small_sigma0(w[t - 15]);
        let next = s1.wrapping_add(w[t - 7]).wrapping_add(s0).wrapping_add(w[t - 16]);
        assert(next == schedule(block, t as int));
        w[t] = next;
        t = t + 1;
    }
    let mut a = h[0];
    let mut b = h[1];
    let mut c = h[2];
    let mut d = h[3];
    let mut e = h[4];
    let mut f = h[5];
    let mut g = h[6];
    let mut hh = h[7];
    let ghost h0 = h@;
    assert(seq![a, b, c, d, e, f, g, hh] =~= rounds(h0, block, 0));
    let mut t: usize = 0;
    while t < 64
        invariant
            t <= 64,
            k == K_TABLE,
            h@ == h0,
            forall|j: int| 0 <= j < 64 ==> w[j] == schedule(block, j),
            seq![a, b, c, d, e, f, g, hh] == rounds(h0, block, t as int),
        decreases 64 - t,
    {
        let t1 = hh.wrapping_add(big_sigma1(e)).wrapping_add(ch(e, f, g)).wrapping_add(k[t]).wrapping_add(w[t]);
        let t2 = big_sigma0(a).wrapping_add(maj(a, b, c));
        hh = g;
        g = f;
        f = e;
        e = d.wrapping_add(t1);
        d = c;
        c = b;
        b = a;
        a = t1.wrapping_add(t2);
        t = t + 1;
        assert(seq![a, b, c, d, e, f, g, hh] =~= rounds(h0, block, t as int));
    }
    let ghost v = seq![a, b, c, d, e, f, g, hh];
    h[0] = h[0].wrapping_add(a);
    h[1] = h[1].wrapping_add(b);
    h[2] = h[2].wrapping_add(c);
    h[3] = h[3].wrapping_add(d);
    h[4] = h[4].wrapping_add(e);
    h[5] = h[5].wrapping_add(f);
    h[6] = h[6].wrapping_add(g);
    h[7] = h[7].wrapping_add(hh);
    assert(h@ =~= compress(h0, block));
}

/// SHA-256 of `data`.
pub fn hash(data: &[u8]) -> (r: [u8; 32])
    requires
        data@.len() * 8 <= u64::MAX,
    ensures
        r@ == sha256(data@),
{
    let p = pad_message(data);
    let plen = p.len();
    let n = plen / 64;
    assert(p@.len() == 64 * n);
    let mut h: [u32; 8] = H_TABLE;
    let mut i: usize = 0;
    while i < n
        invariant
            i <= n,
            plen == p@.len(),
            p@.len() == 64 * n,
            n == p@.len() / 64,
            p@.len() % 64 == 0,
            h@ == hash_blocks(p@, i as int),
        decreases n - i,
    {
        assert(64 * i + 64 <= 64 * n) by (nonlinear_arith)
            requires i < n;
        compress_block(&mut h, &p, 64 * i);
        i = i + 1;
    }
    let mut out: [u8; 32] = [0u8; 32];
    let mut j: usize = 0;
    while j < 32
        invariant
            j <= 32,
            forall|x: int| 0 <= x < j ==> out[x] == word_bytes(h@)[x],
        decreases 32 - j,
    {
        out[j] = (h[j / 4] >> (24 - 8 * (j % 4)) as u32) as u8;
        j = j + 1;
    }
    assert(out@ =~= word_bytes(h@));
    assert(p@ == padded(data@));
    out
}

} // verus!
