//! The MD5 message digest (RFC 1321) as mathematics.
//!
//! Everything here is ghost code. A message is a `Seq<u8>`; it is padded to a
//! whole number of 64-byte blocks, each block is read as sixteen little-endian
//! words, and the blocks are folded one after another into four 32-bit words.
//! The executable code in [`crate::md5`] is proved against these definitions.

use vstd::prelude::*;

verus! {

/// The additive constant of each of the 64 steps.
pub const ROUND_CONSTANTS: [u32; 64] = [
    0xd76aa478, 0xe8c7b756, 0x242070db, 0xc1bdceee,
    0xf57c0faf, 0x4787c62a, 0xa8304613, 0xfd469501,
    0x698098d8, 0x8b44f7af, 0xffff5bb1, 0x895cd7be,
    0x6b901122, 0xfd987193, 0xa679438e, 0x49b40821,
    0xf61e2562, 0xc040b340, 0x265e5a51, 0xe9b6c7aa,
    0xd62f105d, 0x02441453, 0xd8a1e681, 0xe7d3fbc8,
    0x21e1cde6, 0xc33707d6, 0xf4d50d87, 0x455a14ed,
    0xa9e3e905, 0xfcefa3f8, 0x676f02d9, 0x8d2a4c8a,
    0xfffa3942, 0x8771f681, 0x6d9d6122, 0xfde5380c,
    0xa4beea44, 0x4bdecfa9, 0xf6bb4b60, 0xbebfbc70,
    0x289b7ec6, 0xeaa127fa, 0xd4ef3085, 0x04881d05,
    0xd9d4d039, 0xe6db99e5, 0x1fa27cf8, 0xc4ac5665,
    0xf4292244, 0x432aff97, 0xab9423a7, 0xfc93a039,
    0x655b59c3, 0x8f0ccc92, 0xffeff47d, 0x85845dd1,
    0x6fa87e4f, 0xfe2ce6e0, 0xa3014314, 0x4e0811a1,
    0xf7537e82, 0xbd3af235, 0x2ad7d2bb, 0xeb86d391,
];

/// The rotation amounts: four per round, used cyclically within the round.
pub const SHIFTS: [u8; 16] = [7, 12, 17, 22, 5, 9, 14, 20, 4, 11, 16, 23, 6, 10, 15, 21];

/// The four words `A`, `B`, `C`, `D` that a digest computation carries from
/// block to block.
pub struct DigestState {
    pub a: u32,
    pub b: u32,
    pub c: u32,
    pub d: u32,
}

/// The state before the first block.
pub open spec fn init_state() -> DigestState {
    DigestState { a: 0x67452301, b: 0xefcdab89, c: 0x98badcfe, d: 0x10325476 }
}

/// `F(x, y, z)`: bit by bit, `y` where `x` is set and `z` where it is not.
pub open spec fn mix_f(x: u32, y: u32, z: u32) -> u32 {
    (x & y) | ((!x) & z)
}

/// `G(x, y, z)`: bit by bit, `x` where `z` is set and `y` where it is not.
pub open spec fn mix_g(x: u32, y: u32, z: u32) -> u32 {
    (x & z) | (y & (!z))
}

/// `H(x, y, z)`: the parity of the three bits.
pub open spec fn mix_h(x: u32, y: u32, z: u32) -> u32 {
    x ^ y ^ z
}

/// `I(x, y, z)`.
pub open spec fn mix_i(x: u32, y: u32, z: u32) -> u32 {
    y ^ (x | (!z))
}

/// The nonlinear function of step `i` (counted from 0): `F` in the first
/// round of sixteen steps, then `G`, `H` and `I`.
pub open spec fn mix(i: int, x: u32, y: u32, z: u32) -> u32 {
    if i < 16 {
        mix_f(x, y, z)
    } else if i < 32 {
        mix_g(x, y, z)
    } else if i < 48 {
        mix_h(x, y, z)
    } else {
        mix_i(x, y, z)
    }
}

/// Which of the sixteen words of the block step `i` (counted from 0) adds.
pub open spec fn word_index(i: int) -> int {
    if i < 16 {
        i
    } else if i < 32 {
        (5 * i + 1) % 16
    } else if i < 48 {
        (3 * i + 5) % 16
    } else {
        (7 * i) % 16
    }
}

/// By how many bits step `i` (counted from 0) rotates.
pub open spec fn shift_amount(i: int) -> u8 {
    SHIFTS[(i / 16) * 4 + i % 4]
}

/// `x` rotated left by `s` bits within 32 bits, for `0 < s < 32`.
pub open spec fn rotate_left(x: u32, s: u8) -> u32 {
    (x << s) | (x >> ((32 - s) as u8))
}

/// What one step writes: `b + ((a + f + x + t) <<< s)`, every sum modulo 2^32.
pub open spec fn op_result(a: u32, b: u32, f: u32, x: u32, s: u8, t: u32) -> u32 {
    b.wrapping_add(rotate_left(a.wrapping_add(f).wrapping_add(x).wrapping_add(t), s))
}

/// Step `i` (counted from 0) of the transform of one block. The step replaces
/// the word in the role of `a`; the four words then change roles, so that the
/// new word is `b` in the next step.
pub open spec fn step(st: DigestState, block: Seq<u32>, i: int) -> DigestState {
    DigestState {
        a: st.d,
        b: op_result(
            st.a,
            st.b,
            mix(i, st.b, st.c, st.d),
            block[word_index(i)],
            shift_amount(i),
            ROUND_CONSTANTS[i],
        ),
        c: st.b,
        d: st.c,
    }
}

/// The first `n` steps, in order.
pub open spec fn steps(st: DigestState, block: Seq<u32>, n: nat) -> DigestState
    decreases n,
{
    if n == 0 {
        st
    } else {
        step(steps(st, block, (n - 1) as nat), block, n - 1)
    }
}

/// The transform of one block of sixteen words: all 64 steps on a copy of
/// the state, whose four words are then added to the state modulo 2^32.
pub open spec fn compress(st: DigestState, block: Seq<u32>) -> DigestState {
    let w = steps(st, block, 64);
    DigestState {
        a: st.a.wrapping_add(w.a),
        b: st.b.wrapping_add(w.b),
        c: st.c.wrapping_add(w.c),
        d: st.d.wrapping_add(w.d),
    }
}

/// The word whose four bytes, least significant first, are `b0`, `b1`, `b2`
/// and `b3`.
pub open spec fn word_of(b0: u8, b1: u8, b2: u8, b3: u8) -> u32 {
    (b0 as int + b1 as int * 0x100 + b2 as int * 0x1_0000 + b3 as int * 0x100_0000) as u32
}

/// The bytes read as little-endian words, four bytes to a word.
pub open spec fn words(bytes: Seq<u8>) -> Seq<u32> {
    Seq::new(
        bytes.len() / 4,
        |j: int| word_of(bytes[4 * j], bytes[4 * j + 1], bytes[4 * j + 2], bytes[4 * j + 3]),
    )
}

/// The sixteen words of the `n`-th 64-byte block of `bytes` (counted from 0).
pub open spec fn block(bytes: Seq<u8>, n: int) -> Seq<u32> {
    words(bytes.subrange(64 * n, 64 * n + 64))
}

/// The state after the first `n` blocks of `bytes` have been folded into
/// `st`, in order.
pub open spec fn absorb(st: DigestState, bytes: Seq<u8>, n: nat) -> DigestState
    decreases n,
{
    if n == 0 {
        st
    } else {
        compress(absorb(st, bytes, (n - 1) as nat), block(bytes, n - 1))
    }
}

/// The four bytes of `v`, least significant first.
pub open spec fn le_bytes_u32(v: u32) -> Seq<u8> {
    seq![
        (v % 0x100) as u8,
        (v / 0x100 % 0x100) as u8,
        (v / 0x1_0000 % 0x100) as u8,
        (v / 0x100_0000 % 0x100) as u8,
    ]
}

/// The eight bytes of `v`, least significant first.
pub open spec fn le_bytes_u64(v: u64) -> Seq<u8> {
    seq![
        (v % 0x100) as u8,
        (v / 0x100 % 0x100) as u8,
        (v / 0x1_0000 % 0x100) as u8,
        (v / 0x100_0000 % 0x100) as u8,
        (v / 0x1_0000_0000 % 0x100) as u8,
        (v / 0x100_0000_0000 % 0x100) as u8,
        (v / 0x1_0000_0000_0000 % 0x100) as u8,
        (v / 0x100_0000_0000_0000 % 0x100) as u8,
    ]
}

/// The length field of a message of `len` bytes: its length in bits,
/// modulo 2^64.
pub open spec fn bit_length(len: nat) -> u64 {
    ((len * 8) % 0x1_0000_0000_0000_0000) as u64
}

/// How many zero bytes stand between the marker byte and the length field
/// when a message of `len` bytes is padded: the least number that makes the
/// padded length a multiple of 64.
pub open spec fn zero_fill(len: nat) -> nat {
    ((119 - len % 64) % 64) as nat
}

/// What is appended to a message of `len` bytes: the marker byte `0x80`,
/// zero bytes, and the length field in eight bytes, least significant first.
#[verifier::opaque]
pub open spec fn padding(len: nat) -> Seq<u8> {
    seq![0x80u8] + Seq::new(zero_fill(len), |i: int| 0u8) + le_bytes_u64(bit_length(len))
}

/// The message followed by its padding.
pub open spec fn padded(msg: Seq<u8>) -> Seq<u8> {
    msg + padding(msg.len())
}

/// The digest that a final state stands for: its four words, each in four
/// bytes, least significant first.
pub open spec fn digest_bytes(st: DigestState) -> Seq<u8> {
    le_bytes_u32(st.a) + le_bytes_u32(st.b) + le_bytes_u32(st.c) + le_bytes_u32(st.d)
}

/// The MD5 digest of `msg`.
pub open spec fn digest(msg: Seq<u8>) -> Seq<u8> {
    digest_bytes(absorb(init_state(), padded(msg), padded(msg).len() / 64))
}

} // verus!
