//! Facts about the padding and about folding blocks that the proofs of the
//! executable code rest on.

use crate::spec::{
    absorb, bit_length, block, compress, padded, padding, words, zero_fill, DigestState,
};
use vstd::prelude::*;

verus! {

/// How long the padding of a message of `len` bytes is: it fills the last
/// block where at least nine bytes of it are free, and runs to the end of
/// one more block where they are not.
pub proof fn lemma_padding_len(len: nat)
    ensures
        padding(len).len() == zero_fill(len) + 9,
        len % 64 < 56 ==> padding(len).len() == 64 - len % 64,
        len % 64 >= 56 ==> padding(len).len() == 128 - len % 64,
{
    reveal(padding);
}

/// The padding depends on the length of the message modulo 2^64 only.
pub proof fn lemma_padding_wraps(len: nat)
    ensures
        padding(len % 0x1_0000_0000_0000_0000) == padding(len),
{
    reveal(padding);
    let m = len % 0x1_0000_0000_0000_0000;
    assert(m % 64 == len % 64);
    assert((m * 8) % 0x1_0000_0000_0000_0000 == (len * 8) % 0x1_0000_0000_0000_0000);
    assert(bit_length(m) == bit_length(len));
    assert(zero_fill(m) == zero_fill(len));
}

/// How the running length, kept modulo 2^64, follows the message: a counter
/// that stood for `taken` bytes, a whole number of blocks, and is advanced by
/// `count` with wrap-around stands for `taken + count` bytes, and tells how
/// many of them lie in the last block.
pub proof fn lemma_length_step(length: u64, taken: nat, count: nat)
    requires
        length as nat == taken % 0x1_0000_0000_0000_0000,
        taken % 64 == 0,
        count <= 64,
    ensures
        length.wrapping_add(count as u64) as nat == (taken + count) % 0x1_0000_0000_0000_0000,
        length.wrapping_add(count as u64) % 64 == count % 64,
{
}

/// How the end of a message is laid out. Where `input`, fewer than 64 bytes,
/// follows the whole blocks `before`, the padded message is `before`, then
/// `input` with the padding, which makes one block or two.
pub proof fn lemma_end_of_message(before: Seq<u8>, input: Seq<u8>)
    requires
        before.len() % 64 == 0,
        input.len() < 64,
    ensures
        padded(before + input) == before + (input + padding((before + input).len())),
        input.len() < 56 ==> (input + padding((before + input).len())).len() == 64,
        input.len() >= 56 ==> (input + padding((before + input).len())).len() == 128,
{
    let msg = before + input;
    lemma_padding_len(msg.len());
    assert(msg.len() % 64 == input.len());
    assert(padded(msg) =~= before + (input + padding(msg.len())));
}

/// Folding the first `n` blocks looks at the first `64 * n` bytes only.
pub proof fn lemma_absorb_prefix(st: DigestState, s1: Seq<u8>, s2: Seq<u8>, n: nat)
    requires
        64 * n <= s1.len(),
        64 * n <= s2.len(),
        s1.take(64 * n as int) == s2.take(64 * n as int),
    ensures
        absorb(st, s1, n) == absorb(st, s2, n),
    decreases n,
{
    if n > 0 {
        let m = (n - 1) as nat;
        let lo = 64 * m as int;
        let hi = 64 * n as int;
        assert(s1.take(lo) =~= s1.take(hi).take(lo));
        assert(s2.take(lo) =~= s2.take(hi).take(lo));
        lemma_absorb_prefix(st, s1, s2, m);
        assert(s1.subrange(lo, lo + 64) =~= s1.take(hi).skip(lo));
        assert(s2.subrange(lo, lo + 64) =~= s2.take(hi).skip(lo));
        assert(block(s1, m as int) == block(s2, m as int));
    }
}

/// Folding one more block: where `stream` is a whole number of blocks and
/// `chunk` is one block, folding all of `stream + chunk` is folding all of
/// `stream` and then `chunk`.
pub proof fn lemma_absorb_step(st: DigestState, stream: Seq<u8>, chunk: Seq<u8>)
    requires
        stream.len() % 64 == 0,
        chunk.len() == 64,
    ensures
        absorb(st, stream + chunk, (stream + chunk).len() / 64) == compress(
            absorb(st, stream, stream.len() / 64),
            words(chunk),
        ),
{
    let n = stream.len() / 64;
    let all = stream + chunk;
    let lo = 64 * n as int;
    assert(all.len() / 64 == n + 1);
    assert(all.take(lo) =~= stream.take(lo));
    lemma_absorb_prefix(st, all, stream, n);
    assert(all.subrange(lo, lo + 64) =~= chunk);
    assert(block(all, n as int) == words(chunk));
}

} // verus!
