//! What holds of the digest, of the padding and of a computation, whatever
//! the message.

use crate::lemmas::lemma_padding_len;
use crate::md5::MachineView;
use crate::spec::{bit_length, digest, le_bytes_u64, padded, padding};
use vstd::prelude::*;

verus! {

/// A digest has sixteen bytes.
pub proof fn lemma_digest_len(msg: Seq<u8>)
    ensures
        digest(msg).len() == 16,
{
}

/// The padded message is a whole number of 64-byte blocks, and has room
/// for more than the message and the eight bytes of the length field.
pub proof fn lemma_padded_len(msg: Seq<u8>)
    ensures
        padded(msg).len() % 64 == 0,
        padded(msg).len() > msg.len() + 8,
{
    lemma_padding_len(msg.len());
}

/// No multiple of 64 that is greater than the length of the message plus 8
/// is smaller than the length of the padded message.
pub proof fn lemma_padded_len_least(msg: Seq<u8>, m: nat)
    requires
        m % 64 == 0,
        m > msg.len() + 8,
    ensures
        padded(msg).len() <= m,
{
    lemma_padding_len(msg.len());
}

/// How the padded message is laid out: the message, the marker byte `0x80`,
/// zero bytes, and in the last eight bytes the length of the message in
/// bits, modulo 2^64, least significant byte first.
pub proof fn lemma_padded_layout(msg: Seq<u8>)
    ensures
        padded(msg).take(msg.len() as int) == msg,
        padded(msg)[msg.len() as int] == 0x80,
        forall|i: int| msg.len() < i < padded(msg).len() - 8 ==> padded(msg)[i] == 0,
        padded(msg).skip(padded(msg).len() - 8) == le_bytes_u64(bit_length(msg.len())),
        bit_length(msg.len()) == (msg.len() * 8) % 0x1_0000_0000_0000_0000,
{
    reveal(padding);
    lemma_padding_len(msg.len());
    assert(padded(msg).take(msg.len() as int) =~= msg);
    assert(padded(msg).skip(padded(msg).len() - 8) =~= le_bytes_u64(bit_length(msg.len())));
}

/// The digest of a finished computation depends on nothing but the message:
/// two computations that have taken the same bytes end in the same state and
/// report the same digest, and it is the digest of the message.
pub proof fn lemma_digest_determined(v1: MachineView, v2: MachineView)
    requires
        v1.valid(),
        v2.valid(),
        v1.finished,
        v2.finished,
        v1.message == v2.message,
    ensures
        v1.state == v2.state,
        v1.digest() == v2.digest(),
        v1.digest() == digest(v1.message),
{
}

/// It makes no difference in how many reads, and of what sizes, the bytes
/// of a message are handed over: after `reads`, one after another, a
/// computation stands where it stands after one read that brings all their
/// bytes at once.
pub proof fn lemma_reads_as_one(v: MachineView, reads: Seq<Seq<u8>>)
    requires
        v.valid(),
    ensures
        v.after_updates(reads) == v.after_update(reads.flatten()),
    decreases reads.len(),
{
    if reads.len() == 0 {
        assert(v.message + reads.flatten() =~= v.message);
    } else {
        let first = reads.first();
        let rest = reads.drop_first();
        lemma_reads_as_one(v.after_update(first), rest);
        assert((v.message + first) + rest.flatten() =~= v.message + reads.flatten());
    }
}

/// A computation that starts afresh, takes `reads` one after another and is
/// then asked for the digest reports the digest of all their bytes in order.
pub proof fn lemma_digest_of_reads(reads: Seq<Seq<u8>>)
    ensures
        MachineView::initial().after_updates(reads).after_sum().digest() == digest(
            reads.flatten(),
        ),
{
    lemma_reads_as_one(MachineView::initial(), reads);
    assert(Seq::<u8>::empty() + reads.flatten() =~= reads.flatten());
}

} // verus!
