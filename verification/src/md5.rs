//! The block producer and the compression engine.
//!
//! Neither of the two touches a byte source. Whoever reads the source hands
//! over what each read has brought: [`MD5Machine::update`] takes the bytes
//! of a read of any size, and [`MD5Machine::sum`] ends the message and
//! gives its digest. [`MD5Reader`] is the producer underneath, which turns
//! reads of up to 64 bytes into the blocks of the padded message.

use crate::lemmas::{
    lemma_absorb_prefix, lemma_absorb_step, lemma_end_of_message, lemma_length_step,
    lemma_padding_len, lemma_padding_wraps,
};
use crate::spec::{
    absorb, compress, digest_bytes, init_state, le_bytes_u32, le_bytes_u64, mix_f, mix_g, mix_h,
    mix_i, op_result, padded, padding, steps, word_of, words, DigestState, ROUND_CONSTANTS,
    SHIFTS,
};
use vstd::prelude::*;
use vstd::slice::slice_subrange;

verus! {

/// The number of words in a block.
pub const BUFFER_SIZE_WORDS: usize = 16;

/// The number of bytes in a word.
pub const BUFFER_WORD_SIZE: usize = 4;

/// The number of bytes in a block.
pub const BUFFER_SIZE_BYTES: usize = 64;

/// A block as the compression engine takes it: sixteen words.
pub type MD5WordBuffer = [u32; 16];

/// A block as the byte source fills it: 64 bytes.
pub type MD5ByteBuffer = [u8; 64];

/// The one failure that a digest computation meets: a read from the byte
/// source did not succeed.
#[derive(Clone, Copy, Debug, PartialEq, Eq)]
pub struct ReadFailed;

/// The bytes that a read has brought; none where it failed.
pub open spec fn brought(read: Result<&[u8], ReadFailed>) -> Seq<u8> {
    match read {
        Ok(input) => input@,
        Err(_) => Seq::empty(),
    }
}

enum MD5ReaderState {
    Reading,
    Padding(MD5ByteBuffer),
    Done,
}

/// Where a block producer stands.
pub enum Phase {
    /// Still taking bytes of the message.
    Reading,
    /// The message has ended; one block, all padding, is still to be handed
    /// out.
    Padding,
    /// Every block has been handed out.
    Done,
}

/// A block producer as mathematics: the bytes of the message that it has
/// taken so far, and its phase.
pub struct ReaderView {
    pub message: Seq<u8>,
    pub phase: Phase,
}

impl ReaderView {
    /// The producer before any byte.
    pub open spec fn initial() -> ReaderView {
        ReaderView { message: Seq::empty(), phase: Phase::Reading }
    }

    /// What holds of every producer: while it reads, it has taken whole
    /// blocks only; a padding block is pending only where the padding did
    /// not fit into the last block of the message.
    pub open spec fn valid(self) -> bool {
        match self.phase {
            Phase::Reading => self.message.len() % 64 == 0,
            Phase::Padding => self.message.len() % 64 >= 56,
            Phase::Done => true,
        }
    }

    /// The producer after one request for a block, where the read of up to
    /// 64 bytes that a reading producer makes has brought `input`. A read
    /// of fewer than 64 bytes ends the message.
    pub open spec fn next(self, input: Seq<u8>) -> ReaderView {
        match self.phase {
            Phase::Reading => ReaderView {
                message: self.message + input,
                phase: if input.len() == 64 {
                    Phase::Reading
                } else if input.len() < 56 {
                    Phase::Done
                } else {
                    Phase::Padding
                },
            },
            Phase::Padding => ReaderView { message: self.message, phase: Phase::Done },
            Phase::Done => self,
        }
    }

    /// The bytes of all the blocks handed out so far, in order.
    pub open spec fn produced(self) -> Seq<u8> {
        match self.phase {
            Phase::Reading => self.message,
            Phase::Padding => padded(self.message).take(padded(self.message).len() - 64),
            Phase::Done => padded(self.message),
        }
    }

    /// The last block of the padded message: what a producer whose phase is
    /// `Padding` has still to hand out.
    pub open spec fn pending(self) -> Seq<u8> {
        padded(self.message).skip(padded(self.message).len() - 64)
    }

    /// The 64 bytes that one request hands out, where the read of a reading
    /// producer has brought `input`: a whole block of the message as it is,
    /// a last, shorter piece with as much of the padding as fits, and after
    /// that the rest of the padding.
    pub open spec fn handed_out(self, input: Seq<u8>) -> Seq<u8> {
        match self.phase {
            Phase::Reading => if input.len() == 64 {
                input
            } else {
                (input + padding((self.message + input).len())).take(64)
            },
            Phase::Padding => self.pending(),
            Phase::Done => Seq::empty(),
        }
    }

    /// How many blocks at most are still handed out once the message has
    /// ended.
    pub open spec fn blocks_left(self) -> nat {
        match self.phase {
            Phase::Reading => 2,
            Phase::Padding => 1,
            Phase::Done => 0,
        }
    }

    /// The blocks handed out are whole blocks.
    pub proof fn lemma_produced_whole_blocks(self)
        requires
            self.valid(),
        ensures
            self.produced().len() % 64 == 0,
    {
        lemma_padding_len(self.message.len());
    }

    /// Every request of a producer that is not done hands out the next 64
    /// bytes of the stream, and leaves a valid producer.
    pub proof fn lemma_next_produced(self, input: Seq<u8>)
        requires
            self.valid(),
            input.len() <= 64,
        ensures
            self.next(input).valid(),
            self.next(input).produced() == self.produced() + self.handed_out(input),
            !(self.phase is Done) ==> self.handed_out(input).len() == 64,
            self.phase is Reading && 56 <= input.len() < 64 ==> self.next(input).pending() == (input
                + padding((self.message + input).len())).skip(64),
    {
        match self.phase {
            Phase::Reading => {
                if input.len() < 64 {
                    lemma_end_of_message(self.message, input);
                    let tail = input + padding((self.message + input).len());
                    if input.len() < 56 {
                        assert(tail.take(64) =~= tail);
                    } else {
                        assert(self.next(input).produced() =~= self.message + tail.take(64));
                        assert(self.next(input).pending() =~= tail.skip(64));
                    }
                }
            },
            Phase::Padding => {
                lemma_padding_len(self.message.len());
                assert(self.next(input).produced() =~= self.produced() + self.pending());
            },
            Phase::Done => {
                assert(self.produced() + Seq::<u8>::empty() =~= self.produced());
            },
        }
    }
}

/// The block producer: it turns the bytes of a message, as the reads of a
/// byte source bring them, into the padded sequence of 64-byte blocks.
pub struct MD5Reader {
    state: MD5ReaderState,
    length: u64,
    message: Ghost<Seq<u8>>,
}

impl View for MD5Reader {
    type V = ReaderView;

    closed spec fn view(&self) -> ReaderView {
        ReaderView {
            message: self.message@,
            phase: match self.state {
                MD5ReaderState::Reading => Phase::Reading,
                MD5ReaderState::Padding(_) => Phase::Padding,
                MD5ReaderState::Done => Phase::Done,
            },
        }
    }
}

impl MD5Reader {
    /// The invariant of a producer: its view is valid, its running length is
    /// the number of message bytes taken, modulo 2^64, and a pending block
    /// is the last block of the padded message.
    pub closed spec fn wf(&self) -> bool {
        &&& self@.valid()
        &&& self.length as nat == self.message@.len() % 0x1_0000_0000_0000_0000
        &&& match self.state {
            MD5ReaderState::Padding(p) => p@ == self@.pending(),
            _ => true,
        }
    }

    /// The view of a well-formed producer is valid.
    pub proof fn lemma_valid(&self)
        requires
            self.wf(),
        ensures
            self@.valid(),
    {
    }

    /// A producer that has taken no byte yet.
    pub fn new() -> (r: MD5Reader)
        ensures
            r.wf(),
            r@ == ReaderView::initial(),
    {
        MD5Reader { state: MD5ReaderState::Reading, length: 0, message: Ghost(Seq::empty()) }
    }

    /// Whether every block has been handed out.
    fn is_done(&self) -> (done: bool)
        ensures
            done == (self@.phase is Done),
    {
        match self.state {
            MD5ReaderState::Done => true,
            _ => false,
        }
    }

    /// Hands out the next block of the padded message as sixteen words in
    /// `buf` and returns its size, 64, or returns 0 when every block has been
    /// handed out.
    ///
    /// The producer holds no byte source itself. A producer that is still
    /// reading takes `read` for what its read of up to 64 bytes from the
    /// byte source has come to: fewer than 64 bytes end the message, and a
    /// failed read is passed on, with the producer and `buf` left as they
    /// were. In the other phases nothing is read, and `read` is not looked
    /// at.
    pub fn read_block(
        &mut self,
        read: Result<&[u8], ReadFailed>,
        buf: &mut MD5WordBuffer,
    ) -> (res: Result<usize, ReadFailed>)
        requires
            old(self).wf(),
            brought(read).len() <= 64,
        ensures
            final(self).wf(),
            res is Err <==> old(self)@.phase is Reading && read is Err,
            res is Err ==> final(self)@ == old(self)@ && *final(buf) == *old(buf),
            res matches Ok(n) ==> {
                &&& final(self)@ == old(self)@.next(brought(read))
                &&& final(self)@.produced() == old(self)@.produced() + old(self)@.handed_out(
                    brought(read),
                )
                &&& old(self)@.phase is Done ==> n == 0 && *final(buf) == *old(buf)
                &&& !(old(self)@.phase is Done) ==> n == 64 && final(buf)@ == words(
                    old(self)@.handed_out(brought(read)),
                )
            },
    {
        proof {
            old(self)@.lemma_next_produced(brought(read));
        }
        match self.state {
            MD5ReaderState::Reading => {
                let input: &[u8] = match read {
                    Ok(input) => input,
                    Err(e) => {
                        return Err(e);
                    },
                };
                let ghost before = self.message@;
                let mut byte_buf: MD5ByteBuffer = [0; 64];
                let count: usize = input.len();
                let mut i: usize = 0;
                while i < count
                    invariant
                        i <= count,
                        count == input@.len(),
                        count <= 64,
                        forall|j: int| 0 <= j < i ==> byte_buf@[j] == input@[j],
                    decreases count - i,
                {
                    byte_buf[i] = input[i];
                    i += 1;
                }
                assert(byte_buf@.take(count as int) =~= input@);
                proof {
                    lemma_length_step(self.length, before.len(), count as nat);
                }
                self.length = self.length.wrapping_add(count as u64);
                self.message = Ghost(before + input@);
                if count < 64 {
                    proof {
                        lemma_padding_wraps(self.message@.len());
                    }
                    let pad = Self::padding(self.length, &mut byte_buf, count);
                    assert(byte_buf@ == old(self)@.handed_out(input@));
                    if let Some(pb) = pad {
                        self.state = MD5ReaderState::Padding(pb);
                        assert(pb@ == self@.pending());
                    } else {
                        self.state = MD5ReaderState::Done;
                    }
                } else {
                    assert(byte_buf@ =~= input@);
                }
                assert(self@ == old(self)@.next(input@));
                assert(self.wf());
                Self::bytes_to_words(&byte_buf, buf);
                Ok(BUFFER_SIZE_BYTES)
            },
            MD5ReaderState::Padding(pad_buf) => {
                Self::bytes_to_words(&pad_buf, buf);
                self.state = MD5ReaderState::Done;
                Ok(BUFFER_SIZE_BYTES)
            },
            MD5ReaderState::Done => Ok(0),
        }
    }

    /// Writes the padding of a message of `len` bytes into `buf` from
    /// `offset` on, the place behind the last byte of the message in its
    /// last block. What does not fit into `buf` is returned as one more
    /// block.
    fn padding(len: u64, buf: &mut MD5ByteBuffer, offset: usize) -> (spill: Option<MD5ByteBuffer>)
        requires
            offset < 64,
            len % 64 == offset,
        ensures
            ({
                let full = old(buf)@.take(offset as int) + padding(len as nat);
                &&& final(buf)@ == full.take(64)
                &&& match spill {
                    Some(p) => offset >= 56 && full.len() == 128 && p@ == full.skip(64),
                    None => offset < 56 && full.len() == 64,
                }
            }),
    {
        let additional_padding: usize = ((128 - 9 - (len % 64)) % 64 + 9) as usize;
        let bts: [u8; 8] = Self::length_bytes(len.wrapping_mul(8));
        let ghost pad = padding(len as nat);
        proof {
            reveal(padding);
            lemma_padding_len(len as nat);
        }
        let fill_to: usize = if offset + additional_padding < 64 {
            offset + additional_padding
        } else {
            64
        };
        let mut fill_count: usize = 0;
        let mut i: usize = offset;
        while i < fill_to
            invariant
                offset <= i <= fill_to <= 64,
                fill_to <= offset + additional_padding,
                fill_count == i - offset,
                9 <= additional_padding <= 72,
                pad.len() == additional_padding,
                pad == seq![0x80u8] + Seq::new((additional_padding - 9) as nat, |j: int| 0u8)
                    + bts@,
                forall|j: int| 0 <= j < offset ==> buf@[j] == old(buf)@[j],
                forall|j: int| offset <= j < i ==> buf@[j] == pad[j - offset],
            decreases fill_to - i,
        {
            buf[i] = Self::pad_value(fill_count, additional_padding, &bts);
            fill_count += 1;
            i += 1;
        }
        if fill_to < offset + additional_padding {
            let mut pbuf: MD5ByteBuffer = [0; 64];
            let rest: usize = offset + additional_padding - fill_to;
            let mut i: usize = 0;
            while i < rest
                invariant
                    i <= rest == 64,
                    56 <= offset < 64,
                    fill_count == 64 - offset + i,
                    additional_padding == 128 - offset,
                    pad.len() == additional_padding,
                    pad == seq![0x80u8] + Seq::new((additional_padding - 9) as nat, |j: int| 0u8)
                        + bts@,
                    forall|j: int| 0 <= j < i ==> pbuf@[j] == pad[64 - offset + j],
                decreases rest - i,
            {
                pbuf[i] = Self::pad_value(fill_count, additional_padding, &bts);
                fill_count += 1;
                i += 1;
            }
            proof {
                let full = old(buf)@.take(offset as int) + pad;
                assert(buf@ =~= full.take(64));
                assert(pbuf@ =~= full.skip(64));
            }
            Some(pbuf)
        } else {
            proof {
                let full = old(buf)@.take(offset as int) + pad;
                assert(buf@ =~= full.take(64));
            }
            None
        }
    }

    /// The byte at place `i` of a padding of `additional_padding` bytes
    /// whose length field holds `bts`.
    fn pad_value(i: usize, additional_padding: usize, bts: &[u8; 8]) -> (v: u8)
        requires
            9 <= additional_padding <= 72,
            i < additional_padding,
        ensures
            v == (seq![0x80u8] + Seq::new((additional_padding - 9) as nat, |j: int| 0u8)
                + bts@)[i as int],
    {
        if i == 0 {
            0b10000000
        } else if i < additional_padding - 8 {
            0
        } else {
            bts[i + 8 - additional_padding]
        }
    }

    /// The eight bytes of `v`, least significant first.
    fn length_bytes(v: u64) -> (r: [u8; 8])
        ensures
            r@ == le_bytes_u64(v),
    {
        assert(v & 0xff == v % 0x100 && (v >> 8) & 0xff == v / 0x100 % 0x100 && (v >> 16) & 0xff
            == v / 0x1_0000 % 0x100 && (v >> 24) & 0xff == v / 0x100_0000 % 0x100 && (v >> 32)
            & 0xff == v / 0x1_0000_0000 % 0x100 && (v >> 40) & 0xff == v / 0x100_0000_0000 % 0x100
            && (v >> 48) & 0xff == v / 0x1_0000_0000_0000 % 0x100 && (v >> 56) & 0xff == v
            / 0x100_0000_0000_0000 % 0x100) by (bit_vector);
        let r: [u8; 8] = [
            (v & 0xff) as u8,
            ((v >> 8) & 0xff) as u8,
            ((v >> 16) & 0xff) as u8,
            ((v >> 24) & 0xff) as u8,
            ((v >> 32) & 0xff) as u8,
            ((v >> 40) & 0xff) as u8,
            ((v >> 48) & 0xff) as u8,
            ((v >> 56) & 0xff) as u8,
        ];
        assert(r@ =~= le_bytes_u64(v));
        r
    }

    /// Reads 64 bytes as sixteen little-endian words.
    fn bytes_to_words(bb: &MD5ByteBuffer, wb: &mut MD5WordBuffer)
        ensures
            final(wb)@ == words(bb@),
    {
        let mut i: usize = 0;
        while i < 16
            invariant
                i <= 16,
                forall|j: int|
                    0 <= j < i ==> wb@[j] == word_of(
                        bb@[4 * j],
                        bb@[4 * j + 1],
                        bb@[4 * j + 2],
                        bb@[4 * j + 3],
                    ),
            decreases 16 - i,
        {
            let b0: u8 = bb[i * 4];
            let b1: u8 = bb[i * 4 + 1];
            let b2: u8 = bb[i * 4 + 2];
            let b3: u8 = bb[i * 4 + 3];
            assert((b0 as u32) | ((b1 as u32) << 8) | ((b2 as u32) << 16) | ((b3 as u32) << 24)
                == b0 as int + b1 as int * 0x100 + b2 as int * 0x1_0000 + b3 as int * 0x100_0000)
                by (bit_vector);
            wb[i] = (b0 as u32) | ((b1 as u32) << 8) | ((b2 as u32) << 16) | ((b3 as u32) << 24);
            i += 1;
        }
        assert(wb@ =~= words(bb@));
    }
}

/// A digest computation as mathematics: the bytes of the message taken so
/// far, the four words of the state, and whether the message has ended and
/// its padding has been folded in.
pub struct MachineView {
    pub message: Seq<u8>,
    pub state: DigestState,
    pub finished: bool,
}

impl MachineView {
    /// The computation before any byte.
    pub open spec fn initial() -> MachineView {
        MachineView { message: Seq::empty(), state: init_state(), finished: false }
    }

    /// What holds of every computation: the state is the initial state with
    /// the blocks folded in, one after another, that are complete so far;
    /// once the message has ended, these are all the blocks of the padded
    /// message.
    pub open spec fn valid(self) -> bool {
        self.state == if self.finished {
            absorb(init_state(), padded(self.message), padded(self.message).len() / 64)
        } else {
            absorb(init_state(), self.message, self.message.len() / 64)
        }
    }

    /// The computation after it has taken `data`. Once the message has
    /// ended, nothing is taken.
    pub open spec fn after_update(self, data: Seq<u8>) -> MachineView {
        if self.finished {
            self
        } else {
            MachineView {
                message: self.message + data,
                state: absorb(
                    init_state(),
                    self.message + data,
                    (self.message + data).len() / 64,
                ),
                finished: false,
            }
        }
    }

    /// The computation after it has taken each of `reads`, one after
    /// another.
    pub open spec fn after_updates(self, reads: Seq<Seq<u8>>) -> MachineView
        decreases reads.len(),
    {
        if reads.len() == 0 {
            self
        } else {
            self.after_update(reads.first()).after_updates(reads.drop_first())
        }
    }

    /// The computation after the message has ended.
    pub open spec fn after_sum(self) -> MachineView {
        MachineView {
            message: self.message,
            state: absorb(init_state(), padded(self.message), padded(self.message).len() / 64),
            finished: true,
        }
    }

    /// The sixteen bytes that the state stands for.
    pub open spec fn digest(self) -> Seq<u8> {
        digest_bytes(self.state)
    }
}

/// The compression engine, together with the block producer that it draws
/// its blocks from and the bytes that do not fill a block yet.
pub struct MD5Machine {
    block: MD5WordBuffer,
    reader: MD5Reader,
    a: u32,
    b: u32,
    c: u32,
    d: u32,
    pending: MD5ByteBuffer,
    filled: usize,
}

impl View for MD5Machine {
    type V = MachineView;

    closed spec fn view(&self) -> MachineView {
        MachineView {
            message: if self.reader@.phase is Reading {
                self.reader@.message + self.pending@.take(self.filled as int)
            } else {
                self.reader@.message
            },
            state: self.state(),
            finished: self.reader@.phase is Done,
        }
    }
}

impl MD5Machine {
    /// The four words of the state.
    spec fn state(&self) -> DigestState {
        DigestState { a: self.a, b: self.b, c: self.c, d: self.d }
    }

    /// The invariant of a computation: the producer is well formed and
    /// between two blocks, fewer than 64 bytes wait for their block, and
    /// the state holds every block that the producer has handed out.
    pub closed spec fn wf(&self) -> bool {
        &&& self.reader.wf()
        &&& !(self.reader@.phase is Padding)
        &&& self.filled < 64
        &&& self.folded()
    }

    /// The state holds exactly the blocks that the producer has handed out.
    spec fn folded(&self) -> bool {
        self.state() == absorb(
            init_state(),
            self.reader@.produced(),
            self.reader@.produced().len() / 64,
        )
    }

    /// The view of a well-formed computation is valid.
    pub proof fn lemma_valid(&self)
        requires
            self.wf(),
        ensures
            self@.valid(),
    {
        if self.reader@.phase is Reading {
            let taken = self.reader@.message;
            let n = taken.len() / 64;
            assert(self@.message.len() / 64 == n);
            assert(self@.message.take(64 * n as int) =~= taken.take(64 * n as int));
            lemma_absorb_prefix(init_state(), self@.message, taken, n);
        }
    }

    /// A computation that draws its blocks from the fresh producer `r`.
    pub fn new(r: MD5Reader) -> (m: MD5Machine)
        requires
            r.wf(),
            r@ == ReaderView::initial(),
        ensures
            m.wf(),
            m@ == MachineView::initial(),
    {
        let m = MD5Machine {
            block: [0; 16],
            reader: r,
            a: 0x67452301,
            b: 0xefcdab89,
            c: 0x98badcfe,
            d: 0x10325476,
            pending: [0; 64],
            filled: 0,
        };
        assert(m@.message =~= Seq::<u8>::empty());
        m
    }

    /// Takes `data`, what a read from the byte source has brought, as the
    /// next bytes of the message. Every block that the bytes taken so far
    /// complete is folded into the state. Once the digest has been asked
    /// for, the message has ended, and `data` is left aside.
    pub fn update(&mut self, data: &[u8])
        requires
            old(self).wf(),
        ensures
            final(self).wf(),
            final(self)@ == old(self)@.after_update(data@),
    {
        if self.reader.is_done() {
            return ;
        }
        let ghost start = self@.message;
        assert(start + data@.take(0) =~= start);
        let mut i: usize = 0;
        while i < data.len()
            invariant
                i <= data@.len(),
                self.wf(),
                self.reader@.phase is Reading,
                self@.message == start + data@.take(i as int),
            decreases data@.len() - i,
        {
            let ghost taken = self.reader@.message;
            let ghost before = self.pending@.take(self.filled as int);
            self.pending[self.filled] = data[i];
            self.filled += 1;
            i += 1;
            assert(self.pending@.take(self.filled as int) =~= before.push(data@[i - 1]));
            assert(data@.take(i as int) =~= data@.take(i - 1).push(data@[i - 1]));
            assert(taken + before.push(data@[i - 1]) =~= (taken + before).push(data@[i - 1]));
            assert(start + data@.take(i - 1).push(data@[i - 1]) =~= (start + data@.take(
                i - 1,
            )).push(data@[i - 1]));
            if self.filled == 64 {
                let ghost chunk = self.pending@;
                assert(chunk.take(64) =~= chunk);
                proof {
                    lemma_absorb_step(init_state(), taken, chunk);
                }
                let _res = self.reader.read_block(Ok(self.pending.as_slice()), &mut self.block);
                self.rounds();
                self.filled = 0;
                assert(taken + chunk + self.pending@.take(0) =~= taken + chunk);
            }
        }
        assert(data@.take(data@.len() as int) =~= data@);
        proof {
            self.lemma_valid();
        }
    }

    /// Ends the message and returns its digest: the padding is folded in,
    /// and the four words of the state are written out, each in four bytes,
    /// least significant first. Asked again, it returns the same digest and
    /// changes nothing.
    pub fn sum(&mut self) -> (digest: [u8; 16])
        requires
            old(self).wf(),
        ensures
            final(self).wf(),
            final(self)@ == old(self)@.after_sum(),
            old(self)@.finished ==> final(self)@ == old(self)@,
            digest@ == final(self)@.digest(),
            digest@ == crate::spec::digest(old(self)@.message),
    {
        let ghost message = self@.message;
        loop
            invariant
                self.reader.wf(),
                self.filled < 64,
                self.folded(),
                old(self)@.finished ==> self.reader@.phase is Done && self.state() == old(
                    self,
                ).state(),
                message == if self.reader@.phase is Reading {
                    self.reader@.message + self.pending@.take(self.filled as int)
                } else {
                    self.reader@.message
                },
            ensures
                self.wf(),
                self@.finished,
                self@.message == message,
                old(self)@.finished ==> self.state() == old(self).state(),
            decreases self.reader@.blocks_left(),
        {
            let ghost before = self.reader@;
            let ghost rest = self.pending@.take(self.filled as int);
            proof {
                before.lemma_produced_whole_blocks();
                before.lemma_next_produced(rest);
            }
            let res = self.reader.read_block(
                Ok(slice_subrange(self.pending.as_slice(), 0, self.filled)),
                &mut self.block,
            );
            if let Ok(0) = res {
                break ;  // no more left
            }
            proof {
                lemma_absorb_step(init_state(), before.produced(), before.handed_out(rest));
            }
            self.rounds();
        }
        let a = Self::word_bytes(self.a);
        let b = Self::word_bytes(self.b);
        let c = Self::word_bytes(self.c);
        let d = Self::word_bytes(self.d);
        let output: [u8; 16] = [
            a[0], a[1], a[2], a[3],
            b[0], b[1], b[2], b[3],
            c[0], c[1], c[2], c[3],
            d[0], d[1], d[2], d[3],
        ];
        assert(output@ =~= digest_bytes(self.state()));
        proof {
            self.lemma_valid();
        }
        output
    }

    /// The four bytes of `v`, least significant first.
    fn word_bytes(v: u32) -> (r: [u8; 4])
        ensures
            r@ == le_bytes_u32(v),
    {
        assert(v & 0xff == v % 0x100 && (v >> 8) & 0xff == v / 0x100 % 0x100 && (v >> 16) & 0xff
            == v / 0x1_0000 % 0x100 && (v >> 24) & 0xff == v / 0x100_0000 % 0x100)
            by (bit_vector);
        let r: [u8; 4] = [
            (v & 0xff) as u8,
            ((v >> 8) & 0xff) as u8,
            ((v >> 16) & 0xff) as u8,
            ((v >> 24) & 0xff) as u8,
        ];
        assert(r@ =~= le_bytes_u32(v));
        r
    }

    fn rounds(&mut self)
        ensures
            final(self).state() == compress(old(self).state(), old(self).block@),
            final(self).block == old(self).block,
            final(self).reader == old(self).reader,
            final(self).pending == old(self).pending,
            final(self).filled == old(self).filled,
    {
        let x = self.block;
        let mut a: u32 = self.a;
        let mut b: u32 = self.b;
        let mut c: u32 = self.c;
        let mut d: u32 = self.d;
        let ghost start = self.state();
        let mut i: usize = 0;
        while i < 64
            invariant
                i <= 64,
                (DigestState { a, b, c, d }) == steps(start, x@, i as nat),
            decreases 64 - i,
        {
            let f: u32;
            let k: usize;
            if i < 16 {
                f = Self::aux_f(b, c, d);
                k = i;
            } else if i < 32 {
                f = Self::aux_g(b, c, d);
                k = (5 * i + 1) % 16;
            } else if i < 48 {
                f = Self::aux_h(b, c, d);
                k = (3 * i + 5) % 16;
            } else {
                f = Self::aux_i(b, c, d);
                k = (7 * i) % 16;
            }
            let s: u8 = SHIFTS[(i / 16) * 4 + i % 4];
            Self::op(&mut a, b, f, x[k], s, ROUND_CONSTANTS[i]);
            let written: u32 = a;
            a = d;
            d = c;
            c = b;
            b = written;
            i += 1;
        }
        self.a = self.a.wrapping_add(a);
        self.b = self.b.wrapping_add(b);
        self.c = self.c.wrapping_add(c);
        self.d = self.d.wrapping_add(d);
    }

    fn aux_f(x: u32, y: u32, z: u32) -> (r: u32)
        ensures
            r == mix_f(x, y, z),
    {
        (x & y) | ((!x) & z)
    }

    fn aux_g(x: u32, y: u32, z: u32) -> (r: u32)
        ensures
            r == mix_g(x, y, z),
    {
        (x & z) | (y & (!z))
    }

    fn aux_h(x: u32, y: u32, z: u32) -> (r: u32)
        ensures
            r == mix_h(x, y, z),
    {
        x ^ y ^ z
    }

    fn aux_i(x: u32, y: u32, z: u32) -> (r: u32)
        ensures
            r == mix_i(x, y, z),
    {
        y ^ (x | (!z))
    }

    fn op(a: &mut u32, b: u32, f_bcd: u32, x_k: u32, s: u8, t_i: u32)
        requires
            0 < s < 32,
        ensures
            *final(a) == op_result(*old(a), b, f_bcd, x_k, s, t_i),
    {
        let unrotated: u32 = (*a).wrapping_add(f_bcd).wrapping_add(x_k).wrapping_add(t_i);
        *a = b.wrapping_add((unrotated << s) | (unrotated >> (32 - s)));
    }
}

} // verus!
