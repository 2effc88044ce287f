use rustmd5::md5::{MD5Reader, MD5WordBuffer, ReadFailed, BUFFER_SIZE_BYTES};

/// All the blocks that a producer hands out for `msg`, where every read
/// brings 64 bytes as long as the message has that many left.
fn blocks_of(msg: &[u8]) -> Vec<MD5WordBuffer> {
    let mut reader = MD5Reader::new();
    let mut rest = msg;
    let mut out = Vec::new();
    loop {
        let count = rest.len().min(BUFFER_SIZE_BYTES);
        let (input, tail) = rest.split_at(count);
        rest = tail;
        let mut buf: MD5WordBuffer = [0; 16];
        if reader.read_block(Ok(input), &mut buf) == Ok(0) {
            return out;
        }
        out.push(buf);
    }
}

fn numbered(len: usize) -> Vec<u8> {
    (1..=len).map(|i| i as u8).collect()
}

const NUMBERED_WORDS: [u32; 16] = [
    0x04030201, 0x08070605, 0x0c0b0a09, 0x100f0e0d, 0x14131211, 0x18171615, 0x1c1b1a19,
    0x201f1e1d, 0x24232221, 0x28272625, 0x2c2b2a29, 0x302f2e2d, 0x34333231, 0x38373635,
    0x3c3b3a39, 0x403f3e3d,
];

#[test]
fn whole_block_is_passed_on_as_little_endian_words() {
    let mut reader = MD5Reader::new();
    let mut buf: MD5WordBuffer = [0; 16];
    assert_eq!(reader.read_block(Ok(&numbered(64)), &mut buf), Ok(64));
    assert_eq!(buf, NUMBERED_WORDS);
}

#[test]
fn sixty_four_bytes_take_one_block_of_padding() {
    let blocks = blocks_of(&numbered(64));
    assert_eq!(blocks.len(), 2);
    assert_eq!(blocks[0], NUMBERED_WORDS);
    assert_eq!(blocks[1], [0x80, 0, 0, 0, 0, 0, 0, 0, 0, 0, 0, 0, 0, 0, 0x200, 0]);
}

#[test]
fn sixty_three_bytes_spread_the_padding_over_two_blocks() {
    let blocks = blocks_of(&numbered(63));
    assert_eq!(blocks.len(), 2);
    let mut first = NUMBERED_WORDS;
    first[15] = 0x803f3e3d;
    assert_eq!(blocks[0], first);
    assert_eq!(blocks[1], [0, 0, 0, 0, 0, 0, 0, 0, 0, 0, 0, 0, 0, 0, 0x1f8, 0]);
}

#[test]
fn fifty_five_bytes_fit_with_their_padding() {
    assert_eq!(blocks_of(&numbered(55)).len(), 1);
    assert_eq!(blocks_of(&numbered(56)).len(), 2);
}

#[test]
fn empty_message_is_one_block() {
    let blocks = blocks_of(&[]);
    assert_eq!(blocks, vec![[0x80, 0, 0, 0, 0, 0, 0, 0, 0, 0, 0, 0, 0, 0, 0, 0]]);
}

#[test]
fn padded_length_is_the_least_multiple_of_64_above_length_plus_8() {
    for len in 0..=300usize {
        let msg = vec![0xa5u8; len];
        let blocks = blocks_of(&msg);
        let padded = blocks.len() * 64;
        assert!(padded > len + 8, "length {}", len);
        assert!(padded - 64 <= len + 8, "length {}", len);
    }
}

#[test]
fn last_eight_bytes_hold_the_length_in_bits() {
    for len in 0..=300usize {
        let msg = vec![0xa5u8; len];
        let blocks = blocks_of(&msg);
        let last = blocks[blocks.len() - 1];
        assert_eq!(last[14], (len * 8) as u32, "length {}", len);
        assert_eq!(last[15], 0, "length {}", len);
    }
}

#[test]
fn marker_follows_the_message_and_zeros_follow_the_marker() {
    for len in 0..=130usize {
        let msg = vec![0xffu8; len];
        let mut bytes = Vec::new();
        for block in blocks_of(&msg) {
            for word in block {
                bytes.extend_from_slice(&word.to_le_bytes());
            }
        }
        assert_eq!(&bytes[..len], &msg[..]);
        assert_eq!(bytes[len], 0x80);
        assert!(bytes[len + 1..bytes.len() - 8].iter().all(|b| *b == 0));
        assert_eq!(&bytes[bytes.len() - 8..], &((len as u64) * 8).to_le_bytes());
    }
}

#[test]
fn exhausted_producer_stays_exhausted() {
    let mut reader = MD5Reader::new();
    let mut buf: MD5WordBuffer = [0; 16];
    assert_eq!(reader.read_block(Ok(b"abc"), &mut buf), Ok(64));
    let handed_out = buf;
    for _ in 0..3 {
        assert_eq!(reader.read_block(Ok(b"more"), &mut buf), Ok(0));
        assert_eq!(buf, handed_out);
    }
}

#[test]
fn short_read_ends_the_message() {
    let mut reader = MD5Reader::new();
    let mut buf: MD5WordBuffer = [0; 16];
    assert_eq!(reader.read_block(Ok(&[0x44; 60]), &mut buf), Ok(64));
    assert_eq!(buf[15], 0x80);
    assert_eq!(reader.read_block(Ok(&[0x55; 64]), &mut buf), Ok(64));
    assert_eq!(buf, [0, 0, 0, 0, 0, 0, 0, 0, 0, 0, 0, 0, 0, 0, 0x1e0, 0]);
    assert_eq!(reader.read_block(Ok(&[0x55; 64]), &mut buf), Ok(0));
}

#[test]
fn failed_read_is_passed_on_and_changes_nothing() {
    let mut reader = MD5Reader::new();
    let mut buf: MD5WordBuffer = [7; 16];
    assert_eq!(reader.read_block(Err(ReadFailed), &mut buf), Err(ReadFailed));
    assert_eq!(buf, [7; 16]);
    assert_eq!(reader.read_block(Ok(&numbered(64)), &mut buf), Ok(64));
    assert_eq!(buf, NUMBERED_WORDS);
    assert_eq!(reader.read_block(Err(ReadFailed), &mut buf), Err(ReadFailed));
    assert_eq!(buf, NUMBERED_WORDS);
    assert_eq!(reader.read_block(Ok(&[]), &mut buf), Ok(64));
    assert_eq!(buf, [0x80, 0, 0, 0, 0, 0, 0, 0, 0, 0, 0, 0, 0, 0, 0x200, 0]);
}

#[test]
fn no_read_is_looked_at_once_the_message_has_ended() {
    let mut reader = MD5Reader::new();
    let mut buf: MD5WordBuffer = [0; 16];
    assert_eq!(reader.read_block(Ok(&[0x44; 56]), &mut buf), Ok(64));
    assert_eq!(reader.read_block(Err(ReadFailed), &mut buf), Ok(64));
    assert_eq!(buf, [0, 0, 0, 0, 0, 0, 0, 0, 0, 0, 0, 0, 0, 0, 0x1c0, 0]);
    assert_eq!(reader.read_block(Err(ReadFailed), &mut buf), Ok(0));
}
