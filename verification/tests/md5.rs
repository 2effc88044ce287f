use rustmd5::md5::{
    MD5Machine, MD5Reader, MD5WordBuffer, BUFFER_SIZE_BYTES, BUFFER_SIZE_WORDS,
};

/// One read of up to 64 bytes from the front of `source`.
fn read<'a>(source: &mut &'a [u8]) -> &'a [u8] {
    let count = source.len().min(BUFFER_SIZE_BYTES);
    let (head, tail) = source.split_at(count);
    *source = tail;
    head
}

fn padding_tst(msg: &mut &[u8], expected: Vec<MD5WordBuffer>) {
    let mut reader = MD5Reader::new();
    let mut buf: MD5WordBuffer = [0; BUFFER_SIZE_WORDS];

    for exp in expected {
        let res = reader.read_block(Ok(read(msg)), &mut buf);
        println!("buf={:x?}", buf);
        println!("exp={:x?}", exp);
        println!("res={:x?}", res);
        assert!(match res {
            Ok(BUFFER_SIZE_BYTES) => true,
            _ => false,
        });
        assert!(buf == exp);
    }
    let res = reader.read_block(Ok(read(msg)), &mut buf);
    println!("buf={:x?}", buf);
    println!("res={:x?}", res);
    assert!(match res {
        Ok(0) => true,
        _ => false,
    });
}

#[test]
fn padding_simple() {
    let mut binding = "ABCDEF".as_bytes();
    padding_tst(
        &mut binding,
        vec![[
            0x44434241, 0x00804645, 0, 0, 0, 0, 0, 0, 0, 0, 0, 0, 0, 0, 0x30, 0,
        ]],
    )
}

#[test]
fn padding_empty() {
    let mut binding = "".as_bytes();
    padding_tst(
        &mut binding,
        vec![[0x00000080, 0, 0, 0, 0, 0, 0, 0, 0, 0, 0, 0, 0, 0, 0, 0]],
    )
}

#[test]
fn padding_close() {
    let binding = [0x44; 55];
    padding_tst(
        &mut binding.as_ref(),
        vec![[
            0x44444444, 0x44444444, 0x44444444, 0x44444444, 0x44444444, 0x44444444, 0x44444444,
            0x44444444, 0x44444444, 0x44444444, 0x44444444, 0x44444444, 0x44444444, 0x80444444,
            0x000001B8, 0x00,
        ]],
    )
}

#[test]
fn padding_equal() {
    let binding = [0x44; 56]; // should pad anyway
    padding_tst(
        &mut binding.as_ref(),
        vec![
            [
                0x44444444, 0x44444444, 0x44444444, 0x44444444, 0x44444444, 0x44444444,
                0x44444444, 0x44444444, 0x44444444, 0x44444444, 0x44444444, 0x44444444,
                0x44444444, 0x44444444, 0x00000080, 0x00,
            ],
            [0, 0, 0, 0, 0, 0, 0, 0, 0, 0, 0, 0, 0, 0, 0x000001C0, 0x00],
        ],
    )
}

#[test]
fn padding_over() {
    let binding = [0x44; 57]; // should pad anyway
    padding_tst(
        &mut binding.as_ref(),
        vec![
            [
                0x44444444, 0x44444444, 0x44444444, 0x44444444, 0x44444444, 0x44444444,
                0x44444444, 0x44444444, 0x44444444, 0x44444444, 0x44444444, 0x44444444,
                0x44444444, 0x44444444, 0x00008044, 0x00,
            ],
            [0, 0, 0, 0, 0, 0, 0, 0, 0, 0, 0, 0, 0, 0, 0x000001C8, 0x00],
        ],
    )
}

fn md5reader_tst_str(msg: &str, exp: [u8; 16]) {
    let mut binding = msg.as_bytes();

    let reader: MD5Reader = MD5Reader::new();
    let mut machine = MD5Machine::new(reader);
    loop {
        let chunk = read(&mut binding);
        if chunk.is_empty() {
            break;
        }
        machine.update(chunk);
    }
    let sum = machine.sum();
    println!("got sum {:x?}", sum);
    assert!(sum == exp)
}

#[test]
fn test_sums() {
    let msgs: [(&str, u128); 7] = [
        ("", 0xd41d8cd98f00b204e9800998ecf8427e),
        ("a", 0x0cc175b9c0f1b6a831c399e269772661),
        ("abc", 0x900150983cd24fb0d6963f7d28e17f72),
        ("message digest", 0xf96b697d7cb7938d525a2f31aaf161d0),
        (
            "abcdefghijklmnopqrstuvwxyz",
            0xc3fcd3d76192e4007dfb496cca67e13b,
        ),
        (
            "ABCDEFGHIJKLMNOPQRSTUVWXYZabcdefghijklmnopqrstuvwxyz0123456789",
            0xd174ab98d277d9f5a5611c2c9f419d9f,
        ),
        (
            "12345678901234567890123456789012345678901234567890123456789012345678901234567890",
            0x57edf4a22be3c955ac49da2e2107b67a,
        ),
    ];

    for (msg, exp_b) in msgs {
        md5reader_tst_str(msg, exp_b.to_be_bytes())
    }
}
