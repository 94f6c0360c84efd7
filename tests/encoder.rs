use proptest_core::encoder::{send, Encoder};

#[test]
fn test() {
    let source = "hello world".to_string().into_bytes();
    let dest: Vec<u8> = vec![];

    let mut encoder = Encoder::with_chunks_size(dest, 5);
    encoder.write(&source);
    let dest = encoder.finish();

    let output = std::str::from_utf8(&dest).unwrap();

    assert_eq!(output, "5\r\nhello\r\n5\r\n worl\r\n1\r\nd\r\n0\r\n\r\n");
}

#[test]
fn encoder_write_in_pieces_matches_one_write() {
    let mut a = Encoder::with_chunks_size(Vec::new(), 4);
    a.write(b"ab");
    a.write(b"cdefg");
    a.write(b"hij");
    let mut b = Encoder::with_chunks_size(Vec::new(), 4);
    b.write(b"abcdefghij");
    assert_eq!(a.written(), b.written());
    assert_eq!(a.written().as_slice(), b"4\r\nabcd\r\n4\r\nefgh\r\n");
    assert_eq!(a.finish(), b.finish());
}

#[test]
fn encoder_default_chunk_is_hex_2000() {
    let mut e = Encoder::new(Vec::new());
    let data = vec![7u8; 8192 + 3];
    assert_eq!(e.write(&data), 8195);
    let out = e.finish();
    assert!(out.starts_with(b"2000\r\n"));
    assert!(out.ends_with(b"\r\n3\r\n\x07\x07\x07\r\n0\r\n\r\n"));
    assert_eq!(out.len(), 6 + 8192 + 2 + 3 + 3 + 2 + 5);
}

#[test]
fn encoder_nothing_written_sends_only_terminator() {
    let mut e = Encoder::with_chunks_size(b"head:".to_vec(), 3);
    e.flush();
    assert_eq!(e.written().as_slice(), b"head:");
    assert_eq!(e.finish(), b"head:0\r\n\r\n".to_vec());
}

#[test]
fn send_frames_with_lowercase_hex_length() {
    let mut out = Vec::new();
    send(&mut out, &[1u8; 26]);
    assert_eq!(&out[..4], b"1a\r\n");
    assert_eq!(out.len(), 4 + 26 + 2);
    let mut out = Vec::new();
    send(&mut out, &[]);
    assert_eq!(out, b"0\r\n\r\n".to_vec());
}
