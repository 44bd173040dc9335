use tcp_tunnel::frame::{
    frame16, frame32, get_len, get_len16, header16, header32, parse16, parse32, LEN_HEADER,
    LEN_HEADER16,
};

#[test]
fn utils_it_works() {
    let s = b"hello world\n";
    let writer = frame32(s);
    let (s1, used) = parse32(&writer).unwrap();
    assert_eq!(s1.as_slice(), s);
    assert_eq!(used, writer.len());
}

#[test]
fn test_write() {
    let sent = frame16(b"pong");
    let (msg, _) = parse16(&sent).unwrap();
    let msg = String::from_utf8_lossy(&msg);
    assert_eq!("pong", msg)
}

#[test]
fn frame32_layout() {
    assert_eq!(frame32(b"abc"), vec![0, 0, 0, 3, b'a', b'b', b'c']);
    assert_eq!(frame32(b""), vec![0, 0, 0, 0]);
    assert_eq!(LEN_HEADER, 4);
}

#[test]
fn frame16_layout() {
    assert_eq!(frame16(b"abc"), vec![0, 3, b'a', b'b', b'c']);
    assert_eq!(frame16(b""), vec![0, 0]);
    assert_eq!(LEN_HEADER16, 2);
}

#[test]
fn headers_are_big_endian_and_truncated() {
    assert_eq!(header32(0x0102_0304), [1, 2, 3, 4]);
    assert_eq!(header32(258), [0, 0, 1, 2]);
    assert_eq!(header16(258), [1, 2]);
    // 70000 does not fit in 16 bits: the header carries 70000 - 65536.
    assert_eq!(header16(70000), [0x11, 0x70]);
    assert_eq!(get_len16(&header16(70000)), 70000 - 65536);
}

#[test]
fn header_reads_back_its_length() {
    for n in [0usize, 1, 255, 256, 65535, 65536, 0x00ff_ffff, 0xffff_ffff] {
        assert_eq!(get_len(&header32(n)), n);
    }
    for n in [0usize, 1, 255, 256, 65535] {
        assert_eq!(get_len16(&header16(n)), n);
    }
}

#[test]
fn parse_waits_for_whole_frame() {
    assert_eq!(parse32(&[]), None);
    assert_eq!(parse32(&[0, 0, 0]), None);
    assert_eq!(parse32(&[0, 0, 0, 2, 7]), None);
    assert_eq!(parse32(&[0, 0, 0, 2, 7, 8]), Some((vec![7, 8], 6)));
    assert_eq!(parse16(&[0]), None);
    assert_eq!(parse16(&[0, 2, 7]), None);
    assert_eq!(parse16(&[0, 2, 7, 8]), Some((vec![7, 8], 4)));
}

#[test]
fn parse_ignores_later_bytes() {
    let mut buf = frame32(b"ping");
    buf.extend_from_slice(&[9, 9, 9]);
    assert_eq!(parse32(&buf), Some((b"ping".to_vec(), 8)));
    let mut buf16 = frame16(b"ping");
    buf16.extend_from_slice(&[9, 9, 9]);
    assert_eq!(parse16(&buf16), Some((b"ping".to_vec(), 6)));
}

#[test]
fn frames_in_sequence() {
    let mut stream = frame32(b"first");
    stream.extend_from_slice(&frame32(b"second!"));
    let (a, used) = parse32(&stream).unwrap();
    assert_eq!(a, b"first".to_vec());
    let (b, used_b) = parse32(&stream[used..]).unwrap();
    assert_eq!(b, b"second!".to_vec());
    assert_eq!(used + used_b, stream.len());
}

#[test]
fn consumed_bytes_are_the_frame() {
    let buf = [0u8, 0, 0, 3, 1, 2, 3, 4, 5];
    let (payload, used) = parse32(&buf).unwrap();
    assert_eq!(frame32(&payload), buf[..used].to_vec());
}

#[test]
fn oversized_payload_loses_its_length_in_16_bits() {
    let payload = vec![7u8; 65536 + 3];
    let sent = frame16(&payload);
    assert_eq!(&sent[..2], &[0, 3]);
    let (got, used) = parse16(&sent).unwrap();
    assert_eq!(got, vec![7u8; 3]);
    assert_eq!(used, 5);
}
