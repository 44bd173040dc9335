use tcp_tunnel::frame::get_len;

#[test]
fn lib_it_works() {
    let result = 2 + 2;
    assert_eq!(result, 4);
}

#[test]
fn get_len_reads_big_endian() {
    assert_eq!(get_len(&[0, 0, 1, 2]), 258);
    assert_eq!(get_len(&[1, 2, 3, 4]), 0x0102_0304);
    assert_eq!(get_len(&[0xff, 0xff, 0xff, 0xff]), 0xffff_ffff);
    assert_eq!(get_len(&[0, 0, 0, 7, 9, 9]), 7);
}
