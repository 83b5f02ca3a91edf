use servo_bus::decode::bytes_to_i64;

#[test]
fn one_byte_values_are_unsigned() {
    assert_eq!(bytes_to_i64(&[0x00]), 0);
    assert_eq!(bytes_to_i64(&[0x7F]), 127);
    assert_eq!(bytes_to_i64(&[0x80]), 128);
    assert_eq!(bytes_to_i64(&[0xFF]), 255);
}

#[test]
fn two_bytes_sign_extend() {
    assert_eq!(bytes_to_i64(&[0xFF, 0xFF]), -1);
    assert_eq!(bytes_to_i64(&[0x00, 0x80]), -32768);
    assert_eq!(bytes_to_i64(&[0xFF, 0x7F]), 32767);
    assert_eq!(bytes_to_i64(&[0x12, 0x34]), 0x3412);
}

#[test]
fn four_bytes_sign_extend() {
    assert_eq!(bytes_to_i64(&[0xFF, 0xFF, 0xFF, 0xFF]), -1);
    assert_eq!(bytes_to_i64(&[0x00, 0x00, 0x00, 0x80]), -2147483648);
    assert_eq!(bytes_to_i64(&[0x78, 0x56, 0x34, 0x12]), 0x12345678);
    assert_eq!(bytes_to_i64(&[0xFF, 0xFF, 0xFF, 0x7F]), 2147483647);
}

#[test]
fn other_widths_are_unsigned_little_endian() {
    assert_eq!(bytes_to_i64(&[]), 0);
    assert_eq!(bytes_to_i64(&[0x01, 0x02, 0x03]), 0x030201);
    assert_eq!(bytes_to_i64(&[0x01, 0x02, 0x03, 0x04, 0x05]), 0x0504030201);
    assert_eq!(
        bytes_to_i64(&[0x11, 0x22, 0x33, 0x44, 0x55, 0x66, 0x77]),
        0x77665544332211
    );
}

#[test]
fn eight_and_more_bytes_keep_the_low_sixty_four_bits() {
    assert_eq!(bytes_to_i64(&[0xFF; 8]), -1);
    assert_eq!(bytes_to_i64(&[0x00, 0x00, 0x00, 0x00, 0x00, 0x00, 0x00, 0x80]), i64::MIN);
    // a ninth byte lies beyond the result's width and is dropped
    assert_eq!(
        bytes_to_i64(&[0xFF, 0xFF, 0xFF, 0xFF, 0xFF, 0xFF, 0xFF, 0xFF, 0x01]),
        -1
    );
    assert_eq!(
        bytes_to_i64(&[0x02, 0x00, 0x00, 0x00, 0x00, 0x00, 0x00, 0x00, 0xAB, 0xCD]),
        2
    );
}
