use rcall::packer::{Packet, PackTo, UnpackFrom};

fn packet_of(bytes: &[u8]) -> Packet {
    let mut p = Packet::new(0);
    p.buffer = bytes.to_vec();
    p
}

#[test]
fn new_packet_is_zeroed() {
    let p = Packet::new(5);
    assert_eq!(p.buffer, vec![0u8; 5]);
    let q = Packet::new(0);
    assert!(q.buffer.is_empty());
}

#[test]
fn signed_integers_are_little_endian_twos_complement() {
    let mut p = Packet::new(0);
    33_i32.pack_to(&mut p);
    (-2_i32).pack_to(&mut p);
    (-1_i8).pack_to(&mut p);
    0x1234_i16.pack_to(&mut p);
    i64::MIN.pack_to(&mut p);
    assert_eq!(
        p.buffer,
        vec![
            33, 0, 0, 0, 0xfe, 0xff, 0xff, 0xff, 0xff, 0x34, 0x12, 0, 0, 0, 0, 0, 0, 0, 0x80
        ]
    );
}

#[test]
fn unsigned_integers_are_little_endian() {
    let mut p = Packet::new(0);
    0xab_u8.pack_to(&mut p);
    0xbeef_u16.pack_to(&mut p);
    0xdead_beef_u32.pack_to(&mut p);
    0x0102_0304_0506_0708_u64.pack_to(&mut p);
    assert_eq!(
        p.buffer,
        vec![0xab, 0xef, 0xbe, 0xef, 0xbe, 0xad, 0xde, 8, 7, 6, 5, 4, 3, 2, 1]
    );
}

#[test]
fn usize_takes_its_native_width() {
    let mut p = Packet::new(0);
    7_usize.pack_to(&mut p);
    assert_eq!(p.buffer.len(), std::mem::size_of::<usize>());
    assert_eq!(p.buffer[0], 7);
    assert_eq!(usize::unpack_from(&mut p), Some(7));
}

#[test]
fn text_is_length_prefixed_utf8() {
    let mut p = Packet::new(0);
    "hello world!".pack_to(&mut p);
    let mut expected = vec![12u8, 0];
    expected.extend_from_slice(b"hello world!");
    assert_eq!(p.buffer, expected);

    let mut q = Packet::new(0);
    String::from("中").pack_to(&mut q);
    assert_eq!(q.buffer, vec![3, 0, 0xe4, 0xb8, 0xad]);
}

#[test]
fn values_come_back_in_order() {
    let mut p = Packet::new(0);
    33_i32.pack_to(&mut p);
    "hello world!".pack_to(&mut p);
    (-7_i64).pack_to(&mut p);
    String::from("some 中文 message").pack_to(&mut p);
    u16::MAX.pack_to(&mut p);
    assert_eq!(i32::unpack_from(&mut p), Some(33));
    assert_eq!(String::unpack_from(&mut p), Some("hello world!".to_string()));
    assert_eq!(i64::unpack_from(&mut p), Some(-7));
    assert_eq!(str::unpack_from(&mut p), Some("some 中文 message".to_string()));
    assert_eq!(u16::unpack_from(&mut p), Some(u16::MAX));
    assert_eq!(u8::unpack_from(&mut p), None);
}

#[test]
fn extreme_values_round_trip() {
    let mut p = Packet::new(0);
    i8::MIN.pack_to(&mut p);
    i16::MIN.pack_to(&mut p);
    i32::MIN.pack_to(&mut p);
    i64::MAX.pack_to(&mut p);
    u64::MAX.pack_to(&mut p);
    assert_eq!(i8::unpack_from(&mut p), Some(i8::MIN));
    assert_eq!(i16::unpack_from(&mut p), Some(i16::MIN));
    assert_eq!(i32::unpack_from(&mut p), Some(i32::MIN));
    assert_eq!(i64::unpack_from(&mut p), Some(i64::MAX));
    assert_eq!(u64::unpack_from(&mut p), Some(u64::MAX));
}

#[test]
fn short_read_fails_and_keeps_position() {
    let mut p = packet_of(&[1, 2, 3]);
    assert_eq!(u32::unpack_from(&mut p), None);
    assert_eq!(u16::unpack_from(&mut p), Some(0x0201));
    assert_eq!(u16::unpack_from(&mut p), None);
    assert_eq!(u8::unpack_from(&mut p), Some(3));
    assert_eq!(p.buffer, vec![1, 2, 3]);
}

#[test]
fn missing_text_bytes_leave_position_after_prefix() {
    let mut p = packet_of(&[5, 0, b'a', b'b']);
    assert_eq!(String::unpack_from(&mut p), None);
    assert_eq!(u8::unpack_from(&mut p), Some(b'a'));
}

#[test]
fn invalid_utf8_text_is_skipped() {
    let mut p = packet_of(&[2, 0, 0xff, 0xfe, 9]);
    assert_eq!(String::unpack_from(&mut p), None);
    assert_eq!(u8::unpack_from(&mut p), Some(9));
}

#[test]
fn empty_text_round_trips() {
    let mut p = Packet::new(0);
    "".pack_to(&mut p);
    assert_eq!(p.buffer, vec![0, 0]);
    assert_eq!(String::unpack_from(&mut p), Some(String::new()));
}

#[test]
fn reading_from_a_prefilled_packet() {
    let mut p = Packet::new(4);
    assert_eq!(i32::unpack_from(&mut p), Some(0));
    assert_eq!(i32::unpack_from(&mut p), None);
}

#[test]
fn text_length_wraps_as_i16() {
    let long = "a".repeat(0x1_0005);
    let mut p = Packet::new(0);
    long.pack_to(&mut p);
    assert_eq!(&p.buffer[..2], &[5, 0]);
    assert_eq!(p.buffer.len(), 2 + 0x1_0005);
}

#[test]
fn negative_text_length_is_detected() {
    let mut p = Packet::new(0);
    (-3_i16).pack_to(&mut p);
    assert!(!p.can_unpack_text());
    let mut q = Packet::new(0);
    "ok".pack_to(&mut q);
    assert!(q.can_unpack_text());
    assert!(Packet::new(1).can_unpack_text());
}

#[test]
fn readability_of_each_type() {
    let mut p = Packet::new(0);
    (-3_i16).pack_to(&mut p);
    assert!(!String::can_unpack(&p));
    assert!(!str::can_unpack(&p));
    assert!(i32::can_unpack(&p));
    assert!(u8::can_unpack(&Packet::new(0)));
}
