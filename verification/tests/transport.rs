use rcall::packer::{Packet, PackTo};
use rcall::transport::{frame_body_len, frame_header, frame_len, frame_packet};

#[test]
fn header_is_length_as_i16() {
    assert_eq!(frame_header(5), vec![5, 0]);
    assert_eq!(frame_header(0x1234), vec![0x34, 0x12]);
    assert_eq!(frame_header(0x1_0001), vec![1, 0]);
}

#[test]
fn header_announces_its_length() {
    assert_eq!(frame_len([5, 0]), 5);
    assert_eq!(frame_len([0xff, 0x7f]), i16::MAX);
    assert_eq!(frame_len([0xff, 0xff]), -1);
    let h = frame_header(300);
    assert_eq!(frame_len([h[0], h[1]]), 300);
}

#[test]
fn frame_holds_header_and_body() {
    let mut p = Packet::new(0);
    7_i32.pack_to(&mut p);
    let f = frame_packet(p);
    assert_eq!(f.header, vec![4, 0]);
    assert_eq!(f.body, vec![7, 0, 0, 0]);
}

#[test]
fn body_length_of_a_header() {
    assert_eq!(frame_body_len([5, 0]), Some(5));
    assert_eq!(frame_body_len([0, 0]), Some(0));
    assert_eq!(frame_body_len([0, 0x80]), None);
}
