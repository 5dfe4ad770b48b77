//! How packets travel over a stream: each one is preceded by its length,
//! taken as an `i16` (wrapping) and written in two little-endian bytes.
use vstd::prelude::*;
use crate::packer::{text_prefix, Packet};
use crate::wire::{le_bytes, le_value, lemma_le_roundtrip, lemma_pow256_values, push_le, to_signed};

verus! {

/// The header written in front of a packet body of `len` bytes.
pub open spec fn frame_header_spec(len: nat) -> Seq<u8> {
    text_prefix(len)
}

/// The bytes of one packet on the stream: its header and its body.
pub struct Frame {
    pub header: Vec<u8>,
    pub body: Vec<u8>,
}

/// The header written in front of a packet body of `len` bytes.
pub fn frame_header(len: usize) -> (h: Vec<u8>)
    ensures
        h@ == frame_header_spec(len as nat),
{
    proof {
        lemma_pow256_values();
    }
    let mut h: Vec<u8> = Vec::with_capacity(2);
    push_le(&mut h, (len % 0x1_0000) as u64, 2);
    assert(h@ =~= le_bytes((len % 0x1_0000) as nat, 2));
    h
}

/// The frame that carries `packet`: the header for its length, then its bytes.
pub fn frame_packet(packet: Packet) -> (f: Frame)
    ensures
        f.header@ == frame_header_spec(packet.data().len()),
        f.body@ == packet.data(),
{
    let body = packet.into_buffer();
    let header = frame_header(body.len());
    Frame { header, body }
}

/// The signed length that a received header announces.
pub fn frame_len(header: [u8; 2]) -> (len: i16)
    ensures
        len as int == to_signed(le_value(header@), 2),
{
    proof {
        lemma_pow256_values();
    }
    let u: u16 = header[0] as u16 + 256 * header[1] as u16;
    let ghost s = header@;
    assert(le_value(s) == s[0] + 256 * le_value(s.drop_first()));
    assert(le_value(s.drop_first()) == s[1] + 256 * le_value(s.drop_first().drop_first()));
    assert(s.drop_first().drop_first().len() == 0);
    if u >= 0x8000 {
        (u as i32 - 0x1_0000) as i16
    } else {
        u as i16
    }
}

/// The body length that a received header announces, or nothing when it
/// announces a negative length, which no sender writes for a body of fewer
/// than 32768 bytes.
pub fn frame_body_len(header: [u8; 2]) -> (r: Option<usize>)
    ensures
        match r {
            Some(n) => n as int == to_signed(le_value(header@), 2),
            None => to_signed(le_value(header@), 2) < 0,
        },
{
    let len = frame_len(header);
    if len < 0 {
        None
    } else {
        Some(len as usize)
    }
}

/// A header announces the length it was written for, for bodies of fewer
/// than 32768 bytes.
pub proof fn law_frame_len_roundtrip(len: nat)
    requires
        len < 0x8000,
    ensures
        frame_header_spec(len).len() == 2,
        to_signed(le_value(frame_header_spec(len)), 2) == len,
{
    lemma_pow256_values();
    assert(len % 0x1_0000 == len);
    lemma_le_roundtrip(len, 2);
}

/// The header for a body of any length is two bytes whose little-endian
/// value is the length modulo 2^16, that is the length taken as an `i16`.
pub proof fn law_frame_header_image(len: nat)
    ensures
        frame_header_spec(len).len() == 2,
        le_value(frame_header_spec(len)) == len % 0x1_0000,
{
    lemma_pow256_values();
    lemma_le_roundtrip(len % 0x1_0000, 2);
}

} // verus!
