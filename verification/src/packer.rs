//! Packets and the packing of values into them.
//!
//! A packet is a byte buffer with a read cursor. Values are appended to the
//! buffer by [`PackTo::pack_to`] and read back, in order, from the cursor by
//! [`UnpackFrom::unpack_from`]. Integers are written as their two's-complement
//! image in little-endian order on the width of their type; a string is
//! written as its UTF-8 byte length (as an `i16`) followed by its UTF-8 bytes.
use vstd::prelude::*;
use vstd::utf8::*;
use crate::wire::{
    le_bytes, le_value, lemma_le_roundtrip, lemma_le_value_bound, lemma_pow256_values,
    lemma_pow256_positive, lemma_signed_roundtrip, lemma_unsigned_roundtrip, pow256, push_le,
    read_le, to_signed, to_unsigned,
};
use vstd::arithmetic::div_mod::{
    lemma_mod_add_multiples_vanish, lemma_mod_sub_multiples_vanish, lemma_small_mod,
};

verus! {

broadcast use {encode_utf8_decode_utf8, encode_utf8_valid_utf8};

/// A byte buffer and the position from which the next value is read.
pub struct Packet {
    pub buffer: Vec<u8>,
    index: usize,
}

/// Width in bytes of `usize` on this machine.
pub open spec fn usize_width() -> nat {
    (usize::BITS / 8) as nat
}

/// The bytes that packing an unsigned value of an `n`-byte integer type appends.
pub open spec fn packed_uint(u: nat, n: nat) -> Seq<u8> {
    le_bytes(u, n)
}

/// The bytes that packing a signed value of an `n`-byte integer type appends.
pub open spec fn packed_int(v: int, n: nat) -> Seq<u8> {
    le_bytes(to_unsigned(v, n), n)
}

/// The length prefix written in front of a text of `len` UTF-8 bytes: the
/// length taken as an `i16` (wrapping), in two bytes.
pub open spec fn text_prefix(len: nat) -> Seq<u8> {
    le_bytes(len % 0x1_0000, 2)
}

/// The bytes that packing the text `chars` appends.
pub open spec fn packed_text(chars: Seq<char>) -> Seq<u8> {
    text_prefix(encode_utf8(chars).len()) + encode_utf8(chars)
}

/// Reading an unsigned `n`-byte value at `pos`: the value and the new position,
/// or nothing and the same position when fewer than `n` bytes are left.
pub open spec fn unpack_uint_spec(buf: Seq<u8>, pos: int, n: nat) -> (Option<nat>, int) {
    if pos + n <= buf.len() {
        (Some(le_value(buf.subrange(pos, pos + n))), pos + n)
    } else {
        (None, pos)
    }
}

/// Reading a signed `n`-byte value at `pos`.
pub open spec fn unpack_int_spec(buf: Seq<u8>, pos: int, n: nat) -> (Option<int>, int) {
    let (u, p) = unpack_uint_spec(buf, pos, n);
    match u {
        Some(x) => (Some(to_signed(x, n)), p),
        None => (None, p),
    }
}

/// The length prefix of a text at `pos`, when two bytes are left there.
pub open spec fn text_size_at(buf: Seq<u8>, pos: int) -> Option<int> {
    unpack_int_spec(buf, pos, 2).0
}

/// A text can be read at `pos` without a negative length prefix.
pub open spec fn text_prefix_ok(buf: Seq<u8>, pos: int) -> bool {
    text_size_at(buf, pos) matches Some(size) ==> size >= 0
}

/// Reading a text at `pos`: its length prefix, then that many bytes, which
/// must be valid UTF-8. When the prefix is read but the bytes are missing the
/// position stays after the prefix; invalid UTF-8 is skipped.
pub open spec fn unpack_text_spec(buf: Seq<u8>, pos: int) -> (Option<Seq<char>>, int) {
    match text_size_at(buf, pos) {
        None => (None, pos),
        Some(size) => {
            let start = pos + 2;
            if start + size > buf.len() {
                (None, start)
            } else {
                let bytes = buf.subrange(start, start + size);
                if valid_utf8(bytes) {
                    (Some(decode_utf8(bytes)), start + size)
                } else {
                    (None, start + size)
                }
            }
        },
    }
}

/// Values that can be appended to a packet.
pub trait PackTo {
    /// The bytes that packing `self` appends.
    spec fn packed(&self) -> Seq<u8>;

    fn pack_to(&self, packet: &mut Packet)
        ensures
            final(packet).data() == old(packet).data() + self.packed(),
            final(packet).read_index() == old(packet).read_index(),
    ;
}

/// Values that can be read from a packet at its cursor.
pub trait UnpackFrom {
    type OutType: View;

    /// The inputs on which reading is defined.
    spec fn unpack_requires(buf: Seq<u8>, pos: int) -> bool;

    /// What reading at `pos` gives, and the position after it.
    spec fn unpack_spec(buf: Seq<u8>, pos: int) -> (Option<<Self::OutType as View>::V>, int);

    /// Whether reading is defined at the packet's cursor.
    fn can_unpack(packet: &Packet) -> (b: bool)
        ensures
            b == Self::unpack_requires(packet.data(), packet.read_index() as int),
    ;

    fn unpack_from(packet: &mut Packet) -> (r: Option<Self::OutType>)
        requires
            Self::unpack_requires(old(packet).data(), old(packet).read_index() as int),
        ensures
            final(packet).data() == old(packet).data(),
            final(packet).read_index() == Self::unpack_spec(
                old(packet).data(),
                old(packet).read_index() as int,
            ).1,
            match r {
                Some(v) => Self::unpack_spec(
                    old(packet).data(),
                    old(packet).read_index() as int,
                ).0 == Some(v@),
                None => Self::unpack_spec(
                    old(packet).data(),
                    old(packet).read_index() as int,
                ).0 is None,
            },
    ;
}

/// `core::str::from_utf8`: succeeds exactly on valid UTF-8, and the string
/// slice it gives has exactly the given bytes.
#[verifier::external_body]
fn utf8_str(bytes: &[u8]) -> (r: Option<&str>)
    ensures
        r is Some <==> valid_utf8(bytes@),
        r matches Some(s) ==> encode_utf8(s@) == bytes@,
{
    match core::str::from_utf8(bytes) {
        Ok(s) => Some(s),
        Err(_) => None,
    }
}

impl Packet {
    /// The position from which the next value is read.
    pub closed spec fn read_index(&self) -> nat {
        self.index as nat
    }

    /// The bytes of the packet.
    pub closed spec fn data(&self) -> Seq<u8> {
        self.buffer@
    }

    /// A packet of `len` zero bytes, read from the start.
    pub fn new(len: usize) -> (p: Packet)
        ensures
            p.data() == Seq::new(len as nat, |i: int| 0u8),
            p.read_index() == 0,
    {
        let mut buffer: Vec<u8> = Vec::with_capacity(len);
        let mut i: usize = 0;
        while i < len
            invariant
                i <= len,
                buffer@ == Seq::new(i as nat, |j: int| 0u8),
            decreases len - i,
        {
            buffer.push(0u8);
            i = i + 1;
            assert(buffer@ =~= Seq::new(i as nat, |j: int| 0u8));
        }
        Packet { buffer, index: 0 }
    }

    /// The bytes of the packet, taking it apart.
    pub fn into_buffer(self) -> (b: Vec<u8>)
        ensures
            b@ == self.data(),
    {
        self.buffer
    }

    /// Whether a text can be read at the cursor: no length prefix there, or
    /// one that is not negative.
    pub fn can_unpack_text(&self) -> (b: bool)
        ensures
            b == text_prefix_ok(self.data(), self.read_index() as int),
    {
        proof {
            lemma_pow256_values();
        }
        let len = self.buffer.len();
        if self.index <= len && 2 <= len - self.index {
            let u = read_le(&self.buffer, self.index, 2);
            proof {
                lemma_le_value_bound(self.buffer@.subrange(self.index as int, self.index + 2));
            }
            u < 0x8000
        } else {
            true
        }
    }

    /// Reads an unsigned `n`-byte little-endian value at the cursor.
    fn take_le(&mut self, n: usize) -> (r: Option<u64>)
        requires
            n <= 8,
        ensures
            final(self).buffer@ == old(self).buffer@,
            final(self).read_index() == unpack_uint_spec(
                old(self).buffer@,
                old(self).read_index() as int,
                n as nat,
            ).1,
            match r {
                Some(u) => unpack_uint_spec(
                    old(self).buffer@,
                    old(self).read_index() as int,
                    n as nat,
                ).0 == Some(u as nat),
                None => unpack_uint_spec(
                    old(self).buffer@,
                    old(self).read_index() as int,
                    n as nat,
                ).0 is None,
            },
            r matches Some(u) ==> (u as nat) < pow256(n as nat),
    {
        let len = self.buffer.len();
        if self.index <= len && n <= len - self.index {
            let u = read_le(&self.buffer, self.index, n);
            proof {
                lemma_le_value_bound(self.buffer@.subrange(self.index as int, self.index + n));
            }
            self.index = self.index + n;
            Some(u)
        } else {
            None
        }
    }
}

/// Two's-complement image of `v` on `n <= 4` bytes.
fn image_small(v: i64, n: usize) -> (u: u64)
    requires
        1 <= n <= 4,
        -pow256(n as nat) <= 2 * v < pow256(n as nat),
    ensures
        u as nat == to_unsigned(v as int, n as nat),
        (u as nat) < pow256(n as nat),
{
    proof {
        lemma_pow256_values();
    }
    let m: i64 = if n == 1 {
        0x100
    } else if n == 2 {
        0x1_0000
    } else if n == 3 {
        0x100_0000
    } else {
        0x1_0000_0000
    };
    assert(m == pow256(n as nat));
    if v >= 0 {
        v as u64
    } else {
        (v + m) as u64
    }
}

/// Signed value of the two's-complement image `u` on `n <= 4` bytes.
fn from_image_small(u: u64, n: usize) -> (v: i64)
    requires
        1 <= n <= 4,
        (u as nat) < pow256(n as nat),
    ensures
        v as int == to_signed(u as nat, n as nat),
{
    proof {
        lemma_pow256_values();
    }
    let m: i64 = if n == 1 {
        0x100
    } else if n == 2 {
        0x1_0000
    } else if n == 3 {
        0x100_0000
    } else {
        0x1_0000_0000
    };
    assert(m == pow256(n as nat));
    let w = u as i64;
    if 2 * w >= m {
        w - m
    } else {
        w
    }
}

impl PackTo for i8 {
    open spec fn packed(&self) -> Seq<u8> {
        packed_int(*self as int, 1)
    }

    fn pack_to(&self, packet: &mut Packet) {
        proof {
            lemma_pow256_values();
        }
        let u = image_small(*self as i64, 1);
        push_le(&mut packet.buffer, u, 1);
    }
}

impl PackTo for i16 {
    open spec fn packed(&self) -> Seq<u8> {
        packed_int(*self as int, 2)
    }

    fn pack_to(&self, packet: &mut Packet) {
        proof {
            lemma_pow256_values();
        }
        let u = image_small(*self as i64, 2);
        push_le(&mut packet.buffer, u, 2);
    }
}

impl PackTo for i32 {
    open spec fn packed(&self) -> Seq<u8> {
        packed_int(*self as int, 4)
    }

    fn pack_to(&self, packet: &mut Packet) {
        proof {
            lemma_pow256_values();
        }
        let u = image_small(*self as i64, 4);
        push_le(&mut packet.buffer, u, 4);
        assert(packet.buffer@ == old(packet).buffer@ + le_bytes(u as nat, 4));
        assert(self.packed() == packed_int(*self as int, 4));
    }
}

impl PackTo for i64 {
    open spec fn packed(&self) -> Seq<u8> {
        packed_int(*self as int, 8)
    }

    fn pack_to(&self, packet: &mut Packet) {
        proof {
            lemma_pow256_values();
        }
        let v = *self;
        let u: u64 = if v >= 0 {
            v as u64
        } else {
            ((v + 1) + i64::MAX) as u64 + (i64::MAX as u64 + 1)
        };
        push_le(&mut packet.buffer, u, 8);
    }
}

impl PackTo for u8 {
    open spec fn packed(&self) -> Seq<u8> {
        packed_uint(*self as nat, 1)
    }

    fn pack_to(&self, packet: &mut Packet) {
        proof {
            lemma_pow256_values();
        }
        push_le(&mut packet.buffer, *self as u64, 1);
    }
}

impl PackTo for u16 {
    open spec fn packed(&self) -> Seq<u8> {
        packed_uint(*self as nat, 2)
    }

    fn pack_to(&self, packet: &mut Packet) {
        proof {
            lemma_pow256_values();
        }
        push_le(&mut packet.buffer, *self as u64, 2);
    }
}

impl PackTo for u32 {
    open spec fn packed(&self) -> Seq<u8> {
        packed_uint(*self as nat, 4)
    }

    fn pack_to(&self, packet: &mut Packet) {
        proof {
            lemma_pow256_values();
        }
        push_le(&mut packet.buffer, *self as u64, 4);
    }
}

impl PackTo for u64 {
    open spec fn packed(&self) -> Seq<u8> {
        packed_uint(*self as nat, 8)
    }

    fn pack_to(&self, packet: &mut Packet) {
        proof {
            lemma_pow256_values();
        }
        push_le(&mut packet.buffer, *self, 8);
    }
}

impl PackTo for usize {
    open spec fn packed(&self) -> Seq<u8> {
        packed_uint(*self as nat, usize_width())
    }

    fn pack_to(&self, packet: &mut Packet) {
        proof {
            lemma_pow256_values();
        }
        let n: usize = (usize::BITS / 8) as usize;
        assert(n == 4 || n == 8);
        push_le(&mut packet.buffer, *self as u64, n);
    }
}

impl PackTo for str {
    open spec fn packed(&self) -> Seq<u8> {
        packed_text(self@)
    }

    fn pack_to(&self, packet: &mut Packet) {
        proof {
            lemma_pow256_values();
        }
        let bytes = self.as_bytes();
        let len = bytes.len();
        push_le(&mut packet.buffer, (len % 0x1_0000) as u64, 2);
        let ghost base = packet.buffer@;
        let mut i: usize = 0;
        while i < len
            invariant
                i <= len == bytes@.len(),
                packet.buffer@ == base + bytes@.subrange(0, i as int),
                packet.index == old(packet).index,
            decreases len - i,
        {
            packet.buffer.push(bytes[i]);
            i = i + 1;
            assert(packet.buffer@ =~= base + bytes@.subrange(0, i as int));
        }
        assert(bytes@.subrange(0, len as int) =~= bytes@);
        assert(bytes@ == encode_utf8(self@));
        assert(self.packed() == text_prefix(len as nat) + bytes@);
        assert(packet.data() =~= old(packet).data() + self.packed());
    }
}

impl PackTo for String {
    open spec fn packed(&self) -> Seq<u8> {
        packed_text(self@)
    }

    fn pack_to(&self, packet: &mut Packet) {
        let s = self.as_str();
        s.pack_to(packet);
        assert(s.packed() == self.packed());
    }
}

impl UnpackFrom for i8 {
    type OutType = i8;

    fn can_unpack(packet: &Packet) -> (b: bool) {
        true
    }

    open spec fn unpack_requires(buf: Seq<u8>, pos: int) -> bool {
        true
    }

    open spec fn unpack_spec(buf: Seq<u8>, pos: int) -> (Option<i8>, int) {
        let (v, p) = unpack_int_spec(buf, pos, 1);
        match v {
            Some(x) => (Some(x as i8), p),
            None => (None, p),
        }
    }

    fn unpack_from(packet: &mut Packet) -> (r: Option<i8>) {
        proof {
            lemma_pow256_values();
        }
        match packet.take_le(1) {
            Some(u) => Some(from_image_small(u, 1) as i8),
            None => None,
        }
    }
}

impl UnpackFrom for i16 {
    type OutType = i16;

    fn can_unpack(packet: &Packet) -> (b: bool) {
        true
    }

    open spec fn unpack_requires(buf: Seq<u8>, pos: int) -> bool {
        true
    }

    open spec fn unpack_spec(buf: Seq<u8>, pos: int) -> (Option<i16>, int) {
        let (v, p) = unpack_int_spec(buf, pos, 2);
        match v {
            Some(x) => (Some(x as i16), p),
            None => (None, p),
        }
    }

    fn unpack_from(packet: &mut Packet) -> (r: Option<i16>) {
        proof {
            lemma_pow256_values();
        }
        match packet.take_le(2) {
            Some(u) => Some(from_image_small(u, 2) as i16),
            None => None,
        }
    }
}

impl UnpackFrom for i32 {
    type OutType = i32;

    fn can_unpack(packet: &Packet) -> (b: bool) {
        assert(<i32 as UnpackFrom>::unpack_requires(packet.data(), packet.read_index() as int));
        true
    }

    open spec fn unpack_requires(buf: Seq<u8>, pos: int) -> bool {
        true
    }

    open spec fn unpack_spec(buf: Seq<u8>, pos: int) -> (Option<i32>, int) {
        let (v, p) = unpack_int_spec(buf, pos, 4);
        match v {
            Some(x) => (Some(x as i32), p),
            None => (None, p),
        }
    }

    fn unpack_from(packet: &mut Packet) -> (r: Option<i32>) {
        proof {
            lemma_pow256_values();
        }
        match packet.take_le(4) {
            Some(u) => Some(from_image_small(u, 4) as i32),
            None => None,
        }
    }
}

impl UnpackFrom for i64 {
    type OutType = i64;

    fn can_unpack(packet: &Packet) -> (b: bool) {
        true
    }

    open spec fn unpack_requires(buf: Seq<u8>, pos: int) -> bool {
        true
    }

    open spec fn unpack_spec(buf: Seq<u8>, pos: int) -> (Option<i64>, int) {
        let (v, p) = unpack_int_spec(buf, pos, 8);
        match v {
            Some(x) => (Some(x as i64), p),
            None => (None, p),
        }
    }

    fn unpack_from(packet: &mut Packet) -> (r: Option<i64>) {
        proof {
            lemma_pow256_values();
        }
        match packet.take_le(8) {
            Some(u) => {
                if u >= 0x8000_0000_0000_0000 {
                    Some((u - 0x8000_0000_0000_0000) as i64 - i64::MAX - 1)
                } else {
                    Some(u as i64)
                }
            },
            None => None,
        }
    }
}

impl UnpackFrom for u8 {
    type OutType = u8;

    fn can_unpack(packet: &Packet) -> (b: bool) {
        true
    }

    open spec fn unpack_requires(buf: Seq<u8>, pos: int) -> bool {
        true
    }

    open spec fn unpack_spec(buf: Seq<u8>, pos: int) -> (Option<u8>, int) {
        let (v, p) = unpack_uint_spec(buf, pos, 1);
        match v {
            Some(x) => (Some(x as u8), p),
            None => (None, p),
        }
    }

    fn unpack_from(packet: &mut Packet) -> (r: Option<u8>) {
        proof {
            lemma_pow256_values();
        }
        match packet.take_le(1) {
            Some(u) => Some(u as u8),
            None => None,
        }
    }
}

impl UnpackFrom for u16 {
    type OutType = u16;

    fn can_unpack(packet: &Packet) -> (b: bool) {
        true
    }

    open spec fn unpack_requires(buf: Seq<u8>, pos: int) -> bool {
        true
    }

    open spec fn unpack_spec(buf: Seq<u8>, pos: int) -> (Option<u16>, int) {
        let (v, p) = unpack_uint_spec(buf, pos, 2);
        match v {
            Some(x) => (Some(x as u16), p),
            None => (None, p),
        }
    }

    fn unpack_from(packet: &mut Packet) -> (r: Option<u16>) {
        proof {
            lemma_pow256_values();
        }
        match packet.take_le(2) {
            Some(u) => Some(u as u16),
            None => None,
        }
    }
}

impl UnpackFrom for u32 {
    type OutType = u32;

    fn can_unpack(packet: &Packet) -> (b: bool) {
        true
    }

    open spec fn unpack_requires(buf: Seq<u8>, pos: int) -> bool {
        true
    }

    open spec fn unpack_spec(buf: Seq<u8>, pos: int) -> (Option<u32>, int) {
        let (v, p) = unpack_uint_spec(buf, pos, 4);
        match v {
            Some(x) => (Some(x as u32), p),
            None => (None, p),
        }
    }

    fn unpack_from(packet: &mut Packet) -> (r: Option<u32>) {
        proof {
            lemma_pow256_values();
        }
        match packet.take_le(4) {
            Some(u) => Some(u as u32),
            None => None,
        }
    }
}

impl UnpackFrom for u64 {
    type OutType = u64;

    fn can_unpack(packet: &Packet) -> (b: bool) {
        true
    }

    open spec fn unpack_requires(buf: Seq<u8>, pos: int) -> bool {
        true
    }

    open spec fn unpack_spec(buf: Seq<u8>, pos: int) -> (Option<u64>, int) {
        let (v, p) = unpack_uint_spec(buf, pos, 8);
        match v {
            Some(x) => (Some(x as u64), p),
            None => (None, p),
        }
    }

    fn unpack_from(packet: &mut Packet) -> (r: Option<u64>) {
        proof {
            lemma_pow256_values();
        }
        match packet.take_le(8) {
            Some(u) => Some(u as u64),
            None => None,
        }
    }
}

impl UnpackFrom for usize {
    type OutType = usize;

    fn can_unpack(packet: &Packet) -> (b: bool) {
        true
    }

    open spec fn unpack_requires(buf: Seq<u8>, pos: int) -> bool {
        true
    }

    open spec fn unpack_spec(buf: Seq<u8>, pos: int) -> (Option<usize>, int) {
        let (v, p) = unpack_uint_spec(buf, pos, usize_width());
        match v {
            Some(x) => (Some(x as usize), p),
            None => (None, p),
        }
    }

    fn unpack_from(packet: &mut Packet) -> (r: Option<usize>) {
        proof {
            lemma_pow256_values();
        }
        let n: usize = (usize::BITS / 8) as usize;
        assert(n == 4 || n == 8);
        match packet.take_le(n) {
            Some(u) => Some(u as usize),
            None => None,
        }
    }
}

impl UnpackFrom for String {
    type OutType = String;

    fn can_unpack(packet: &Packet) -> (b: bool) {
        packet.can_unpack_text()
    }

    open spec fn unpack_requires(buf: Seq<u8>, pos: int) -> bool {
        text_prefix_ok(buf, pos)
    }

    open spec fn unpack_spec(buf: Seq<u8>, pos: int) -> (Option<Seq<char>>, int) {
        unpack_text_spec(buf, pos)
    }

    fn unpack_from(packet: &mut Packet) -> (r: Option<String>) {
        let ghost buf = packet.buffer@;
        let ghost pos = packet.index as int;
        proof {
            lemma_pow256_values();
            if pos + 2 <= buf.len() {
                let u = le_value(buf.subrange(pos, pos + 2));
                lemma_le_value_bound(buf.subrange(pos, pos + 2));
                lemma_unsigned_roundtrip(u, 2);
            }
        }
        match i16::unpack_from(packet) {
            None => None,
            Some(size) => {
                assert(text_size_at(buf, pos) == Some(size as int));
                let size = size as usize;
                let len = packet.buffer.len();
                if packet.index <= len && size <= len - packet.index {
                    let start = packet.index;
                    let mut bytes: Vec<u8> = Vec::with_capacity(size);
                    let mut i: usize = 0;
                    while i < size
                        invariant
                            i <= size,
                            start + size <= packet.buffer@.len(),
                            packet.buffer@.len() == len,
                            bytes@ == packet.buffer@.subrange(start as int, start + i),
                        decreases size - i,
                    {
                        bytes.push(packet.buffer[start + i]);
                        i = i + 1;
                        assert(bytes@ =~= packet.buffer@.subrange(start as int, start + i));
                    }
                    packet.index = start + size;
                    match utf8_str(bytes.as_slice()) {
                        Some(s) => Some(s.to_owned()),
                        None => None,
                    }
                } else {
                    None
                }
            },
        }
    }
}

impl UnpackFrom for str {
    type OutType = String;

    fn can_unpack(packet: &Packet) -> (b: bool) {
        packet.can_unpack_text()
    }

    open spec fn unpack_requires(buf: Seq<u8>, pos: int) -> bool {
        text_prefix_ok(buf, pos)
    }

    open spec fn unpack_spec(buf: Seq<u8>, pos: int) -> (Option<Seq<char>>, int) {
        unpack_text_spec(buf, pos)
    }

    fn unpack_from(packet: &mut Packet) -> (r: Option<String>) {
        String::unpack_from(packet)
    }
}

/// A text read at `pos`, where a negative length prefix makes the read fail
/// without consuming anything.
pub open spec fn unpack_text_checked_spec(buf: Seq<u8>, pos: int) -> (Option<Seq<char>>, int) {
    if text_prefix_ok(buf, pos) {
        unpack_text_spec(buf, pos)
    } else {
        (None, pos)
    }
}

impl Packet {
    /// Reads a text at the cursor, refusing a negative length prefix.
    pub(crate) fn unpack_text_checked(&mut self) -> (r: Option<String>)
        ensures
            final(self).data() == old(self).data(),
            final(self).read_index() == unpack_text_checked_spec(
                old(self).data(),
                old(self).read_index() as int,
            ).1,
            match r {
                Some(v) => unpack_text_checked_spec(
                    old(self).data(),
                    old(self).read_index() as int,
                ).0 == Some(v@),
                None => unpack_text_checked_spec(
                    old(self).data(),
                    old(self).read_index() as int,
                ).0 is None,
            },
    {
        proof {
            lemma_pow256_values();
        }
        let len = self.buffer.len();
        if self.index <= len && 2 <= len - self.index {
            let u = read_le(&self.buffer, self.index, 2);
            proof {
                lemma_le_value_bound(self.buffer@.subrange(self.index as int, self.index + 2));
            }
            if u >= 0x8000 {
                return None;
            }
        }
        String::unpack_from(self)
    }
}

/// Reading an unsigned `n`-byte value where one was packed gives it back,
/// whatever came before and after it.
pub proof fn law_uint_roundtrip(prefix: Seq<u8>, u: nat, n: nat, suffix: Seq<u8>)
    requires
        u < pow256(n),
    ensures
        unpack_uint_spec(prefix + packed_uint(u, n) + suffix, prefix.len() as int, n) == (
            Some(u),
            (prefix.len() + n) as int,
        ),
        packed_uint(u, n).len() == n,
{
    lemma_le_roundtrip(u, n);
    let buf = prefix + packed_uint(u, n) + suffix;
    assert(buf.subrange(prefix.len() as int, prefix.len() + n as int) =~= packed_uint(u, n));
}

/// Reading a signed `n`-byte value where one was packed gives it back,
/// whatever came before and after it.
pub proof fn law_int_roundtrip(prefix: Seq<u8>, v: int, n: nat, suffix: Seq<u8>)
    requires
        n >= 1,
        -pow256(n) <= 2 * v < pow256(n),
    ensures
        unpack_int_spec(prefix + packed_int(v, n) + suffix, prefix.len() as int, n) == (
            Some(v),
            (prefix.len() + n) as int,
        ),
        packed_int(v, n).len() == n,
{
    lemma_signed_roundtrip(v, n);
    law_uint_roundtrip(prefix, to_unsigned(v, n), n, suffix);
}

/// Reading a text where one of fewer than 32768 UTF-8 bytes was packed gives
/// it back, whatever came before and after it; its length prefix is not
/// negative.
pub proof fn law_text_roundtrip(prefix: Seq<u8>, chars: Seq<char>, suffix: Seq<u8>)
    requires
        encode_utf8(chars).len() < 0x8000,
    ensures
        text_prefix_ok(prefix + packed_text(chars) + suffix, prefix.len() as int),
        unpack_text_spec(prefix + packed_text(chars) + suffix, prefix.len() as int) == (
            Some(chars),
            (prefix.len() + packed_text(chars).len()) as int,
        ),
        unpack_text_checked_spec(prefix + packed_text(chars) + suffix, prefix.len() as int) == (
            Some(chars),
            (prefix.len() + packed_text(chars).len()) as int,
        ),
{
    lemma_pow256_values();
    let bytes = encode_utf8(chars);
    let len = bytes.len();
    assert(len % 0x1_0000 == len);
    lemma_le_roundtrip(len, 2);
    let buf = prefix + packed_text(chars) + suffix;
    assert(buf =~= prefix + text_prefix(len) + (bytes + suffix));
    law_uint_roundtrip(prefix, len, 2, bytes + suffix);
    assert(to_signed(len, 2) == len);
    let start: int = prefix.len() + 2int;
    assert(buf.subrange(start, start + len as int) =~= bytes);
}

/// Packing then reading an `i8` gives it back.
pub proof fn law_i8_roundtrip(prefix: Seq<u8>, v: i8, suffix: Seq<u8>)
    ensures
        <i8 as UnpackFrom>::unpack_spec(prefix + v.packed() + suffix, prefix.len() as int) == (
            Some(v),
            (prefix.len() + 1) as int,
        ),
{
    lemma_pow256_values();
    law_int_roundtrip(prefix, v as int, 1, suffix);
}

/// Packing then reading an `i16` gives it back.
pub proof fn law_i16_roundtrip(prefix: Seq<u8>, v: i16, suffix: Seq<u8>)
    ensures
        <i16 as UnpackFrom>::unpack_spec(prefix + v.packed() + suffix, prefix.len() as int) == (
            Some(v),
            (prefix.len() + 2) as int,
        ),
{
    lemma_pow256_values();
    law_int_roundtrip(prefix, v as int, 2, suffix);
}

/// Packing then reading an `i32` gives it back.
pub proof fn law_i32_roundtrip(prefix: Seq<u8>, v: i32, suffix: Seq<u8>)
    ensures
        <i32 as UnpackFrom>::unpack_spec(prefix + v.packed() + suffix, prefix.len() as int) == (
            Some(v),
            (prefix.len() + 4) as int,
        ),
        v.packed().len() == 4,
{
    lemma_pow256_values();
    law_int_roundtrip(prefix, v as int, 4, suffix);
}

/// Packing then reading an `i64` gives it back.
pub proof fn law_i64_roundtrip(prefix: Seq<u8>, v: i64, suffix: Seq<u8>)
    ensures
        <i64 as UnpackFrom>::unpack_spec(prefix + v.packed() + suffix, prefix.len() as int) == (
            Some(v),
            (prefix.len() + 8) as int,
        ),
{
    lemma_pow256_values();
    law_int_roundtrip(prefix, v as int, 8, suffix);
}

/// Packing then reading a `u8` gives it back.
pub proof fn law_u8_roundtrip(prefix: Seq<u8>, v: u8, suffix: Seq<u8>)
    ensures
        <u8 as UnpackFrom>::unpack_spec(prefix + v.packed() + suffix, prefix.len() as int) == (
            Some(v),
            (prefix.len() + 1) as int,
        ),
{
    lemma_pow256_values();
    law_uint_roundtrip(prefix, v as nat, 1, suffix);
}

/// Packing then reading a `u16` gives it back.
pub proof fn law_u16_roundtrip(prefix: Seq<u8>, v: u16, suffix: Seq<u8>)
    ensures
        <u16 as UnpackFrom>::unpack_spec(prefix + v.packed() + suffix, prefix.len() as int) == (
            Some(v),
            (prefix.len() + 2) as int,
        ),
{
    lemma_pow256_values();
    law_uint_roundtrip(prefix, v as nat, 2, suffix);
}

/// Packing then reading a `u32` gives it back.
pub proof fn law_u32_roundtrip(prefix: Seq<u8>, v: u32, suffix: Seq<u8>)
    ensures
        <u32 as UnpackFrom>::unpack_spec(prefix + v.packed() + suffix, prefix.len() as int) == (
            Some(v),
            (prefix.len() + 4) as int,
        ),
{
    lemma_pow256_values();
    law_uint_roundtrip(prefix, v as nat, 4, suffix);
}

/// Packing then reading a `u64` gives it back.
pub proof fn law_u64_roundtrip(prefix: Seq<u8>, v: u64, suffix: Seq<u8>)
    ensures
        <u64 as UnpackFrom>::unpack_spec(prefix + v.packed() + suffix, prefix.len() as int) == (
            Some(v),
            (prefix.len() + 8) as int,
        ),
{
    lemma_pow256_values();
    law_uint_roundtrip(prefix, v as nat, 8, suffix);
}

/// Packing then reading a `usize` gives it back.
pub proof fn law_usize_roundtrip(prefix: Seq<u8>, v: usize, suffix: Seq<u8>)
    ensures
        <usize as UnpackFrom>::unpack_spec(prefix + v.packed() + suffix, prefix.len() as int) == (
            Some(v),
            (prefix.len() + usize_width()) as int,
        ),
{
    lemma_pow256_values();
    assert(usize_width() == 4 || usize_width() == 8);
    law_uint_roundtrip(prefix, v as nat, usize_width(), suffix);
}

/// Packing then reading a `String` of fewer than 32768 UTF-8 bytes gives it
/// back, and the read is defined there.
pub proof fn law_string_roundtrip(prefix: Seq<u8>, v: String, suffix: Seq<u8>)
    requires
        encode_utf8(v@).len() < 0x8000,
    ensures
        <String as UnpackFrom>::unpack_requires(prefix + v.packed() + suffix, prefix.len() as int),
        <String as UnpackFrom>::unpack_spec(prefix + v.packed() + suffix, prefix.len() as int) == (
            Some(v@),
            (prefix.len() + v.packed().len()) as int,
        ),
{
    law_text_roundtrip(prefix, v@, suffix);
}

/// Packing a `str` of fewer than 32768 UTF-8 bytes and reading it back as a
/// `str` gives the same text.
pub proof fn law_str_roundtrip(prefix: Seq<u8>, v: &str, suffix: Seq<u8>)
    requires
        encode_utf8(v@).len() < 0x8000,
    ensures
        <str as UnpackFrom>::unpack_requires(prefix + v.packed() + suffix, prefix.len() as int),
        <str as UnpackFrom>::unpack_spec(prefix + v.packed() + suffix, prefix.len() as int) == (
            Some(v@),
            (prefix.len() + v.packed().len()) as int,
        ),
{
    law_text_roundtrip(prefix, v@, suffix);
}

/// Packing never moves the read position and only appends: what was in the
/// packet stays a prefix of it.
pub proof fn law_pack_appends<T: PackTo + ?Sized>(before: Packet, after: Packet, v: &T)
    requires
        after.data() == before.data() + v.packed(),
        after.read_index() == before.read_index(),
    ensures
        after.data().subrange(0, before.data().len() as int) == before.data(),
        after.data().len() == before.data().len() + v.packed().len(),
{
    assert(after.data().subrange(0, before.data().len() as int) =~= before.data());
}


/// The bytes packed for a signed value `v` of an `n`-byte type are `n` bytes
/// whose little-endian value is `v` modulo `256^n`.
proof fn lemma_int_image(v: int, n: nat)
    requires
        n >= 1,
        -pow256(n) <= 2 * v < pow256(n),
    ensures
        packed_int(v, n).len() == n,
        le_value(packed_int(v, n)) as int == v % (pow256(n) as int),
{
    lemma_pow256_positive(n);
    lemma_signed_roundtrip(v, n);
    lemma_le_roundtrip(to_unsigned(v, n), n);
    let p = pow256(n) as int;
    if v >= 0 {
        lemma_small_mod(v as nat, p as nat);
    } else {
        lemma_mod_add_multiples_vanish(v, p);
        lemma_small_mod((v + p) as nat, p as nat);
    }
}

/// Reading a signed `n`-byte value where `n` bytes are left takes them and
/// gives the value in range that is congruent to their little-endian value.
proof fn lemma_int_read(buf: Seq<u8>, pos: int, n: nat)
    requires
        n >= 1,
        0 <= pos,
        pos + n <= buf.len(),
    ensures
        unpack_int_spec(buf, pos, n).1 == pos + n,
        unpack_int_spec(buf, pos, n).0 matches Some(x) && -pow256(n) <= 2 * x < pow256(n) && x
            % (pow256(n) as int) == le_value(buf.subrange(pos, pos + n)) as int,
{
    let s = buf.subrange(pos, pos + n);
    lemma_pow256_positive(n);
    lemma_le_value_bound(s);
    lemma_unsigned_roundtrip(le_value(s), n);
    let u = le_value(s) as int;
    let p = pow256(n) as int;
    lemma_small_mod(le_value(s), pow256(n));
    if 2 * u >= p {
        lemma_mod_sub_multiples_vanish(u, p);
    }
}

/// Packing an `i8` appends its two's-complement image on one byte, least
/// significant byte first: bytes whose little-endian value is `v` modulo
/// `0x100`.
pub proof fn law_i8_packed_image(v: i8)
    ensures
        v.packed().len() == 1,
        le_value(v.packed()) as int == (v as int) % 0x100,
{
    lemma_pow256_values();
    lemma_int_image(v as int, 1);
}

/// Reading an `i8` takes the next one byte and gives the value whose
/// two's-complement image they are, least significant byte first; with fewer
/// bytes left it gives nothing and stays where it was.
pub proof fn law_i8_read_image(buf: Seq<u8>, pos: int)
    requires
        0 <= pos <= buf.len(),
    ensures
        pos + 1 <= buf.len() ==> {
            &&& <i8 as UnpackFrom>::unpack_spec(buf, pos).1 == pos + 1
            &&& <i8 as UnpackFrom>::unpack_spec(buf, pos).0 matches Some(x) && (x as int) % 0x100
                == le_value(buf.subrange(pos, pos + 1)) as int
        },
        pos + 1 > buf.len() ==> <i8 as UnpackFrom>::unpack_spec(buf, pos) == (None::<i8>, pos),
{
    lemma_pow256_values();
    if pos + 1 <= buf.len() {
        lemma_int_read(buf, pos, 1);
    }
}

/// Packing an `i16` appends its two's-complement image on two bytes, least
/// significant byte first: bytes whose little-endian value is `v` modulo
/// `0x1_0000`.
pub proof fn law_i16_packed_image(v: i16)
    ensures
        v.packed().len() == 2,
        le_value(v.packed()) as int == (v as int) % 0x1_0000,
{
    lemma_pow256_values();
    lemma_int_image(v as int, 2);
}

/// Reading an `i16` takes the next two bytes and gives the value whose
/// two's-complement image they are, least significant byte first; with fewer
/// bytes left it gives nothing and stays where it was.
pub proof fn law_i16_read_image(buf: Seq<u8>, pos: int)
    requires
        0 <= pos <= buf.len(),
    ensures
        pos + 2 <= buf.len() ==> {
            &&& <i16 as UnpackFrom>::unpack_spec(buf, pos).1 == pos + 2
            &&& <i16 as UnpackFrom>::unpack_spec(buf, pos).0 matches Some(x) && (x as int) % 0x1_0000
                == le_value(buf.subrange(pos, pos + 2)) as int
        },
        pos + 2 > buf.len() ==> <i16 as UnpackFrom>::unpack_spec(buf, pos) == (None::<i16>, pos),
{
    lemma_pow256_values();
    if pos + 2 <= buf.len() {
        lemma_int_read(buf, pos, 2);
    }
}

/// Packing an `i32` appends its two's-complement image on four bytes, least
/// significant byte first: bytes whose little-endian value is `v` modulo
/// `0x1_0000_0000`.
pub proof fn law_i32_packed_image(v: i32)
    ensures
        v.packed().len() == 4,
        le_value(v.packed()) as int == (v as int) % 0x1_0000_0000,
{
    lemma_pow256_values();
    lemma_int_image(v as int, 4);
}

/// Reading an `i32` takes the next four bytes and gives the value whose
/// two's-complement image they are, least significant byte first; with fewer
/// bytes left it gives nothing and stays where it was.
pub proof fn law_i32_read_image(buf: Seq<u8>, pos: int)
    requires
        0 <= pos <= buf.len(),
    ensures
        pos + 4 <= buf.len() ==> {
            &&& <i32 as UnpackFrom>::unpack_spec(buf, pos).1 == pos + 4
            &&& <i32 as UnpackFrom>::unpack_spec(buf, pos).0 matches Some(x) && (x as int) % 0x1_0000_0000
                == le_value(buf.subrange(pos, pos + 4)) as int
        },
        pos + 4 > buf.len() ==> <i32 as UnpackFrom>::unpack_spec(buf, pos) == (None::<i32>, pos),
{
    lemma_pow256_values();
    if pos + 4 <= buf.len() {
        lemma_int_read(buf, pos, 4);
    }
}

/// Packing an `i64` appends its two's-complement image on eight bytes, least
/// significant byte first: bytes whose little-endian value is `v` modulo
/// `0x1_0000_0000_0000_0000`.
pub proof fn law_i64_packed_image(v: i64)
    ensures
        v.packed().len() == 8,
        le_value(v.packed()) as int == (v as int) % 0x1_0000_0000_0000_0000,
{
    lemma_pow256_values();
    lemma_int_image(v as int, 8);
}

/// Reading an `i64` takes the next eight bytes and gives the value whose
/// two's-complement image they are, least significant byte first; with fewer
/// bytes left it gives nothing and stays where it was.
pub proof fn law_i64_read_image(buf: Seq<u8>, pos: int)
    requires
        0 <= pos <= buf.len(),
    ensures
        pos + 8 <= buf.len() ==> {
            &&& <i64 as UnpackFrom>::unpack_spec(buf, pos).1 == pos + 8
            &&& <i64 as UnpackFrom>::unpack_spec(buf, pos).0 matches Some(x) && (x as int) % 0x1_0000_0000_0000_0000
                == le_value(buf.subrange(pos, pos + 8)) as int
        },
        pos + 8 > buf.len() ==> <i64 as UnpackFrom>::unpack_spec(buf, pos) == (None::<i64>, pos),
{
    lemma_pow256_values();
    if pos + 8 <= buf.len() {
        lemma_int_read(buf, pos, 8);
    }
}

/// Packing a `u8` appends its one byte, least significant first: bytes whose
/// little-endian value is `v`.
pub proof fn law_u8_packed_image(v: u8)
    ensures
        v.packed().len() == 1,
        le_value(v.packed()) == v as nat,
{
    lemma_pow256_values();
    lemma_le_roundtrip(v as nat, 1);
}

/// Reading a `u8` takes the next one byte and gives their little-endian value;
/// with fewer bytes left it gives nothing and stays where it was.
pub proof fn law_u8_read_image(buf: Seq<u8>, pos: int)
    requires
        0 <= pos <= buf.len(),
    ensures
        pos + 1 <= buf.len() ==> <u8 as UnpackFrom>::unpack_spec(buf, pos) == (
            Some(le_value(buf.subrange(pos, pos + 1)) as u8),
            pos + 1,
        ) && le_value(buf.subrange(pos, pos + 1)) < pow256(1),
        pos + 1 > buf.len() ==> <u8 as UnpackFrom>::unpack_spec(buf, pos) == (None::<u8>, pos),
{
    lemma_pow256_values();
    if pos + 1 <= buf.len() {
        lemma_le_value_bound(buf.subrange(pos, pos + 1));
    }
}

/// Packing a `u16` appends its two bytes, least significant first: bytes whose
/// little-endian value is `v`.
pub proof fn law_u16_packed_image(v: u16)
    ensures
        v.packed().len() == 2,
        le_value(v.packed()) == v as nat,
{
    lemma_pow256_values();
    lemma_le_roundtrip(v as nat, 2);
}

/// Reading a `u16` takes the next two bytes and gives their little-endian value;
/// with fewer bytes left it gives nothing and stays where it was.
pub proof fn law_u16_read_image(buf: Seq<u8>, pos: int)
    requires
        0 <= pos <= buf.len(),
    ensures
        pos + 2 <= buf.len() ==> <u16 as UnpackFrom>::unpack_spec(buf, pos) == (
            Some(le_value(buf.subrange(pos, pos + 2)) as u16),
            pos + 2,
        ) && le_value(buf.subrange(pos, pos + 2)) < pow256(2),
        pos + 2 > buf.len() ==> <u16 as UnpackFrom>::unpack_spec(buf, pos) == (None::<u16>, pos),
{
    lemma_pow256_values();
    if pos + 2 <= buf.len() {
        lemma_le_value_bound(buf.subrange(pos, pos + 2));
    }
}

/// Packing a `u32` appends its four bytes, least significant first: bytes whose
/// little-endian value is `v`.
pub proof fn law_u32_packed_image(v: u32)
    ensures
        v.packed().len() == 4,
        le_value(v.packed()) == v as nat,
{
    lemma_pow256_values();
    lemma_le_roundtrip(v as nat, 4);
}

/// Reading a `u32` takes the next four bytes and gives their little-endian value;
/// with fewer bytes left it gives nothing and stays where it was.
pub proof fn law_u32_read_image(buf: Seq<u8>, pos: int)
    requires
        0 <= pos <= buf.len(),
    ensures
        pos + 4 <= buf.len() ==> <u32 as UnpackFrom>::unpack_spec(buf, pos) == (
            Some(le_value(buf.subrange(pos, pos + 4)) as u32),
            pos + 4,
        ) && le_value(buf.subrange(pos, pos + 4)) < pow256(4),
        pos + 4 > buf.len() ==> <u32 as UnpackFrom>::unpack_spec(buf, pos) == (None::<u32>, pos),
{
    lemma_pow256_values();
    if pos + 4 <= buf.len() {
        lemma_le_value_bound(buf.subrange(pos, pos + 4));
    }
}

/// Packing a `u64` appends its eight bytes, least significant first: bytes whose
/// little-endian value is `v`.
pub proof fn law_u64_packed_image(v: u64)
    ensures
        v.packed().len() == 8,
        le_value(v.packed()) == v as nat,
{
    lemma_pow256_values();
    lemma_le_roundtrip(v as nat, 8);
}

/// Reading a `u64` takes the next eight bytes and gives their little-endian value;
/// with fewer bytes left it gives nothing and stays where it was.
pub proof fn law_u64_read_image(buf: Seq<u8>, pos: int)
    requires
        0 <= pos <= buf.len(),
    ensures
        pos + 8 <= buf.len() ==> <u64 as UnpackFrom>::unpack_spec(buf, pos) == (
            Some(le_value(buf.subrange(pos, pos + 8)) as u64),
            pos + 8,
        ) && le_value(buf.subrange(pos, pos + 8)) < pow256(8),
        pos + 8 > buf.len() ==> <u64 as UnpackFrom>::unpack_spec(buf, pos) == (None::<u64>, pos),
{
    lemma_pow256_values();
    if pos + 8 <= buf.len() {
        lemma_le_value_bound(buf.subrange(pos, pos + 8));
    }
}

/// Packing a text appends its UTF-8 byte count, taken as an `i16` (wrapping)
/// in two little-endian bytes, then its UTF-8 bytes.
pub proof fn law_text_packed_layout(chars: Seq<char>)
    ensures
        packed_text(chars).len() == 2 + encode_utf8(chars).len(),
        le_value(packed_text(chars).subrange(0, 2)) == encode_utf8(chars).len() % 0x1_0000,
        packed_text(chars).subrange(2, packed_text(chars).len() as int) == encode_utf8(chars),
{
    lemma_pow256_values();
    let len = encode_utf8(chars).len();
    lemma_le_roundtrip(len % 0x1_0000, 2);
    assert(packed_text(chars).subrange(0, 2) =~= text_prefix(len));
    assert(packed_text(chars).subrange(2, packed_text(chars).len() as int) =~= encode_utf8(chars));
}

/// Packing a `String` appends its UTF-8 byte count as a wrapping `i16` in two
/// little-endian bytes, then its UTF-8 bytes.
pub proof fn law_string_packed_layout(v: String)
    ensures
        v.packed() == text_prefix(encode_utf8(v@).len()) + encode_utf8(v@),
        le_value(text_prefix(encode_utf8(v@).len())) == encode_utf8(v@).len() % 0x1_0000,
        text_prefix(encode_utf8(v@).len()).len() == 2,
{
    lemma_pow256_values();
    lemma_le_roundtrip(encode_utf8(v@).len() % 0x1_0000, 2);
}

/// Packing a `str` appends its UTF-8 byte count as a wrapping `i16` in two
/// little-endian bytes, then its UTF-8 bytes.
pub proof fn law_str_packed_layout(v: &str)
    ensures
        v.packed() == text_prefix(encode_utf8(v@).len()) + encode_utf8(v@),
        le_value(text_prefix(encode_utf8(v@).len())) == encode_utf8(v@).len() % 0x1_0000,
        text_prefix(encode_utf8(v@).len()).len() == 2,
{
    lemma_pow256_values();
    lemma_le_roundtrip(encode_utf8(v@).len() % 0x1_0000, 2);
}


/// Reading a text at `pos` reads a two-byte little-endian length `l` (an
/// `i16`); a text comes back exactly when `l` is not negative, `l` bytes
/// follow and they are valid UTF-8. The text is then the one whose UTF-8
/// encoding is those bytes, and reading ends right after them. With fewer
/// than two bytes left, or a negative length, nothing is read.
pub proof fn law_text_read(buf: Seq<u8>, pos: int)
    requires
        0 <= pos <= buf.len(),
    ensures
        pos + 2 > buf.len() ==> unpack_text_checked_spec(buf, pos) == (None::<Seq<char>>, pos),
        pos + 2 <= buf.len() ==> {
            let l = le_value(buf.subrange(pos, pos + 2)) as int;
            let r = unpack_text_checked_spec(buf, pos);
            &&& l >= 0x8000 ==> r == (None::<Seq<char>>, pos)
            &&& (l < 0x8000 && pos + 2 + l <= buf.len() && valid_utf8(
                buf.subrange(pos + 2, pos + 2 + l),
            )) ==> r.0 is Some
            &&& r.0 matches Some(chars) ==> {
                &&& l < 0x8000
                &&& r.1 == pos + 2 + l
                &&& encode_utf8(chars) == buf.subrange(pos + 2, pos + 2 + l)
            }
        },
{
    lemma_pow256_values();
    if pos + 2 <= buf.len() {
        let sub = buf.subrange(pos, pos + 2);
        lemma_le_value_bound(sub);
        let l = le_value(sub) as int;
        if l < 0x8000 {
            assert(to_signed(le_value(sub), 2) == l);
            let bytes = buf.subrange(pos + 2, pos + 2 + l);
            if pos + 2 + l <= buf.len() && valid_utf8(bytes) {
                decode_utf8_encode_utf8(bytes);
            }
        } else {
            assert(to_signed(le_value(sub), 2) < 0);
        }
    }
}
} // verus!
