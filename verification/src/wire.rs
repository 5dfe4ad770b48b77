//! Little-endian byte encoding of unsigned values, the building block of the
//! packet format.
use vstd::prelude::*;

verus! {

/// `256^n`.
pub open spec fn pow256(n: nat) -> nat
    decreases n,
{
    if n == 0 {
        1
    } else {
        256 * pow256((n - 1) as nat)
    }
}

/// The `n` least significant bytes of `x`, least significant first.
pub open spec fn le_bytes(x: nat, n: nat) -> Seq<u8>
    decreases n,
{
    if n == 0 {
        Seq::empty()
    } else {
        seq![(x % 256) as u8] + le_bytes(x / 256, (n - 1) as nat)
    }
}

/// The unsigned value of a little-endian byte string.
pub open spec fn le_value(s: Seq<u8>) -> nat
    decreases s.len(),
{
    if s.len() == 0 {
        0
    } else {
        s[0] as nat + 256 * le_value(s.drop_first())
    }
}

/// The two's-complement image, on `n` bytes, of a signed value.
pub open spec fn to_unsigned(v: int, n: nat) -> nat {
    if v >= 0 {
        v as nat
    } else {
        (v + pow256(n)) as nat
    }
}

/// The signed value whose two's-complement image on `n` bytes is `u`.
pub open spec fn to_signed(u: nat, n: nat) -> int {
    if 2 * u >= pow256(n) {
        u - pow256(n)
    } else {
        u as int
    }
}

pub proof fn lemma_pow256_positive(n: nat)
    ensures
        pow256(n) >= 1,
    decreases n,
{
    if n > 0 {
        lemma_pow256_positive((n - 1) as nat);
    }
}

pub proof fn lemma_pow256_values()
    ensures
        pow256(0) == 1,
        pow256(1) == 0x100,
        pow256(2) == 0x1_0000,
        pow256(3) == 0x100_0000,
        pow256(4) == 0x1_0000_0000,
        pow256(5) == 0x100_0000_0000,
        pow256(6) == 0x1_0000_0000_0000,
        pow256(7) == 0x100_0000_0000_0000,
        pow256(8) == 0x1_0000_0000_0000_0000,
{
    reveal_with_fuel(pow256, 9);
}

pub proof fn lemma_pow256_monotone(a: nat, b: nat)
    requires
        a <= b,
    ensures
        pow256(a) <= pow256(b),
    decreases b,
{
    if a < b {
        lemma_pow256_monotone(a, (b - 1) as nat);
        lemma_pow256_positive((b - 1) as nat);
    }
}

pub proof fn lemma_le_bytes_len(x: nat, n: nat)
    ensures
        le_bytes(x, n).len() == n,
    decreases n,
{
    if n > 0 {
        lemma_le_bytes_len(x / 256, (n - 1) as nat);
    }
}

/// Decoding the `n`-byte encoding of a value below `256^n` gives it back.
pub proof fn lemma_le_roundtrip(x: nat, n: nat)
    requires
        x < pow256(n),
    ensures
        le_value(le_bytes(x, n)) == x,
        le_bytes(x, n).len() == n,
    decreases n,
{
    lemma_le_bytes_len(x, n);
    if n > 0 {
        let rest = le_bytes(x / 256, (n - 1) as nat);
        assert(x / 256 < pow256((n - 1) as nat));
        lemma_le_roundtrip(x / 256, (n - 1) as nat);
        assert(le_bytes(x, n).drop_first() =~= rest);
    }
}

/// A little-endian value read from `n` bytes is below `256^n`.
pub proof fn lemma_le_value_bound(s: Seq<u8>)
    ensures
        le_value(s) < pow256(s.len()),
    decreases s.len(),
{
    if s.len() > 0 {
        lemma_le_value_bound(s.drop_first());
        assert(pow256(s.len()) == 256 * pow256(s.drop_first().len()));
    }
}

pub proof fn lemma_signed_roundtrip(v: int, n: nat)
    requires
        n >= 1,
        -pow256(n) <= 2 * v < pow256(n),
    ensures
        to_unsigned(v, n) < pow256(n),
        to_signed(to_unsigned(v, n), n) == v,
{
}

pub proof fn lemma_unsigned_roundtrip(u: nat, n: nat)
    requires
        u < pow256(n),
    ensures
        -pow256(n) <= 2 * to_signed(u, n) < pow256(n),
        to_unsigned(to_signed(u, n), n) == u,
{
}

/// Appends the `n`-byte little-endian encoding of `x` to `buf`.
pub fn push_le(buf: &mut Vec<u8>, x: u64, n: usize)
    requires
        n <= 8,
        x < pow256(n as nat),
    ensures
        final(buf)@ == old(buf)@ + le_bytes(x as nat, n as nat),
{
    let mut v: u64 = x;
    let mut i: usize = 0;
    while i < n
        invariant
            i <= n,
            buf@ + le_bytes(v as nat, (n - i) as nat) == old(buf)@ + le_bytes(x as nat, n as nat),
        decreases n - i,
    {
        let ghost before = buf@;
        let ghost v0: nat = v as nat;
        let ghost k: nat = (n - i) as nat;
        assert(le_bytes(v0, k) == seq![(v0 % 256) as u8] + le_bytes(v0 / 256, (k - 1) as nat));
        buf.push((v % 256) as u8);
        v = v / 256;
        i = i + 1;
        assert(before + (seq![(v0 % 256) as u8] + le_bytes(v as nat, (n - i) as nat)) =~= buf@
            + le_bytes(v as nat, (n - i) as nat));
    }
}

/// Reads the little-endian value of `buf[start .. start + n]`.
pub fn read_le(buf: &Vec<u8>, start: usize, n: usize) -> (x: u64)
    requires
        n <= 8,
        start + n <= buf@.len(),
    ensures
        x as nat == le_value(buf@.subrange(start as int, start + n)),
{
    let mut v: u64 = 0;
    let mut i: usize = n;
    proof {
        lemma_pow256_values();
    }
    while i > 0
        invariant
            i <= n <= 8,
            start + n <= buf.len(),
            v as nat == le_value(buf@.subrange(start + i, start + n)),
            pow256(0) == 1,
            pow256(8) == 0x1_0000_0000_0000_0000,
        decreases i,
    {
        proof {
            lemma_le_value_bound(buf@.subrange(start + i, start + n));
            lemma_pow256_monotone((n - i) as nat, 7);
            lemma_pow256_values();
        }
        i = i - 1;
        let b = buf[start + i];
        let ghost s = buf@.subrange(start + i, start + n);
        assert(s.drop_first() =~= buf@.subrange(start + i + 1, start + n));
        v = v * 256 + b as u64;
    }
    v
}

} // verus!
