//! Field elements, scalars, group elements and addresses as plain values,
//! with their bit and byte encodings.

use vstd::prelude::*;
use vstd::slice::slice_subrange;
use vstd::bytes::{
    lemma_auto_spec_u64_to_from_le_bytes, spec_u64_from_le_bytes, spec_u64_to_le_bytes,
    u64_from_le_bytes, u64_to_le_bytes,
};

verus! {

/// The number of bits in the encoding of a field element or a scalar.
pub const FIELD_BITS: usize = 256;

/// `2^64`, the weight of the second limb.
pub open spec fn limb_base() -> int {
    0x1_0000_0000_0000_0000
}

/// The integer that four little-endian limbs stand for.
pub open spec fn limbs_value(l0: u64, l1: u64, l2: u64, l3: u64) -> int {
    l0 + limb_base() * (l1 + limb_base() * (l2 + limb_base() * l3))
}

/// The `n` low bits of `x`, least significant first.
pub open spec fn u64_bits_le(x: u64, n: nat) -> Seq<bool> {
    Seq::new(n, |i: int| (x >> (i as u64)) & 1 == 1)
}

/// Appends the `n` low bits of `x`, least significant first.
pub fn push_u64_bits_le(bits: &mut Vec<bool>, x: u64, n: u64)
    requires
        n <= 64,
    ensures
        final(bits)@ == old(bits)@ + u64_bits_le(x, n as nat),
{
    let mut i: u64 = 0;
    while i < n
        invariant
            i <= n <= 64,
            bits@ == old(bits)@ + u64_bits_le(x, i as nat),
        decreases n - i,
    {
        bits.push((x >> i) & 1 == 1);
        i += 1;
        assert(bits@ =~= old(bits)@ + u64_bits_le(x, i as nat));
    }
}

/// An element of the base field, held as four little-endian 64-bit limbs.
#[derive(Clone, Copy, PartialEq, Eq, Structural, Debug, Hash)]
pub struct Field {
    pub l0: u64,
    pub l1: u64,
    pub l2: u64,
    pub l3: u64,
}

impl Field {
    /// The integer that the limbs stand for.
    pub open spec fn value(self) -> int {
        limbs_value(self.l0, self.l1, self.l2, self.l3)
    }

    /// The 256 bits of the encoding, least significant first.
    pub open spec fn bits_le(self) -> Seq<bool> {
        u64_bits_le(self.l0, 64) + u64_bits_le(self.l1, 64) + u64_bits_le(self.l2, 64)
            + u64_bits_le(self.l3, 64)
    }

    /// The 32 bytes of the encoding, least significant first.
    pub open spec fn bytes_le(self) -> Seq<u8> {
        spec_u64_to_le_bytes(self.l0) + spec_u64_to_le_bytes(self.l1) + spec_u64_to_le_bytes(
            self.l2,
        ) + spec_u64_to_le_bytes(self.l3)
    }

    /// The field element whose encoding is the first 32 bytes of `bytes`.
    pub open spec fn from_bytes_le(bytes: Seq<u8>) -> Field {
        Field {
            l0: spec_u64_from_le_bytes(bytes.subrange(0, 8)),
            l1: spec_u64_from_le_bytes(bytes.subrange(8, 16)),
            l2: spec_u64_from_le_bytes(bytes.subrange(16, 24)),
            l3: spec_u64_from_le_bytes(bytes.subrange(24, 32)),
        }
    }

    /// The field element zero.
    pub fn zero() -> (r: Field)
        ensures
            r == (Field { l0: 0, l1: 0, l2: 0, l3: 0 }),
            r.value() == 0,
    {
        Field { l0: 0, l1: 0, l2: 0, l3: 0 }
    }

    /// The field element that stands for a 16-bit integer.
    pub fn from_u16(x: u16) -> (r: Field)
        ensures
            r == Field::spec_from_u64(x as u64),
            r.value() == x,
    {
        Field { l0: x as u64, l1: 0, l2: 0, l3: 0 }
    }

    /// The field element that stands for a 64-bit integer.
    pub open spec fn spec_from_u64(x: u64) -> Field {
        Field { l0: x, l1: 0, l2: 0, l3: 0 }
    }

    /// The field element that stands for a 64-bit integer.
    pub fn from_u64(x: u64) -> (r: Field)
        ensures
            r == Field::spec_from_u64(x),
            r.value() == x,
    {
        Field { l0: x, l1: 0, l2: 0, l3: 0 }
    }

    /// Appends the 256 bits of the encoding, least significant first.
    pub fn push_bits_le(&self, bits: &mut Vec<bool>)
        ensures
            final(bits)@ == old(bits)@ + self.bits_le(),
    {
        push_u64_bits_le(bits, self.l0, 64);
        push_u64_bits_le(bits, self.l1, 64);
        push_u64_bits_le(bits, self.l2, 64);
        push_u64_bits_le(bits, self.l3, 64);
        assert(bits@ =~= old(bits)@ + self.bits_le());
    }

    /// Appends the 32 bytes of the encoding, least significant first.
    pub fn write_le(&self, out: &mut Vec<u8>)
        ensures
            final(out)@ == old(out)@ + self.bytes_le(),
    {
        let mut b0 = u64_to_le_bytes(self.l0);
        let mut b1 = u64_to_le_bytes(self.l1);
        let mut b2 = u64_to_le_bytes(self.l2);
        let mut b3 = u64_to_le_bytes(self.l3);
        out.append(&mut b0);
        out.append(&mut b1);
        out.append(&mut b2);
        out.append(&mut b3);
        assert(out@ =~= old(out)@ + self.bytes_le());
    }

    /// Reads a field element from the 32 bytes at `at`.
    pub fn read_le(bytes: &[u8], at: usize) -> (r: Field)
        requires
            at + 32 <= bytes@.len(),
        ensures
            r == Field::from_bytes_le(bytes@.subrange(at as int, at + 32)),
    {
        let ghost s = bytes@.subrange(at as int, at + 32);
        let len = bytes.len();
        assert(at + 32 <= len);
        let l0 = u64_from_le_bytes(slice_subrange(bytes, at, at + 8));
        let l1 = u64_from_le_bytes(slice_subrange(bytes, at + 8, at + 16));
        let l2 = u64_from_le_bytes(slice_subrange(bytes, at + 16, at + 24));
        let l3 = u64_from_le_bytes(slice_subrange(bytes, at + 24, at + 32));
        proof {
            assert(bytes@.subrange(at as int, at + 8) =~= s.subrange(0, 8));
            assert(bytes@.subrange(at + 8, at + 16) =~= s.subrange(8, 16));
            assert(bytes@.subrange(at + 16, at + 24) =~= s.subrange(16, 24));
            assert(bytes@.subrange(at + 24, at + 32) =~= s.subrange(24, 32));
        }
        Field { l0, l1, l2, l3 }
    }
}

/// A scalar, an integer by which group elements are multiplied, held as the
/// field element that stands for the same integer.
#[derive(Clone, Copy, PartialEq, Eq, Structural, Debug, Hash)]
pub struct Scalar {
    pub repr: Field,
}

impl Scalar {
    /// The integer that the limbs stand for.
    pub open spec fn value(self) -> int {
        self.repr.value()
    }

    /// The scalar whose limbs are the base-`2^64` digits of `v`.
    pub open spec fn from_value(v: int) -> Scalar {
        Scalar {
            repr: Field {
                l0: (v % limb_base()) as u64,
                l1: ((v / limb_base()) % limb_base()) as u64,
                l2: ((v / limb_base() / limb_base()) % limb_base()) as u64,
                l3: ((v / limb_base() / limb_base() / limb_base()) % limb_base()) as u64,
            },
        }
    }

    /// The field element that stands for the same integer.
    pub fn to_field(&self) -> (r: Field)
        ensures
            r == self.repr,
            r.value() == self.value(),
    {
        self.repr
    }
}

/// A point of the curve's group, held as its x-coordinate.
#[derive(Clone, Copy, PartialEq, Eq, Structural, Debug, Hash)]
pub struct Group {
    pub x: Field,
}

impl Group {
    /// The x-coordinate of the point.
    pub fn to_x_coordinate(&self) -> (r: Field)
        ensures
            r == self.x,
    {
        self.x
    }
}

/// An account address: a point of the group.
#[derive(Clone, Copy, PartialEq, Eq, Structural, Debug, Hash)]
pub struct Address {
    pub point: Group,
}

impl Address {
    /// The x-coordinate of the address.
    pub fn to_field(&self) -> (r: Field)
        ensures
            r == self.point.x,
    {
        self.point.x
    }
}

/// The encoding of a field element has 32 bytes and decodes to the element,
/// whatever follows it.
pub proof fn lemma_field_bytes_roundtrip(f: Field, rest: Seq<u8>)
    ensures
        f.bytes_le().len() == 32,
        Field::from_bytes_le(f.bytes_le() + rest) == f,
        Field::from_bytes_le((f.bytes_le() + rest).subrange(0, 32)) == f,
{
    lemma_auto_spec_u64_to_from_le_bytes();
    let s = f.bytes_le() + rest;
    assert(s.subrange(0, 8) =~= spec_u64_to_le_bytes(f.l0));
    assert(s.subrange(8, 16) =~= spec_u64_to_le_bytes(f.l1));
    assert(s.subrange(16, 24) =~= spec_u64_to_le_bytes(f.l2));
    assert(s.subrange(24, 32) =~= spec_u64_to_le_bytes(f.l3));
    let t = s.subrange(0, 32);
    assert(t.subrange(0, 8) =~= s.subrange(0, 8));
    assert(t.subrange(8, 16) =~= s.subrange(8, 16));
    assert(t.subrange(16, 24) =~= s.subrange(16, 24));
    assert(t.subrange(24, 32) =~= s.subrange(24, 32));
}

} // verus!
