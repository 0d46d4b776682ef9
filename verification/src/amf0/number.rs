//! AMF0 numbers: IEEE 754 doubles, held here as their 64-bit patterns.

use vstd::prelude::*;
use vstd::std_specs::cmp::PartialEqSpecImpl;

use crate::bytes::{be64, be64_bytes, push_be64, read_be64};
use crate::error::AmfError;

verus! {

/// An AMF0 number. It holds the bit pattern of the IEEE 754 double it
/// stands for (`f64::to_bits`), which is what the encoding carries.
#[derive(Clone, Copy, Debug)]
pub struct AmfNumber(u64);

impl View for AmfNumber {
    type V = u64;

    closed spec fn view(&self) -> u64 {
        self.0
    }
}

/// Whether `b` is the bit pattern of a NaN: all exponent bits set and a
/// fraction that is not zero.
pub open spec fn is_nan_bits(b: u64) -> bool {
    (b & 0x7FF0_0000_0000_0000u64) == 0x7FF0_0000_0000_0000u64 && (b & 0x000F_FFFF_FFFF_FFFFu64)
        != 0
}

/// Whether `b` is the bit pattern of a zero, positive or negative.
pub open spec fn is_zero_bits(b: u64) -> bool {
    (b & 0x7FFF_FFFF_FFFF_FFFFu64) == 0
}

/// Whether the doubles with bit patterns `a` and `b` compare equal as IEEE
/// 754 says: neither is a NaN, and they have the same pattern or are both
/// zeros (so `0.0 == -0.0`, and a NaN equals nothing, not even itself).
pub open spec fn double_eq(a: u64, b: u64) -> bool {
    !is_nan_bits(a) && !is_nan_bits(b) && (a == b || (is_zero_bits(a) && is_zero_bits(b)))
}

impl PartialEq for AmfNumber {
    fn eq(&self, other: &Self) -> (r: bool) {
        let a = self.0;
        let b = other.0;
        let a_nan = (a & 0x7FF0_0000_0000_0000u64) == 0x7FF0_0000_0000_0000u64 && (a
            & 0x000F_FFFF_FFFF_FFFFu64) != 0;
        let b_nan = (b & 0x7FF0_0000_0000_0000u64) == 0x7FF0_0000_0000_0000u64 && (b
            & 0x000F_FFFF_FFFF_FFFFu64) != 0;
        let both_zero = (a & 0x7FFF_FFFF_FFFF_FFFFu64) == 0 && (b & 0x7FFF_FFFF_FFFF_FFFFu64) == 0;
        !a_nan && !b_nan && (a == b || both_zero)
    }
}

impl PartialEqSpecImpl for AmfNumber {
    open spec fn obeys_eq_spec() -> bool {
        true
    }

    open spec fn eq_spec(&self, other: &Self) -> bool {
        double_eq(self@, other@)
    }
}

/// The number at the start of `s` (eight big-endian bytes), and the bytes it
/// takes.
pub open spec fn spec_parse_number(s: Seq<u8>) -> Result<(u64, int), AmfError> {
    if s.len() < 8 {
        Err(AmfError::NotEnoughData)
    } else {
        Ok((be64(s.take(8)) as u64, 8))
    }
}

impl AmfNumber {
    /// The number whose double has the bit pattern `bits`.
    pub fn new(bits: u64) -> (r: Self)
        ensures
            r@ == bits,
    {
        Self(bits)
    }

    /// Reads a number from the front of `iter` and advances `iter` past it;
    /// on an error `iter` is left as it was.
    pub fn deserialize(iter: &mut &[u8]) -> (r: Result<Self, AmfError>)
        ensures
            match spec_parse_number(old(iter)@) {
                Ok((v, n)) => r matches Ok(x) && x@ == v && final(iter)@ == old(iter)@.skip(n),
                Err(e) => r == Err::<AmfNumber, AmfError>(e) && final(iter)@ == old(iter)@,
            },
    {
        let data: &[u8] = *iter;
        if data.len() < 8 {
            return Err(AmfError::NotEnoughData);
        }
        let bits = read_be64(data, 0);
        assert(data@.subrange(0, 8) == data@.take(8));
        *iter = data.split_at(8).1;
        Ok(Self(bits))
    }

    /// The eight big-endian bytes of the number.
    pub fn serialize(&self) -> (r: Vec<u8>)
        ensures
            r@ == be64_bytes(self@),
    {
        let mut buf: Vec<u8> = Vec::new();
        push_be64(&mut buf, self.0);
        assert(buf@ =~= be64_bytes(self@));
        buf
    }

    /// The bit pattern of the number's double.
    pub fn to_bits(&self) -> (r: u64)
        ensures
            r == self@,
    {
        self.0
    }
}

} // verus!
