//! Big-endian integers as they stand on the wire.

use vstd::prelude::*;

verus! {

/// The 16-bit number written as the two bytes `hi`, `lo`.
pub open spec fn be16(hi: u8, lo: u8) -> nat {
    hi as nat * 256 + lo as nat
}

/// The 24-bit number written as the three bytes `b0`, `b1`, `b2`.
pub open spec fn be24(b0: u8, b1: u8, b2: u8) -> nat {
    b0 as nat * 65536 + b1 as nat * 256 + b2 as nat
}

/// The high byte of a 16-bit number.
pub open spec fn hi_byte(v: u16) -> u8 {
    (v / 256) as u8
}

/// The low byte of a 16-bit number.
pub open spec fn lo_byte(v: u16) -> u8 {
    (v % 256) as u8
}

pub fn read_be16(hi: u8, lo: u8) -> (r: u16)
    ensures
        r == be16(hi, lo),
{
    (hi as u16) * 256 + (lo as u16)
}

pub fn read_be24(b0: u8, b1: u8, b2: u8) -> (r: u32)
    ensures
        r == be24(b0, b1, b2),
        r < 0x100_0000,
{
    (b0 as u32) * 65536 + (b1 as u32) * 256 + (b2 as u32)
}

/// Splits a 16-bit number into its two bytes, high byte first.
pub fn write_be16(v: u16) -> (r: (u8, u8))
    ensures
        r.0 == hi_byte(v),
        r.1 == lo_byte(v),
        be16(r.0, r.1) == v,
{
    ((v / 256) as u8, (v % 256) as u8)
}

/// Writing a number and reading it back gives the number.
pub proof fn lemma_be16_round_trip(v: u16)
    ensures
        be16(hi_byte(v), lo_byte(v)) == v,
{
}

} // verus!
