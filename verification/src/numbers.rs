//! Numbers that are cut to fewer bits.

use vstd::prelude::*;

verus! {

/// The number that the low 32 bits of a number write.
pub open spec fn low_bits(value: int) -> u32 {
    (value % 0x1_0000_0000) as u32
}

/// The low 32 bits of a number.
pub fn low_32(value: i64) -> (low: u32)
    ensures
        low == low_bits(value as int),
{
    if value >= 0 {
        (value as u64 % 0x1_0000_0000) as u32
    } else {
        let below: u64 = (-(value + 1)) as u64;
        (0xffff_ffff - below % 0x1_0000_0000) as u32
    }
}

} // verus!
