use vstd::prelude::*;

verus! {

/// The sign bit of an IEEE 754 binary64 bit pattern.
pub const SIGN_BIT: u64 = 0x8000_0000_0000_0000;

/// Position of a binary64 value in numeric order, read off its bit pattern.
///
/// A binary64 value is stored in sign-magnitude form, and for finite and
/// infinite values the magnitude bits grow with the absolute value. So the
/// signed magnitude orders values as the numbers they stand for, and
/// `+0.0` and `-0.0` share the ordinal 0.
pub open spec fn ordinal_spec(bits: u64) -> int {
    if bits >= SIGN_BIT {
        -((bits - SIGN_BIT) as int)
    } else {
        bits as int
    }
}

/// Ordinal of a binary64 bit pattern (see `ordinal_spec`).
pub fn ordinal_of_bits(bits: u64) -> (r: i64)
    ensures
        r as int == ordinal_spec(bits),
{
    if bits >= SIGN_BIT {
        let magnitude: u64 = bits - SIGN_BIT;
        -(magnitude as i64)
    } else {
        bits as i64
    }
}

/// The ordinals of a column of binary64 bit patterns, position by position.
pub fn ordinals_of_bits(bits: &Vec<u64>) -> (r: Vec<i64>)
    ensures
        r@.len() == bits@.len(),
        forall|i: int| 0 <= i < bits@.len() ==> #[trigger] r@[i] as int == ordinal_spec(bits@[i]),
{
    let mut out: Vec<i64> = Vec::new();
    let mut i: usize = 0;
    while i < bits.len()
        invariant
            0 <= i <= bits@.len(),
            out@.len() == i,
            forall|j: int| 0 <= j < i ==> #[trigger] out@[j] as int == ordinal_spec(bits@[j]),
        decreases bits@.len() - i,
    {
        out.push(ordinal_of_bits(bits[i]));
        i = i + 1;
    }
    out
}

} // verus!
