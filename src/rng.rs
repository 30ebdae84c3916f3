//! Deterministic xorshift mixing used by every generator in place of a
//! random number source.
use vstd::prelude::*;

verus! {

/// One round of the 32-bit xorshift mix: `x ^= x << 13; x ^= x >> 17; x ^= x << 5`.
pub open spec fn mix(seed: u32) -> u32 {
    let a = seed ^ ((seed << 13u32) as u32);
    let b = a ^ (a >> 17u32);
    b ^ ((b << 5u32) as u32)
}

/// Mixes `seed` into a pseudo-random 32-bit value.
pub fn pseudo_random(seed: u32) -> (r: u32)
    ensures
        r == mix(seed),
{
    let mut x: u32 = seed;
    x = x ^ (x << 13u32);
    x = x ^ (x >> 17u32);
    x = x ^ (x << 5u32);
    x
}

/// Folds a position into a seed: the position in units times `tenths / 10`,
/// truncated to an integer and saturated into `0 ..= u32::MAX`.
pub open spec fn fold_position(z: i64, tenths: u32) -> u32 {
    let v = (z as int) * (tenths as int) / 10000;
    if z <= 0 {
        0
    } else if v > u32::MAX as int {
        u32::MAX
    } else {
        v as u32
    }
}

/// Executable form of [`fold_position`].
pub fn fold(z: i64, tenths: u32) -> (r: u32)
    ensures
        r == fold_position(z, tenths),
{
    if z <= 0 {
        0
    } else {
        assert((z as u128) * (tenths as u128) <= 0x1_0000_0000_0000_0000 * 0x1_0000_0000)
            by (nonlinear_arith)
            requires
                0 < z,
        ;
        let v: u128 = (z as u128) * (tenths as u128) / 10000u128;
        if v > u32::MAX as u128 {
            u32::MAX
        } else {
            v as u32
        }
    }
}

} // verus!
