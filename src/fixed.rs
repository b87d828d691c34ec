use vstd::prelude::*;

verus! {

/// Scale of the fixed-point reward accumulator: 2^48.
pub const FLOAT_SCALAR: u128 = 0x1_0000_0000_0000;

/// The scale as a mathematical integer.
pub open spec fn scale() -> int {
    FLOAT_SCALAR as int
}

} // verus!
