use vstd::prelude::*;
use crate::math::ValidF32;

verus! {

#[derive(Clone, Copy, Debug, PartialEq, Eq, Structural, Hash, PartialOrd, Ord)]
pub enum Align {
    /// Align to the starting, top, or left side.
    Negative,
    /// Align to the center.
    Zero,
    /// Align to the ending, bottom, or right side.
    Positive,
}

/// The binary32 bit pattern of -1.0, 0.0 or 1.0 for an alignment.
pub open spec fn align_bits(a: Align) -> u32 {
    match a {
        Align::Negative => 0xbf80_0000,
        Align::Zero => 0,
        Align::Positive => 0x3f80_0000,
    }
}

impl Align {
    /// The alignment as a scalar: -1.0, 0.0 or 1.0.
    pub fn scalar(self) -> (r: ValidF32<false>)
        ensures
            r@ == align_bits(self),
    {
        match self {
            Align::Negative => ValidF32::new_unchecked(0xbf80_0000),
            Align::Zero => ValidF32::new_unchecked(0),
            Align::Positive => ValidF32::new_unchecked(0x3f80_0000),
        }
    }
}

} // verus!
