//! Validated geometry values.
//!
//! A single-precision float is held as its IEEE-754 binary32 bit pattern, so
//! that its classification and sign are plain integer facts: bit 31 is the
//! sign, bits 23..31 the biased exponent and bits 0..23 the mantissa.
use vstd::prelude::*;

verus! {

/// The classification of a binary32 value, one variant per IEEE-754 class.
#[derive(Clone, Copy, Debug, PartialEq, Eq, Structural, Hash)]
pub enum FpClass {
    Nan,
    Infinite,
    Zero,
    Subnormal,
    Normal,
}

/// The biased exponent field of a binary32 bit pattern.
pub open spec fn exponent_field(bits: u32) -> int {
    (bits as int / 0x80_0000) % 0x100
}

/// The mantissa field of a binary32 bit pattern.
pub open spec fn mantissa_field(bits: u32) -> int {
    bits as int % 0x80_0000
}

/// Whether the sign bit of a binary32 bit pattern is set (this includes -0.0).
pub open spec fn sign_bit_set(bits: u32) -> bool {
    bits >= 0x8000_0000
}

/// The IEEE-754 class of a binary32 bit pattern.
pub open spec fn class_of(bits: u32) -> FpClass {
    let e = exponent_field(bits);
    let m = mantissa_field(bits);
    if e == 0xff {
        if m == 0 { FpClass::Infinite } else { FpClass::Nan }
    } else if e == 0 {
        if m == 0 { FpClass::Zero } else { FpClass::Subnormal }
    } else {
        FpClass::Normal
    }
}

/// Zero or normal: finite and not subnormal.
pub open spec fn is_zero_or_normal(bits: u32) -> bool {
    class_of(bits) == FpClass::Zero || class_of(bits) == FpClass::Normal
}

/// The invariant of a validated scalar; `non_negative` selects the flavor
/// that also rejects a set sign bit.
pub open spec fn is_valid_scalar(bits: u32, non_negative: bool) -> bool {
    is_zero_or_normal(bits) && (non_negative ==> !sign_bit_set(bits))
}

/// The result that validating `bits` for a flavor gives, as a bit pattern.
pub open spec fn validated(bits: u32, non_negative: bool) -> Result<u32, MathError> {
    if !is_zero_or_normal(bits) {
        Err(MathError::AbnormalFloat(class_of(bits)))
    } else if non_negative && sign_bit_set(bits) {
        Err(MathError::NegativeFloat(bits))
    } else {
        Ok(bits)
    }
}

/// Classifies a binary32 bit pattern.
pub fn classify(bits: u32) -> (r: FpClass)
    ensures
        r == class_of(bits),
{
    let e: u32 = (bits / 0x80_0000) % 0x100;
    let m: u32 = bits % 0x80_0000;
    if e == 0xff {
        if m == 0 { FpClass::Infinite } else { FpClass::Nan }
    } else if e == 0 {
        if m == 0 { FpClass::Zero } else { FpClass::Subnormal }
    } else {
        FpClass::Normal
    }
}

#[derive(Clone, Copy, Debug, PartialEq, Eq, Structural)]
pub enum MathError {
    /// The value was NaN, infinite or subnormal; the class is carried.
    AbnormalFloat(FpClass),
    /// The value had its sign bit set where only non-negative values are
    /// accepted; its bit pattern is carried.
    NegativeFloat(u32),
}

/// A binary32 value that is zero or normal (never NaN, infinite or
/// subnormal); `ValidF32<true>` is moreover non-negative (sign bit clear).
/// Both zeros are valid in the unconstrained flavor.
#[derive(Clone, Copy, Debug, PartialEq, Eq)]
pub struct ValidF32<const POSITIVE: bool>(u32);

impl<const POSITIVE: bool> View for ValidF32<POSITIVE> {
    type V = u32;

    closed spec fn view(&self) -> u32 {
        self.0
    }
}

impl<const POSITIVE: bool> ValidF32<POSITIVE> {
    #[verifier::type_invariant]
    spec fn inv(self) -> bool {
        is_valid_scalar(self.0, POSITIVE)
    }

    /// Positive zero.
    pub fn zero() -> (r: Self)
        ensures
            r@ == 0,
    {
        ValidF32(0)
    }

    /// One (1.0).
    pub fn one() -> (r: Self)
        ensures
            r@ == 0x3f80_0000,
    {
        ValidF32(0x3f80_0000)
    }

    /// The bit pattern of the value.
    pub fn get(self) -> (r: u32)
        ensures
            r == self@,
            is_valid_scalar(r, POSITIVE),
    {
        proof {
            use_type_invariant(&self);
        }
        self.0
    }

    /// Validates the binary32 value with bit pattern `n`.
    ///
    /// # Errors
    /// `AbnormalFloat` with the class when `n` is NaN, infinite or subnormal;
    /// otherwise `NegativeFloat(n)` when the flavor is non-negative and the
    /// sign bit of `n` is set.
    pub fn new(n: u32) -> (r: Result<Self, MathError>)
        ensures
            r is Ok <==> is_valid_scalar(n, POSITIVE),
            r matches Ok(v) ==> v@ == n,
            r matches Err(e) ==> validated(n, POSITIVE) == Err::<u32, MathError>(e),
    {
        let class = classify(n);
        match class {
            FpClass::Zero | FpClass::Normal => {
                if POSITIVE && n >= 0x8000_0000 {
                    Err(MathError::NegativeFloat(n))
                } else {
                    Ok(ValidF32(n))
                }
            },
            _ => Err(MathError::AbnormalFloat(class)),
        }
    }

    /// Wraps `n` without a run-time check; the caller shows that it is valid.
    pub fn new_unchecked(n: u32) -> (r: Self)
        requires
            is_valid_scalar(n, POSITIVE),
        ensures
            r@ == n,
    {
        ValidF32(n)
    }
}

impl ValidF32<true> {
    /// The same value in the unconstrained flavor; this never fails.
    pub fn into_unconstrained(self) -> (r: ValidF32<false>)
        ensures
            r@ == self@,
    {
        proof {
            use_type_invariant(&self);
        }
        ValidF32(self.0)
    }
}

impl ValidF32<false> {
    /// Minus one (-1.0).
    pub fn negative_one() -> (r: Self)
        ensures
            r@ == 0xbf80_0000,
    {
        ValidF32(0xbf80_0000)
    }

    /// The same value in the non-negative flavor.
    ///
    /// # Errors
    /// `NegativeFloat` with the value when its sign bit is set.
    pub fn try_into_non_negative(self) -> (r: Result<ValidF32<true>, MathError>)
        ensures
            r is Ok <==> !sign_bit_set(self@),
            r matches Ok(v) ==> v@ == self@,
            r matches Err(e) ==> e == MathError::NegativeFloat(self@),
    {
        proof {
            use_type_invariant(&self);
        }
        if self.0 >= 0x8000_0000 {
            Err(MathError::NegativeFloat(self.0))
        } else {
            Ok(ValidF32(self.0))
        }
    }
}

/// A pair of validated scalars of the same flavor.
#[derive(Clone, Copy, Debug, PartialEq, Eq)]
pub struct ValidVec2<const POSITIVE: bool> {
    pub x: ValidF32<POSITIVE>,
    pub y: ValidF32<POSITIVE>,
}

impl<const POSITIVE: bool> ValidVec2<POSITIVE> {
    /// Both components positive zero.
    pub fn zero() -> (r: Self)
        ensures
            r.x@ == 0,
            r.y@ == 0,
    {
        ValidVec2 { x: ValidF32::zero(), y: ValidF32::zero() }
    }

    /// The bit patterns of both components, `x` first.
    pub fn get(self) -> (r: [u32; 2])
        ensures
            r@ == seq![self.x@, self.y@],
            is_valid_scalar(r[0], POSITIVE),
            is_valid_scalar(r[1], POSITIVE),
    {
        let r = [self.x.get(), self.y.get()];
        assert(r@ =~= seq![self.x@, self.y@]);
        r
    }

    /// Validates both components; `x` is checked first, and its error wins.
    pub fn new(x: u32, y: u32) -> (r: Result<Self, MathError>)
        ensures
            r is Ok <==> is_valid_scalar(x, POSITIVE) && is_valid_scalar(y, POSITIVE),
            r matches Ok(v) ==> v.x@ == x && v.y@ == y,
            r matches Err(e) ==> if is_valid_scalar(x, POSITIVE) {
                validated(y, POSITIVE) == Err::<u32, MathError>(e)
            } else {
                validated(x, POSITIVE) == Err::<u32, MathError>(e)
            },
    {
        let vx = match ValidF32::new(x) {
            Ok(v) => v,
            Err(e) => return Err(e),
        };
        let vy = match ValidF32::new(y) {
            Ok(v) => v,
            Err(e) => return Err(e),
        };
        Ok(ValidVec2 { x: vx, y: vy })
    }

    /// Wraps both components without a run-time check.
    pub fn new_unchecked(x: u32, y: u32) -> (r: Self)
        requires
            is_valid_scalar(x, POSITIVE),
            is_valid_scalar(y, POSITIVE),
        ensures
            r.x@ == x,
            r.y@ == y,
    {
        ValidVec2 { x: ValidF32::new_unchecked(x), y: ValidF32::new_unchecked(y) }
    }
}

} // verus!
