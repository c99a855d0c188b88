use vstd::prelude::*;
use crate::math::{FpClass, class_of, classify, is_zero_or_normal};

verus! {

#[derive(Clone, Copy, Debug, PartialEq, Eq, Structural)]
pub enum WidgetBaseError {
    /// Zero was given where a non-zero identifier is required.
    InvalidNonZeroUsize,
    /// A float that is neither zero nor normal; the class is carried.
    AbnormalFloat(FpClass),
    /// A value holding behavior or layout objects cannot be duplicated.
    TraitObjectCloning,
}

impl WidgetBaseError {
    /// Accepts the binary32 value with bit pattern `bits` when it is zero or
    /// normal, and hands it back unchanged.
    pub fn validate_f32(bits: u32) -> (r: Result<u32, WidgetBaseError>)
        ensures
            is_zero_or_normal(bits) ==> r == Ok::<u32, WidgetBaseError>(bits),
            !is_zero_or_normal(bits) ==> r == Err::<u32, WidgetBaseError>(
                WidgetBaseError::AbnormalFloat(class_of(bits)),
            ),
    {
        match classify(bits) {
            FpClass::Zero | FpClass::Normal => Ok(bits),
            abnormal_class => Err(WidgetBaseError::AbnormalFloat(abnormal_class)),
        }
    }
}

} // verus!
