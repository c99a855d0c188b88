use vstd::prelude::*;
use crate::error::WidgetBaseError;

verus! {

/// A strictly positive handle naming a widget; identifier `n` names slot
/// `n - 1` of the arena.
#[derive(Clone, Copy, Debug, PartialEq, Eq, Structural, PartialOrd, Ord, Hash)]
pub struct WidgetId(usize);

impl View for WidgetId {
    type V = nat;

    closed spec fn view(&self) -> nat {
        self.0 as nat
    }
}

/// Two identifiers with the same value are the same identifier.
pub proof fn lemma_id_view_injective(a: WidgetId, b: WidgetId)
    ensures
        a@ == b@ <==> a == b,
{
}

impl WidgetId {
    #[verifier::type_invariant]
    spec fn inv(self) -> bool {
        self.0 != 0
    }

    /// The identifier of slot `index`.
    pub fn from_index(index: usize) -> (r: Self)
        requires
            index < usize::MAX,
        ensures
            r@ == index + 1,
    {
        WidgetId(index + 1)
    }

    /// The identifier with value `id`.
    pub fn new(id: usize) -> (r: Self)
        requires
            id != 0,
        ensures
            r@ == id,
    {
        WidgetId(id)
    }

    /// The identifier with value `value`.
    ///
    /// # Errors
    /// `InvalidNonZeroUsize` when `value` is zero.
    pub fn try_from_usize(value: usize) -> (r: Result<Self, WidgetBaseError>)
        ensures
            r is Ok <==> value != 0,
            r matches Ok(id) ==> id@ == value,
            r matches Err(e) ==> e == WidgetBaseError::InvalidNonZeroUsize,
    {
        if value == 0 {
            Err(WidgetBaseError::InvalidNonZeroUsize)
        } else {
            Ok(WidgetId(value))
        }
    }

    /// The slot index that this identifier names.
    pub fn to_index(self) -> (r: usize)
        ensures
            r == self@ - 1,
    {
        proof {
            use_type_invariant(&self);
        }
        self.0 - 1
    }

    /// The value of this identifier.
    pub fn to_usize(self) -> (r: usize)
        ensures
            r == self@,
            r >= 1,
    {
        proof {
            use_type_invariant(&self);
        }
        self.0
    }
}

} // verus!
