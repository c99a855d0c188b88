//! Storage and identity layer for a widget toolkit: an arena that owns widget
//! records, hands out identifiers, recycles slots and keeps parent/child links,
//! plus validated scalar and vector types for widget geometry.
use vstd::prelude::*;

pub mod align;
pub mod behavior;
pub mod error;
pub mod layout;
pub mod math;
pub mod widget;

verus! {

} // verus!
