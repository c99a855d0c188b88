use vstd::prelude::*;

verus! {

/// Interactive capabilities for a widget, e.g. what happens when it is
/// clicked or typed into, or when a frame renders.
///
/// The arena stores these objects and moves them out on request; it never
/// calls them.
pub trait Behavior {
    /// Optional text for debugging output; empty unless implemented.
    fn debug(&self) -> String {
        String::new()
    }
}

} // verus!
