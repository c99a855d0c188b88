use vstd::prelude::*;

verus! {

/// Controller for the size and positioning of child widgets.
///
/// The arena stores these objects and moves them out on request; it never
/// calls them.
pub trait Layout {
    /// Optional text for debugging output; empty unless implemented.
    fn debug(&self) -> String {
        String::new()
    }
}

} // verus!
