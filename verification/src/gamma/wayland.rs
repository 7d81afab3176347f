//! The compositor-based dimming variant: a typed stub. Compositor gamma
//! control needs compositor-specific protocols that this design leaves
//! unimplemented, so construction never succeeds and every operation
//! fails with a fixed message.

use vstd::prelude::*;
use vstd::string::*;

verus! {

pub struct WaylandBackend;

/// The fixed message every stub operation fails with.
pub open spec fn wayland_unimplemented_msg() -> Seq<char> {
    "Wayland gamma control not yet implemented"@
}

impl WaylandBackend {
    /// Never constructs: the compositor variant is not implemented.
    pub fn new() -> (r: Option<WaylandBackend>)
        ensures
            r is None,
    {
        None
    }

    /// The variant's display name.
    pub fn name(&self) -> (r: &'static str)
        ensures
            r@ == "Wayland"@,
    {
        "Wayland"
    }

    /// Always fails with the fixed stub message.
    pub fn unimplemented_error(&self) -> (r: String)
        ensures
            r@ == wayland_unimplemented_msg(),
    {
        String::from_str("Wayland gamma control not yet implemented")
    }
}

} // verus!
