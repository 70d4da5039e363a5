//! GPU models.

use vstd::prelude::*;

verus! {

/// The chipset of a GPU.
#[derive(Clone, Copy, Debug, PartialEq, Eq, Structural)]
pub struct Chipset {
    /// The chipset number.
    pub id: u32,
}

} // verus!
