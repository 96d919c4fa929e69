//! Identifier for a drawn map area.
//!
//! Areas themselves carry geometry and tags and are used only for drawing;
//! the engine's logic needs nothing but their identity.

use vstd::prelude::*;

verus! {

/// Identifier of one area, an index assigned by the importer.
#[derive(Clone, Copy, Debug, Eq, Hash, PartialEq, PartialOrd, Ord, Structural)]
pub struct AreaID(pub usize);

impl AreaID {
    /// The identifier's numeric value.
    pub fn value(&self) -> (r: usize)
        ensures
            r == self.0,
    {
        self.0
    }
}

} // verus!
