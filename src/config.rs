//! Settings of the host application's renderer that the editor passes through.

use vstd::prelude::*;

verus! {

/// Renderer settings.
#[derive(Clone, Copy, Debug, PartialEq, Eq, Structural)]
pub struct BevyConfig {
    /// Draw meshes as wireframes.
    pub wireframes: bool,
}

impl Default for BevyConfig {
    fn default() -> (r: BevyConfig)
        ensures
            !r.wireframes,
    {
        BevyConfig { wireframes: false }
    }
}

} // verus!
