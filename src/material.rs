//! The material used where a surface has none of its own.
use vstd::prelude::*;

verus! {

/// A material with no parameters: it absorbs every ray that reaches it.
#[derive(Clone, Copy, Debug, PartialEq, Eq, Structural)]
pub struct DefaultMaterial {}

impl DefaultMaterial {
    pub fn new() -> (r: DefaultMaterial)
        ensures
            r == (DefaultMaterial {}),
    {
        DefaultMaterial {}
    }

    /// Scattering off this material never produces an outgoing ray.
    pub fn scatters(&self) -> (r: bool)
        ensures
            !r,
    {
        false
    }
}

} // verus!
