use vstd::prelude::*;

verus! {

/// Which rendering path the renderer is asked to take at start-up.
#[derive(Debug, Clone, Copy, PartialEq, Eq, Structural)]
pub enum ForcedMode {
    Standard,
    VR,
}

} // verus!
