//! The master's state.

use vstd::prelude::*;

verus! {

/// The master's state; the volume is linear and a bit pattern.
#[derive(Clone, Copy, Debug, PartialEq, Eq, Structural)]
pub struct MasterState {
    pub volume: u32,
}

impl Default for MasterState {
    fn default() -> (r: Self)
        ensures
            r == (MasterState { volume: 0x3f80_0000 }),
    {
        MasterState { volume: 0x3f80_0000 }
    }
}

} // verus!
