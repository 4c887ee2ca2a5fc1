//! A track's state.

use vstd::prelude::*;

verus! {

/// A track's state; volume and pan are bit patterns.
#[derive(Debug)]
pub struct TrackState {
    pub id: String,
    /// Linear, between zero and two.
    pub volume: u32,
    /// Between minus one and one.
    pub pan: u32,
    pub muted: bool,
    pub solo: bool,
}

impl TrackState {
    /// A track at unity, in the middle, heard.
    pub fn new(id: &str) -> (r: Self)
        ensures
            r.id@ == id@,
            r.volume == 0x3f80_0000,
            r.pan == 0,
            !r.muted,
            !r.solo,
    {
        TrackState {
            id: id.to_owned(),
            volume: 0x3f80_0000,
            pan: 0,
            muted: false,
            solo: false,
        }
    }

    /// The gain that the track is heard with, as a bit pattern: none when it is
    /// muted.
    pub fn effective_gain(&self) -> (r: u32)
        ensures
            r == if self.muted {
                0
            } else {
                self.volume
            },
    {
        if self.muted {
            0
        } else {
            self.volume
        }
    }
}

} // verus!
