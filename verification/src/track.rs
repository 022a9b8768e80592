use vstd::prelude::*;

verus! {

/// Stable numeric identifier for a track.
#[derive(Debug, Clone, Copy, PartialEq, Eq, Hash, Structural)]
pub struct TrackId(pub u32);

impl TrackId {
    pub fn new(value: u32) -> (id: Self)
        ensures
            id.0 == value,
    {
        Self(value)
    }

    pub fn value(self) -> (value: u32)
        ensures
            value == self.0,
    {
        self.0
    }
}

} // verus!
