use vstd::prelude::*;

verus! {

/// Stable key for a real-time parameter slot.
#[derive(Debug, Clone, Copy, PartialEq, Eq, Hash, Structural)]
pub struct ParameterId(pub u16);

impl ParameterId {
    pub fn new(value: u16) -> (id: Self)
        ensures
            id.0 == value,
    {
        Self(value)
    }

    pub fn value(self) -> (value: u16)
        ensures
            value == self.0,
    {
        self.0
    }
}

} // verus!
