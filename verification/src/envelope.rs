use vstd::prelude::*;

verus! {

/// Stages of a deterministic ADSR amplitude envelope.
#[derive(Debug, Clone, Copy, PartialEq, Eq, Structural)]
pub enum AdsrStage {
    Idle,
    Attack,
    Decay,
    Sustain,
    Release,
}

} // verus!
