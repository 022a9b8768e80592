use vstd::prelude::*;

use crate::buffer::AudioFormat;
use crate::parameter::ParameterId;

verus! {

/// An effect that scales a block by the value of one parameter.
#[derive(Debug, Clone, Copy, PartialEq, Eq, Structural)]
pub struct GainEffect {
    pub parameter: ParameterId,
}

impl GainEffect {
    pub fn new(parameter: ParameterId) -> (effect: Self)
        ensures
            effect.parameter == parameter,
    {
        Self { parameter }
    }

    /// The parameter that supplies the gain.
    pub fn parameter(self) -> (parameter: ParameterId)
        ensures
            parameter == self.parameter,
    {
        self.parameter
    }

    /// A gain holds no format-dependent state; preparing it changes nothing.
    pub fn prepare(&mut self, format: AudioFormat)
        ensures
            *final(self) == *old(self),
    {
    }
}

/// One position of an effect rack.
#[derive(Debug, Clone, Copy, PartialEq, Eq, Structural)]
pub enum EffectSlot {
    Empty,
    Gain(GainEffect),
}

/// Fixed-capacity chain of effects, run in slot order.
pub struct EffectRack<const N: usize> {
    slots: [EffectSlot; N],
}

impl<const N: usize> View for EffectRack<N> {
    type V = Seq<EffectSlot>;

    /// The slots, in processing order.
    closed spec fn view(&self) -> Seq<EffectSlot> {
        self.slots@
    }
}

impl<const N: usize> EffectRack<N> {
    /// A rack whose `N` slots are all empty.
    pub fn empty() -> (rack: Self)
        ensures
            rack@.len() == N,
            forall|i: int| 0 <= i < N ==> #[trigger] rack@[i] == EffectSlot::Empty,
    {
        Self { slots: [EffectSlot::Empty; N] }
    }

    /// Places `effect` in slot `index`; an index past the rack is refused.
    pub fn set_gain(&mut self, index: usize, effect: GainEffect) -> (placed: bool)
        ensures
            old(self)@.len() == N,
            final(self)@.len() == N,
            placed == (index < N),
            placed ==> final(self)@ == old(self)@.update(index as int, EffectSlot::Gain(effect)),
            !placed ==> final(self)@ == old(self)@,
    {
        if index < N {
            self.slots[index] = EffectSlot::Gain(effect);
            true
        } else {
            false
        }
    }

    /// Prepares every effect for `format`.
    pub fn prepare(&mut self, format: AudioFormat)
        ensures
            old(self)@.len() == N,
            final(self)@ == old(self)@,
    {
        let mut index: usize = 0;
        while index < N
            invariant
                index <= N,
                self.slots@ == old(self)@,
            decreases N - index,
        {
            if let EffectSlot::Gain(mut effect) = self.slots[index] {
                effect.prepare(format);
                self.slots[index] = EffectSlot::Gain(effect);
            }
            index += 1;
        }
    }

    /// The slots, in processing order.
    pub fn slots(&self) -> (slots: &[EffectSlot; N])
        ensures
            slots@ == self@,
            slots@.len() == N,
    {
        &self.slots
    }
}

} // verus!
