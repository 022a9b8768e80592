use vstd::prelude::*;

use crate::timeline::saturating_end;

verus! {

/// Transport data that can be sent from the audio thread without synchronization.
#[derive(Debug, Clone, Copy, PartialEq, Eq, Structural)]
pub struct TransportState {
    pub position_samples: u64,
    pub playing: bool,
}

impl TransportState {
    pub fn position_samples(self) -> (position: u64)
        ensures
            position == self.position_samples,
    {
        self.position_samples
    }

    pub fn is_playing(self) -> (playing: bool)
        ensures
            playing == self.playing,
    {
        self.playing
    }
}

/// The position reached from `position` after rendering `frames` frames: it moves, saturating
/// at the largest sample position, only while playing.
pub open spec fn advanced_position(position: u64, playing: bool, frames: u64) -> u64 {
    if playing {
        saturating_end(position, frames)
    } else {
        position
    }
}

/// Sample-accurate clock owned by the audio engine: play state, absolute sample position and
/// the negotiated sample rate, which is never zero.
pub struct Transport {
    playing: bool,
    position_samples: u64,
    sample_rate: u32,
}

impl Transport {
    #[verifier::type_invariant]
    closed spec fn rate_is_positive(self) -> bool {
        self.sample_rate >= 1
    }

    /// The transport is playing.
    pub closed spec fn spec_playing(self) -> bool {
        self.playing
    }

    /// The absolute sample position.
    pub closed spec fn spec_position(self) -> u64 {
        self.position_samples
    }

    /// The sample rate, in Hz.
    pub closed spec fn spec_sample_rate(self) -> u32 {
        self.sample_rate
    }

    /// A stopped transport at position zero; a zero sample rate is raised to one.
    pub fn new(sample_rate: u32) -> (transport: Self)
        ensures
            !transport.spec_playing(),
            transport.spec_position() == 0,
            transport.spec_sample_rate() == if sample_rate == 0 { 1 } else { sample_rate },
    {
        Self { playing: false, position_samples: 0, sample_rate: if sample_rate == 0 { 1 } else { sample_rate } }
    }

    pub fn play(&mut self)
        ensures
            final(self).spec_playing(),
            final(self).spec_position() == old(self).spec_position(),
            final(self).spec_sample_rate() == old(self).spec_sample_rate(),
    {
        proof {
            use_type_invariant(&*self);
        }
        self.playing = true;
    }

    pub fn pause(&mut self)
        ensures
            !final(self).spec_playing(),
            final(self).spec_position() == old(self).spec_position(),
            final(self).spec_sample_rate() == old(self).spec_sample_rate(),
    {
        proof {
            use_type_invariant(&*self);
        }
        self.playing = false;
    }

    /// Stops playback and rewinds to position zero.
    pub fn stop(&mut self)
        ensures
            !final(self).spec_playing(),
            final(self).spec_position() == 0,
            final(self).spec_sample_rate() == old(self).spec_sample_rate(),
    {
        proof {
            use_type_invariant(&*self);
        }
        self.playing = false;
        self.position_samples = 0;
    }

    pub fn seek(&mut self, position_samples: u64)
        ensures
            final(self).spec_playing() == old(self).spec_playing(),
            final(self).spec_position() == position_samples,
            final(self).spec_sample_rate() == old(self).spec_sample_rate(),
    {
        proof {
            use_type_invariant(&*self);
        }
        self.position_samples = position_samples;
    }

    /// Sets the sample rate; zero is raised to one.
    pub fn set_sample_rate(&mut self, sample_rate: u32)
        ensures
            final(self).spec_playing() == old(self).spec_playing(),
            final(self).spec_position() == old(self).spec_position(),
            final(self).spec_sample_rate() == if sample_rate == 0 { 1 } else { sample_rate },
    {
        self.sample_rate = if sample_rate == 0 { 1 } else { sample_rate };
    }

    pub fn is_playing(&self) -> (playing: bool)
        ensures
            playing == self.spec_playing(),
    {
        self.playing
    }

    pub fn position_samples(&self) -> (position: u64)
        ensures
            position == self.spec_position(),
    {
        self.position_samples
    }

    pub fn sample_rate(&self) -> (sample_rate: u32)
        ensures
            sample_rate == self.spec_sample_rate(),
            sample_rate >= 1,
    {
        proof {
            use_type_invariant(self);
        }
        self.sample_rate
    }

    pub fn state(&self) -> (state: TransportState)
        ensures
            state == (TransportState {
                position_samples: self.spec_position(),
                playing: self.spec_playing(),
            }),
    {
        TransportState { position_samples: self.position_samples, playing: self.playing }
    }

    /// Accounts for `frames` rendered frames: the position moves only while playing.
    pub fn advance(&mut self, frames: usize)
        ensures
            final(self).spec_playing() == old(self).spec_playing(),
            final(self).spec_sample_rate() == old(self).spec_sample_rate(),
            final(self).spec_position() == advanced_position(
                old(self).spec_position(),
                old(self).spec_playing(),
                frames as u64,
            ),
    {
        proof {
            use_type_invariant(&*self);
        }
        if self.playing {
            self.position_samples = self.position_samples.saturating_add(frames as u64);
        }
    }
}

/// Advancing by `first` frames and then by `second` frames reaches the same position as
/// advancing once by their sum.
pub proof fn lemma_advance_composes(position: u64, playing: bool, first: u64, second: u64)
    requires
        first + second <= u64::MAX,
    ensures
        advanced_position(advanced_position(position, playing, first), playing, second)
            == advanced_position(position, playing, (first + second) as u64),
{
}

/// Advancing never moves the position backwards.
pub proof fn lemma_advance_is_monotonic(position: u64, playing: bool, frames: u64)
    ensures
        position <= advanced_position(position, playing, frames),
{
}

} // verus!
