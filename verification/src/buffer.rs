use vstd::prelude::*;

use crate::error::RStudioError;

verus! {

/// Sample rate and interleaved channel count of an audio stream; both are non-zero.
#[derive(Debug, Clone, Copy, PartialEq, Eq, Structural)]
pub struct AudioFormat {
    sample_rate: u32,
    channels: u16,
}

impl AudioFormat {
    #[verifier::type_invariant]
    closed spec fn dimensions_are_positive(self) -> bool {
        self.sample_rate > 0 && self.channels > 0
    }

    /// The sample rate, in Hz.
    pub closed spec fn spec_sample_rate(self) -> u32 {
        self.sample_rate
    }

    /// The number of interleaved channels.
    pub closed spec fn spec_channels(self) -> u16 {
        self.channels
    }

    /// A format with the given dimensions; a zero sample rate or channel count is rejected.
    pub fn new(sample_rate: u32, channels: u16) -> (result: Result<Self, RStudioError>)
        ensures
            result is Ok <==> sample_rate > 0 && channels > 0,
            result matches Ok(format) ==> format.spec_sample_rate() == sample_rate
                && format.spec_channels() == channels,
            result matches Err(error) ==> error matches RStudioError::InvalidAudioBuffer(_),
    {
        if sample_rate == 0 || channels == 0 {
            return Err(RStudioError::InvalidAudioBuffer("sample rate and channel count must be non-zero"));
        }
        Ok(Self { sample_rate, channels })
    }

    pub fn sample_rate(self) -> (sample_rate: u32)
        ensures
            sample_rate == self.spec_sample_rate(),
            sample_rate > 0,
    {
        proof {
            use_type_invariant(self);
        }
        self.sample_rate
    }

    pub fn channels(self) -> (channels: u16)
        ensures
            channels == self.spec_channels(),
            channels > 0,
    {
        proof {
            use_type_invariant(self);
        }
        self.channels
    }

    /// The number of interleaved samples in `frames` frames, or `None` when it does not fit in
    /// a `usize`.
    pub fn sample_count(self, frames: usize) -> (count: Option<usize>)
        ensures
            frames * self.spec_channels() <= usize::MAX ==> count == Some(
                (frames * self.spec_channels()) as usize,
            ),
            frames * self.spec_channels() > usize::MAX ==> count is None,
    {
        frames.checked_mul(self.channels as usize)
    }

    /// The number of frames in a block of `sample_count` interleaved samples, when the samples
    /// form whole frames and there are at most `maximum_frames` of them; `None` otherwise.
    pub fn block_frames(self, sample_count: usize, maximum_frames: usize) -> (frames: Option<usize>)
        ensures
            self.spec_channels() > 0,
            frames == if sample_count % (self.spec_channels() as usize) == 0 && sample_count / (
            self.spec_channels() as usize) <= maximum_frames {
                Some(sample_count / (self.spec_channels() as usize))
            } else {
                None
            },
    {
        proof {
            use_type_invariant(self);
        }
        let channels = self.channels as usize;
        if sample_count % channels == 0 && sample_count / channels <= maximum_frames {
            Some(sample_count / channels)
        } else {
            None
        }
    }
}

} // verus!
