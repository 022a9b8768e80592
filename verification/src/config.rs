use vstd::prelude::*;

use crate::error::RStudioError;

verus! {

/// Application-level audio configuration.
#[derive(Debug, Clone)]
pub struct AppConfig {
    pub sample_rate: u32,
    pub buffer_size: usize,
}

/// The sample rate lies within the supported range.
pub open spec fn sample_rate_in_range(sample_rate: u32) -> bool {
    AppConfig::MIN_SAMPLE_RATE <= sample_rate <= AppConfig::MAX_SAMPLE_RATE
}

/// The buffer size is non-zero and no larger than the supported maximum.
pub open spec fn buffer_size_in_range(buffer_size: usize) -> bool {
    1 <= buffer_size <= AppConfig::MAX_BUFFER_SIZE
}

impl AppConfig {
    /// Smallest sample rate, in Hz, that a configuration may request.
    pub const MIN_SAMPLE_RATE: u32 = 8_000;

    /// Largest sample rate, in Hz, that a configuration may request.
    pub const MAX_SAMPLE_RATE: u32 = 384_000;

    /// Largest callback buffer, in frames, that a configuration may request.
    pub const MAX_BUFFER_SIZE: usize = 65_536;

    /// A configuration is valid when both of its fields are in range.
    pub open spec fn is_valid(&self) -> bool {
        sample_rate_in_range(self.sample_rate) && buffer_size_in_range(self.buffer_size)
    }

    /// Checks the sample rate first, then the buffer size, and reports the first field that is
    /// out of range.
    pub fn validate(&self) -> (result: Result<(), RStudioError>)
        ensures
            result is Ok <==> self.is_valid(),
            !sample_rate_in_range(self.sample_rate) ==> (result matches Err(
                RStudioError::InvalidConfiguration { field, reason },
            ) && field@ == "sample_rate"@ && reason@ == "must be between 8_000 and 384_000 Hz"@),
            sample_rate_in_range(self.sample_rate) && !buffer_size_in_range(self.buffer_size)
                ==> (result matches Err(RStudioError::InvalidConfiguration { field, reason })
                && field@ == "buffer_size"@ && reason@ == "must be between 1 and 65_536 frames"@),
    {
        if self.sample_rate < Self::MIN_SAMPLE_RATE || self.sample_rate > Self::MAX_SAMPLE_RATE {
            return Err(
                RStudioError::InvalidConfiguration {
                    field: "sample_rate",
                    reason: "must be between 8_000 and 384_000 Hz",
                },
            );
        }
        if self.buffer_size == 0 || self.buffer_size > Self::MAX_BUFFER_SIZE {
            return Err(
                RStudioError::InvalidConfiguration {
                    field: "buffer_size",
                    reason: "must be between 1 and 65_536 frames",
                },
            );
        }
        Ok(())
    }
}

impl Default for AppConfig {
    fn default() -> (config: Self)
        ensures
            config.sample_rate == 44_100,
            config.buffer_size == 512,
    {
        Self { sample_rate: 44_100, buffer_size: 512 }
    }
}

} // verus!
