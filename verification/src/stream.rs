use vstd::prelude::*;

verus! {

/// Buffer sizes that an output device accepts.
#[derive(Debug, Clone, Copy, PartialEq, Eq, Structural)]
pub enum DeviceBufferSize {
    Unknown,
    Range { min_frames: u32, max_frames: u32 },
}

/// Negotiated properties of an output device.
#[derive(Debug, Clone, Copy, PartialEq, Eq, Structural)]
pub struct OutputDeviceInfo {
    pub sample_rate: u32,
    pub channels: u16,
    pub buffer_size: DeviceBufferSize,
}

impl OutputDeviceInfo {
    pub fn new(sample_rate: u32, channels: u16, buffer_size: DeviceBufferSize) -> (info: Self)
        ensures
            info == (OutputDeviceInfo { sample_rate, channels, buffer_size }),
    {
        Self { sample_rate, channels, buffer_size }
    }

    pub fn sample_rate(self) -> (sample_rate: u32)
        ensures
            sample_rate == self.sample_rate,
    {
        self.sample_rate
    }

    pub fn channels(self) -> (channels: u16)
        ensures
            channels == self.channels,
    {
        self.channels
    }

    pub fn buffer_size(self) -> (buffer_size: DeviceBufferSize)
        ensures
            buffer_size == self.buffer_size,
    {
        self.buffer_size
    }
}

} // verus!
