use vstd::prelude::*;

verus! {

/// Number of samples that a registry can hold.
pub const MAX_REGISTERED_SAMPLES: usize = 16;

/// Identifier of a preloaded sample; it is also the sample's slot in the registry.
#[derive(Debug, Clone, Copy, PartialEq, Eq, Hash, Structural)]
pub struct SampleId(pub u16);

impl SampleId {
    pub fn new(value: u16) -> (id: Self)
        ensures
            id.0 == value,
    {
        Self(value)
    }

    pub fn value(self) -> (value: u16)
        ensures
            value == self.0,
    {
        self.0
    }
}

/// The error type of the `hound` WAV reader.
#[verifier::external_type_specification]
#[verifier::external_body]
pub struct ExHoundError(hound::Error);

/// Failures while loading or registering preloaded samples.
#[derive(Debug)]
pub enum SampleLoadError {
    /// Decoded data cannot form a PCM buffer.
    InvalidBuffer,
    /// The WAV reader failed.
    Wav(hound::Error),
    /// The identifier lies past the registry or its slot is already taken.
    RegistryFull,
}

/// Unit type whose loading function reads WAV files; reading lives with the I/O layer.
pub struct WavLoader;

/// Interleaved PCM data of `sample_count` samples forms whole frames of `channels` samples at
/// a non-zero sample rate.
pub fn pcm_layout_is_valid(sample_count: usize, sample_rate: u32, channels: usize) -> (valid: bool)
    ensures
        valid == (sample_rate > 0 && channels > 0 && sample_count % channels == 0),
{
    sample_rate > 0 && channels > 0 && sample_count % channels == 0
}

/// Position of the sample of `channel` in frame `frame` of interleaved data with `channels`
/// channels; a channel past the last one reads the last channel. `None` when the position does
/// not fit in a `usize`.
pub fn pcm_sample_index(frame: usize, channel: usize, channels: usize) -> (index: Option<usize>)
    requires
        channels > 0,
    ensures
        ({
            let lane = if channel < channels { channel as int } else { channels - 1 };
            &&& frame * channels + lane <= usize::MAX ==> index == Some((frame * channels + lane) as usize)
            &&& frame * channels + lane > usize::MAX ==> index is None
        }),
{
    let lane = if channel < channels { channel } else { channels - 1 };
    match frame.checked_mul(channels) {
        Some(start) => start.checked_add(lane),
        None => {
            assert(frame * channels + lane > usize::MAX) by (nonlinear_arith)
                requires
                    frame * channels > usize::MAX,
                    lane >= 0,
            ;
            None
        },
    }
}

/// The slots after inserting `buffer` under `id` into `slots`, when the slot exists and is
/// free.
pub open spec fn insert_accepted<B>(slots: Seq<Option<B>>, id: SampleId) -> bool {
    id.0 < slots.len() && slots[id.0 as int] is None
}

/// The sample stored under `id` in `slots`, if any.
pub open spec fn lookup<B>(slots: Seq<Option<B>>, id: SampleId) -> Option<B> {
    if id.0 < slots.len() {
        slots[id.0 as int]
    } else {
        None
    }
}

/// Collects preloaded samples before the audio stream starts.
pub struct SampleRegistryBuilder<B> {
    samples: Vec<Option<B>>,
}

impl<B> View for SampleRegistryBuilder<B> {
    type V = Seq<Option<B>>;

    /// The slots, by identifier.
    closed spec fn view(&self) -> Seq<Option<B>> {
        self.samples@
    }
}

impl<B> SampleRegistryBuilder<B> {
    /// A builder with `MAX_REGISTERED_SAMPLES` free slots.
    pub fn new() -> (builder: Self)
        ensures
            builder@.len() == MAX_REGISTERED_SAMPLES,
            forall|i: int| 0 <= i < MAX_REGISTERED_SAMPLES ==> (#[trigger] builder@[i]) is None,
    {
        let mut samples: Vec<Option<B>> = Vec::new();
        let mut index: usize = 0;
        while index < MAX_REGISTERED_SAMPLES
            invariant
                index <= MAX_REGISTERED_SAMPLES,
                samples@.len() == index,
                forall|i: int| 0 <= i < index ==> (#[trigger] samples@[i]) is None,
            decreases MAX_REGISTERED_SAMPLES - index,
        {
            samples.push(None);
            index += 1;
        }
        Self { samples }
    }

    /// Stores `buffer` under `id`. An identifier past the registry, or one whose slot is taken,
    /// is refused with `RegistryFull` and the buffer is dropped.
    pub fn insert(&mut self, id: SampleId, buffer: B) -> (result: Result<(), SampleLoadError>)
        ensures
            result is Ok <==> insert_accepted(old(self)@, id),
            result is Ok ==> final(self)@ == old(self)@.update(id.0 as int, Some(buffer)),
            result is Err ==> final(self)@ == old(self)@ && result matches Err(
                SampleLoadError::RegistryFull,
            ),
    {
        let index = id.0 as usize;
        if index >= self.samples.len() {
            return Err(SampleLoadError::RegistryFull);
        }
        if self.samples[index].is_some() {
            return Err(SampleLoadError::RegistryFull);
        }
        self.samples.set(index, Some(buffer));
        Ok(())
    }

    /// Freezes the collected samples into an immutable registry.
    pub fn build(self) -> (registry: SampleRegistry<B>)
        ensures
            registry@ == self@,
    {
        SampleRegistry { samples: self.samples }
    }
}

/// Immutable, preloaded samples read by the audio thread.
pub struct SampleRegistry<B> {
    samples: Vec<Option<B>>,
}

impl<B> View for SampleRegistry<B> {
    type V = Seq<Option<B>>;

    /// The slots, by identifier.
    closed spec fn view(&self) -> Seq<Option<B>> {
        self.samples@
    }
}

impl<B> SampleRegistry<B> {
    /// The sample stored under `id`.
    pub fn get(&self, id: SampleId) -> (sample: Option<&B>)
        ensures
            match sample {
                Some(buffer) => lookup(self@, id) == Some(*buffer),
                None => lookup(self@, id) is None,
            },
    {
        let index = id.0 as usize;
        if index < self.samples.len() {
            match &self.samples[index] {
                Some(buffer) => Some(buffer),
                None => None,
            }
        } else {
            None
        }
    }
}

/// A sample stored in a free slot is what the registry built from those slots returns for
/// that identifier, and storing it leaves every other identifier's sample as it was.
pub proof fn lemma_registry_returns_stored_sample<B>(slots: Seq<Option<B>>, id: SampleId, buffer: B, other: SampleId)
    requires
        insert_accepted(slots, id),
    ensures
        lookup(slots.update(id.0 as int, Some(buffer)), id) == Some(buffer),
        other != id ==> lookup(slots.update(id.0 as int, Some(buffer)), other) == lookup(slots, other),
{
}

} // verus!
