use vstd::prelude::*;

use crate::sample::{SampleId, SampleLoadError, SampleRegistry, SampleRegistryBuilder, insert_accepted, MAX_REGISTERED_SAMPLES};
use crate::snapshot::{AudioSnapshot, SnapshotCompileError, compiled};
use crate::timeline::{AudioClip, ClipId, ClipSource, SampleTime, Timeline};
use crate::track::TrackId;

verus! {

/// Number of tracks that the fixed real-time graph renders.
pub const MVP_TRACK_COUNT: usize = 2;

/// UI-facing metadata for a fixed render track.
#[derive(Debug, Clone, PartialEq, Eq)]
pub struct ProjectTrack {
    pub id: TrackId,
    pub name: String,
}

impl ProjectTrack {
    pub fn id(&self) -> (id: TrackId)
        ensures
            id == self.id,
    {
        self.id
    }

    pub fn name(&self) -> (name: &str)
        ensures
            name@ == self.name@,
    {
        self.name.as_str()
    }
}

/// Refusals of project edits.
#[derive(Debug, Clone, Copy, PartialEq, Eq, Structural)]
pub enum ProjectError {
    /// The fixed renderer supports no further track.
    TrackCapacityReached,
}

/// The clip `clip_id` was issued before the counter reached `next`: it lies below `next`,
/// unless the counter is stuck at its largest value.
pub open spec fn issued_before(clip_id: ClipId, next: u64) -> bool {
    clip_id.0 < next || (clip_id.0 == u64::MAX && next == u64::MAX)
}

/// `counter + 1`, saturated at the largest `u64`.
pub open spec fn next_counter(counter: u64) -> u64 {
    if counter == u64::MAX {
        counter
    } else {
        (counter + 1) as u64
    }
}

/// Editable project state, owned by the application thread. `B` is the type of the preloaded
/// sample data.
pub struct Project<B> {
    timeline: Timeline,
    tracks: Vec<ProjectTrack>,
    samples: SampleRegistryBuilder<B>,
    next_clip_id: u64,
    next_sample_id: u16,
}

impl<B> Project<B> {
    #[verifier::type_invariant]
    closed spec fn well_formed(self) -> bool {
        &&& self.tracks@.len() <= MVP_TRACK_COUNT
        &&& forall|i: int| 0 <= i < self.tracks@.len() ==> (#[trigger] self.tracks@[i]).id == TrackId((i + 1) as u32)
        &&& forall|i: int| 0 <= i < self.timeline@.len() ==> issued_before((#[trigger] self.timeline@[i]).id, self.next_clip_id)
    }

    /// The project's clips, in insertion order.
    pub closed spec fn spec_clips(&self) -> Seq<AudioClip> {
        self.timeline@
    }

    /// The project's tracks, in creation order.
    pub closed spec fn spec_tracks(&self) -> Seq<ProjectTrack> {
        self.tracks@
    }

    /// The sample slots, by identifier.
    pub closed spec fn spec_samples(&self) -> Seq<Option<B>> {
        self.samples@
    }

    /// The identifier that the next clip receives.
    pub closed spec fn spec_next_clip_id(&self) -> u64 {
        self.next_clip_id
    }

    /// The identifier that the next sample receives.
    pub closed spec fn spec_next_sample_id(&self) -> u16 {
        self.next_sample_id
    }

    /// An empty project: no tracks, no clips, free sample slots; clips are numbered from one
    /// and samples from zero.
    pub fn new() -> (project: Self)
        ensures
            project.spec_clips() == Seq::<AudioClip>::empty(),
            project.spec_tracks() == Seq::<ProjectTrack>::empty(),
            project.spec_samples().len() == MAX_REGISTERED_SAMPLES,
            forall|i: int| 0 <= i < MAX_REGISTERED_SAMPLES ==> (#[trigger] project.spec_samples()[i]) is None,
            project.spec_next_clip_id() == 1,
            project.spec_next_sample_id() == 0,
    {
        Self {
            timeline: Timeline::new(),
            tracks: Vec::new(),
            samples: SampleRegistryBuilder::new(),
            next_clip_id: 1,
            next_sample_id: 0,
        }
    }

    pub fn tracks(&self) -> (tracks: &[ProjectTrack])
        ensures
            tracks@ == self.spec_tracks(),
    {
        self.tracks.as_slice()
    }

    /// Adds one of the two tracks supported by the fixed real-time graph; its identifier is its
    /// position, counted from one.
    pub fn add_track(&mut self, name: &str) -> (result: Result<TrackId, ProjectError>)
        ensures
            old(self).spec_tracks().len() >= MVP_TRACK_COUNT ==> result == Err::<TrackId, _>(
                ProjectError::TrackCapacityReached,
            ) && final(self).spec_tracks() == old(self).spec_tracks(),
            old(self).spec_tracks().len() < MVP_TRACK_COUNT ==> {
                &&& result == Ok::<_, ProjectError>(TrackId((old(self).spec_tracks().len() + 1) as u32))
                &&& final(self).spec_tracks().len() == old(self).spec_tracks().len() + 1
                &&& final(self).spec_tracks().drop_last() == old(self).spec_tracks()
                &&& final(self).spec_tracks().last().id == result->Ok_0
                &&& final(self).spec_tracks().last().name@ == name@
            },
            final(self).spec_clips() == old(self).spec_clips(),
            final(self).spec_samples() == old(self).spec_samples(),
            final(self).spec_next_clip_id() == old(self).spec_next_clip_id(),
            final(self).spec_next_sample_id() == old(self).spec_next_sample_id(),
    {
        proof {
            use_type_invariant(&*self);
        }
        if self.tracks.len() >= MVP_TRACK_COUNT {
            return Err(ProjectError::TrackCapacityReached);
        }
        let id = TrackId::new((self.tracks.len() + 1) as u32);
        let mut tracks: Vec<ProjectTrack> = Vec::new();
        std::mem::swap(&mut tracks, &mut self.tracks);
        tracks.push(ProjectTrack { id, name: name.to_owned() });
        self.tracks = tracks;
        assert(self.tracks@.drop_last() == old(self).tracks@);
        Ok(id)
    }

    /// Places a synthesizer clip on `track_id` and returns its new identifier.
    pub fn add_synth_clip(&mut self, track_id: TrackId, start: SampleTime, length: SampleTime) -> (clip_id: ClipId)
        ensures
            clip_id == ClipId(old(self).spec_next_clip_id()),
            final(self).spec_next_clip_id() == next_counter(old(self).spec_next_clip_id()),
            final(self).spec_clips() == old(self).spec_clips().push(
                AudioClip { id: clip_id, track_id, start_position: start, length, source: ClipSource::Synth },
            ),
            old(self).spec_next_clip_id() < u64::MAX ==> forall|i: int|
                0 <= i < old(self).spec_clips().len() ==> (#[trigger] old(self).spec_clips()[i]).id != clip_id,
            final(self).spec_tracks() == old(self).spec_tracks(),
            final(self).spec_samples() == old(self).spec_samples(),
            final(self).spec_next_sample_id() == old(self).spec_next_sample_id(),
    {
        self.add_clip(track_id, start, length, ClipSource::Synth)
    }

    /// Places a clip that plays the sample `sample_id` on `track_id` and returns its new
    /// identifier.
    pub fn add_audio_clip(&mut self, track_id: TrackId, start: SampleTime, length: SampleTime, sample_id: SampleId) -> (clip_id: ClipId)
        ensures
            clip_id == ClipId(old(self).spec_next_clip_id()),
            final(self).spec_next_clip_id() == next_counter(old(self).spec_next_clip_id()),
            final(self).spec_clips() == old(self).spec_clips().push(
                AudioClip {
                    id: clip_id,
                    track_id,
                    start_position: start,
                    length,
                    source: ClipSource::AudioFile(sample_id),
                },
            ),
            old(self).spec_next_clip_id() < u64::MAX ==> forall|i: int|
                0 <= i < old(self).spec_clips().len() ==> (#[trigger] old(self).spec_clips()[i]).id != clip_id,
            final(self).spec_tracks() == old(self).spec_tracks(),
            final(self).spec_samples() == old(self).spec_samples(),
            final(self).spec_next_sample_id() == old(self).spec_next_sample_id(),
    {
        self.add_clip(track_id, start, length, ClipSource::AudioFile(sample_id))
    }

    /// Stores already decoded sample data under the next sample identifier and returns that
    /// identifier; the counter moves only when the data was stored.
    pub fn add_sample(&mut self, buffer: B) -> (result: Result<SampleId, SampleLoadError>)
        ensures
            result is Ok <==> insert_accepted(old(self).spec_samples(), SampleId(old(self).spec_next_sample_id())),
            result is Ok ==> {
                &&& result->Ok_0 == SampleId(old(self).spec_next_sample_id())
                &&& final(self).spec_samples() == old(self).spec_samples().update(
                    old(self).spec_next_sample_id() as int,
                    Some(buffer),
                )
                &&& final(self).spec_next_sample_id() == if old(self).spec_next_sample_id() == u16::MAX {
                    u16::MAX
                } else {
                    (old(self).spec_next_sample_id() + 1) as u16
                }
            },
            result is Err ==> (result matches Err(SampleLoadError::RegistryFull)),
            result is Err ==> final(self).spec_samples() == old(self).spec_samples(),
            result is Err ==> final(self).spec_next_sample_id() == old(self).spec_next_sample_id(),
            final(self).spec_clips() == old(self).spec_clips(),
            final(self).spec_tracks() == old(self).spec_tracks(),
            final(self).spec_next_clip_id() == old(self).spec_next_clip_id(),
    {
        proof {
            use_type_invariant(&*self);
        }
        let id = SampleId::new(self.next_sample_id);
        let mut samples = SampleRegistryBuilder::new();
        std::mem::swap(&mut samples, &mut self.samples);
        let result = samples.insert(id, buffer);
        self.samples = samples;
        match result {
            Ok(()) => {
                self.next_sample_id = self.next_sample_id.saturating_add(1);
                Ok(id)
            },
            Err(error) => Err(error),
        }
    }

    /// Compiles the project's timeline into an immutable snapshot.
    pub fn compile_snapshot(&self) -> (result: Result<AudioSnapshot, SnapshotCompileError>)
        ensures
            match (result, compiled(self.spec_clips())) {
                (Ok(snapshot), Ok((first, second))) => snapshot.holds(first, second),
                (Err(e), Err(f)) => e == f,
                _ => false,
            },
    {
        AudioSnapshot::compile(&self.timeline)
    }

    /// Finalizes the preloaded samples before the engine is created.
    pub fn into_sample_registry(self) -> (registry: SampleRegistry<B>)
        ensures
            registry@ == self.spec_samples(),
    {
        self.samples.build()
    }

    fn add_clip(&mut self, track_id: TrackId, start: SampleTime, length: SampleTime, source: ClipSource) -> (clip_id: ClipId)
        ensures
            clip_id == ClipId(old(self).spec_next_clip_id()),
            final(self).spec_next_clip_id() == next_counter(old(self).spec_next_clip_id()),
            final(self).spec_clips() == old(self).spec_clips().push(
                AudioClip { id: clip_id, track_id, start_position: start, length, source },
            ),
            old(self).spec_next_clip_id() < u64::MAX ==> forall|i: int|
                0 <= i < old(self).spec_clips().len() ==> (#[trigger] old(self).spec_clips()[i]).id != clip_id,
            final(self).spec_tracks() == old(self).spec_tracks(),
            final(self).spec_samples() == old(self).spec_samples(),
            final(self).spec_next_sample_id() == old(self).spec_next_sample_id(),
    {
        proof {
            use_type_invariant(&*self);
        }
        let id = ClipId::new(self.next_clip_id);
        let clip = AudioClip::new(id, track_id, start, length).with_source(source);
        let mut timeline = Timeline::new();
        std::mem::swap(&mut timeline, &mut self.timeline);
        timeline.add_clip(clip);
        let next = self.next_clip_id.saturating_add(1);
        self.next_clip_id = next;
        self.timeline = timeline;
        id
    }
}

impl<B> Default for Project<B> {
    fn default() -> (project: Self)
        ensures
            project.spec_clips() == Seq::<AudioClip>::empty(),
            project.spec_tracks() == Seq::<ProjectTrack>::empty(),
            project.spec_next_clip_id() == 1,
            project.spec_next_sample_id() == 0,
    {
        Self::new()
    }
}

} // verus!
