use vstd::prelude::*;
use vstd::std_specs::cmp::PartialOrdIs;
use vstd::std_specs::cmp::PartialOrdSpecImpl;
use std::cmp::Ordering;

use crate::sample::SampleId;
use crate::track::TrackId;

verus! {

/// Sample-accurate position or duration used by project-time models.
#[derive(Debug, Clone, Copy, PartialEq, Eq, Ord, Hash, Structural)]
pub struct SampleTime(pub u64);

impl SampleTime {
    pub fn new(samples: u64) -> (time: Self)
        ensures
            time.0 == samples,
    {
        Self(samples)
    }

    pub fn samples(self) -> (samples: u64)
        ensures
            samples == self.0,
    {
        self.0
    }
}

/// Sample times are ordered by their sample count.
impl PartialOrd for SampleTime {
    fn partial_cmp(&self, other: &Self) -> (order: Option<Ordering>) {
        if self.0 < other.0 {
            Some(Ordering::Less)
        } else if self.0 == other.0 {
            Some(Ordering::Equal)
        } else {
            Some(Ordering::Greater)
        }
    }
}

impl PartialOrdSpecImpl for SampleTime {
    open spec fn obeys_partial_cmp_spec() -> bool {
        true
    }

    open spec fn partial_cmp_spec(&self, other: &Self) -> Option<Ordering> {
        if self.0 < other.0 {
            Some(Ordering::Less)
        } else if self.0 == other.0 {
            Some(Ordering::Equal)
        } else {
            Some(Ordering::Greater)
        }
    }
}

/// Comparing two sample times compares their sample counts.
pub proof fn lemma_sample_time_order(a: u64, b: u64)
    ensures
        SampleTime(a).is_lt(&SampleTime(b)) <==> a < b,
        SampleTime(a).is_le(&SampleTime(b)) <==> a <= b,
        SampleTime(a).is_gt(&SampleTime(b)) <==> a > b,
        SampleTime(a).is_ge(&SampleTime(b)) <==> a >= b,
        (SampleTime(a) == SampleTime(b)) <==> a == b,
{
}

impl From<u64> for SampleTime {
    fn from(samples: u64) -> (time: Self) {
        Self(samples)
    }
}

impl vstd::std_specs::convert::FromSpecImpl<u64> for SampleTime {
    open spec fn obeys_from_spec() -> bool {
        true
    }

    open spec fn from_spec(samples: u64) -> Self {
        SampleTime(samples)
    }
}

/// Stable identifier for a timeline clip.
#[derive(Debug, Clone, Copy, PartialEq, Eq, Hash, Structural)]
pub struct ClipId(pub u64);

impl ClipId {
    pub fn new(value: u64) -> (id: Self)
        ensures
            id.0 == value,
    {
        Self(value)
    }

    pub fn value(self) -> (value: u64)
        ensures
            value == self.0,
    {
        self.0
    }
}

/// What a clip plays: the built-in synthesizer or a preloaded audio file.
#[derive(Debug, Clone, Copy, PartialEq, Eq, Structural)]
pub enum ClipSource {
    Synth,
    AudioFile(SampleId),
}

/// `start + length`, saturated at the largest representable sample position.
pub open spec fn saturating_end(start: u64, length: u64) -> u64 {
    if start + length > u64::MAX {
        u64::MAX
    } else {
        (start + length) as u64
    }
}

/// An audio event placed on one track at a sample-accurate position.
#[derive(Debug, Clone, Copy, PartialEq, Eq, Structural)]
pub struct AudioClip {
    pub id: ClipId,
    pub track_id: TrackId,
    pub start_position: SampleTime,
    pub length: SampleTime,
    pub source: ClipSource,
}

impl AudioClip {
    /// The first sample position after the clip, saturated at the end of the timeline.
    pub open spec fn end_spec(self) -> u64 {
        saturating_end(self.start_position.0, self.length.0)
    }

    /// The clip sounds at `position`: the half-open range `[start, end)` contains it.
    pub open spec fn active_at(self, position: SampleTime) -> bool {
        self.start_position.0 <= position.0 && position.0 < self.end_spec()
    }

    /// A synthesizer clip.
    pub fn new(id: ClipId, track_id: TrackId, start_position: SampleTime, length: SampleTime) -> (clip: Self)
        ensures
            clip.id == id,
            clip.track_id == track_id,
            clip.start_position == start_position,
            clip.length == length,
            clip.source == ClipSource::Synth,
    {
        Self { id, track_id, start_position, length, source: ClipSource::Synth }
    }

    /// The same clip, playing `source` instead.
    pub fn with_source(self, source: ClipSource) -> (clip: Self)
        ensures
            clip == (AudioClip { source, ..self }),
    {
        Self { source, ..self }
    }

    pub fn id(self) -> (id: ClipId)
        ensures
            id == self.id,
    {
        self.id
    }

    pub fn track_id(self) -> (track_id: TrackId)
        ensures
            track_id == self.track_id,
    {
        self.track_id
    }

    pub fn start_position(self) -> (start: SampleTime)
        ensures
            start == self.start_position,
    {
        self.start_position
    }

    pub fn length(self) -> (length: SampleTime)
        ensures
            length == self.length,
    {
        self.length
    }

    pub fn source(self) -> (source: ClipSource)
        ensures
            source == self.source,
    {
        self.source
    }

    pub fn is_active_at(self, position: SampleTime) -> (active: bool)
        ensures
            active == self.active_at(position),
    {
        let end_position = self.start_position.0.saturating_add(self.length.0);
        position.0 >= self.start_position.0 && position.0 < end_position
    }
}

/// Non-real-time editing operations for the project timeline.
#[derive(Debug, Clone, Copy, PartialEq, Eq, Structural)]
pub enum TimelineCommand {
    AddClip { track_id: TrackId, clip: AudioClip },
    RemoveClip { clip_id: ClipId },
}

/// Editable project-time clip model, kept in insertion order.
#[derive(Debug, Default)]
pub struct Timeline {
    clips: Vec<AudioClip>,
}

/// No clip before index `i` of `clips` has identifier `id`.
pub open spec fn no_id_before(clips: Seq<AudioClip>, id: ClipId, i: int) -> bool {
    forall|j: int| 0 <= j < i ==> (#[trigger] clips[j]).id != id
}

/// `i` is the index of the first clip of `clips` with identifier `id`.
pub open spec fn first_index_of(clips: Seq<AudioClip>, id: ClipId, i: int) -> bool {
    0 <= i < clips.len() && clips[i].id == id && no_id_before(clips, id, i)
}

/// The clips of `clips` that are active at `position`, in timeline order.
pub open spec fn active_clips_spec(clips: Seq<AudioClip>, position: SampleTime) -> Seq<AudioClip> {
    clips.filter(|clip: AudioClip| clip.active_at(position))
}

impl View for Timeline {
    type V = Seq<AudioClip>;

    closed spec fn view(&self) -> Seq<AudioClip> {
        self.clips@
    }
}

impl Timeline {
    pub fn new() -> (timeline: Self)
        ensures
            timeline@ == Seq::<AudioClip>::empty(),
    {
        Timeline { clips: Vec::new() }
    }

    /// Appends `clip` to the timeline.
    pub fn add_clip(&mut self, clip: AudioClip)
        ensures
            final(self)@ == old(self)@.push(clip),
    {
        self.clips.push(clip);
    }

    /// Removes the first clip with identifier `clip_id` and returns it; the timeline is left
    /// unchanged when no clip has that identifier.
    pub fn remove_clip(&mut self, clip_id: ClipId) -> (removed: Option<AudioClip>)
        ensures
            match removed {
                None => no_id_before(old(self)@, clip_id, old(self)@.len() as int) && final(self)@
                    == old(self)@,
                Some(clip) => exists|i: int|
                    first_index_of(old(self)@, clip_id, i) && clip == old(self)@[i]
                        && final(self)@ == old(self)@.remove(i),
            },
    {
        let mut index: usize = 0;
        while index < self.clips.len()
            invariant
                index <= self.clips@.len(),
                self.clips@ == old(self)@,
                no_id_before(self.clips@, clip_id, index as int),
            decreases self.clips@.len() - index,
        {
            if self.clips[index].id == clip_id {
                let removed = self.clips.remove(index);
                assert(first_index_of(old(self)@, clip_id, index as int));
                return Some(removed);
            }
            index += 1;
        }
        None
    }

    /// The clips that sound at `position`, in timeline order.
    /// It allocates a `Vec`, so it belongs off the audio thread.
    pub fn active_clips_at(&self, position: SampleTime) -> (active: Vec<AudioClip>)
        ensures
            active@ == active_clips_spec(self@, position),
    {
        let mut active: Vec<AudioClip> = Vec::new();
        let mut index: usize = 0;
        while index < self.clips.len()
            invariant
                index <= self.clips@.len(),
                active@ == active_clips_spec(self.clips@.take(index as int), position),
            decreases self.clips@.len() - index,
        {
            let clip = self.clips[index];
            proof {
                let s = self.clips@.take(index as int + 1);
                assert(s.drop_last() == self.clips@.take(index as int));
                reveal(Seq::filter);
            }
            if clip.is_active_at(position) {
                active.push(clip);
            }
            index += 1;
        }
        assert(self.clips@.take(self.clips@.len() as int) == self.clips@);
        active
    }

    /// Applies an editing command. An `AddClip` whose clip belongs to another track than the
    /// one named by the command is ignored.
    pub fn apply_command(&mut self, command: TimelineCommand)
        ensures
            match command {
                TimelineCommand::AddClip { track_id, clip } => if clip.track_id == track_id {
                    final(self)@ == old(self)@.push(clip)
                } else {
                    final(self)@ == old(self)@
                },
                TimelineCommand::RemoveClip { clip_id } => if no_id_before(
                    old(self)@,
                    clip_id,
                    old(self)@.len() as int,
                ) {
                    final(self)@ == old(self)@
                } else {
                    exists|i: int|
                        first_index_of(old(self)@, clip_id, i) && final(self)@ == old(self)@.remove(i)
                },
            },
    {
        match command {
            TimelineCommand::AddClip { track_id, clip } => {
                if clip.track_id == track_id {
                    self.add_clip(clip);
                }
            },
            TimelineCommand::RemoveClip { clip_id } => {
                let _ = self.remove_clip(clip_id);
            },
        }
    }

    /// All clips in insertion order.
    pub fn clips(&self) -> (clips: &[AudioClip])
        ensures
            clips@ == self@,
    {
        self.clips.as_slice()
    }
}

/// Removing the identifier of a clip just added, when no earlier clip carries it, removes that
/// clip and restores the timeline.
pub proof fn lemma_remove_undoes_add(clips: Seq<AudioClip>, clip: AudioClip)
    requires
        no_id_before(clips, clip.id, clips.len() as int),
    ensures
        first_index_of(clips.push(clip), clip.id, clips.len() as int),
        clips.push(clip).remove(clips.len() as int) == clips,
        forall|i: int| first_index_of(clips.push(clip), clip.id, i) ==> i == clips.len(),
{
    assert(clips.push(clip).remove(clips.len() as int) =~= clips);
    assert forall|i: int| first_index_of(clips.push(clip), clip.id, i) implies i == clips.len() by {
        if i < clips.len() {
            assert(clips.push(clip)[i] == clips[i]);
        }
    }
}

/// Filtering keeps every element that passes the test as often as it occurs, and no other.
pub(crate) proof fn lemma_filter_counts<A>(items: Seq<A>, pred: spec_fn(A) -> bool, item: A)
    ensures
        items.filter(pred).to_multiset().count(item) == if pred(item) {
            items.to_multiset().count(item)
        } else {
            0
        },
    decreases items.len(),
{
    broadcast use vstd::seq_lib::group_to_multiset_ensures;

    reveal(Seq::filter);
    if items.len() > 0 {
        let shorter = items.drop_last();
        lemma_filter_counts(shorter, pred, item);
        assert(items == shorter.push(items.last()));
    }
}

/// A clip sounds at `position` exactly when it starts no later than `position`, and
/// `position` lies before both the clip's start plus its length and the last representable
/// sample position.
pub proof fn lemma_clip_active_at(clip: AudioClip, position: SampleTime)
    ensures
        clip.active_at(position) <==> clip.start_position.0 <= position.0 && position.0
            < clip.start_position.0 + clip.length.0 && position.0 < u64::MAX,
{
}

/// The clips active at a position are the timeline's clips that sound there, each as often
/// as the timeline holds it: a clip is listed exactly when it is on the timeline and
/// `start <= position < start + length` (with the end saturated at the last sample
/// position), so the number listed is the number of such clips on the timeline.
pub proof fn lemma_active_clips_at_members(clips: Seq<AudioClip>, position: SampleTime)
    ensures
        forall|clip: AudioClip|
            #[trigger] active_clips_spec(clips, position).to_multiset().count(clip) == if clip.start_position.0
                <= position.0 && position.0 < clip.start_position.0 + clip.length.0 && position.0
                < u64::MAX {
                clips.to_multiset().count(clip)
            } else {
                0
            },
        forall|clip: AudioClip|
            #[trigger] active_clips_spec(clips, position).contains(clip) <==> clips.contains(clip)
                && clip.start_position.0 <= position.0 && position.0 < clip.start_position.0
                + clip.length.0 && position.0 < u64::MAX,
        forall|i: int|
            0 <= i < clips.len() && clips[i].start_position.0 <= position.0 && position.0
                < clips[i].start_position.0 + clips[i].length.0 && position.0 < u64::MAX
                ==> active_clips_spec(clips, position).contains(#[trigger] clips[i]),
{
    broadcast use vstd::seq_lib::group_to_multiset_ensures;

    let pred = |clip: AudioClip| clip.active_at(position);
    assert forall|clip: AudioClip|
        #[trigger] active_clips_spec(clips, position).to_multiset().count(clip) == if clip.start_position.0
            <= position.0 && position.0 < clip.start_position.0 + clip.length.0 && position.0
            < u64::MAX {
            clips.to_multiset().count(clip)
        } else {
            0
        } by {
        lemma_filter_counts(clips, pred, clip);
    }
    assert forall|clip: AudioClip|
        #[trigger] active_clips_spec(clips, position).contains(clip) <==> clips.contains(clip)
            && clip.start_position.0 <= position.0 && position.0 < clip.start_position.0
            + clip.length.0 && position.0 < u64::MAX by {
        lemma_filter_counts(clips, pred, clip);
    }
    assert forall|i: int|
        0 <= i < clips.len() && clips[i].start_position.0 <= position.0 && position.0
            < clips[i].start_position.0 + clips[i].length.0 && position.0 < u64::MAX
            implies active_clips_spec(clips, position).contains(#[trigger] clips[i]) by {
        lemma_filter_counts(clips, pred, clips[i]);
    }
}

/// The clips active at a position keep timeline order: those of two timelines laid end to end
/// are those of the first followed by those of the second, and a timeline of one clip yields
/// that clip exactly when `start <= position < start + length` (with the end saturated).
pub proof fn lemma_active_clips_at_order(first: Seq<AudioClip>, second: Seq<AudioClip>, clip: AudioClip, position: SampleTime)
    ensures
        active_clips_spec(first + second, position) == active_clips_spec(first, position)
            + active_clips_spec(second, position),
        active_clips_spec(seq![clip], position) == if clip.start_position.0 <= position.0
            && position.0 < clip.start_position.0 + clip.length.0 && position.0 < u64::MAX {
            seq![clip]
        } else {
            Seq::<AudioClip>::empty()
        },
{
    broadcast use Seq::filter_distributes_over_add;

    reveal(Seq::filter);
    let single = seq![clip];
    assert(single.drop_last() =~= Seq::<AudioClip>::empty());
    assert(single.last() == clip);
    let none = Seq::<AudioClip>::empty().filter(|c: AudioClip| c.active_at(position));
    assert(none =~= Seq::<AudioClip>::empty());
    if clip.active_at(position) {
        assert(active_clips_spec(single, position) =~= single);
    } else {
        assert(active_clips_spec(single, position) =~= Seq::<AudioClip>::empty());
    }
}

} // verus!
