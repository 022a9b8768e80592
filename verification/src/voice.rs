use vstd::prelude::*;

use crate::event::VoiceEvent;
use crate::snapshot::{ClipPlayback, ClipScheduler, active_playbacks, lemma_active_playbacks_members};
use crate::timeline::{ClipId, ClipSource, SampleTime};
use crate::track::TrackId;

verus! {

/// Default bounded polyphony for one fixed track.
pub const MAX_VOICES_PER_TRACK: usize = 8;

/// Stable identifier for a preallocated voice slot; it is the slot's index.
#[derive(Debug, Clone, Copy, PartialEq, Eq, Hash, Structural)]
pub struct VoiceId(pub u32);

impl VoiceId {
    pub fn new(value: u32) -> (id: Self)
        ensures
            id.0 == value,
    {
        Self(value)
    }

    pub fn value(self) -> (value: u32)
        ensures
            value == self.0,
    {
        self.0
    }
}

/// Scheduling state of one voice slot: the clip it plays, if any, where that clip starts, and
/// what it plays. The sound itself is rendered outside this type.
#[derive(Debug, Clone, Copy, PartialEq, Eq, Structural)]
pub struct Voice {
    pub id: VoiceId,
    pub clip_id: Option<ClipId>,
    pub start_position: SampleTime,
    pub source: ClipSource,
}

impl Voice {
    pub fn id(&self) -> (id: VoiceId)
        ensures
            id == self.id,
    {
        self.id
    }

    /// The slot is assigned to a clip (it may be releasing).
    pub fn is_active(&self) -> (active: bool)
        ensures
            active == self.clip_id is Some,
    {
        self.clip_id.is_some()
    }

    pub fn clip_id(&self) -> (clip_id: Option<ClipId>)
        ensures
            clip_id == self.clip_id,
    {
        self.clip_id
    }

    pub fn start_position(&self) -> (start: SampleTime)
        ensures
            start == self.start_position,
    {
        self.start_position
    }

    pub fn source(&self) -> (source: ClipSource)
        ensures
            source == self.source,
    {
        self.source
    }
}

/// What the renderer must do to a voice after a voice event.
#[derive(Debug, Clone, Copy, PartialEq, Eq, Structural)]
pub enum VoiceAction {
    /// Nothing changed.
    Unchanged,
    /// The voice was assigned to the clip and starts sounding it.
    NoteOn { voice: VoiceId, clip: ClipPlayback },
    /// The voice enters its release; its slot stays assigned until the renderer frees it.
    NoteOff { voice: VoiceId },
}

/// Some slot of `voices` is assigned to the clip `clip_id`.
pub open spec fn holds_clip(voices: Seq<Voice>, clip_id: ClipId) -> bool {
    exists|i: int| 0 <= i < voices.len() && (#[trigger] voices[i]).clip_id == Some(clip_id)
}

/// Some slot of `voices` is free.
pub open spec fn has_free_slot(voices: Seq<Voice>) -> bool {
    exists|i: int| 0 <= i < voices.len() && (#[trigger] voices[i]).clip_id is None
}

/// `i` is the first free slot of `voices`.
pub open spec fn is_first_free(voices: Seq<Voice>, i: int) -> bool {
    &&& 0 <= i < voices.len()
    &&& voices[i].clip_id is None
    &&& forall|j: int| 0 <= j < i ==> (#[trigger] voices[j]).clip_id is Some
}

/// `i` is the first slot of `voices` assigned to the clip `clip_id`.
pub open spec fn is_first_holder(voices: Seq<Voice>, clip_id: ClipId, i: int) -> bool {
    &&& 0 <= i < voices.len()
    &&& voices[i].clip_id == Some(clip_id)
    &&& forall|j: int| 0 <= j < i ==> (#[trigger] voices[j]).clip_id != Some(clip_id)
}

/// No clip is assigned to two slots of `voices`.
pub open spec fn clips_are_distinct(voices: Seq<Voice>) -> bool {
    forall|i: int, j: int|
        0 <= i < voices.len() && 0 <= j < voices.len() && i != j && (#[trigger] voices[i]).clip_id is Some
            ==> voices[i].clip_id != (#[trigger] voices[j]).clip_id
}

/// Every slot of `voices` carries its own index as identifier.
pub open spec fn ids_are_slots(voices: Seq<Voice>) -> bool {
    forall|i: int| 0 <= i < voices.len() ==> (#[trigger] voices[i]).id == VoiceId(i as u32)
}

/// The number of assigned slots of `voices`.
pub open spec fn active_count(voices: Seq<Voice>) -> nat
    decreases voices.len(),
{
    if voices.len() == 0 {
        0
    } else {
        active_count(voices.drop_last()) + if voices.last().clip_id is Some {
            1nat
        } else {
            0nat
        }
    }
}

/// `voice` assigned to `clip`.
pub open spec fn assigned(voice: Voice, clip: ClipPlayback) -> Voice {
    Voice { clip_id: Some(clip.clip_id), start_position: clip.start, source: clip.source, ..voice }
}

/// `voice` returned to the pool.
pub open spec fn freed(voice: Voice) -> Voice {
    Voice { clip_id: None, ..voice }
}

/// Some clip of `clips` with identifier `clip_id` sounds at `position`.
pub open spec fn sounds_at(clips: Seq<ClipPlayback>, clip_id: ClipId, position: SampleTime) -> bool {
    exists|k: int|
        0 <= k < clips.len() && (#[trigger] clips[k]).clip_id == clip_id && clips[k].active_at(position)
}

/// A slot whose clip does not sound at `position` among `clips` must be released; so must an
/// idle slot, for which the release has no effect.
pub open spec fn must_release(voice: Voice, clips: Seq<ClipPlayback>, position: SampleTime) -> bool {
    match voice.clip_id {
        Some(clip_id) => !sounds_at(clips, clip_id, position),
        None => true,
    }
}

proof fn lemma_no_active_slots(voices: Seq<Voice>)
    requires
        forall|i: int| 0 <= i < voices.len() ==> (#[trigger] voices[i]).clip_id is None,
    ensures
        active_count(voices) == 0,
    decreases voices.len(),
{
    if voices.len() > 0 {
        let shorter = voices.drop_last();
        assert forall|i: int| 0 <= i < shorter.len() implies (#[trigger] shorter[i]).clip_id is None by {
            assert(shorter[i] == voices[i]);
        }
        lemma_no_active_slots(shorter);
    }
}

/// A slot must be released at `position` exactly when it is idle, or when no clip of the
/// track with its clip's identifier has `start <= position < end`, that is, when its clip is not
/// among the clips sounding there; a clip that starts after `position` or has already ended does
/// not keep its slot.
pub proof fn lemma_must_release_iff_not_sounding(voice: Voice, clips: Seq<ClipPlayback>, position: SampleTime)
    ensures
        must_release(voice, clips, position) <==> (voice.clip_id is None || !exists|k: int|
            0 <= k < clips.len() && Some((#[trigger] clips[k]).clip_id) == voice.clip_id
                && clips[k].start.0 <= position.0 && position.0 < clips[k].end.0),
        must_release(voice, clips, position) <==> (voice.clip_id is None || !exists|k: int|
            0 <= k < active_playbacks(clips, position).len() && Some(
                (#[trigger] active_playbacks(clips, position)[k]).clip_id,
            ) == voice.clip_id),
{
    broadcast use vstd::seq_lib::group_to_multiset_ensures;

    lemma_active_playbacks_members(clips, position);
    let active = active_playbacks(clips, position);
    if let Some(clip_id) = voice.clip_id {
        if exists|k: int|
            0 <= k < clips.len() && Some((#[trigger] clips[k]).clip_id) == voice.clip_id
                && clips[k].start.0 <= position.0 && position.0 < clips[k].end.0 {
            let k = choose|k: int|
                0 <= k < clips.len() && Some((#[trigger] clips[k]).clip_id) == voice.clip_id
                    && clips[k].start.0 <= position.0 && position.0 < clips[k].end.0;
            assert(active.contains(clips[k]));
            let j = choose|j: int| 0 <= j < active.len() && active[j] == clips[k];
            assert(Some(active[j].clip_id) == voice.clip_id);
            assert(sounds_at(clips, clip_id, position));
        }
        if exists|j: int| 0 <= j < active.len() && Some((#[trigger] active[j]).clip_id) == voice.clip_id {
            let j = choose|j: int| 0 <= j < active.len() && Some((#[trigger] active[j]).clip_id) == voice.clip_id;
            assert(active.contains(active[j]));
            let k = choose|k: int| 0 <= k < clips.len() && clips[k] == active[j];
            assert(clips[k].start.0 <= position.0 && position.0 < clips[k].end.0);
            assert(sounds_at(clips, clip_id, position));
        }
        if sounds_at(clips, clip_id, position) {
            let k = choose|k: int|
                0 <= k < clips.len() && (#[trigger] clips[k]).clip_id == clip_id && clips[k].start.0
                    <= position.0 && position.0 < clips[k].end.0;
            assert(Some(clips[k].clip_id) == voice.clip_id);
        }
    }
}

/// The number of assigned slots is the number of slots that hold a clip.
pub proof fn lemma_active_count_is_assigned_slots(voices: Seq<Voice>)
    ensures
        active_count(voices) == voices.filter(|voice: Voice| voice.clip_id is Some).len(),
        active_count(voices) <= voices.len(),
    decreases voices.len(),
{
    reveal(Seq::filter);
    if voices.len() > 0 {
        lemma_active_count_is_assigned_slots(voices.drop_last());
    }
}

/// Replacing one slot changes the number of assigned slots only by what that slot held: freeing
/// an assigned slot lowers it by one, assigning a free slot raises it by one, and every other
/// slot counts as before.
pub proof fn lemma_active_count_update(voices: Seq<Voice>, i: int, voice: Voice)
    requires
        0 <= i < voices.len(),
    ensures
        active_count(voices.update(i, voice)) + (if voices[i].clip_id is Some {
            1int
        } else {
            0int
        }) == active_count(voices) + (if voice.clip_id is Some {
            1int
        } else {
            0int
        }),
    decreases voices.len(),
{
    let updated = voices.update(i, voice);
    if i == voices.len() - 1 {
        assert(updated.drop_last() =~= voices.drop_last());
    } else {
        lemma_active_count_update(voices.drop_last(), i, voice);
        assert(updated.drop_last() =~= voices.drop_last().update(i, voice));
    }
}

/// Giving the first free slot to a clip makes that slot hold the clip from the clip's start,
/// under the slot's own identifier, leaves every other slot as it was, and raises the number
/// of assigned slots by one.
pub proof fn lemma_assign_first_free(voices: Seq<Voice>, i: int, clip: ClipPlayback)
    requires
        is_first_free(voices, i),
    ensures
        voices.update(i, assigned(voices[i], clip))[i].clip_id == Some(clip.clip_id),
        voices.update(i, assigned(voices[i], clip))[i].start_position == clip.start,
        voices.update(i, assigned(voices[i], clip))[i].source == clip.source,
        voices.update(i, assigned(voices[i], clip))[i].id == voices[i].id,
        voices[i].clip_id is None,
        forall|j: int| 0 <= j < i ==> (#[trigger] voices[j]).clip_id is Some,
        forall|j: int|
            0 <= j < voices.len() && j != i ==> #[trigger] voices.update(i, assigned(voices[i], clip))[j]
                == voices[j],
        active_count(voices.update(i, assigned(voices[i], clip))) == active_count(voices) + 1,
{
    lemma_active_count_update(voices, i, assigned(voices[i], clip));
}

/// Freeing an assigned slot empties it, keeps its identifier, leaves every other slot as it
/// was, and lowers the number of assigned slots by one.
pub proof fn lemma_free_assigned(voices: Seq<Voice>, i: int)
    requires
        0 <= i < voices.len(),
        voices[i].clip_id is Some,
    ensures
        voices.update(i, freed(voices[i]))[i].clip_id is None,
        voices.update(i, freed(voices[i]))[i].id == voices[i].id,
        forall|j: int|
            0 <= j < voices.len() && j != i ==> #[trigger] voices.update(i, freed(voices[i]))[j] == voices[j],
        active_count(voices.update(i, freed(voices[i]))) + 1 == active_count(voices),
{
    lemma_active_count_update(voices, i, freed(voices[i]));
}

/// Fixed-capacity pool of voice slots for one track; `N` is set when the track is built.
pub struct VoiceManager<const N: usize> {
    voices: [Voice; N],
}

impl<const N: usize> View for VoiceManager<N> {
    type V = Seq<Voice>;

    /// The slots, by index.
    closed spec fn view(&self) -> Seq<Voice> {
        self.voices@
    }
}

impl<const N: usize> VoiceManager<N> {
    #[verifier::type_invariant]
    closed spec fn pool_is_consistent(self) -> bool {
        &&& N <= u32::MAX
        &&& ids_are_slots(self.voices@)
        &&& clips_are_distinct(self.voices@)
    }

    /// A pool of `N` free slots, numbered from zero.
    pub fn new() -> (manager: Self)
        requires
            N <= u32::MAX,
        ensures
            manager@.len() == N,
            ids_are_slots(manager@),
            clips_are_distinct(manager@),
            forall|i: int|
                0 <= i < N ==> #[trigger] manager@[i] == (Voice {
                    id: VoiceId(i as u32),
                    clip_id: None,
                    start_position: SampleTime(0),
                    source: ClipSource::Synth,
                }),
    {
        let blank = Voice {
            id: VoiceId(0),
            clip_id: None,
            start_position: SampleTime(0),
            source: ClipSource::Synth,
        };
        let mut voices = [blank; N];
        let mut index: usize = 0;
        while index < N
            invariant
                index <= N <= u32::MAX,
                voices@.len() == N,
                forall|i: int| 0 <= i < index ==> #[trigger] voices@[i] == (Voice { id: VoiceId(i as u32), ..blank }),
                forall|i: int| index <= i < N ==> #[trigger] voices@[i] == blank,
            decreases N - index,
        {
            voices[index] = Voice { id: VoiceId(index as u32), ..blank };
            index += 1;
        }
        Self { voices }
    }

    /// The number of assigned slots.
    pub fn active_voice_count(&self) -> (count: usize)
        ensures
            count == active_count(self@),
            count <= N,
    {
        let mut count: usize = 0;
        let mut index: usize = 0;
        while index < N
            invariant
                index <= N,
                self.voices@.len() == N,
                count == active_count(self.voices@.take(index as int)),
                count <= index,
            decreases N - index,
        {
            assert(self.voices@.take(index as int + 1).drop_last() == self.voices@.take(index as int));
            if self.voices[index].clip_id.is_some() {
                count += 1;
            }
            index += 1;
        }
        assert(self.voices@.take(N as int) == self.voices@);
        count
    }

    /// The slot with identifier `id`.
    pub fn voice(&self, id: VoiceId) -> (voice: Option<&Voice>)
        ensures
            match voice {
                Some(v) => id.0 < N && *v == self@[id.0 as int],
                None => id.0 >= N,
            },
    {
        let index = id.0 as usize;
        if index < N {
            Some(&self.voices[index])
        } else {
            None
        }
    }

    /// For each slot, whether it must be released at the start of a block that begins at
    /// `position`: its clip is not among the clips of `track_id` that sound there.
    pub fn stale_voices(&self, scheduler: &ClipScheduler<'_>, track_id: TrackId, position: SampleTime) -> (stale: [bool; N])
        ensures
            forall|i: int|
                0 <= i < N ==> stale@[i] == must_release(
                    self@[i],
                    scheduler@.track_clips_spec(track_id),
                    position,
                ),
    {
        let slots = scheduler.track_slots(track_id);
        let ghost clips = scheduler@.track_clips_spec(track_id);
        let mut stale = [true; N];
        let mut index: usize = 0;
        while index < N
            invariant
                index <= N,
                self.voices@.len() == N,
                stale@.len() == N,
                slots@.len() == clips.len(),
                forall|i: int| 0 <= i < slots@.len() ==> slots@[i] == Some(#[trigger] clips[i]),
                forall|i: int| 0 <= i < index ==> stale@[i] == must_release(self.voices@[i], clips, position),
            decreases N - index,
        {
            let voice = self.voices[index];
            match voice.clip_id {
                Some(clip_id) => {
                    let mut found = false;
                    let mut k: usize = 0;
                    while k < slots.len()
                        invariant
                            k <= slots@.len(),
                            slots@.len() == clips.len(),
                            forall|i: int| 0 <= i < slots@.len() ==> slots@[i] == Some(#[trigger] clips[i]),
                            found == exists|m: int|
                                0 <= m < k && (#[trigger] clips[m]).clip_id == clip_id && clips[m].active_at(position),
                        decreases slots@.len() - k,
                    {
                        assert(slots@[k as int] == Some(clips[k as int]));
                        if let Some(clip) = slots[k] {
                            if clip.clip_id == clip_id && clip.is_active_at(position) {
                                found = true;
                            }
                        }
                        k += 1;
                    }
                    stale[index] = !found;
                },
                None => {
                    stale[index] = true;
                },
            }
            index += 1;
        }
        stale
    }

    /// Applies a scheduled voice event. A start is ignored when the clip already has a slot or
    /// when every slot is taken; otherwise the first free slot takes the clip. A stop releases
    /// the first slot holding the clip, which stays assigned until the renderer frees it.
    pub fn apply_event(&mut self, event: VoiceEvent) -> (action: VoiceAction)
        ensures
            ids_are_slots(final(self)@),
            clips_are_distinct(final(self)@),
            match event {
                VoiceEvent::StartVoice(clip) => if holds_clip(old(self)@, clip.clip_id) || !has_free_slot(
                    old(self)@,
                ) {
                    action == VoiceAction::Unchanged && final(self)@ == old(self)@
                } else {
                    exists|i: int|
                        is_first_free(old(self)@, i) && action == (VoiceAction::NoteOn {
                            voice: VoiceId(i as u32),
                            clip,
                        }) && final(self)@ == old(self)@.update(i, assigned(old(self)@[i], clip))
                },
                VoiceEvent::StopVoice(clip_id) => final(self)@ == old(self)@ && if holds_clip(
                    old(self)@,
                    clip_id,
                ) {
                    exists|i: int|
                        is_first_holder(old(self)@, clip_id, i) && action == (VoiceAction::NoteOff {
                            voice: VoiceId(i as u32),
                        })
                } else {
                    action == VoiceAction::Unchanged
                },
            },
    {
        proof {
            use_type_invariant(&*self);
        }
        match event {
            VoiceEvent::StartVoice(clip) => self.start_voice(clip),
            VoiceEvent::StopVoice(clip_id) => self.stop_voice(clip_id),
        }
    }

    fn start_voice(&mut self, clip: ClipPlayback) -> (action: VoiceAction)
        ensures
            clips_are_distinct(final(self)@),
            if holds_clip(old(self)@, clip.clip_id) || !has_free_slot(old(self)@) {
                action == VoiceAction::Unchanged && final(self)@ == old(self)@
            } else {
                exists|i: int|
                    is_first_free(old(self)@, i) && action == (VoiceAction::NoteOn {
                        voice: VoiceId(i as u32),
                        clip,
                    }) && final(self)@ == old(self)@.update(i, assigned(old(self)@[i], clip))
            },
    {
        proof {
            use_type_invariant(&*self);
        }
        let mut index: usize = 0;
        while index < N
            invariant
                index <= N,
                self.voices@ == old(self)@,
                self.voices@.len() == N,
                clips_are_distinct(self.voices@),
                forall|j: int| 0 <= j < index ==> (#[trigger] self.voices@[j]).clip_id != Some(clip.clip_id),
            decreases N - index,
        {
            if self.voices[index].clip_id == Some(clip.clip_id) {
                assert(holds_clip(self.voices@, clip.clip_id)) by {
                    assert(self.voices@[index as int].clip_id == Some(clip.clip_id));
                }
                return VoiceAction::Unchanged;
            }
            index += 1;
        }
        let mut free: usize = 0;
        while free < N
            invariant
                free <= N <= u32::MAX,
                self.voices@ == old(self)@,
                self.voices@.len() == N,
                ids_are_slots(self.voices@),
                clips_are_distinct(self.voices@),
                !holds_clip(self.voices@, clip.clip_id),
                forall|j: int| 0 <= j < free ==> (#[trigger] self.voices@[j]).clip_id is Some,
            decreases N - free,
        {
            if self.voices[free].clip_id.is_none() {
                let voice = self.voices[free];
                let ghost before = self.voices@;
                let ghost after = before.update(free as int, assigned(voice, clip));
                assert(ids_are_slots(after));
                assert(clips_are_distinct(after));
                self.voices[free] = Voice {
                    clip_id: Some(clip.clip_id),
                    start_position: clip.start,
                    source: clip.source,
                    ..voice
                };
                assert(self.voices@ == after);
                assert(is_first_free(before, free as int));
                assert(has_free_slot(before)) by {
                    assert(before[free as int].clip_id is None);
                }
                return VoiceAction::NoteOn { voice: VoiceId(free as u32), clip };
            }
            free += 1;
        }
        assert(!has_free_slot(self.voices@));
        VoiceAction::Unchanged
    }

    fn stop_voice(&mut self, clip_id: ClipId) -> (action: VoiceAction)
        ensures
            final(self)@ == old(self)@,
            if holds_clip(old(self)@, clip_id) {
                exists|i: int|
                    is_first_holder(old(self)@, clip_id, i) && action == (VoiceAction::NoteOff {
                        voice: VoiceId(i as u32),
                    })
            } else {
                action == VoiceAction::Unchanged
            },
    {
        proof {
            use_type_invariant(&*self);
        }
        let mut index: usize = 0;
        while index < N
            invariant
                index <= N <= u32::MAX,
                self.voices@.len() == N,
                forall|j: int| 0 <= j < index ==> (#[trigger] self.voices@[j]).clip_id != Some(clip_id),
            decreases N - index,
        {
            if self.voices[index].clip_id == Some(clip_id) {
                assert(is_first_holder(self.voices@, clip_id, index as int));
                return VoiceAction::NoteOff { voice: VoiceId(index as u32) };
            }
            index += 1;
        }
        VoiceAction::Unchanged
    }

    /// Returns the slot `voice` to the pool, once its sound has ended; other identifiers are
    /// ignored.
    pub fn deactivate(&mut self, voice: VoiceId)
        ensures
            clips_are_distinct(final(self)@),
            voice.0 < N ==> final(self)@ == old(self)@.update(voice.0 as int, freed(old(self)@[voice.0 as int])),
            voice.0 >= N ==> final(self)@ == old(self)@,
    {
        proof {
            use_type_invariant(&*self);
        }
        let index = voice.0 as usize;
        if index < N {
            let slot = self.voices[index];
            self.voices[index] = Voice { clip_id: None, ..slot };
        }
    }

    /// Returns every slot to the pool.
    pub fn reset(&mut self)
        ensures
            final(self)@.len() == N,
            active_count(final(self)@) == 0,
            forall|i: int| 0 <= i < N ==> #[trigger] final(self)@[i] == freed(old(self)@[i]),
    {
        proof {
            use_type_invariant(&*self);
        }
        let mut index: usize = 0;
        while index < N
            invariant
                index <= N <= u32::MAX,
                self.voices@.len() == N,
                ids_are_slots(self.voices@),
                clips_are_distinct(self.voices@),
                forall|i: int| 0 <= i < index ==> #[trigger] self.voices@[i] == freed(old(self)@[i]),
                forall|i: int| index <= i < N ==> #[trigger] self.voices@[i] == old(self)@[i],
            decreases N - index,
        {
            let slot = self.voices[index];
            self.voices[index] = Voice { clip_id: None, ..slot };
            index += 1;
        }
        proof {
            lemma_no_active_slots(self.voices@);
        }
    }
}

} // verus!
