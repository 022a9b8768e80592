use std::sync::Arc;

use crossbeam_queue::ArrayQueue;
use vstd::prelude::*;

use crate::timeline::{AudioClip, ClipId, ClipSource, SampleTime, Timeline, lemma_filter_counts};
use crate::track::TrackId;

verus! {

/// Number of fixed tracks in a snapshot.
pub const SNAPSHOT_TRACK_COUNT: usize = 2;

/// Number of clips that one snapshot track can hold.
pub const MAX_CLIPS_PER_TRACK: usize = 16;

/// Number of snapshots that can wait between publication and consumption.
pub const SNAPSHOT_QUEUE_CAPACITY: usize = 4;

/// Clip timing precomputed for real-time playback: the clip sounds on `[start, end)`.
#[derive(Debug, Clone, Copy, PartialEq, Eq, Structural)]
pub struct ClipPlayback {
    pub clip_id: ClipId,
    pub start: SampleTime,
    pub end: SampleTime,
    pub source: ClipSource,
}

impl ClipPlayback {
    /// The playback is sounding at `position`.
    pub open spec fn active_at(self, position: SampleTime) -> bool {
        self.start.0 <= position.0 && position.0 < self.end.0
    }

    pub fn clip_id(self) -> (id: ClipId)
        ensures
            id == self.clip_id,
    {
        self.clip_id
    }

    pub fn start(self) -> (start: SampleTime)
        ensures
            start == self.start,
    {
        self.start
    }

    pub fn end(self) -> (end: SampleTime)
        ensures
            end == self.end,
    {
        self.end
    }

    pub fn source(self) -> (source: ClipSource)
        ensures
            source == self.source,
    {
        self.source
    }

    pub fn is_active_at(self, position: SampleTime) -> (active: bool)
        ensures
            active == self.active_at(position),
    {
        position.0 >= self.start.0 && position.0 < self.end.0
    }
}

/// The playback data of a timeline clip: same identifier, start and source, and an end
/// saturated at the largest sample position.
pub open spec fn playback_of(clip: AudioClip) -> ClipPlayback {
    ClipPlayback {
        clip_id: clip.id,
        start: clip.start_position,
        end: SampleTime(clip.end_spec()),
        source: clip.source,
    }
}

fn compile_clip(clip: AudioClip) -> (playback: ClipPlayback)
    ensures
        playback == playback_of(clip),
{
    ClipPlayback {
        clip_id: clip.id(),
        start: clip.start_position(),
        end: SampleTime::new(clip.start_position().samples().saturating_add(clip.length().samples())),
        source: clip.source(),
    }
}

/// Fixed-capacity playback data for one track.
#[derive(Debug, Clone, Copy, PartialEq, Eq)]
pub struct AudioTrackSnapshot {
    track_id: TrackId,
    clips: [Option<ClipPlayback>; MAX_CLIPS_PER_TRACK],
    clip_count: usize,
}

impl View for AudioTrackSnapshot {
    type V = Seq<ClipPlayback>;

    /// The stored clips, in insertion order.
    closed spec fn view(&self) -> Seq<ClipPlayback> {
        Seq::new(self.clip_count as nat, |i: int| self.clips@[i]->Some_0)
    }
}

impl AudioTrackSnapshot {
    #[verifier::type_invariant]
    closed spec fn filled_prefix(self) -> bool {
        self.is_packed()
    }

    /// The clips fill the first slots and every later slot is empty, so the track is determined
    /// by its identifier and its clips.
    pub closed spec fn is_packed(self) -> bool {
        &&& self.clip_count <= MAX_CLIPS_PER_TRACK
        &&& forall|i: int| 0 <= i < self.clip_count ==> (#[trigger] self.clips@[i]) is Some
        &&& forall|i: int| self.clip_count <= i < MAX_CLIPS_PER_TRACK ==> (#[trigger] self.clips@[i]) is None
    }

    /// The identifier of the track this data belongs to.
    pub closed spec fn spec_track_id(self) -> TrackId {
        self.track_id
    }

    pub fn track_id(self) -> (id: TrackId)
        ensures
            id == self.spec_track_id(),
    {
        self.track_id
    }

    /// The occupied slots, each holding a clip.
    pub fn clips(&self) -> (clips: &[Option<ClipPlayback>])
        ensures
            clips@.len() == self@.len(),
            self@.len() <= MAX_CLIPS_PER_TRACK,
            forall|i: int| 0 <= i < clips@.len() ==> clips@[i] == Some(#[trigger] self@[i]),
    {
        proof {
            use_type_invariant(self);
        }
        let all = self.clips.as_slice();
        &all[0..self.clip_count]
    }

    fn new(track_id: TrackId) -> (track: Self)
        ensures
            track.spec_track_id() == track_id,
            track@ == Seq::<ClipPlayback>::empty(),
            track.is_packed(),
    {
        let track = Self { track_id, clips: [None; MAX_CLIPS_PER_TRACK], clip_count: 0 };
        assert(track@ =~= Seq::<ClipPlayback>::empty());
        track
    }

    fn push(&mut self, clip: ClipPlayback) -> (result: Result<(), SnapshotCompileError>)
        ensures
            final(self).spec_track_id() == old(self).spec_track_id(),
            final(self).is_packed(),
            old(self)@.len() <= MAX_CLIPS_PER_TRACK,
            old(self)@.len() == MAX_CLIPS_PER_TRACK ==> result == Err::<(), _>(
                SnapshotCompileError::TooManyClips { track_id: old(self).spec_track_id() },
            ) && final(self)@ == old(self)@,
            old(self)@.len() < MAX_CLIPS_PER_TRACK ==> result is Ok && final(self)@ == old(self)@.push(
                clip,
            ),
    {
        proof {
            use_type_invariant(&*self);
        }
        if self.clip_count == MAX_CLIPS_PER_TRACK {
            return Err(SnapshotCompileError::TooManyClips { track_id: self.track_id });
        }
        let count = self.clip_count;
        let mut clips = self.clips;
        clips[count] = Some(clip);
        *self = Self { track_id: self.track_id, clips, clip_count: count + 1 };
        assert(self@ =~= old(self)@.push(clip));
        Ok(())
    }
}

/// Errors produced while compiling a timeline into a snapshot.
#[derive(Debug, Clone, Copy, PartialEq, Eq, Structural)]
pub enum SnapshotCompileError {
    /// A clip names a track that the snapshot does not have.
    UnknownTrack { track_id: TrackId },
    /// A track holds more clips than a snapshot track can store.
    TooManyClips { track_id: TrackId },
}

/// Outcome of compiling the clips `clips`, in order, into the two fixed tracks with
/// identifiers 1 and 2: the playback lists of both tracks, or the error raised by the first clip
/// that names another track or that finds its track full.
pub open spec fn compiled(clips: Seq<AudioClip>) -> Result<
    (Seq<ClipPlayback>, Seq<ClipPlayback>),
    SnapshotCompileError,
>
    decreases clips.len(),
{
    if clips.len() == 0 {
        Ok((Seq::empty(), Seq::empty()))
    } else {
        match compiled(clips.drop_last()) {
            Err(e) => Err(e),
            Ok((first, second)) => {
                let clip = clips.last();
                if clip.track_id == TrackId(1) {
                    if first.len() >= MAX_CLIPS_PER_TRACK {
                        Err(SnapshotCompileError::TooManyClips { track_id: clip.track_id })
                    } else {
                        Ok((first.push(playback_of(clip)), second))
                    }
                } else if clip.track_id == TrackId(2) {
                    if second.len() >= MAX_CLIPS_PER_TRACK {
                        Err(SnapshotCompileError::TooManyClips { track_id: clip.track_id })
                    } else {
                        Ok((first, second.push(playback_of(clip))))
                    }
                } else {
                    Err(SnapshotCompileError::UnknownTrack { track_id: clip.track_id })
                }
            },
        }
    }
}

/// The first track of `tracks` with identifier `id`, if any.
pub open spec fn find_track(tracks: Seq<AudioTrackSnapshot>, id: TrackId) -> Option<
    AudioTrackSnapshot,
>
    decreases tracks.len(),
{
    if tracks.len() == 0 {
        None
    } else if tracks[0].spec_track_id() == id {
        Some(tracks[0])
    } else {
        find_track(tracks.drop_first(), id)
    }
}

/// The clips of `clips` on track `id`, as playback data, in timeline order.
pub open spec fn track_playbacks(clips: Seq<AudioClip>, id: TrackId) -> Seq<ClipPlayback> {
    clips.filter(|clip: AudioClip| clip.track_id == id).map_values(|clip: AudioClip| playback_of(clip))
}

/// Compiling splits the timeline by track: when it succeeds, track 1 receives exactly the
/// timeline's clips on track 1 and track 2 those on track 2, each in timeline order; and it
/// succeeds whenever every clip is on track 1 or 2 and neither track has more than
/// `MAX_CLIPS_PER_TRACK` clips.
pub proof fn lemma_compile_partitions_clips(clips: Seq<AudioClip>)
    ensures
        compiled(clips) is Ok ==> compiled(clips)->Ok_0.0 == track_playbacks(clips, TrackId(1))
            && compiled(clips)->Ok_0.1 == track_playbacks(clips, TrackId(2)),
        (forall|i: int| 0 <= i < clips.len() ==> (#[trigger] clips[i]).track_id == TrackId(1)
            || clips[i].track_id == TrackId(2))
            && track_playbacks(clips, TrackId(1)).len() <= MAX_CLIPS_PER_TRACK
            && track_playbacks(clips, TrackId(2)).len() <= MAX_CLIPS_PER_TRACK ==> compiled(clips) is Ok,
    decreases clips.len(),
{
    reveal(Seq::filter);
    if clips.len() > 0 {
        let shorter = clips.drop_last();
        lemma_compile_partitions_clips(shorter);
        let clip = clips.last();
        let one = |c: AudioClip| c.track_id == TrackId(1);
        let two = |c: AudioClip| c.track_id == TrackId(2);
        assert(clips.filter(one) == if one(clip) { shorter.filter(one).push(clip) } else { shorter.filter(one) });
        assert(clips.filter(two) == if two(clip) { shorter.filter(two).push(clip) } else { shorter.filter(two) });
        let f = |c: AudioClip| playback_of(c);
        assert(shorter.filter(one).push(clip).map_values(f) =~= shorter.filter(one).map_values(f).push(playback_of(clip)));
        assert(shorter.filter(two).push(clip).map_values(f) =~= shorter.filter(two).map_values(f).push(playback_of(clip)));
        if (forall|i: int| 0 <= i < clips.len() ==> (#[trigger] clips[i]).track_id == TrackId(1)
            || clips[i].track_id == TrackId(2)) {
            assert forall|i: int| 0 <= i < shorter.len() implies (#[trigger] shorter[i]).track_id == TrackId(1)
                || shorter[i].track_id == TrackId(2) by {
                assert(shorter[i] == clips[i]);
            }
            assert(clip == clips[clips.len() - 1]);
        }
    }
}

/// Once a prefix of `clips` fails to compile, the whole sequence fails with the same error.
proof fn lemma_compile_error_persists(clips: Seq<AudioClip>, n: int)
    requires
        0 <= n <= clips.len(),
        compiled(clips.take(n)) is Err,
    ensures
        compiled(clips) == compiled(clips.take(n)),
    decreases clips.len() - n,
{
    if n < clips.len() {
        let longer = clips.take(n + 1);
        assert(longer.drop_last() == clips.take(n));
        lemma_compile_error_persists(clips, n + 1);
    } else {
        assert(clips.take(n) == clips);
    }
}

/// Immutable, fixed-size project view consumed by the audio thread.
#[derive(Debug, Clone, Copy, PartialEq, Eq)]
pub struct AudioSnapshot {
    tracks: [AudioTrackSnapshot; SNAPSHOT_TRACK_COUNT],
}

impl View for AudioSnapshot {
    type V = Seq<AudioTrackSnapshot>;

    /// The fixed tracks, in order.
    closed spec fn view(&self) -> Seq<AudioTrackSnapshot> {
        self.tracks@
    }
}

impl AudioSnapshot {
    /// The clips of the first track with identifier `id`; none when no track has it.
    pub open spec fn track_clips_spec(self, id: TrackId) -> Seq<ClipPlayback> {
        match find_track(self@, id) {
            Some(track) => track@,
            None => Seq::empty(),
        }
    }

    /// The snapshot holds the two fixed tracks 1 and 2 with the playback lists `first` and
    /// `second`.
    pub open spec fn holds(self, first: Seq<ClipPlayback>, second: Seq<ClipPlayback>) -> bool {
        &&& self@.len() == 2
        &&& self@[0].spec_track_id() == TrackId(1)
        &&& self@[1].spec_track_id() == TrackId(2)
        &&& self@[0]@ == first
        &&& self@[1]@ == second
        &&& self@[0].is_packed()
        &&& self@[1].is_packed()
    }

    /// Compiles editable timeline data outside the audio callback.
    pub fn compile(timeline: &Timeline) -> (result: Result<Self, SnapshotCompileError>)
        ensures
            match (result, compiled(timeline@)) {
                (Ok(snapshot), Ok((first, second))) => snapshot.holds(first, second),
                (Err(e), Err(f)) => e == f,
                _ => false,
            },
    {
        SnapshotCompiler::compile(timeline)
    }

    /// A snapshot in which each of the two tracks holds one synthesizer clip that starts at
    /// zero and never ends.
    pub fn prototype() -> (snapshot: Self)
        ensures
            snapshot.holds(
                seq![ClipPlayback { clip_id: ClipId(0), start: SampleTime(0), end: SampleTime(u64::MAX), source: ClipSource::Synth }],
                seq![ClipPlayback { clip_id: ClipId(0), start: SampleTime(0), end: SampleTime(u64::MAX), source: ClipSource::Synth }],
            ),
    {
        let playback = ClipPlayback {
            clip_id: ClipId::new(0),
            start: SampleTime::new(0),
            end: SampleTime::new(u64::MAX),
            source: ClipSource::Synth,
        };
        let mut first = AudioTrackSnapshot::new(TrackId::new(1));
        let mut second = AudioTrackSnapshot::new(TrackId::new(2));
        let _ = first.push(playback);
        let _ = second.push(playback);
        let snapshot = Self { tracks: [first, second] };
        assert(snapshot@[0] == first);
        assert(snapshot@[1] == second);
        assert(first@ =~= seq![playback]);
        assert(second@ =~= seq![playback]);
        snapshot
    }

    fn track_index(&self, track_id: TrackId) -> (index: Option<usize>)
        ensures
            match index {
                Some(i) => i < self@.len() && find_track(self@, track_id) == Some(self@[i as int]),
                None => find_track(self@, track_id) is None,
            },
    {
        proof {
            reveal_with_fuel(find_track, 3);
            assert(self@.drop_first().drop_first() =~= Seq::<AudioTrackSnapshot>::empty());
        }
        if self.tracks[0].track_id() == track_id {
            Some(0)
        } else if self.tracks[1].track_id() == track_id {
            Some(1)
        } else {
            None
        }
    }

    /// The first track with identifier `track_id`.
    pub fn track(&self, track_id: TrackId) -> (track: Option<&AudioTrackSnapshot>)
        ensures
            match track {
                Some(t) => find_track(self@, track_id) == Some(*t),
                None => find_track(self@, track_id) is None,
            },
    {
        match self.track_index(track_id) {
            Some(index) => Some(&self.tracks[index]),
            None => None,
        }
    }

    /// All fixed tracks, in order.
    pub fn tracks(&self) -> (tracks: &[AudioTrackSnapshot; SNAPSHOT_TRACK_COUNT])
        ensures
            tracks@ == self@,
    {
        &self.tracks
    }
}

/// Two packed tracks with the same identifier and the same clips are the same value.
pub proof fn lemma_packed_tracks_are_equal(a: AudioTrackSnapshot, b: AudioTrackSnapshot)
    requires
        a.is_packed(),
        b.is_packed(),
        a.spec_track_id() == b.spec_track_id(),
        a@ == b@,
    ensures
        a == b,
{
    assert(a.clip_count == a@.len());
    assert(b.clip_count == b@.len());
    assert(a.clips =~= b.clips) by {
        assert forall|i: int| 0 <= i < MAX_CLIPS_PER_TRACK implies a.clips[i] == b.clips[i] by {
            if i < a.clip_count {
                assert(a.clips@[i] is Some);
                assert(b.clips@[i] is Some);
                assert(a@[i] == a.clips@[i]->Some_0);
                assert(b@[i] == b.clips@[i]->Some_0);
            } else {
                assert(a.clips@[i] is None);
                assert(b.clips@[i] is None);
            }
        }
    }
}

/// Two snapshots that hold the same playback lists on tracks 1 and 2 are the same value; in
/// particular, compiling one timeline twice gives equal snapshots.
pub proof fn lemma_snapshots_holding_same_tracks_are_equal(
    a: AudioSnapshot,
    b: AudioSnapshot,
    first: Seq<ClipPlayback>,
    second: Seq<ClipPlayback>,
)
    requires
        a.holds(first, second),
        b.holds(first, second),
    ensures
        a == b,
{
    lemma_packed_tracks_are_equal(a@[0], b@[0]);
    lemma_packed_tracks_are_equal(a@[1], b@[1]);
    assert(a.tracks =~= b.tracks) by {
        assert forall|i: int| 0 <= i < SNAPSHOT_TRACK_COUNT implies a.tracks[i] == b.tracks[i] by {
            if i == 0 {
                assert(a.tracks[0] == a@[0] && b.tracks[0] == b@[0]);
            } else {
                assert(a.tracks[1] == a@[1] && b.tracks[1] == b@[1]);
            }
        }
    }
}

/// In a snapshot that holds the fixed tracks 1 and 2, looking a track up by identifier yields
/// that track's playback list.
pub proof fn lemma_holds_track_clips(snapshot: AudioSnapshot, first: Seq<ClipPlayback>, second: Seq<ClipPlayback>)
    requires
        snapshot.holds(first, second),
    ensures
        snapshot.track_clips_spec(TrackId(1)) == first,
        snapshot.track_clips_spec(TrackId(2)) == second,
        forall|id: TrackId| id != TrackId(1) && id != TrackId(2) ==> snapshot.track_clips_spec(id)
            == Seq::<ClipPlayback>::empty(),
{
    reveal_with_fuel(find_track, 3);
    assert(snapshot@.drop_first().drop_first() =~= Seq::<AudioTrackSnapshot>::empty());
}

/// Compiles editable project data into an immutable real-time representation.
pub struct SnapshotCompiler;

impl SnapshotCompiler {
    /// Places each clip of the timeline, in order, on the track it names.
    pub fn compile(timeline: &Timeline) -> (result: Result<AudioSnapshot, SnapshotCompileError>)
        ensures
            match (result, compiled(timeline@)) {
                (Ok(snapshot), Ok((first, second))) => snapshot.holds(first, second),
                (Err(e), Err(f)) => e == f,
                _ => false,
            },
    {
        let mut snapshot = AudioSnapshot {
            tracks: [AudioTrackSnapshot::new(TrackId::new(1)), AudioTrackSnapshot::new(TrackId::new(2))],
        };
        let clips = timeline.clips();
        let mut index: usize = 0;
        while index < clips.len()
            invariant
                index <= clips@.len(),
                clips@ == timeline@,
                compiled(clips@.take(index as int)) is Ok,
                snapshot.holds(
                    compiled(clips@.take(index as int))->Ok_0.0,
                    compiled(clips@.take(index as int))->Ok_0.1,
                ),
            decreases clips@.len() - index,
        {
            let clip = clips[index];
            let prefix = Ghost(clips@.take(index as int + 1));
            assert(prefix@.drop_last() == clips@.take(index as int));
            assert(prefix@.last() == clip);
            let slot = match snapshot.track_index(clip.track_id()) {
                Some(slot) => slot,
                None => {
                    proof {
                        reveal_with_fuel(find_track, 3);
                        lemma_compile_error_persists(clips@, index as int + 1);
                    }
                    return Err(SnapshotCompileError::UnknownTrack { track_id: clip.track_id() });
                },
            };
            proof {
                reveal_with_fuel(find_track, 3);
                assert(snapshot@.drop_first().drop_first() =~= Seq::<AudioTrackSnapshot>::empty());
                assert(slot == 0 ==> clip.track_id == TrackId(1));
                assert(slot == 1 ==> clip.track_id == TrackId(2));
                assert(compiled(prefix@) == {
                    let (first, second) = compiled(clips@.take(index as int))->Ok_0;
                    if clip.track_id == TrackId(1) {
                        if first.len() >= MAX_CLIPS_PER_TRACK {
                            Err(SnapshotCompileError::TooManyClips { track_id: clip.track_id })
                        } else {
                            Ok((first.push(playback_of(clip)), second))
                        }
                    } else {
                        if second.len() >= MAX_CLIPS_PER_TRACK {
                            Err(SnapshotCompileError::TooManyClips { track_id: clip.track_id })
                        } else {
                            Ok((first, second.push(playback_of(clip))))
                        }
                    }
                });
            }
            let mut track = snapshot.tracks[slot];
            match track.push(compile_clip(clip)) {
                Ok(()) => {},
                Err(error) => {
                    proof {
                        lemma_compile_error_persists(clips@, index as int + 1);
                    }
                    return Err(error);
                },
            }
            snapshot.tracks[slot] = track;
            index += 1;
        }
        assert(clips@.take(clips@.len() as int) == clips@);
        Ok(snapshot)
    }
}

/// Queries precompiled playback data; it never accesses the editable timeline.
pub struct ClipScheduler<'a> {
    snapshot: &'a AudioSnapshot,
}

impl<'a> View for ClipScheduler<'a> {
    type V = AudioSnapshot;

    /// The snapshot being queried.
    closed spec fn view(&self) -> AudioSnapshot {
        *self.snapshot
    }
}

/// The clips of `clips` that are sounding at `position`, in order.
pub open spec fn active_playbacks(clips: Seq<ClipPlayback>, position: SampleTime) -> Seq<
    ClipPlayback,
> {
    clips.filter(|clip: ClipPlayback| clip.active_at(position))
}

/// The clips sounding at a position are those of the track with `start <= position < end`,
/// each as often as the track holds it; so every such clip is listed, the number listed is the
/// number of such clips, and the list is empty exactly when none of the track's clips sounds.
pub proof fn lemma_active_playbacks_members(clips: Seq<ClipPlayback>, position: SampleTime)
    ensures
        forall|clip: ClipPlayback|
            #[trigger] active_playbacks(clips, position).to_multiset().count(clip) == if clip.start.0
                <= position.0 && position.0 < clip.end.0 {
                clips.to_multiset().count(clip)
            } else {
                0
            },
        forall|clip: ClipPlayback|
            #[trigger] active_playbacks(clips, position).contains(clip) <==> clips.contains(clip)
                && clip.start.0 <= position.0 && position.0 < clip.end.0,
        forall|i: int|
            0 <= i < clips.len() && clips[i].start.0 <= position.0 && position.0 < clips[i].end.0
                ==> active_playbacks(clips, position).contains(#[trigger] clips[i]),
        active_playbacks(clips, position).len() > 0 <==> exists|i: int|
            0 <= i < clips.len() && (#[trigger] clips[i]).start.0 <= position.0 && position.0
                < clips[i].end.0,
{
    broadcast use vstd::seq_lib::group_to_multiset_ensures;

    let pred = |clip: ClipPlayback| clip.active_at(position);
    let active = active_playbacks(clips, position);
    assert forall|clip: ClipPlayback|
        #[trigger] active.to_multiset().count(clip) == if clip.start.0 <= position.0 && position.0
            < clip.end.0 {
            clips.to_multiset().count(clip)
        } else {
            0
        } by {
        lemma_filter_counts(clips, pred, clip);
    }
    assert forall|clip: ClipPlayback|
        #[trigger] active.contains(clip) <==> clips.contains(clip) && clip.start.0 <= position.0
            && position.0 < clip.end.0 by {
        lemma_filter_counts(clips, pred, clip);
    }
    assert forall|i: int|
        0 <= i < clips.len() && clips[i].start.0 <= position.0 && position.0 < clips[i].end.0
            implies active.contains(#[trigger] clips[i]) by {
        lemma_filter_counts(clips, pred, clips[i]);
    }
    if active.len() > 0 {
        assert(active.contains(active[0]));
        let i = choose|i: int| 0 <= i < clips.len() && clips[i] == active[0];
        assert(clips[i].start.0 <= position.0 && position.0 < clips[i].end.0);
    }
    if exists|i: int|
        0 <= i < clips.len() && (#[trigger] clips[i]).start.0 <= position.0 && position.0 < clips[i].end.0 {
        let i = choose|i: int|
            0 <= i < clips.len() && (#[trigger] clips[i]).start.0 <= position.0 && position.0 < clips[i].end.0;
        assert(active.contains(clips[i]));
    }
}

/// The clips sounding at a position keep the track's order: those of two clip lists laid end
/// to end are those of the first followed by those of the second, and a list of one clip
/// yields that clip exactly when `start <= position < end`.
pub proof fn lemma_active_playbacks_order(first: Seq<ClipPlayback>, second: Seq<ClipPlayback>, clip: ClipPlayback, position: SampleTime)
    ensures
        active_playbacks(first + second, position) == active_playbacks(first, position)
            + active_playbacks(second, position),
        active_playbacks(seq![clip], position) == if clip.start.0 <= position.0 && position.0
            < clip.end.0 {
            seq![clip]
        } else {
            Seq::<ClipPlayback>::empty()
        },
{
    broadcast use Seq::filter_distributes_over_add;

    reveal(Seq::filter);
    let single = seq![clip];
    assert(single.drop_last() =~= Seq::<ClipPlayback>::empty());
    assert(single.last() == clip);
    let none = Seq::<ClipPlayback>::empty().filter(|c: ClipPlayback| c.active_at(position));
    assert(none =~= Seq::<ClipPlayback>::empty());
    if clip.active_at(position) {
        assert(active_playbacks(single, position) =~= single);
    } else {
        assert(active_playbacks(single, position) =~= Seq::<ClipPlayback>::empty());
    }
}

impl<'a> ClipScheduler<'a> {
    pub fn new(snapshot: &'a AudioSnapshot) -> (scheduler: Self)
        ensures
            scheduler@ == *snapshot,
    {
        Self { snapshot }
    }

    /// The clips of the track with identifier `track_id` that sound at `position`.
    /// It allocates a `Vec`, so it belongs off the audio thread; the audio callback reads
    /// `track_slots` instead.
    pub fn active_clips(&self, track_id: TrackId, position: SampleTime) -> (active: Vec<ClipPlayback>)
        ensures
            active@ == active_playbacks(self@.track_clips_spec(track_id), position),
    {
        let clips = self.track_clips(track_id);
        let mut active: Vec<ClipPlayback> = Vec::new();
        let mut index: usize = 0;
        while index < clips.len()
            invariant
                index <= clips@.len(),
                active@ == active_playbacks(clips@.take(index as int), position),
            decreases clips@.len() - index,
        {
            let clip = clips[index];
            proof {
                assert(clips@.take(index as int + 1).drop_last() == clips@.take(index as int));
                reveal(Seq::filter);
            }
            if clip.is_active_at(position) {
                active.push(clip);
            }
            index += 1;
        }
        assert(clips@.take(clips@.len() as int) == clips@);
        active
    }

    /// The occupied slots of the track with identifier `track_id`, in order, without copying;
    /// empty when no track has that identifier.
    pub fn track_slots(&self, track_id: TrackId) -> (slots: &'a [Option<ClipPlayback>])
        ensures
            slots@.len() == self@.track_clips_spec(track_id).len(),
            slots@.len() <= MAX_CLIPS_PER_TRACK,
            forall|i: int| 0 <= i < slots@.len() ==> slots@[i] == Some(#[trigger] self@.track_clips_spec(track_id)[i]),
    {
        let snapshot: &'a AudioSnapshot = self.snapshot;
        match snapshot.track(track_id) {
            Some(track) => track.clips(),
            None => {
                let none: &'a [Option<ClipPlayback>] = &[];
                none
            },
        }
    }

    /// The precompiled clips of the track with identifier `track_id`, in order.
    /// It allocates a `Vec`, so it belongs off the audio thread; the audio callback reads
    /// `track_slots` instead.
    pub fn track_clips(&self, track_id: TrackId) -> (clips: Vec<ClipPlayback>)
        ensures
            clips@ == self@.track_clips_spec(track_id),
            clips@.len() <= MAX_CLIPS_PER_TRACK,
    {
        let mut clips: Vec<ClipPlayback> = Vec::new();
        match self.snapshot.track(track_id) {
            None => {
                assert(clips@ =~= self@.track_clips_spec(track_id));
            },
            Some(track) => {
                let slots = track.clips();
                let mut index: usize = 0;
                while index < slots.len()
                    invariant
                        index <= slots@.len(),
                        slots@.len() == track@.len(),
                        forall|i: int| 0 <= i < slots@.len() ==> slots@[i] == Some(#[trigger] track@[i]),
                        clips@ == track@.take(index as int),
                    decreases slots@.len() - index,
                {
                    assert(slots@[index as int] == Some(track@[index as int]));
                    if let Some(clip) = slots[index] {
                        clips.push(clip);
                    }
                    assert(clips@ =~= track@.take(index as int + 1));
                    index += 1;
                }
                assert(track@.take(track@.len() as int) =~= track@);
            },
        }
        clips
    }

    /// Some clip of the track with identifier `track_id` sounds at `position`.
    /// It allocates a `Vec`, so it belongs off the audio thread; the audio callback reads
    /// `track_slots` instead.
    pub fn is_track_active(&self, track_id: TrackId, position: SampleTime) -> (active: bool)
        ensures
            active == (active_playbacks(self@.track_clips_spec(track_id), position).len() > 0),
    {
        self.active_clips(track_id, position).len() > 0
    }
}

/// The bounded lock-free queue of the `crossbeam_queue` crate.
#[verifier::external_type_specification]
#[verifier::external_body]
#[verifier::reject_recursive_types(T)]
pub struct ExArrayQueue<T>(ArrayQueue<T>);

/// The capacity a snapshot queue was created with; `ArrayQueue` keeps it for its whole life
/// and reports it from `capacity`.
pub uninterp spec fn queue_capacity(queue: ArrayQueue<AudioSnapshot>) -> usize;

/// Calls `crossbeam_queue::ArrayQueue::new`, which stores `capacity` as the queue's capacity.
/// The crate panics on a zero capacity and on one whose successor has no next power of two;
/// `requires` keeps both out.
#[verifier::external_body]
fn new_queue(capacity: usize) -> (queue: ArrayQueue<AudioSnapshot>)
    requires
        0 < capacity <= 0x4000_0000,
    ensures
        queue_capacity(queue) == capacity,
{
    ArrayQueue::new(capacity)
}

/// Calls `crossbeam_queue::ArrayQueue::push`, which hands the value back as the error when the
/// queue is full. The queue is shared with another thread, so whether it is full is not stated.
#[verifier::external_body]
fn queue_push<T>(queue: &ArrayQueue<T>, value: T) -> (result: Result<(), T>)
    ensures
        result matches Err(returned) ==> returned == value,
{
    queue.push(value)
}

/// Calls `crossbeam_queue::ArrayQueue::pop`. The queue is shared with another thread, so what
/// comes out is not stated.
#[verifier::external_body]
fn queue_pop<T>(queue: &ArrayQueue<T>) -> Option<T> {
    queue.pop()
}

/// Calls `Arc::clone`, which returns another pointer to the same allocation.
#[verifier::external_body]
fn share<T>(shared: &Arc<T>) -> (copy: Arc<T>)
    ensures
        *copy == **shared,
{
    Arc::clone(shared)
}

/// Application-side publisher for immutable, fixed-size snapshots.
pub struct AudioSnapshotSender {
    snapshots: Arc<ArrayQueue<AudioSnapshot>>,
}

impl AudioSnapshotSender {
    /// The queue this endpoint publishes to.
    pub closed spec fn queue(&self) -> ArrayQueue<AudioSnapshot> {
        *self.snapshots
    }
}

impl Clone for AudioSnapshotSender {
    fn clone(&self) -> (sender: Self)
        ensures
            sender.queue() == self.queue(),
    {
        Self { snapshots: share(&self.snapshots) }
    }
}

/// The snapshot queue had no free slot.
#[derive(Debug, Clone, Copy, PartialEq, Eq, Structural)]
pub enum SnapshotPublishError {
    QueueFull,
}

impl AudioSnapshotSender {
    /// Publishes `snapshot`, or reports that the queue is full; it never blocks.
    pub fn try_send(&self, snapshot: AudioSnapshot) -> (result: Result<(), SnapshotPublishError>)
        ensures
            result is Err ==> result == Err::<(), _>(SnapshotPublishError::QueueFull),
    {
        publish_outcome(queue_push(&self.snapshots, snapshot))
    }
}

/// What publishing reports for the queue's answer to a push: success when the queue took the
/// snapshot, `QueueFull` when it handed the snapshot back.
pub fn publish_outcome(pushed: Result<(), AudioSnapshot>) -> (result: Result<(), SnapshotPublishError>)
    ensures
        result is Ok <==> pushed is Ok,
        pushed is Err ==> result == Err::<(), _>(SnapshotPublishError::QueueFull),
{
    match pushed {
        Ok(()) => Ok(()),
        Err(_) => Err(SnapshotPublishError::QueueFull),
    }
}

/// The latest snapshot after one read of the queue: the snapshot read, if the read yielded one,
/// else the one held before.
pub fn keep_latest(latest: Option<AudioSnapshot>, popped: Option<AudioSnapshot>) -> (kept: Option<AudioSnapshot>)
    ensures
        kept == match popped {
            Some(snapshot) => Some(snapshot),
            None => latest,
        },
{
    match popped {
        Some(snapshot) => Some(snapshot),
        None => latest,
    }
}

/// Audio-thread endpoint. Consuming a snapshot only copies a fixed-size value.
pub struct AudioSnapshotReceiver {
    snapshots: Arc<ArrayQueue<AudioSnapshot>>,
}

impl AudioSnapshotReceiver {
    /// The queue this endpoint consumes from.
    pub closed spec fn queue(&self) -> ArrayQueue<AudioSnapshot> {
        *self.snapshots
    }

    /// Drains at most `SNAPSHOT_QUEUE_CAPACITY` snapshots and returns the last one drained; it
    /// stops at the first empty read (`keep_draining`), and each read is folded in by
    /// `keep_latest`. What the reads yield depends on the publishing thread, so the contract
    /// names no result.
    pub fn take_latest(&self) -> (latest: Option<AudioSnapshot>) {
        let mut latest: Option<AudioSnapshot> = None;
        let mut reads: usize = 0;
        let mut more = keep_draining(reads, false);
        while more
            invariant
                reads <= SNAPSHOT_QUEUE_CAPACITY,
                more ==> reads < SNAPSHOT_QUEUE_CAPACITY,
            decreases SNAPSHOT_QUEUE_CAPACITY - reads,
        {
            let popped = queue_pop(&self.snapshots);
            let empty = popped.is_none();
            latest = keep_latest(latest, popped);
            reads += 1;
            more = keep_draining(reads, empty);
        }
        latest
    }
}

/// Whether the audio thread reads the snapshot queue once more, after `reads_done` reads of
/// which the last was empty or not: it reads again only while the queue still yielded a
/// snapshot and fewer than `SNAPSHOT_QUEUE_CAPACITY` reads were made.
pub fn keep_draining(reads_done: usize, last_read_was_empty: bool) -> (more: bool)
    ensures
        more == (!last_read_was_empty && reads_done < SNAPSHOT_QUEUE_CAPACITY),
{
    !last_read_was_empty && reads_done < SNAPSHOT_QUEUE_CAPACITY
}

/// Creates the bounded queue shared by a snapshot publisher and the audio thread.
pub fn audio_snapshot_exchange() -> (endpoints: (AudioSnapshotSender, AudioSnapshotReceiver))
    ensures
        endpoints.0.queue() == endpoints.1.queue(),
        queue_capacity(endpoints.0.queue()) == SNAPSHOT_QUEUE_CAPACITY,
{
    let snapshots = Arc::new(new_queue(SNAPSHOT_QUEUE_CAPACITY));
    (AudioSnapshotSender { snapshots: share(&snapshots) }, AudioSnapshotReceiver { snapshots })
}

} // verus!
