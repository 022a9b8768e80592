use vstd::prelude::*;

use crate::snapshot::{ClipPlayback, ClipScheduler, MAX_CLIPS_PER_TRACK};
use crate::timeline::{ClipId, SampleTime, saturating_end};
use crate::track::TrackId;

verus! {

broadcast use vstd::seq_lib::group_to_multiset_ensures;

/// Maximum start and stop events that can be scheduled for one track in one block.
pub const MAX_SCHEDULED_EVENTS_PER_TRACK: usize = MAX_CLIPS_PER_TRACK * 2;

/// A voice-pool change applied immediately before rendering a frame of a block.
#[derive(Debug, Clone, Copy, PartialEq, Eq, Structural)]
pub enum VoiceEvent {
    StartVoice(ClipPlayback),
    StopVoice(ClipId),
}

/// A voice event with a frame offset relative to the current callback block.
#[derive(Debug, Clone, Copy, PartialEq, Eq, Structural)]
pub struct ScheduledEvent {
    pub sample_offset: usize,
    pub event: VoiceEvent,
}

impl ScheduledEvent {
    pub fn new(sample_offset: usize, event: VoiceEvent) -> (scheduled: Self)
        ensures
            scheduled == (ScheduledEvent { sample_offset, event }),
    {
        Self { sample_offset, event }
    }

    pub fn sample_offset(self) -> (offset: usize)
        ensures
            offset == self.sample_offset,
    {
        self.sample_offset
    }

    pub fn event(self) -> (event: VoiceEvent)
        ensures
            event == self.event,
    {
        self.event
    }
}

/// Stops come before starts at the same offset.
pub open spec fn priority(event: VoiceEvent) -> int {
    match event {
        VoiceEvent::StopVoice(_) => 0,
        VoiceEvent::StartVoice(_) => 1,
    }
}

/// `left` must be applied strictly before `right`: an earlier offset, or the same offset and a
/// stop before a start.
pub open spec fn precedes(left: ScheduledEvent, right: ScheduledEvent) -> bool {
    left.sample_offset < right.sample_offset || (left.sample_offset == right.sample_offset
        && priority(left.event) < priority(right.event))
}

/// No event of `events` must be applied before an event that comes earlier in the sequence.
pub open spec fn is_ordered(events: Seq<ScheduledEvent>) -> bool {
    forall|i: int, j: int| 0 <= i < j < events.len() ==> !precedes(events[j], events[i])
}

/// Where `event` goes in `events`: after every element that it does not strictly precede,
/// scanning from the back.
pub open spec fn insert_position(events: Seq<ScheduledEvent>, event: ScheduledEvent) -> int
    decreases events.len(),
{
    if events.len() == 0 {
        0
    } else if precedes(event, events.last()) {
        insert_position(events.drop_last(), event)
    } else {
        events.len() as int
    }
}

/// `events` with `event` inserted in order, unless `events` already holds `capacity` entries,
/// in which case `event` is dropped.
pub open spec fn insert_bounded(events: Seq<ScheduledEvent>, event: ScheduledEvent, capacity: nat) -> Seq<
    ScheduledEvent,
> {
    if events.len() >= capacity {
        events
    } else {
        events.insert(insert_position(events, event), event)
    }
}

/// The table obtained by inserting `events`, one after the other, into an empty table of
/// `capacity` entries.
pub open spec fn ordered_table(events: Seq<ScheduledEvent>, capacity: nat) -> Seq<ScheduledEvent>
    decreases events.len(),
{
    if events.len() == 0 {
        Seq::empty()
    } else {
        insert_bounded(ordered_table(events.drop_last(), capacity), events.last(), capacity)
    }
}

/// The events that one clip contributes to the block `[block_start, block_end)`: a start at
/// the clip's first sample when it lies in the block, or at offset zero when the clip is
/// already sounding at the block's first sample; and a stop at the clip's end when it lies in
/// the block. A clip that ends no later than it starts contributes nothing.
pub open spec fn clip_events(clip: ClipPlayback, block_start: u64, block_end: u64) -> Seq<
    ScheduledEvent,
> {
    if clip.start.0 >= clip.end.0 {
        Seq::empty()
    } else {
        let starts = if block_start <= clip.start.0 && clip.start.0 < block_end {
            seq![
                ScheduledEvent {
                    sample_offset: (clip.start.0 - block_start) as usize,
                    event: VoiceEvent::StartVoice(clip),
                },
            ]
        } else if clip.active_at(SampleTime(block_start)) {
            seq![ScheduledEvent { sample_offset: 0, event: VoiceEvent::StartVoice(clip) }]
        } else {
            Seq::empty()
        };
        let stops = if block_start <= clip.end.0 && clip.end.0 < block_end {
            seq![
                ScheduledEvent {
                    sample_offset: (clip.end.0 - block_start) as usize,
                    event: VoiceEvent::StopVoice(clip.clip_id),
                },
            ]
        } else {
            Seq::empty()
        };
        starts + stops
    }
}

/// The events of all `clips`, clip by clip, for the block `[block_start, block_end)`.
pub open spec fn block_events(clips: Seq<ClipPlayback>, block_start: u64, block_end: u64) -> Seq<
    ScheduledEvent,
>
    decreases clips.len(),
{
    if clips.len() == 0 {
        Seq::empty()
    } else {
        block_events(clips.drop_last(), block_start, block_end) + clip_events(
            clips.last(),
            block_start,
            block_end,
        )
    }
}

/// Produces a sorted, fixed-size event list from immutable clip playback data.
pub struct EventScheduler<const N: usize> {
    events: [ScheduledEvent; N],
    event_count: usize,
}

impl<const N: usize> View for EventScheduler<N> {
    type V = Seq<ScheduledEvent>;

    /// The events of the most recent schedule, in application order.
    closed spec fn view(&self) -> Seq<ScheduledEvent> {
        self.events@.take(self.event_count as int)
    }
}

impl<const N: usize> EventScheduler<N> {
    #[verifier::type_invariant]
    closed spec fn count_in_bounds(self) -> bool {
        self.event_count <= N
    }

    pub fn new() -> (scheduler: Self)
        ensures
            scheduler@ == Seq::<ScheduledEvent>::empty(),
    {
        let placeholder = ScheduledEvent { sample_offset: 0, event: VoiceEvent::StopVoice(ClipId(0)) };
        Self { events: [placeholder; N], event_count: 0 }
    }

    /// Schedules the start and stop events of the track's clips in the block of `frames`
    /// samples that begins at `block_start`, in application order. When more events arise than
    /// the table holds, each event that finds the table full is dropped.
    pub fn schedule<'a>(
        &'a mut self,
        scheduler: &ClipScheduler<'_>,
        track_id: TrackId,
        block_start: SampleTime,
        frames: usize,
    ) -> (scheduled: &'a [ScheduledEvent])
        ensures
            scheduled@ == ordered_table(
                block_events(
                    scheduler@.track_clips_spec(track_id),
                    block_start.0,
                    saturating_end(block_start.0, frames as u64),
                ),
                N as nat,
            ),
            final(self)@ == scheduled@,
            is_ordered(scheduled@),
            scheduled@.len() <= N,
            frames > 0 ==> forall|i: int|
                0 <= i < scheduled@.len() ==> (#[trigger] scheduled@[i]).sample_offset < frames,
            forall|key: int|
                #[trigger] with_key(scheduled@, key) == with_key(
                    first_events(
                        block_events(
                            scheduler@.track_clips_spec(track_id),
                            block_start.0,
                            saturating_end(block_start.0, frames as u64),
                        ),
                        N as nat,
                    ),
                    key,
                ),
            N >= MAX_SCHEDULED_EVENTS_PER_TRACK ==> scheduled@.to_multiset() == block_events(
                scheduler@.track_clips_spec(track_id),
                block_start.0,
                saturating_end(block_start.0, frames as u64),
            ).to_multiset(),
    {
        proof {
            use_type_invariant(&*self);
        }
        self.clear();
        let block_end = block_start.samples().saturating_add(frames as u64);
        let slots = scheduler.track_slots(track_id);
        let ghost clips = scheduler@.track_clips_spec(track_id);
        let mut index: usize = 0;
        while index < slots.len()
            invariant
                index <= slots@.len(),
                slots@.len() == clips.len(),
                clips.len() <= MAX_CLIPS_PER_TRACK,
                forall|i: int| 0 <= i < slots@.len() ==> slots@[i] == Some(#[trigger] clips[i]),
                block_end == saturating_end(block_start.0, frames as u64),
                self@ == ordered_table(block_events(clips.take(index as int), block_start.0, block_end), N as nat),
            decreases slots@.len() - index,
        {
            assert(slots@[index as int] == Some(clips[index as int]));
            let ghost generated = block_events(clips.take(index as int), block_start.0, block_end);
            assert(clips.take(index as int + 1).drop_last() == clips.take(index as int));
            assert(clips.take(index as int + 1).last() == clips[index as int]);
            if let Some(clip) = slots[index] {
                if clip.start.0 < clip.end.0 {
                    if clip.start.0 >= block_start.0 && clip.start.0 < block_end {
                        let offset = offset_from(block_start, clip.start, frames);
                        self.insert(ScheduledEvent::new(offset, VoiceEvent::StartVoice(clip)));
                    } else if clip.is_active_at(block_start) {
                        self.insert(ScheduledEvent::new(0, VoiceEvent::StartVoice(clip)));
                    }
                    if clip.end.0 >= block_start.0 && clip.end.0 < block_end {
                        let offset = offset_from(block_start, clip.end, frames);
                        self.insert(ScheduledEvent::new(offset, VoiceEvent::StopVoice(clip.clip_id)));
                    }
                    proof {
                        lemma_ordered_table_append(generated, clip_events(clip, block_start.0, block_end), N as nat);
                    }
                } else {
                    assert(clip_events(clip, block_start.0, block_end) =~= Seq::<ScheduledEvent>::empty());
                    assert(generated + clip_events(clip, block_start.0, block_end) =~= generated);
                }
            }
            index += 1;
        }
        assert(clips.take(clips.len() as int) == clips);
        proof {
            use_type_invariant(&*self);
            let generated = block_events(clips, block_start.0, block_end);
            lemma_ordered_table_is_ordered(generated, N as nat);
            lemma_ordered_table_len(generated, N as nat);
            lemma_ordered_table_from_events(generated, N as nat);
            lemma_block_events_len(clips, block_start.0, block_end);
            assert forall|key: int|
                #[trigger] with_key(ordered_table(generated, N as nat), key) == with_key(
                    first_events(generated, N as nat),
                    key,
                ) by {
                lemma_ordered_table_is_stable(generated, N as nat, key);
            }
            if N >= MAX_SCHEDULED_EVENTS_PER_TRACK {
                lemma_ordered_table_keeps_events(generated, N as nat);
            }
            if frames > 0 {
                lemma_block_event_offsets(clips, block_start.0, frames);
                let table = ordered_table(generated, N as nat);
                assert forall|i: int| 0 <= i < table.len() implies (#[trigger] table[i]).sample_offset
                    < frames by {
                    let k = choose|k: int| 0 <= k < generated.len() && generated[k] == table[i];
                }
            }
        }
        let all = self.events.as_slice();
        &all[0..self.event_count]
    }

    fn clear(&mut self)
        ensures
            final(self)@ == Seq::<ScheduledEvent>::empty(),
    {
        self.event_count = 0;
    }

    /// Inserts `event` after every stored event that it does not strictly precede, unless the
    /// table is full.
    fn insert(&mut self, event: ScheduledEvent)
        ensures
            final(self)@ == insert_bounded(old(self)@, event, N as nat),
    {
        proof {
            use_type_invariant(&*self);
        }
        let count = self.event_count;
        if count == N {
            return;
        }
        let ghost stored = self@;
        assert(stored.take(count as int) == stored);
        let mut index = count;
        while index > 0 && is_before(event, self.events[index - 1])
            invariant
                index <= count < N,
                self.event_count == count,
                stored.len() == count,
                insert_position(stored, event) == insert_position(stored.take(index as int), event),
                forall|j: int| 0 <= j < index ==> self.events@[j] == stored[j],
                forall|j: int| index < j <= count ==> self.events@[j] == stored[j - 1],
            decreases index,
        {
            let previous = self.events[index - 1];
            assert(stored.take(index as int).drop_last() == stored.take(index - 1));
            self.events[index] = previous;
            index -= 1;
        }
        proof {
            if index > 0 {
                assert(stored.take(index as int).last() == stored[index - 1]);
            }
        }
        self.events[index] = event;
        self.event_count = count + 1;
        assert(self@ =~= stored.insert(index as int, event));
    }
}

/// The end of the run of events, starting at `start`, that are due before rendering frame
/// `frame`: every event in `events[start..end]` has offset `frame`, and the event at `end`, if
/// any, has another offset.
pub fn due_events_end(events: &[ScheduledEvent], start: usize, frame: usize) -> (end: usize)
    requires
        start <= events@.len(),
    ensures
        start <= end <= events@.len(),
        forall|i: int| start <= i < end ==> (#[trigger] events@[i]).sample_offset == frame,
        end < events@.len() ==> events@[end as int].sample_offset != frame,
{
    let mut end = start;
    while end < events.len() && events[end].sample_offset == frame
        invariant
            start <= end <= events@.len(),
            forall|i: int| start <= i < end ==> (#[trigger] events@[i]).sample_offset == frame,
        decreases events@.len() - end,
    {
        end += 1;
    }
    end
}

impl<const N: usize> Default for EventScheduler<N> {
    fn default() -> (scheduler: Self)
        ensures
            scheduler@ == Seq::<ScheduledEvent>::empty(),
    {
        Self::new()
    }
}

/// The offset of `position` in the block of `frames` samples that begins at `block_start`.
fn offset_from(block_start: SampleTime, position: SampleTime, frames: usize) -> (offset: usize)
    requires
        block_start.0 <= position.0,
        position.0 - block_start.0 < frames,
    ensures
        offset == position.0 - block_start.0,
{
    (position.0 - block_start.0) as usize
}

fn is_before(left: ScheduledEvent, right: ScheduledEvent) -> (result: bool)
    ensures
        result == precedes(left, right),
{
    left.sample_offset < right.sample_offset || (left.sample_offset == right.sample_offset
        && event_priority(left.event) < event_priority(right.event))
}

fn event_priority(event: VoiceEvent) -> (rank: u8)
    ensures
        rank == priority(event),
{
    match event {
        VoiceEvent::StopVoice(_) => 0,
        VoiceEvent::StartVoice(_) => 1,
    }
}

/// Inserting the events of `first + second` is inserting those of `first`, then those of
/// `second`, one after the other.
pub proof fn lemma_ordered_table_append(first: Seq<ScheduledEvent>, second: Seq<ScheduledEvent>, capacity: nat)
    ensures
        second.len() == 0 ==> ordered_table(first + second, capacity) == ordered_table(first, capacity),
        second.len() == 1 ==> ordered_table(first + second, capacity) == insert_bounded(
            ordered_table(first, capacity),
            second[0],
            capacity,
        ),
        second.len() == 2 ==> ordered_table(first + second, capacity) == insert_bounded(
            insert_bounded(ordered_table(first, capacity), second[0], capacity),
            second[1],
            capacity,
        ),
{
    if second.len() == 0 {
        assert(first + second =~= first);
    } else if second.len() == 1 {
        assert((first + second).drop_last() =~= first);
    } else if second.len() == 2 {
        assert((first + second).drop_last() =~= first + seq![second[0]]);
        assert((first + second).last() == second[1]);
        assert((first + seq![second[0]]).drop_last() =~= first);
        assert((first + seq![second[0]]).last() == second[0]);
        let middle = first + seq![second[0]];
        assert(ordered_table(middle, capacity) == insert_bounded(
            ordered_table(first, capacity),
            second[0],
            capacity,
        ));
        assert(ordered_table(first + second, capacity) == insert_bounded(
            ordered_table(middle, capacity),
            second[1],
            capacity,
        ));
    }
}

} // verus!

verus! {

/// Rank of an event in application order: offsets first, then stops before starts.
pub open spec fn order_key(event: ScheduledEvent) -> int {
    2 * event.sample_offset + priority(event.event)
}

proof fn lemma_precedes_is_key_order(left: ScheduledEvent, right: ScheduledEvent)
    ensures
        precedes(left, right) <==> order_key(left) < order_key(right),
{
}

proof fn lemma_insert_position(events: Seq<ScheduledEvent>, event: ScheduledEvent)
    ensures
        0 <= insert_position(events, event) <= events.len(),
        forall|j: int|
            insert_position(events, event) <= j < events.len() ==> precedes(event, #[trigger] events[j]),
        insert_position(events, event) > 0 ==> !precedes(
            event,
            events[insert_position(events, event) - 1],
        ),
    decreases events.len(),
{
    if events.len() > 0 && precedes(event, events.last()) {
        let shorter = events.drop_last();
        lemma_insert_position(shorter, event);
        assert forall|j: int| insert_position(events, event) <= j < events.len() implies precedes(
            event,
            #[trigger] events[j],
        ) by {
            if j < events.len() - 1 {
                assert(events[j] == shorter[j]);
            }
        }
    }
}

proof fn lemma_insert_bounded_ordered(events: Seq<ScheduledEvent>, event: ScheduledEvent, capacity: nat)
    requires
        is_ordered(events),
    ensures
        is_ordered(insert_bounded(events, event, capacity)),
{
    if events.len() < capacity {
        let p = insert_position(events, event);
        lemma_insert_position(events, event);
        let result = events.insert(p, event);
        assert forall|i: int, j: int| 0 <= i < j < result.len() implies !precedes(
            result[j],
            result[i],
        ) by {
            lemma_precedes_is_key_order(result[j], result[i]);
            if i < p && j < p {
                lemma_precedes_is_key_order(events[j], events[i]);
            } else if i < p && j == p {
                lemma_precedes_is_key_order(event, events[p - 1]);
                lemma_precedes_is_key_order(events[p - 1], events[i]);
            } else if i < p && j > p {
                lemma_precedes_is_key_order(events[j - 1], events[i]);
            } else if i == p {
                lemma_precedes_is_key_order(event, events[j - 1]);
            } else {
                lemma_precedes_is_key_order(events[j - 1], events[i - 1]);
            }
        }
    }
}

/// Every schedule table lists its events in application order: no event must be applied
/// before one listed earlier, so equal offsets list stops before starts.
pub proof fn lemma_ordered_table_is_ordered(events: Seq<ScheduledEvent>, capacity: nat)
    ensures
        is_ordered(ordered_table(events, capacity)),
    decreases events.len(),
{
    if events.len() > 0 {
        lemma_ordered_table_is_ordered(events.drop_last(), capacity);
        lemma_insert_bounded_ordered(ordered_table(events.drop_last(), capacity), events.last(), capacity);
    }
}

/// A schedule table holds as many events as arose, up to its capacity.
pub proof fn lemma_ordered_table_len(events: Seq<ScheduledEvent>, capacity: nat)
    ensures
        ordered_table(events, capacity).len() == if events.len() <= capacity {
            events.len()
        } else {
            capacity
        },
    decreases events.len(),
{
    if events.len() > 0 {
        lemma_ordered_table_len(events.drop_last(), capacity);
        lemma_insert_position(ordered_table(events.drop_last(), capacity), events.last());
    }
}

/// When the table is large enough, it holds exactly the events that arose, each as often as
/// it arose.
pub proof fn lemma_ordered_table_keeps_events(events: Seq<ScheduledEvent>, capacity: nat)
    requires
        events.len() <= capacity,
    ensures
        ordered_table(events, capacity).to_multiset() == events.to_multiset(),
    decreases events.len(),
{
    if events.len() > 0 {
        let shorter = events.drop_last();
        lemma_ordered_table_keeps_events(shorter, capacity);
        lemma_ordered_table_len(shorter, capacity);
        let table = ordered_table(shorter, capacity);
        lemma_insert_position(table, events.last());
        assert(events == shorter.push(events.last()));
        vstd::seq_lib::to_multiset_build(shorter, events.last());
    }
}

/// Every event in a schedule table is one of the events that arose.
pub proof fn lemma_ordered_table_from_events(events: Seq<ScheduledEvent>, capacity: nat)
    ensures
        forall|i: int|
            0 <= i < ordered_table(events, capacity).len() ==> events.contains(
                #[trigger] ordered_table(events, capacity)[i],
            ),
    decreases events.len(),
{
    if events.len() > 0 {
        let shorter = events.drop_last();
        lemma_ordered_table_from_events(shorter, capacity);
        let table = ordered_table(shorter, capacity);
        lemma_insert_position(table, events.last());
        let result = ordered_table(events, capacity);
        assert forall|i: int| 0 <= i < result.len() implies events.contains(#[trigger] result[i]) by {
            let p = insert_position(table, events.last());
            if table.len() >= capacity {
                assert(shorter.contains(table[i]));
                let k = choose|k: int| 0 <= k < shorter.len() && shorter[k] == table[i];
                assert(events[k] == shorter[k]);
            } else if i == p {
                assert(events[events.len() - 1] == result[i]);
            } else {
                let t = if i < p { i } else { i - 1 };
                assert(result[i] == table[t]);
                assert(shorter.contains(table[t]));
                let k = choose|k: int| 0 <= k < shorter.len() && shorter[k] == table[t];
                assert(events[k] == shorter[k]);
            }
        }
    }
}

/// Every event that arises for a non-empty block of `frames` samples has an offset inside the
/// block.
pub proof fn lemma_block_event_offsets(clips: Seq<ClipPlayback>, block_start: u64, frames: usize)
    requires
        frames > 0,
    ensures
        forall|i: int|
            0 <= i < block_events(clips, block_start, saturating_end(block_start, frames as u64)).len()
                ==> (#[trigger] block_events(
                clips,
                block_start,
                saturating_end(block_start, frames as u64),
            )[i]).sample_offset < frames,
    decreases clips.len(),
{
    let block_end = saturating_end(block_start, frames as u64);
    if clips.len() > 0 {
        lemma_block_event_offsets(clips.drop_last(), block_start, frames);
        let head = block_events(clips.drop_last(), block_start, block_end);
        let tail = clip_events(clips.last(), block_start, block_end);
        assert forall|i: int| 0 <= i < (head + tail).len() implies (#[trigger] (head + tail)[i]).sample_offset
            < frames by {
            if i >= head.len() {
                assert((head + tail)[i] == tail[i - head.len()]);
                let clip = clips.last();
                assert(block_end <= block_start + frames);
                if clip.start.0 < clip.end.0 {
                    if block_start <= clip.start.0 && clip.start.0 < block_end {
                        assert((clip.start.0 - block_start) < frames);
                        assert(((clip.start.0 - block_start) as usize) < frames);
                    }
                    if block_start <= clip.end.0 && clip.end.0 < block_end {
                        assert(((clip.end.0 - block_start) as usize) < frames);
                    }
                }
            } else {
                assert((head + tail)[i] == head[i]);
            }
        }
    }
}

/// Each clip contributes at most one start and one stop, so a block never raises more than
/// twice as many events as there are clips.
pub proof fn lemma_block_events_len(clips: Seq<ClipPlayback>, block_start: u64, block_end: u64)
    ensures
        block_events(clips, block_start, block_end).len() <= 2 * clips.len(),
    decreases clips.len(),
{
    if clips.len() > 0 {
        lemma_block_events_len(clips.drop_last(), block_start, block_end);
    }
}

/// The first `capacity` events of `events`, or all of them when there are fewer.
pub open spec fn first_events(events: Seq<ScheduledEvent>, capacity: nat) -> Seq<ScheduledEvent> {
    if events.len() <= capacity {
        events
    } else {
        events.take(capacity as int)
    }
}

/// The events of `events` with application rank `key`, in their order in `events`.
pub open spec fn with_key(events: Seq<ScheduledEvent>, key: int) -> Seq<ScheduledEvent> {
    events.filter(|event: ScheduledEvent| order_key(event) == key)
}

proof fn lemma_with_key_none(events: Seq<ScheduledEvent>, key: int)
    requires
        forall|i: int| 0 <= i < events.len() ==> order_key(#[trigger] events[i]) != key,
    ensures
        with_key(events, key) == Seq::<ScheduledEvent>::empty(),
    decreases events.len(),
{
    reveal(Seq::filter);
    if events.len() > 0 {
        let shorter = events.drop_last();
        assert forall|i: int| 0 <= i < shorter.len() implies order_key(#[trigger] shorter[i]) != key by {
            assert(shorter[i] == events[i]);
        }
        lemma_with_key_none(shorter, key);
        assert(order_key(events[events.len() - 1]) != key);
    }
}

proof fn lemma_with_key_push(events: Seq<ScheduledEvent>, event: ScheduledEvent, key: int)
    ensures
        with_key(events.push(event), key) == if order_key(event) == key {
            with_key(events, key).push(event)
        } else {
            with_key(events, key)
        },
{
    reveal(Seq::filter);
    assert(events.push(event).drop_last() == events);
}

/// A table that has filled up ignores every later event: it is the table of the first
/// `capacity` events.
pub proof fn lemma_ordered_table_keeps_first_events(events: Seq<ScheduledEvent>, capacity: nat)
    ensures
        events.len() > capacity ==> ordered_table(events, capacity) == ordered_table(
            events.take(capacity as int),
            capacity,
        ),
    decreases events.len(),
{
    if events.len() > capacity {
        let shorter = events.drop_last();
        lemma_ordered_table_len(shorter, capacity);
        if shorter.len() > capacity {
            lemma_ordered_table_keeps_first_events(shorter, capacity);
            assert(shorter.take(capacity as int) == events.take(capacity as int));
        } else {
            assert(shorter == events.take(capacity as int));
        }
    }
}

proof fn lemma_ordered_table_stable_unbounded(events: Seq<ScheduledEvent>, capacity: nat, key: int)
    requires
        events.len() <= capacity,
    ensures
        with_key(ordered_table(events, capacity), key) == with_key(events, key),
    decreases events.len(),
{
    broadcast use Seq::filter_distributes_over_add;

    if events.len() == 0 {
        reveal(Seq::filter);
    } else {
        let shorter = events.drop_last();
        let event = events.last();
        lemma_ordered_table_stable_unbounded(shorter, capacity, key);
        lemma_ordered_table_len(shorter, capacity);
        let table = ordered_table(shorter, capacity);
        lemma_insert_position(table, event);
        let p = insert_position(table, event);
        let front = table.take(p);
        let back = table.skip(p);
        assert(table == front + back);
        assert(table.insert(p, event) == front + seq![event] + back);
        assert forall|i: int| 0 <= i < back.len() implies order_key(#[trigger] back[i]) != order_key(event) by {
            assert(back[i] == table[p + i]);
            lemma_precedes_is_key_order(event, table[p + i]);
        }
        lemma_with_key_push(shorter, event, key);
        assert(events == shorter.push(event));
        if order_key(event) == key {
            lemma_with_key_none(back, key);
            assert(with_key(seq![event], key) == seq![event]) by {
                lemma_with_key_push(Seq::<ScheduledEvent>::empty(), event, key);
                reveal(Seq::filter);
                assert(Seq::<ScheduledEvent>::empty().push(event) == seq![event]);
            }
        } else {
            assert(with_key(seq![event], key) == Seq::<ScheduledEvent>::empty()) by {
                lemma_with_key_push(Seq::<ScheduledEvent>::empty(), event, key);
                reveal(Seq::filter);
                assert(Seq::<ScheduledEvent>::empty().push(event) == seq![event]);
            }
        }
    }
}

/// A schedule table is stable: the events of any one rank (same offset, same kind) appear in
/// the order in which they arose, that is, in the order of their clips; when the table fills
/// up, exactly the events that arose first are kept.
pub proof fn lemma_ordered_table_is_stable(events: Seq<ScheduledEvent>, capacity: nat, key: int)
    ensures
        with_key(ordered_table(events, capacity), key) == with_key(first_events(events, capacity), key),
{
    if events.len() <= capacity {
        lemma_ordered_table_stable_unbounded(events, capacity, key);
    } else {
        lemma_ordered_table_keeps_first_events(events, capacity);
        lemma_ordered_table_stable_unbounded(events.take(capacity as int), capacity, key);
    }
}

proof fn lemma_block_events_from_clips(clips: Seq<ClipPlayback>, block_start: u64, block_end: u64)
    ensures
        forall|i: int, j: int|
            0 <= i < clips.len() && 0 <= j < clip_events(clips[i], block_start, block_end).len()
                ==> block_events(clips, block_start, block_end).contains(
                #[trigger] clip_events(clips[i], block_start, block_end)[j],
            ),
        forall|event: ScheduledEvent|
            #[trigger] block_events(clips, block_start, block_end).contains(event) ==> exists|i: int|
                0 <= i < clips.len() && (#[trigger] clip_events(clips[i], block_start, block_end)).contains(
                    event,
                ),
    decreases clips.len(),
{
    if clips.len() > 0 {
        let shorter = clips.drop_last();
        lemma_block_events_from_clips(shorter, block_start, block_end);
        let head = block_events(shorter, block_start, block_end);
        let tail = clip_events(clips.last(), block_start, block_end);
        let all = block_events(clips, block_start, block_end);
        assert(all == head + tail);
        assert forall|i: int, j: int|
            0 <= i < clips.len() && 0 <= j < clip_events(clips[i], block_start, block_end).len()
                implies all.contains(#[trigger] clip_events(clips[i], block_start, block_end)[j]) by {
            if i < clips.len() - 1 {
                assert(clips[i] == shorter[i]);
                let e = clip_events(clips[i], block_start, block_end)[j];
                assert(head.contains(e));
                let k = choose|k: int| 0 <= k < head.len() && head[k] == e;
                assert(all[k] == head[k]);
            } else {
                assert(all[head.len() + j] == tail[j]);
            }
        }
        assert forall|event: ScheduledEvent| #[trigger] all.contains(event) implies exists|i: int|
            0 <= i < clips.len() && (#[trigger] clip_events(clips[i], block_start, block_end)).contains(event) by {
            let k = choose|k: int| 0 <= k < all.len() && all[k] == event;
            if k < head.len() {
                assert(head[k] == all[k]);
                assert(head.contains(event));
                let i = choose|i: int|
                    0 <= i < shorter.len() && (#[trigger] clip_events(shorter[i], block_start, block_end)).contains(
                        event,
                    );
                assert(clips[i] == shorter[i]);
            } else {
                assert(tail[k - head.len()] == all[k]);
                assert(tail.contains(event));
                assert(clips[clips.len() - 1] == clips.last());
            }
        }
    }
}

/// What a schedule holds, for a table large enough for every event of the block (two per
/// clip) and the block `[block_start, block_start + frames)`: each clip that sounds for a while
/// gets a start at its first sample when that lies in the block, whatever its end; a start at
/// offset zero when it already sounds before the block begins; and a stop at its end when that
/// lies in the block. In a non-empty block nothing else is scheduled.
pub proof fn lemma_schedule_events(clips: Seq<ClipPlayback>, block_start: u64, frames: usize, capacity: nat)
    requires
        capacity >= 2 * clips.len(),
    ensures
        forall|i: int|
            0 <= i < clips.len() && clips[i].start.0 < clips[i].end.0 && block_start <= clips[i].start.0
                && clips[i].start.0 < block_start + frames ==> #[trigger] ordered_table(
                block_events(clips, block_start, saturating_end(block_start, frames as u64)),
                capacity,
            ).contains(
                ScheduledEvent {
                    sample_offset: (clips[i].start.0 - block_start) as usize,
                    event: VoiceEvent::StartVoice(clips[i]),
                },
            ),
        forall|i: int|
            0 <= i < clips.len() && clips[i].start.0 < block_start && block_start < clips[i].end.0
                ==> #[trigger] ordered_table(
                block_events(clips, block_start, saturating_end(block_start, frames as u64)),
                capacity,
            ).contains(ScheduledEvent { sample_offset: 0, event: VoiceEvent::StartVoice(clips[i]) }),
        forall|i: int|
            0 <= i < clips.len() && clips[i].start.0 < clips[i].end.0 && block_start <= clips[i].end.0
                && clips[i].end.0 < block_start + frames && clips[i].end.0 < u64::MAX
                ==> #[trigger] ordered_table(
                block_events(clips, block_start, saturating_end(block_start, frames as u64)),
                capacity,
            ).contains(
                ScheduledEvent {
                    sample_offset: (clips[i].end.0 - block_start) as usize,
                    event: VoiceEvent::StopVoice(clips[i].clip_id),
                },
            ),
        frames > 0 ==> forall|event: ScheduledEvent|
            #[trigger] ordered_table(
                block_events(clips, block_start, saturating_end(block_start, frames as u64)),
                capacity,
            ).contains(event) ==> exists|i: int|
                0 <= i < clips.len() && clips[i].start.0 < clips[i].end.0 && ((block_start
                    <= clips[i].start.0 && clips[i].start.0 < block_start + frames && event
                    == ScheduledEvent {
                    sample_offset: (clips[i].start.0 - block_start) as usize,
                    event: VoiceEvent::StartVoice(#[trigger] clips[i]),
                }) || (clips[i].start.0 < block_start && block_start < clips[i].end.0 && event
                    == ScheduledEvent { sample_offset: 0, event: VoiceEvent::StartVoice(clips[i]) })
                    || (block_start <= clips[i].end.0 && clips[i].end.0 < block_start + frames
                    && clips[i].end.0 < u64::MAX && event == ScheduledEvent {
                    sample_offset: (clips[i].end.0 - block_start) as usize,
                    event: VoiceEvent::StopVoice(clips[i].clip_id),
                })),
{
    let block_end = saturating_end(block_start, frames as u64);
    let events = block_events(clips, block_start, block_end);
    let table = ordered_table(events, capacity);
    lemma_block_events_from_clips(clips, block_start, block_end);
    lemma_block_events_len(clips, block_start, block_end);
    lemma_ordered_table_keeps_events(events, capacity);
    lemma_ordered_table_from_events(events, capacity);
    assert forall|event: ScheduledEvent| events.contains(event) implies #[trigger] table.contains(event) by {
        assert(events.to_multiset().count(event) > 0);
    }
    assert forall|i: int|
        0 <= i < clips.len() && clips[i].start.0 < clips[i].end.0 && block_start <= clips[i].start.0
            && clips[i].start.0 < block_start + frames implies #[trigger] table.contains(
            ScheduledEvent {
                sample_offset: (clips[i].start.0 - block_start) as usize,
                event: VoiceEvent::StartVoice(clips[i]),
            },
        ) by {
        let mine = clip_events(clips[i], block_start, block_end);
        assert(mine.len() > 0);
        assert(events.contains(mine[0]));
    }
    assert forall|i: int|
        0 <= i < clips.len() && clips[i].start.0 < block_start && block_start < clips[i].end.0
            implies #[trigger] table.contains(
            ScheduledEvent { sample_offset: 0, event: VoiceEvent::StartVoice(clips[i]) },
        ) by {
        let mine = clip_events(clips[i], block_start, block_end);
        assert(clips[i].active_at(SampleTime(block_start)));
        assert(mine.len() > 0);
        assert(events.contains(mine[0]));
    }
    assert forall|i: int|
        0 <= i < clips.len() && clips[i].start.0 < clips[i].end.0 && block_start <= clips[i].end.0
            && clips[i].end.0 < block_start + frames && clips[i].end.0 < u64::MAX
            implies #[trigger] table.contains(
            ScheduledEvent {
                sample_offset: (clips[i].end.0 - block_start) as usize,
                event: VoiceEvent::StopVoice(clips[i].clip_id),
            },
        ) by {
        let mine = clip_events(clips[i], block_start, block_end);
        assert(clips[i].end.0 < block_end);
        assert(mine.len() > 0);
        assert(events.contains(mine[mine.len() - 1]));
    }
    if frames > 0 {
        assert forall|event: ScheduledEvent| #[trigger] table.contains(event) implies exists|i: int|
            0 <= i < clips.len() && clips[i].start.0 < clips[i].end.0 && ((block_start
                <= clips[i].start.0 && clips[i].start.0 < block_start + frames && event
                == ScheduledEvent {
                sample_offset: (clips[i].start.0 - block_start) as usize,
                event: VoiceEvent::StartVoice(#[trigger] clips[i]),
            }) || (clips[i].start.0 < block_start && block_start < clips[i].end.0 && event
                == ScheduledEvent { sample_offset: 0, event: VoiceEvent::StartVoice(clips[i]) })
                || (block_start <= clips[i].end.0 && clips[i].end.0 < block_start + frames
                && clips[i].end.0 < u64::MAX && event == ScheduledEvent {
                sample_offset: (clips[i].end.0 - block_start) as usize,
                event: VoiceEvent::StopVoice(clips[i].clip_id),
            })) by {
            let k = choose|k: int| 0 <= k < table.len() && table[k] == event;
            assert(events.contains(table[k]));
            let i = choose|i: int|
                0 <= i < clips.len() && (#[trigger] clip_events(clips[i], block_start, block_end)).contains(event);
            let mine = clip_events(clips[i], block_start, block_end);
            let j = choose|j: int| 0 <= j < mine.len() && mine[j] == event;
            assert(block_start < block_end);
        }
    }
}

/// A schedule lists its events by offset, and at one offset lists every stop before every
/// start.
pub proof fn lemma_schedule_offsets_ascend(events: Seq<ScheduledEvent>, capacity: nat)
    ensures
        forall|i: int, j: int|
            0 <= i < j < ordered_table(events, capacity).len() ==> (#[trigger] ordered_table(
                events,
                capacity,
            )[i]).sample_offset <= (#[trigger] ordered_table(events, capacity)[j]).sample_offset,
        forall|i: int, j: int|
            0 <= i < j < ordered_table(events, capacity).len() && (#[trigger] ordered_table(
                events,
                capacity,
            )[i]).sample_offset == (#[trigger] ordered_table(events, capacity)[j]).sample_offset
                && ordered_table(events, capacity)[i].event is StartVoice ==> ordered_table(
                events,
                capacity,
            )[j].event is StartVoice,
{
    lemma_ordered_table_is_ordered(events, capacity);
    let table = ordered_table(events, capacity);
    assert forall|i: int, j: int| 0 <= i < j < table.len() implies (#[trigger] table[i]).sample_offset
        <= (#[trigger] table[j]).sample_offset && (table[i].sample_offset == table[j].sample_offset
        && table[i].event is StartVoice ==> table[j].event is StartVoice) by {
        assert(!precedes(table[j], table[i]));
    }
}

} // verus!
