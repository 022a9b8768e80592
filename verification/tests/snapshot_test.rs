use audio_engine::{
    AudioClip, AudioSnapshot, ClipId, ClipPlayback, ClipScheduler, ClipSource, SampleTime,
    SnapshotCompileError, SnapshotCompiler, SnapshotPublishError, Timeline, TrackId,
    audio_snapshot_exchange, keep_draining, keep_latest, publish_outcome,
};

fn timeline_with_two_clips() -> Timeline {
    let mut timeline = Timeline::new();
    timeline.add_clip(AudioClip::new(
        ClipId::new(1),
        TrackId::new(1),
        SampleTime::new(0),
        SampleTime::new(1_000),
    ));
    timeline.add_clip(AudioClip::new(
        ClipId::new(2),
        TrackId::new(2),
        SampleTime::new(2_000),
        SampleTime::new(500),
    ));
    timeline
}

#[test]
fn snapshot_compiles_tracks_and_clip_end_positions() {
    let snapshot = SnapshotCompiler::compile(&timeline_with_two_clips()).expect("valid timeline");

    let first = snapshot.track(TrackId::new(1)).expect("first track exists");
    let second = snapshot.track(TrackId::new(2)).expect("second track exists");
    assert_eq!(first.clips()[0].expect("clip exists").end(), SampleTime::new(1_000));
    assert_eq!(second.clips()[0].expect("clip exists").end(), SampleTime::new(2_500));
}

#[test]
fn scheduler_returns_only_active_clips() {
    let snapshot = AudioSnapshot::compile(&timeline_with_two_clips()).expect("valid timeline");
    let scheduler = ClipScheduler::new(&snapshot);

    assert_eq!(scheduler.active_clips(TrackId::new(1), SampleTime::new(100)).len(), 1);
    assert_eq!(scheduler.active_clips(TrackId::new(1), SampleTime::new(1_500)).len(), 0);
    assert_eq!(scheduler.active_clips(TrackId::new(2), SampleTime::new(2_200)).len(), 1);
}

#[test]
fn snapshot_exchange_transfers_a_fixed_value() {
    let (sender, receiver) = audio_snapshot_exchange();
    let snapshot = AudioSnapshot::compile(&timeline_with_two_clips()).expect("valid timeline");

    sender.try_send(snapshot).expect("queue has capacity");

    assert_eq!(receiver.take_latest(), Some(snapshot));
}

#[test]
fn snapshot_exchange_keeps_only_the_latest_and_reports_a_full_queue() {
    let (sender, receiver) = audio_snapshot_exchange();
    let empty = AudioSnapshot::compile(&Timeline::new()).expect("empty timeline");
    let full = AudioSnapshot::compile(&timeline_with_two_clips()).expect("valid timeline");
    let clone = sender.clone();
    for _ in 0..3 {
        clone.try_send(empty).expect("capacity");
    }
    sender.try_send(full).expect("capacity");
    assert_eq!(sender.try_send(empty), Err(SnapshotPublishError::QueueFull));
    assert_eq!(receiver.take_latest(), Some(full));
    assert_eq!(receiver.take_latest(), None);
}

#[test]
fn compile_rejects_an_unknown_track() {
    let mut timeline = timeline_with_two_clips();
    timeline.add_clip(AudioClip::new(
        ClipId::new(3),
        TrackId::new(3),
        SampleTime::new(0),
        SampleTime::new(10),
    ));
    assert_eq!(
        SnapshotCompiler::compile(&timeline),
        Err(SnapshotCompileError::UnknownTrack { track_id: TrackId::new(3) })
    );
}

#[test]
fn compile_rejects_a_seventeenth_clip_on_a_track() {
    let mut timeline = Timeline::new();
    for id in 0..16 {
        timeline.add_clip(AudioClip::new(
            ClipId::new(id),
            TrackId::new(2),
            SampleTime::new(id * 10),
            SampleTime::new(5),
        ));
    }
    assert!(SnapshotCompiler::compile(&timeline).is_ok());
    timeline.add_clip(AudioClip::new(
        ClipId::new(99),
        TrackId::new(2),
        SampleTime::new(0),
        SampleTime::new(5),
    ));
    assert_eq!(
        SnapshotCompiler::compile(&timeline),
        Err(SnapshotCompileError::TooManyClips { track_id: TrackId::new(2) })
    );
}

#[test]
fn empty_timeline_compiles_to_two_empty_tracks() {
    let snapshot = AudioSnapshot::compile(&Timeline::new()).expect("empty timeline");
    assert_eq!(snapshot.tracks()[0].track_id(), TrackId::new(1));
    assert_eq!(snapshot.tracks()[1].track_id(), TrackId::new(2));
    assert!(snapshot.tracks()[0].clips().is_empty());
    assert!(snapshot.tracks()[1].clips().is_empty());
    assert!(snapshot.track(TrackId::new(3)).is_none());
}

#[test]
fn prototype_plays_both_tracks_forever() {
    let snapshot = AudioSnapshot::prototype();
    let scheduler = ClipScheduler::new(&snapshot);
    let expected = ClipPlayback {
        clip_id: ClipId::new(0),
        start: SampleTime::new(0),
        end: SampleTime::new(u64::MAX),
        source: ClipSource::Synth,
    };
    assert_eq!(scheduler.track_clips(TrackId::new(1)), vec![expected]);
    assert_eq!(scheduler.track_clips(TrackId::new(2)), vec![expected]);
    assert!(scheduler.is_track_active(TrackId::new(2), SampleTime::new(1_000_000)));
}

#[test]
fn track_clips_of_an_unknown_track_are_empty() {
    let snapshot = AudioSnapshot::compile(&timeline_with_two_clips()).expect("valid timeline");
    let scheduler = ClipScheduler::new(&snapshot);
    assert!(scheduler.track_clips(TrackId::new(7)).is_empty());
    assert!(!scheduler.is_track_active(TrackId::new(7), SampleTime::new(0)));
    assert!(!scheduler.is_track_active(TrackId::new(2), SampleTime::new(2_500)));
}

#[test]
fn publish_outcome_reports_a_handed_back_snapshot_as_full() {
    let snapshot = AudioSnapshot::prototype();
    assert_eq!(publish_outcome(Ok(())), Ok(()));
    assert_eq!(publish_outcome(Err(snapshot)), Err(SnapshotPublishError::QueueFull));
}

#[test]
fn keep_latest_prefers_the_snapshot_just_read() {
    let older = AudioSnapshot::prototype();
    let newer = AudioSnapshot::compile(&Timeline::new()).expect("empty timeline");
    assert_eq!(keep_latest(None, None), None);
    assert_eq!(keep_latest(Some(older), None), Some(older));
    assert_eq!(keep_latest(Some(older), Some(newer)), Some(newer));
    assert_eq!(keep_latest(None, Some(newer)), Some(newer));
}

#[test]
fn compiling_one_timeline_twice_gives_equal_snapshots() {
    let timeline = timeline_with_two_clips();
    assert_eq!(
        AudioSnapshot::compile(&timeline).expect("valid timeline"),
        AudioSnapshot::compile(&timeline).expect("valid timeline")
    );
}

#[test]
fn draining_stops_at_an_empty_read_or_after_four_reads() {
    assert!(keep_draining(0, false));
    assert!(keep_draining(3, false));
    assert!(!keep_draining(4, false));
    assert!(!keep_draining(1, true));
    assert!(!keep_draining(0, true));
}

#[test]
fn taking_from_an_empty_exchange_gives_nothing() {
    let (_sender, receiver) = audio_snapshot_exchange();
    assert_eq!(receiver.take_latest(), None);
}
