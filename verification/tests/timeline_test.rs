use audio_engine::{
    AudioClip, ClipId, ClipSource, SampleId, SampleTime, Timeline, TimelineCommand, TrackId,
    Transport,
};

#[test]
fn audio_clip_retains_sample_accurate_fields() {
    let clip =
        AudioClip::new(ClipId::new(3), TrackId::new(1), SampleTime::new(480), SampleTime::new(960));

    assert_eq!(clip.id(), ClipId::new(3));
    assert_eq!(clip.start_position(), SampleTime::new(480));
    assert_eq!(clip.length(), SampleTime::new(960));
}

#[test]
fn timeline_finds_clips_active_at_a_position() {
    let mut timeline = Timeline::new();
    let clip_a =
        AudioClip::new(ClipId::new(1), TrackId::new(1), SampleTime::new(0), SampleTime::new(1_000));
    let clip_b = AudioClip::new(
        ClipId::new(2),
        TrackId::new(1),
        SampleTime::new(2_000),
        SampleTime::new(1_000),
    );
    timeline.add_clip(clip_a);
    timeline.add_clip(clip_b);

    let at_500 = timeline.active_clips_at(SampleTime::new(500));
    let at_2500 = timeline.active_clips_at(SampleTime::new(2_500));

    assert_eq!(at_500, [clip_a]);
    assert_eq!(at_2500, [clip_b]);
}

#[test]
fn timeline_commands_apply_outside_real_time_rendering() {
    let mut timeline = Timeline::new();
    let clip =
        AudioClip::new(ClipId::new(1), TrackId::new(2), SampleTime::new(0), SampleTime::new(128));

    timeline.apply_command(TimelineCommand::AddClip { track_id: TrackId::new(2), clip });
    assert_eq!(timeline.clips(), &[clip]);

    timeline.apply_command(TimelineCommand::RemoveClip { clip_id: ClipId::new(1) });
    assert!(timeline.clips().is_empty());
}

#[test]
fn transport_position_can_query_the_timeline() {
    let transport = Transport::new(48_000);
    let clip =
        AudioClip::new(ClipId::new(1), TrackId::new(1), SampleTime::new(0), SampleTime::new(48_000));
    let mut timeline = Timeline::new();
    timeline.add_clip(clip);

    let active = timeline.active_clips_at(SampleTime::from(transport.position_samples()));
    assert_eq!(active, [clip]);
}

#[test]
fn clip_range_is_half_open() {
    let clip =
        AudioClip::new(ClipId::new(1), TrackId::new(1), SampleTime::new(100), SampleTime::new(50));
    assert!(!clip.is_active_at(SampleTime::new(99)));
    assert!(clip.is_active_at(SampleTime::new(100)));
    assert!(clip.is_active_at(SampleTime::new(149)));
    assert!(!clip.is_active_at(SampleTime::new(150)));
}

#[test]
fn clip_end_saturates_at_the_last_sample() {
    let clip = AudioClip::new(
        ClipId::new(1),
        TrackId::new(1),
        SampleTime::new(u64::MAX - 10),
        SampleTime::new(100),
    );
    assert!(clip.is_active_at(SampleTime::new(u64::MAX - 1)));
    assert!(!clip.is_active_at(SampleTime::new(u64::MAX)));
}

#[test]
fn add_clip_for_another_track_is_ignored() {
    let mut timeline = Timeline::new();
    let clip =
        AudioClip::new(ClipId::new(1), TrackId::new(2), SampleTime::new(0), SampleTime::new(128));
    timeline.apply_command(TimelineCommand::AddClip { track_id: TrackId::new(1), clip });
    assert!(timeline.clips().is_empty());
}

#[test]
fn remove_clip_takes_the_first_match_only() {
    let mut timeline = Timeline::new();
    let first =
        AudioClip::new(ClipId::new(5), TrackId::new(1), SampleTime::new(0), SampleTime::new(10));
    let second =
        AudioClip::new(ClipId::new(5), TrackId::new(2), SampleTime::new(20), SampleTime::new(10));
    let other =
        AudioClip::new(ClipId::new(6), TrackId::new(1), SampleTime::new(40), SampleTime::new(10));
    timeline.add_clip(other);
    timeline.add_clip(first);
    timeline.add_clip(second);

    assert_eq!(timeline.remove_clip(ClipId::new(5)), Some(first));
    assert_eq!(timeline.clips(), &[other, second]);
    assert_eq!(timeline.remove_clip(ClipId::new(9)), None);
    assert_eq!(timeline.clips(), &[other, second]);
}

#[test]
fn with_source_changes_only_the_source() {
    let clip =
        AudioClip::new(ClipId::new(2), TrackId::new(1), SampleTime::new(7), SampleTime::new(9));
    assert_eq!(clip.source(), ClipSource::Synth);
    let audio = clip.with_source(ClipSource::AudioFile(SampleId::new(3)));
    assert_eq!(audio.source(), ClipSource::AudioFile(SampleId::new(3)));
    assert_eq!(audio.id(), clip.id());
    assert_eq!(audio.start_position(), clip.start_position());
    assert_eq!(audio.length(), clip.length());
    assert_eq!(audio.track_id(), clip.track_id());
}

#[test]
fn sample_time_converts_from_u64() {
    assert_eq!(SampleTime::from(42_u64), SampleTime::new(42));
    assert_eq!(SampleTime::new(42).samples(), 42);
}

#[test]
fn sample_times_compare_by_sample_count() {
    let early = SampleTime::new(10);
    let late = SampleTime::new(11);
    assert!(early < late);
    assert!(early <= late);
    assert!(late > early);
    assert!(late >= early);
    assert!(early <= SampleTime::new(10));
    assert!(!(early < SampleTime::new(10)));
    assert_eq!(early.partial_cmp(&late), Some(std::cmp::Ordering::Less));
    assert_eq!(early.cmp(&late), std::cmp::Ordering::Less);
    assert_eq!(SampleTime::new(u64::MAX).partial_cmp(&SampleTime::new(0)), Some(std::cmp::Ordering::Greater));
}
