use audio_engine::{
    AudioClip, AudioSnapshot, ClipId, ClipScheduler, EventScheduler, ScheduledEvent,
    SampleTime, Timeline, TrackId, VoiceEvent, due_events_end,
};

#[test]
fn scheduler_preserves_and_orders_sample_offsets() {
    let mut timeline = Timeline::new();
    timeline.add_clip(AudioClip::new(
        ClipId::new(1),
        TrackId::new(1),
        SampleTime::new(100),
        SampleTime::new(200),
    ));
    let snapshot = AudioSnapshot::compile(&timeline).expect("valid timeline");
    let clips = ClipScheduler::new(&snapshot);
    let mut events = EventScheduler::<2>::new();

    let scheduled = events.schedule(&clips, TrackId::new(1), SampleTime::new(0), 512);

    assert_eq!(scheduled.len(), 2);
    assert_eq!(scheduled[0].sample_offset(), 100);
    assert!(matches!(scheduled[0].event(), VoiceEvent::StartVoice(_)));
    assert_eq!(scheduled[1].sample_offset(), 300);
    assert_eq!(scheduled[1].event(), VoiceEvent::StopVoice(ClipId::new(1)));
}

#[test]
fn stop_events_precede_starts_at_the_same_sample() {
    let mut timeline = Timeline::new();
    timeline.add_clip(AudioClip::new(
        ClipId::new(1),
        TrackId::new(1),
        SampleTime::new(0),
        SampleTime::new(200),
    ));
    timeline.add_clip(AudioClip::new(
        ClipId::new(2),
        TrackId::new(1),
        SampleTime::new(200),
        SampleTime::new(200),
    ));
    let snapshot = AudioSnapshot::compile(&timeline).expect("valid timeline");
    let clips = ClipScheduler::new(&snapshot);
    let mut events = EventScheduler::<4>::new();

    let scheduled = events.schedule(&clips, TrackId::new(1), SampleTime::new(0), 512);

    assert_eq!(scheduled[1].sample_offset(), 200);
    assert_eq!(scheduled[1].event(), VoiceEvent::StopVoice(ClipId::new(1)));
    assert_eq!(scheduled[2].sample_offset(), 200);
    assert!(matches!(scheduled[2].event(), VoiceEvent::StartVoice(_)));
}

#[test]
fn active_clip_starts_at_offset_zero_and_events_past_the_block_are_left_out() {
    let mut timeline = Timeline::new();
    timeline.add_clip(AudioClip::new(
        ClipId::new(1),
        TrackId::new(2),
        SampleTime::new(0),
        SampleTime::new(1_000),
    ));
    let snapshot = AudioSnapshot::compile(&timeline).expect("valid timeline");
    let clips = ClipScheduler::new(&snapshot);
    let mut events = EventScheduler::<4>::new();

    let scheduled = events.schedule(&clips, TrackId::new(2), SampleTime::new(500), 64);
    assert_eq!(scheduled.len(), 1);
    assert_eq!(scheduled[0].sample_offset(), 0);
    assert!(matches!(scheduled[0].event(), VoiceEvent::StartVoice(_)));

    let scheduled = events.schedule(&clips, TrackId::new(2), SampleTime::new(960), 64);
    assert_eq!(scheduled.len(), 2);
    assert_eq!(scheduled[1].sample_offset(), 40);
    assert_eq!(scheduled[1].event(), VoiceEvent::StopVoice(ClipId::new(1)));

    let scheduled = events.schedule(&clips, TrackId::new(2), SampleTime::new(2_000), 64);
    assert!(scheduled.is_empty());
}

#[test]
fn a_full_table_drops_later_events() {
    let mut timeline = Timeline::new();
    timeline.add_clip(AudioClip::new(
        ClipId::new(1),
        TrackId::new(1),
        SampleTime::new(10),
        SampleTime::new(20),
    ));
    timeline.add_clip(AudioClip::new(
        ClipId::new(2),
        TrackId::new(1),
        SampleTime::new(0),
        SampleTime::new(5),
    ));
    let snapshot = AudioSnapshot::compile(&timeline).expect("valid timeline");
    let clips = ClipScheduler::new(&snapshot);
    let mut events = EventScheduler::<2>::new();

    let scheduled = events.schedule(&clips, TrackId::new(1), SampleTime::new(0), 64);
    assert_eq!(scheduled.len(), 2);
    assert_eq!(scheduled[0].sample_offset(), 10);
    assert_eq!(scheduled[1].sample_offset(), 30);
}

#[test]
fn empty_clips_schedule_nothing() {
    let mut timeline = Timeline::new();
    timeline.add_clip(AudioClip::new(
        ClipId::new(1),
        TrackId::new(1),
        SampleTime::new(10),
        SampleTime::new(0),
    ));
    let snapshot = AudioSnapshot::compile(&timeline).expect("valid timeline");
    let clips = ClipScheduler::new(&snapshot);
    let mut events = EventScheduler::<4>::new();
    assert!(events.schedule(&clips, TrackId::new(1), SampleTime::new(0), 64).is_empty());
}

#[test]
fn due_events_cover_exactly_the_current_frame() {
    let events = [
        ScheduledEvent::new(0, VoiceEvent::StopVoice(ClipId::new(1))),
        ScheduledEvent::new(0, VoiceEvent::StopVoice(ClipId::new(2))),
        ScheduledEvent::new(3, VoiceEvent::StopVoice(ClipId::new(3))),
    ];
    assert_eq!(due_events_end(&events, 0, 0), 2);
    assert_eq!(due_events_end(&events, 2, 1), 2);
    assert_eq!(due_events_end(&events, 2, 3), 3);
    assert_eq!(due_events_end(&events, 3, 3), 3);
}

#[test]
fn events_of_equal_rank_keep_the_order_of_their_clips() {
    let mut timeline = Timeline::new();
    for id in [7, 3, 5] {
        timeline.add_clip(AudioClip::new(
            ClipId::new(id),
            TrackId::new(1),
            SampleTime::new(0),
            SampleTime::new(40),
        ));
    }
    let snapshot = AudioSnapshot::compile(&timeline).expect("valid timeline");
    let clips = ClipScheduler::new(&snapshot);
    let mut events = EventScheduler::<8>::new();

    let scheduled = events.schedule(&clips, TrackId::new(1), SampleTime::new(0), 64);
    let stops: Vec<_> = scheduled[3..].iter().map(|event| event.event()).collect();
    assert_eq!(
        stops,
        vec![
            VoiceEvent::StopVoice(ClipId::new(7)),
            VoiceEvent::StopVoice(ClipId::new(3)),
            VoiceEvent::StopVoice(ClipId::new(5)),
        ]
    );
    let starts: Vec<_> = scheduled[..3]
        .iter()
        .map(|event| match event.event() {
            VoiceEvent::StartVoice(clip) => clip.clip_id(),
            VoiceEvent::StopVoice(id) => id,
        })
        .collect();
    assert_eq!(starts, vec![ClipId::new(7), ClipId::new(3), ClipId::new(5)]);
}
