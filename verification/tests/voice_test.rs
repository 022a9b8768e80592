use audio_engine::{
    AudioClip, AudioSnapshot, ClipId, ClipPlayback, ClipScheduler, ClipSource, SampleId,
    SampleTime, Timeline, TrackId, VoiceAction, VoiceEvent, VoiceId, VoiceManager,
};

fn playback(id: u64, start: u64, end: u64) -> ClipPlayback {
    ClipPlayback {
        clip_id: ClipId::new(id),
        start: SampleTime::new(start),
        end: SampleTime::new(end),
        source: ClipSource::Synth,
    }
}

#[test]
fn new_pool_is_idle_and_numbered() {
    let voices = VoiceManager::<3>::new();
    assert_eq!(voices.active_voice_count(), 0);
    for index in 0..3 {
        let voice = voices.voice(VoiceId::new(index)).expect("slot exists");
        assert_eq!(voice.id(), VoiceId::new(index));
        assert!(!voice.is_active());
    }
    assert!(voices.voice(VoiceId::new(3)).is_none());
}

#[test]
fn start_takes_the_first_free_slot_and_is_idempotent() {
    let mut voices = VoiceManager::<2>::new();
    let clip = playback(1, 0, 100);
    assert_eq!(
        voices.apply_event(VoiceEvent::StartVoice(clip)),
        VoiceAction::NoteOn { voice: VoiceId::new(0), clip }
    );
    assert_eq!(voices.apply_event(VoiceEvent::StartVoice(clip)), VoiceAction::Unchanged);
    assert_eq!(voices.active_voice_count(), 1);
    let voice = voices.voice(VoiceId::new(0)).expect("slot exists");
    assert_eq!(voice.clip_id(), Some(ClipId::new(1)));
    assert_eq!(voice.start_position(), SampleTime::new(0));
}

#[test]
fn a_full_pool_leaves_excess_clips_unassigned() {
    let mut voices = VoiceManager::<2>::new();
    for id in 0..3 {
        let _ = voices.apply_event(VoiceEvent::StartVoice(playback(id, 0, 100)));
    }
    assert_eq!(voices.active_voice_count(), 2);
    assert_eq!(
        voices.apply_event(VoiceEvent::StartVoice(playback(7, 0, 100))),
        VoiceAction::Unchanged
    );
}

#[test]
fn stop_releases_without_freeing_the_slot() {
    let mut voices = VoiceManager::<2>::new();
    let _ = voices.apply_event(VoiceEvent::StartVoice(playback(1, 0, 100)));
    let _ = voices.apply_event(VoiceEvent::StartVoice(playback(2, 0, 100)));
    assert_eq!(
        voices.apply_event(VoiceEvent::StopVoice(ClipId::new(2))),
        VoiceAction::NoteOff { voice: VoiceId::new(1) }
    );
    assert_eq!(voices.active_voice_count(), 2);
    assert_eq!(voices.apply_event(VoiceEvent::StopVoice(ClipId::new(9))), VoiceAction::Unchanged);

    voices.deactivate(VoiceId::new(1));
    assert_eq!(voices.active_voice_count(), 1);
    assert_eq!(
        voices.apply_event(VoiceEvent::StartVoice(playback(3, 0, 100))),
        VoiceAction::NoteOn { voice: VoiceId::new(1), clip: playback(3, 0, 100) }
    );
}

#[test]
fn audio_clip_voices_remember_their_source() {
    let mut voices = VoiceManager::<1>::new();
    let clip = ClipPlayback { source: ClipSource::AudioFile(SampleId::new(4)), ..playback(1, 5, 9) };
    let _ = voices.apply_event(VoiceEvent::StartVoice(clip));
    let voice = voices.voice(VoiceId::new(0)).expect("slot exists");
    assert_eq!(voice.source(), ClipSource::AudioFile(SampleId::new(4)));
    assert_eq!(voice.start_position(), SampleTime::new(5));
}

#[test]
fn reset_frees_every_slot() {
    let mut voices = VoiceManager::<2>::new();
    let _ = voices.apply_event(VoiceEvent::StartVoice(playback(1, 0, 100)));
    let _ = voices.apply_event(VoiceEvent::StartVoice(playback(2, 0, 100)));
    voices.reset();
    assert_eq!(voices.active_voice_count(), 0);
}

#[test]
fn stale_voices_are_those_whose_clip_no_longer_sounds() {
    let mut timeline = Timeline::new();
    timeline.add_clip(AudioClip::new(
        ClipId::new(1),
        TrackId::new(1),
        SampleTime::new(0),
        SampleTime::new(100),
    ));
    timeline.add_clip(AudioClip::new(
        ClipId::new(2),
        TrackId::new(1),
        SampleTime::new(50),
        SampleTime::new(100),
    ));
    let snapshot = AudioSnapshot::compile(&timeline).expect("valid timeline");
    let scheduler = ClipScheduler::new(&snapshot);
    let mut voices = VoiceManager::<3>::new();
    let _ = voices.apply_event(VoiceEvent::StartVoice(playback(1, 0, 100)));
    let _ = voices.apply_event(VoiceEvent::StartVoice(playback(2, 50, 150)));

    assert_eq!(
        voices.stale_voices(&scheduler, TrackId::new(1), SampleTime::new(60)),
        [false, false, true]
    );
    assert_eq!(
        voices.stale_voices(&scheduler, TrackId::new(1), SampleTime::new(120)),
        [true, false, true]
    );
}
