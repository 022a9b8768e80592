use audio_engine::{
    AdsrStage, AudioFormat, DeviceBufferSize, EffectRack, EffectSlot, GainEffect,
    OutputDeviceInfo, ParameterId, RStudioError, VoiceId,
};

#[test]
fn effect_rack_places_gain_only_inside_the_rack() {
    let mut rack = EffectRack::<2>::empty();
    let gain = GainEffect::new(ParameterId::new(99));
    assert!(rack.set_gain(0, gain));
    assert!(!rack.set_gain(2, gain));
    assert_eq!(rack.slots()[0], EffectSlot::Gain(gain));
    assert_eq!(rack.slots()[1], EffectSlot::Empty);
    assert_eq!(gain.parameter(), ParameterId::new(99));

    rack.prepare(AudioFormat::new(48_000, 1).expect("format"));
    assert_eq!(rack.slots()[0], EffectSlot::Gain(gain));
}

#[test]
fn audio_format_rejects_zero_dimensions_and_counts_samples() {
    assert!(matches!(AudioFormat::new(0, 2), Err(RStudioError::InvalidAudioBuffer(_))));
    assert!(matches!(AudioFormat::new(44_100, 0), Err(RStudioError::InvalidAudioBuffer(_))));
    let format = AudioFormat::new(44_100, 2).expect("valid stereo format");
    assert_eq!(format.sample_rate(), 44_100);
    assert_eq!(format.channels(), 2);
    assert_eq!(format.sample_count(128), Some(256));
    assert_eq!(format.sample_count(usize::MAX), None);
    assert_eq!(format.block_frames(256, 128), Some(128));
    assert_eq!(format.block_frames(258, 128), None);
    assert_eq!(format.block_frames(255, 128), None);
    assert_eq!(format.block_frames(0, 128), Some(0));
}

#[test]
fn output_device_info_reports_its_fields() {
    let info = OutputDeviceInfo::new(
        48_000,
        2,
        DeviceBufferSize::Range { min_frames: 64, max_frames: 4_096 },
    );
    assert_eq!(info.sample_rate(), 48_000);
    assert_eq!(info.channels(), 2);
    assert_eq!(info.buffer_size(), DeviceBufferSize::Range { min_frames: 64, max_frames: 4_096 });
}

#[test]
fn identifiers_round_trip() {
    assert_eq!(ParameterId::new(7).value(), 7);
    assert_eq!(VoiceId::new(3).value(), 3);
    assert_ne!(AdsrStage::Idle, AdsrStage::Release);
}
