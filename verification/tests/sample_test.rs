use audio_engine::{
    SampleId, SampleLoadError, SampleRegistryBuilder, pcm_layout_is_valid, pcm_sample_index,
};

/// Minimal interleaved PCM data for exercising the registry.
#[derive(Debug, Clone, PartialEq)]
struct Pcm {
    samples: Vec<f32>,
    channels: usize,
}

impl Pcm {
    fn frames(&self) -> usize {
        self.samples.len() / self.channels
    }
}

#[test]
fn registry_returns_preloaded_sample_by_id() {
    let mut builder = SampleRegistryBuilder::new();
    builder
        .insert(SampleId::new(3), Pcm { samples: vec![0.0], channels: 1 })
        .expect("slot");
    let registry = builder.build();
    assert_eq!(registry.get(SampleId::new(3)).map(Pcm::frames), Some(1));
    assert!(registry.get(SampleId::new(4)).is_none());
}

#[test]
fn registry_refuses_taken_and_out_of_range_slots() {
    let mut builder = SampleRegistryBuilder::new();
    builder.insert(SampleId::new(0), Pcm { samples: vec![0.5, 0.25], channels: 2 }).expect("slot");
    assert!(matches!(
        builder.insert(SampleId::new(0), Pcm { samples: vec![], channels: 1 }),
        Err(SampleLoadError::RegistryFull)
    ));
    assert!(matches!(
        builder.insert(SampleId::new(16), Pcm { samples: vec![], channels: 1 }),
        Err(SampleLoadError::RegistryFull)
    ));
    let registry = builder.build();
    assert_eq!(
        registry.get(SampleId::new(0)),
        Some(&Pcm { samples: vec![0.5, 0.25], channels: 2 })
    );
    assert!(registry.get(SampleId::new(16)).is_none());
}

#[test]
fn pcm_layout_requires_whole_frames() {
    assert!(pcm_layout_is_valid(4, 48_000, 2));
    assert!(!pcm_layout_is_valid(3, 48_000, 2));
    assert!(!pcm_layout_is_valid(4, 0, 2));
    assert!(!pcm_layout_is_valid(4, 48_000, 0));
    assert!(pcm_layout_is_valid(0, 44_100, 1));
}

#[test]
fn pcm_sample_index_clamps_the_channel_and_detects_overflow() {
    assert_eq!(pcm_sample_index(3, 1, 2), Some(7));
    assert_eq!(pcm_sample_index(3, 5, 2), Some(7));
    assert_eq!(pcm_sample_index(0, 0, 1), Some(0));
    assert_eq!(pcm_sample_index(usize::MAX, 0, 2), None);
}
