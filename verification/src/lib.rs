//! Verified core of a fixed-topology digital audio workstation engine: configuration,
//! sample-accurate timeline, immutable playback snapshots, block event scheduling, voice-slot
//! allocation, transport clock, effect racks, preloaded sample registry and the editable
//! project model.
use vstd::prelude::*;

pub mod buffer;
pub mod config;
pub mod effect;
pub mod engine;
pub mod envelope;
pub mod error;
pub mod event;
pub mod parameter;
pub mod project;
pub mod sample;
pub mod snapshot;
pub mod stream;
pub mod timeline;
pub mod track;
pub mod transport;
pub mod voice;

pub use buffer::AudioFormat;
pub use config::AppConfig;
pub use effect::{EffectRack, EffectSlot, GainEffect};
pub use engine::{AudioEngine, EngineCall};
pub use envelope::AdsrStage;
pub use error::RStudioError;
pub use event::{EventScheduler, due_events_end, MAX_SCHEDULED_EVENTS_PER_TRACK, ScheduledEvent, VoiceEvent};
pub use parameter::ParameterId;
pub use project::{Project, ProjectError, ProjectTrack};
pub use sample::{
    MAX_REGISTERED_SAMPLES, SampleId, SampleLoadError, SampleRegistry, SampleRegistryBuilder,
    WavLoader, pcm_layout_is_valid, pcm_sample_index,
};
pub use snapshot::{
    AudioSnapshot, AudioSnapshotReceiver, AudioSnapshotSender, AudioTrackSnapshot, ClipPlayback,
    ClipScheduler, MAX_CLIPS_PER_TRACK, SNAPSHOT_TRACK_COUNT, SnapshotCompileError,
    SnapshotCompiler, SnapshotPublishError, audio_snapshot_exchange, keep_draining, keep_latest, publish_outcome,
};
pub use stream::{DeviceBufferSize, OutputDeviceInfo};
pub use timeline::{AudioClip, ClipId, ClipSource, SampleTime, Timeline, TimelineCommand};
pub use track::TrackId;
pub use transport::{Transport, TransportState};
pub use voice::{MAX_VOICES_PER_TRACK, Voice, VoiceAction, VoiceId, VoiceManager};

verus! {
} // verus!
