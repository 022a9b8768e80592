use audio_engine::{
    ClipId, ClipSource, Project, ProjectError, SampleId, SampleTime, TrackId,
};

#[test]
fn project_exposes_two_fixed_tracks_and_compiles_ui_edits() {
    let mut project: Project<Vec<f32>> = Project::new();
    let synth = project.add_track("Synth").expect("first track");
    let audio = project.add_track("Audio").expect("second track");
    assert_eq!(synth, TrackId::new(1));
    assert_eq!(audio, TrackId::new(2));
    assert_eq!(project.add_track("Third"), Err(ProjectError::TrackCapacityReached));

    project.add_synth_clip(synth, SampleTime::new(0), SampleTime::new(480));
    let snapshot = project.compile_snapshot().expect("fixed project compiles");
    assert!(snapshot.track(synth).is_some());
}

#[test]
fn project_numbers_clips_and_samples() {
    let mut project: Project<Vec<f32>> = Project::new();
    let track = project.add_track("Track").expect("first track");
    assert_eq!(project.tracks()[0].id(), TrackId::new(1));
    assert_eq!(project.tracks()[0].name(), "Track");
    let sample = project.add_sample(vec![0.25, 0.5]).expect("free slot");
    assert_eq!(sample, SampleId::new(0));
    assert_eq!(project.add_sample(vec![0.0]).expect("free slot"), SampleId::new(1));
    let first = project.add_synth_clip(track, SampleTime::new(0), SampleTime::new(10));
    let second = project.add_audio_clip(track, SampleTime::new(10), SampleTime::new(10), sample);
    assert_eq!(first, ClipId::new(1));
    assert_eq!(second, ClipId::new(2));

    let snapshot = project.compile_snapshot().expect("fixed project compiles");
    let clips = snapshot.track(track).expect("track exists").clips();
    assert_eq!(clips.len(), 2);
    assert_eq!(clips[1].expect("clip exists").source(), ClipSource::AudioFile(sample));

    let registry = project.into_sample_registry();
    assert_eq!(registry.get(SampleId::new(0)), Some(&vec![0.25, 0.5]));
}

#[test]
fn project_reports_clips_on_missing_tracks_when_compiling() {
    let mut project: Project<Vec<f32>> = Project::new();
    project.add_synth_clip(TrackId::new(5), SampleTime::new(0), SampleTime::new(10));
    assert!(project.compile_snapshot().is_err());
}
