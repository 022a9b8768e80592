use audio_engine::config::AppConfig;
use audio_engine::error::RStudioError;
use audio_engine::AudioEngine;

#[test]
fn engine_can_start_and_stop() {
    let config = AppConfig::default();

    let mut engine = AudioEngine::new(config).expect("default configuration is valid");

    assert!(!engine.is_running());

    engine.start();

    assert!(engine.is_running());

    engine.stop();

    assert!(!engine.is_running());
}

#[test]
fn engine_rejects_invalid_configuration() {
    let config = AppConfig { sample_rate: 0, buffer_size: 512 };
    assert!(AudioEngine::new(config).is_err());
}

#[test]
fn engine_keeps_its_configuration() {
    let engine =
        AudioEngine::new(AppConfig { sample_rate: 48_000, buffer_size: 256 }).expect("valid");
    assert_eq!(engine.config().sample_rate, 48_000);
    assert_eq!(engine.config().buffer_size, 256);
}

#[test]
fn engine_reports_the_configuration_error() {
    let result = AudioEngine::new(AppConfig { sample_rate: 48_000, buffer_size: 0 });
    assert!(matches!(
        result,
        Err(RStudioError::InvalidConfiguration { field: "buffer_size", .. })
    ));
}

#[test]
fn engine_keeps_its_configuration_across_starts_and_stops() {
    let mut engine =
        AudioEngine::new(AppConfig { sample_rate: 96_000, buffer_size: 1_024 }).expect("valid");
    engine.start();
    engine.stop();
    engine.start();
    engine.start();
    assert!(engine.is_running());
    engine.stop();
    assert!(!engine.is_running());
    assert_eq!(engine.config().sample_rate, 96_000);
    assert_eq!(engine.config().buffer_size, 1_024);
}
