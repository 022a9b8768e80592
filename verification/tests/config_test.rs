use audio_engine::config::AppConfig;
use audio_engine::error::RStudioError;

#[test]
fn configuration_rejects_invalid_sample_rate() {
    assert!(matches!(
        AppConfig { sample_rate: 0, buffer_size: 512 }.validate(),
        Err(RStudioError::InvalidConfiguration { field: "sample_rate", .. })
    ));
}

#[test]
fn configuration_rejects_invalid_buffer_size() {
    assert!(matches!(
        AppConfig { sample_rate: 44_100, buffer_size: 0 }.validate(),
        Err(RStudioError::InvalidConfiguration { field: "buffer_size", .. })
    ));
}

#[test]
fn configuration_accepts_the_range_bounds() {
    assert!(AppConfig { sample_rate: 8_000, buffer_size: 1 }.validate().is_ok());
    assert!(AppConfig { sample_rate: 384_000, buffer_size: 65_536 }.validate().is_ok());
    assert!(AppConfig::default().validate().is_ok());
}

#[test]
fn configuration_rejects_values_just_outside_the_bounds() {
    assert!(matches!(
        AppConfig { sample_rate: 7_999, buffer_size: 512 }.validate(),
        Err(RStudioError::InvalidConfiguration { field: "sample_rate", .. })
    ));
    assert!(matches!(
        AppConfig { sample_rate: 384_001, buffer_size: 512 }.validate(),
        Err(RStudioError::InvalidConfiguration { field: "sample_rate", .. })
    ));
    assert!(matches!(
        AppConfig { sample_rate: 48_000, buffer_size: 65_537 }.validate(),
        Err(RStudioError::InvalidConfiguration { field: "buffer_size", .. })
    ));
}

#[test]
fn sample_rate_is_reported_before_buffer_size() {
    assert!(matches!(
        AppConfig { sample_rate: 0, buffer_size: 0 }.validate(),
        Err(RStudioError::InvalidConfiguration { field: "sample_rate", .. })
    ));
}

#[test]
fn default_configuration_values() {
    let config = AppConfig::default();
    assert_eq!(config.sample_rate, 44_100);
    assert_eq!(config.buffer_size, 512);
}
