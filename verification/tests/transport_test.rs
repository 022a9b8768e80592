use audio_engine::{Transport, TransportState};

#[test]
fn transport_starts_stopped_at_zero() {
    let transport = Transport::new(48_000);

    assert!(!transport.is_playing());
    assert_eq!(transport.position_samples(), 0);
}

#[test]
fn transport_play_pause_stop_and_seek_update_state() {
    let mut transport = Transport::new(48_000);
    transport.play();
    assert!(transport.is_playing());

    transport.pause();
    assert!(!transport.is_playing());

    transport.seek(48_000);
    assert_eq!(transport.position_samples(), 48_000);

    transport.stop();
    assert!(!transport.is_playing());
    assert_eq!(transport.position_samples(), 0);
}

#[test]
fn transport_advances_only_while_playing() {
    let mut transport = Transport::new(48_000);
    transport.advance(256);
    assert_eq!(transport.position_samples(), 0);

    transport.play();
    transport.advance(256);
    assert_eq!(transport.position_samples(), 256);
}

#[test]
fn transport_advance_composes_and_saturates() {
    let mut transport = Transport::new(48_000);
    transport.play();
    transport.advance(100);
    transport.advance(28);
    assert_eq!(transport.position_samples(), 128);

    transport.seek(u64::MAX - 5);
    transport.advance(10);
    assert_eq!(transport.position_samples(), u64::MAX);
}

#[test]
fn transport_raises_a_zero_sample_rate_to_one() {
    let mut transport = Transport::new(0);
    assert_eq!(transport.sample_rate(), 1);
    transport.set_sample_rate(44_100);
    assert_eq!(transport.sample_rate(), 44_100);
    transport.set_sample_rate(0);
    assert_eq!(transport.sample_rate(), 1);
}

#[test]
fn transport_state_reports_position_and_play_flag() {
    let mut transport = Transport::new(48_000);
    transport.seek(77);
    transport.play();
    let state = transport.state();
    assert_eq!(state, TransportState { position_samples: 77, playing: true });
    assert_eq!(state.position_samples(), 77);
    assert!(state.is_playing());
}
