use rustriff_lib::round_trip::{
    RoundTripEmission, RoundTripInput, RoundTripLatencySession, RoundTripMeasurementPhase,
    RoundTripMeasurementState, RoundTripTickOutcome, CALIBRATION_SAMPLES, GUARD_SAMPLES,
    INTER_IMPULSE_GAP_NS,
};
use rustriff_lib::audio_service::BufferSizeSetting;

const TIMEOUT: u64 = 10_000_000_000;

fn input(now_ns: u64, reaches_threshold: bool) -> RoundTripInput {
    RoundTripInput { now_ns, reaches_threshold, output_has_room: true }
}

fn calibrate(state: &mut RoundTripMeasurementState) {
    for i in 0..CALIBRATION_SAMPLES {
        let tick = state.tick(input(0, false), TIMEOUT);
        assert_eq!(tick.emission, RoundTripEmission::Silence);
        assert!(matches!(tick.outcome, RoundTripTickOutcome::Ongoing));
        assert_eq!(tick.calibration_complete, i + 1 == CALIBRATION_SAMPLES);
    }
}

#[test]
fn calibration_takes_exactly_the_calibration_samples() {
    let mut state = RoundTripMeasurementState::new();
    assert_eq!(state.phase(), RoundTripMeasurementPhase::CalibrationAmbient);
    calibrate(&mut state);
    assert_eq!(state.phase(), RoundTripMeasurementPhase::WaitingForEcho(0));
}

#[test]
fn impulse_waits_for_room_in_the_output() {
    let mut state = RoundTripMeasurementState::new();
    calibrate(&mut state);
    let full = RoundTripInput { now_ns: 5, reaches_threshold: false, output_has_room: false };
    assert_eq!(state.tick(full, TIMEOUT).emission, RoundTripEmission::Nothing);
    assert_eq!(state.impulse_sent_at(), None);
    assert_eq!(state.tick(input(7, false), TIMEOUT).emission, RoundTripEmission::Impulse);
    assert_eq!(state.impulse_sent_at(), Some(7));
}

#[test]
fn echo_inside_guard_window_is_ignored() {
    let mut state = RoundTripMeasurementState::new();
    calibrate(&mut state);
    state.tick(input(0, false), TIMEOUT);
    for _ in 0..GUARD_SAMPLES {
        let tick = state.tick(input(1, true), TIMEOUT);
        assert!(matches!(tick.outcome, RoundTripTickOutcome::Ongoing));
        assert_eq!(tick.emission, RoundTripEmission::Silence);
    }
    let tick = state.tick(input(1_000, true), TIMEOUT);
    assert!(matches!(tick.outcome, RoundTripTickOutcome::Ongoing));
    assert_eq!(state.phase(), RoundTripMeasurementPhase::WaitingForEcho(1));
    assert_eq!(state.impulse_sent_at(), None);
}

fn one_round(state: &mut RoundTripMeasurementState, start: u64, latency: u64) -> RoundTripTickOutcome {
    assert_eq!(state.tick(input(start, false), TIMEOUT).emission, RoundTripEmission::Impulse);
    for _ in 0..GUARD_SAMPLES {
        state.tick(input(start, false), TIMEOUT);
    }
    state.tick(input(start + latency, true), TIMEOUT).outcome
}

#[test]
fn three_echoes_complete_the_measurement() {
    let mut state = RoundTripMeasurementState::new();
    calibrate(&mut state);
    assert!(matches!(one_round(&mut state, 0, 10_000_000), RoundTripTickOutcome::Ongoing));
    let next = 10_000_000 + INTER_IMPULSE_GAP_NS;
    let tick = state.tick(input(next - 1, false), TIMEOUT);
    assert_eq!(tick.emission, RoundTripEmission::Silence, "quiet gap between impulses");
    assert!(matches!(one_round(&mut state, next, 12_000_000), RoundTripTickOutcome::Ongoing));
    let third = next + 12_000_000 + INTER_IMPULSE_GAP_NS;
    match one_round(&mut state, third, 11_000_000) {
        RoundTripTickOutcome::Complete(d) => assert_eq!(d, vec![10_000_000, 12_000_000, 11_000_000]),
        _ => panic!("measurement should complete"),
    }
    assert_eq!(state.phase(), RoundTripMeasurementPhase::Idle);
    let after = state.tick(input(third + 1, true), TIMEOUT);
    assert!(matches!(after.outcome, RoundTripTickOutcome::Ongoing));
    assert_eq!(after.emission, RoundTripEmission::Silence);
}

#[test]
fn missing_echo_times_out() {
    let mut state = RoundTripMeasurementState::new();
    calibrate(&mut state);
    state.tick(input(100, false), 1_000);
    assert!(matches!(state.tick(input(1_099, false), 1_000).outcome, RoundTripTickOutcome::Ongoing));
    assert!(matches!(state.tick(input(1_100, false), 1_000).outcome, RoundTripTickOutcome::TimedOut));
    assert_eq!(state.phase(), RoundTripMeasurementPhase::Idle);
}

#[test]
fn session_sizes_and_deadline() {
    assert_eq!(
        RoundTripLatencySession::ring_buffer_size(BufferSizeSetting::Fixed(256), BufferSizeSetting::Fixed(512)),
        2048
    );
    assert_eq!(
        RoundTripLatencySession::ring_buffer_size(BufferSizeSetting::Default, BufferSizeSetting::Fixed(64)),
        1024
    );
    assert_eq!(
        RoundTripLatencySession::overall_deadline_ns(5, 10_000_000_000),
        5 + 30_000_000_000 + 2_000_000_000
    );
}
