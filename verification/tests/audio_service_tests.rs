use rustriff_lib::audio_service::{
    ring_buffer_size, AudioService, BufferSizeSetting, HandlerSwap, LoopbackAction,
};

#[test]
fn test_audio_service_toggle_logic() {
    let mut service = AudioService::new_with_handler(BufferSizeSetting::Default);

    assert!(!service.is_active());

    assert_eq!(service.toggle_loopback(true), LoopbackAction::Start);
    assert!(service.is_active());

    assert!(!service.start_loopback());
    assert!(service.is_active());

    assert_eq!(service.toggle_loopback(false), LoopbackAction::Stop);
    assert!(!service.is_active());
}

#[test]
fn toggling_to_the_current_state_does_nothing() {
    let mut service = AudioService::new_with_handler(BufferSizeSetting::Fixed(128));
    assert_eq!(service.toggle_loopback(false), LoopbackAction::Keep);
    assert!(!service.stop_loopback());
    assert!(service.start_loopback());
    assert_eq!(service.toggle_loopback(true), LoopbackAction::Keep);
    assert!(service.is_active());
}

#[test]
fn preferred_buffer_size_comes_from_output_config() {
    assert_eq!(AudioService::new_with_handler(BufferSizeSetting::Fixed(480)).buffer_size_frames(), 480);
    assert_eq!(AudioService::new_with_handler(BufferSizeSetting::Default).buffer_size_frames(), 256);
}

#[test]
fn buffer_size_outside_range_is_refused() {
    let mut service = AudioService::new_with_handler(BufferSizeSetting::Fixed(256));
    let expected = Err("Buffer size must be between 64 and 4096 frames".to_string());
    assert_eq!(service.set_buffer_size_frames(63), expected);
    assert_eq!(service.set_buffer_size_frames(4097), expected);
    assert_eq!(service.buffer_size_frames(), 256);
}

#[test]
fn buffer_size_change_rebuilds_handler_and_restarts_loopback() {
    let mut service = AudioService::new_with_handler(BufferSizeSetting::Fixed(256));
    assert_eq!(service.set_buffer_size_frames(256), Ok(HandlerSwap::Unchanged));
    assert_eq!(service.set_buffer_size_frames(64), Ok(HandlerSwap::Replace { restart: false }));
    service.start_loopback();
    assert_eq!(service.set_buffer_size_frames(4096), Ok(HandlerSwap::Replace { restart: true }));
    assert!(service.is_active());
    assert_eq!(service.buffer_size_frames(), 4096);
}

#[test]
fn device_switch_uses_preferred_buffer_size() {
    let mut service = AudioService::new_with_handler(BufferSizeSetting::Fixed(512));
    service.start_loopback();
    assert_eq!(
        service.set_input_device(),
        (BufferSizeSetting::Fixed(512), HandlerSwap::Replace { restart: true })
    );
    service.stop_loopback();
    assert_eq!(
        service.set_output_device(),
        (BufferSizeSetting::Fixed(512), HandlerSwap::Replace { restart: false })
    );
}

#[test]
fn ring_buffer_is_four_buffers_and_at_least_512() {
    assert_eq!(ring_buffer_size(256), 1024);
    assert_eq!(ring_buffer_size(64), 512);
    assert_eq!(ring_buffer_size(100), 512);
    assert_eq!(ring_buffer_size(129), 516);
    let service = AudioService::new_with_handler(BufferSizeSetting::Default);
    assert_eq!(service.loopback_ring_buffer_size(), 1024);
}

#[test]
fn default_buffer_size_falls_back_to_256_frames() {
    assert_eq!(BufferSizeSetting::Default.frames_or_default(), 256);
    assert_eq!(BufferSizeSetting::Fixed(480).frames_or_default(), 480);
}
