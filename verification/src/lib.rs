//! Verified core of the RustRiff guitar amplifier back end: driver and device
//! selection, impulse-response file handling, effect descriptors, resampling
//! policy, the loopback lifecycle and the round-trip latency state machine.
//!
//! Work on floating-point samples, audio hardware, files and the UI layer is
//! done by the application around this library, which hands it plain values.

pub mod audio_handler;
pub mod audio_service;
pub mod cabinet;
pub mod device_service;
pub mod effects;
pub mod file_loader;
pub mod file_service;
pub mod persistence;
pub mod resample;
pub mod round_trip;
pub mod sorting;
pub mod text;
