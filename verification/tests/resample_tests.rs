use rustriff_lib::resample::{check_resampler_params, ChunkBuffer, ResamplePolicy};

#[test]
fn equal_rates_selects_bypass() {
    let policy = ResamplePolicy::from_rates(48_000, 48_000, 32);
    assert!(matches!(policy, ResamplePolicy::Bypass));
}

#[test]
fn higher_input_rate_selects_pre_dsp() {
    let policy = ResamplePolicy::from_rates(48_000, 44_100, 32);
    assert!(matches!(policy, ResamplePolicy::PreDsp));
}

#[test]
fn lower_input_rate_selects_post_dsp() {
    let policy = ResamplePolicy::from_rates(44_100, 48_000, 32);
    assert!(matches!(policy, ResamplePolicy::PostDsp));
}

#[test]
fn invalid_rates_fall_back_to_bypass() {
    let policy = ResamplePolicy::from_rates(0, 48_000, 32);
    assert!(matches!(policy, ResamplePolicy::Bypass), "Invalid rates should fall back to Bypass");
}

#[test]
fn zero_chunk_size_falls_back_to_bypass() {
    let policy = ResamplePolicy::from_rates(44_100, 48_000, 0);
    assert!(matches!(policy, ResamplePolicy::Bypass), "Zero chunk size should fall back to Bypass");
}

#[test]
fn zero_input_rate_returns_error() {
    let result = check_resampler_params(0, 48_000, 32);
    assert!(result.is_err(), "Zero input rate should return an error");
}

#[test]
fn zero_output_rate_returns_error() {
    let result = check_resampler_params(44_100, 0, 32);
    assert!(result.is_err(), "Zero output rate should return an error");
}

#[test]
fn zero_chunk_size_returns_error() {
    let result = check_resampler_params(44_100, 48_000, 0);
    assert!(result.is_err(), "Zero chunk size should return an error");
}

#[test]
fn resampler_param_errors_carry_messages() {
    assert_eq!(check_resampler_params(0, 0, 0), Err("Sample rates must be > 0".to_string()));
    assert_eq!(check_resampler_params(1, 1, 0), Err("Chunk size must be > 0".to_string()));
    assert_eq!(check_resampler_params(44_100, 48_000, 32), Ok(()));
}

#[test]
fn flush_clears_remaining_buffered_input() {
    let chunk_size = 32;
    let mut buffer: ChunkBuffer<u32> = ChunkBuffer::new(chunk_size);
    for i in 0..10 {
        assert!(buffer.push(i).is_none());
    }
    assert!(buffer.pending_len() > 0, "Input buffer should contain pending samples before flush");
    let flushed = buffer.flush();
    assert_eq!(flushed, Some((0..10).collect::<Vec<u32>>()));
    assert_eq!(buffer.pending_len(), 0, "Flush should clear pending input samples");
}

#[test]
fn flush_on_empty_buffer_returns_nothing() {
    let mut buffer: ChunkBuffer<u32> = ChunkBuffer::new(32);
    let flushed = buffer.flush();
    assert!(flushed.is_none(), "Flush on an empty buffer should return no samples");
}

#[test]
fn process_sample_buffers_until_chunk_is_full() {
    let chunk_size = 16;
    let mut buffer: ChunkBuffer<usize> = ChunkBuffer::new(chunk_size);
    for i in 0..(chunk_size - 1) {
        assert!(buffer.push(i).is_none(), "Should buffer until chunk is full");
    }
    let chunk = buffer.push(chunk_size - 1).expect("the chunk is full");
    assert_eq!(chunk, (0..chunk_size).collect::<Vec<usize>>());
    assert_eq!(buffer.pending_len(), 0);
    assert!(buffer.push(99).is_none());
    assert_eq!(buffer.pending_len(), 1);
}
