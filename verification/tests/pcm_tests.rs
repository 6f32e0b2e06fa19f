use offline_player::pcm::{
    expand_signed_integer, pcm_ring_buffer, AudioEngine, PcmFormatError, PcmRingConfig, PcmRingError,
};

#[test]
fn creates_ring_and_splits_handles() {
    let config = PcmRingConfig::new(8);
    let (_producer, _consumer) = pcm_ring_buffer(config);
}

#[test]
fn producer_and_consumer_exchange_samples() {
    let config = PcmRingConfig::new(8);
    let (mut producer, mut consumer) = pcm_ring_buffer(config);

    assert_eq!(producer.push_slice(&[1, 2, 3, 4]), 4);
    assert_eq!(consumer.len(), 4);

    let mut output = [0i32; 4];
    assert_eq!(consumer.pop_slice(&mut output), 4);
    assert_eq!(output, [1, 2, 3, 4]);
    assert!(consumer.is_empty());
}

#[test]
fn producer_does_not_overwrite_full_ring() {
    let config = PcmRingConfig::new(4);
    let (mut producer, mut consumer) = pcm_ring_buffer(config);

    assert_eq!(producer.push_slice(&[10, 20, 30, 40, 50]), 4);

    let mut output = [0i32; 4];
    assert_eq!(consumer.pop_slice(&mut output), 4);
    assert_eq!(output, [10, 20, 30, 40]);
}

#[test]
fn consumer_returns_empty_when_no_data_exists() {
    let config = PcmRingConfig::new(8);
    let (_producer, mut consumer) = pcm_ring_buffer(config);
    assert_eq!(consumer.try_pop(), Err(PcmRingError::Empty));
}

#[test]
fn audio_engine_has_compatibility_constructor() {
    let _engine = AudioEngine::new();
}

#[test]
fn expands_i16_to_24bit() {
    assert_eq!(expand_signed_integer(0, 16, 24), Ok(0));
    assert_eq!(expand_signed_integer(1, 16, 24), Ok(256));
    assert_eq!(expand_signed_integer(-1, 16, 24), Ok(-256));
    assert_eq!(expand_signed_integer(i16::MAX as i32, 16, 24), Ok(8_388_352));
    assert_eq!(expand_signed_integer(i16::MIN as i32, 16, 24), Ok(-8_388_608));
}

#[test]
fn leaves_same_bit_depth_unchanged() {
    assert_eq!(expand_signed_integer(123_456, 24, 24), Ok(123_456));
}

#[test]
fn rejects_narrowing() {
    assert_eq!(
        expand_signed_integer(100, 24, 16),
        Err(PcmFormatError::SourceWiderThanOutput { source_bits: 24, output_bits: 16 })
    );
}

#[test]
fn rejects_invalid_depths() {
    assert_eq!(expand_signed_integer(1, 0, 16), Err(PcmFormatError::InvalidBitDepth));
    assert_eq!(expand_signed_integer(1, 16, 33), Err(PcmFormatError::InvalidBitDepth));
    assert_eq!(expand_signed_integer(1, 1, 32), Err(PcmFormatError::InvalidBitDepth));
    assert_eq!(expand_signed_integer(1, 2, 32), Ok(1 << 30));
}

#[test]
fn ring_push_and_pop_single_samples() {
    let (mut producer, mut consumer) = pcm_ring_buffer(PcmRingConfig::new(1));
    assert_eq!(producer.slots(), 1);
    assert_eq!(producer.try_push(5), Ok(()));
    assert_eq!(producer.try_push(6), Err(PcmRingError::Full));
    assert_eq!(producer.capacity_remaining(), 0);
    assert_eq!(consumer.try_pop(), Ok(5));
    let mut out = [9i32; 3];
    assert_eq!(consumer.fill_available(&mut out), 0);
    assert_eq!(out, [9, 9, 9]);
}

#[test]
fn pop_slice_leaves_the_rest_untouched() {
    let (mut producer, mut consumer) = pcm_ring_buffer(PcmRingConfig::new(8));
    assert_eq!(producer.push_slice(&[1, 2]), 2);
    assert_eq!(producer.push_slice(&[]), 0);
    let mut out = [7i32; 4];
    assert_eq!(consumer.pop_slice(&mut out), 2);
    assert_eq!(out, [1, 2, 7, 7]);
}

#[test]
fn a_ring_with_room_takes_every_sample() {
    let (mut producer, mut consumer) = pcm_ring_buffer(PcmRingConfig::new(6));
    assert_eq!(producer.try_push(7), Ok(()));
    assert_eq!(producer.push_slice(&[1, 2, 3, 4, 5]), 5);
    assert_eq!(producer.try_push(9), Err(PcmRingError::Full));
    assert_eq!(consumer.try_pop(), Ok(7));
    assert_eq!(producer.try_push(9), Ok(()));
}
