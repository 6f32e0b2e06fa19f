use offline_player::decoder::{
    check_frame_aligned, check_resampler_parameters, first_mismatch, landed_frame, s32_sample_to_depth,
    sample_format_for_bits, samples_to_skip, seek_plan, stream_parameters, ResamplerError, SampleFormat,
    SeekPlan, StreamError, StreamProgress, StreamStats,
};

#[test]
fn pushed_frames_divides_by_channels() {
    let stats = StreamStats { sample_rate: 44_100, channels: 2, decoded_frames: 10, pushed_samples: 21 };
    assert_eq!(stats.pushed_frames(), 10);
    let none = StreamStats { channels: 0, ..stats };
    assert_eq!(none.pushed_frames(), 0);
}

#[test]
fn first_mismatch_finds_first_difference_or_length() {
    assert_eq!(first_mismatch(&[1, 2, 3], &[1, 2, 3]), None);
    assert_eq!(first_mismatch(&[1, 2, 3], &[1, 5, 3]), Some(1));
    assert_eq!(first_mismatch(&[1, 2], &[1, 2, 3]), Some(2));
    assert_eq!(first_mismatch(&[], &[4]), Some(0));
}

#[test]
fn seek_plans() {
    assert_eq!(seek_plan(10, Some(5)), Err(StreamError::SeekPastEnd(10)));
    assert_eq!(seek_plan(5, Some(5)), Ok(SeekPlan::AtEnd(5)));
    assert_eq!(seek_plan(3, Some(5)), Ok(SeekPlan::Seek(3)));
    assert_eq!(seek_plan(u64::MAX, None), Err(StreamError::SeekTimestampOverflow(u64::MAX)));
    assert_eq!(landed_frame(-1), Err(StreamError::NegativeSeekTimestamp(-1)));
    assert_eq!(landed_frame(42), Ok(42));
}

#[test]
fn stream_parameters_are_checked() {
    assert_eq!(stream_parameters(None, Some(2), None), Err(StreamError::MissingSampleRate));
    assert_eq!(stream_parameters(Some(44_100), None, None), Err(StreamError::MissingChannels));
    assert_eq!(stream_parameters(Some(44_100), Some(0), None), Err(StreamError::MissingChannels));
    assert_eq!(stream_parameters(Some(44_100), Some(2), Some(0)), Err(StreamError::InvalidOutputSampleRate));
    assert_eq!(stream_parameters(Some(44_100), Some(2), None), Ok((44_100, 2, 44_100)));
    assert_eq!(stream_parameters(Some(96_000), Some(2), Some(48_000)), Ok((96_000, 2, 48_000)));
}

#[test]
fn seek_alignment_skips_only_the_prefix() {
    assert_eq!(samples_to_skip(Some(1_000), 900, 256, 2, 512), 200);
    assert_eq!(samples_to_skip(Some(1_000), 900, 50, 2, 512), 100);
    assert_eq!(samples_to_skip(Some(1_000), 1_000, 50, 2, 512), 0);
    assert_eq!(samples_to_skip(None, 0, 50, 2, 512), 0);
    assert_eq!(samples_to_skip(Some(1_000), 0, 600, 2, 512), 512);
}

#[test]
fn container_samples_narrow_to_declared_depth() {
    assert_eq!(s32_sample_to_depth(0x7fff_0000, 16), 0x7fff);
    assert_eq!(s32_sample_to_depth(-65_536, 16), -1);
    assert_eq!(s32_sample_to_depth(123, 32), 123);
    assert_eq!(sample_format_for_bits(Some(24)), SampleFormat::SignedInt(24));
    assert_eq!(sample_format_for_bits(None), SampleFormat::SignedInt(0));
}

#[test]
fn resampler_parameters_are_checked() {
    assert_eq!(check_resampler_parameters(0, 48_000, 2), Err(ResamplerError::InvalidSampleRate));
    assert_eq!(check_resampler_parameters(44_100, 48_000, 0), Err(ResamplerError::InvalidChannels));
    assert_eq!(check_resampler_parameters(44_100, 48_000, 2), Ok(()));
    assert_eq!(check_frame_aligned(5, 2), Err(ResamplerError::SampleCountNotFrameAligned));
    assert_eq!(check_frame_aligned(6, 2), Ok(()));
}

#[test]
fn stream_progress_moves_by_whole_buffers_and_saturates() {
    let start = StreamProgress::starting_at(1_000);
    assert_eq!(start, StreamProgress { stream_frame: 1_000, decoded_frames: 0 });
    let next = start.advanced(256).advanced(128);
    assert_eq!(next, StreamProgress { stream_frame: 1_384, decoded_frames: 384 });
    let end = StreamProgress::starting_at(u64::MAX - 10).advanced(100);
    assert_eq!(end, StreamProgress { stream_frame: u64::MAX, decoded_frames: 100 });
}
