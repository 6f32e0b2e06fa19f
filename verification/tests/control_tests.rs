use offline_player::decoder::{AudioFormat, SampleFormat};
use offline_player::playback_control::{
    playback_position, source_format, track_at_end, track_position, track_seek_frame, track_to_load, PlayStep,
    PlaybackServiceError,
    PlaybackController, PlaybackError, PlaybackOutputMode, PlaybackState, DEFAULT_RING_CAPACITY_SAMPLES,
};
use offline_player::playback_model::PlaybackTrack;

fn track(start: u64, count: Option<u64>) -> PlaybackTrack {
    PlaybackTrack {
        track_id: 1,
        asset_id: 1,
        path: "/m/a.flac".to_string(),
        sample_rate: 44_100,
        channels: 2,
        bits_per_sample: 16,
        start_frame: start,
        frame_count: count,
    }
}

#[test]
fn initial_state_is_idle() {
    let controller = PlaybackController::new();
    assert_eq!(controller.state(), PlaybackState::Idle);
    assert_eq!(controller.output_mode(), PlaybackOutputMode::Auto);
    assert_eq!(controller.ring_capacity_samples(), DEFAULT_RING_CAPACITY_SAMPLES);
}

#[test]
fn starts_not_at_end_without_current_track() {
    assert!(!track_at_end(None, Some(10)));
}

#[test]
fn starts_idle_without_current_track() {
    let controller = PlaybackController::new();
    assert_eq!(controller.state(), PlaybackState::Idle);
    assert!(!controller.is_loaded());
    assert_eq!(track_position(None, None), None);
    assert_eq!(track_position(Some(5), None), None);
}

#[test]
fn play_without_loaded_track_returns_not_loaded() {
    let controller = PlaybackController::new();
    assert_eq!(controller.play_step(), Err(PlaybackError::NotLoaded));
}

#[test]
fn pause_without_loaded_track_returns_not_loaded() {
    let controller = PlaybackController::new();
    assert_eq!(controller.pause_check(), Err(PlaybackError::NotLoaded));
}

#[test]
fn stop_without_loaded_track_is_safe() {
    let mut controller = PlaybackController::new();
    controller.stopped();
    assert_eq!(controller.state(), PlaybackState::Stopped);
    assert!(!controller.is_loaded());
}

#[test]
fn seek_without_loaded_track_returns_not_loaded() {
    assert_eq!(track_seek_frame(None, 0, None), Err(PlaybackError::NotLoaded));
    assert_eq!(PlaybackController::new().seek_target(0, None), Err(PlaybackError::NotLoaded));
}

#[test]
fn transport_transitions() {
    let mut controller = PlaybackController::with_ring_capacity(16);
    controller.loaded();
    assert_eq!(controller.state(), PlaybackState::Loaded);
    assert_eq!(controller.pause_check(), Err(PlaybackError::InvalidState(PlaybackState::Loaded)));
    assert_eq!(controller.play_step(), Ok(PlayStep::Start));
    controller.started();
    assert_eq!(controller.play_step(), Ok(PlayStep::AlreadyPlaying));
    assert_eq!(controller.pause_check(), Ok(()));
    controller.paused();
    assert_eq!(controller.state(), PlaybackState::Paused);
    controller.reopened_after_seek(PlaybackState::Paused);
    assert_eq!(controller.state(), PlaybackState::Paused);
    controller.reopened_after_seek(PlaybackState::Stopped);
    assert_eq!(controller.state(), PlaybackState::Loaded);
    controller.set_output_mode(PlaybackOutputMode::Fixed48000);
    assert_eq!(controller.output_mode(), PlaybackOutputMode::Fixed48000);
}

#[test]
fn seek_targets_are_bounded_by_known_length() {
    let mut controller = PlaybackController::new();
    controller.loaded();
    assert_eq!(controller.seek_target(100, Some(100)), Ok(100));
    assert_eq!(controller.seek_target(101, Some(100)), Err(PlaybackError::InvalidSeekTarget(101)));
    assert_eq!(controller.seek_target(u64::MAX, None), Ok(u64::MAX));
}

#[test]
fn track_seeks_are_relative_to_the_track() {
    let t = track(1_000, Some(500));
    assert_eq!(track_seek_frame(Some(&t), 0, None), Ok(1_000));
    assert_eq!(track_seek_frame(Some(&t), 500, None), Ok(1_500));
    assert_eq!(track_seek_frame(Some(&t), 501, None), Err(PlaybackError::InvalidSeekTarget(501)));
    let open = track(1_000, None);
    assert_eq!(track_seek_frame(Some(&open), 200, Some(1_300)), Ok(1_200));
    assert_eq!(track_seek_frame(Some(&open), 400, Some(1_300)), Err(PlaybackError::InvalidSeekTarget(400)));
    assert_eq!(track_seek_frame(Some(&open), 0, None), Ok(1_000));
    assert_eq!(track_seek_frame(Some(&open), 1, None), Err(PlaybackError::InvalidSeekTarget(1)));
}

#[test]
fn positions_and_end_detection() {
    let t = track(1_000, Some(500));
    assert_eq!(track_position(Some(1_200), Some(&t)), Some(200));
    assert_eq!(track_position(Some(10), Some(&t)), Some(0));
    assert!(!track_at_end(Some(&t), Some(1_499)));
    assert!(track_at_end(Some(&t), Some(1_500)));
    assert!(!track_at_end(Some(&track(1_000, None)), Some(u64::MAX)));
    assert!(!track_at_end(Some(&t), None));
}

#[test]
fn playback_position_converts_output_frames_to_source_frames() {
    // 96 kHz source played at 48 kHz: 4800 stereo samples = 2400 output frames = 4800 source frames.
    assert_eq!(playback_position(100, 4_800, 2, 96_000, 48_000, None), 4_900);
    assert_eq!(playback_position(100, 4_800, 2, 96_000, 48_000, Some(1_000)), 1_000);
    assert_eq!(playback_position(7, 4_800, 0, 96_000, 48_000, None), 7);
    assert_eq!(playback_position(7, 4_800, 2, 96_000, 0, None), 7);
    assert_eq!(playback_position(u64::MAX, 4_800, 2, 48_000, 48_000, None), u64::MAX);
}

#[test]
fn source_formats_are_checked() {
    let ok = AudioFormat { sample_rate: 44_100, channels: 2, sample_format: SampleFormat::SignedInt(16) };
    assert_eq!(source_format(ok), Ok((44_100, 2, 16)));
    assert_eq!(
        source_format(AudioFormat { sample_rate: 0, ..ok }),
        Err(PlaybackError::UnsupportedSourceFormat("sample rate is zero"))
    );
    assert_eq!(
        source_format(AudioFormat { channels: 0, ..ok }),
        Err(PlaybackError::UnsupportedSourceFormat("channel count is zero"))
    );
    assert_eq!(
        source_format(AudioFormat { sample_format: SampleFormat::SignedInt(0), ..ok }),
        Err(PlaybackError::UnsupportedSourceFormat("integer bit depth is zero"))
    );
    assert_eq!(
        source_format(AudioFormat { sample_format: SampleFormat::Float(32), ..ok }),
        Err(PlaybackError::UnsupportedSourceFormat("floating-point source PCM is not enabled yet"))
    );
}

#[test]
fn track_to_load_seeks_only_past_the_first_frame() {
    let load = track_to_load(1, Ok(Some(track(0, Some(100))))).ok().expect("a found track loads");
    assert_eq!(load.track, track(0, Some(100)));
    assert_eq!(load.seek_to, None);
    let load = track_to_load(1, Ok(Some(track(44_100, None)))).ok().expect("a found track loads");
    assert_eq!(load.seek_to, Some(44_100));
}

#[test]
fn track_to_load_reports_missing_and_failed_lookups() {
    assert!(matches!(
        track_to_load(9, Ok(None)),
        Err(PlaybackServiceError::TrackNotFound { track_id: 9 })
    ));
    assert!(matches!(
        track_to_load(9, Err("database is locked".to_string())),
        Err(PlaybackServiceError::Library(message)) if message == "database is locked"
    ));
}
