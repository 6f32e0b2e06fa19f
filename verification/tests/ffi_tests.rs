use offline_player::ffi_model::{
    bytes_buffer_check, output_mode_from_raw, repeat_mode_from_raw, string_buffer_check, text_argument,
    OfflinePlayerOutputMode, OfflinePlayerRepeatMode, OfflinePlayerResult, OfflinePlayerState,
};
use offline_player::playback_control::{
    PlaybackController, PlaybackError, PlaybackOutputMode, PlaybackServiceError, PlaybackState,
};
use offline_player::playback_queue::{PlaybackQueueError, RepeatMode};

#[test]
fn state_mapping_is_stable() {
    assert_eq!(OfflinePlayerState::from(PlaybackState::Idle), OfflinePlayerState::Idle);
    assert_eq!(OfflinePlayerState::from(PlaybackState::Loaded), OfflinePlayerState::Loaded);
    assert_eq!(OfflinePlayerState::from(PlaybackState::Playing), OfflinePlayerState::Playing);
    assert_eq!(OfflinePlayerState::from(PlaybackState::Paused), OfflinePlayerState::Paused);
    assert_eq!(OfflinePlayerState::from(PlaybackState::Stopped), OfflinePlayerState::Stopped);
}

#[test]
fn output_mode_mapping_is_stable() {
    assert_eq!(OfflinePlayerOutputMode::from(PlaybackOutputMode::Auto), OfflinePlayerOutputMode::Auto);
    assert_eq!(OfflinePlayerOutputMode::from(PlaybackOutputMode::Fixed44100), OfflinePlayerOutputMode::Fixed44100);
    assert_eq!(OfflinePlayerOutputMode::from(PlaybackOutputMode::Fixed48000), OfflinePlayerOutputMode::Fixed48000);
    assert_eq!(OfflinePlayerOutputMode::from(PlaybackOutputMode::Fixed96000), OfflinePlayerOutputMode::Fixed96000);
}

#[test]
fn output_mode_values_are_stable() {
    assert_eq!(OfflinePlayerOutputMode::Auto as i32, 0);
    assert_eq!(OfflinePlayerOutputMode::Fixed44100 as i32, 1);
    assert_eq!(OfflinePlayerOutputMode::Fixed48000 as i32, 2);
    assert_eq!(OfflinePlayerOutputMode::Fixed96000 as i32, 3);
}

#[test]
fn output_mode_raw_values_are_validated() {
    assert_eq!(output_mode_from_raw(0), Ok(PlaybackOutputMode::Auto));
    assert_eq!(output_mode_from_raw(1), Ok(PlaybackOutputMode::Fixed44100));
    assert_eq!(output_mode_from_raw(2), Ok(PlaybackOutputMode::Fixed48000));
    assert_eq!(output_mode_from_raw(3), Ok(PlaybackOutputMode::Fixed96000));
    assert_eq!(output_mode_from_raw(99), Err(OfflinePlayerResult::InvalidArgument));
}

#[test]
fn repeat_mode_mapping_is_stable() {
    assert_eq!(OfflinePlayerRepeatMode::from(RepeatMode::Off), OfflinePlayerRepeatMode::Off);
    assert_eq!(OfflinePlayerRepeatMode::from(RepeatMode::Track), OfflinePlayerRepeatMode::Track);
    assert_eq!(OfflinePlayerRepeatMode::from(RepeatMode::Queue), OfflinePlayerRepeatMode::Queue);
}

#[test]
fn repeat_mode_values_are_stable() {
    assert_eq!(OfflinePlayerRepeatMode::Off as i32, 0);
    assert_eq!(OfflinePlayerRepeatMode::Track as i32, 1);
    assert_eq!(OfflinePlayerRepeatMode::Queue as i32, 2);
}

#[test]
fn repeat_mode_raw_values_are_validated() {
    assert_eq!(repeat_mode_from_raw(0), Ok(RepeatMode::Off));
    assert_eq!(repeat_mode_from_raw(1), Ok(RepeatMode::Track));
    assert_eq!(repeat_mode_from_raw(2), Ok(RepeatMode::Queue));
    assert_eq!(repeat_mode_from_raw(99), Err(OfflinePlayerResult::InvalidArgument));
}

#[test]
fn result_codes_are_stable() {
    assert_eq!(OfflinePlayerResult::Success as i32, 0);
    assert_eq!(OfflinePlayerResult::NullArgument as i32, 1);
    assert_eq!(OfflinePlayerResult::InvalidUtf8 as i32, 2);
    assert_eq!(OfflinePlayerResult::InvalidArgument as i32, 3);
    assert_eq!(OfflinePlayerResult::NotFound as i32, 4);
    assert_eq!(OfflinePlayerResult::LibraryError as i32, 5);
    assert_eq!(OfflinePlayerResult::PlaybackError as i32, 6);
    assert_eq!(OfflinePlayerResult::BufferTooSmall as i32, 7);
    assert_eq!(OfflinePlayerResult::InternalError as i32, 8);
    assert_eq!(OfflinePlayerResult::BufferTooSmall.code(), 7);
    assert_eq!(OfflinePlayerResult::Success.code(), 0);
}

#[test]
fn null_utf8_pointer_is_rejected() {
    assert_eq!(text_argument(None), Err(OfflinePlayerResult::NullArgument));
}

#[test]
fn empty_string_is_rejected() {
    assert_eq!(text_argument(Some(Ok(String::new()))), Err(OfflinePlayerResult::InvalidArgument));
    assert_eq!(text_argument(Some(Err(()))), Err(OfflinePlayerResult::InvalidUtf8));
    assert_eq!(text_argument(Some(Ok("/db".to_string()))), Ok("/db".to_string()));
}

#[test]
fn raw_modes_round_trip_through_their_codes() {
    for value in -2..6 {
        if let Ok(mode) = output_mode_from_raw(value) {
            assert_eq!(OfflinePlayerOutputMode::from(mode) as i32, value);
        }
        if let Ok(mode) = repeat_mode_from_raw(value) {
            assert_eq!(OfflinePlayerRepeatMode::from(mode) as i32, value);
        }
    }
}

#[test]
fn errors_map_to_result_codes() {
    assert_eq!(
        OfflinePlayerResult::from_service_error(&PlaybackServiceError::TrackNotFound { track_id: 1 }),
        OfflinePlayerResult::NotFound
    );
    assert_eq!(
        OfflinePlayerResult::from_service_error(&PlaybackServiceError::Library("x".to_string())),
        OfflinePlayerResult::LibraryError
    );
    assert_eq!(
        OfflinePlayerResult::from_service_error(&PlaybackServiceError::Playback(PlaybackError::NotLoaded)),
        OfflinePlayerResult::PlaybackError
    );
    assert_eq!(OfflinePlayerResult::from_queue_error(&PlaybackQueueError::Empty), OfflinePlayerResult::InvalidArgument);
    assert_eq!(
        OfflinePlayerResult::from_queue_error(&PlaybackQueueError::IndexOutOfRange { index: 1, len: 0 }),
        OfflinePlayerResult::InvalidArgument
    );
    assert_eq!(
        OfflinePlayerResult::from_queue_error(&PlaybackQueueError::TrackNotFound { track_id: 3 }),
        OfflinePlayerResult::NotFound
    );
    assert_eq!(
        OfflinePlayerResult::from_queue_error(&PlaybackQueueError::Playback("p".to_string())),
        OfflinePlayerResult::PlaybackError
    );
}

#[test]
fn buffers_are_checked_before_copying() {
    assert_eq!(string_buffer_check(true, 3, 10), Err(OfflinePlayerResult::NullArgument));
    assert_eq!(string_buffer_check(false, 3, 3), Err(OfflinePlayerResult::BufferTooSmall));
    assert_eq!(string_buffer_check(false, 3, 4), Ok(4));
    assert_eq!(string_buffer_check(false, usize::MAX, usize::MAX), Err(OfflinePlayerResult::InternalError));
    assert_eq!(bytes_buffer_check(true, 0, 0), Ok(()));
    assert_eq!(bytes_buffer_check(true, 2, 4), Err(OfflinePlayerResult::NullArgument));
    assert_eq!(bytes_buffer_check(false, 5, 4), Err(OfflinePlayerResult::BufferTooSmall));
}

#[test]
fn ffi_output_mode_round_trip() {
    let mut controller = PlaybackController::new();
    assert_eq!(OfflinePlayerOutputMode::from(controller.output_mode()), OfflinePlayerOutputMode::Auto);
    for (raw, expected) in [
        (1, OfflinePlayerOutputMode::Fixed44100),
        (2, OfflinePlayerOutputMode::Fixed48000),
        (3, OfflinePlayerOutputMode::Fixed96000),
    ] {
        let mode = output_mode_from_raw(raw).expect("a valid output mode code");
        controller.set_output_mode(mode);
        assert_eq!(OfflinePlayerOutputMode::from(controller.output_mode()), expected);
    }
}

#[test]
fn ffi_output_mode_rejects_invalid_value() {
    assert_eq!(output_mode_from_raw(99), Err(OfflinePlayerResult::InvalidArgument));
}

#[test]
fn ffi_output_mode_rejects_negative_value() {
    assert_eq!(output_mode_from_raw(-1), Err(OfflinePlayerResult::InvalidArgument));
}
