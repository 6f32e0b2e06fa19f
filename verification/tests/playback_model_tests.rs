use offline_player::playback_model::PlaybackTrack;

fn sample() -> PlaybackTrack {
    PlaybackTrack {
        track_id: 10,
        asset_id: 20,
        path: "/music/album.flac".to_string(),
        sample_rate: 44_100,
        channels: 2,
        bits_per_sample: 16,
        start_frame: 10_000,
        frame_count: Some(5_000),
    }
}

#[test]
fn computes_end_frame() {
    assert_eq!(sample().end_frame(), Some(15_000));
}

#[test]
fn checks_source_frame_membership() {
    let track = sample();
    assert!(!track.contains_frame(9_999));
    assert!(track.contains_frame(10_000));
    assert!(track.contains_frame(14_999));
    assert!(!track.contains_frame(15_000));
}

#[test]
fn converts_source_frame_to_local_frame() {
    let track = sample();
    assert_eq!(track.local_frame(10_000), Some(0));
    assert_eq!(track.local_frame(10_123), Some(123));
    assert_eq!(track.local_frame(15_000), None);
}

#[test]
fn open_ended_track_contains_frames_after_start() {
    let track = PlaybackTrack { frame_count: None, ..sample() };
    assert!(track.contains_frame(10_000));
    assert!(track.contains_frame(999_999));
    assert_eq!(track.local_frame(10_123), Some(123));
}

#[test]
fn overflowing_end_is_open() {
    let track = PlaybackTrack { start_frame: u64::MAX, frame_count: Some(2), ..sample() };
    assert_eq!(track.end_frame(), None);
    assert!(track.contains_frame(u64::MAX));
}
