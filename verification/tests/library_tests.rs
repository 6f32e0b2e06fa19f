use offline_player::library::{AudioAssetId, Track, TrackId, TrackIndex, TrackIndexError};

fn track(id: i64, start: u64, count: Option<u64>) -> Track {
    Track {
        id: TrackId(id),
        asset_id: AudioAssetId(1),
        start_frame: start,
        frame_count: count,
        disc_number: None,
        track_number: id as u32,
        title: None,
        performer: None,
        album: None,
    }
}

#[test]
fn track_local_frame() {
    let value = track(1, 100, Some(50));
    assert_eq!(value.local_frame(100), Some(0));
    assert_eq!(value.local_frame(125), Some(25));
    assert_eq!(value.local_frame(150), None);
}

#[test]
fn index_finds_containing_track() {
    let index = TrackIndex::new(vec![track(1, 0, Some(100)), track(2, 100, Some(100))]);
    assert_eq!(index.find_frame(99).map(|track| track.id), Some(TrackId(1)));
    assert_eq!(index.find_frame(100).map(|track| track.id), Some(TrackId(2)));
}

#[test]
fn overlapping_tracks_are_rejected() {
    let index = TrackIndex::new(vec![track(1, 0, Some(100)), track(2, 50, Some(100))]);
    assert_eq!(
        index.validate(),
        Err(TrackIndexError::Overlap { left_start: 0, left_end: 100, right_start: 50 })
    );
}

#[test]
fn unsorted_tracks_are_rejected() {
    let index = TrackIndex::new(vec![track(1, 100, Some(10)), track(2, 50, Some(10))]);
    assert_eq!(
        index.validate(),
        Err(TrackIndexError::Unsorted { previous: 100, current: 50 })
    );
}

#[test]
fn end_frame_saturates_and_open_tracks_have_none() {
    assert_eq!(track(1, u64::MAX - 1, Some(10)).end_frame(), Some(u64::MAX));
    assert_eq!(track(1, 5, None).end_frame(), None);
    assert!(track(1, 5, None).contains_frame(u64::MAX));
    assert!(!track(1, 5, None).contains_frame(4));
}

#[test]
fn well_ordered_tracks_never_share_a_frame() {
    let index = TrackIndex::new(vec![track(1, 0, Some(100)), track(2, 100, Some(50)), track(3, 150, None)]);
    assert_eq!(index.validate(), Ok(()));
    for frame in [0u64, 99, 100, 149, 150, 10_000] {
        let holders = index.tracks.iter().filter(|t| t.contains_frame(frame)).count();
        assert_eq!(holders, 1);
    }
    assert_eq!(index.find_frame(10_000).map(|t| t.id), Some(TrackId(3)));
}
