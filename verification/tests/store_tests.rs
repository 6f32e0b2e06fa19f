use offline_player::db::{
    assets_missing_from_scan, normalize_optional_string, stale_track_ids, stored_title, track_row, DbError,
    PersistedAsset, TrackRecord,
};
use offline_player::library::{AudioAsset, AudioAssetId, Track, TrackId};
use offline_player::metadata_model::{
    EmbeddedArtwork, EmbeddedMetadata, NormalizedAlbumMetadata, NormalizedMetadata, NormalizedTrackMetadata,
};
use offline_player::scanner::{ScanResult, ScannedAsset, ScannedTrack};
use offline_player::library_service::{paths_to_keep, LibraryScanReport};
use offline_player::store::{
    non_negative_frame, number_from_column, playback_track_from_row, scan_records, validate_asset,
    LibraryStoreError, StoredScan,
};

fn scanned_asset() -> ScannedAsset {
    let asset_path = "/music/test.flac".to_string();
    let asset = AudioAsset {
        id: AudioAssetId(1),
        path: asset_path.clone(),
        sample_rate: 44_100,
        channels: 2,
        bits_per_sample: 24,
        total_frames: Some(44_100),
    };
    let track = Track {
        id: TrackId(1),
        asset_id: asset.id,
        start_frame: 0,
        frame_count: Some(44_100),
        disc_number: Some(1),
        track_number: 7,
        title: Some("Test Track".to_owned()),
        performer: Some("Test Artist".to_owned()),
        album: Some("Test Album".to_owned()),
    };
    ScannedAsset {
        asset,
        metadata: EmbeddedMetadata {
            title: Some("Test Track".to_owned()),
            artist: Some("Test Artist".to_owned()),
            album: Some("Test Album".to_owned()),
            album_artist: Some("Test Album Artist".to_owned()),
            composer: Some("Test Composer".to_owned()),
            genre: Some("Test Genre".to_owned()),
            date: Some("2026".to_owned()),
            track_number: Some(7),
            disc_number: Some(1),
            artwork: Some(EmbeddedArtwork { mime_type: Some("image/jpeg".to_owned()), data: vec![1, 2, 3] }),
        },
        normalized_metadata: NormalizedMetadata {
            source_path: asset_path.clone(),
            album: NormalizedAlbumMetadata {
                album: Some("Test Album".to_owned()),
                album_artist: Some("Test Album Artist".to_owned()),
                date: Some("2026".to_owned()),
                genre: Some("Test Genre".to_owned()),
            },
            track: NormalizedTrackMetadata {
                title: Some("Test Track".to_owned()),
                artist: Some("Test Artist".to_owned()),
                track_number: Some(7),
                disc_number: Some(1),
                composer: Some("Test Composer".to_owned()),
            },
        },
        tracks: vec![ScannedTrack { track, source_path: asset_path }],
    }
}

#[test]
fn scan_records_carry_asset_and_track_fields() {
    let (asset, tracks) = scan_records(&scanned_asset()).unwrap();
    assert_eq!(asset.path, "/music/test.flac");
    assert_eq!(asset.channels, 2);
    assert_eq!(asset.total_frames, Some(44_100));
    assert_eq!(asset.codec, None);
    assert_eq!(tracks.len(), 1);
    assert_eq!(tracks[0].title.as_deref(), Some("Test Track"));
    assert_eq!(tracks[0].album_artist.as_deref(), Some("Test Album Artist"));
    assert_eq!(tracks[0].composer.as_deref(), Some("Test Composer"));
    assert_eq!(tracks[0].track_number, 7);
    let artwork = tracks[0].artwork.as_ref().unwrap();
    assert_eq!(artwork.data, vec![1, 2, 3]);
    assert_eq!(artwork.mime_type.as_deref(), Some("image/jpeg"));
    assert_eq!(artwork.path, None);
}

#[test]
fn unstorable_assets_are_refused() {
    let mut scan = scanned_asset();
    scan.asset.bits_per_sample = 12;
    assert_eq!(
        scan_records(&scan).unwrap_err(),
        LibraryStoreError::InvalidBitsPerSample { path: "/music/test.flac".to_string() }
    );
    scan.asset.bits_per_sample = 16;
    scan.asset.channels = 70_000;
    assert_eq!(
        scan_records(&scan).unwrap_err(),
        LibraryStoreError::ChannelsOutOfRange { path: "/music/test.flac".to_string() }
    );
    scan.asset.channels = 0;
    assert_eq!(validate_asset(&scan.asset), Err(LibraryStoreError::InvalidChannels { path: "/music/test.flac".to_string() }));
    scan.asset.channels = 2;
    scan.asset.total_frames = None;
    assert_eq!(validate_asset(&scan.asset), Err(LibraryStoreError::MissingTotalFrames { path: "/music/test.flac".to_string() }));
    scan.asset.sample_rate = 0;
    assert_eq!(validate_asset(&scan.asset), Err(LibraryStoreError::InvalidSampleRate { path: "/music/test.flac".to_string() }));
}

#[test]
fn rows_map_back_to_playback_tracks() {
    let track = playback_track_from_row(1, 2, "/m/a.flac".to_string(), 44_100, 2, 16, 10, Some(20)).unwrap();
    assert_eq!(track.start_frame, 10);
    assert_eq!(track.frame_count, Some(20));
    assert_eq!(
        playback_track_from_row(1, 2, String::new(), 1, 1, 1, -1, None),
        Err(LibraryStoreError::NegativeFrameValue { field: "start_frame", value: -1 })
    );
    assert_eq!(
        playback_track_from_row(1, 2, String::new(), 1, 1, 1, 0, Some(-5)),
        Err(LibraryStoreError::NegativeFrameValue { field: "frame_count", value: -5 })
    );
    assert_eq!(non_negative_frame("x", 3), Ok(3));
    assert_eq!(number_from_column(-1), None);
    assert_eq!(number_from_column(4_294_967_296), None);
    assert_eq!(number_from_column(9), Some(9));
}

#[test]
fn names_are_trimmed_and_blank_names_dropped() {
    assert_eq!(normalize_optional_string(Some("  Artist \t")), Some("Artist".to_string()));
    assert_eq!(normalize_optional_string(Some("   ")), None);
    assert_eq!(normalize_optional_string(None), None);
    assert_eq!(stored_title(Some(" ")), "<untitled>");
    assert_eq!(stored_title(Some(" Song ")), "Song");
}

#[test]
fn track_rows_refuse_frames_beyond_i64() {
    let record = TrackRecord {
        title: None,
        artist: Some(" A ".to_string()),
        album: Some("".to_string()),
        album_artist: None,
        date: None,
        genre: None,
        composer: None,
        track_number: 3,
        disc_number: Some(1),
        start_frame: 5,
        frame_count: Some(10),
        artwork: None,
    };
    let row = track_row(&record).unwrap();
    assert_eq!(row.artist.as_deref(), Some("A"));
    assert_eq!(row.album, None);
    assert_eq!(row.title, "<untitled>");
    assert_eq!(row.start_frame, 5);
    assert_eq!(row.disc_number, Some(1));
    let big = TrackRecord { start_frame: u64::MAX, ..record.clone() };
    assert_eq!(
        track_row(&big),
        Err(DbError::Sql("out of range integral type conversion attempted".to_string()))
    );
    let big_count = TrackRecord { frame_count: Some(u64::MAX), ..record };
    assert!(track_row(&big_count).is_err());
}

#[test]
fn stale_tracks_and_missing_assets() {
    assert_eq!(stale_track_ids(&[1, 2, 3, 4], &[2, 4]), vec![1, 3]);
    let existing = vec![
        (1, "/music/a.flac".to_string()),
        (2, "/music/b.flac".to_string()),
        (3, "/other/c.flac".to_string()),
    ];
    assert_eq!(assets_missing_from_scan(&existing, "/music", &["/music/a.flac".to_string()]), vec![2]);
    assert_eq!(assets_missing_from_scan(&existing, "/musi", &[]), Vec::<i64>::new());
}

#[test]
fn stored_scan_from_persisted_asset() {
    let stored = StoredScan::from(PersistedAsset { asset_id: 4, track_ids: vec![5, 6] });
    assert_eq!(stored, StoredScan { asset_id: 4, track_ids: vec![5, 6] });
}

#[test]
fn only_clean_scans_prune_the_library() {
    let mut scan = ScanResult::default();
    scan.assets.push(scanned_asset());
    assert_eq!(paths_to_keep(&scan), Some(vec!["/music/test.flac".to_string()]));
    scan.errors.push(offline_player::scanner::ScanErrorRecord {
        path: "/music/bad.flac".to_string(),
        error: "probe failed".to_string(),
    });
    assert_eq!(paths_to_keep(&scan), None);
    let report = LibraryScanReport { root: "/music".to_string(), scan, stored: Vec::new() };
    assert_eq!(report.asset_count(), 1);
    assert_eq!(report.error_count(), 1);
    assert!(report.has_scan_errors());
    assert_eq!(report.persisted_count(), 0);
    assert_eq!(report.ignored_count(), 0);
}
