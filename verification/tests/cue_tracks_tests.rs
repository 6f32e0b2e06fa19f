use offline_player::cue::{parse, CueError, CueSheet};
use offline_player::cue_tracks::build_tracks;
use offline_player::library::{AudioAssetId, TrackId, TrackIndex};

fn sheet() -> CueSheet {
    parse(
        r#"
FILE "album.flac" WAVE

TRACK 01 AUDIO
TITLE "First Song"
PERFORMER "Artist"
INDEX 01 00:00:00

TRACK 02 AUDIO
TITLE "Second Song"
PERFORMER "Artist"
INDEX 01 00:01:00

TRACK 03 AUDIO
TITLE "Third Song"
PERFORMER "Artist"
INDEX 01 00:03:00
"#,
    )
    .unwrap()
}

#[test]
fn builds_frame_ranges_from_next_track() {
    let tracks = build_tracks(AudioAssetId(7), 220_500, 44_100, &sheet(), TrackId(100)).unwrap();

    assert_eq!(tracks.len(), 3);
    // Track 1: 0 .. 44100
    assert_eq!(tracks[0].track.start_frame, 0);
    assert_eq!(tracks[0].track.frame_count, Some(44_100));
    // Track 2: 44100 .. 132300
    assert_eq!(tracks[1].track.start_frame, 44_100);
    assert_eq!(tracks[1].track.frame_count, Some(88_200));
    // Track 3: 132300 .. EOF 220500
    assert_eq!(tracks[2].track.start_frame, 132_300);
    assert_eq!(tracks[2].track.frame_count, Some(88_200));
}

#[test]
fn preserves_track_metadata() {
    let tracks = build_tracks(AudioAssetId(99), 220_500, 44_100, &sheet(), TrackId(500)).unwrap();

    assert_eq!(tracks[0].track.id, TrackId(500));
    assert_eq!(tracks[1].track.id, TrackId(501));
    assert_eq!(tracks[2].track.id, TrackId(502));
    assert_eq!(tracks[0].track.asset_id, AudioAssetId(99));
    assert_eq!(tracks[1].track.title.as_deref(), Some("Second Song"));
    assert_eq!(tracks[1].track.performer.as_deref(), Some("Artist"));
    assert_eq!(tracks[0].source_file, "album.flac".to_string());
}

#[test]
fn rejects_track_start_after_eof() {
    let source = parse(
        r#"
FILE "album.flac" WAVE

TRACK 01 AUDIO
TITLE "First"
INDEX 01 00:10:00
"#,
    )
    .unwrap();

    let result = build_tracks(AudioAssetId(1), 44_100, 44_100, &source, TrackId(1));
    assert!(matches!(result, Err(CueError::InvalidLine { .. })));
}

#[test]
fn rejects_zero_length_track() {
    let source = parse(
        r#"
FILE "album.flac" WAVE

TRACK 01 AUDIO
TITLE "First"
INDEX 01 00:00:00

TRACK 02 AUDIO
TITLE "Second"
INDEX 01 00:00:00
"#,
    )
    .unwrap();

    let result = build_tracks(AudioAssetId(1), 44_100, 44_100, &source, TrackId(1));
    assert!(matches!(result, Err(CueError::InvalidLine { .. })));
}

#[test]
fn built_tracks_tile_the_asset_and_validate() {
    let built = build_tracks(AudioAssetId(7), 220_500, 44_100, &sheet(), TrackId(1)).unwrap();
    let tracks: Vec<_> = built.iter().map(|b| b.track.clone()).collect();
    for pair in tracks.windows(2) {
        assert_eq!(pair[0].end_frame(), Some(pair[1].start_frame));
    }
    assert_eq!(tracks[2].end_frame(), Some(220_500));
    assert_eq!(TrackIndex::new(tracks).validate(), Ok(()));
}

#[test]
fn rejects_zero_sample_rate_and_empty_sheet() {
    assert_eq!(
        build_tracks(AudioAssetId(1), 10, 0, &sheet(), TrackId(1)),
        Err(CueError::InvalidSampleRate)
    );
    let empty = CueSheet { file: Some("a.flac".to_string()), tracks: Vec::new() };
    assert_eq!(
        build_tracks(AudioAssetId(1), 10, 44_100, &empty, TrackId(1)),
        Err(CueError::NoTracks)
    );
}

#[test]
fn after_eof_message_names_track_and_frames() {
    let source = parse("FILE \"a.flac\" WAVE\nTRACK 03 AUDIO\nINDEX 01 00:10:00\n").unwrap();
    let result = build_tracks(AudioAssetId(1), 44_100, 44_100, &source, TrackId(1));
    assert_eq!(
        result,
        Err(CueError::InvalidLine {
            line: 0,
            message: "TRACK 3 starts after asset EOF: 441000 > 44100".to_string()
        })
    );
}
