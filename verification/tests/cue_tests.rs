use offline_player::cue::{parse, track_start_frames, CueError, CueTime};

#[test]
fn parses_standard_cue_sheet() {
    let input = r#"
FILE "album.flac" WAVE
  TRACK 01 AUDIO
    TITLE "First Song"
    PERFORMER "Artist"
    INDEX 01 00:00:00

  TRACK 02 AUDIO
    TITLE "Second Song"
    PERFORMER "Artist"
    INDEX 01 03:42:15
"#;

    let sheet = parse(input).unwrap();

    assert_eq!(sheet.file, Some("album.flac".to_string()));
    assert_eq!(sheet.tracks.len(), 2);
    assert_eq!(sheet.tracks[0].number, 1);
    assert_eq!(sheet.tracks[0].title.as_deref(), Some("First Song"));
    assert_eq!(sheet.tracks[0].performer.as_deref(), Some("Artist"));
    assert_eq!(
        sheet.tracks[0].index_01,
        Some(CueTime { minutes: 0, seconds: 0, frames: 0 })
    );
    assert_eq!(
        sheet.tracks[1].index_01,
        Some(CueTime { minutes: 3, seconds: 42, frames: 15 })
    );
}

#[test]
fn cue_time_validates_ranges() {
    assert!(CueTime::parse("03:42:15").is_ok());
    assert_eq!(
        CueTime::parse("03:60:00"),
        Err(CueError::InvalidTimecode { value: "03:60:00".to_string() })
    );
    assert_eq!(
        CueTime::parse("03:42:75"),
        Err(CueError::InvalidTimecode { value: "03:42:75".to_string() })
    );
}

#[test]
fn converts_one_second_to_source_frame() {
    let time = CueTime::parse("00:01:00").unwrap();
    assert_eq!(time.to_source_frame(44_100).unwrap(), 44_100);
    assert_eq!(time.to_source_frame(48_000).unwrap(), 48_000);
}

#[test]
fn converts_three_minutes_and_fraction() {
    let time = CueTime::parse("03:42:15").unwrap();
    assert_eq!(time.to_source_frame(44_100).unwrap(), 9_799_020);
}

#[test]
fn converts_subsecond_cue_time_without_float() {
    let time = CueTime::parse("00:00:37").unwrap();
    // floor(37 * 44100 / 75) = 21756.
    assert_eq!(time.to_source_frame(44_100).unwrap(), 21_756);
}

#[test]
fn produces_track_start_frames() {
    let input = r#"
FILE "album.flac" WAVE
TRACK 01 AUDIO
TITLE "First"
INDEX 01 00:00:00
TRACK 02 AUDIO
TITLE "Second"
INDEX 01 03:42:15
TRACK 03 AUDIO
TITLE "Third"
INDEX 01 05:00:00
"#;

    let sheet = parse(input).unwrap();
    let frames = track_start_frames(&sheet, 44_100).unwrap();
    assert_eq!(frames, vec![(1, 0), (2, 9_799_020), (3, 13_230_000)]);
}

#[test]
fn rejects_track_before_file() {
    let input = r#"
TRACK 01 AUDIO
INDEX 01 00:00:00
"#;
    assert_eq!(parse(input), Err(CueError::TrackWithoutFile));
}

#[test]
fn rejects_index_before_track() {
    let input = r#"
FILE "album.flac" WAVE
INDEX 01 00:00:00
"#;
    assert_eq!(parse(input), Err(CueError::IndexWithoutTrack));
}

#[test]
fn rejects_duplicate_track() {
    let input = r#"
FILE "album.flac" WAVE
TRACK 01 AUDIO
INDEX 01 00:00:00
TRACK 01 AUDIO
INDEX 01 01:00:00
"#;
    assert_eq!(parse(input), Err(CueError::DuplicateTrack(1)));
}

#[test]
fn rejects_missing_index() {
    let input = r#"
FILE "album.flac" WAVE
TRACK 01 AUDIO
TITLE "First"
"#;
    assert_eq!(parse(input), Err(CueError::MissingIndex01(1)));
}

#[test]
fn parsed_sheet_always_has_file_tracks_and_indexes() {
    // Every sheet that parses names a file, has tracks and indexes them all.
    let input = "FILE \"x.wav\" WAVE\nTRACK 05 AUDIO\nINDEX 01 00:00:01\n";
    let sheet = parse(input).unwrap();
    assert!(sheet.file.is_some());
    assert_eq!(sheet.tracks.len(), 1);
    assert_eq!(sheet.tracks[0].number, 5);
    assert_eq!(sheet.tracks[0].index_01, Some(CueTime { minutes: 0, seconds: 0, frames: 1 }));
}

#[test]
fn empty_input_is_rejected() {
    assert_eq!(parse("   \n  \n"), Err(CueError::Empty));
}

#[test]
fn sheet_without_tracks_is_rejected() {
    assert_eq!(parse("FILE \"a.flac\" WAVE\n"), Err(CueError::NoTracks));
}

#[test]
fn duplicate_index_is_rejected() {
    let input = "FILE \"a.flac\" WAVE\nTRACK 01 AUDIO\nINDEX 01 00:00:00\nINDEX 01 00:01:00\n";
    assert_eq!(parse(input), Err(CueError::DuplicateIndex01(1)));
}

#[test]
fn zero_sample_rate_is_rejected() {
    let time = CueTime::parse("00:01:00").unwrap();
    assert_eq!(time.to_source_frame(0), Err(CueError::InvalidSampleRate));
}

#[test]
fn out_of_order_starts_are_rejected() {
    let input = "FILE \"a.flac\" WAVE\nTRACK 01 AUDIO\nINDEX 01 00:02:00\nTRACK 02 AUDIO\nINDEX 01 00:01:00\n";
    let sheet = parse(input).unwrap();
    assert!(matches!(
        track_start_frames(&sheet, 44_100),
        Err(CueError::InvalidLine { .. })
    ));
}
