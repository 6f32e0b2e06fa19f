use offline_player::metadata_model::{
    select_artwork_index, CueMetadataOverride, EmbeddedArtwork, EmbeddedMetadata, NormalizedMetadata,
    NormalizedTrackMetadata, PictureRole,
};

#[test]
fn embedded_metadata_becomes_normalized_metadata() {
    let embedded = EmbeddedMetadata {
        title: Some("Original Title".to_string()),
        artist: Some("Original Artist".to_string()),
        album: Some("Original Album".to_string()),
        album_artist: Some("Album Artist".to_string()),
        composer: None,
        genre: Some("Soundtrack".to_string()),
        date: Some("1995".to_string()),
        track_number: Some(1),
        disc_number: Some(1),
        artwork: None,
    };

    let normalized = NormalizedMetadata::from_embedded("album.flac".to_string(), embedded);

    assert_eq!(normalized.track.title.as_deref(), Some("Original Title"));
    assert_eq!(normalized.track.artist.as_deref(), Some("Original Artist"));
    assert_eq!(normalized.album.album.as_deref(), Some("Original Album"));
    assert_eq!(normalized.album.album_artist.as_deref(), Some("Album Artist"));
}

#[test]
fn cue_can_override_track_title_and_artist() {
    let mut track = NormalizedTrackMetadata {
        title: Some("Embedded Title".to_string()),
        artist: Some("Embedded Artist".to_string()),
        track_number: Some(1),
        disc_number: Some(1),
        composer: None,
    };

    let cue = CueMetadataOverride {
        title: Some("CUE Title".to_string()),
        artist: Some("CUE Artist".to_string()),
        track_number: Some(7),
    };

    track.apply_cue_override(&cue);

    assert_eq!(track.title.as_deref(), Some("CUE Title"));
    assert_eq!(track.artist.as_deref(), Some("CUE Artist"));
    assert_eq!(track.track_number, Some(7));
    assert_eq!(track.disc_number, Some(1));
}

#[test]
fn absent_cue_values_do_not_destroy_embedded_metadata() {
    let mut track = NormalizedTrackMetadata {
        title: Some("Embedded Title".to_string()),
        artist: Some("Embedded Artist".to_string()),
        track_number: Some(3),
        disc_number: Some(1),
        composer: Some("Composer".to_string()),
    };

    let cue = CueMetadataOverride::default();

    track.apply_cue_override(&cue);

    assert_eq!(track.title.as_deref(), Some("Embedded Title"));
    assert_eq!(track.artist.as_deref(), Some("Embedded Artist"));
    assert_eq!(track.track_number, Some(3));
    assert_eq!(track.disc_number, Some(1));
    assert_eq!(track.composer.as_deref(), Some("Composer"));
}

#[test]
fn missing_tags_return_empty_metadata() {
    let metadata = EmbeddedMetadata::default();

    assert_eq!(metadata.title, None);
    assert_eq!(metadata.artist, None);
    assert_eq!(metadata.album, None);
    assert_eq!(metadata.album_artist, None);
    assert_eq!(metadata.composer, None);
    assert_eq!(metadata.genre, None);
    assert_eq!(metadata.date, None);
    assert_eq!(metadata.track_number, None);
    assert_eq!(metadata.disc_number, None);
    assert_eq!(metadata.artwork, None);
}

#[test]
fn empty_picture_list_has_no_artwork() {
    assert_eq!(select_artwork_index(&[]), None);
}

#[test]
fn artwork_prefers_front_cover_then_other_then_first() {
    let (front, other, unlisted) = (PictureRole::CoverFront, PictureRole::Other, PictureRole::Unlisted);
    assert_eq!(select_artwork_index(&[unlisted, other, front, front]), Some(2));
    assert_eq!(select_artwork_index(&[unlisted, other, other]), Some(1));
    assert_eq!(select_artwork_index(&[unlisted, unlisted]), Some(0));
}

#[test]
fn applying_an_override_twice_equals_once() {
    let base = NormalizedTrackMetadata {
        title: Some("A".to_string()),
        artist: None,
        track_number: Some(2),
        disc_number: None,
        composer: None,
    };
    let cue = CueMetadataOverride { title: None, artist: Some("B".to_string()), track_number: Some(9) };
    let mut once = base.clone();
    once.apply_cue_override(&cue);
    let mut twice = once.clone();
    twice.apply_cue_override(&cue);
    assert_eq!(once, twice);
    assert_eq!(once.title.as_deref(), Some("A"));
    assert_eq!(once.artist.as_deref(), Some("B"));
    assert_eq!(once.track_number, Some(9));
}

#[test]
fn default_artwork_is_empty() {
    let artwork = EmbeddedArtwork::default();
    assert_eq!(artwork.mime_type, None);
    assert!(artwork.data.is_empty());
}
