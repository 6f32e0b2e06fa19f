use vstd::prelude::*;

use crate::db::{ArtworkRecord, AssetRecord, PersistedAsset, TrackRecord};
use crate::library::AudioAsset;
use crate::metadata_model::{EmbeddedArtwork, NormalizedMetadata};
use crate::playback_model::PlaybackTrack;
use crate::scanner::{ScannedAsset, ScannedTrack};
use crate::text::clone_text;

verus! {

#[derive(Debug, Clone, PartialEq, Eq)]
pub enum LibraryStoreError {
    Db(crate::db::DbError),
    Sqlite(String),
    MissingTotalFrames { path: String },
    InvalidSampleRate { path: String },
    InvalidChannels { path: String },
    InvalidBitsPerSample { path: String },
    ChannelsOutOfRange { path: String },
    NegativeFrameValue { field: &'static str, value: i64 },
}

/// The ids a stored scan got.
#[derive(Debug, Clone, PartialEq, Eq)]
pub struct StoredScan {
    pub asset_id: i64,
    pub track_ids: Vec<i64>,
}

impl From<PersistedAsset> for StoredScan {
    fn from(value: PersistedAsset) -> (r: Self) {
        StoredScan { asset_id: value.asset_id, track_ids: value.track_ids }
    }
}

impl vstd::std_specs::convert::FromSpecImpl<PersistedAsset> for StoredScan {
    open spec fn obeys_from_spec() -> bool {
        true
    }

    open spec fn from_spec(v: PersistedAsset) -> StoredScan {
        StoredScan { asset_id: v.asset_id, track_ids: v.track_ids }
    }
}

/// The tags stored for a track.
#[derive(Debug, Clone, PartialEq, Eq)]
pub struct TrackMetadata {
    pub title: Option<String>,
    pub artist: Option<String>,
    pub album: Option<String>,
    pub album_artist: Option<String>,
    pub composer: Option<String>,
    pub date: Option<String>,
    pub genre: Option<String>,
    pub track_number: u32,
    pub disc_number: Option<u32>,
}

/// Whether an asset may be stored: a rate, channels, an integer depth of 8,
/// 16, 24 or 32 bits, and a known length.
pub open spec fn asset_storable(asset: AudioAsset) -> bool {
    &&& asset.sample_rate != 0
    &&& asset.channels != 0
    &&& (asset.bits_per_sample == 8 || asset.bits_per_sample == 16 || asset.bits_per_sample == 24
        || asset.bits_per_sample == 32)
    &&& asset.total_frames is Some
}

/// The first reason an asset cannot be stored.
pub open spec fn asset_error(asset: AudioAsset) -> LibraryStoreError {
    if asset.sample_rate == 0 {
        LibraryStoreError::InvalidSampleRate { path: asset.path }
    } else if asset.channels == 0 {
        LibraryStoreError::InvalidChannels { path: asset.path }
    } else if !(asset.bits_per_sample == 8 || asset.bits_per_sample == 16 || asset.bits_per_sample
        == 24 || asset.bits_per_sample == 32) {
        LibraryStoreError::InvalidBitsPerSample { path: asset.path }
    } else {
        LibraryStoreError::MissingTotalFrames { path: asset.path }
    }
}

pub fn validate_asset(asset: &AudioAsset) -> (r: Result<(), LibraryStoreError>)
    ensures
        asset_storable(*asset) ==> r is Ok,
        !asset_storable(*asset) ==> r == Err::<(), LibraryStoreError>(asset_error(*asset)),
{
    if asset.sample_rate == 0 {
        return Err(LibraryStoreError::InvalidSampleRate { path: asset.path.clone() });
    }
    if asset.channels == 0 {
        return Err(LibraryStoreError::InvalidChannels { path: asset.path.clone() });
    }
    if !(asset.bits_per_sample == 8 || asset.bits_per_sample == 16 || asset.bits_per_sample == 24
        || asset.bits_per_sample == 32) {
        return Err(LibraryStoreError::InvalidBitsPerSample { path: asset.path.clone() });
    }
    if asset.total_frames.is_none() {
        return Err(LibraryStoreError::MissingTotalFrames { path: asset.path.clone() });
    }
    Ok(())
}

fn copy_bytes(bytes: &[u8]) -> (r: Vec<u8>)
    ensures
        r@ == bytes@,
{
    let mut out: Vec<u8> = Vec::new();
    let mut i: usize = 0;
    while i < bytes.len()
        invariant
            i <= bytes@.len(),
            out@ == bytes@.take(i as int),
        decreases bytes@.len() - i,
    {
        out.push(bytes[i]);
        assert(bytes@.take(i + 1) =~= bytes@.take(i as int).push(bytes@[i as int]));
        i = i + 1;
    }
    assert(bytes@.take(bytes@.len() as int) =~= bytes@);
    out
}

/// The record stored for a scanned track: the track's own title, performer,
/// album, numbers and frame range, and the file's album artist, date, genre,
/// composer and artwork.
pub open spec fn track_record_matches(
    r: TrackRecord,
    scanned: ScannedTrack,
    normalized: NormalizedMetadata,
    artwork: Option<EmbeddedArtwork>,
) -> bool {
    &&& r.title == scanned.track.title
    &&& r.artist == scanned.track.performer
    &&& r.album == scanned.track.album
    &&& r.album_artist == normalized.album.album_artist
    &&& r.date == normalized.album.date
    &&& r.genre == normalized.album.genre
    &&& r.composer == normalized.track.composer
    &&& r.track_number == scanned.track.track_number
    &&& r.disc_number == scanned.track.disc_number
    &&& r.start_frame == scanned.track.start_frame
    &&& r.frame_count == scanned.track.frame_count
    &&& match (artwork, r.artwork) {
        (None, None) => true,
        (Some(a), Some(s)) => s.mime_type == a.mime_type && s.path is None && s.data@ == a.data@
            && s.width is None && s.height is None,
        _ => false,
    }
}

pub fn track_record_from_scanned(
    scanned: &ScannedTrack,
    normalized: &NormalizedMetadata,
    artwork: Option<&EmbeddedArtwork>,
) -> (r: TrackRecord)
    ensures
        track_record_matches(
            r,
            *scanned,
            *normalized,
            match artwork {
                Some(a) => Some(*a),
                None => None,
            },
        ),
{
    let artwork = match artwork {
        Some(a) => Some(
            ArtworkRecord {
                mime_type: clone_text(&a.mime_type),
                path: None,
                data: copy_bytes(a.data.as_slice()),
                width: None,
                height: None,
            },
        ),
        None => None,
    };
    TrackRecord {
        title: clone_text(&scanned.track.title),
        artist: clone_text(&scanned.track.performer),
        album: clone_text(&scanned.track.album),
        album_artist: clone_text(&normalized.album.album_artist),
        date: clone_text(&normalized.album.date),
        genre: clone_text(&normalized.album.genre),
        composer: clone_text(&normalized.track.composer),
        track_number: scanned.track.track_number,
        disc_number: scanned.track.disc_number,
        start_frame: scanned.track.start_frame,
        frame_count: scanned.track.frame_count,
        artwork,
    }
}

/// The records a scanned asset is stored as: the asset row and one track row
/// per track, in order. Refused when the asset is not storable or has more
/// channels than a `u16` holds.
pub fn scan_records(scanned: &ScannedAsset) -> (r: Result<(AssetRecord, Vec<TrackRecord>), LibraryStoreError>)
    ensures
        !asset_storable(scanned.asset) ==> r == Err::<(AssetRecord, Vec<TrackRecord>), LibraryStoreError>(
            asset_error(scanned.asset),
        ),
        asset_storable(scanned.asset) && scanned.asset.channels > u16::MAX ==> r == Err::<
            (AssetRecord, Vec<TrackRecord>),
            LibraryStoreError,
        >(LibraryStoreError::ChannelsOutOfRange { path: scanned.asset.path }),
        asset_storable(scanned.asset) && scanned.asset.channels <= u16::MAX ==> (r matches Ok(
            (asset, tracks),
        ) && {
            &&& asset == (AssetRecord {
                path: scanned.asset.path,
                sample_rate: scanned.asset.sample_rate,
                channels: scanned.asset.channels as u16,
                bits_per_sample: scanned.asset.bits_per_sample,
                total_frames: scanned.asset.total_frames,
                codec: None,
            })
            &&& tracks@.len() == scanned.tracks@.len()
            &&& forall|i: int|
                0 <= i < tracks@.len() ==> track_record_matches(
                    #[trigger] tracks@[i],
                    scanned.tracks@[i],
                    scanned.normalized_metadata,
                    scanned.metadata.artwork,
                )
        }),
{
    match validate_asset(&scanned.asset) {
        Ok(()) => {},
        Err(e) => {
            return Err(e);
        },
    }
    let total_frames = match scanned.asset.total_frames {
        Some(t) => t,
        None => {
            return Err(LibraryStoreError::MissingTotalFrames { path: scanned.asset.path.clone() });
        },
    };
    if scanned.asset.channels > 0xffff {
        return Err(LibraryStoreError::ChannelsOutOfRange { path: scanned.asset.path.clone() });
    }
    let asset = AssetRecord {
        path: scanned.asset.path.clone(),
        sample_rate: scanned.asset.sample_rate,
        channels: scanned.asset.channels as u16,
        bits_per_sample: scanned.asset.bits_per_sample,
        total_frames: Some(total_frames),
        codec: None,
    };
    let artwork: Option<&EmbeddedArtwork> = match &scanned.metadata.artwork {
        Some(a) => Some(a),
        None => None,
    };
    let mut tracks: Vec<TrackRecord> = Vec::new();
    let mut i: usize = 0;
    while i < scanned.tracks.len()
        invariant
            i <= scanned.tracks@.len(),
            tracks@.len() == i,
            match artwork {
                Some(a) => scanned.metadata.artwork == Some(*a),
                None => scanned.metadata.artwork is None,
            },
            forall|j: int|
                0 <= j < i ==> track_record_matches(
                    #[trigger] tracks@[j],
                    scanned.tracks@[j],
                    scanned.normalized_metadata,
                    scanned.metadata.artwork,
                ),
        decreases scanned.tracks@.len() - i,
    {
        tracks.push(track_record_from_scanned(&scanned.tracks[i], &scanned.normalized_metadata, artwork));
        i = i + 1;
    }
    Ok((asset, tracks))
}

/// A frame value read back from SQLite; negative values are refused.
pub fn non_negative_frame(field: &'static str, value: i64) -> (r: Result<u64, LibraryStoreError>)
    ensures
        value >= 0 ==> r == Ok::<u64, LibraryStoreError>(value as u64),
        value < 0 ==> r == Err::<u64, LibraryStoreError>(
            LibraryStoreError::NegativeFrameValue { field, value },
        ),
{
    if value < 0 {
        return Err(LibraryStoreError::NegativeFrameValue { field, value });
    }
    Ok(value as u64)
}

/// The playback track a joined track/asset row describes.
pub fn playback_track_from_row(
    track_id: i64,
    asset_id: i64,
    path: String,
    sample_rate: u32,
    channels: u16,
    bits_per_sample: u16,
    start_frame_raw: i64,
    frame_count_raw: Option<i64>,
) -> (r: Result<PlaybackTrack, LibraryStoreError>)
    ensures
        start_frame_raw < 0 ==> r == Err::<PlaybackTrack, LibraryStoreError>(
            LibraryStoreError::NegativeFrameValue { field: "start_frame", value: start_frame_raw },
        ),
        start_frame_raw >= 0 && (frame_count_raw matches Some(c) && c < 0) ==> r == Err::<
            PlaybackTrack,
            LibraryStoreError,
        >(LibraryStoreError::NegativeFrameValue { field: "frame_count", value: frame_count_raw->0 }),
        start_frame_raw >= 0 && !(frame_count_raw matches Some(c) && c < 0) ==> r == Ok::<
            PlaybackTrack,
            LibraryStoreError,
        >(
            PlaybackTrack {
                track_id,
                asset_id,
                path,
                sample_rate,
                channels,
                bits_per_sample,
                start_frame: start_frame_raw as u64,
                frame_count: match frame_count_raw {
                    Some(c) => Some(c as u64),
                    None => None,
                },
            },
        ),
{
    let start_frame = match non_negative_frame("start_frame", start_frame_raw) {
        Ok(v) => v,
        Err(e) => {
            return Err(e);
        },
    };
    let frame_count = match frame_count_raw {
        Some(value) => match non_negative_frame("frame_count", value) {
            Ok(v) => Some(v),
            Err(e) => {
                return Err(e);
            },
        },
        None => None,
    };
    Ok(
        PlaybackTrack {
            track_id,
            asset_id,
            path,
            sample_rate,
            channels,
            bits_per_sample,
            start_frame,
            frame_count,
        },
    )
}

/// A stored track or disc number read back as `u32`; out-of-range values are
/// refused.
pub fn number_from_column(value: i64) -> (r: Option<u32>)
    ensures
        0 <= value <= u32::MAX ==> r == Some(value as u32),
        !(0 <= value <= u32::MAX) ==> r is None,
{
    if 0 <= value && value <= 0xffff_ffff {
        Some(value as u32)
    } else {
        None
    }
}

} // verus!
