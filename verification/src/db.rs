use vstd::prelude::*;

use crate::lexical::{trim_range, trimmed};
use crate::text::{chars_of, string_from_range};

verus! {

#[derive(Debug, Clone, PartialEq, Eq)]
pub enum DbError {
    Sql(String),
    UnsupportedSchemaVersion(i64),
}

/// An audio file as the library database stores it.
#[derive(Debug, Clone, PartialEq, Eq)]
pub struct AssetRecord {
    pub path: String,
    pub sample_rate: u32,
    pub channels: u16,
    pub bits_per_sample: u16,
    pub total_frames: Option<u64>,
    pub codec: Option<String>,
}

/// Album artwork as the library database stores it.
#[derive(Debug, Clone, PartialEq, Eq)]
pub struct ArtworkRecord {
    pub mime_type: Option<String>,
    pub path: Option<String>,
    pub data: Vec<u8>,
    pub width: Option<u32>,
    pub height: Option<u32>,
}

/// A track as handed to the library database.
#[derive(Debug, Clone, PartialEq, Eq)]
pub struct TrackRecord {
    pub title: Option<String>,
    pub artist: Option<String>,
    pub album: Option<String>,
    pub album_artist: Option<String>,
    pub date: Option<String>,
    pub genre: Option<String>,
    pub composer: Option<String>,
    pub track_number: u32,
    pub disc_number: Option<u32>,
    pub start_frame: u64,
    pub frame_count: Option<u64>,
    pub artwork: Option<ArtworkRecord>,
}

/// The ids an asset and its tracks got in the database.
#[derive(Debug, Clone, PartialEq, Eq)]
pub struct PersistedAsset {
    pub asset_id: i64,
    pub track_ids: Vec<i64>,
}

/// Album artwork as read back from the database.
#[derive(Debug, Clone, PartialEq, Eq)]
pub struct StoredArtwork {
    pub mime_type: Option<String>,
    pub path: Option<String>,
    pub data: Vec<u8>,
    pub width: Option<u32>,
    pub height: Option<u32>,
}

/// A name as stored: without surrounding whitespace, and absent when nothing
/// else is left.
pub open spec fn normalized_name(value: Option<Seq<char>>) -> Option<Seq<char>> {
    match value {
        Some(s) => {
            let (a, b) = trimmed(s, 0, s.len() as int);
            if a < b {
                Some(s.subrange(a, b))
            } else {
                None
            }
        },
        None => None,
    }
}

/// The view of an optional text.
pub open spec fn opt_view(value: Option<&str>) -> Option<Seq<char>> {
    match value {
        Some(s) => Some(s@),
        None => None,
    }
}

pub open spec fn opt_string_view(value: Option<String>) -> Option<Seq<char>> {
    match value {
        Some(s) => Some(s@),
        None => None,
    }
}

/// Trims an optional name and drops it when it is blank.
pub fn normalize_optional_string(value: Option<&str>) -> (r: Option<String>)
    ensures
        opt_string_view(r) == normalized_name(opt_view(value)),
{
    match value {
        Some(s) => {
            let chars = chars_of(s);
            let (a, b) = trim_range(chars.as_slice(), 0, chars.len());
            if a < b {
                Some(string_from_range(chars.as_slice(), a, b))
            } else {
                None
            }
        },
        None => None,
    }
}

/// The title stored for a track: its trimmed title, or `<untitled>`.
pub open spec fn stored_title_of(title: Option<Seq<char>>) -> Seq<char> {
    match normalized_name(title) {
        Some(t) => t,
        None => "<untitled>"@,
    }
}

pub fn stored_title(title: Option<&str>) -> (r: String)
    ensures
        r@ == stored_title_of(opt_view(title)),
{
    match normalize_optional_string(title) {
        Some(t) => t,
        None => "<untitled>".to_owned(),
    }
}

/// The column values of a track row, with the names already normalized.
#[derive(Debug, Clone, PartialEq, Eq)]
pub struct TrackRow {
    pub artist: Option<String>,
    pub album_artist: Option<String>,
    pub album: Option<String>,
    pub title: String,
    pub track_number: i64,
    pub disc_number: Option<i64>,
    pub start_frame: i64,
    pub frame_count: Option<i64>,
}

/// `i64::try_from(u64)`. Trusted: as its documentation says, it succeeds
/// exactly on values that fit in `i64`, and then gives that value.
#[verifier::external_body]
fn i64_from_u64(value: u64) -> (r: Result<i64, std::num::TryFromIntError>)
    ensures
        r is Ok <==> value <= i64::MAX,
        r matches Ok(x) ==> x == value,
{
    i64::try_from(value)
}

/// The text of an integer conversion error, as `std` displays it. Trusted for
/// nothing: the text is `std`'s and is left unsaid.
#[verifier::external_body]
fn conversion_error_text(error: &std::num::TryFromIntError) -> (r: String) {
    error.to_string()
}

/// A frame value as SQLite stores it; one beyond `i64` is refused with the
/// conversion error's text.
fn frame_value(value: u64) -> (r: Result<i64, DbError>)
    ensures
        r is Ok <==> value <= i64::MAX,
        r matches Ok(x) ==> x == value,
        r matches Err(e) ==> e is Sql,
{
    match i64_from_u64(value) {
        Ok(x) => Ok(x),
        Err(error) => Err(DbError::Sql(conversion_error_text(&error))),
    }
}

/// The row a track record is stored as; frame values beyond `i64` are refused.
pub fn track_row(track: &TrackRecord) -> (r: Result<TrackRow, DbError>)
    ensures
        track.start_frame > i64::MAX || (track.frame_count matches Some(c) && c > i64::MAX) <==> r is Err,
        r matches Err(e) ==> e is Sql,
        r matches Ok(row) ==> {
            &&& opt_string_view(row.artist) == normalized_name(opt_string_view(track.artist))
            &&& opt_string_view(row.album_artist) == normalized_name(opt_string_view(track.album_artist))
            &&& opt_string_view(row.album) == normalized_name(opt_string_view(track.album))
            &&& row.title@ == stored_title_of(opt_string_view(track.title))
            &&& row.track_number == track.track_number as i64
            &&& row.disc_number == match track.disc_number {
                Some(d) => Some(d as i64),
                None => None,
            }
            &&& row.start_frame == track.start_frame as i64
            &&& row.frame_count == match track.frame_count {
                Some(c) => Some(c as i64),
                None => None,
            }
        },
{
    let artist = normalize_optional_string(as_text(&track.artist));
    let album_artist = normalize_optional_string(as_text(&track.album_artist));
    let album = normalize_optional_string(as_text(&track.album));
    let title = stored_title(as_text(&track.title));
    let start_frame = match frame_value(track.start_frame) {
        Ok(x) => x,
        Err(e) => return Err(e),
    };
    let frame_count: Option<i64> = match track.frame_count {
        Some(c) => match frame_value(c) {
            Ok(x) => Some(x),
            Err(e) => return Err(e),
        },
        None => None,
    };
    let disc_number: Option<i64> = match track.disc_number {
        Some(d) => Some(d as i64),
        None => None,
    };
    Ok(
        TrackRow {
            artist,
            album_artist,
            album,
            title,
            track_number: track.track_number as i64,
            disc_number,
            start_frame,
            frame_count,
        },
    )
}

fn as_text(value: &Option<String>) -> (r: Option<&str>)
    ensures
        opt_view(r) == opt_string_view(*value),
{
    match value {
        Some(s) => Some(s.as_str()),
        None => None,
    }
}

/// Whether an id is missing from `persisted`.
pub open spec fn not_persisted(persisted: Seq<i64>) -> spec_fn(i64) -> bool {
    |id: i64| !persisted.contains(id)
}

/// The ids of an asset's tracks that the latest store did not write, in their
/// order; these rows are deleted.
pub fn stale_track_ids(existing: &[i64], persisted: &[i64]) -> (r: Vec<i64>)
    ensures
        r@ == existing@.filter(not_persisted(persisted@)),
{
    let mut out: Vec<i64> = Vec::new();
    let mut i: usize = 0;
    while i < existing.len()
        invariant
            i <= existing@.len(),
            out@ == existing@.take(i as int).filter(not_persisted(persisted@)),
        decreases existing@.len() - i,
    {
        let id = existing[i];
        let mut found = false;
        let mut j: usize = 0;
        while j < persisted.len()
            invariant
                j <= persisted@.len(),
                found <==> exists|k: int| 0 <= k < j && persisted@[k] == id,
            decreases persisted@.len() - j,
        {
            if persisted[j] == id {
                found = true;
            }
            j = j + 1;
        }
        proof {
            reveal(Seq::filter);
            assert(existing@.take(i + 1).drop_last() =~= existing@.take(i as int));
            assert(existing@.take(i + 1).last() == id);
            if found {
                let k = choose|k: int| 0 <= k < persisted@.len() && persisted@[k] == id;
                assert(persisted@.contains(id));
            } else {
                assert(!persisted@.contains(id));
            }
        }
        if !found {
            out.push(id);
        }
        i = i + 1;
    }
    assert(existing@.take(existing@.len() as int) =~= existing@);
    out
}

/// `std::path::Path::starts_with`: whether `base` is a whole-component prefix
/// of `path`.
pub uninterp spec fn path_starts_with_of(path: Seq<char>, base: Seq<char>) -> bool;

/// `==` on `std::path::Path`: component-wise equality.
pub uninterp spec fn path_equal_of(a: Seq<char>, b: Seq<char>) -> bool;

/// `Path::starts_with`. Trusted: the result is the named answer for the texts.
#[verifier::external_body]
fn path_starts_with(path: &str, base: &str) -> (r: bool)
    ensures
        r == path_starts_with_of(path@, base@),
{
    std::path::Path::new(path).starts_with(base)
}

/// `==` on `Path`. Trusted: the result is the named answer for the texts.
#[verifier::external_body]
fn path_equal(a: &str, b: &str) -> (r: bool)
    ensures
        r == path_equal_of(a@, b@),
{
    std::path::Path::new(a) == std::path::Path::new(b)
}

/// Whether the scan found a stored path.
pub open spec fn scanned_contains(scanned: Seq<String>, path: Seq<char>) -> bool {
    exists|k: int| 0 <= k < scanned.len() && path_equal_of(path, #[trigger] scanned[k]@)
}

/// Whether a stored asset is removed after scanning `root`: it lies under the
/// root and the scan did not find it.
pub open spec fn asset_gone(path: Seq<char>, root: Seq<char>, scanned: Seq<String>) -> bool {
    path_starts_with_of(path, root) && !scanned_contains(scanned, path)
}

/// The entries of stored assets a scan of `root` no longer found.
pub open spec fn gone(root: Seq<char>, scanned: Seq<String>) -> spec_fn((i64, String)) -> bool {
    |e: (i64, String)| asset_gone(e.1@, root, scanned)
}

/// The id of a stored asset entry.
pub open spec fn entry_id() -> spec_fn((i64, String)) -> i64 {
    |e: (i64, String)| e.0
}

/// The ids of stored assets that a scan of `root` no longer found, in the
/// order they are listed. Assets outside the root are kept.
pub fn assets_missing_from_scan(existing: &[(i64, String)], root: &str, scanned: &[String]) -> (r: Vec<i64>)
    ensures
        r@ == existing@.filter(gone(root@, scanned@)).map_values(
            entry_id(),
        ),
{
    let mut out: Vec<i64> = Vec::new();
    let mut i: usize = 0;
    while i < existing.len()
        invariant
            i <= existing@.len(),
            out@ == existing@.take(i as int).filter(gone(root@, scanned@)).map_values(
                entry_id(),
            ),
        decreases existing@.len() - i,
    {
        let (id, path) = (existing[i].0, existing[i].1.as_str());
        let inside = path_starts_with(path, root);
        let mut found = false;
        let mut j: usize = 0;
        while j < scanned.len()
            invariant
                j <= scanned@.len(),
                found <==> exists|k: int| 0 <= k < j && path_equal_of(path@, #[trigger] scanned@[k]@),
            decreases scanned@.len() - j,
        {
            if path_equal(path, scanned[j].as_str()) {
                found = true;
            }
            j = j + 1;
        }
        proof {
            reveal(Seq::filter);
            let f = gone(root@, scanned@);
            assert(existing@.take(i + 1).drop_last() =~= existing@.take(i as int));
            assert(existing@.take(i + 1).last() == existing@[i as int]);
            assert(found == scanned_contains(scanned@, path@));
        }
        if inside && !found {
            out.push(id);
            proof {
                reveal(Seq::filter);
                let f = gone(root@, scanned@);
                assert(existing@.take(i + 1).drop_last() =~= existing@.take(i as int));
                assert(existing@.take(i + 1).filter(f) =~= existing@.take(i as int).filter(f).push(
                    existing@[i as int],
                ));
                assert(existing@.take(i + 1).filter(f).map_values(entry_id())
                    =~= existing@.take(i as int).filter(f).map_values(entry_id()).push(id));
            }
        }
        i = i + 1;
    }
    assert(existing@.take(existing@.len() as int) =~= existing@);
    out
}

} // verus!
