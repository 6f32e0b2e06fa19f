use vstd::prelude::*;

use crate::cue::{lemma_parsed_sheet_is_complete, parse, parse_cue, CueError};
use crate::cue_tracks::build_tracks;
use crate::decoder::{AudioFormat, SampleFormat};
use crate::library::{AudioAsset, AudioAssetId, Track, TrackId};
use crate::metadata_model::{normalize_metadata, normalized_of, EmbeddedMetadata, NormalizedMetadata};
use crate::text::{chars_of, clone_text};

verus! {

/// `std::path::Path::extension` of a path, as text.
pub uninterp spec fn path_extension_of(path: Seq<char>) -> Option<Seq<char>>;

/// `std::path::Path::is_absolute` of a path.
pub uninterp spec fn path_is_absolute_of(path: Seq<char>) -> bool;

/// `std::path::Path::parent` of a path, as text.
pub uninterp spec fn path_parent_of(path: Seq<char>) -> Option<Seq<char>>;

/// `std::path::Path::join` of two paths, as text.
pub uninterp spec fn path_join_of(base: Seq<char>, tail: Seq<char>) -> Seq<char>;

/// `Path::extension`: the text after the last `.` of the file name, if any.
/// Trusted: the result is the named extension of the path's text.
#[verifier::external_body]
fn path_extension(path: &str) -> (r: Option<String>)
    ensures
        match r {
            Some(e) => path_extension_of(path@) == Some(e@),
            None => path_extension_of(path@) is None,
        },
{
    std::path::Path::new(path).extension().map(|e| e.to_string_lossy().into_owned())
}

/// `Path::is_absolute`. Trusted: the result is the named answer for the
/// path's text.
#[verifier::external_body]
fn path_is_absolute(path: &str) -> (r: bool)
    ensures
        r == path_is_absolute_of(path@),
{
    std::path::Path::new(path).is_absolute()
}

/// `Path::parent`. Trusted: the result is the named parent of the path's text.
#[verifier::external_body]
fn path_parent(path: &str) -> (r: Option<String>)
    ensures
        match r {
            Some(p) => path_parent_of(path@) == Some(p@),
            None => path_parent_of(path@) is None,
        },
{
    std::path::Path::new(path).parent().map(|p| p.to_string_lossy().into_owned())
}

/// `Path::join`. Trusted: the result is the named join of the two texts.
#[verifier::external_body]
fn path_join(base: &str, tail: &str) -> (r: String)
    ensures
        r@ == path_join_of(base@, tail@),
{
    std::path::Path::new(base).join(tail).to_string_lossy().into_owned()
}

/// The code of a character with ASCII capitals lowered.
pub open spec fn ascii_lower_code(c: char) -> u32 {
    if 65 <= c as u32 <= 90 {
        (c as u32 + 32) as u32
    } else {
        c as u32
    }
}

/// Whether `text` equals the lowercase ASCII `lower`, ignoring ASCII case.
pub open spec fn equals_ignoring_ascii_case(text: Seq<char>, lower: Seq<char>) -> bool {
    &&& text.len() == lower.len()
    &&& forall|i: int| 0 <= i < text.len() ==> ascii_lower_code(#[trigger] text[i]) == lower[i] as u32
}

fn lower_code(c: char) -> (r: u32)
    ensures
        r == ascii_lower_code(c),
{
    let code = c as u32;
    if 65 <= code && code <= 90 {
        code + 32
    } else {
        code
    }
}

fn equals_ignoring_case(text: &[char], lower: &str) -> (r: bool)
    ensures
        r == equals_ignoring_ascii_case(text@, lower@),
{
    let lc = chars_of(lower);
    if text.len() != lc.len() {
        return false;
    }
    let mut i: usize = 0;
    while i < text.len()
        invariant
            i <= text@.len(),
            lc@ == lower@,
            text@.len() == lc@.len(),
            forall|j: int| 0 <= j < i ==> ascii_lower_code(#[trigger] text@[j]) == lc@[j] as u32,
        decreases text@.len() - i,
    {
        if lower_code(text[i]) != lc[i] as u32 {
            return false;
        }
        i = i + 1;
    }
    true
}

/// The extensions of audio files the scanner reads, in lowercase.
pub open spec fn supported_extension(e: Seq<char>) -> bool {
    ||| equals_ignoring_ascii_case(e, "flac"@)
    ||| equals_ignoring_ascii_case(e, "wav"@)
    ||| equals_ignoring_ascii_case(e, "aiff"@)
    ||| equals_ignoring_ascii_case(e, "aif"@)
    ||| equals_ignoring_ascii_case(e, "mp3"@)
    ||| equals_ignoring_ascii_case(e, "m4a"@)
    ||| equals_ignoring_ascii_case(e, "aac"@)
    ||| equals_ignoring_ascii_case(e, "ogg"@)
    ||| equals_ignoring_ascii_case(e, "oga"@)
    ||| equals_ignoring_ascii_case(e, "opus"@)
}

/// Whether a path names an audio file the scanner reads, by its extension in
/// any ASCII case.
pub fn is_supported_audio_file(path: &str) -> (r: bool)
    ensures
        r == match path_extension_of(path@) {
            Some(e) => supported_extension(e),
            None => false,
        },
{
    let extension = match path_extension(path) {
        Some(e) => e,
        None => return false,
    };
    let e = chars_of(extension.as_str());
    let e = e.as_slice();
    equals_ignoring_case(e, "flac") || equals_ignoring_case(e, "wav") || equals_ignoring_case(
        e,
        "aiff",
    ) || equals_ignoring_case(e, "aif") || equals_ignoring_case(e, "mp3") || equals_ignoring_case(
        e,
        "m4a",
    ) || equals_ignoring_case(e, "aac") || equals_ignoring_case(e, "ogg") || equals_ignoring_case(
        e,
        "oga",
    ) || equals_ignoring_case(e, "opus")
}

/// Whether a path names a CUE sheet: extension `cue` in any ASCII case.
pub fn is_cue_file(path: &str) -> (r: bool)
    ensures
        r == match path_extension_of(path@) {
            Some(e) => equals_ignoring_ascii_case(e, "cue"@),
            None => false,
        },
{
    match path_extension(path) {
        Some(extension) => {
            let e = chars_of(extension.as_str());
            equals_ignoring_case(e.as_slice(), "cue")
        },
        None => false,
    }
}

/// `std::path::Path::file_stem` of a path, as text.
pub uninterp spec fn path_file_stem_of(path: Seq<char>) -> Option<Seq<char>>;

/// `Path::file_stem`: the file name without its last extension. Trusted: the
/// result is the named stem of the path's text.
#[verifier::external_body]
fn path_file_stem(path: &str) -> (r: Option<String>)
    ensures
        match r {
            Some(s) => path_file_stem_of(path@) == Some(s@),
            None => path_file_stem_of(path@) is None,
        },
{
    std::path::Path::new(path).file_stem().map(|s| s.to_string_lossy().into_owned())
}

/// Whether two texts are equal once their ASCII capitals are lowered.
pub open spec fn same_ignoring_ascii_case(a: Seq<char>, b: Seq<char>) -> bool {
    &&& a.len() == b.len()
    &&& forall|i: int| 0 <= i < a.len() ==> ascii_lower_code(#[trigger] a[i]) == ascii_lower_code(b[i])
}

/// Lexicographic order of texts by code point: `a` comes no later than `b`.
pub open spec fn text_le(a: Seq<char>, b: Seq<char>) -> bool
    decreases a.len(),
{
    if a.len() == 0 {
        true
    } else if b.len() == 0 {
        false
    } else if a[0] as u32 != b[0] as u32 {
        (a[0] as u32) < (b[0] as u32)
    } else {
        text_le(a.drop_first(), b.drop_first())
    }
}

/// Any two texts are ordered one way or the other.
pub proof fn lemma_text_le_total(a: Seq<char>, b: Seq<char>)
    ensures
        text_le(a, b) || text_le(b, a),
    decreases a.len(),
{
    if a.len() > 0 && b.len() > 0 && a[0] as u32 == b[0] as u32 {
        lemma_text_le_total(a.drop_first(), b.drop_first());
    }
}

/// The order of texts is transitive.
pub proof fn lemma_text_le_transitive(a: Seq<char>, b: Seq<char>, c: Seq<char>)
    requires
        text_le(a, b),
        text_le(b, c),
    ensures
        text_le(a, c),
    decreases a.len(),
{
    if a.len() > 0 && b.len() > 0 && c.len() > 0 && a[0] as u32 == b[0] as u32 && b[0] as u32
        == c[0] as u32 {
        lemma_text_le_transitive(a.drop_first(), b.drop_first(), c.drop_first());
    }
}

fn same_case_insensitive(a: &[char], b: &[char]) -> (r: bool)
    ensures
        r == same_ignoring_ascii_case(a@, b@),
{
    if a.len() != b.len() {
        return false;
    }
    let mut i: usize = 0;
    while i < a.len()
        invariant
            i <= a@.len(),
            a@.len() == b@.len(),
            forall|j: int| 0 <= j < i ==> ascii_lower_code(#[trigger] a@[j]) == ascii_lower_code(b@[j]),
        decreases a@.len() - i,
    {
        if lower_code(a[i]) != lower_code(b[i]) {
            return false;
        }
        i = i + 1;
    }
    true
}

fn chars_le(a: &[char], b: &[char]) -> (r: bool)
    ensures
        r == text_le(a@, b@),
{
    let mut i: usize = 0;
    assert(a@.skip(0) =~= a@);
    assert(b@.skip(0) =~= b@);
    while i < a.len() && i < b.len()
        invariant
            i <= a@.len(),
            i <= b@.len(),
            text_le(a@, b@) == text_le(a@.skip(i as int), b@.skip(i as int)),
        decreases a@.len() - i,
    {
        let x: u32 = a[i] as u32;
        let y: u32 = b[i] as u32;
        if x != y {
            assert(a@.skip(i as int)[0] == a@[i as int]);
            assert(b@.skip(i as int)[0] == b@[i as int]);
            return x < y;
        }
        assert(a@.skip(i as int).drop_first() =~= a@.skip(i + 1));
        assert(b@.skip(i as int).drop_first() =~= b@.skip(i + 1));
        i = i + 1;
    }
    i == a.len()
}

/// Whether a path names a CUE sheet (by its extension in any ASCII case)
/// whose file stem is `audio_stem` ignoring ASCII case.
pub open spec fn cue_candidate_matches(path: Seq<char>, audio_stem: Seq<char>) -> bool {
    &&& match path_extension_of(path) {
        Some(e) => equals_ignoring_ascii_case(e, "cue"@),
        None => false,
    }
    &&& match path_file_stem_of(path) {
        Some(s) => same_ignoring_ascii_case(s, audio_stem),
        None => false,
    }
}

fn candidate_matches(path: &str, audio_stem: &[char]) -> (r: bool)
    ensures
        r == cue_candidate_matches(path@, audio_stem@),
{
    if !is_cue_file(path) {
        return false;
    }
    match path_file_stem(path) {
        Some(stem) => {
            let s = chars_of(stem.as_str());
            same_case_insensitive(s.as_slice(), audio_stem)
        },
        None => false,
    }
}

/// Which of the paths in an audio file's directory is its CUE sheet when no
/// `<stem>.cue` exists: among the CUE sheets whose stem matches the audio
/// file's stem ignoring ASCII case, the one that sorts first by path.
pub fn matching_cue(audio_stem: &str, candidates: &Vec<String>) -> (r: Option<usize>)
    ensures
        match r {
            None => forall|i: int|
                0 <= i < candidates@.len() ==> !cue_candidate_matches(
                    #[trigger] candidates@[i]@,
                    audio_stem@,
                ),
            Some(k) => {
                &&& k < candidates@.len()
                &&& cue_candidate_matches(candidates@[k as int]@, audio_stem@)
                &&& forall|i: int|
                    0 <= i < candidates@.len() && cue_candidate_matches(
                        #[trigger] candidates@[i]@,
                        audio_stem@,
                    ) ==> text_le(candidates@[k as int]@, candidates@[i]@)
            },
        },
{
    let stem = chars_of(audio_stem);
    let mut best: Option<usize> = None;
    let mut i: usize = 0;
    while i < candidates.len()
        invariant
            i <= candidates@.len(),
            stem@ == audio_stem@,
            match best {
                None => forall|j: int|
                    0 <= j < i ==> !cue_candidate_matches(#[trigger] candidates@[j]@, audio_stem@),
                Some(k) => {
                    &&& k < i
                    &&& cue_candidate_matches(candidates@[k as int]@, audio_stem@)
                    &&& forall|j: int|
                        0 <= j < i && cue_candidate_matches(#[trigger] candidates@[j]@, audio_stem@)
                            ==> text_le(candidates@[k as int]@, candidates@[j]@)
                },
            },
        decreases candidates@.len() - i,
    {
        if candidate_matches(candidates[i].as_str(), stem.as_slice()) {
            match best {
                None => {
                    best = Some(i);
                    proof {
                        lemma_text_le_total(candidates@[i as int]@, candidates@[i as int]@);
                    }
                },
                Some(k) => {
                    let current = chars_of(candidates[k].as_str());
                    let next = chars_of(candidates[i].as_str());
                    if !chars_le(current.as_slice(), next.as_slice()) {
                        proof {
                            let ck = candidates@[k as int]@;
                            let ci = candidates@[i as int]@;
                            lemma_text_le_total(ck, ci);
                            lemma_text_le_total(ci, ci);
                            assert forall|j: int|
                                0 <= j < i + 1 && cue_candidate_matches(
                                    #[trigger] candidates@[j]@,
                                    audio_stem@,
                                ) implies text_le(ci, candidates@[j]@) by {
                                if j < i {
                                    lemma_text_le_transitive(ci, ck, candidates@[j]@);
                                }
                            }
                        }
                        best = Some(i);
                    }
                },
            }
        }
        i = i + 1;
    }
    best
}

/// Where the audio file a CUE sheet names lives: an absolute name as it is,
/// a relative one next to the sheet (or under `.` when the sheet's path has
/// no parent).
pub open spec fn cue_source_of(cue_path: Seq<char>, source_file: Seq<char>) -> Seq<char> {
    if path_is_absolute_of(source_file) {
        source_file
    } else {
        path_join_of(
            match path_parent_of(cue_path) {
                Some(p) => p,
                None => "."@,
            },
            source_file,
        )
    }
}

pub fn resolve_cue_source(cue_path: &str, source_file: &str) -> (r: String)
    ensures
        r@ == cue_source_of(cue_path@, source_file@),
{
    if path_is_absolute(source_file) {
        source_file.to_owned()
    } else {
        match path_parent(cue_path) {
            Some(parent) => path_join(parent.as_str(), source_file),
            None => path_join(".", source_file),
        }
    }
}

#[derive(Debug, Clone, PartialEq, Eq)]
pub enum ScannerError {
    Io { path: String, message: String },
    Probe { path: String, message: String },
    UnsupportedFormat { path: String, format: String },
    UnsupportedSampleFormat { path: String, format: SampleFormat },
    MissingTotalFrames { path: String },
    Metadata { path: String, message: String },
    Cue { path: String, error: CueError },
    CueTracks { path: String, error: CueError },
}

/// The bit depth a format declares, integer or float.
pub fn sample_bits(format: AudioFormat) -> (r: u16)
    ensures
        r == match format.sample_format {
            SampleFormat::SignedInt(bits) => bits,
            SampleFormat::Float(bits) => bits,
        },
{
    match format.sample_format {
        SampleFormat::SignedInt(bits) => bits,
        SampleFormat::Float(bits) => bits,
    }
}

/// Whether the scanner accepts a format: a rate, channels, and 8-, 16-, 24-
/// or 32-bit signed integer samples.
pub open spec fn format_accepted(format: AudioFormat) -> bool {
    &&& format.sample_rate != 0
    &&& format.channels != 0
    &&& format.sample_format matches SampleFormat::SignedInt(bits) && (bits == 8 || bits == 16 || bits
        == 24 || bits == 32)
}

/// The error a refused format gives: which field is zero, else the sample
/// format.
pub open spec fn format_error(path: String, format: AudioFormat, e: ScannerError) -> bool {
    if format.sample_rate == 0 {
        e matches ScannerError::UnsupportedFormat { path: p, format: f } && p == path && f@
            == "zero sample rate"@
    } else if format.channels == 0 {
        e matches ScannerError::UnsupportedFormat { path: p, format: f } && p == path && f@
            == "zero channels"@
    } else {
        e == ScannerError::UnsupportedSampleFormat { path, format: format.sample_format }
    }
}

pub fn validate_audio_format(path: &String, format: AudioFormat) -> (r: Result<(), ScannerError>)
    ensures
        r is Ok <==> format_accepted(format),
        r matches Err(e) ==> format_error(*path, format, e),
{
    if format.sample_rate == 0 {
        return Err(
            ScannerError::UnsupportedFormat { path: path.clone(), format: "zero sample rate".to_owned() },
        );
    }
    if format.channels == 0 {
        return Err(
            ScannerError::UnsupportedFormat { path: path.clone(), format: "zero channels".to_owned() },
        );
    }
    match format.sample_format {
        SampleFormat::SignedInt(bits) => if bits == 8 || bits == 16 || bits == 24 || bits == 32 {
            Ok(())
        } else {
            Err(ScannerError::UnsupportedSampleFormat { path: path.clone(), format: format.sample_format })
        },
        SampleFormat::Float(_) => Err(
            ScannerError::UnsupportedSampleFormat { path: path.clone(), format: format.sample_format },
        ),
    }
}

/// A logical track of an audio file, with the file it plays from.
#[derive(Debug, Clone, PartialEq, Eq)]
pub struct ScannedTrack {
    pub track: Track,
    pub source_path: String,
}

/// An audio file found by a scan: the asset, its tags and its tracks.
#[derive(Debug, Clone, PartialEq, Eq)]
pub struct ScannedAsset {
    pub asset: AudioAsset,
    pub metadata: EmbeddedMetadata,
    pub normalized_metadata: NormalizedMetadata,
    pub tracks: Vec<ScannedTrack>,
}

#[derive(Debug, Clone, PartialEq, Eq)]
pub struct ScanErrorRecord {
    pub path: String,
    pub error: String,
}

/// What a directory scan found.
#[derive(Debug, Clone, PartialEq, Eq)]
pub struct ScanResult {
    pub assets: Vec<ScannedAsset>,
    pub ignored_files: Vec<String>,
    pub errors: Vec<ScanErrorRecord>,
}

impl Default for ScanResult {
    fn default() -> (r: Self)
        ensures
            r.assets@.len() == 0,
            r.ignored_files@.len() == 0,
            r.errors@.len() == 0,
    {
        ScanResult { assets: Vec::new(), ignored_files: Vec::new(), errors: Vec::new() }
    }
}

/// The whole-file track of an asset without a CUE sheet.
pub open spec fn single_track_of(asset_id: AudioAssetId, asset: AudioAsset, metadata: NormalizedMetadata, id: i64) -> Track {
    Track {
        id: TrackId(id),
        asset_id,
        start_frame: 0,
        frame_count: asset.total_frames,
        disc_number: metadata.track.disc_number,
        track_number: match metadata.track.track_number {
            Some(n) => n,
            None => 0,
        },
        title: metadata.track.title,
        performer: metadata.track.artist,
        album: metadata.album.album,
    }
}

/// Makes the one track spanning a whole asset, taking the next track id.
pub fn make_single_track(
    asset_id: AudioAssetId,
    asset: &AudioAsset,
    metadata: &NormalizedMetadata,
    next_track_id: &mut i64,
) -> (r: ScannedTrack)
    requires
        *old(next_track_id) < i64::MAX,
    ensures
        r.track == single_track_of(asset_id, *asset, *metadata, *old(next_track_id)),
        r.source_path == asset.path,
        *final(next_track_id) == *old(next_track_id) + 1,
{
    let id = TrackId(*next_track_id);
    *next_track_id = *next_track_id + 1;
    let track = Track {
        id,
        asset_id,
        start_frame: 0,
        frame_count: asset.total_frames,
        disc_number: metadata.track.disc_number,
        track_number: match metadata.track.track_number {
            Some(n) => n,
            None => 0,
        },
        title: clone_text(&metadata.track.title),
        performer: clone_text(&metadata.track.artist),
        album: clone_text(&metadata.album.album),
    };
    ScannedTrack { track, source_path: asset.path.clone() }
}

/// A CUE track completed from the file's tags: the album, performer, disc and
/// (when the sheet gave 0) track number come from the tags where the sheet is
/// silent.
pub open spec fn merged_track(t: Track, metadata: NormalizedMetadata) -> Track {
    Track {
        album: if t.album is None { metadata.album.album } else { t.album },
        performer: if t.performer is None { metadata.track.artist } else { t.performer },
        track_number: if t.track_number == 0 {
            match metadata.track.track_number {
                Some(n) => n,
                None => 0,
            }
        } else {
            t.track_number
        },
        disc_number: if t.disc_number is None { metadata.track.disc_number } else { t.disc_number },
        ..t
    }
}

fn copy_track(t: &Track) -> (r: Track)
    ensures
        r == *t,
{
    Track {
        id: t.id,
        asset_id: t.asset_id,
        start_frame: t.start_frame,
        frame_count: t.frame_count,
        disc_number: t.disc_number,
        track_number: t.track_number,
        title: clone_text(&t.title),
        performer: clone_text(&t.performer),
        album: clone_text(&t.album),
    }
}

pub fn merge_cue_track(track: Track, metadata: &NormalizedMetadata) -> (r: Track)
    ensures
        r == merged_track(track, *metadata),
{
    let mut track = track;
    if track.album.is_none() {
        track.album = clone_text(&metadata.album.album);
    }
    if track.performer.is_none() {
        track.performer = clone_text(&metadata.track.artist);
    }
    if track.track_number == 0 {
        track.track_number = match metadata.track.track_number {
            Some(n) => n,
            None => 0,
        };
    }
    if track.disc_number.is_none() {
        track.disc_number = metadata.track.disc_number;
    }
    track
}

/// A frame count, 0 when unknown.
pub open spec fn known_frames(frames: Option<u64>) -> u64 {
    match frames {
        Some(f) => f,
        None => 0,
    }
}

/// Whether a CUE sheet's text yields tracks for an asset: it parses, and its
/// tracks build at that rate and length with ids from `first_track_id` that
/// all fit in `i64`.
pub open spec fn cue_tracks_build(text: Seq<char>, sample_rate: u32, total_frames: u64, first_track_id: i64) -> bool {
    let p = parse_cue(text);
    &&& p is Ok
    &&& sample_rate != 0
    &&& p->Ok_0.tracks.len() <= i64::MAX
    &&& crate::cue::starts_valid(p->Ok_0.tracks, sample_rate)
    &&& crate::cue_tracks::builds_ok(p->Ok_0.tracks, sample_rate, total_frames, first_track_id)
    &&& first_track_id + p->Ok_0.tracks.len() <= i64::MAX
}

/// The tracks of an asset described by a CUE sheet: the sheet's tracks,
/// completed from the file's tags, each playing from the file the sheet names
/// next to the sheet. Track ids continue from `next_track_id`, which moves
/// past them.
pub fn cue_scanned_tracks(
    asset_id: AudioAssetId,
    asset: &AudioAsset,
    metadata: &NormalizedMetadata,
    cue_path: &String,
    cue_text: &str,
    next_track_id: &mut i64,
) -> (r: Result<Vec<ScannedTrack>, ScannerError>)
    requires
        cue_text@.len() + 2 <= usize::MAX,
    ensures
        parse_cue(cue_text@) matches Err(ev) ==> r matches Err(ScannerError::Cue { path: p, error: e })
            && p == *cue_path && e@ == ev,
        r is Ok <==> cue_tracks_build(
            cue_text@,
            asset.sample_rate,
            known_frames(asset.total_frames),
            *old(next_track_id),
        ),
        r matches Err(ScannerError::CueTracks { path: p, error: _ }) ==> p == *cue_path,
        r is Err ==> r matches Err(ScannerError::Cue { .. }) || r matches Err(
            ScannerError::CueTracks { .. },
        ),
        r is Err ==> *final(next_track_id) == *old(next_track_id),
        r matches Ok(v) ==> {
            &&& parse_cue(cue_text@) is Ok
            &&& v@.len() == parse_cue(cue_text@)->Ok_0.tracks.len()
            &&& *final(next_track_id) == *old(next_track_id) + v@.len()
            &&& forall|i: int|
                0 <= i < v@.len() ==> {
                    &&& (#[trigger] v@[i]).track.id == TrackId((*old(next_track_id) + i) as i64)
                    &&& v@[i].track.asset_id == asset_id
                    &&& v@[i].source_path@ == cue_source_of(
                        cue_path@,
                        parse_cue(cue_text@)->Ok_0.file->0,
                    )
                    &&& exists|t: Track|
                        #[trigger] crate::cue_tracks::built_track_at(
                            asset_id,
                            parse_cue(cue_text@)->Ok_0.tracks,
                            i,
                            asset.sample_rate,
                            known_frames(asset.total_frames),
                            *old(next_track_id),
                            t,
                        ) && v@[i].track == merged_track(t, *metadata)
                }
        },
{
    let sheet = match parse(cue_text) {
        Ok(sheet) => sheet,
        Err(error) => {
            return Err(ScannerError::Cue { path: cue_path.clone(), error });
        },
    };
    proof {
        lemma_parsed_sheet_is_complete(cue_text@);
    }
    if sheet.tracks.len() as u64 > 0x7fff_ffff_ffff_ffffu64 {
        return Err(
            ScannerError::CueTracks {
                path: cue_path.clone(),
                error: CueError::InvalidLine { line: 0, message: "TrackId overflow".to_owned() },
            },
        );
    }
    let total_frames = match asset.total_frames {
        Some(t) => t,
        None => 0,
    };
    let first = *next_track_id;
    let built = match build_tracks(asset_id, total_frames, asset.sample_rate, &sheet, TrackId(first)) {
        Ok(built) => built,
        Err(error) => {
            return Err(ScannerError::CueTracks { path: cue_path.clone(), error });
        },
    };
    let n = built.len();
    let count = match first.checked_add(n as i64) {
        Some(c) => c,
        None => {
            return Err(
                ScannerError::CueTracks {
                    path: cue_path.clone(),
                    error: CueError::InvalidLine { line: 0, message: "TrackId overflow".to_owned() },
                },
            );
        },
    };
    let mut result: Vec<ScannedTrack> = Vec::new();
    let mut i: usize = 0;
    while i < n
        invariant
            i <= n,
            n == built@.len(),
            result@.len() == i,
            forall|j: int|
                0 <= j < i ==> {
                    &&& (#[trigger] result@[j]).track.id == built@[j].track.id
                    &&& result@[j].track.asset_id == built@[j].track.asset_id
                    &&& result@[j].source_path@ == cue_source_of(cue_path@, built@[j].source_file@)
                    &&& result@[j].track == merged_track(built@[j].track, *metadata)
                },
        decreases n - i,
    {
        let b = &built[i];
        let track = merge_cue_track(copy_track(&b.track), metadata);
        let source_path = resolve_cue_source(cue_path.as_str(), b.source_file.as_str());
        result.push(ScannedTrack { track, source_path });
        i = i + 1;
    }
    *next_track_id = count;
    proof {
        assert(sheet@ == parse_cue(cue_text@)->Ok_0);
        assert forall|i: int| 0 <= i < result@.len() implies #[trigger] result@[i] == result@[i] && exists|t: Track|
            #[trigger] crate::cue_tracks::built_track_at(
                asset_id,
                parse_cue(cue_text@)->Ok_0.tracks,
                i,
                asset.sample_rate,
                known_frames(asset.total_frames),
                first,
                t,
            ) && result@[i].track == merged_track(t, *metadata) by {
            assert(crate::cue_tracks::built_track_at(
                asset_id,
                sheet@.tracks,
                i,
                asset.sample_rate,
                total_frames,
                first,
                built@[i].track,
            ));
            assert(total_frames == known_frames(asset.total_frames));
            assert(crate::cue_tracks::built_track_at(
                asset_id,
                parse_cue(cue_text@)->Ok_0.tracks,
                i,
                asset.sample_rate,
                known_frames(asset.total_frames),
                first,
                built@[i].track,
            ));
            assert(result@[i].track == merged_track(built@[i].track, *metadata));
        }
    }
    Ok(result)
}

/// Assigns asset and track ids to the files of a scan.
pub struct Scanner {
    next_asset_id: i64,
    next_track_id: i64,
}

impl View for Scanner {
    /// The next asset id and the next track id.
    type V = (i64, i64);

    closed spec fn view(&self) -> (i64, i64) {
        (self.next_asset_id, self.next_track_id)
    }
}

impl Default for Scanner {
    fn default() -> (r: Self)
        ensures
            r@ == (1i64, 1i64),
    {
        Scanner::new()
    }
}

impl Scanner {
    /// A scanner whose ids start at 1.
    pub fn new() -> (r: Self)
        ensures
            r@ == (1i64, 1i64),
    {
        Scanner { next_asset_id: 1, next_track_id: 1 }
    }

    pub fn next_asset_id(&self) -> (r: i64)
        ensures
            r == self@.0,
    {
        self.next_asset_id
    }

    pub fn next_track_id(&self) -> (r: i64)
        ensures
            r == self@.1,
    {
        self.next_track_id
    }

    /// The frame count of a probed file the scanner accepts, or why it is
    /// refused: its format, then a missing frame count.
    pub fn check_probed(path: &String, format: AudioFormat, total_frames: Option<u64>) -> (r: Result<
        u64,
        ScannerError,
    >)
        ensures
            !format_accepted(format) ==> (r matches Err(e) && format_error(*path, format, e)),
            format_accepted(format) && total_frames is None ==> r == Err::<u64, ScannerError>(
                ScannerError::MissingTotalFrames { path: *path },
            ),
            format_accepted(format) ==> (total_frames matches Some(t) ==> r == Ok::<u64, ScannerError>(t)),
    {
        match validate_audio_format(path, format) {
            Ok(()) => {},
            Err(e) => {
                return Err(e);
            },
        }
        match total_frames {
            Some(t) => Ok(t),
            None => Err(ScannerError::MissingTotalFrames { path: path.clone() }),
        }
    }

    /// Builds the scanned asset of an accepted, probed file from its tags and,
    /// when there is one, the path and text of its CUE sheet. The asset takes
    /// the next asset id even when its CUE sheet is then refused.
    pub fn assemble_asset(
        &mut self,
        path: String,
        format: AudioFormat,
        total_frames: u64,
        metadata: EmbeddedMetadata,
        cue: Option<(String, String)>,
    ) -> (r: Result<ScannedAsset, ScannerError>)
        requires
            old(self)@.0 < i64::MAX,
            old(self)@.1 < i64::MAX,
            cue matches Some(c) ==> c.1@.len() + 2 <= usize::MAX,
        ensures
            final(self)@.0 == old(self)@.0 + 1,
            cue is None ==> final(self)@.1 == old(self)@.1 + 1,
            cue is Some && r is Err ==> final(self)@.1 == old(self)@.1,
            cue matches Some(c) ==> (r is Ok <==> cue_tracks_build(
                c.1@,
                format.sample_rate,
                total_frames,
                old(self)@.1,
            )),
            r matches Ok(a) ==> {
                &&& a.asset == (AudioAsset {
                    id: AudioAssetId(old(self)@.0),
                    path,
                    sample_rate: format.sample_rate,
                    channels: format.channels,
                    bits_per_sample: match format.sample_format {
                        SampleFormat::SignedInt(bits) => bits,
                        SampleFormat::Float(bits) => bits,
                    },
                    total_frames: Some(total_frames),
                })
                &&& a.metadata == metadata
                &&& a.normalized_metadata == normalized_of(path, metadata)
                &&& final(self)@.1 == old(self)@.1 + a.tracks@.len()
                &&& forall|i: int|
                    0 <= i < a.tracks@.len() ==> (#[trigger] a.tracks@[i]).track.id == TrackId(
                        (old(self)@.1 + i) as i64,
                    ) && a.tracks@[i].track.asset_id == AudioAssetId(old(self)@.0)
                &&& cue is None ==> a.tracks@.len() == 1 && a.tracks@[0].track == single_track_of(
                    AudioAssetId(old(self)@.0),
                    a.asset,
                    a.normalized_metadata,
                    old(self)@.1,
                ) && a.tracks@[0].source_path == path
                &&& cue matches Some(c) ==> {
                    &&& parse_cue(c.1@) is Ok
                    &&& a.tracks@.len() == parse_cue(c.1@)->Ok_0.tracks.len()
                    &&& forall|i: int|
                        0 <= i < a.tracks@.len() ==> {
                            &&& (#[trigger] a.tracks@[i]).source_path@ == cue_source_of(
                                c.0@,
                                parse_cue(c.1@)->Ok_0.file->0,
                            )
                            &&& exists|t: Track|
                                #[trigger] crate::cue_tracks::built_track_at(
                                    AudioAssetId(old(self)@.0),
                                    parse_cue(c.1@)->Ok_0.tracks,
                                    i,
                                    format.sample_rate,
                                    total_frames,
                                    old(self)@.1,
                                    t,
                                ) && a.tracks@[i].track == merged_track(t, a.normalized_metadata)
                        }
                }
            },
            cue is None ==> r is Ok,
            cue matches Some(c) ==> (parse_cue(c.1@) matches Err(ev) ==> r matches Err(
                ScannerError::Cue { path: p, error: e },
            ) && p == c.0 && e@ == ev),
            cue matches Some(c) ==> (r matches Err(ScannerError::CueTracks { path: p, error: _ })
                ==> p == c.0),
            cue is Some ==> (r is Err ==> r matches Err(ScannerError::Cue { .. }) || r matches Err(
                ScannerError::CueTracks { .. },
            )),
    {
        let normalized_metadata = normalize_metadata(&path, &metadata);
        let asset_id = AudioAssetId(self.next_asset_id);
        self.next_asset_id = self.next_asset_id + 1;
        let asset = AudioAsset {
            id: asset_id,
            path,
            sample_rate: format.sample_rate,
            channels: format.channels,
            bits_per_sample: sample_bits(format),
            total_frames: Some(total_frames),
        };
        let tracks = match cue {
            Some((cue_path, cue_text)) => {
                match cue_scanned_tracks(
                    asset_id,
                    &asset,
                    &normalized_metadata,
                    &cue_path,
                    cue_text.as_str(),
                    &mut self.next_track_id,
                ) {
                    Ok(tracks) => tracks,
                    Err(e) => {
                        return Err(e);
                    },
                }
            },
            None => {
                let mut tracks: Vec<ScannedTrack> = Vec::new();
                tracks.push(
                    make_single_track(asset_id, &asset, &normalized_metadata, &mut self.next_track_id),
                );
                tracks
            },
        };
        Ok(ScannedAsset { asset, metadata, normalized_metadata, tracks })
    }
}


/// Tags only complete a CUE track: every value the sheet gave (album,
/// performer, a non-zero track number, disc number) is kept, a missing one is
/// taken from the file's tags, and the track's identity, frames and title are
/// untouched.
pub proof fn lemma_merge_keeps_sheet_values(t: Track, metadata: NormalizedMetadata)
    ensures
        ({
            let r = merged_track(t, metadata);
            &&& t.performer is Some ==> r.performer == t.performer
            &&& t.performer is None ==> r.performer == metadata.track.artist
            &&& t.album is Some ==> r.album == t.album
            &&& t.album is None ==> r.album == metadata.album.album
            &&& t.track_number != 0 ==> r.track_number == t.track_number
            &&& t.disc_number is Some ==> r.disc_number == t.disc_number
            &&& t.disc_number is None ==> r.disc_number == metadata.track.disc_number
            &&& r.id == t.id && r.asset_id == t.asset_id
            &&& r.start_frame == t.start_frame && r.frame_count == t.frame_count
            &&& r.title == t.title
        }),
{
}

} // verus!
