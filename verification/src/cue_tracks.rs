use vstd::prelude::*;

use crate::cue::{
    cue_result_view, start_error_at, start_frame_at, starts_valid, track_start_frames, CueError,
    CueErrorView, CueSheet, CueTrackView,
};
use crate::library::{neighbours_ok, sat_add, tracks_well_ordered, AudioAssetId, Track, TrackId};
use crate::text::{clone_text, decimal, push_decimal, push_str};

verus! {

/// A logical track built from a CUE sheet, with the file the sheet names.
#[derive(Debug, Clone, PartialEq, Eq)]
pub struct CueTrackBuild {
    pub track: Track,
    pub source_file: String,
}

/// Where track `i` ends: where the next one starts, or at the end of the asset.
pub open spec fn end_frame_at(tracks: Seq<CueTrackView>, i: int, sample_rate: u32, total_frames: u64) -> u64 {
    if i + 1 < tracks.len() {
        start_frame_at(tracks, i + 1, sample_rate)
    } else {
        total_frames
    }
}

pub open spec fn after_eof_message(number: u32, start: u64, total: u64) -> Seq<char> {
    "TRACK "@ + decimal(number as nat) + " starts after asset EOF: "@ + decimal(start as nat) + " > "@
        + decimal(total as nat)
}

pub open spec fn negative_duration_message(number: u32) -> Seq<char> {
    "TRACK "@ + decimal(number as nat) + " has negative duration"@
}

pub open spec fn zero_duration_message(number: u32) -> Seq<char> {
    "TRACK "@ + decimal(number as nat) + " has zero duration"@
}

pub open spec fn line0(message: Seq<char>) -> CueErrorView {
    CueErrorView::InvalidLine { line: 0, message }
}

/// What keeps track `i` from becoming a logical track.
pub open spec fn build_error_at(
    tracks: Seq<CueTrackView>,
    i: int,
    sample_rate: u32,
    total_frames: u64,
    first_track_id: i64,
) -> Option<CueErrorView> {
    let start = start_frame_at(tracks, i, sample_rate);
    let end = end_frame_at(tracks, i, sample_rate, total_frames);
    let number = tracks[i].number;
    if start > total_frames {
        Some(line0(after_eof_message(number, start, total_frames)))
    } else if end < start {
        Some(line0(negative_duration_message(number)))
    } else if end == start {
        Some(line0(zero_duration_message(number)))
    } else if first_track_id + i > i64::MAX {
        Some(line0("TrackId overflow"@))
    } else {
        None
    }
}

/// The logical track built from track `i`.
pub open spec fn built_track_at(
    asset_id: AudioAssetId,
    tracks: Seq<CueTrackView>,
    i: int,
    sample_rate: u32,
    total_frames: u64,
    first_track_id: i64,
    t: Track,
) -> bool {
    let start = start_frame_at(tracks, i, sample_rate);
    let end = end_frame_at(tracks, i, sample_rate, total_frames);
    &&& t.id == TrackId((first_track_id + i) as i64)
    &&& t.asset_id == asset_id
    &&& t.start_frame == start
    &&& t.frame_count == Some((end - start) as u64)
    &&& t.disc_number is None
    &&& t.track_number == tracks[i].number
    &&& crate::cue::text_view(t.title) == tracks[i].title
    &&& crate::cue::text_view(t.performer) == tracks[i].performer
    &&& t.album is None
}

/// Every track of the sheet becomes a logical track.
pub open spec fn builds_ok(tracks: Seq<CueTrackView>, sample_rate: u32, total_frames: u64, first_track_id: i64) -> bool {
    forall|i: int|
        0 <= i < tracks.len() ==> #[trigger] build_error_at(
            tracks,
            i,
            sample_rate,
            total_frames,
            first_track_id,
        ) is None
}

/// The build reaches the point where it records the sheet's file.
pub open spec fn build_reaches_file(sheet: CueSheet, sample_rate: u32, total_frames: u64, first_track_id: i64) -> bool {
    &&& sample_rate != 0
    &&& sheet@.tracks.len() > 0
    &&& starts_valid(sheet@.tracks, sample_rate)
    &&& build_error_at(sheet@.tracks, 0, sample_rate, total_frames, first_track_id) is None
}

fn track_error(number: u32, text: &str) -> (e: CueError)
    ensures
        e@ == line0("TRACK "@ + decimal(number as nat) + text@),
{
    let mut message = String::new();
    push_str(&mut message, "TRACK ");
    push_decimal(&mut message, number as u64);
    push_str(&mut message, text);
    CueError::InvalidLine { line: 0, message }
}

fn after_eof_error(number: u32, start: u64, total: u64) -> (e: CueError)
    ensures
        e@ == line0(after_eof_message(number, start, total)),
{
    let mut message = String::new();
    push_str(&mut message, "TRACK ");
    push_decimal(&mut message, number as u64);
    push_str(&mut message, " starts after asset EOF: ");
    push_decimal(&mut message, start);
    push_str(&mut message, " > ");
    push_decimal(&mut message, total);
    CueError::InvalidLine { line: 0, message }
}

/// Turns the tracks of a CUE sheet into logical tracks of one asset: each
/// track runs from its `INDEX 01` to the next track's, the last one to the
/// end of the asset; track ids count up from `first_track_id`.
pub fn build_tracks(
    asset_id: AudioAssetId,
    total_frames: u64,
    sample_rate: u32,
    sheet: &CueSheet,
    first_track_id: TrackId,
) -> (r: Result<Vec<CueTrackBuild>, CueError>)
    requires
        sheet.tracks@.len() <= i64::MAX,
        sheet.file is Some || !build_reaches_file(*sheet, sample_rate, total_frames, first_track_id.0),
    ensures
        sample_rate == 0 ==> (r matches Err(e) && e@ == CueErrorView::InvalidSampleRate),
        sample_rate != 0 && sheet@.tracks.len() == 0 ==> (r matches Err(e) && e@ == CueErrorView::NoTracks),
        sample_rate != 0 && sheet@.tracks.len() > 0 && !starts_valid(sheet@.tracks, sample_rate) ==> (r matches Err(e)
            && exists|j: int|
            0 <= j < sheet@.tracks.len() && start_error_at(sheet@.tracks, j, sample_rate) == Some(e@)
                && forall|i: int| 0 <= i < j ==> #[trigger] start_error_at(sheet@.tracks, i, sample_rate) is None),
        sample_rate != 0 && sheet@.tracks.len() > 0 && starts_valid(sheet@.tracks, sample_rate) ==> {
            &&& (r is Ok <==> builds_ok(sheet@.tracks, sample_rate, total_frames, first_track_id.0))
            &&& (r matches Err(e) ==> exists|j: int|
                0 <= j < sheet@.tracks.len() && build_error_at(
                    sheet@.tracks,
                    j,
                    sample_rate,
                    total_frames,
                    first_track_id.0,
                ) == Some(e@) && forall|i: int|
                    0 <= i < j ==> #[trigger] build_error_at(
                        sheet@.tracks,
                        i,
                        sample_rate,
                        total_frames,
                        first_track_id.0,
                    ) is None)
        },
        r matches Ok(v) ==> {
            &&& v@.len() == sheet@.tracks.len()
            &&& forall|i: int|
                0 <= i < v@.len() ==> built_track_at(
                    asset_id,
                    sheet@.tracks,
                    i,
                    sample_rate,
                    total_frames,
                    first_track_id.0,
                    (#[trigger] v@[i]).track,
                ) && v@[i].source_file@ == sheet@.file->0
        },
{
    if sample_rate == 0 {
        return Err(CueError::InvalidSampleRate);
    }
    if sheet.tracks.len() == 0 {
        return Err(CueError::NoTracks);
    }
    let starts = match track_start_frames(sheet, sample_rate) {
        Ok(v) => v,
        Err(e) => {
            return Err(e);
        },
    };
    if starts.len() != sheet.tracks.len() {
        let mut message = String::new();
        push_str(&mut message, "CUE track/start count mismatch");
        return Err(CueError::InvalidLine { line: 0, message });
    }
    let ghost tracks = sheet@.tracks;
    let n = sheet.tracks.len();
    let mut result: Vec<CueTrackBuild> = Vec::new();
    let mut index: usize = 0;
    while index < n
        invariant
            n == sheet.tracks@.len(),
            n == tracks.len(),
            n <= i64::MAX,
            tracks == sheet@.tracks,
            starts@.len() == n,
            forall|i: int| 0 <= i < n ==> #[trigger] starts@[i] == (tracks[i].number, start_frame_at(tracks, i, sample_rate)),
            index <= n,
            result@.len() == index,
            sheet.file is Some || !build_reaches_file(*sheet, sample_rate, total_frames, first_track_id.0),
            sample_rate != 0,
            n > 0,
            starts_valid(tracks, sample_rate),
            forall|i: int|
                0 <= i < index ==> #[trigger] build_error_at(tracks, i, sample_rate, total_frames, first_track_id.0) is None,
            forall|i: int|
                0 <= i < index ==> built_track_at(
                    asset_id,
                    tracks,
                    i,
                    sample_rate,
                    total_frames,
                    first_track_id.0,
                    (#[trigger] result@[i]).track,
                ) && result@[i].source_file@ == sheet@.file->0,
        decreases n - index,
    {
        let cue_track = &sheet.tracks[index];
        assert(tracks[index as int] == cue_track@);
        let start_frame = starts[index].1;
        if start_frame > total_frames {
            return Err(after_eof_error(cue_track.number, start_frame, total_frames));
        }
        let end_frame = if index + 1 < starts.len() {
            starts[index + 1].1
        } else {
            total_frames
        };
        if end_frame < start_frame {
            return Err(track_error(cue_track.number, " has negative duration"));
        }
        let frame_count = end_frame - start_frame;
        if frame_count == 0 {
            return Err(track_error(cue_track.number, " has zero duration"));
        }
        let id = match first_track_id.0.checked_add(index as i64) {
            Some(id) => id,
            None => {
                let mut message = String::new();
                push_str(&mut message, "TrackId overflow");
                return Err(CueError::InvalidLine { line: 0, message });
            },
        };
        assert(build_error_at(tracks, index as int, sample_rate, total_frames, first_track_id.0) is None);
        let source_file = match &sheet.file {
            Some(f) => f.clone(),
            None => {
                assert(false);
                String::new()
            },
        };
        let track = Track {
            id: TrackId(id),
            asset_id,
            start_frame,
            frame_count: Some(frame_count),
            disc_number: None,
            track_number: cue_track.number,
            title: clone_text(&cue_track.title),
            performer: clone_text(&cue_track.performer),
            album: None,
        };
        result.push(CueTrackBuild { track, source_file });
        index = index + 1;
    }
    Ok(result)
}

/// The logical tracks built from a CUE sheet tile the asset: each is
/// non-empty and bounded, each ends where the next begins, the last ends at
/// the end of the asset, and so the built index is well ordered and passes
/// `TrackIndex::validate`.
pub proof fn lemma_built_tracks_tile_the_asset(
    asset_id: AudioAssetId,
    tracks: Seq<CueTrackView>,
    sample_rate: u32,
    total_frames: u64,
    first_track_id: i64,
    built: Seq<Track>,
)
    requires
        starts_valid(tracks, sample_rate),
        builds_ok(tracks, sample_rate, total_frames, first_track_id),
        built.len() == tracks.len(),
        forall|i: int|
            0 <= i < built.len() ==> built_track_at(
                asset_id,
                tracks,
                i,
                sample_rate,
                total_frames,
                first_track_id,
                #[trigger] built[i],
            ),
    ensures
        tracks_well_ordered(built),
        forall|i: int| 0 <= i < built.len() ==> ((#[trigger] built[i]).frame_count matches Some(c) && c > 0),
        forall|i: int|
            0 <= i < built.len() - 1 ==> #[trigger] built[i].end_frame_of() == Some(built[i + 1].start_frame),
        built.len() > 0 ==> built[built.len() - 1].end_frame_of() == Some(total_frames),
        forall|i: int| 0 <= i < built.len() ==> (#[trigger] built[i]).id == TrackId((first_track_id + i) as i64),
{
    assert forall|i: int| 0 <= i < built.len() implies ((#[trigger] built[i]).frame_count matches Some(c) && c > 0) by {
        assert(build_error_at(tracks, i, sample_rate, total_frames, first_track_id) is None);
        assert(built_track_at(asset_id, tracks, i, sample_rate, total_frames, first_track_id, built[i]));
    }
    assert forall|i: int| 0 <= i < built.len() - 1 implies #[trigger] built[i].end_frame_of() == Some(
        built[i + 1].start_frame,
    ) by {
        assert(build_error_at(tracks, i, sample_rate, total_frames, first_track_id) is None);
        assert(built_track_at(asset_id, tracks, i, sample_rate, total_frames, first_track_id, built[i]));
        assert(built_track_at(asset_id, tracks, i + 1, sample_rate, total_frames, first_track_id, built[i + 1]));
    }
    assert forall|i: int| 0 <= i < built.len() - 1 implies #[trigger] neighbours_ok(built[i], built[i + 1]) by {
        assert(built[i].end_frame_of() == Some(built[i + 1].start_frame));
        assert(built_track_at(asset_id, tracks, i, sample_rate, total_frames, first_track_id, built[i]));
    }
    if built.len() > 0 {
        let l = built.len() - 1;
        assert(build_error_at(tracks, l, sample_rate, total_frames, first_track_id) is None);
        assert(built_track_at(asset_id, tracks, l, sample_rate, total_frames, first_track_id, built[l]));
    }
    assert forall|i: int| 0 <= i < built.len() implies (#[trigger] built[i]).id == TrackId((first_track_id + i) as i64) by {
        assert(built_track_at(asset_id, tracks, i, sample_rate, total_frames, first_track_id, built[i]));
    }
}

} // verus!
