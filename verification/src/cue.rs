use vstd::prelude::*;

use crate::lexical::{
    back_ws, find_char, find_char_in, is_ws, lemma_find_char_bounds, lemma_skip_ws_bounds,
    lemma_token_end_bounds, lemma_trimmed_bounds, range_equals, skip_ws, skip_ws_in, token_end,
    token_end_in, trim_range, trimmed,
};
use crate::numeric::{parse_unsigned, parse_unsigned_range};
use crate::text::{chars_of, decimal, push_chars, push_decimal, push_str, string_from_range};

verus! {

/// CUE time runs at 75 frames per second.
pub const CUE_FRAMES_PER_SECOND: u64 = 75;

/// A parsed CUE sheet: the audio file it describes and its tracks.
#[derive(Debug, Clone, PartialEq, Eq)]
pub struct CueSheet {
    pub file: Option<String>,
    pub tracks: Vec<CueTrack>,
}

#[derive(Debug, Clone, PartialEq, Eq)]
pub struct CueTrack {
    pub number: u32,
    pub title: Option<String>,
    pub performer: Option<String>,
    pub index_01: Option<CueTime>,
}

/// A CUE timecode `MM:SS:FF`.
#[derive(Debug, Clone, Copy, PartialEq, Eq, Structural)]
pub struct CueTime {
    pub minutes: u64,
    pub seconds: u8,
    pub frames: u8,
}

#[derive(Debug, Clone, PartialEq, Eq)]
pub enum CueError {
    Empty,
    InvalidLine { line: usize, message: String },
    InvalidTimecode { value: String },
    InvalidSampleRate,
    FrameOverflow,
    TrackWithoutFile,
    IndexWithoutTrack,
    DuplicateIndex01(u32),
    DuplicateTrack(u32),
    NoTracks,
    MissingIndex01(u32),
}

/// The mathematical value of a [`CueTrack`].
pub struct CueTrackView {
    pub number: u32,
    pub title: Option<Seq<char>>,
    pub performer: Option<Seq<char>>,
    pub index_01: Option<CueTime>,
}

/// The mathematical value of a [`CueSheet`].
pub struct CueSheetView {
    pub file: Option<Seq<char>>,
    pub tracks: Seq<CueTrackView>,
}

/// The mathematical value of a [`CueError`].
pub enum CueErrorView {
    Empty,
    InvalidLine { line: usize, message: Seq<char> },
    InvalidTimecode { value: Seq<char> },
    InvalidSampleRate,
    FrameOverflow,
    TrackWithoutFile,
    IndexWithoutTrack,
    DuplicateIndex01(u32),
    DuplicateTrack(u32),
    NoTracks,
    MissingIndex01(u32),
}

pub open spec fn text_view(t: Option<String>) -> Option<Seq<char>> {
    match t {
        Some(s) => Some(s@),
        None => None,
    }
}

impl View for CueTrack {
    type V = CueTrackView;

    open spec fn view(&self) -> CueTrackView {
        CueTrackView {
            number: self.number,
            title: text_view(self.title),
            performer: text_view(self.performer),
            index_01: self.index_01,
        }
    }
}

pub open spec fn tracks_view(tracks: Seq<CueTrack>) -> Seq<CueTrackView> {
    Seq::new(tracks.len(), |i: int| tracks[i]@)
}

impl View for CueSheet {
    type V = CueSheetView;

    open spec fn view(&self) -> CueSheetView {
        CueSheetView { file: text_view(self.file), tracks: tracks_view(self.tracks@) }
    }
}

impl View for CueError {
    type V = CueErrorView;

    open spec fn view(&self) -> CueErrorView {
        match self {
            CueError::Empty => CueErrorView::Empty,
            CueError::InvalidLine { line, message } => CueErrorView::InvalidLine {
                line: *line,
                message: message@,
            },
            CueError::InvalidTimecode { value } => CueErrorView::InvalidTimecode { value: value@ },
            CueError::InvalidSampleRate => CueErrorView::InvalidSampleRate,
            CueError::FrameOverflow => CueErrorView::FrameOverflow,
            CueError::TrackWithoutFile => CueErrorView::TrackWithoutFile,
            CueError::IndexWithoutTrack => CueErrorView::IndexWithoutTrack,
            CueError::DuplicateIndex01(n) => CueErrorView::DuplicateIndex01(*n),
            CueError::DuplicateTrack(n) => CueErrorView::DuplicateTrack(*n),
            CueError::NoTracks => CueErrorView::NoTracks,
            CueError::MissingIndex01(n) => CueErrorView::MissingIndex01(*n),
        }
    }
}

/// The view of a result whose error is a [`CueError`].
pub open spec fn cue_result_view<T, V>(r: Result<T, CueError>, f: spec_fn(T) -> V) -> Result<
    V,
    CueErrorView,
> {
    match r {
        Ok(v) => Ok(f(v)),
        Err(e) => Err(e@),
    }
}

// ---------------------------------------------------------------------
// Timecodes
// ---------------------------------------------------------------------

/// The timecode `MM:SS:FF` that `v` spells: exactly three `:`-separated
/// unsigned literals, seconds below 60 and frames below 75.
pub open spec fn cue_time_of(v: Seq<char>) -> Option<CueTime> {
    let n = v.len() as int;
    let c1 = find_char(v, 0, n, ':');
    let c2 = find_char(v, c1 + 1, n, ':');
    let c3 = find_char(v, c2 + 1, n, ':');
    if c1 >= n || c2 >= n || c3 < n {
        None
    } else {
        match (
            parse_unsigned(v.subrange(0, c1), u64::MAX as nat),
            parse_unsigned(v.subrange(c1 + 1, c2), u8::MAX as nat),
            parse_unsigned(v.subrange(c2 + 1, n), u8::MAX as nat),
        ) {
            (Some(m), Some(sec), Some(f)) => if sec < 60 && f < 75 {
                Some(CueTime { minutes: m as u64, seconds: sec as u8, frames: f as u8 })
            } else {
                None
            },
            _ => None,
        }
    }
}

/// The number of CUE frames (1/75 s) a timecode stands for.
pub open spec fn cue_frames(t: CueTime) -> nat {
    t.minutes as nat * 4500 + t.seconds as nat * 75 + t.frames as nat
}

/// `floor(cue_frames * sample_rate / 75)` when every intermediate fits in `u64`.
pub open spec fn source_frame_of(t: CueTime, sample_rate: u32) -> Result<u64, CueErrorView> {
    if sample_rate == 0 {
        Err(CueErrorView::InvalidSampleRate)
    } else if cue_frames(t) > u64::MAX {
        Err(CueErrorView::FrameOverflow)
    } else if cue_frames(t) * sample_rate > u64::MAX {
        Err(CueErrorView::FrameOverflow)
    } else {
        Ok(((cue_frames(t) * sample_rate) / 75) as u64)
    }
}

/// Parses the timecode spelled by `chars[from..to]`.
fn cue_time_in(chars: &[char], from: usize, to: usize) -> (r: Option<CueTime>)
    requires
        from <= to <= chars@.len(),
    ensures
        r == cue_time_of(chars@.subrange(from as int, to as int)),
{
    let mut v: Vec<char> = Vec::new();
    let mut k = from;
    while k < to
        invariant
            from <= k <= to <= chars@.len(),
            v@ == chars@.subrange(from as int, k as int),
        decreases to - k,
    {
        v.push(chars[k]);
        assert(chars@.subrange(from as int, k + 1) =~= chars@.subrange(from as int, k as int).push(
            chars@[k as int],
        ));
        k = k + 1;
    }
    cue_time_of_chars(&v)
}

fn cue_time_of_chars(v: &Vec<char>) -> (r: Option<CueTime>)
    ensures
        r == cue_time_of(v@),
{
    let n = v.len();
    let c1 = find_char_in(v, 0, n, ':');
    if c1 >= n {
        return None;
    }
    let c2 = find_char_in(v, c1 + 1, n, ':');
    if c2 >= n {
        return None;
    }
    let c3 = find_char_in(v, c2 + 1, n, ':');
    if c3 < n {
        return None;
    }
    let minutes = parse_unsigned_range(v, 0, c1, u64::MAX);
    let seconds = parse_unsigned_range(v, c1 + 1, c2, 255);
    let frames = parse_unsigned_range(v, c2 + 1, n, 255);
    match (minutes, seconds, frames) {
        (Some(m), Some(sec), Some(f)) => {
            if sec < 60 && f < 75 {
                Some(CueTime { minutes: m, seconds: sec as u8, frames: f as u8 })
            } else {
                None
            }
        },
        _ => None,
    }
}

impl CueTime {
    /// Parses `MM:SS:FF`.
    pub fn parse(value: &str) -> (r: Result<Self, CueError>)
        ensures
            match cue_time_of(value@) {
                Some(t) => r == Ok::<CueTime, CueError>(t),
                None => r matches Err(e) && e@ == (CueErrorView::InvalidTimecode { value: value@ }),
            },
    {
        let chars = chars_of(value);
        match cue_time_of_chars(&chars) {
            Some(t) => Ok(t),
            None => Err(CueError::InvalidTimecode { value: value.to_owned() }),
        }
    }

    /// Converts CUE `MM:SS:FF` into source audio frames with integer
    /// arithmetic only: `floor(cue_frames * sample_rate / 75)`.
    pub fn to_source_frame(self, sample_rate: u32) -> (r: Result<u64, CueError>)
        ensures
            cue_result_view(r, |v: u64| v) == source_frame_of(self, sample_rate),
    {
        if sample_rate == 0 {
            return Err(CueError::InvalidSampleRate);
        }
        if self.minutes > u64::MAX / 4500 {
            assert(self.minutes * 4500 > u64::MAX) by (nonlinear_arith)
                requires
                    self.minutes > u64::MAX / 4500,
            ;
            return Err(CueError::FrameOverflow);
        }
        let base = self.minutes * 4500;
        let within = self.seconds as u64 * 75 + self.frames as u64;
        if base > u64::MAX - within {
            return Err(CueError::FrameOverflow);
        }
        let cue_frames_total = base + within;
        assert(cue_frames_total as nat == cue_frames(self));
        if cue_frames_total > u64::MAX / (sample_rate as u64) {
            assert(cue_frames_total * sample_rate > u64::MAX) by (nonlinear_arith)
                requires
                    cue_frames_total > u64::MAX / (sample_rate as u64),
                    sample_rate > 0,
            ;
            return Err(CueError::FrameOverflow);
        }
        assert(cue_frames_total * sample_rate <= u64::MAX) by (nonlinear_arith)
            requires
                cue_frames_total <= u64::MAX / (sample_rate as u64),
                sample_rate > 0,
        ;
        let numerator = cue_frames_total * (sample_rate as u64);
        Ok(numerator / CUE_FRAMES_PER_SECOND)
    }
}

// ---------------------------------------------------------------------
// Track start frames
// ---------------------------------------------------------------------

/// The source frame at which track `i` starts, when its timecode converts.
pub open spec fn start_frame_at(tracks: Seq<CueTrackView>, i: int, sample_rate: u32) -> u64 {
    match tracks[i].index_01 {
        Some(t) => match source_frame_of(t, sample_rate) {
            Ok(f) => f,
            Err(_) => 0,
        },
        None => 0,
    }
}

pub open spec fn out_of_order_message(number: u32) -> Seq<char> {
    "TRACK "@ + decimal(number as nat) + " starts before the previous track"@
}

/// What is wrong with track `i` given that every earlier track was fine:
/// a missing `INDEX 01`, a timecode that does not convert, or a start
/// before the previous track's start.
pub open spec fn start_error_at(tracks: Seq<CueTrackView>, i: int, sample_rate: u32) -> Option<
    CueErrorView,
> {
    let prev: u64 = if i == 0 {
        0
    } else {
        start_frame_at(tracks, i - 1, sample_rate)
    };
    match tracks[i].index_01 {
        None => Some(CueErrorView::MissingIndex01(tracks[i].number)),
        Some(t) => match source_frame_of(t, sample_rate) {
            Err(e) => Some(e),
            Ok(f) => if f < prev {
                Some(
                    CueErrorView::InvalidLine {
                        line: 0,
                        message: out_of_order_message(tracks[i].number),
                    },
                )
            } else {
                None
            },
        },
    }
}

/// Every track has a start frame that does not precede its predecessor's.
pub open spec fn starts_valid(tracks: Seq<CueTrackView>, sample_rate: u32) -> bool {
    forall|i: int| 0 <= i < tracks.len() ==> #[trigger] start_error_at(tracks, i, sample_rate) is None
}

fn out_of_order_error(number: u32) -> (e: CueError)
    ensures
        e@ == (CueErrorView::InvalidLine { line: 0, message: out_of_order_message(number) }),
{
    let mut message = String::new();
    push_str(&mut message, "TRACK ");
    push_decimal(&mut message, number as u64);
    push_str(&mut message, " starts before the previous track");
    assert(message@ =~= out_of_order_message(number));
    CueError::InvalidLine { line: 0, message }
}

/// The start frame of each track, in order, as `(track number, frame)`.
pub fn track_start_frames(sheet: &CueSheet, sample_rate: u32) -> (r: Result<Vec<(u32, u64)>, CueError>)
    ensures
        r is Ok <==> starts_valid(sheet@.tracks, sample_rate),
        r matches Ok(v) ==> v@.len() == sheet@.tracks.len() && forall|i: int|
            0 <= i < v@.len() ==> #[trigger] v@[i] == (
                sheet@.tracks[i].number,
                start_frame_at(sheet@.tracks, i, sample_rate),
            ),
        r matches Err(e) ==> exists|j: int|
            0 <= j < sheet@.tracks.len() && start_error_at(sheet@.tracks, j, sample_rate) == Some(e@)
                && forall|i: int| 0 <= i < j ==> #[trigger] start_error_at(sheet@.tracks, i, sample_rate) is None,
{
    let ghost tracks = sheet@.tracks;
    let mut result: Vec<(u32, u64)> = Vec::new();
    let mut previous_frame: u64 = 0;
    let mut i: usize = 0;
    while i < sheet.tracks.len()
        invariant
            tracks == sheet@.tracks,
            tracks.len() == sheet.tracks@.len(),
            i <= tracks.len(),
            result@.len() == i,
            forall|k: int| 0 <= k < i ==> #[trigger] start_error_at(tracks, k, sample_rate) is None,
            forall|k: int| 0 <= k < i ==> #[trigger] result@[k] == (tracks[k].number, start_frame_at(tracks, k, sample_rate)),
            previous_frame == (if i == 0 { 0 } else { start_frame_at(tracks, i - 1, sample_rate) }),
        decreases tracks.len() - i,
    {
        let track = &sheet.tracks[i];
        assert(tracks[i as int] == track@);
        let cue_time = match track.index_01 {
            Some(t) => t,
            None => {
                return Err(CueError::MissingIndex01(track.number));
            },
        };
        let frame = match cue_time.to_source_frame(sample_rate) {
            Ok(f) => f,
            Err(e) => {
                return Err(e);
            },
        };
        if frame < previous_frame {
            return Err(out_of_order_error(track.number));
        }
        assert(start_error_at(tracks, i as int, sample_rate) is None);
        result.push((track.number, frame));
        previous_frame = frame;
        i = i + 1;
    }
    Ok(result)
}

// ---------------------------------------------------------------------
// Sheet parsing
// ---------------------------------------------------------------------

pub open spec fn line_error(line: int, message: Seq<char>) -> CueErrorView {
    CueErrorView::InvalidLine { line: line as usize, message }
}

/// Where the value of a `FILE`, `TITLE` or `PERFORMER` line lies.
pub enum ValueScan {
    Missing,
    Unterminated,
    Found(int, int),
}

/// Locates a value in `s[p0..q0]`: the text between a leading `"` and the
/// next `"`; otherwise the first word (`bare_token`) or the whole trimmed
/// text.
pub open spec fn scan_value(s: Seq<char>, p0: int, q0: int, bare_token: bool) -> ValueScan {
    let (p, q) = trimmed(s, p0, q0);
    if p >= q {
        ValueScan::Missing
    } else if s[p] == '"' {
        let k = find_char(s, p + 1, q, '"');
        if k >= q {
            ValueScan::Unterminated
        } else {
            ValueScan::Found(p + 1, k)
        }
    } else if bare_token {
        ValueScan::Found(p, token_end(s, p, q))
    } else {
        ValueScan::Found(p, q)
    }
}

pub open spec fn has_track_number(tracks: Seq<CueTrackView>, n: u32) -> bool {
    exists|j: int| 0 <= j < tracks.len() && #[trigger] tracks[j].number == n
}

pub open spec fn with_last_track(st: CueSheetView, t: CueTrackView) -> CueSheetView {
    CueSheetView { file: st.file, tracks: st.tracks.update(st.tracks.len() - 1, t) }
}

/// A `TRACK nn AUDIO` line.
pub open spec fn track_line(s: Seq<char>, line: int, p: int, q: int, st: CueSheetView) -> Result<
    CueSheetView,
    CueErrorView,
> {
    let t1a = skip_ws(s, p, q);
    let t1b = token_end(s, t1a, q);
    if st.file is None {
        Err(CueErrorView::TrackWithoutFile)
    } else if t1a >= q {
        Err(line_error(line, "TRACK number missing"@))
    } else {
        match parse_unsigned(s.subrange(t1a, t1b), u32::MAX as nat) {
            None => Err(line_error(line, "invalid TRACK number: "@ + s.subrange(t1a, t1b))),
            Some(n) => {
                let t2a = skip_ws(s, t1b, q);
                let t2b = token_end(s, t2a, q);
                if t2a >= q {
                    Err(line_error(line, "TRACK type missing"@))
                } else if s.subrange(t2a, t2b) != "AUDIO"@ {
                    Err(line_error(line, "unsupported TRACK type: "@ + s.subrange(t2a, t2b)))
                } else if has_track_number(st.tracks, n as u32) {
                    Err(CueErrorView::DuplicateTrack(n as u32))
                } else {
                    Ok(
                        CueSheetView {
                            file: st.file,
                            tracks: st.tracks.push(
                                CueTrackView {
                                    number: n as u32,
                                    title: None,
                                    performer: None,
                                    index_01: None,
                                },
                            ),
                        },
                    )
                }
            },
        }
    }
}

/// A `TITLE` (`is_title`) or `PERFORMER` line for the current track.
pub open spec fn text_line(
    s: Seq<char>,
    line: int,
    p: int,
    q: int,
    st: CueSheetView,
    name: Seq<char>,
    is_title: bool,
) -> Result<CueSheetView, CueErrorView> {
    if st.tracks.len() == 0 {
        Err(line_error(line, name + " encountered before TRACK"@))
    } else {
        match scan_value(s, p, q, false) {
            ValueScan::Missing => Err(line_error(line, name + " value missing"@)),
            ValueScan::Unterminated => Err(line_error(line, "unterminated quoted "@ + name)),
            ValueScan::Found(x, y) => {
                let t = st.tracks.last();
                let v = Some(s.subrange(x, y));
                Ok(
                    with_last_track(
                        st,
                        if is_title {
                            CueTrackView {
                                number: t.number,
                                title: v,
                                performer: t.performer,
                                index_01: t.index_01,
                            }
                        } else {
                            CueTrackView {
                                number: t.number,
                                title: t.title,
                                performer: v,
                                index_01: t.index_01,
                            }
                        },
                    ),
                )
            },
        }
    }
}

/// An `INDEX nn MM:SS:FF` line; only `INDEX 01` is recorded.
pub open spec fn index_line(s: Seq<char>, line: int, p: int, q: int, st: CueSheetView) -> Result<
    CueSheetView,
    CueErrorView,
> {
    let t1a = skip_ws(s, p, q);
    let t1b = token_end(s, t1a, q);
    let t2a = skip_ws(s, t1b, q);
    let t2b = token_end(s, t2a, q);
    if t1a >= q {
        Err(line_error(line, "INDEX number missing"@))
    } else if t2a >= q {
        Err(line_error(line, "INDEX time missing"@))
    } else if s.subrange(t1a, t1b) != "01"@ {
        Ok(st)
    } else if st.tracks.len() == 0 {
        Err(CueErrorView::IndexWithoutTrack)
    } else if st.tracks.last().index_01 is Some {
        Err(CueErrorView::DuplicateIndex01(st.tracks.last().number))
    } else {
        match cue_time_of(s.subrange(t2a, t2b)) {
            None => Err(CueErrorView::InvalidTimecode { value: s.subrange(t2a, t2b) }),
            Some(time) => {
                let t = st.tracks.last();
                Ok(
                    with_last_track(
                        st,
                        CueTrackView {
                            number: t.number,
                            title: t.title,
                            performer: t.performer,
                            index_01: Some(time),
                        },
                    ),
                )
            },
        }
    }
}

/// Directives that are valid CUE but carry nothing the track model keeps.
pub open spec fn ignored_directive(cmd: Seq<char>) -> bool {
    ||| cmd == "CATALOG"@
    ||| cmd == "CDTEXTFILE"@
    ||| cmd == "FLAGS"@
    ||| cmd == "ISRC"@
    ||| cmd == "POSTGAP"@
    ||| cmd == "PREGAP"@
    ||| cmd == "SONGWRITER"@
}

/// The effect of the non-empty trimmed line `s[a..b]`, numbered `line`.
/// The command is its first word; the rest of the line, trimmed, is its
/// argument.
pub open spec fn cue_line(s: Seq<char>, line: int, a: int, b: int, st: CueSheetView) -> Result<
    CueSheetView,
    CueErrorView,
> {
    let e = token_end(s, a, b);
    let cmd = s.subrange(a, e);
    let (p, q) = trimmed(s, e, b);
    if cmd == "REM"@ {
        Ok(st)
    } else if cmd == "FILE"@ {
        match scan_value(s, p, q, true) {
            ValueScan::Missing => Err(line_error(line, "FILE value missing"@)),
            ValueScan::Unterminated => Err(line_error(line, "unterminated quoted FILE"@)),
            ValueScan::Found(x, y) => if x >= y {
                Err(line_error(line, "FILE path is empty"@))
            } else {
                Ok(CueSheetView { file: Some(s.subrange(x, y)), tracks: st.tracks })
            },
        }
    } else if cmd == "TRACK"@ {
        track_line(s, line, p, q, st)
    } else if cmd == "TITLE"@ {
        text_line(s, line, p, q, st, "TITLE"@, true)
    } else if cmd == "PERFORMER"@ {
        text_line(s, line, p, q, st, "PERFORMER"@, false)
    } else if cmd == "INDEX"@ {
        index_line(s, line, p, q, st)
    } else if ignored_directive(cmd) {
        Ok(st)
    } else {
        Err(line_error(line, "unsupported directive: "@ + cmd))
    }
}

/// The first track, in order, that lacks `INDEX 01`.
pub open spec fn first_missing_index(tracks: Seq<CueTrackView>) -> Option<u32>
    decreases tracks.len(),
{
    if tracks.len() == 0 {
        None
    } else if tracks[0].index_01 is None {
        Some(tracks[0].number)
    } else {
        first_missing_index(tracks.drop_first())
    }
}

/// The checks made once every line has been read.
pub open spec fn cue_finish(st: CueSheetView) -> Result<CueSheetView, CueErrorView> {
    if st.file is None {
        Err(line_error(0, "missing FILE directive"@))
    } else if st.tracks.len() == 0 {
        Err(CueErrorView::NoTracks)
    } else {
        match first_missing_index(st.tracks) {
            Some(n) => Err(CueErrorView::MissingIndex01(n)),
            None => Ok(st),
        }
    }
}

/// Reads the lines of `s` from `pos` on, the first of them numbered `line`:
/// lines are separated by `\n`, trimmed, and skipped when empty.
pub open spec fn cue_lines(s: Seq<char>, pos: int, line: int, st: CueSheetView) -> Result<
    CueSheetView,
    CueErrorView,
>
    decreases s.len() + 1 - pos,
{
    if pos < 0 || pos > s.len() {
        cue_finish(st)
    } else {
        let e = find_char(s, pos, s.len() as int, '\n');
        let (a, b) = trimmed(s, pos, e);
        proof {
            lemma_find_char_bounds(s, pos, s.len() as int, '\n');
        }
        if e < pos {
            cue_finish(st)
        } else if a >= b {
            cue_lines(s, e + 1, line + 1, st)
        } else {
            match cue_line(s, line, a, b, st) {
                Err(err) => Err(err),
                Ok(next) => cue_lines(s, e + 1, line + 1, next),
            }
        }
    }
}

pub open spec fn empty_sheet() -> CueSheetView {
    CueSheetView { file: None, tracks: Seq::empty() }
}

/// The result of parsing the CUE text `s`.
pub open spec fn parse_cue(s: Seq<char>) -> Result<CueSheetView, CueErrorView> {
    if skip_ws(s, 0, s.len() as int) >= s.len() {
        Err(CueErrorView::Empty)
    } else {
        cue_lines(s, 0, 1, empty_sheet())
    }
}

fn fixed_error(line: usize, text: &str) -> (e: CueError)
    ensures
        e@ == line_error(line as int, text@),
{
    CueError::InvalidLine { line, message: text.to_owned() }
}

fn text_error(line: usize, head: &str, s: &[char], from: usize, to: usize) -> (e: CueError)
    requires
        from <= to <= s@.len(),
    ensures
        e@ == line_error(line as int, head@ + s@.subrange(from as int, to as int)),
{
    let mut message = String::new();
    push_str(&mut message, head);
    push_chars(&mut message, s, from, to);
    CueError::InvalidLine { line, message }
}

fn is_literal(s: &[char], from: usize, to: usize, lit: &str) -> (r: bool)
    requires
        from <= to <= s@.len(),
    ensures
        r == (s@.subrange(from as int, to as int) == lit@),
{
    let l = chars_of(lit);
    range_equals(s, from, to, l.as_slice())
}

fn scan_value_in(s: &[char], p0: usize, q0: usize, bare_token: bool) -> (r: (u8, usize, usize))
    requires
        p0 <= q0 <= s@.len(),
    ensures
        r.1 <= r.2 <= q0,
        match scan_value(s@, p0 as int, q0 as int, bare_token) {
            ValueScan::Missing => r.0 == 0,
            ValueScan::Unterminated => r.0 == 1,
            ValueScan::Found(x, y) => r.0 == 2 && r.1 == x && r.2 == y,
        },
{
    let (p, q) = trim_range(s, p0, q0);
    if p >= q {
        return (0, 0, 0);
    }
    if s[p] == '"' {
        let k = find_char_in(s, p + 1, q, '"');
        if k >= q {
            return (1, 0, 0);
        }
        return (2, p + 1, k);
    }
    if bare_token {
        let t = token_end_in(s, p, q);
        (2, p, t)
    } else {
        (2, p, q)
    }
}

fn has_number(tracks: &Vec<CueTrack>, n: u32) -> (r: bool)
    ensures
        r == has_track_number(tracks_view(tracks@), n),
{
    let mut i: usize = 0;
    while i < tracks.len()
        invariant
            i <= tracks@.len(),
            forall|j: int| 0 <= j < i ==> tracks@[j].number != n,
        decreases tracks@.len() - i,
    {
        if tracks[i].number == n {
            assert(tracks_view(tracks@)[i as int].number == n);
            return true;
        }
        i = i + 1;
    }
    assert forall|j: int| 0 <= j < tracks_view(tracks@).len() implies #[trigger] tracks_view(
        tracks@,
    )[j].number != n by {
        assert(tracks_view(tracks@)[j] == tracks@[j]@);
    }
    false
}

fn apply_track_line(s: &[char], line: usize, p: usize, q: usize, sheet: &mut CueSheet) -> (r: Result<(), CueError>)
    requires
        p <= q <= s@.len(),
    ensures
        match track_line(s@, line as int, p as int, q as int, old(sheet)@) {
            Ok(st) => r is Ok && final(sheet)@ == st,
            Err(e) => r matches Err(x) && x@ == e,
        },
{
    let t1a = skip_ws_in(s, p, q);
    let t1b = token_end_in(s, t1a, q);
    if sheet.file.is_none() {
        return Err(CueError::TrackWithoutFile);
    }
    if t1a >= q {
        return Err(fixed_error(line, "TRACK number missing"));
    }
    let number = match parse_unsigned_range(s, t1a, t1b, u32::MAX as u64) {
        Some(n) => n as u32,
        None => {
            return Err(text_error(line, "invalid TRACK number: ", s, t1a, t1b));
        },
    };
    let t2a = skip_ws_in(s, t1b, q);
    let t2b = token_end_in(s, t2a, q);
    if t2a >= q {
        return Err(fixed_error(line, "TRACK type missing"));
    }
    if !is_literal(s, t2a, t2b, "AUDIO") {
        return Err(text_error(line, "unsupported TRACK type: ", s, t2a, t2b));
    }
    if has_number(&sheet.tracks, number) {
        return Err(CueError::DuplicateTrack(number));
    }
    let ghost before = sheet.tracks@;
    sheet.tracks.push(CueTrack { number, title: None, performer: None, index_01: None });
    assert(tracks_view(sheet.tracks@) =~= tracks_view(before).push(
        CueTrackView { number, title: None, performer: None, index_01: None },
    ));
    Ok(())
}

fn apply_text_line(
    s: &[char],
    line: usize,
    p: usize,
    q: usize,
    sheet: &mut CueSheet,
    name: &str,
    is_title: bool,
) -> (r: Result<(), CueError>)
    requires
        p <= q <= s@.len(),
    ensures
        match text_line(s@, line as int, p as int, q as int, old(sheet)@, name@, is_title) {
            Ok(st) => r is Ok && final(sheet)@ == st,
            Err(e) => r matches Err(x) && x@ == e,
        },
{
    if sheet.tracks.len() == 0 {
        let mut message = String::new();
        push_str(&mut message, name);
        push_str(&mut message, " encountered before TRACK");
        return Err(CueError::InvalidLine { line, message });
    }
    let (kind, x, y) = scan_value_in(s, p, q, false);
    if kind == 0 {
        let mut message = String::new();
        push_str(&mut message, name);
        push_str(&mut message, " value missing");
        return Err(CueError::InvalidLine { line, message });
    }
    if kind == 1 {
        let mut message = String::new();
        push_str(&mut message, "unterminated quoted ");
        push_str(&mut message, name);
        return Err(CueError::InvalidLine { line, message });
    }
    let value = string_from_range(s, x, y);
    let ghost before = sheet.tracks@;
    let mut track = sheet.tracks.pop().unwrap();
    assert(track == before.last());
    if is_title {
        track.title = Some(value);
    } else {
        track.performer = Some(value);
    }
    sheet.tracks.push(track);
    assert(tracks_view(sheet.tracks@) =~= tracks_view(before).update(
        before.len() - 1,
        track@,
    ));
    Ok(())
}

fn apply_index_line(s: &[char], line: usize, p: usize, q: usize, sheet: &mut CueSheet) -> (r: Result<(), CueError>)
    requires
        p <= q <= s@.len(),
    ensures
        match index_line(s@, line as int, p as int, q as int, old(sheet)@) {
            Ok(st) => r is Ok && final(sheet)@ == st,
            Err(e) => r matches Err(x) && x@ == e,
        },
{
    let t1a = skip_ws_in(s, p, q);
    let t1b = token_end_in(s, t1a, q);
    let t2a = skip_ws_in(s, t1b, q);
    let t2b = token_end_in(s, t2a, q);
    if t1a >= q {
        return Err(fixed_error(line, "INDEX number missing"));
    }
    if t2a >= q {
        return Err(fixed_error(line, "INDEX time missing"));
    }
    if !is_literal(s, t1a, t1b, "01") {
        return Ok(());
    }
    let n = sheet.tracks.len();
    if n == 0 {
        return Err(CueError::IndexWithoutTrack);
    }
    assert(sheet@.tracks.last() == sheet.tracks@[n - 1]@);
    if sheet.tracks[n - 1].index_01.is_some() {
        return Err(CueError::DuplicateIndex01(sheet.tracks[n - 1].number));
    }
    let time = match cue_time_in(s, t2a, t2b) {
        Some(t) => t,
        None => {
            return Err(CueError::InvalidTimecode { value: string_from_range(s, t2a, t2b) });
        },
    };
    let ghost before = sheet.tracks@;
    let mut track = sheet.tracks.pop().unwrap();
    assert(track == before.last());
    track.index_01 = Some(time);
    sheet.tracks.push(track);
    assert(tracks_view(sheet.tracks@) =~= tracks_view(before).update(
        before.len() - 1,
        track@,
    ));
    Ok(())
}

fn is_ignored_directive(s: &[char], a: usize, e: usize) -> (r: bool)
    requires
        a <= e <= s@.len(),
    ensures
        r == ignored_directive(s@.subrange(a as int, e as int)),
{
    is_literal(s, a, e, "CATALOG") || is_literal(s, a, e, "CDTEXTFILE") || is_literal(
        s,
        a,
        e,
        "FLAGS",
    ) || is_literal(s, a, e, "ISRC") || is_literal(s, a, e, "POSTGAP") || is_literal(
        s,
        a,
        e,
        "PREGAP",
    ) || is_literal(s, a, e, "SONGWRITER")
}

fn apply_line(s: &[char], line: usize, a: usize, b: usize, sheet: &mut CueSheet) -> (r: Result<(), CueError>)
    requires
        a <= b <= s@.len(),
    ensures
        match cue_line(s@, line as int, a as int, b as int, old(sheet)@) {
            Ok(st) => r is Ok && final(sheet)@ == st,
            Err(e) => r matches Err(x) && x@ == e,
        },
{
    let e = token_end_in(s, a, b);
    let (p, q) = trim_range(s, e, b);
    if is_literal(s, a, e, "REM") {
        return Ok(());
    }
    if is_literal(s, a, e, "FILE") {
        let (kind, x, y) = scan_value_in(s, p, q, true);
        if kind == 0 {
            return Err(fixed_error(line, "FILE value missing"));
        }
        if kind == 1 {
            return Err(fixed_error(line, "unterminated quoted FILE"));
        }
        if x >= y {
            return Err(fixed_error(line, "FILE path is empty"));
        }
        sheet.file = Some(string_from_range(s, x, y));
        return Ok(());
    }
    if is_literal(s, a, e, "TRACK") {
        return apply_track_line(s, line, p, q, sheet);
    }
    if is_literal(s, a, e, "TITLE") {
        return apply_text_line(s, line, p, q, sheet, "TITLE", true);
    }
    if is_literal(s, a, e, "PERFORMER") {
        return apply_text_line(s, line, p, q, sheet, "PERFORMER", false);
    }
    if is_literal(s, a, e, "INDEX") {
        return apply_index_line(s, line, p, q, sheet);
    }
    if is_ignored_directive(s, a, e) {
        return Ok(());
    }
    Err(text_error(line, "unsupported directive: ", s, a, e))
}

fn first_missing(tracks: &Vec<CueTrack>) -> (r: Option<u32>)
    ensures
        r == first_missing_index(tracks_view(tracks@)),
{
    let mut i: usize = 0;
    assert(tracks_view(tracks@).subrange(0, tracks@.len() as int) =~= tracks_view(tracks@));
    while i < tracks.len()
        invariant
            i <= tracks@.len(),
            first_missing_index(tracks_view(tracks@).subrange(i as int, tracks@.len() as int))
                == first_missing_index(tracks_view(tracks@)),
        decreases tracks@.len() - i,
    {
        let ghost rest = tracks_view(tracks@).subrange(i as int, tracks@.len() as int);
        assert(rest[0] == tracks@[i as int]@);
        if tracks[i].index_01.is_none() {
            return Some(tracks[i].number);
        }
        assert(rest.drop_first() =~= tracks_view(tracks@).subrange(i + 1, tracks@.len() as int));
        i = i + 1;
    }
    assert(tracks_view(tracks@).subrange(i as int, tracks@.len() as int) =~= Seq::<CueTrackView>::empty());
    None
}

/// No two tracks share a number.
pub open spec fn distinct_numbers(tracks: Seq<CueTrackView>) -> bool {
    forall|i: int, j: int|
        0 <= i < tracks.len() && 0 <= j < tracks.len() && i != j ==> #[trigger] tracks[i].number
            != #[trigger] tracks[j].number
}

/// Every track has an `INDEX 01`.
pub open spec fn all_indexed(tracks: Seq<CueTrackView>) -> bool {
    forall|i: int| 0 <= i < tracks.len() ==> (#[trigger] tracks[i]).index_01 is Some
}

proof fn lemma_first_missing_none(tracks: Seq<CueTrackView>)
    requires
        first_missing_index(tracks) is None,
    ensures
        all_indexed(tracks),
    decreases tracks.len(),
{
    if tracks.len() > 0 {
        lemma_first_missing_none(tracks.drop_first());
        assert forall|i: int| 0 <= i < tracks.len() implies (#[trigger] tracks[i]).index_01 is Some by {
            if i > 0 {
                assert(tracks[i] == tracks.drop_first()[i - 1]);
            }
        }
    }
}

proof fn lemma_cue_line_keeps_distinct(s: Seq<char>, line: int, a: int, b: int, st: CueSheetView)
    requires
        distinct_numbers(st.tracks),
        cue_line(s, line, a, b, st) is Ok,
    ensures
        distinct_numbers(cue_line(s, line, a, b, st)->Ok_0.tracks),
{
    let next = cue_line(s, line, a, b, st)->Ok_0;
    if next.tracks.len() == st.tracks.len() + 1 {
        // a TRACK line: the new number is not among the old ones
        assert forall|i: int, j: int|
            0 <= i < next.tracks.len() && 0 <= j < next.tracks.len() && i != j implies #[trigger] next.tracks[i].number
            != #[trigger] next.tracks[j].number by {
            if i < st.tracks.len() && j < st.tracks.len() {
                assert(next.tracks[i] == st.tracks[i]);
                assert(next.tracks[j] == st.tracks[j]);
            } else if i < st.tracks.len() {
                assert(next.tracks[i] == st.tracks[i]);
            } else {
                assert(next.tracks[j] == st.tracks[j]);
            }
        }
    } else {
        assert(next.tracks.len() == st.tracks.len());
        assert forall|i: int| 0 <= i < next.tracks.len() implies #[trigger] next.tracks[i].number
            == st.tracks[i].number by {}
        assert forall|i: int, j: int|
            0 <= i < next.tracks.len() && 0 <= j < next.tracks.len() && i != j implies #[trigger] next.tracks[i].number
            != #[trigger] next.tracks[j].number by {
            assert(next.tracks[i].number == st.tracks[i].number);
            assert(next.tracks[j].number == st.tracks[j].number);
        }
    }
}

proof fn lemma_cue_lines_complete(s: Seq<char>, pos: int, line: int, st: CueSheetView)
    requires
        distinct_numbers(st.tracks),
        cue_lines(s, pos, line, st) is Ok,
    ensures
        ({
            let r = cue_lines(s, pos, line, st)->Ok_0;
            &&& r.file is Some
            &&& r.tracks.len() > 0
            &&& all_indexed(r.tracks)
            &&& distinct_numbers(r.tracks)
        }),
    decreases s.len() + 1 - pos,
{
    if pos < 0 || pos > s.len() {
        lemma_first_missing_none(st.tracks);
    } else {
        let e = find_char(s, pos, s.len() as int, '\n');
        let (a, b) = trimmed(s, pos, e);
        lemma_find_char_bounds(s, pos, s.len() as int, '\n');
        if a >= b {
            lemma_cue_lines_complete(s, e + 1, line + 1, st);
        } else {
            lemma_cue_line_keeps_distinct(s, line, a, b, st);
            lemma_cue_lines_complete(s, e + 1, line + 1, cue_line(s, line, a, b, st)->Ok_0);
        }
    }
}

/// A sheet that parses names its audio file, has at least one track, gives
/// every track an `INDEX 01`, and never repeats a track number.
pub proof fn lemma_parsed_sheet_is_complete(s: Seq<char>)
    requires
        parse_cue(s) is Ok,
    ensures
        ({
            let sheet = parse_cue(s)->Ok_0;
            &&& sheet.file is Some
            &&& sheet.tracks.len() > 0
            &&& all_indexed(sheet.tracks)
            &&& distinct_numbers(sheet.tracks)
        }),
{
    lemma_cue_lines_complete(s, 0, 1, empty_sheet());
}

/// The positions of the parts of the trimmed line `s[a..b]`: the end of its
/// command word, the first word after it and the word after that.
pub open spec fn line_words(s: Seq<char>, a: int, b: int) -> (int, int, int, int, int, int) {
    let e = token_end(s, a, b);
    let (p, q) = trimmed(s, e, b);
    let n1 = skip_ws(s, p, q);
    let n2 = token_end(s, n1, q);
    let t1 = skip_ws(s, n2, q);
    let t2 = token_end(s, t1, q);
    (e, q, n1, n2, t1, t2)
}

/// Whether the trimmed line `s[a..b]` reads `INDEX <number> <time>`, with the
/// given index number.
pub open spec fn is_index_line(s: Seq<char>, a: int, b: int, number: Seq<char>) -> bool {
    let (e, q, n1, n2, t1, t2) = line_words(s, a, b);
    &&& s.subrange(a, e) == "INDEX"@
    &&& n1 < q
    &&& t1 < q
    &&& s.subrange(n1, n2) == number
}

/// `INDEX` is none of the other commands a line can start with.
proof fn lemma_index_is_its_own_command()
    ensures
        "INDEX"@ != "REM"@,
        "INDEX"@ != "FILE"@,
        "INDEX"@ != "TRACK"@,
        "INDEX"@ != "TITLE"@,
        "INDEX"@ != "PERFORMER"@,
{
    reveal_strlit("INDEX");
    reveal_strlit("REM");
    reveal_strlit("FILE");
    reveal_strlit("TRACK");
    reveal_strlit("TITLE");
    reveal_strlit("PERFORMER");
    assert("INDEX"@.len() != "REM"@.len());
    assert("INDEX"@.len() != "FILE"@.len());
    assert("INDEX"@[0] != "TRACK"@[0]);
    assert("INDEX"@[0] != "TITLE"@[0]);
    assert("INDEX"@.len() != "PERFORMER"@.len());
}

/// An `INDEX` line whose number is not `01` (a pregap `INDEX 00`, or a later
/// index point) leaves the sheet read so far exactly as it was.
pub proof fn lemma_other_index_line_changes_nothing(
    s: Seq<char>,
    line: int,
    a: int,
    b: int,
    number: Seq<char>,
    st: CueSheetView,
)
    requires
        is_index_line(s, a, b, number),
        number != "01"@,
    ensures
        cue_line(s, line, a, b, st) == Ok::<CueSheetView, CueErrorView>(st),
{
    lemma_index_is_its_own_command();
}

/// Reading a sheet past an `INDEX` line whose number is not `01` gives the
/// same result as skipping that line like an empty one: such lines never
/// change the parsed sheet.
pub proof fn lemma_other_index_lines_are_skipped(
    s: Seq<char>,
    pos: int,
    line: int,
    number: Seq<char>,
    st: CueSheetView,
)
    requires
        0 <= pos <= s.len(),
        number != "01"@,
        is_index_line(
            s,
            trimmed(s, pos, find_char(s, pos, s.len() as int, '\n')).0,
            trimmed(s, pos, find_char(s, pos, s.len() as int, '\n')).1,
            number,
        ),
    ensures
        cue_lines(s, pos, line, st) == cue_lines(
            s,
            find_char(s, pos, s.len() as int, '\n') + 1,
            line + 1,
            st,
        ),
{
    let e = find_char(s, pos, s.len() as int, '\n');
    let (a, b) = trimmed(s, pos, e);
    lemma_find_char_bounds(s, pos, s.len() as int, '\n');
    lemma_trimmed_bounds(s, pos, e);
    reveal_strlit("INDEX");
    assert(a < b);
    lemma_other_index_line_changes_nothing(s, line, a, b, number, st);
}

/// An `INDEX 01` line that is accepted sets the current track's `index_01`
/// to the timecode written on that line, and only when the track had none:
/// the file, the other tracks and the current track's number, title and
/// performer stay as they were.
pub proof fn lemma_index_01_records_its_time(s: Seq<char>, line: int, a: int, b: int, st: CueSheetView)
    requires
        is_index_line(s, a, b, "01"@),
        cue_line(s, line, a, b, st) is Ok,
    ensures
        ({
            let next = cue_line(s, line, a, b, st)->Ok_0;
            let (e, q, n1, n2, t1, t2) = line_words(s, a, b);
            &&& st.tracks.len() > 0
            &&& st.tracks.last().index_01 is None
            &&& next.file == st.file
            &&& next.tracks.len() == st.tracks.len()
            &&& forall|i: int| 0 <= i < st.tracks.len() - 1 ==> next.tracks[i] == st.tracks[i]
            &&& next.tracks.last().index_01 == cue_time_of(s.subrange(t1, t2))
            &&& next.tracks.last().index_01 is Some
            &&& next.tracks.last().number == st.tracks.last().number
            &&& next.tracks.last().title == st.tracks.last().title
            &&& next.tracks.last().performer == st.tracks.last().performer
        }),
{
    lemma_index_is_its_own_command();
    reveal_strlit("01");
}

/// Parses a CUE sheet.
pub fn parse_chars(s: &[char]) -> (r: Result<CueSheet, CueError>)
    requires
        s@.len() + 2 <= usize::MAX,
    ensures
        cue_result_view(r, |v: CueSheet| v@) == parse_cue(s@),
{
    let n = s.len();
    let first = skip_ws_in(s, 0, n);
    if first >= n {
        return Err(CueError::Empty);
    }
    let mut sheet = CueSheet { file: None, tracks: Vec::new() };
    assert(sheet@ =~= empty_sheet()) by {
        assert(tracks_view(sheet.tracks@) =~= Seq::<CueTrackView>::empty());
    }
    let mut pos: usize = 0;
    let mut line: usize = 1;
    while pos <= n
        invariant
            n == s@.len(),
            n + 2 <= usize::MAX,
            pos <= n + 1,
            line <= pos + 1,
            cue_lines(s@, pos as int, line as int, sheet@) == cue_lines(s@, 0, 1, empty_sheet()),
            parse_cue(s@) == cue_lines(s@, 0, 1, empty_sheet()),
        decreases n + 1 - pos,
    {
        let e = find_char_in(s, pos, n, '\n');
        let (a, b) = trim_range(s, pos, e);
        proof {
            lemma_find_char_bounds(s@, pos as int, n as int, '\n');
        }
        if a < b {
            let ghost before = sheet@;
            match apply_line(s, line, a, b, &mut sheet) {
                Ok(()) => {},
                Err(err) => {
                    assert(cue_lines(s@, pos as int, line as int, before) == Err::<CueSheetView, CueErrorView>(err@));
                    return Err(err);
                },
            }
        }
        pos = e + 1;
        line = line + 1;
    }
    if sheet.file.is_none() {
        return Err(fixed_error(0, "missing FILE directive"));
    }
    if sheet.tracks.len() == 0 {
        return Err(CueError::NoTracks);
    }
    match first_missing(&sheet.tracks) {
        Some(number) => Err(CueError::MissingIndex01(number)),
        None => Ok(sheet),
    }
}

/// Parses the text of a CUE sheet.
pub fn parse(input: &str) -> (r: Result<CueSheet, CueError>)
    requires
        input@.len() + 2 <= usize::MAX,
    ensures
        cue_result_view(r, |v: CueSheet| v@) == parse_cue(input@),
{
    let chars = chars_of(input);
    parse_chars(chars.as_slice())
}

} // verus!
