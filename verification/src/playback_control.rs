use vstd::prelude::*;

use crate::decoder::{AudioFormat, SampleFormat};
use crate::output_policy::{plan_of, OutputPlan, OutputPolicy, OutputPolicyError};
use crate::playback_model::PlaybackTrack;

verus! {

/// Where a player stands.
#[derive(Debug, Clone, Copy, PartialEq, Eq, Structural)]
pub enum PlaybackState {
    Idle,
    Loaded,
    Playing,
    Paused,
    Stopped,
}

/// The output-rate choice offered to the user.
#[derive(Debug, Clone, Copy, PartialEq, Eq, Structural)]
pub enum PlaybackOutputMode {
    Auto,
    Fixed44100,
    Fixed48000,
    Fixed96000,
}

impl PlaybackOutputMode {
    /// The output policy a mode stands for.
    pub open spec fn policy_of(self) -> OutputPolicy {
        match self {
            PlaybackOutputMode::Auto => OutputPolicy::Auto,
            PlaybackOutputMode::Fixed44100 => OutputPolicy::Fixed { sample_rate: 44_100 },
            PlaybackOutputMode::Fixed48000 => OutputPolicy::Fixed { sample_rate: 48_000 },
            PlaybackOutputMode::Fixed96000 => OutputPolicy::Fixed { sample_rate: 96_000 },
        }
    }

    pub fn policy(self) -> (r: OutputPolicy)
        ensures
            r == self.policy_of(),
    {
        match self {
            PlaybackOutputMode::Auto => OutputPolicy::Auto,
            PlaybackOutputMode::Fixed44100 => OutputPolicy::Fixed { sample_rate: 44_100 },
            PlaybackOutputMode::Fixed48000 => OutputPolicy::Fixed { sample_rate: 48_000 },
            PlaybackOutputMode::Fixed96000 => OutputPolicy::Fixed { sample_rate: 96_000 },
        }
    }

    /// The output plan of this mode for a source rate and the device's rates.
    pub fn plan(self, source_sample_rate: u32, supported_rates: &[u32]) -> (r: Result<
        OutputPlan,
        OutputPolicyError,
    >)
        ensures
            r == plan_of(self.policy_of(), source_sample_rate, supported_rates@),
    {
        self.policy().plan(source_sample_rate, supported_rates)
    }
}

#[derive(Debug, Clone, PartialEq, Eq)]
pub enum PlaybackError {
    NotLoaded,
    InvalidState(PlaybackState),
    Probe(String),
    Decoder(String),
    DecoderWorkerError(String),
    DecoderWorkerPanic,
    DecoderWorkerStart,
    CoreAudio(String),
    OutputPolicy(OutputPolicyError),
    UnsupportedSourceFormat(&'static str),
    InvalidSeekTarget(u64),
}

/// What a playback service call can fail with.
#[derive(Debug, Clone, PartialEq, Eq)]
pub enum PlaybackServiceError {
    Library(String),
    Playback(PlaybackError),
    TrackNotFound { track_id: i64 },
}

/// What loading a library track asks of the player: the track to open and,
/// when it starts past the first frame of its file, the source frame to seek
/// to once it is open.
pub struct TrackLoad {
    pub track: PlaybackTrack,
    pub seek_to: Option<u64>,
}

/// Decides a track load from the library's answer for `track_id` (its error
/// already as text): an error is reported as a library error, a missing
/// track as not found, and a found track is opened and, when it starts past
/// frame 0, sought to its start.
pub fn track_to_load(track_id: i64, lookup: Result<Option<PlaybackTrack>, String>) -> (r: Result<
    TrackLoad,
    PlaybackServiceError,
>)
    ensures
        lookup matches Err(m) ==> r == Err::<TrackLoad, PlaybackServiceError>(
            PlaybackServiceError::Library(m),
        ),
        lookup matches Ok(None) ==> r == Err::<TrackLoad, PlaybackServiceError>(
            PlaybackServiceError::TrackNotFound { track_id },
        ),
        lookup matches Ok(Some(t)) ==> r matches Ok(load) && load.track == t && load.seek_to == if t.start_frame
            > 0 {
            Some(t.start_frame)
        } else {
            None::<u64>
        },
{
    match lookup {
        Err(message) => Err(PlaybackServiceError::Library(message)),
        Ok(None) => Err(PlaybackServiceError::TrackNotFound { track_id }),
        Ok(Some(track)) => {
            let seek_to = if track.start_frame > 0 {
                Some(track.start_frame)
            } else {
                None
            };
            Ok(TrackLoad { track, seek_to })
        },
    }
}

/// The source rate, channel count and integer bit depth a player can open, or
/// why the source format is refused.
pub open spec fn source_format_of(format: AudioFormat) -> Result<(u32, u32, u32), PlaybackError> {
    if format.sample_rate == 0 {
        Err(PlaybackError::UnsupportedSourceFormat("sample rate is zero"))
    } else if format.channels == 0 {
        Err(PlaybackError::UnsupportedSourceFormat("channel count is zero"))
    } else {
        match format.sample_format {
            SampleFormat::SignedInt(bits) => if bits == 0 {
                Err(PlaybackError::UnsupportedSourceFormat("integer bit depth is zero"))
            } else {
                Ok((format.sample_rate, format.channels, bits as u32))
            },
            SampleFormat::Float(_) => Err(
                PlaybackError::UnsupportedSourceFormat("floating-point source PCM is not enabled yet"),
            ),
        }
    }
}

pub fn source_format(format: AudioFormat) -> (r: Result<(u32, u32, u32), PlaybackError>)
    ensures
        r == source_format_of(format),
{
    if format.sample_rate == 0 {
        return Err(PlaybackError::UnsupportedSourceFormat("sample rate is zero"));
    }
    if format.channels == 0 {
        return Err(PlaybackError::UnsupportedSourceFormat("channel count is zero"));
    }
    match format.sample_format {
        SampleFormat::SignedInt(bits) => {
            if bits == 0 {
                return Err(PlaybackError::UnsupportedSourceFormat("integer bit depth is zero"));
            }
            Ok((format.sample_rate, format.channels, bits as u32))
        },
        SampleFormat::Float(_) => Err(
            PlaybackError::UnsupportedSourceFormat("floating-point source PCM is not enabled yet"),
        ),
    }
}

/// The rate the device is driven at under a plan.
pub fn output_rate(plan: OutputPlan) -> (r: u32)
    ensures
        r == crate::output_policy::output_rate_of(plan),
{
    match plan {
        OutputPlan::Native { sample_rate } => sample_rate,
        OutputPlan::Resample { output_sample_rate, .. } => output_sample_rate,
    }
}

/// What `play` has to do.
#[derive(Debug, Clone, Copy, PartialEq, Eq, Structural)]
pub enum PlayStep {
    /// Already playing: nothing to do.
    AlreadyPlaying,
    /// Unpause the decoder and start the output.
    Start,
}

/// The transport state of a player: its state, whether a session (decoder,
/// ring and output) is open, the ring size and the output mode.
#[derive(Debug)]
pub struct PlaybackController {
    state: PlaybackState,
    loaded: bool,
    ring_capacity_samples: usize,
    output_mode: PlaybackOutputMode,
}

/// The ring size a controller uses unless told otherwise.
pub const DEFAULT_RING_CAPACITY_SAMPLES: usize = 262_144;

/// The mathematical value of a [`PlaybackController`].
pub struct ControllerView {
    pub state: PlaybackState,
    pub loaded: bool,
    pub ring_capacity_samples: usize,
    pub output_mode: PlaybackOutputMode,
}

impl ControllerView {
    /// A session is open in every state that plays or holds a track, and in no
    /// state before the first load; the ring is never empty.
    pub open spec fn wf(self) -> bool {
        &&& self.ring_capacity_samples > 0
        &&& (self.state is Loaded || self.state is Playing || self.state is Paused) ==> self.loaded
        &&& self.state is Idle ==> !self.loaded
    }
}

impl View for PlaybackController {
    type V = ControllerView;

    closed spec fn view(&self) -> ControllerView {
        ControllerView {
            state: self.state,
            loaded: self.loaded,
            ring_capacity_samples: self.ring_capacity_samples,
            output_mode: self.output_mode,
        }
    }
}

impl PlaybackController {
    pub fn new() -> (r: Self)
        ensures
            r@ == (ControllerView {
                state: PlaybackState::Idle,
                loaded: false,
                ring_capacity_samples: DEFAULT_RING_CAPACITY_SAMPLES,
                output_mode: PlaybackOutputMode::Auto,
            }),
            r@.wf(),
    {
        PlaybackController {
            state: PlaybackState::Idle,
            loaded: false,
            ring_capacity_samples: DEFAULT_RING_CAPACITY_SAMPLES,
            output_mode: PlaybackOutputMode::Auto,
        }
    }

    pub fn with_ring_capacity(ring_capacity_samples: usize) -> (r: Self)
        requires
            ring_capacity_samples > 0,
        ensures
            r@ == (ControllerView {
                state: PlaybackState::Idle,
                loaded: false,
                ring_capacity_samples,
                output_mode: PlaybackOutputMode::Auto,
            }),
            r@.wf(),
    {
        PlaybackController {
            state: PlaybackState::Idle,
            loaded: false,
            ring_capacity_samples,
            output_mode: PlaybackOutputMode::Auto,
        }
    }

    pub fn state(&self) -> (r: PlaybackState)
        ensures
            r == self@.state,
    {
        self.state
    }

    pub fn is_loaded(&self) -> (r: bool)
        ensures
            r == self@.loaded,
    {
        self.loaded
    }

    pub fn ring_capacity_samples(&self) -> (r: usize)
        ensures
            r == self@.ring_capacity_samples,
    {
        self.ring_capacity_samples
    }

    pub fn output_mode(&self) -> (r: PlaybackOutputMode)
        ensures
            r == self@.output_mode,
    {
        self.output_mode
    }

    pub fn set_output_mode(&mut self, mode: PlaybackOutputMode)
        ensures
            final(self)@ == (ControllerView { output_mode: mode, ..old(self)@ }),
    {
        self.output_mode = mode;
    }

    /// A load replaced the session: the track is loaded and paused.
    pub fn loaded(&mut self)
        requires
            old(self)@.wf(),
        ensures
            final(self)@ == (ControllerView { state: PlaybackState::Loaded, loaded: true, ..old(self)@ }),
            final(self)@.wf(),
    {
        self.state = PlaybackState::Loaded;
        self.loaded = true;
    }

    /// The session was torn down (stop, or a failed load).
    pub fn stopped(&mut self)
        requires
            old(self)@.wf(),
        ensures
            final(self)@ == (ControllerView { state: PlaybackState::Stopped, loaded: false, ..old(self)@ }),
            final(self)@.wf(),
    {
        self.state = PlaybackState::Stopped;
        self.loaded = false;
    }

    /// What `play` must do: refused without a session and before anything was
    /// loaded; nothing while already playing; otherwise start.
    pub fn play_step(&self) -> (r: Result<PlayStep, PlaybackError>)
        ensures
            !self@.loaded ==> r == Err::<PlayStep, PlaybackError>(PlaybackError::NotLoaded),
            self@.loaded && self@.state is Playing ==> r == Ok::<PlayStep, PlaybackError>(
                PlayStep::AlreadyPlaying,
            ),
            self@.loaded && self@.state is Idle ==> r == Err::<PlayStep, PlaybackError>(
                PlaybackError::InvalidState(PlaybackState::Idle),
            ),
            self@.loaded && !(self@.state is Playing) && !(self@.state is Idle) ==> r == Ok::<
                PlayStep,
                PlaybackError,
            >(PlayStep::Start),
    {
        if !self.loaded {
            return Err(PlaybackError::NotLoaded);
        }
        match self.state {
            PlaybackState::Playing => Ok(PlayStep::AlreadyPlaying),
            PlaybackState::Idle => Err(PlaybackError::InvalidState(PlaybackState::Idle)),
            _ => Ok(PlayStep::Start),
        }
    }

    /// The output started.
    pub fn started(&mut self)
        requires
            old(self)@.wf(),
            old(self)@.loaded,
        ensures
            final(self)@ == (ControllerView { state: PlaybackState::Playing, ..old(self)@ }),
            final(self)@.wf(),
    {
        self.state = PlaybackState::Playing;
    }

    /// Whether `pause` may proceed: only while playing a loaded session.
    pub fn pause_check(&self) -> (r: Result<(), PlaybackError>)
        ensures
            !self@.loaded ==> r == Err::<(), PlaybackError>(PlaybackError::NotLoaded),
            self@.loaded && !(self@.state is Playing) ==> r == Err::<(), PlaybackError>(
                PlaybackError::InvalidState(self@.state),
            ),
            self@.loaded && self@.state is Playing ==> r is Ok,
    {
        if !self.loaded {
            return Err(PlaybackError::NotLoaded);
        }
        if self.state != PlaybackState::Playing {
            return Err(PlaybackError::InvalidState(self.state));
        }
        Ok(())
    }

    /// The output stopped and the decoder is held.
    pub fn paused(&mut self)
        requires
            old(self)@.wf(),
            old(self)@.loaded,
        ensures
            final(self)@ == (ControllerView { state: PlaybackState::Paused, ..old(self)@ }),
            final(self)@.wf(),
    {
        self.state = PlaybackState::Paused;
    }

    /// The source frame a seek request goes to: refused without a session and
    /// past the known end of the source.
    pub fn seek_target(&self, requested_frame: u64, total_frames: Option<u64>) -> (r: Result<
        u64,
        PlaybackError,
    >)
        ensures
            !self@.loaded ==> r == Err::<u64, PlaybackError>(PlaybackError::NotLoaded),
            self@.loaded ==> r == seek_target_of(requested_frame, total_frames),
    {
        if !self.loaded {
            return Err(PlaybackError::NotLoaded);
        }
        match total_frames {
            Some(total) => if requested_frame > total {
                Err(PlaybackError::InvalidSeekTarget(requested_frame))
            } else {
                Ok(requested_frame)
            },
            None => Ok(requested_frame),
        }
    }

    /// A seek rebuilt the session: playback resumes when it was playing, a
    /// paused player stays paused, anything else is left loaded.
    pub fn reopened_after_seek(&mut self, was: PlaybackState)
        requires
            old(self)@.wf(),
        ensures
            final(self)@ == (ControllerView {
                state: state_after_seek(was),
                loaded: true,
                ..old(self)@
            }),
            final(self)@.wf(),
    {
        self.loaded = true;
        self.state = match was {
            PlaybackState::Playing => PlaybackState::Playing,
            PlaybackState::Paused => PlaybackState::Paused,
            _ => PlaybackState::Loaded,
        };
    }
}

pub open spec fn seek_target_of(requested_frame: u64, total_frames: Option<u64>) -> Result<u64, PlaybackError> {
    match total_frames {
        Some(total) if requested_frame > total => Err(PlaybackError::InvalidSeekTarget(requested_frame)),
        _ => Ok(requested_frame),
    }
}

pub open spec fn state_after_seek(was: PlaybackState) -> PlaybackState {
    match was {
        PlaybackState::Playing => PlaybackState::Playing,
        PlaybackState::Paused => PlaybackState::Paused,
        _ => PlaybackState::Loaded,
    }
}

/// The source position reported while playing: the frame playback started
/// from plus the output frames the device consumed, converted back to source
/// frames, clamped to the source length when it is known.
pub open spec fn playback_position_of(
    base_frame: u64,
    requested_samples: u64,
    channels: u32,
    source_sample_rate: u32,
    output_sample_rate: u32,
    total_frames: Option<u64>,
) -> u64 {
    if channels == 0 {
        base_frame
    } else {
        let out_frames = requested_samples as int / channels as int;
        let progressed: u64 = if output_sample_rate == 0 {
            0
        } else {
            ((out_frames * source_sample_rate) / (output_sample_rate as int)) as u64
        };
        let position = crate::library::sat_add(base_frame, progressed);
        match total_frames {
            Some(total) => if position <= total { position } else { total },
            None => position,
        }
    }
}

pub fn playback_position(
    base_frame: u64,
    requested_samples: u64,
    channels: u32,
    source_sample_rate: u32,
    output_sample_rate: u32,
    total_frames: Option<u64>,
) -> (r: u64)
    ensures
        r == playback_position_of(
            base_frame,
            requested_samples,
            channels,
            source_sample_rate,
            output_sample_rate,
            total_frames,
        ),
{
    if channels == 0 {
        return base_frame;
    }
    let channels64: u64 = channels as u64;
    let out_frames: u64 = requested_samples / channels64;
    let progressed: u64 = if output_sample_rate == 0 {
        0
    } else {
        let a: u128 = out_frames as u128;
        let b: u128 = source_sample_rate as u128;
        assert(a * b <= 0xffff_ffff_ffff_ffffu128 * 0xffff_ffffu128) by (nonlinear_arith)
            requires
                a <= 0xffff_ffff_ffff_ffffu128,
                b <= 0xffff_ffffu128,
        ;
        let product: u128 = a * b;
        let quotient: u128 = product / (output_sample_rate as u128);
        quotient as u64
    };
    let position = crate::library::saturating_add_u64(base_frame, progressed);
    match total_frames {
        Some(total) => if position <= total { position } else { total },
        None => position,
    }
}

/// The source frame a track-relative seek goes to. The track's length is its
/// frame count, else what the source reports past the track start (the start
/// itself when unknown, which leaves only frame 0).
pub open spec fn track_seek_frame_of(
    track: PlaybackTrack,
    local_frame: u64,
    source_total_frames: Option<u64>,
) -> Result<u64, PlaybackError> {
    let track_frames: int = match track.frame_count {
        Some(count) => count as int,
        None => {
            let total: u64 = match source_total_frames {
                Some(t) => t,
                None => track.start_frame,
            };
            if total >= track.start_frame { total - track.start_frame } else { 0 }
        },
    };
    if local_frame > track_frames {
        Err(PlaybackError::InvalidSeekTarget(local_frame))
    } else if track.start_frame + local_frame > u64::MAX {
        Err(PlaybackError::InvalidSeekTarget(local_frame))
    } else {
        Ok((track.start_frame + local_frame) as u64)
    }
}

pub fn track_seek_frame(
    track: Option<&PlaybackTrack>,
    local_frame: u64,
    source_total_frames: Option<u64>,
) -> (r: Result<u64, PlaybackError>)
    ensures
        track is None ==> r == Err::<u64, PlaybackError>(PlaybackError::NotLoaded),
        track matches Some(t) ==> r == track_seek_frame_of(*t, local_frame, source_total_frames),
{
    let track = match track {
        Some(t) => t,
        None => return Err(PlaybackError::NotLoaded),
    };
    let track_frames: u64 = match track.frame_count {
        Some(count) => count,
        None => {
            let total: u64 = match source_total_frames {
                Some(t) => t,
                None => track.start_frame,
            };
            if total >= track.start_frame { total - track.start_frame } else { 0 }
        },
    };
    if local_frame > track_frames {
        return Err(PlaybackError::InvalidSeekTarget(local_frame));
    }
    match track.start_frame.checked_add(local_frame) {
        Some(frame) => Ok(frame),
        None => Err(PlaybackError::InvalidSeekTarget(local_frame)),
    }
}

/// The track-relative position of a source position.
pub fn track_position(source_frame: Option<u64>, track: Option<&PlaybackTrack>) -> (r: Option<u64>)
    ensures
        r == match (source_frame, track) {
            (Some(f), Some(t)) => Some(
                if f >= t.start_frame { (f - t.start_frame) as u64 } else { 0u64 },
            ),
            _ => None,
        },
{
    let f = match source_frame {
        Some(f) => f,
        None => return None,
    };
    let t = match track {
        Some(t) => t,
        None => return None,
    };
    Some(if f >= t.start_frame { f - t.start_frame } else { 0 })
}

/// Whether playback has run past the end of a track of known length.
pub open spec fn track_at_end_of(track: Option<PlaybackTrack>, source_frame: Option<u64>) -> bool {
    match (track, source_frame) {
        (Some(t), Some(f)) => match t.end_frame_of() {
            Some(end) => f >= end,
            None => false,
        },
        _ => false,
    }
}

pub fn track_at_end(track: Option<&PlaybackTrack>, source_frame: Option<u64>) -> (r: bool)
    ensures
        r == track_at_end_of(
            match track {
                Some(t) => Some(*t),
                None => None,
            },
            source_frame,
        ),
{
    let t = match track {
        Some(t) => t,
        None => return false,
    };
    let f = match source_frame {
        Some(f) => f,
        None => return false,
    };
    match t.end_frame() {
        Some(end) => f >= end,
        None => false,
    }
}

/// A track-relative seek reads back: the source frame a seek to `local_frame`
/// goes to lies `local_frame` frames into the track, so the reported track
/// position is `local_frame` again; seeking to the track's length reaches its
/// end, and seeking anywhere before it does not.
pub proof fn lemma_track_seek_reads_back(track: PlaybackTrack, local_frame: u64, source_total_frames: Option<u64>)
    ensures
        track_seek_frame_of(track, local_frame, source_total_frames) matches Ok(source_frame) ==> {
            &&& source_frame >= track.start_frame
            &&& source_frame - track.start_frame == local_frame
            &&& (track.frame_count is Some && track.end_frame_of() is Some ==> (track_at_end_of(
                Some(track),
                Some(source_frame),
            ) <==> local_frame == track.frame_count->0))
        },
{
}

/// Before the device has consumed anything, the reported position is the
/// frame playback started from (clamped to a known source length when the
/// source has channels).
pub proof fn lemma_position_starts_at_base(
    base_frame: u64,
    channels: u32,
    source_sample_rate: u32,
    output_sample_rate: u32,
    total_frames: Option<u64>,
)
    ensures
        channels != 0 ==> playback_position_of(
            base_frame,
            0,
            channels,
            source_sample_rate,
            output_sample_rate,
            total_frames,
        ) == match total_frames {
            Some(total) => if base_frame <= total { base_frame } else { total },
            None => base_frame,
        },
        channels == 0 ==> playback_position_of(
            base_frame,
            0,
            channels,
            source_sample_rate,
            output_sample_rate,
            total_frames,
        ) == base_frame,
{
    assert(crate::library::sat_add(base_frame, 0) == base_frame);
    if channels != 0 && output_sample_rate != 0 {
        let out_frames = 0u64 as int / channels as int;
        assert(out_frames == 0);
        assert((out_frames * source_sample_rate) / (output_sample_rate as int) == 0) by (nonlinear_arith)
            requires
                out_frames == 0,
                output_sample_rate > 0,
        ;
        let progressed: u64 = ((out_frames * source_sample_rate) / (output_sample_rate as int)) as u64;
        assert(progressed == 0);
    }
}


/// When the device runs at the source rate, the position moves on by the
/// frames the device consumed: the consumed samples divided by the source's
/// channel count. So `n` frames of `channels` samples each, played from
/// `base_frame`, put the position at `base_frame + n`.
pub proof fn lemma_position_advances_by_consumed_frames(
    base_frame: u64,
    frames: u64,
    channels: u32,
    sample_rate: u32,
)
    requires
        channels > 0,
        sample_rate > 0,
        frames * channels <= u64::MAX,
        base_frame + frames <= u64::MAX,
    ensures
        playback_position_of(
            base_frame,
            (frames * channels) as u64,
            channels,
            sample_rate,
            sample_rate,
            None,
        ) == base_frame + frames,
{
    vstd::arithmetic::div_mod::lemma_div_by_multiple(frames as int, channels as int);
    vstd::arithmetic::div_mod::lemma_div_by_multiple(frames as int, sample_rate as int);
}

} // verus!
