use vstd::prelude::*;

use crate::playback_control::{PlaybackOutputMode, PlaybackServiceError, PlaybackState};
use crate::playback_queue::{PlaybackQueueError, RepeatMode};

verus! {

/// The player state as the C interface reports it; the discriminants are the
/// C values 0 to 4.
#[derive(Debug, Clone, Copy, PartialEq, Eq, Structural)]
pub enum OfflinePlayerState {
    Idle,
    Loaded,
    Playing,
    Paused,
    Stopped,
}

impl From<PlaybackState> for OfflinePlayerState {
    fn from(value: PlaybackState) -> (r: Self) {
        match value {
            PlaybackState::Idle => OfflinePlayerState::Idle,
            PlaybackState::Loaded => OfflinePlayerState::Loaded,
            PlaybackState::Playing => OfflinePlayerState::Playing,
            PlaybackState::Paused => OfflinePlayerState::Paused,
            PlaybackState::Stopped => OfflinePlayerState::Stopped,
        }
    }
}

impl vstd::std_specs::convert::FromSpecImpl<PlaybackState> for OfflinePlayerState {
    open spec fn obeys_from_spec() -> bool {
        true
    }

    open spec fn from_spec(v: PlaybackState) -> OfflinePlayerState {
        match v {
            PlaybackState::Idle => OfflinePlayerState::Idle,
            PlaybackState::Loaded => OfflinePlayerState::Loaded,
            PlaybackState::Playing => OfflinePlayerState::Playing,
            PlaybackState::Paused => OfflinePlayerState::Paused,
            PlaybackState::Stopped => OfflinePlayerState::Stopped,
        }
    }
}

/// The output mode as the C interface reports it (0 to 3).
#[derive(Debug, Clone, Copy, PartialEq, Eq, Structural)]
pub enum OfflinePlayerOutputMode {
    Auto,
    Fixed44100,
    Fixed48000,
    Fixed96000,
}

/// The C output mode of a player output mode.
pub open spec fn c_output_mode_of(v: PlaybackOutputMode) -> OfflinePlayerOutputMode {
    match v {
        PlaybackOutputMode::Auto => OfflinePlayerOutputMode::Auto,
        PlaybackOutputMode::Fixed44100 => OfflinePlayerOutputMode::Fixed44100,
        PlaybackOutputMode::Fixed48000 => OfflinePlayerOutputMode::Fixed48000,
        PlaybackOutputMode::Fixed96000 => OfflinePlayerOutputMode::Fixed96000,
    }
}

impl From<PlaybackOutputMode> for OfflinePlayerOutputMode {
    fn from(value: PlaybackOutputMode) -> (r: Self) {
        match value {
            PlaybackOutputMode::Auto => OfflinePlayerOutputMode::Auto,
            PlaybackOutputMode::Fixed44100 => OfflinePlayerOutputMode::Fixed44100,
            PlaybackOutputMode::Fixed48000 => OfflinePlayerOutputMode::Fixed48000,
            PlaybackOutputMode::Fixed96000 => OfflinePlayerOutputMode::Fixed96000,
        }
    }
}

impl vstd::std_specs::convert::FromSpecImpl<PlaybackOutputMode> for OfflinePlayerOutputMode {
    open spec fn obeys_from_spec() -> bool {
        true
    }

    open spec fn from_spec(v: PlaybackOutputMode) -> OfflinePlayerOutputMode {
        c_output_mode_of(v)
    }
}

/// The repeat mode as the C interface reports it (0 to 2).
#[derive(Debug, Clone, Copy, PartialEq, Eq, Structural)]
pub enum OfflinePlayerRepeatMode {
    Off,
    Track,
    Queue,
}

/// The C repeat mode of a queue repeat mode.
pub open spec fn c_repeat_mode_of(v: RepeatMode) -> OfflinePlayerRepeatMode {
    match v {
        RepeatMode::Off => OfflinePlayerRepeatMode::Off,
        RepeatMode::Track => OfflinePlayerRepeatMode::Track,
        RepeatMode::Queue => OfflinePlayerRepeatMode::Queue,
    }
}

impl From<RepeatMode> for OfflinePlayerRepeatMode {
    fn from(value: RepeatMode) -> (r: Self) {
        match value {
            RepeatMode::Off => OfflinePlayerRepeatMode::Off,
            RepeatMode::Track => OfflinePlayerRepeatMode::Track,
            RepeatMode::Queue => OfflinePlayerRepeatMode::Queue,
        }
    }
}

impl vstd::std_specs::convert::FromSpecImpl<RepeatMode> for OfflinePlayerRepeatMode {
    open spec fn obeys_from_spec() -> bool {
        true
    }

    open spec fn from_spec(v: RepeatMode) -> OfflinePlayerRepeatMode {
        c_repeat_mode_of(v)
    }
}

/// The result codes of the C interface (0 to 8).
#[derive(Debug, Clone, Copy, PartialEq, Eq, Structural)]
pub enum OfflinePlayerResult {
    Success,
    NullArgument,
    InvalidUtf8,
    InvalidArgument,
    NotFound,
    LibraryError,
    PlaybackError,
    BufferTooSmall,
    InternalError,
}

/// The C value of a result code.
pub open spec fn result_code_of(r: OfflinePlayerResult) -> i32 {
    match r {
        OfflinePlayerResult::Success => 0,
        OfflinePlayerResult::NullArgument => 1,
        OfflinePlayerResult::InvalidUtf8 => 2,
        OfflinePlayerResult::InvalidArgument => 3,
        OfflinePlayerResult::NotFound => 4,
        OfflinePlayerResult::LibraryError => 5,
        OfflinePlayerResult::PlaybackError => 6,
        OfflinePlayerResult::BufferTooSmall => 7,
        OfflinePlayerResult::InternalError => 8,
    }
}

impl OfflinePlayerResult {
    /// The C value of this result code.
    pub fn code(self) -> (r: i32)
        ensures
            r == result_code_of(self),
    {
        match self {
            OfflinePlayerResult::Success => 0,
            OfflinePlayerResult::NullArgument => 1,
            OfflinePlayerResult::InvalidUtf8 => 2,
            OfflinePlayerResult::InvalidArgument => 3,
            OfflinePlayerResult::NotFound => 4,
            OfflinePlayerResult::LibraryError => 5,
            OfflinePlayerResult::PlaybackError => 6,
            OfflinePlayerResult::BufferTooSmall => 7,
            OfflinePlayerResult::InternalError => 8,
        }
    }

    /// The code a playback service error is reported as.
    pub fn from_service_error(error: &PlaybackServiceError) -> (r: Self)
        ensures
            r == match *error {
                PlaybackServiceError::TrackNotFound { .. } => OfflinePlayerResult::NotFound,
                PlaybackServiceError::Library(_) => OfflinePlayerResult::LibraryError,
                PlaybackServiceError::Playback(_) => OfflinePlayerResult::PlaybackError,
            },
    {
        match error {
            PlaybackServiceError::TrackNotFound { .. } => OfflinePlayerResult::NotFound,
            PlaybackServiceError::Library(_) => OfflinePlayerResult::LibraryError,
            PlaybackServiceError::Playback(_) => OfflinePlayerResult::PlaybackError,
        }
    }

    /// The code a queue error is reported as: missing tracks, library and
    /// playback failures keep their meaning; everything else is a bad argument.
    pub fn from_queue_error(error: &PlaybackQueueError) -> (r: Self)
        ensures
            r == match *error {
                PlaybackQueueError::TrackNotFound { .. } => OfflinePlayerResult::NotFound,
                PlaybackQueueError::Library(_) => OfflinePlayerResult::LibraryError,
                PlaybackQueueError::Playback(_) => OfflinePlayerResult::PlaybackError,
                _ => OfflinePlayerResult::InvalidArgument,
            },
    {
        match error {
            PlaybackQueueError::TrackNotFound { .. } => OfflinePlayerResult::NotFound,
            PlaybackQueueError::Library(_) => OfflinePlayerResult::LibraryError,
            PlaybackQueueError::Playback(_) => OfflinePlayerResult::PlaybackError,
            PlaybackQueueError::Empty => OfflinePlayerResult::InvalidArgument,
            PlaybackQueueError::IndexOutOfRange { .. } => OfflinePlayerResult::InvalidArgument,
            PlaybackQueueError::InvalidReorder => OfflinePlayerResult::InvalidArgument,
        }
    }
}

/// The output mode a C value selects; unknown values are refused.
pub open spec fn output_mode_from_code(value: i32) -> Result<PlaybackOutputMode, OfflinePlayerResult> {
    if value == 0 {
        Ok(PlaybackOutputMode::Auto)
    } else if value == 1 {
        Ok(PlaybackOutputMode::Fixed44100)
    } else if value == 2 {
        Ok(PlaybackOutputMode::Fixed48000)
    } else if value == 3 {
        Ok(PlaybackOutputMode::Fixed96000)
    } else {
        Err(OfflinePlayerResult::InvalidArgument)
    }
}

pub fn output_mode_from_raw(value: i32) -> (r: Result<PlaybackOutputMode, OfflinePlayerResult>)
    ensures
        r == output_mode_from_code(value),
{
    match value {
        0 => Ok(PlaybackOutputMode::Auto),
        1 => Ok(PlaybackOutputMode::Fixed44100),
        2 => Ok(PlaybackOutputMode::Fixed48000),
        3 => Ok(PlaybackOutputMode::Fixed96000),
        _ => Err(OfflinePlayerResult::InvalidArgument),
    }
}

/// The repeat mode a C value selects; unknown values are refused.
pub open spec fn repeat_mode_from_code(value: i32) -> Result<RepeatMode, OfflinePlayerResult> {
    if value == 0 {
        Ok(RepeatMode::Off)
    } else if value == 1 {
        Ok(RepeatMode::Track)
    } else if value == 2 {
        Ok(RepeatMode::Queue)
    } else {
        Err(OfflinePlayerResult::InvalidArgument)
    }
}

pub fn repeat_mode_from_raw(value: i32) -> (r: Result<RepeatMode, OfflinePlayerResult>)
    ensures
        r == repeat_mode_from_code(value),
{
    match value {
        0 => Ok(RepeatMode::Off),
        1 => Ok(RepeatMode::Track),
        2 => Ok(RepeatMode::Queue),
        _ => Err(OfflinePlayerResult::InvalidArgument),
    }
}

/// The C value of an output mode's code.
pub open spec fn output_mode_code_of(m: OfflinePlayerOutputMode) -> i32 {
    match m {
        OfflinePlayerOutputMode::Auto => 0,
        OfflinePlayerOutputMode::Fixed44100 => 1,
        OfflinePlayerOutputMode::Fixed48000 => 2,
        OfflinePlayerOutputMode::Fixed96000 => 3,
    }
}

/// The C value of a repeat mode's code.
pub open spec fn repeat_mode_code_of(m: OfflinePlayerRepeatMode) -> i32 {
    match m {
        OfflinePlayerRepeatMode::Off => 0,
        OfflinePlayerRepeatMode::Track => 1,
        OfflinePlayerRepeatMode::Queue => 2,
    }
}

/// Reading a mode back through the C interface and setting it again is the
/// identity: the code a mode is reported as selects that same mode, and every
/// code the interface accepts is the code of the mode it selects.
pub proof fn lemma_mode_codes_round_trip(mode: PlaybackOutputMode, repeat: RepeatMode, value: i32)
    ensures
        output_mode_from_code(output_mode_code_of(c_output_mode_of(mode))) == Ok::<
            PlaybackOutputMode,
            OfflinePlayerResult,
        >(mode),
        repeat_mode_from_code(repeat_mode_code_of(c_repeat_mode_of(repeat))) == Ok::<
            RepeatMode,
            OfflinePlayerResult,
        >(repeat),
        output_mode_from_code(value) matches Ok(m) ==> output_mode_code_of(c_output_mode_of(m)) == value,
        repeat_mode_from_code(value) matches Ok(m) ==> repeat_mode_code_of(c_repeat_mode_of(m)) == value,
{
}

/// Why a string cannot be written into a caller's buffer, or the bytes
/// needed (the text and its terminating NUL).
pub open spec fn string_buffer_check_of(buffer_is_null: bool, text_len: usize, capacity: usize) -> Result<
    usize,
    OfflinePlayerResult,
> {
    if buffer_is_null {
        Err(OfflinePlayerResult::NullArgument)
    } else if text_len + 1 > usize::MAX {
        Err(OfflinePlayerResult::InternalError)
    } else if capacity < text_len + 1 {
        Err(OfflinePlayerResult::BufferTooSmall)
    } else {
        Ok((text_len + 1) as usize)
    }
}

pub fn string_buffer_check(buffer_is_null: bool, text_len: usize, capacity: usize) -> (r: Result<
    usize,
    OfflinePlayerResult,
>)
    ensures
        r == string_buffer_check_of(buffer_is_null, text_len, capacity),
{
    if buffer_is_null {
        return Err(OfflinePlayerResult::NullArgument);
    }
    let required = match text_len.checked_add(1) {
        Some(v) => v,
        None => return Err(OfflinePlayerResult::InternalError),
    };
    if capacity < required {
        return Err(OfflinePlayerResult::BufferTooSmall);
    }
    Ok(required)
}

/// Why bytes cannot be copied into a caller's buffer: too small, or absent
/// while there is something to copy.
pub fn bytes_buffer_check(buffer_is_null: bool, len: usize, capacity: usize) -> (r: Result<
    (),
    OfflinePlayerResult,
>)
    ensures
        len > capacity ==> r == Err::<(), OfflinePlayerResult>(OfflinePlayerResult::BufferTooSmall),
        len <= capacity && len > 0 && buffer_is_null ==> r == Err::<(), OfflinePlayerResult>(
            OfflinePlayerResult::NullArgument,
        ),
        len <= capacity && !(len > 0 && buffer_is_null) ==> r is Ok,
{
    if len > capacity {
        return Err(OfflinePlayerResult::BufferTooSmall);
    }
    if len > 0 && buffer_is_null {
        return Err(OfflinePlayerResult::NullArgument);
    }
    Ok(())
}

/// A text argument of the C interface: refused when absent, not UTF-8, or
/// empty.
pub fn text_argument(value: Option<Result<String, ()>>) -> (r: Result<String, OfflinePlayerResult>)
    ensures
        value is None ==> r == Err::<String, OfflinePlayerResult>(OfflinePlayerResult::NullArgument),
        value matches Some(Err(_)) ==> r == Err::<String, OfflinePlayerResult>(
            OfflinePlayerResult::InvalidUtf8,
        ),
        value matches Some(Ok(s)) ==> (s@.len() == 0 ==> r == Err::<String, OfflinePlayerResult>(
            OfflinePlayerResult::InvalidArgument,
        )) && (s@.len() > 0 ==> r == Ok::<String, OfflinePlayerResult>(s)),
{
    match value {
        None => Err(OfflinePlayerResult::NullArgument),
        Some(Err(_)) => Err(OfflinePlayerResult::InvalidUtf8),
        Some(Ok(s)) => {
            if s.as_str().is_empty() {
                Err(OfflinePlayerResult::InvalidArgument)
            } else {
                Ok(s)
            }
        },
    }
}

} // verus!
