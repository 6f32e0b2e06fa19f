use vstd::prelude::*;

verus! {

/// How the decoder delivers samples.
#[derive(Debug, Clone, Copy, PartialEq, Eq, Structural)]
pub enum SampleFormat {
    SignedInt(u16),
    Float(u16),
}

/// The PCM layout of a stream.
#[derive(Debug, Clone, Copy, PartialEq, Eq, Structural)]
pub struct AudioFormat {
    pub sample_rate: u32,
    pub channels: u32,
    pub sample_format: SampleFormat,
}

/// What probing a media file reports.
#[derive(Debug, Clone, PartialEq, Eq)]
pub struct MediaInfo {
    pub path: String,
    pub codec: String,
    pub format: AudioFormat,
    pub total_frames: Option<u64>,
}

#[derive(Debug, Clone, PartialEq, Eq)]
pub enum ProbeError {
    Io(String),
    Symphonia(String),
    NoAudioTrack,
}

/// What the decoder pushed into the ring.
#[derive(Debug, Clone, Copy, PartialEq, Eq, Structural)]
pub struct StreamStats {
    pub sample_rate: u32,
    pub channels: usize,
    pub decoded_frames: u64,
    pub pushed_samples: u64,
}

impl StreamStats {
    /// Whole frames pushed: samples divided by channels, 0 without channels.
    pub fn pushed_frames(&self) -> (r: u64)
        ensures
            self.channels == 0 ==> r == 0,
            self.channels != 0 ==> r == self.pushed_samples as int / self.channels as int,
    {
        if self.channels == 0 {
            return 0;
        }
        let channels: u64 = self.channels as u64;
        self.pushed_samples / channels
    }
}

#[derive(Debug, Clone, PartialEq, Eq)]
pub enum ResamplerError {
    InvalidSampleRate,
    InvalidChannels,
    SampleCountNotFrameAligned,
}

/// Whether a linear resampler can be built: both rates and the channel
/// count must be positive.
pub fn check_resampler_parameters(source_rate: u32, target_rate: u32, channels: usize) -> (r: Result<
    (),
    ResamplerError,
>)
    ensures
        source_rate == 0 || target_rate == 0 ==> r == Err::<(), ResamplerError>(
            ResamplerError::InvalidSampleRate,
        ),
        source_rate != 0 && target_rate != 0 && channels == 0 ==> r == Err::<(), ResamplerError>(
            ResamplerError::InvalidChannels,
        ),
        source_rate != 0 && target_rate != 0 && channels != 0 ==> r is Ok,
{
    if source_rate == 0 || target_rate == 0 {
        return Err(ResamplerError::InvalidSampleRate);
    }
    if channels == 0 {
        return Err(ResamplerError::InvalidChannels);
    }
    Ok(())
}

/// Whether interleaved input holds whole frames.
pub fn check_frame_aligned(sample_count: usize, channels: usize) -> (r: Result<(), ResamplerError>)
    requires
        channels > 0,
    ensures
        sample_count % channels == 0 ==> r is Ok,
        sample_count % channels != 0 ==> r == Err::<(), ResamplerError>(
            ResamplerError::SampleCountNotFrameAligned,
        ),
{
    if sample_count % channels != 0 {
        return Err(ResamplerError::SampleCountNotFrameAligned);
    }
    Ok(())
}

#[derive(Debug, Clone, PartialEq, Eq)]
pub enum StreamError {
    Io(String),
    Symphonia(String),
    NoAudioTrack,
    MissingSampleRate,
    MissingChannels,
    DecoderCreation(String),
    Decode(String),
    ResetRequired,
    UnsupportedPcmFormat(String),
    InvalidOutputSampleRate,
    Resampler(ResamplerError),
    SeekTimestampOverflow(u64),
    NegativeSeekTimestamp(i64),
    SeekPastEnd(u64),
    Cancelled,
}

/// The sample format a probe reports for a declared bit depth; an unknown
/// depth is reported as a signed depth of 0.
pub fn sample_format_for_bits(bits_per_sample: Option<u32>) -> (r: SampleFormat)
    ensures
        r == match bits_per_sample {
            Some(bits) => SampleFormat::SignedInt(bits as u16),
            None => SampleFormat::SignedInt(0),
        },
{
    match bits_per_sample {
        Some(bits) => SampleFormat::SignedInt(bits as u16),
        None => SampleFormat::SignedInt(0),
    }
}

/// The stream parameters a decode needs: the source rate, the channel count and
/// the rate PCM leaves the decoder at (the target rate, else the source rate).
pub open spec fn stream_parameters_of(
    sample_rate: Option<u32>,
    channels: Option<usize>,
    target_sample_rate: Option<u32>,
) -> Result<(u32, usize, u32), StreamError> {
    match sample_rate {
        None => Err(StreamError::MissingSampleRate),
        Some(rate) => match channels {
            None => Err(StreamError::MissingChannels),
            Some(count) => if count == 0 {
                Err(StreamError::MissingChannels)
            } else {
                let out = match target_sample_rate {
                    Some(t) => t,
                    None => rate,
                };
                if out == 0 {
                    Err(StreamError::InvalidOutputSampleRate)
                } else {
                    Ok((rate, count, out))
                }
            },
        },
    }
}

/// Checks the parameters a stream reports before decoding starts.
pub fn stream_parameters(
    sample_rate: Option<u32>,
    channels: Option<usize>,
    target_sample_rate: Option<u32>,
) -> (r: Result<(u32, usize, u32), StreamError>)
    ensures
        r == stream_parameters_of(sample_rate, channels, target_sample_rate),
{
    let rate = match sample_rate {
        Some(rate) => rate,
        None => return Err(StreamError::MissingSampleRate),
    };
    let count = match channels {
        Some(count) => count,
        None => return Err(StreamError::MissingChannels),
    };
    if count == 0 {
        return Err(StreamError::MissingChannels);
    }
    let out = match target_sample_rate {
        Some(t) => t,
        None => rate,
    };
    if out == 0 {
        return Err(StreamError::InvalidOutputSampleRate);
    }
    Ok((rate, count, out))
}

/// Where a seek request leads before any decoding.
#[derive(Debug, Clone, Copy, PartialEq, Eq, Structural)]
pub enum SeekPlan {
    /// The target is the end of the stream: there is nothing to decode.
    AtEnd(u64),
    /// Ask the container to seek to this timestamp.
    Seek(i64),
}

pub open spec fn seek_plan_of(target_frame: u64, total_frames: Option<u64>) -> Result<SeekPlan, StreamError> {
    match total_frames {
        Some(total) if target_frame > total => Err(StreamError::SeekPastEnd(target_frame)),
        Some(total) if target_frame == total => Ok(SeekPlan::AtEnd(total)),
        _ => if target_frame <= i64::MAX {
            Ok(SeekPlan::Seek(target_frame as i64))
        } else {
            Err(StreamError::SeekTimestampOverflow(target_frame))
        },
    }
}

/// Validates a seek target against the container's frame count and turns it
/// into a container timestamp.
pub fn seek_plan(target_frame: u64, total_frames: Option<u64>) -> (r: Result<SeekPlan, StreamError>)
    ensures
        r == seek_plan_of(target_frame, total_frames),
{
    if let Some(total) = total_frames {
        if target_frame > total {
            return Err(StreamError::SeekPastEnd(target_frame));
        }
        if target_frame == total {
            return Ok(SeekPlan::AtEnd(total));
        }
    }
    if target_frame <= 0x7fff_ffff_ffff_ffffu64 {
        Ok(SeekPlan::Seek(target_frame as i64))
    } else {
        Err(StreamError::SeekTimestampOverflow(target_frame))
    }
}

/// The frame a container seek landed on; negative timestamps are refused.
pub fn landed_frame(actual_ts: i64) -> (r: Result<u64, StreamError>)
    ensures
        actual_ts < 0 ==> r == Err::<u64, StreamError>(StreamError::NegativeSeekTimestamp(actual_ts)),
        actual_ts >= 0 ==> r == Ok::<u64, StreamError>(actual_ts as u64),
{
    if actual_ts < 0 {
        Err(StreamError::NegativeSeekTimestamp(actual_ts))
    } else {
        Ok(actual_ts as u64)
    }
}

pub open spec fn min_u64(a: u64, b: u64) -> u64 {
    if a <= b { a } else { b }
}

pub open spec fn sat_mul_u64(a: u64, b: u64) -> u64 {
    if a * b > u64::MAX { u64::MAX } else { (a * b) as u64 }
}

/// How many interleaved samples at the head of a decoded buffer lie before the
/// seek target and are dropped.
pub open spec fn samples_to_skip_of(
    seek_frame: Option<u64>,
    stream_frame: u64,
    buffer_frames: u64,
    channels: usize,
    available: usize,
) -> usize {
    let skip: usize = match seek_frame {
        Some(target) if stream_frame < target => (sat_mul_u64(
            min_u64((target - stream_frame) as u64, buffer_frames),
            channels as u64,
        )) as usize,
        _ => 0,
    };
    if skip <= available { skip } else { available }
}

/// `a + b`, or `u64::MAX` where the sum does not fit.
pub open spec fn saturating_sum(a: u64, b: u64) -> u64 {
    if a + b > u64::MAX {
        u64::MAX
    } else {
        (a + b) as u64
    }
}

fn add_saturating(a: u64, b: u64) -> (r: u64)
    ensures
        r == saturating_sum(a, b),
{
    if b > u64::MAX - a {
        u64::MAX
    } else {
        a + b
    }
}

/// Where a decode stream stands: the source frame its next buffer starts at,
/// and the frames decoded so far.
#[derive(Debug, Clone, Copy, PartialEq, Eq, Structural)]
pub struct StreamProgress {
    pub stream_frame: u64,
    pub decoded_frames: u64,
}

impl StreamProgress {
    /// A stream that starts at `frame` and has decoded nothing yet.
    pub fn starting_at(frame: u64) -> (r: Self)
        ensures
            r == (StreamProgress { stream_frame: frame, decoded_frames: 0 }),
    {
        StreamProgress { stream_frame: frame, decoded_frames: 0 }
    }

    /// The stream after a decoded buffer of `buffer_frames` frames: both the
    /// position and the count move on by the whole buffer, stopping at
    /// `u64::MAX`.
    pub fn advanced(self, buffer_frames: u64) -> (r: Self)
        ensures
            r.stream_frame == saturating_sum(self.stream_frame, buffer_frames),
            r.decoded_frames == saturating_sum(self.decoded_frames, buffer_frames),
    {
        StreamProgress {
            stream_frame: add_saturating(self.stream_frame, buffer_frames),
            decoded_frames: add_saturating(self.decoded_frames, buffer_frames),
        }
    }
}

pub fn samples_to_skip(
    seek_frame: Option<u64>,
    stream_frame: u64,
    buffer_frames: u64,
    channels: usize,
    available: usize,
) -> (r: usize)
    ensures
        r == samples_to_skip_of(seek_frame, stream_frame, buffer_frames, channels, available),
        r <= available,
{
    let skip: usize = match seek_frame {
        Some(target) => if stream_frame < target {
            let gap = target - stream_frame;
            let frames = if gap <= buffer_frames { gap } else { buffer_frames };
            let samples = frames.checked_mul(channels as u64);
            let samples: u64 = match samples {
                Some(v) => v,
                None => u64::MAX,
            };
            samples as usize
        } else {
            0
        },
        None => 0,
    };
    if skip <= available { skip } else { available }
}

/// A 32-bit container sample narrowed to its declared bit depth by an
/// arithmetic right shift.
pub fn s32_sample_to_depth(sample: i32, source_bits: u32) -> (r: i32)
    requires
        source_bits >= 1,
    ensures
        source_bits >= 32 ==> r == sample,
        source_bits < 32 ==> r == sample >> ((32 - source_bits) as u32),
{
    let shift: u32 = if source_bits >= 32 { 0 } else { 32 - source_bits };
    if shift == 0 {
        sample
    } else {
        sample >> shift
    }
}

/// The first index at which two sample sequences disagree: the first
/// differing position, else the shorter length when the lengths differ.
pub fn first_mismatch(expected: &[i32], actual: &[i32]) -> (r: Option<usize>)
    ensures
        match r {
            Some(k) => {
                &&& k <= expected@.len() && k <= actual@.len()
                &&& forall|j: int| 0 <= j < k ==> expected@[j] == actual@[j]
                &&& (k == expected@.len() || k == actual@.len() || expected@[k as int] != actual@[k as int])
                &&& !(k == expected@.len() && k == actual@.len())
            },
            None => expected@ == actual@,
        },
{
    let n: usize = if expected.len() <= actual.len() { expected.len() } else { actual.len() };
    let mut i: usize = 0;
    while i < n
        invariant
            i <= n,
            n <= expected@.len(),
            n <= actual@.len(),
            n == expected@.len() || n == actual@.len(),
            forall|j: int| 0 <= j < i ==> expected@[j] == actual@[j],
        decreases n - i,
    {
        if expected[i] != actual[i] {
            return Some(i);
        }
        i = i + 1;
    }
    if expected.len() != actual.len() {
        Some(n)
    } else {
        assert(expected@ =~= actual@);
        None
    }
}


/// Seeking drops whole frames of the stream's own channel count, so decoding
/// resumes exactly at the target. When the target lies inside a buffer whose
/// samples are all there, the samples dropped are the frames before the target
/// times the channel count, which leaves the next sample as the first of the
/// target frame; a buffer that ends at or before the target is dropped whole;
/// and nothing is dropped without a seek or once the stream has reached the
/// target.
pub proof fn lemma_seek_skip_lands_on_target(
    target: u64,
    stream_frame: u64,
    buffer_frames: u64,
    channels: usize,
    available: usize,
)
    ensures
        stream_frame < target && target - stream_frame <= buffer_frames && (target - stream_frame)
            * channels <= available ==> {
            let r = samples_to_skip_of(Some(target), stream_frame, buffer_frames, channels, available);
            &&& r == (target - stream_frame) * channels
            &&& channels > 0 ==> (r as int) / (channels as int) == target - stream_frame
            &&& channels > 0 ==> (r as int) % (channels as int) == 0
        },
        stream_frame < target && stream_frame + buffer_frames <= target && buffer_frames * channels
            <= available ==> samples_to_skip_of(
            Some(target),
            stream_frame,
            buffer_frames,
            channels,
            available,
        ) == buffer_frames * channels,
        target <= stream_frame ==> samples_to_skip_of(
            Some(target),
            stream_frame,
            buffer_frames,
            channels,
            available,
        ) == 0,
        samples_to_skip_of(None, stream_frame, buffer_frames, channels, available) == 0,
{
    if stream_frame < target && target - stream_frame <= buffer_frames && (target - stream_frame)
        * channels <= available && channels > 0 {
        let k = (target - stream_frame) as int;
        vstd::arithmetic::div_mod::lemma_div_by_multiple(k, channels as int);
        vstd::arithmetic::div_mod::lemma_mod_multiples_basic(k, channels as int);
    }
}

} // verus!
