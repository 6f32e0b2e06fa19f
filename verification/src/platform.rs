use vstd::prelude::*;

use crate::pcm::{PcmConsumer, PcmSample};

verus! {

#[derive(Debug, Clone, Copy, PartialEq, Eq, Structural)]
pub enum MacAudioError {
    CoreAudio(i32),
    PropertyNotSettable,
    MissingIOProcID,
    NoOutputDevice,
    NoOutputStream,
    InvalidOutputFormat,
    SourceFormatMismatch {
        source_sample_rate: u32,
        source_channels: u32,
        source_bits: u32,
        output_sample_rate: u32,
        output_channels: u32,
        output_bits: u32,
    },
}

/// A CoreAudio status: 0 is success, anything else is that error.
pub fn check_status(status: i32) -> (r: Result<(), MacAudioError>)
    ensures
        status == 0 ==> r is Ok,
        status != 0 ==> r == Err::<(), MacAudioError>(MacAudioError::CoreAudio(status)),
{
    if status == 0 {
        Ok(())
    } else {
        Err(MacAudioError::CoreAudio(status))
    }
}

/// An output stream format as the device describes it.
#[derive(Debug, Clone, Copy, PartialEq, Eq, Structural)]
pub struct OutputFormat {
    pub sample_rate: u32,
    pub channels: u32,
    pub bits_per_channel: u32,
    pub bytes_per_frame: u32,
    pub format_id: u32,
    pub format_flags: u32,
}

impl OutputFormat {
    /// A described format, refused when its rate is not positive or its
    /// channel count, bit depth or frame size is zero.
    pub fn from_description(
        rate_is_positive: bool,
        sample_rate: u32,
        channels: u32,
        bits_per_channel: u32,
        bytes_per_frame: u32,
        format_id: u32,
        format_flags: u32,
    ) -> (r: Result<Self, MacAudioError>)
        ensures
            !rate_is_positive || channels == 0 || bits_per_channel == 0 || bytes_per_frame == 0
                ==> r == Err::<OutputFormat, MacAudioError>(MacAudioError::InvalidOutputFormat),
            rate_is_positive && channels != 0 && bits_per_channel != 0 && bytes_per_frame != 0 ==> r
                == Ok::<OutputFormat, MacAudioError>(
                OutputFormat {
                    sample_rate,
                    channels,
                    bits_per_channel,
                    bytes_per_frame,
                    format_id,
                    format_flags,
                },
            ),
    {
        if !rate_is_positive || channels == 0 || bits_per_channel == 0 || bytes_per_frame == 0 {
            return Err(MacAudioError::InvalidOutputFormat);
        }
        Ok(
            OutputFormat {
                sample_rate,
                channels,
                bits_per_channel,
                bytes_per_frame,
                format_id,
                format_flags,
            },
        )
    }
}

/// Counters the realtime output keeps.
#[derive(Debug, Clone, Copy, PartialEq, Eq)]
pub struct PlaybackTelemetry {
    pub callback_count: u64,
    pub requested_samples: u64,
    pub consumed_samples: u64,
    pub underrun_samples: u64,
    pub first_buffer_count: u32,
    pub first_buffer_channels: u32,
    pub first_buffer_bytes: u32,
    pub first_buffer_alignment: u32,
    pub first_bytes: [u8; 16],
}

/// The linear PCM format id, `'lpcm'`.
pub const LINEAR_PCM: u32 = 0x6C70636D;

/// Format flag: samples are floating point.
pub const FLAG_IS_FLOAT: u32 = 0x0001;

/// Format flag: samples are packed.
pub const FLAG_IS_PACKED: u32 = 0x0008;

/// Format flag: channels are in separate buffers.
pub const FLAG_IS_NON_INTERLEAVED: u32 = 0x0020;

/// Whether a device format can carry a source natively: the same rate and
/// channel count, as interleaved packed 32-bit float linear PCM.
pub open spec fn output_accepts_of(
    source_sample_rate: u32,
    source_channels: u32,
    source_bits: u32,
    format: OutputFormat,
) -> Result<(), MacAudioError> {
    if source_sample_rate != format.sample_rate || source_channels != format.channels {
        Err(
            MacAudioError::SourceFormatMismatch {
                source_sample_rate,
                source_channels,
                source_bits,
                output_sample_rate: format.sample_rate,
                output_channels: format.channels,
                output_bits: format.bits_per_channel,
            },
        )
    } else if format.format_id != LINEAR_PCM {
        Err(MacAudioError::InvalidOutputFormat)
    } else if format.bytes_per_frame != format.channels * 4 {
        Err(MacAudioError::InvalidOutputFormat)
    } else if format.format_flags & FLAG_IS_FLOAT == 0 || format.format_flags & FLAG_IS_PACKED == 0 {
        Err(MacAudioError::InvalidOutputFormat)
    } else if format.format_flags & FLAG_IS_NON_INTERLEAVED != 0 {
        Err(MacAudioError::InvalidOutputFormat)
    } else if format.bits_per_channel != 32 {
        Err(MacAudioError::InvalidOutputFormat)
    } else {
        Ok(())
    }
}

/// Checks that a device format can play a source without conversion.
pub fn output_accepts(source_sample_rate: u32, source_channels: u32, source_bits: u32, format: OutputFormat) -> (r:
    Result<(), MacAudioError>)
    ensures
        r == output_accepts_of(source_sample_rate, source_channels, source_bits, format),
{
    if source_sample_rate != format.sample_rate || source_channels != format.channels {
        return Err(
            MacAudioError::SourceFormatMismatch {
                source_sample_rate,
                source_channels,
                source_bits,
                output_sample_rate: format.sample_rate,
                output_channels: format.channels,
                output_bits: format.bits_per_channel,
            },
        );
    }
    if format.format_id != LINEAR_PCM {
        return Err(MacAudioError::InvalidOutputFormat);
    }
    let expected_bytes_per_frame: u64 = format.channels as u64 * 4;
    if format.bytes_per_frame as u64 != expected_bytes_per_frame {
        return Err(MacAudioError::InvalidOutputFormat);
    }
    if format.format_flags & FLAG_IS_FLOAT == 0 || format.format_flags & FLAG_IS_PACKED == 0 {
        return Err(MacAudioError::InvalidOutputFormat);
    }
    if format.format_flags & FLAG_IS_NON_INTERLEAVED != 0 {
        return Err(MacAudioError::InvalidOutputFormat);
    }
    if format.bits_per_channel != 32 {
        return Err(MacAudioError::InvalidOutputFormat);
    }
    Ok(())
}

/// Strictly increasing.
pub open spec fn strictly_increasing(s: Seq<u32>) -> bool {
    forall|i: int, j: int| 0 <= i < j < s.len() ==> s[i] < s[j]
}

/// The distinct rates among `rates`, in increasing order.
pub fn distinct_sorted_rates(rates: &[u32]) -> (r: Vec<u32>)
    ensures
        strictly_increasing(r@),
        forall|x: u32| r@.contains(x) <==> rates@.contains(x),
{
    let mut out: Vec<u32> = Vec::new();
    let mut i: usize = 0;
    while i < rates.len()
        invariant
            i <= rates@.len(),
            strictly_increasing(out@),
            forall|x: u32| out@.contains(x) <==> rates@.take(i as int).contains(x),
        decreases rates@.len() - i,
    {
        let rate = rates[i];
        let mut k: usize = 0;
        while k < out.len() && out[k] < rate
            invariant
                k <= out@.len(),
                forall|j: int| 0 <= j < k ==> out@[j] < rate,
            decreases out@.len() - k,
        {
            k = k + 1;
        }
        let ghost before = out@;
        let ghost prev = rates@.take(i as int);
        let ghost next = rates@.take(i + 1);
        assert(next =~= prev.push(rate));
        if k < out.len() && out[k] == rate {
            assert forall|x: u32| out@.contains(x) <==> next.contains(x) by {
                if x == rate {
                    assert(out@[k as int] == rate);
                }
                if next.contains(x) && x != rate {
                    let j = choose|j: int| 0 <= j < next.len() && next[j] == x;
                    assert(prev[j] == x);
                }
            }
        } else {
            out.insert(k, rate);
            assert forall|a: int, b: int| 0 <= a < b < out@.len() implies out@[a] < out@[b] by {
                if b < k {
                    assert(out@[a] == before[a] && out@[b] == before[b]);
                } else if b == k {
                    assert(out@[a] == before[a]);
                } else if a < k {
                    assert(out@[b] == before[b - 1]);
                    if b - 1 > k {
                        assert(before[k as int] < before[b - 1]);
                    }
                    assert(before[k as int] >= rate);
                } else if a == k {
                    assert(out@[b] == before[b - 1]);
                    assert(before[k as int] >= rate);
                    assert(before[k as int] != rate);
                    if b - 1 > k {
                        assert(before[k as int] < before[b - 1]);
                    }
                } else {
                    assert(out@[a] == before[a - 1] && out@[b] == before[b - 1]);
                }
            }
            assert(out@ == before.insert(k as int, rate));
            assert(next[i as int] == rate);
            assert(out@[k as int] == rate);
            assert forall|x: u32| out@.contains(x) implies next.contains(x) by {
                let j = choose|j: int| 0 <= j < out@.len() && out@[j] == x;
                if j != k {
                    let jj = if j < k { j } else { j - 1 };
                    assert(before[jj] == x);
                    assert(before.contains(x));
                    assert(prev.contains(x));
                    let m = choose|m: int| 0 <= m < prev.len() && prev[m] == x;
                    assert(next[m] == x);
                }
            }
            assert forall|x: u32| next.contains(x) implies out@.contains(x) by {
                let j = choose|j: int| 0 <= j < next.len() && next[j] == x;
                if j < i {
                    assert(prev[j] == x);
                    assert(prev.contains(x));
                    assert(before.contains(x));
                    let m = choose|m: int| 0 <= m < before.len() && before[m] == x;
                    if m < k {
                        assert(out@[m] == x);
                    } else {
                        assert(out@[m + 1] == x);
                    }
                }
            }
        }
        i = i + 1;
    }
    assert(rates@.take(rates@.len() as int) =~= rates@);
    out
}


/// What the output callback does with the buffer list the device hands it.
#[derive(Debug, Clone, Copy, PartialEq, Eq, Structural)]
pub enum RenderAction {
    /// Not one interleaved buffer: every buffer with memory is zeroed.
    SilenceAll,
    /// The single buffer has no memory: nothing is written.
    Skip,
    /// The byte size is not whole 32-bit float samples: the bytes are zeroed.
    SilenceBytes,
    /// Render this many samples from the ring, zeroing what it lacks.
    Render { samples: usize },
}

/// The size of one output sample (a 32-bit float), in bytes.
pub const OUTPUT_SAMPLE_BYTES: u32 = 4;

pub open spec fn render_action_of(buffer_count: u32, has_data: bool, byte_count: u32) -> RenderAction {
    if buffer_count != 1 {
        RenderAction::SilenceAll
    } else if !has_data {
        RenderAction::Skip
    } else if byte_count % 4 != 0 {
        RenderAction::SilenceBytes
    } else {
        RenderAction::Render { samples: (byte_count / 4) as usize }
    }
}

/// Decides how the output callback treats the buffer list: `buffer_count`
/// buffers, whether the first has memory, and its size in bytes.
pub fn render_action(buffer_count: u32, has_data: bool, byte_count: u32) -> (r: RenderAction)
    ensures
        r == render_action_of(buffer_count, has_data, byte_count),
{
    if buffer_count != 1 {
        RenderAction::SilenceAll
    } else if !has_data {
        RenderAction::Skip
    } else if byte_count % OUTPUT_SAMPLE_BYTES != 0 {
        RenderAction::SilenceBytes
    } else {
        RenderAction::Render { samples: (byte_count / OUTPUT_SAMPLE_BYTES) as usize }
    }
}

/// The integer full scale of a sample of `source_bits` bits: the value whose
/// quotient maps a sample onto [-1, 1).
pub fn sample_full_scale(source_bits: u32) -> (r: u64)
    requires
        1 <= source_bits <= 64,
    ensures
        r == vstd::arithmetic::power2::pow2((source_bits - 1) as nat),
{
    let shift: u32 = source_bits - 1;
    proof {
        vstd::arithmetic::power2::lemma2_to64();
        vstd::arithmetic::power2::lemma_pow2_strictly_increases(shift as nat, 64);
        vstd::bits::lemma_u64_shl_is_mul(1u64, shift as u64);
    }
    1u64 << (shift as u64)
}

/// The samples the output callback takes from the ring for one buffer of
/// `requested` samples, and how many it lacked.
pub struct RenderedBlock {
    pub samples: Vec<PcmSample>,
    pub underrun: usize,
}

/// Pops samples until `requested` are taken or the ring reports empty; what
/// is missing is the underrun.
pub fn render_from_ring(consumer: &mut PcmConsumer, requested: usize) -> (r: RenderedBlock)
    ensures
        r.samples@.len() <= requested,
        r.underrun == requested - r.samples@.len(),
        final(consumer).capacity() == old(consumer).capacity(),
        final(consumer).received() == old(consumer).received() + r.samples@,
        r.underrun > 0 ==> final(consumer).known_readable() == 0,
        r.samples@.len() == requested || r.samples@.len() >= old(consumer).known_readable(),
{
    let mut samples: Vec<PcmSample> = Vec::new();
    assert(old(consumer).received() + samples@ =~= old(consumer).received());
    let mut open = true;
    while samples.len() < requested && open
        invariant
            samples@.len() <= requested,
            consumer.capacity() == old(consumer).capacity(),
            consumer.received() == old(consumer).received() + samples@,
            samples@.len() + consumer.known_readable() >= old(consumer).known_readable(),
            !open ==> consumer.known_readable() == 0,
        decreases (requested - samples@.len()) * 2 + if open { 1int } else { 0int },
    {
        match consumer.try_pop() {
            Ok(sample) => {
                let ghost before = samples@;
                samples.push(sample);
                assert(old(consumer).received() + samples@ =~= (old(consumer).received()
                    + before).push(sample));
            },
            Err(_) => open = false,
        }
    }
    let underrun = requested - samples.len();
    RenderedBlock { samples, underrun }
}

} // verus!
