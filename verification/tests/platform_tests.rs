use offline_player::pcm::{pcm_ring_buffer, PcmRingConfig};
use offline_player::platform::{
    check_status, distinct_sorted_rates, output_accepts, render_action, render_from_ring,
    sample_full_scale, MacAudioError, OutputFormat, RenderAction, LINEAR_PCM,
};

fn float_format() -> OutputFormat {
    OutputFormat {
        sample_rate: 48_000,
        channels: 2,
        bits_per_channel: 32,
        bytes_per_frame: 8,
        format_id: LINEAR_PCM,
        format_flags: 0x0001 | 0x0008,
    }
}

#[test]
fn status_codes() {
    assert_eq!(check_status(0), Ok(()));
    assert_eq!(check_status(-50), Err(MacAudioError::CoreAudio(-50)));
}

#[test]
fn supported_rates_are_distinct_and_sorted() {
    assert_eq!(distinct_sorted_rates(&[48_000, 44_100, 48_000, 96_000, 44_100]), vec![44_100, 48_000, 96_000]);
    assert_eq!(distinct_sorted_rates(&[]), Vec::<u32>::new());
}

#[test]
fn output_formats_are_checked() {
    assert_eq!(output_accepts(48_000, 2, 24, float_format()), Ok(()));
    assert_eq!(
        output_accepts(44_100, 2, 24, float_format()),
        Err(MacAudioError::SourceFormatMismatch {
            source_sample_rate: 44_100,
            source_channels: 2,
            source_bits: 24,
            output_sample_rate: 48_000,
            output_channels: 2,
            output_bits: 32,
        })
    );
    let interleaved_off = OutputFormat { format_flags: 0x0001 | 0x0008 | 0x0020, ..float_format() };
    assert_eq!(output_accepts(48_000, 2, 24, interleaved_off), Err(MacAudioError::InvalidOutputFormat));
    let int_format = OutputFormat { format_flags: 0x0008, ..float_format() };
    assert_eq!(output_accepts(48_000, 2, 24, int_format), Err(MacAudioError::InvalidOutputFormat));
    assert_eq!(
        OutputFormat::from_description(true, 48_000, 2, 32, 0, LINEAR_PCM, 9),
        Err(MacAudioError::InvalidOutputFormat)
    );
    assert_eq!(OutputFormat::from_description(true, 48_000, 2, 32, 8, LINEAR_PCM, 9), Ok(float_format()));
    assert_eq!(
        OutputFormat::from_description(false, 48_000, 2, 32, 8, LINEAR_PCM, 9),
        Err(MacAudioError::InvalidOutputFormat)
    );
}

#[test]
fn render_action_follows_the_buffer_layout() {
    assert_eq!(render_action(2, true, 4096), RenderAction::SilenceAll);
    assert_eq!(render_action(0, true, 4096), RenderAction::SilenceAll);
    assert_eq!(render_action(1, false, 4096), RenderAction::Skip);
    assert_eq!(render_action(1, true, 4094), RenderAction::SilenceBytes);
    assert_eq!(render_action(1, true, 4096), RenderAction::Render { samples: 1024 });
    assert_eq!(render_action(1, true, 0), RenderAction::Render { samples: 0 });
}

#[test]
fn sample_full_scale_is_half_the_range() {
    assert_eq!(sample_full_scale(16), 32_768);
    assert_eq!(sample_full_scale(24), 8_388_608);
    assert_eq!(sample_full_scale(32), 2_147_483_648);
    assert_eq!(sample_full_scale(1), 1);
    assert_eq!(sample_full_scale(64), 1u64 << 63);
}

#[test]
fn render_from_ring_counts_the_underrun() {
    let (mut producer, mut consumer) = pcm_ring_buffer(PcmRingConfig::new(8));
    assert_eq!(producer.push_slice(&[1, 2, 3]), 3);
    let block = render_from_ring(&mut consumer, 5);
    assert_eq!(block.samples, vec![1, 2, 3]);
    assert_eq!(block.underrun, 2);

    assert_eq!(producer.push_slice(&[4, 5, 6]), 3);
    let block = render_from_ring(&mut consumer, 2);
    assert_eq!(block.samples, vec![4, 5]);
    assert_eq!(block.underrun, 0);
    assert_eq!(consumer.try_pop(), Ok(6));
}
