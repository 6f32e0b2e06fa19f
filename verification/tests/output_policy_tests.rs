use offline_player::output_policy::{OutputPlan, OutputPolicy, OutputPolicyError};
use offline_player::playback_control::PlaybackOutputMode;

const MAC_BUILTIN_RATES: &[u32] = &[44_100, 48_000];

#[test]
fn auto_keeps_44100_native() {
    assert_eq!(OutputPolicy::Auto.plan(44_100, MAC_BUILTIN_RATES), Ok(OutputPlan::Native { sample_rate: 44_100 }));
}

#[test]
fn auto_keeps_48000_native() {
    assert_eq!(OutputPolicy::Auto.plan(48_000, MAC_BUILTIN_RATES), Ok(OutputPlan::Native { sample_rate: 48_000 }));
}

#[test]
fn auto_resamples_96000_to_48000() {
    assert_eq!(
        OutputPolicy::Auto.plan(96_000, MAC_BUILTIN_RATES),
        Ok(OutputPlan::Resample { source_sample_rate: 96_000, output_sample_rate: 48_000 })
    );
}

#[test]
fn auto_resamples_192000_to_48000() {
    assert_eq!(
        OutputPolicy::Auto.plan(192_000, MAC_BUILTIN_RATES),
        Ok(OutputPlan::Resample { source_sample_rate: 192_000, output_sample_rate: 48_000 })
    );
}

#[test]
fn auto_does_not_upsample_32000() {
    assert_eq!(
        OutputPolicy::Auto.plan(32_000, MAC_BUILTIN_RATES),
        Err(OutputPolicyError::NoSupportedRateWithoutUpsampling { source_sample_rate: 32_000 })
    );
}

#[test]
fn fixed_44100_keeps_44100_native() {
    assert_eq!(
        OutputPolicy::Fixed { sample_rate: 44_100 }.plan(44_100, MAC_BUILTIN_RATES),
        Ok(OutputPlan::Native { sample_rate: 44_100 })
    );
}

#[test]
fn fixed_44100_resamples_48000_to_44100() {
    assert_eq!(
        OutputPolicy::Fixed { sample_rate: 44_100 }.plan(48_000, MAC_BUILTIN_RATES),
        Ok(OutputPlan::Resample { source_sample_rate: 48_000, output_sample_rate: 44_100 })
    );
}

#[test]
fn fixed_48000_keeps_44100_native() {
    assert_eq!(
        OutputPolicy::Fixed { sample_rate: 48_000 }.plan(44_100, MAC_BUILTIN_RATES),
        Ok(OutputPlan::Native { sample_rate: 44_100 })
    );
}

#[test]
fn fixed_48000_keeps_48000_native() {
    assert_eq!(
        OutputPolicy::Fixed { sample_rate: 48_000 }.plan(48_000, MAC_BUILTIN_RATES),
        Ok(OutputPlan::Native { sample_rate: 48_000 })
    );
}

#[test]
fn fixed_48000_resamples_96000_to_48000() {
    assert_eq!(
        OutputPolicy::Fixed { sample_rate: 48_000 }.plan(96_000, MAC_BUILTIN_RATES),
        Ok(OutputPlan::Resample { source_sample_rate: 96_000, output_sample_rate: 48_000 })
    );
}

#[test]
fn policy_errors_for_bad_inputs() {
    assert_eq!(OutputPolicy::Auto.plan(0, MAC_BUILTIN_RATES), Err(OutputPolicyError::InvalidSourceSampleRate));
    assert_eq!(OutputPolicy::Auto.plan(44_100, &[]), Err(OutputPolicyError::NoSupportedOutputRate));
    assert_eq!(
        OutputPolicy::Fixed { sample_rate: 0 }.plan(44_100, MAC_BUILTIN_RATES),
        Err(OutputPolicyError::InvalidRequestedSampleRate)
    );
    assert_eq!(
        OutputPolicy::Fixed { sample_rate: 96_000 }.plan(44_100, MAC_BUILTIN_RATES),
        Err(OutputPolicyError::RequestedRateUnsupported { requested_sample_rate: 96_000 })
    );
}

#[test]
fn auto_never_upsamples_and_prefers_highest_rate() {
    let rates = [22_050u32, 32_000, 44_100, 48_000, 96_000];
    for source in [22_050u32, 30_000, 44_100, 88_200, 192_000] {
        match OutputPolicy::Auto.plan(source, &rates).unwrap() {
            OutputPlan::Native { sample_rate } => assert_eq!(sample_rate, source),
            OutputPlan::Resample { source_sample_rate, output_sample_rate } => {
                assert_eq!(source_sample_rate, source);
                assert!(output_sample_rate < source);
                assert!(output_sample_rate <= 48_000);
            }
        }
    }
    assert_eq!(
        OutputPolicy::Auto.plan(30_000, &rates),
        Ok(OutputPlan::Resample { source_sample_rate: 30_000, output_sample_rate: 22_050 })
    );
}

#[test]
fn native_plan_requires_source_rate() {
    assert_eq!(OutputPolicy::plan_native(44_100, MAC_BUILTIN_RATES), Ok(OutputPlan::Native { sample_rate: 44_100 }));
    assert_eq!(
        OutputPolicy::plan_native(96_000, MAC_BUILTIN_RATES),
        Err(OutputPolicyError::RequestedRateUnsupported { requested_sample_rate: 96_000 })
    );
}

#[test]
fn output_modes_plan_like_their_policies() {
    assert_eq!(
        PlaybackOutputMode::Fixed44100.plan(96_000, MAC_BUILTIN_RATES),
        Ok(OutputPlan::Resample { source_sample_rate: 96_000, output_sample_rate: 44_100 })
    );
    assert_eq!(
        PlaybackOutputMode::Auto.plan(96_000, MAC_BUILTIN_RATES),
        Ok(OutputPlan::Resample { source_sample_rate: 96_000, output_sample_rate: 48_000 })
    );
    assert_eq!(
        PlaybackOutputMode::Fixed96000.plan(44_100, MAC_BUILTIN_RATES),
        Err(OutputPolicyError::RequestedRateUnsupported { requested_sample_rate: 96_000 })
    );
    assert_eq!(
        PlaybackOutputMode::Fixed48000.plan(44_100, MAC_BUILTIN_RATES),
        Ok(OutputPlan::Native { sample_rate: 44_100 })
    );
}
