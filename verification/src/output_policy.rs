use vstd::prelude::*;

verus! {

/// The highest output rate Auto mode chooses without renegotiating the
/// device to a high-resolution rate.
pub const AUTO_MAX_SAMPLE_RATE: u32 = 48_000;

/// How the output sample rate is chosen for a source.
#[derive(Debug, Clone, Copy, PartialEq, Eq, Structural)]
pub enum OutputPolicy {
    /// Prefer native output up to 48 kHz; never upsample.
    Auto,
    /// Use at most `sample_rate`; never upsample.
    Fixed { sample_rate: u32 },
}

/// How a source of a given rate is played.
#[derive(Debug, Clone, Copy, PartialEq, Eq, Structural)]
pub enum OutputPlan {
    Native { sample_rate: u32 },
    Resample { source_sample_rate: u32, output_sample_rate: u32 },
}

#[derive(Debug, Clone, Copy, PartialEq, Eq, Structural)]
pub enum OutputPolicyError {
    InvalidSourceSampleRate,
    InvalidRequestedSampleRate,
    NoSupportedOutputRate,
    RequestedRateUnsupported { requested_sample_rate: u32 },
    NoSupportedRateWithoutUpsampling { source_sample_rate: u32 },
}

/// A rate Auto mode may output for a source limited by `ceiling`.
pub open spec fn auto_candidate(rate: u32, ceiling: u32) -> bool {
    0 < rate <= ceiling
}

/// The largest Auto candidate among `rates`.
pub open spec fn max_candidate(rates: Seq<u32>, ceiling: u32) -> Option<u32>
    decreases rates.len(),
{
    if rates.len() == 0 {
        None
    } else {
        let rest = max_candidate(rates.drop_last(), ceiling);
        let x = rates.last();
        if auto_candidate(x, ceiling) {
            match rest {
                Some(m) => Some(if x > m { x } else { m }),
                None => Some(x),
            }
        } else {
            rest
        }
    }
}

pub open spec fn min_u32(a: u32, b: u32) -> u32 {
    if a <= b { a } else { b }
}

/// The plan an output policy gives for a source rate and the device's rates.
pub open spec fn plan_of(
    policy: OutputPolicy,
    source_sample_rate: u32,
    rates: Seq<u32>,
) -> Result<OutputPlan, OutputPolicyError> {
    if source_sample_rate == 0 {
        Err(OutputPolicyError::InvalidSourceSampleRate)
    } else if rates.len() == 0 {
        Err(OutputPolicyError::NoSupportedOutputRate)
    } else {
        match policy {
            OutputPolicy::Auto => match max_candidate(
                rates,
                min_u32(source_sample_rate, AUTO_MAX_SAMPLE_RATE),
            ) {
                None => if rates.contains(source_sample_rate) {
                    Ok(OutputPlan::Native { sample_rate: source_sample_rate })
                } else {
                    Err(OutputPolicyError::NoSupportedRateWithoutUpsampling { source_sample_rate })
                },
                Some(out) => if out == source_sample_rate {
                    Ok(OutputPlan::Native { sample_rate: source_sample_rate })
                } else {
                    Ok(
                        OutputPlan::Resample {
                            source_sample_rate,
                            output_sample_rate: out,
                        },
                    )
                },
            },
            OutputPolicy::Fixed { sample_rate } => if sample_rate == 0 {
                Err(OutputPolicyError::InvalidRequestedSampleRate)
            } else if !rates.contains(sample_rate) {
                Err(OutputPolicyError::RequestedRateUnsupported { requested_sample_rate: sample_rate })
            } else if source_sample_rate <= sample_rate {
                Ok(OutputPlan::Native { sample_rate: source_sample_rate })
            } else {
                Ok(OutputPlan::Resample { source_sample_rate, output_sample_rate: sample_rate })
            },
        }
    }
}

/// The rate the device is driven at under a plan.
pub open spec fn output_rate_of(plan: OutputPlan) -> u32 {
    match plan {
        OutputPlan::Native { sample_rate } => sample_rate,
        OutputPlan::Resample { output_sample_rate, .. } => output_sample_rate,
    }
}

proof fn lemma_max_candidate_props(rates: Seq<u32>, ceiling: u32)
    ensures
        match max_candidate(rates, ceiling) {
            Some(m) => rates.contains(m) && auto_candidate(m, ceiling) && forall|i: int|
                0 <= i < rates.len() && auto_candidate(#[trigger] rates[i], ceiling) ==> rates[i] <= m,
            None => forall|i: int| 0 <= i < rates.len() ==> !auto_candidate(#[trigger] rates[i], ceiling),
        },
    decreases rates.len(),
{
    if rates.len() > 0 {
        let rest = rates.drop_last();
        let x = rates.last();
        let last = rates.len() - 1;
        lemma_max_candidate_props(rest, ceiling);
        assert forall|i: int| 0 <= i < last implies rates[i] == #[trigger] rest[i] by {}
        assert(rates[last] == x);
        let r = max_candidate(rates, ceiling);
        match max_candidate(rest, ceiling) {
            Some(m) => {
                let k = choose|k: int| 0 <= k < rest.len() && rest[k] == m;
                assert(rates[k] == m);
                if auto_candidate(x, ceiling) && x > m {
                    assert(r == Some(x));
                    assert(rates.contains(x));
                } else if auto_candidate(x, ceiling) {
                    assert(r == Some(m));
                    assert(rates.contains(m));
                } else {
                    assert(r == Some(m));
                    assert(rates.contains(m));
                }
                assert forall|i: int|
                    0 <= i < rates.len() && auto_candidate(#[trigger] rates[i], ceiling) implies rates[i]
                    <= r->0 by {
                    if i < last {
                        assert(rest[i] == rates[i]);
                    }
                }
            },
            None => {
                if auto_candidate(x, ceiling) {
                    assert(r == Some(x));
                    assert(rates.contains(x));
                    assert forall|i: int|
                        0 <= i < rates.len() && auto_candidate(#[trigger] rates[i], ceiling) implies rates[i]
                        <= r->0 by {
                        if i < last {
                            assert(rest[i] == rates[i]);
                        }
                    }
                } else {
                    assert(r is None);
                    assert forall|i: int| 0 <= i < rates.len() implies !auto_candidate(
                        #[trigger] rates[i],
                        ceiling,
                    ) by {
                        if i < last {
                            assert(rest[i] == rates[i]);
                        }
                    }
                }
            },
        }
    }
}

/// The largest rate `r` in `rates` with `0 < r <= ceiling`.
fn max_rate_at_most(rates: &[u32], ceiling: u32) -> (r: Option<u32>)
    ensures
        r == max_candidate(rates@, ceiling),
{
    let mut best: Option<u32> = None;
    let mut i: usize = 0;
    while i < rates.len()
        invariant
            i <= rates@.len(),
            best == max_candidate(rates@.take(i as int), ceiling),
        decreases rates@.len() - i,
    {
        let x = rates[i];
        proof {
            let t = rates@.take(i + 1);
            assert(t.drop_last() =~= rates@.take(i as int));
            assert(t.last() == x);
        }
        if 0 < x && x <= ceiling {
            best = match best {
                Some(m) => Some(if x > m { x } else { m }),
                None => Some(x),
            };
        }
        i = i + 1;
    }
    assert(rates@.take(rates@.len() as int) =~= rates@);
    best
}

fn slice_contains(rates: &[u32], value: u32) -> (r: bool)
    ensures
        r == rates@.contains(value),
{
    let mut i: usize = 0;
    while i < rates.len()
        invariant
            i <= rates@.len(),
            forall|j: int| 0 <= j < i ==> rates@[j] != value,
        decreases rates@.len() - i,
    {
        if rates[i] == value {
            assert(rates@[i as int] == value);
            return true;
        }
        i = i + 1;
    }
    false
}

impl OutputPolicy {
    /// Chooses native output or the resampling target for a source rate,
    /// given the sample rates the output device supports.
    pub fn plan(self, source_sample_rate: u32, supported_sample_rates: &[u32]) -> (r: Result<
        OutputPlan,
        OutputPolicyError,
    >)
        ensures
            r == plan_of(self, source_sample_rate, supported_sample_rates@),
    {
        if source_sample_rate == 0 {
            return Err(OutputPolicyError::InvalidSourceSampleRate);
        }
        if supported_sample_rates.len() == 0 {
            return Err(OutputPolicyError::NoSupportedOutputRate);
        }
        match self {
            OutputPolicy::Auto => {
                let ceiling = if source_sample_rate <= AUTO_MAX_SAMPLE_RATE {
                    source_sample_rate
                } else {
                    AUTO_MAX_SAMPLE_RATE
                };
                match max_rate_at_most(supported_sample_rates, ceiling) {
                    None => {
                        if slice_contains(supported_sample_rates, source_sample_rate) {
                            Ok(OutputPlan::Native { sample_rate: source_sample_rate })
                        } else {
                            Err(
                                OutputPolicyError::NoSupportedRateWithoutUpsampling {
                                    source_sample_rate,
                                },
                            )
                        }
                    },
                    Some(output_sample_rate) => {
                        if output_sample_rate == source_sample_rate {
                            Ok(OutputPlan::Native { sample_rate: source_sample_rate })
                        } else {
                            Ok(OutputPlan::Resample { source_sample_rate, output_sample_rate })
                        }
                    },
                }
            },
            OutputPolicy::Fixed { sample_rate } => {
                if sample_rate == 0 {
                    return Err(OutputPolicyError::InvalidRequestedSampleRate);
                }
                if !slice_contains(supported_sample_rates, sample_rate) {
                    return Err(
                        OutputPolicyError::RequestedRateUnsupported {
                            requested_sample_rate: sample_rate,
                        },
                    );
                }
                if source_sample_rate <= sample_rate {
                    Ok(OutputPlan::Native { sample_rate: source_sample_rate })
                } else {
                    Ok(OutputPlan::Resample { source_sample_rate, output_sample_rate: sample_rate })
                }
            },
        }
    }

    /// Plays a source at its own rate, or fails when the device lacks that rate.
    pub fn plan_native(source_sample_rate: u32, supported_sample_rates: &[u32]) -> (r: Result<
        OutputPlan,
        OutputPolicyError,
    >)
        ensures
            r == plan_of(
                OutputPolicy::Fixed { sample_rate: source_sample_rate },
                source_sample_rate,
                supported_sample_rates@,
            ),
    {
        (OutputPolicy::Fixed { sample_rate: source_sample_rate }).plan(
            source_sample_rate,
            supported_sample_rates,
        )
    }
}

/// A successful plan never upsamples and keeps the source rate when it plays
/// natively; a resampled output, and any Auto output, is a rate the device
/// reports. Under Auto a
/// resampled source goes to the highest supported rate that is at most both
/// the source rate and 48 kHz; under `Fixed` the output never exceeds the
/// requested rate.
pub proof fn lemma_plan_never_upsamples(policy: OutputPolicy, source_sample_rate: u32, rates: Seq<u32>)
    ensures
        plan_of(policy, source_sample_rate, rates) matches Ok(plan) ==> {
            &&& output_rate_of(plan) <= source_sample_rate
            &&& output_rate_of(plan) > 0
            &&& (policy is Auto || plan is Resample ==> rates.contains(output_rate_of(plan)))
            &&& (plan matches OutputPlan::Native { sample_rate } ==> sample_rate == source_sample_rate)
            &&& (plan matches OutputPlan::Resample { source_sample_rate: s, output_sample_rate: o } ==> s
                == source_sample_rate && o < s)
            &&& (policy matches OutputPolicy::Fixed { sample_rate } ==> output_rate_of(plan) <= sample_rate)
            &&& (policy is Auto && plan is Resample ==> {
                &&& output_rate_of(plan) <= AUTO_MAX_SAMPLE_RATE
                &&& forall|i: int|
                    0 <= i < rates.len() && rates[i] <= source_sample_rate && rates[i]
                        <= AUTO_MAX_SAMPLE_RATE ==> #[trigger] rates[i] <= output_rate_of(plan)
            })
        },
{
    let ceiling = min_u32(source_sample_rate, AUTO_MAX_SAMPLE_RATE);
    lemma_max_candidate_props(rates, ceiling);
    if policy is Auto && source_sample_rate != 0 && rates.len() != 0 {
        if let Some(m) = max_candidate(rates, ceiling) {
            assert forall|i: int|
                0 <= i < rates.len() && rates[i] <= source_sample_rate && rates[i]
                    <= AUTO_MAX_SAMPLE_RATE implies #[trigger] rates[i] <= m by {
                if rates[i] > 0 {
                    assert(auto_candidate(rates[i], ceiling));
                }
            }
        }
    }
}


/// Whether the device offers a rate no higher than both the source rate and
/// 48 kHz.
pub open spec fn offers_rate_up_to_48k(source_sample_rate: u32, rates: Seq<u32>) -> bool {
    exists|i: int|
        0 <= i < rates.len() && 0 < #[trigger] rates[i] && rates[i] <= source_sample_rate && rates[i]
            <= AUTO_MAX_SAMPLE_RATE
}

/// Auto keeps sources on rates up to 48 kHz: whenever the device offers a
/// rate no higher than both the source rate and 48 kHz, a successful Auto plan
/// drives the device at no more than 48 kHz, even when it also offers the
/// source's own higher rate. Only a device with no such rate plays a source
/// above 48 kHz, and then natively.
pub proof fn lemma_auto_stays_at_most_48k(source_sample_rate: u32, rates: Seq<u32>)
    ensures
        (offers_rate_up_to_48k(source_sample_rate, rates) && plan_of(
            OutputPolicy::Auto,
            source_sample_rate,
            rates,
        ) is Ok) ==> output_rate_of(plan_of(OutputPolicy::Auto, source_sample_rate, rates)->Ok_0)
            <= AUTO_MAX_SAMPLE_RATE,
        (plan_of(OutputPolicy::Auto, source_sample_rate, rates) is Ok && output_rate_of(
            plan_of(OutputPolicy::Auto, source_sample_rate, rates)->Ok_0,
        ) > AUTO_MAX_SAMPLE_RATE) ==> (!offers_rate_up_to_48k(source_sample_rate, rates) && plan_of(
            OutputPolicy::Auto,
            source_sample_rate,
            rates,
        )->Ok_0 == (OutputPlan::Native { sample_rate: source_sample_rate })),
{
    let ceiling = min_u32(source_sample_rate, AUTO_MAX_SAMPLE_RATE);
    lemma_max_candidate_props(rates, ceiling);
}

} // verus!
