use vstd::prelude::*;

use crate::invocation::{FunctionResult, Metrics, PowerEstimate};
use crate::sensor::{add_to_quotient, lemma_quotient_bound, SensorData, MAX_SAMPLE_POWER};

verus! {

/// Idle draw of the measured host, in microwatts, subtracted from each sample
/// to isolate the power that the workload itself draws.
pub const BASELINE_IDLE: u64 = 2474232;

/// Microseconds times microwatts in one picowatt-hour.
pub const UW_US_PER_PWH: u128 = 3600;

/// A sample counts for an invocation when it lies wholly inside the window
/// `[start, end)`.
pub open spec fn in_window(s: SensorData, start: u64, end: u64) -> bool {
    s.start_read >= start && s.end_read < end
}

/// Number of samples inside the window.
pub open spec fn window_count(samples: Seq<SensorData>, start: u64, end: u64) -> nat
    decreases samples.len(),
{
    if samples.len() == 0 {
        0
    } else {
        window_count(samples.drop_last(), start, end) + if in_window(samples.last(), start, end) {
            1nat
        } else {
            0nat
        }
    }
}

/// Total power of the samples inside the window.
pub open spec fn window_power(samples: Seq<SensorData>, start: u64, end: u64) -> int
    decreases samples.len(),
{
    if samples.len() == 0 {
        0
    } else {
        window_power(samples.drop_last(), start, end) + if in_window(samples.last(), start, end) {
            samples.last().power as int
        } else {
            0
        }
    }
}

/// Energy in picowatt-hours of a power in microwatts held for a duration in
/// microseconds, rounded down.
pub open spec fn energy_spec(power: int, duration: int) -> int {
    power * duration / UW_US_PER_PWH as int
}

/// The estimate for an invocation window: the mean power of the samples in
/// the window (rounded down), the same less the idle baseline, and the energy
/// of each over the window. There is none when no sample lies in the window,
/// or when the samples' power does not exceed the baseline on average.
pub open spec fn estimate_spec(m: Metrics, samples: Seq<SensorData>) -> Option<PowerEstimate> {
    let n = window_count(samples, m.start_since_epoch, m.end_since_epoch) as int;
    let total = window_power(samples, m.start_since_epoch, m.end_since_epoch);
    if n > 0 && total > n * BASELINE_IDLE {
        let avg = total / n;
        let isolated = avg - BASELINE_IDLE;
        let duration = m.end_since_epoch - m.start_since_epoch;
        Some(
            PowerEstimate {
                average_power: avg as u128,
                average_power_isolated: isolated as u128,
                energy_consumption: energy_spec(avg, duration) as u128,
                energy_consumption_isolated: energy_spec(isolated, duration) as u128,
            },
        )
    } else {
        None
    }
}

/// The record with its estimate attached, or `None` where it has no metrics
/// or no estimate.
pub open spec fn enriched(r: FunctionResult, samples: Seq<SensorData>) -> Option<FunctionResult> {
    match r.metrics {
        None => None,
        Some(m) => match estimate_spec(m, samples) {
            None => None,
            Some(e) => Some(FunctionResult { metrics: Some(Metrics { power: Some(e), ..m }), ..r }),
        },
    }
}

/// The records that receive an estimate, in their order, with it attached.
pub open spec fn associated(rs: Seq<FunctionResult>, samples: Seq<SensorData>) -> Seq<FunctionResult>
    decreases rs.len(),
{
    if rs.len() == 0 {
        seq![]
    } else {
        let prev = associated(rs.drop_last(), samples);
        match enriched(rs.last(), samples) {
            Some(x) => prev.push(x),
            None => prev,
        }
    }
}

/// Every sample in the sequence is well formed.
pub open spec fn all_wf(samples: Seq<SensorData>) -> bool {
    forall|i: int| 0 <= i < samples.len() ==> (#[trigger] samples[i]).wf()
}

/// Whether every sample is well formed.
pub fn all_wf_samples(samples: &Vec<SensorData>) -> (r: bool)
    ensures
        r == all_wf(samples@),
{
    let n = samples.len();
    for i in 0..n
        invariant
            n == samples@.len(),
            forall|j: int| 0 <= j < i ==> (#[trigger] samples@[j]).wf(),
    {
        if !samples[i].is_wf() {
            return false;
        }
    }
    true
}

proof fn lemma_window_bounds(samples: Seq<SensorData>, start: u64, end: u64)
    requires
        all_wf(samples),
    ensures
        window_count(samples, start, end) <= samples.len(),
        -(window_count(samples, start, end) as int) * MAX_SAMPLE_POWER <= window_power(samples, start, end)
            <= window_count(samples, start, end) as int * MAX_SAMPLE_POWER,
        window_count(samples, start, end) > 0 ==> start < end,
    decreases samples.len(),
{
    if samples.len() > 0 {
        lemma_window_bounds(samples.drop_last(), start, end);
        assert(samples.last() == samples[samples.len() - 1]);
    }
}

/// Energy in picowatt-hours of a power in microwatts held for a duration in
/// microseconds, rounded down.
pub fn energy_of(power: u128, duration: u64) -> (e: u128)
    requires
        power <= MAX_SAMPLE_POWER,
    ensures
        e == energy_spec(power as int, duration as int),
{
    let whole = (duration as u128) / UW_US_PER_PWH;
    let part = (duration as u128) % UW_US_PER_PWH;
    proof {
        vstd::arithmetic::div_mod::lemma_fundamental_div_mod(duration as int, 3600);
    }
    assert(whole <= 0x20_0000_0000_0000) by (nonlinear_arith)
        requires
            duration == 3600 * whole + part,
            part >= 0,
            duration <= 0xffff_ffff_ffff_ffff,
    ;
    assert(power * whole <= MAX_SAMPLE_POWER * 0x20_0000_0000_0000) by (nonlinear_arith)
        requires
            power <= MAX_SAMPLE_POWER,
            whole <= 0x20_0000_0000_0000,
    ;
    assert(power * part <= MAX_SAMPLE_POWER * 3600) by (nonlinear_arith)
        requires
            power <= MAX_SAMPLE_POWER,
            part < 3600,
    ;
    let high = power * whole;
    let low = power * part;
    let low_q = low / UW_US_PER_PWH;
    proof {
        vstd::arithmetic::div_mod::lemma_fundamental_div_mod(duration as int, 3600);
        vstd::arithmetic::div_mod::lemma_fundamental_div_mod(low as int, 3600);
        vstd::arithmetic::div_mod::lemma_div_is_ordered(low as int, MAX_SAMPLE_POWER * 3600, 3600);
        vstd::arithmetic::div_mod::lemma_div_by_multiple(MAX_SAMPLE_POWER as int, 3600);
        let r: int = low as int % 3600;
        assert(power * duration == (high + low_q) * 3600 + r) by (nonlinear_arith)
            requires
                duration == 3600 * whole + part,
                low == 3600 * low_q + r,
                high == power * whole,
                low == power * part,
        ;
        vstd::arithmetic::div_mod::lemma_fundamental_div_mod_converse(
            power * duration,
            3600,
            high + low_q,
            r,
        );
    }
    high + low_q
}

/// Attributes power to one invocation window from the samples.
pub fn estimate_power(m: &Metrics, samples: &Vec<SensorData>) -> (r: Option<PowerEstimate>)
    requires
        all_wf(samples@),
    ensures
        r == estimate_spec(*m, samples@),
{
    let start = m.start_since_epoch;
    let end = m.end_since_epoch;
    let n = samples.len();
    let mut count: u64 = 0;
    for i in 0..n
        invariant
            n == samples@.len(),
            count == window_count(samples@.take(i as int), start, end),
            count <= i,
    {
        assert(samples@.take(i + 1).drop_last() =~= samples@.take(i as int));
        assert(samples@.take(i + 1).last() == samples@[i as int]);
        let s = &samples[i];
        if s.start_read >= start && s.end_read < end {
            count = count + 1;
        }
    }
    assert(samples@.take(n as int) =~= samples@);
    if count == 0 {
        return None;
    }
    // The total power is kept as its quotient and remainder by the count, so
    // that no sum of powers needs more than 128 bits.
    let d = count as i128;
    let mut q: i128 = 0;
    let mut rem: i128 = 0;
    proof {
        vstd::arithmetic::div_mod::lemma_fundamental_div_mod_converse(0, d as int, 0, 0);
        lemma_window_bounds(samples@, start, end);
    }
    for i in 0..n
        invariant
            n == samples@.len(),
            all_wf(samples@),
            d == count,
            count == window_count(samples@, start, end),
            d > 0,
            q == window_power(samples@.take(i as int), start, end) / (d as int),
            rem == window_power(samples@.take(i as int), start, end) % (d as int),
            window_power(samples@.take(i as int), start, end) == q * d + rem,
            0 <= rem < d,
            window_count(samples@.take(i as int), start, end) <= count,
            -(window_count(samples@.take(i as int), start, end) as int) * MAX_SAMPLE_POWER <= window_power(
                samples@.take(i as int),
                start,
                end,
            ) <= (window_count(samples@.take(i as int), start, end) as int) * MAX_SAMPLE_POWER,
    {
        let ghost pre = samples@.take(i as int);
        let ghost next = samples@.take(i + 1);
        assert(next.drop_last() =~= pre);
        assert(next.last() == samples@[i as int]);
        proof {
            lemma_window_bounds(next, start, end);
            lemma_count_prefix(samples@, i + 1, start, end);
            lemma_quotient_bound(window_power(pre, start, end), d as int, window_count(pre, start, end) as int);
        }
        let s = &samples[i];
        if s.start_read >= start && s.end_read < end {
            assert(s.wf());
            let (q2, r2) = add_to_quotient(q, rem, s.power, d);
            proof {
                vstd::arithmetic::div_mod::lemma_fundamental_div_mod_converse(
                    window_power(next, start, end),
                    d as int,
                    q2 as int,
                    r2 as int,
                );
            }
            q = q2;
            rem = r2;
        }
    }
    assert(samples@.take(n as int) =~= samples@);
    let ghost total = window_power(samples@, start, end);
    let b = BASELINE_IDLE as i128;
    assert(total > d * b <==> (q > b || (q == b && rem > 0))) by (nonlinear_arith)
        requires
            total == q * d + rem,
            0 <= rem < d,
    ;
    if !(q > b || (q == b && rem > 0)) {
        return None;
    }
    proof {
        lemma_quotient_bound(total, d as int, d as int);
    }
    let avg = q as u128;
    let isolated = avg - BASELINE_IDLE as u128;
    let duration = end - start;
    let energy = energy_of(avg, duration);
    let energy_isolated = energy_of(isolated, duration);
    Some(
        PowerEstimate {
            average_power: avg,
            average_power_isolated: isolated,
            energy_consumption: energy,
            energy_consumption_isolated: energy_isolated,
        },
    )
}

proof fn lemma_count_prefix(samples: Seq<SensorData>, k: int, start: u64, end: u64)
    requires
        0 <= k <= samples.len(),
    ensures
        window_count(samples.take(k), start, end) <= window_count(samples, start, end),
    decreases samples.len(),
{
    if k < samples.len() {
        lemma_count_prefix(samples.drop_last(), k, start, end);
        assert(samples.drop_last().take(k) =~= samples.take(k));
    } else {
        assert(samples.take(k) =~= samples);
    }
}

/// Attaches to each invocation the power and energy of the samples inside its
/// window, and keeps only those that receive an estimate.
pub fn associate_power_measurements(function_results: Vec<FunctionResult>, energy_data: &Vec<SensorData>) -> (r: Vec<FunctionResult>)
    requires
        all_wf(energy_data@),
    ensures
        r@ == associated(function_results@, energy_data@),
{
    let mut processed: Vec<FunctionResult> = Vec::new();
    let ghost all = function_results@;
    for function_result in it: function_results
        invariant
            all_wf(energy_data@),
            it.seq() == all,
            processed@ == associated(all.take(it.index() as int), energy_data@),
    {
        let ghost k = it.index();
        assert(all.take(k + 1).drop_last() =~= all.take(k as int));
        let mut fr = function_result;
        if let Some(m) = fr.metrics {
            if let Some(e) = estimate_power(&m, energy_data) {
                fr.metrics = Some(Metrics { power: Some(e), ..m });
                processed.push(fr);
            }
        }
    }
    assert(all.take(all.len() as int) =~= all);
    processed
}


/// No record in the output of the association has an empty window: an
/// invocation whose window contains no sample is dropped.
pub proof fn lemma_no_overlap_dropped(rs: Seq<FunctionResult>, samples: Seq<SensorData>)
    ensures
        forall|i: int| 0 <= i < associated(rs, samples).len() ==> {
            let x = #[trigger] associated(rs, samples)[i];
            &&& x.metrics is Some
            &&& window_count(samples, x.metrics->0.start_since_epoch, x.metrics->0.end_since_epoch) > 0
        },
    decreases rs.len(),
{
    if rs.len() > 0 {
        lemma_no_overlap_dropped(rs.drop_last(), samples);
    }
}

/// A record whose window contains no sample gets no estimate, and so does
/// not appear in the output.
pub proof fn lemma_empty_window_has_no_estimate(r: FunctionResult, samples: Seq<SensorData>)
    requires
        r.metrics is Some,
        window_count(samples, r.metrics->0.start_since_epoch, r.metrics->0.end_since_epoch) == 0,
    ensures
        enriched(r, samples) is None,
{
}

/// Every record in the output of the association drew more than the idle
/// baseline on average over its window: an invocation whose samples all stay
/// at or below the baseline is dropped.
pub proof fn lemma_idle_windows_dropped(rs: Seq<FunctionResult>, samples: Seq<SensorData>)
    ensures
        forall|i: int| 0 <= i < associated(rs, samples).len() ==> {
            let x = #[trigger] associated(rs, samples)[i];
            let m = x.metrics->0;
            &&& x.metrics is Some
            &&& window_power(samples, m.start_since_epoch, m.end_since_epoch) > window_count(
                samples,
                m.start_since_epoch,
                m.end_since_epoch,
            ) * BASELINE_IDLE
        },
    decreases rs.len(),
{
    if rs.len() > 0 {
        lemma_idle_windows_dropped(rs.drop_last(), samples);
    }
}

/// Where no sample in a window exceeds the idle baseline, the window's total
/// power does not exceed its count times the baseline.
pub proof fn lemma_idle_samples_total(samples: Seq<SensorData>, start: u64, end: u64)
    requires
        forall|i: int| 0 <= i < samples.len() && in_window(#[trigger] samples[i], start, end)
            ==> samples[i].power <= BASELINE_IDLE,
    ensures
        window_power(samples, start, end) <= window_count(samples, start, end) * BASELINE_IDLE,
    decreases samples.len(),
{
    if samples.len() > 0 {
        let prev = samples.drop_last();
        assert forall|i: int| 0 <= i < prev.len() && in_window(#[trigger] prev[i], start, end)
            implies prev[i].power <= BASELINE_IDLE by {
            assert(prev[i] == samples[i]);
        }
        lemma_idle_samples_total(prev, start, end);
        assert(samples.last() == samples[samples.len() - 1]);
    }
}

/// A record whose window holds only samples at or below the idle baseline
/// gets no estimate, and so does not appear in the output.
pub proof fn lemma_idle_record_has_no_estimate(r: FunctionResult, samples: Seq<SensorData>)
    requires
        r.metrics is Some,
        forall|i: int| 0 <= i < samples.len() && in_window(
            #[trigger] samples[i],
            r.metrics->0.start_since_epoch,
            r.metrics->0.end_since_epoch,
        ) ==> samples[i].power <= BASELINE_IDLE,
    ensures
        enriched(r, samples) is None,
{
    lemma_idle_samples_total(samples, r.metrics->0.start_since_epoch, r.metrics->0.end_since_epoch);
}

} // verus!
