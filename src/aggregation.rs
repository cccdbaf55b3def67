use vstd::prelude::*;

use crate::invocation::{FunctionResult, ModuleType};
use crate::stats::{summarize, summary_matches, Metrics};

verus! {

/// Groups with fewer trials than this are under-sampled.
pub const COMPLETENESS_THRESHOLD: u64 = 5;

/// The identity by which repeated trials are grouped: execution kind,
/// function name and input.
#[derive(Debug)]
pub struct GroupKey {
    pub module_type: ModuleType,
    pub func_name: String,
    pub input: String,
}

impl View for GroupKey {
    type V = (ModuleType, Seq<char>, Seq<char>);

    open spec fn view(&self) -> (ModuleType, Seq<char>, Seq<char>) {
        (self.module_type, self.func_name@, self.input@)
    }
}

impl GroupKey {
    /// A copy of the key.
    pub fn duplicate(&self) -> (r: GroupKey)
        ensures
            r == *self,
    {
        GroupKey { module_type: self.module_type, func_name: self.func_name.clone(), input: self.input.clone() }
    }
}

/// The group key of a record.
pub open spec fn key_of(r: FunctionResult) -> (ModuleType, Seq<char>, Seq<char>) {
    (r.func_type, r.func_name@, r.input@)
}

/// The distinct group keys of the records, in order of first appearance.
pub open spec fn group_keys(rs: Seq<FunctionResult>) -> Seq<(ModuleType, Seq<char>, Seq<char>)>
    decreases rs.len(),
{
    if rs.len() == 0 {
        seq![]
    } else {
        let ks = group_keys(rs.drop_last());
        if ks.contains(key_of(rs.last())) {
            ks
        } else {
            ks.push(key_of(rs.last()))
        }
    }
}

/// Number of records in a group.
pub open spec fn group_count(rs: Seq<FunctionResult>, k: (ModuleType, Seq<char>, Seq<char>)) -> nat
    decreases rs.len(),
{
    if rs.len() == 0 {
        0
    } else {
        group_count(rs.drop_last(), k) + if key_of(rs.last()) == k {
            1nat
        } else {
            0nat
        }
    }
}

/// The numeric fields of a record that are summarised per group.
#[derive(Clone, Copy, Debug, PartialEq, Eq, Structural)]
pub enum Field {
    StartupTime,
    Runtime,
    AveragePower,
    AveragePowerIsolated,
    EnergyConsumption,
    EnergyConsumptionIsolated,
}

/// The value of a field of a record, where the record has it.
pub open spec fn field_value(r: FunctionResult, f: Field) -> Option<u128> {
    match r.metrics {
        None => None,
        Some(m) => match f {
            Field::StartupTime => Some(m.startup_time as u128),
            Field::Runtime => match m.runtime_spec() {
                Some(x) => Some(x as u128),
                None => None,
            },
            Field::AveragePower => match m.power {
                Some(p) => Some(p.average_power),
                None => None,
            },
            Field::AveragePowerIsolated => match m.power {
                Some(p) => Some(p.average_power_isolated),
                None => None,
            },
            Field::EnergyConsumption => match m.power {
                Some(p) => Some(p.energy_consumption),
                None => None,
            },
            Field::EnergyConsumptionIsolated => match m.power {
                Some(p) => Some(p.energy_consumption_isolated),
                None => None,
            },
        },
    }
}

/// The values that the records of a group hold in a field, in record order.
pub open spec fn group_values(rs: Seq<FunctionResult>, k: (ModuleType, Seq<char>, Seq<char>), f: Field) -> Seq<u128>
    decreases rs.len(),
{
    if rs.len() == 0 {
        seq![]
    } else {
        let prev = group_values(rs.drop_last(), k, f);
        if key_of(rs.last()) == k && field_value(rs.last(), f) is Some {
            prev.push(field_value(rs.last(), f)->0)
        } else {
            prev
        }
    }
}

/// Statistics of one group over every numeric field.
#[derive(Clone, Copy, Debug, PartialEq, Eq, Structural)]
pub struct EnergyMetrics {
    pub startup_time: Metrics,
    pub runtime: Metrics,
    pub average_power: Metrics,
    pub average_power_isolated: Metrics,
    pub energy_consumption: Metrics,
    pub energy_consumption_isolated: Metrics,
    pub num_invoked: u64,
}

/// Statistics of one group over its timing fields.
#[derive(Clone, Copy, Debug, PartialEq, Eq, Structural)]
pub struct EfficiencyMetrics {
    pub startup_time: Metrics,
    pub runtime: Metrics,
    pub num_invoked: u64,
}

pub open spec fn energy_metrics_of(rs: Seq<FunctionResult>, k: (ModuleType, Seq<char>, Seq<char>), e: EnergyMetrics) -> bool {
    &&& e.num_invoked == group_count(rs, k)
    &&& summary_matches(group_values(rs, k, Field::StartupTime), e.startup_time)
    &&& summary_matches(group_values(rs, k, Field::Runtime), e.runtime)
    &&& summary_matches(group_values(rs, k, Field::AveragePower), e.average_power)
    &&& summary_matches(group_values(rs, k, Field::AveragePowerIsolated), e.average_power_isolated)
    &&& summary_matches(group_values(rs, k, Field::EnergyConsumption), e.energy_consumption)
    &&& summary_matches(group_values(rs, k, Field::EnergyConsumptionIsolated), e.energy_consumption_isolated)
}

pub open spec fn efficiency_metrics_of(rs: Seq<FunctionResult>, k: (ModuleType, Seq<char>, Seq<char>), e: EfficiencyMetrics) -> bool {
    &&& e.num_invoked == group_count(rs, k)
    &&& summary_matches(group_values(rs, k, Field::StartupTime), e.startup_time)
    &&& summary_matches(group_values(rs, k, Field::Runtime), e.runtime)
}

/// Whether a record belongs to the group of a key.
pub fn in_group(r: &FunctionResult, k: &GroupKey) -> (b: bool)
    ensures
        b == (key_of(*r) == k@),
{
    r.func_type == k.module_type && r.func_name == k.func_name && r.input == k.input
}

/// The value of a field of a record, where the record has it.
pub fn get_field(r: &FunctionResult, f: Field) -> (v: Option<u128>)
    ensures
        v == field_value(*r, f),
{
    match &r.metrics {
        None => None,
        Some(m) => match f {
            Field::StartupTime => Some(m.startup_time as u128),
            Field::Runtime => match m.runtime() {
                Some(x) => Some(x as u128),
                None => None,
            },
            Field::AveragePower => match m.power {
                Some(p) => Some(p.average_power),
                None => None,
            },
            Field::AveragePowerIsolated => match m.power {
                Some(p) => Some(p.average_power_isolated),
                None => None,
            },
            Field::EnergyConsumption => match m.power {
                Some(p) => Some(p.energy_consumption),
                None => None,
            },
            Field::EnergyConsumptionIsolated => match m.power {
                Some(p) => Some(p.energy_consumption_isolated),
                None => None,
            },
        },
    }
}

/// The values that the records of a group hold in a field.
pub fn collect_values(measurements: &Vec<FunctionResult>, k: &GroupKey, f: Field) -> (v: Vec<u128>)
    ensures
        v@ == group_values(measurements@, k@, f),
{
    let mut v: Vec<u128> = Vec::new();
    let n = measurements.len();
    for i in 0..n
        invariant
            n == measurements@.len(),
            v@ == group_values(measurements@.take(i as int), k@, f),
    {
        assert(measurements@.take(i + 1).drop_last() =~= measurements@.take(i as int));
        assert(measurements@.take(i + 1).last() == measurements@[i as int]);
        if in_group(&measurements[i], k) {
            if let Some(x) = get_field(&measurements[i], f) {
                v.push(x);
            }
        }
    }
    assert(measurements@.take(n as int) =~= measurements@);
    v
}

/// Number of records in the group of a key.
pub fn count_group(measurements: &Vec<FunctionResult>, k: &GroupKey) -> (c: u64)
    ensures
        c == group_count(measurements@, k@),
{
    let mut c: u64 = 0;
    let n = measurements.len();
    for i in 0..n
        invariant
            n == measurements@.len(),
            c == group_count(measurements@.take(i as int), k@),
            c <= i,
    {
        assert(measurements@.take(i + 1).drop_last() =~= measurements@.take(i as int));
        assert(measurements@.take(i + 1).last() == measurements@[i as int]);
        if in_group(&measurements[i], k) {
            c = c + 1;
        }
    }
    assert(measurements@.take(n as int) =~= measurements@);
    c
}

fn summarize_field(measurements: &Vec<FunctionResult>, k: &GroupKey, f: Field) -> (m: Metrics)
    ensures
        summary_matches(group_values(measurements@, k@, f), m),
{
    let v = collect_values(measurements, k, f);
    summarize(&v)
}

/// The distinct group keys of the records, in order of first appearance.
pub fn collect_keys(measurements: &Vec<FunctionResult>) -> (keys: Vec<GroupKey>)
    ensures
        keys@.len() == group_keys(measurements@).len(),
        forall|j: int| 0 <= j < keys@.len() ==> #[trigger] keys@[j]@ == group_keys(measurements@)[j],
{
    let mut keys: Vec<GroupKey> = Vec::new();
    let n = measurements.len();
    for i in 0..n
        invariant
            n == measurements@.len(),
            keys@.len() == group_keys(measurements@.take(i as int)).len(),
            forall|j: int| 0 <= j < keys@.len() ==> #[trigger] keys@[j]@ == group_keys(measurements@.take(i as int))[j],
    {
        let ghost pre = measurements@.take(i as int);
        assert(measurements@.take(i + 1).drop_last() =~= pre);
        assert(measurements@.take(i + 1).last() == measurements@[i as int]);
        let r = &measurements[i];
        let mut found = false;
        let mut j: usize = 0;
        while j < keys.len()
            invariant
                j <= keys@.len(),
                keys@.len() == group_keys(pre).len(),
                forall|t: int| 0 <= t < keys@.len() ==> #[trigger] keys@[t]@ == group_keys(pre)[t],
                found == exists|t: int| 0 <= t < j && #[trigger] keys@[t]@ == key_of(*r),
            decreases keys@.len() - j,
        {
            if in_group(r, &keys[j]) {
                found = true;
            }
            j = j + 1;
        }
        proof {
            if group_keys(pre).contains(key_of(*r)) {
                let t = choose|t: int| 0 <= t < group_keys(pre).len() && group_keys(pre)[t] == key_of(*r);
                assert(keys@[t]@ == key_of(*r));
            }
        }
        if !found {
            keys.push(GroupKey { module_type: r.func_type, func_name: r.func_name.clone(), input: r.input.clone() });
        }
    }
    assert(measurements@.take(n as int) =~= measurements@);
    keys
}

/// Groups the records by execution kind, function name and input, and
/// computes per group the statistics of every numeric field, with each
/// statistic taken over the records that hold that field.
pub fn analyze_power_data(measurements: &Vec<FunctionResult>) -> (r: Vec<(GroupKey, EnergyMetrics)>)
    ensures
        r@.len() == group_keys(measurements@).len(),
        forall|j: int| 0 <= j < r@.len() ==> (#[trigger] r@[j]).0@ == group_keys(measurements@)[j]
            && energy_metrics_of(measurements@, r@[j].0@, r@[j].1),
{
    let keys = collect_keys(measurements);
    let mut out: Vec<(GroupKey, EnergyMetrics)> = Vec::new();
    let nk = keys.len();
    for j in 0..nk
        invariant
            nk == keys@.len(),
            keys@.len() == group_keys(measurements@).len(),
            forall|t: int| 0 <= t < keys@.len() ==> #[trigger] keys@[t]@ == group_keys(measurements@)[t],
            out@.len() == j,
            forall|t: int| 0 <= t < j ==> (#[trigger] out@[t]).0@ == group_keys(measurements@)[t]
                && energy_metrics_of(measurements@, out@[t].0@, out@[t].1),
    {
        let k = &keys[j];
        let e = EnergyMetrics {
            startup_time: summarize_field(measurements, k, Field::StartupTime),
            runtime: summarize_field(measurements, k, Field::Runtime),
            average_power: summarize_field(measurements, k, Field::AveragePower),
            average_power_isolated: summarize_field(measurements, k, Field::AveragePowerIsolated),
            energy_consumption: summarize_field(measurements, k, Field::EnergyConsumption),
            energy_consumption_isolated: summarize_field(measurements, k, Field::EnergyConsumptionIsolated),
            num_invoked: count_group(measurements, k),
        };
        out.push((k.duplicate(), e));
    }
    out
}

/// Groups the records as [`analyze_power_data`] does, over the timing fields
/// only.
pub fn analyze_efficiency_data(measurements: &Vec<FunctionResult>) -> (r: Vec<(GroupKey, EfficiencyMetrics)>)
    ensures
        r@.len() == group_keys(measurements@).len(),
        forall|j: int| 0 <= j < r@.len() ==> (#[trigger] r@[j]).0@ == group_keys(measurements@)[j]
            && efficiency_metrics_of(measurements@, r@[j].0@, r@[j].1),
{
    let keys = collect_keys(measurements);
    let mut out: Vec<(GroupKey, EfficiencyMetrics)> = Vec::new();
    let nk = keys.len();
    for j in 0..nk
        invariant
            nk == keys@.len(),
            keys@.len() == group_keys(measurements@).len(),
            forall|t: int| 0 <= t < keys@.len() ==> #[trigger] keys@[t]@ == group_keys(measurements@)[t],
            out@.len() == j,
            forall|t: int| 0 <= t < j ==> (#[trigger] out@[t]).0@ == group_keys(measurements@)[t]
                && efficiency_metrics_of(measurements@, out@[t].0@, out@[t].1),
    {
        let k = &keys[j];
        let e = EfficiencyMetrics {
            startup_time: summarize_field(measurements, k, Field::StartupTime),
            runtime: summarize_field(measurements, k, Field::Runtime),
            num_invoked: count_group(measurements, k),
        };
        out.push((k.duplicate(), e));
    }
    out
}

/// The groups whose trial count is below the threshold, with their counts,
/// in the order of the statistics.
pub open spec fn under_sampled(stats: Seq<(GroupKey, EnergyMetrics)>, threshold: u64) -> Seq<(GroupKey, u64)>
    decreases stats.len(),
{
    if stats.len() == 0 {
        seq![]
    } else {
        let prev = under_sampled(stats.drop_last(), threshold);
        if stats.last().1.num_invoked < threshold {
            prev.push((stats.last().0, stats.last().1.num_invoked))
        } else {
            prev
        }
    }
}

/// The under-sampled groups are exactly the groups whose trial count is below
/// the threshold: each one listed is such a group, with its count, and each
/// such group is listed.
pub proof fn lemma_under_sampled_exact(stats: Seq<(GroupKey, EnergyMetrics)>, threshold: u64)
    ensures
        forall|i: int| 0 <= i < under_sampled(stats, threshold).len() ==> {
            let u = #[trigger] under_sampled(stats, threshold)[i];
            &&& u.1 < threshold
            &&& exists|j: int| 0 <= j < stats.len() && #[trigger] stats[j].0 == u.0 && stats[j].1.num_invoked == u.1
        },
        forall|j: int| 0 <= j < stats.len() && (#[trigger] stats[j]).1.num_invoked < threshold ==> under_sampled(
            stats,
            threshold,
        ).contains((stats[j].0, stats[j].1.num_invoked)),
    decreases stats.len(),
{
    if stats.len() > 0 {
        let prev = stats.drop_last();
        lemma_under_sampled_exact(prev, threshold);
        let us = under_sampled(stats, threshold);
        let up = under_sampled(prev, threshold);
        assert forall|i: int| 0 <= i < us.len() implies {
            let u = #[trigger] us[i];
            &&& u.1 < threshold
            &&& exists|j: int| 0 <= j < stats.len() && #[trigger] stats[j].0 == u.0 && stats[j].1.num_invoked == u.1
        } by {
            if i < up.len() {
                assert(us[i] == up[i]);
                let j = choose|j: int| 0 <= j < prev.len() && #[trigger] prev[j].0 == up[i].0 && prev[j].1.num_invoked == up[i].1;
                assert(stats[j] == prev[j]);
            } else {
                assert(stats[stats.len() - 1] == stats.last());
            }
        }
        assert forall|j: int| 0 <= j < stats.len() && (#[trigger] stats[j]).1.num_invoked < threshold implies us.contains(
            (stats[j].0, stats[j].1.num_invoked),
        ) by {
            if j < prev.len() {
                assert(prev[j] == stats[j]);
                let i = choose|i: int| 0 <= i < up.len() && up[i] == (prev[j].0, prev[j].1.num_invoked);
                assert(us[i] == up[i]);
            } else {
                assert(stats[j] == stats.last());
                assert(us[us.len() - 1] == (stats[j].0, stats[j].1.num_invoked));
            }
        }
    }
}

/// Every group whose trial count is below the threshold, with its count.
pub fn find_under_sampled(stats: &Vec<(GroupKey, EnergyMetrics)>, threshold: u64) -> (r: Vec<(GroupKey, u64)>)
    ensures
        r@ == under_sampled(stats@, threshold),
{
    let mut out: Vec<(GroupKey, u64)> = Vec::new();
    let n = stats.len();
    for i in 0..n
        invariant
            n == stats@.len(),
            out@ == under_sampled(stats@.take(i as int), threshold),
    {
        assert(stats@.take(i + 1).drop_last() =~= stats@.take(i as int));
        assert(stats@.take(i + 1).last() == stats@[i as int]);
        let entry = &stats[i];
        if entry.1.num_invoked < threshold {
            out.push((entry.0.duplicate(), entry.1.num_invoked));
        }
    }
    assert(stats@.take(n as int) =~= stats@);
    out
}

/// The groups with fewer trials than the completeness threshold.
pub fn get_missing_data(stats: &Vec<(GroupKey, EnergyMetrics)>) -> (r: Vec<(GroupKey, u64)>)
    ensures
        r@ == under_sampled(stats@, COMPLETENESS_THRESHOLD),
{
    find_under_sampled(stats, COMPLETENESS_THRESHOLD)
}

} // verus!
