use vstd::prelude::*;

use crate::invocation::{FunctionResult, ModuleType};
use crate::server::{format_micro_to_milli, milli_text};

verus! {

/// The invocation list shown on the dashboard, with per-kind counts and mean
/// times in microseconds (rounded down; zero for a kind with no invocation).
#[derive(Debug)]
pub struct FCList {
    pub function_results: Vec<FunctionResult>,
    pub total_wasm_invocations: usize,
    pub total_docker_invocations: usize,
    pub avg_wasm_startup: u128,
    pub avg_wasm_total_time: u128,
    pub avg_wasm_runtime: u128,
    pub avg_docker_startup: u128,
    pub avg_docker_runtime: u128,
    pub avg_docker_total_time: u128,
}

impl FCList {
    /// A time in microseconds as the dashboard shows it.
    pub fn format_time(&self, time: &u128) -> (r: String)
        ensures
            r@ == milli_text(*time as nat),
    {
        format_micro_to_milli(time)
    }
}

/// Every record has metrics, with a total runtime no shorter than its
/// start-up time.
pub open spec fn all_measured(rs: Seq<FunctionResult>) -> bool {
    forall|i: int|
        0 <= i < rs.len() ==> (#[trigger] rs[i]).metrics is Some && rs[i].metrics->0.total_runtime
            >= rs[i].metrics->0.startup_time
}

/// A timing of a record: 0 start-up, 1 runtime after start-up, 2 total.
pub open spec fn timing(r: FunctionResult, which: int) -> int {
    let m = r.metrics->0;
    if which == 0 {
        m.startup_time as int
    } else if which == 1 {
        m.total_runtime - m.startup_time
    } else {
        m.total_runtime as int
    }
}

/// Number of records of a kind.
pub open spec fn kind_count(rs: Seq<FunctionResult>, kind: ModuleType) -> nat
    decreases rs.len(),
{
    if rs.len() == 0 {
        0
    } else {
        kind_count(rs.drop_last(), kind) + if rs.last().func_type == kind {
            1nat
        } else {
            0nat
        }
    }
}

/// Sum of a timing over the records of a kind.
pub open spec fn kind_sum(rs: Seq<FunctionResult>, kind: ModuleType, which: int) -> int
    decreases rs.len(),
{
    if rs.len() == 0 {
        0
    } else {
        kind_sum(rs.drop_last(), kind, which) + if rs.last().func_type == kind {
            timing(rs.last(), which)
        } else {
            0
        }
    }
}

/// Mean of a timing over the records of a kind, rounded down; zero where
/// there is none.
pub open spec fn kind_mean(rs: Seq<FunctionResult>, kind: ModuleType, which: int) -> int {
    let n = kind_count(rs, kind);
    kind_sum(rs, kind, which) / if n == 0 {
        1int
    } else {
        n as int
    }
}

/// Count and sums of the three timings over the records of one kind.
fn kind_totals(rs: &Vec<FunctionResult>, kind: ModuleType) -> (r: (usize, u128, u128, u128))
    requires
        all_measured(rs@),
    ensures
        r.0 == kind_count(rs@, kind),
        r.1 == kind_sum(rs@, kind, 0),
        r.2 == kind_sum(rs@, kind, 1),
        r.3 == kind_sum(rs@, kind, 2),
{
    let mut count: usize = 0;
    let mut startup: u128 = 0;
    let mut runtime: u128 = 0;
    let mut total: u128 = 0;
    let n = rs.len();
    for i in 0..n
        invariant
            n == rs@.len(),
            all_measured(rs@),
            count == kind_count(rs@.take(i as int), kind),
            startup == kind_sum(rs@.take(i as int), kind, 0),
            runtime == kind_sum(rs@.take(i as int), kind, 1),
            total == kind_sum(rs@.take(i as int), kind, 2),
            count <= i,
            startup <= i * 0xffff_ffff_ffff_ffff,
            runtime <= i * 0xffff_ffff_ffff_ffff,
            total <= i * 0xffff_ffff_ffff_ffff,
    {
        assert(rs@.take(i + 1).drop_last() =~= rs@.take(i as int));
        assert(rs@.take(i + 1).last() == rs@[i as int]);
        assert((i as int + 1) * 0xffff_ffff_ffff_ffff <= 0x1_0000_0000_0000_0000 * 0xffff_ffff_ffff_ffff) by (nonlinear_arith)
            requires
                0 <= i < 0x1_0000_0000_0000_0000,
        ;
        let r = &rs[i];
        if r.func_type == kind {
            assert(rs@[i as int].metrics is Some);
            match &r.metrics {
                Some(m) => {
                    count = count + 1;
                    startup = startup + m.startup_time as u128;
                    runtime = runtime + (m.total_runtime - m.startup_time) as u128;
                    total = total + m.total_runtime as u128;
                },
                None => {},
            }
        }
    }
    assert(rs@.take(n as int) =~= rs@);
    (count, startup, runtime, total)
}

/// Counts the invocations of each kind and the mean start-up, runtime and
/// total time of each.
pub fn get_fc_list(function_results: Vec<FunctionResult>) -> (r: FCList)
    requires
        all_measured(function_results@),
    ensures
        r.function_results@ == function_results@,
        r.total_wasm_invocations == kind_count(function_results@, ModuleType::Wasm),
        r.total_docker_invocations == kind_count(function_results@, ModuleType::Docker),
        r.avg_wasm_startup == kind_mean(function_results@, ModuleType::Wasm, 0),
        r.avg_wasm_runtime == kind_mean(function_results@, ModuleType::Wasm, 1),
        r.avg_wasm_total_time == kind_mean(function_results@, ModuleType::Wasm, 2),
        r.avg_docker_startup == kind_mean(function_results@, ModuleType::Docker, 0),
        r.avg_docker_runtime == kind_mean(function_results@, ModuleType::Docker, 1),
        r.avg_docker_total_time == kind_mean(function_results@, ModuleType::Docker, 2),
{
    let (wasm_count, wasm_startup, wasm_runtime, wasm_total) = kind_totals(&function_results, ModuleType::Wasm);
    let (docker_count, docker_startup, docker_runtime, docker_total) = kind_totals(
        &function_results,
        ModuleType::Docker,
    );
    let wasm_div: u128 = if wasm_count == 0 {
        1
    } else {
        wasm_count as u128
    };
    let docker_div: u128 = if docker_count == 0 {
        1
    } else {
        docker_count as u128
    };
    FCList {
        function_results,
        total_wasm_invocations: wasm_count,
        total_docker_invocations: docker_count,
        avg_wasm_startup: wasm_startup / wasm_div,
        avg_wasm_runtime: wasm_runtime / wasm_div,
        avg_wasm_total_time: wasm_total / wasm_div,
        avg_docker_startup: docker_startup / docker_div,
        avg_docker_runtime: docker_runtime / docker_div,
        avg_docker_total_time: docker_total / docker_div,
    }
}

} // verus!
