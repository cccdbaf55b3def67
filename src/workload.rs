use vstd::prelude::*;
use vstd::string::StringExecFns;

use crate::aggregation::GroupKey;
use crate::invocation::ModuleType;
use crate::text::{decimal, decimal_text};

verus! {

/// Number of trials of each execution kind for every input of the schedule.
pub const DEFAULT_REPEATS: u32 = 5;

/// One remote invocation that the workload driver is to issue.
#[derive(Debug)]
pub struct PlannedRequest {
    pub function_name: String,
    pub module_type: ModuleType,
    pub input: String,
    pub base_image: String,
}

/// A request as the contracts see it: function name, kind, input, base image.
pub type RequestView = (Seq<char>, ModuleType, Seq<char>, Seq<char>);

impl View for PlannedRequest {
    type V = RequestView;

    open spec fn view(&self) -> RequestView {
        (self.function_name@, self.module_type, self.input@, self.base_image@)
    }
}

/// The views of a sequence of requests.
pub open spec fn request_views(rs: Seq<PlannedRequest>) -> Seq<RequestView> {
    rs.map_values(|r: PlannedRequest| r@)
}

/// The base image sent with a request of a kind: containers are built on
/// `debian`; sandboxed modules need none.
pub open spec fn base_image_for(kind: ModuleType) -> Seq<char> {
    match kind {
        ModuleType::Docker => "debian"@,
        ModuleType::Wasm => seq![],
    }
}

/// The request of one trial of a kind.
pub open spec fn request_for(name: Seq<char>, kind: ModuleType, input: Seq<char>) -> RequestView {
    (name, kind, input, base_image_for(kind))
}

/// One trial against each kind: the sandboxed module first, then the container.
pub open spec fn trial_pair(name: Seq<char>, input: Seq<char>) -> Seq<RequestView> {
    seq![request_for(name, ModuleType::Wasm, input), request_for(name, ModuleType::Docker, input)]
}

/// `repeats` trial pairs for one input.
pub open spec fn repeated_trials(name: Seq<char>, input: Seq<char>, repeats: nat) -> Seq<RequestView>
    decreases repeats,
{
    if repeats == 0 {
        seq![]
    } else {
        repeated_trials(name, input, (repeats - 1) as nat) + trial_pair(name, input)
    }
}

/// Number of inputs `0, step, 2 * step, ...` up to `max`; a step of zero
/// gives the single input zero.
pub open spec fn input_count(max: u32, step: u32) -> nat {
    if step == 0 {
        1
    } else {
        (max / step + 1) as nat
    }
}

/// The requests for the first `k` inputs of a function.
pub open spec fn function_requests(name: Seq<char>, step: u32, repeats: nat, k: nat) -> Seq<RequestView>
    decreases k,
{
    if k == 0 {
        seq![]
    } else {
        function_requests(name, step, repeats, (k - 1) as nat) + repeated_trials(
            name,
            decimal_text(((k - 1) * step) as nat),
            repeats,
        )
    }
}

/// The requests for a schedule of `(function, largest input, input step)`.
pub open spec fn schedule_requests(schedule: Seq<(String, u32, u32)>, repeats: nat) -> Seq<RequestView>
    decreases schedule.len(),
{
    if schedule.len() == 0 {
        seq![]
    } else {
        let (name, max, step) = schedule.last();
        schedule_requests(schedule.drop_last(), repeats) + function_requests(
            name@,
            step,
            repeats,
            input_count(max, step),
        )
    }
}

/// The requests that bring each under-sampled group up to the threshold.
pub open spec fn gap_requests(gaps: Seq<(GroupKey, u64)>, threshold: u64) -> Seq<RequestView>
    decreases gaps.len(),
{
    if gaps.len() == 0 {
        seq![]
    } else {
        let (key, count) = gaps.last();
        let missing: nat = if count < threshold {
            (threshold - count) as nat
        } else {
            0
        };
        gap_requests(gaps.drop_last(), threshold) + Seq::new(
            missing,
            |i: int| request_for(key.func_name@, key.module_type, key.input@),
        )
    }
}

fn make_request(name: &String, kind: ModuleType, input: &String) -> (r: PlannedRequest)
    ensures
        r@ == request_for(name@, kind, input@),
{
    let base_image = match kind {
        ModuleType::Docker => String::from_str("debian"),
        ModuleType::Wasm => String::new(),
    };
    PlannedRequest { function_name: name.clone(), module_type: kind, input: input.clone(), base_image }
}

proof fn lemma_views_push(rs: Seq<PlannedRequest>, r: PlannedRequest)
    ensures
        request_views(rs.push(r)) == request_views(rs).push(r@),
{
    assert(request_views(rs.push(r)) =~= request_views(rs).push(r@));
}

/// Lists the requests of a benchmark run: for every function of the schedule,
/// for every input `0, step, 2 * step, ...` up to its largest input,
/// `repeats` trials against the sandboxed module and the container, in turn.
pub fn plan_benchmark(schedule: &Vec<(String, u32, u32)>, repeats: u32) -> (r: Vec<PlannedRequest>)
    ensures
        request_views(r@) == schedule_requests(schedule@, repeats as nat),
{
    let mut out: Vec<PlannedRequest> = Vec::new();
    let n = schedule.len();
    for mi in 0..n
        invariant
            n == schedule@.len(),
            request_views(out@) == schedule_requests(schedule@.take(mi as int), repeats as nat),
    {
        assert(schedule@.take(mi + 1).drop_last() =~= schedule@.take(mi as int));
        assert(schedule@.take(mi + 1).last() == schedule@[mi as int]);
        let ghost before = request_views(out@);
        let name = &schedule[mi].0;
        let max = schedule[mi].1;
        let step = schedule[mi].2;
        let count: u64 = if step == 0 {
            1
        } else {
            (max / step) as u64 + 1
        };
        assert(count == input_count(max, step));
        for k in 0..count
            invariant
                request_views(out@) == before + function_requests(name@, step, repeats as nat, k as nat),
                count <= 0x1_0000_0000,
        {
            assert((k as int) * (step as int) < 0x1_0000_0000 * 0x1_0000_0000) by (nonlinear_arith)
                requires
                    0 <= k < 0x1_0000_0000,
                    0 <= step < 0x1_0000_0000,
            ;
            let input = decimal((k * step as u64) as u128);
            let ghost mid = request_views(out@);
            for t in 0..repeats
                invariant
                    request_views(out@) == mid + repeated_trials(name@, input@, t as nat),
            {
                let wasm = make_request(name, ModuleType::Wasm, &input);
                let docker = make_request(name, ModuleType::Docker, &input);
                proof {
                    lemma_views_push(out@, wasm);
                }
                out.push(wasm);
                proof {
                    lemma_views_push(out@, docker);
                }
                out.push(docker);
                assert(request_views(out@) =~= mid + repeated_trials(name@, input@, (t + 1) as nat));
            }
            assert(request_views(out@) =~= before + function_requests(name@, step, repeats as nat, (k + 1) as nat));
        }
    }
    assert(schedule@.take(n as int) =~= schedule@);
    out
}

/// Lists the requests that bring each under-sampled group up to the
/// threshold: for a group with `count` trials, `threshold - count` more of
/// its kind, function and input.
pub fn fill_in_function_gaps(gaps: &Vec<(GroupKey, u64)>, threshold: u64) -> (r: Vec<PlannedRequest>)
    ensures
        request_views(r@) == gap_requests(gaps@, threshold),
{
    let mut out: Vec<PlannedRequest> = Vec::new();
    let n = gaps.len();
    for gi in 0..n
        invariant
            n == gaps@.len(),
            request_views(out@) == gap_requests(gaps@.take(gi as int), threshold),
    {
        assert(gaps@.take(gi + 1).drop_last() =~= gaps@.take(gi as int));
        assert(gaps@.take(gi + 1).last() == gaps@[gi as int]);
        let ghost before = request_views(out@);
        let key = &gaps[gi].0;
        let count = gaps[gi].1;
        let missing: u64 = if count < threshold {
            threshold - count
        } else {
            0
        };
        let ghost req = request_for(key.func_name@, key.module_type, key.input@);
        for t in 0..missing
            invariant
                request_views(out@) == before + Seq::new(t as nat, |i: int| req),
                req == request_for(key.func_name@, key.module_type, key.input@),
        {
            let planned = make_request(&key.func_name, key.module_type, &key.input);
            proof {
                lemma_views_push(out@, planned);
            }
            out.push(planned);
            assert(request_views(out@) =~= before + Seq::new((t + 1) as nat, |i: int| req));
        }
    }
    assert(gaps@.take(n as int) =~= gaps@);
    out
}

} // verus!
