use vstd::prelude::*;

verus! {

/// Whether an invocation ran as a container process or as a sandboxed module.
#[derive(Clone, Copy, Debug, PartialEq, Eq, Structural)]
pub enum ModuleType {
    Docker,
    Wasm,
}

/// Power and energy attributed to one invocation by the association engine.
///
/// Power is in microwatts, energy in picowatt-hours (1 pWh = 10^-12 Wh).
#[derive(Clone, Copy, Debug, PartialEq, Eq, Structural)]
pub struct PowerEstimate {
    pub average_power: u128,
    pub average_power_isolated: u128,
    pub energy_consumption: u128,
    pub energy_consumption_isolated: u128,
}

/// Timing of one invocation, in microseconds, with its power estimate once
/// the association engine has attributed one (`None` while unmeasured).
#[derive(Clone, Copy, Debug, PartialEq, Eq, Structural)]
pub struct Metrics {
    pub startup_time: u64,
    pub start_since_epoch: u64,
    pub total_runtime: u64,
    pub end_since_epoch: u64,
    /// Share of the total runtime spent starting up, in whole percent.
    pub startup_percentage: u64,
    pub power: Option<PowerEstimate>,
}

impl Metrics {
    /// The invariant of a record as the execution endpoint produces it.
    pub open spec fn wf(&self) -> bool {
        &&& self.total_runtime >= self.startup_time
        &&& self.end_since_epoch > self.start_since_epoch
    }

    /// Time spent running after start-up.
    pub open spec fn runtime_spec(&self) -> Option<u64> {
        if self.total_runtime >= self.startup_time {
            Some((self.total_runtime - self.startup_time) as u64)
        } else {
            None
        }
    }

    /// Time spent running after start-up; `None` for a record whose total
    /// runtime is shorter than its start-up time.
    pub fn runtime(&self) -> (r: Option<u64>)
        ensures
            r == self.runtime_spec(),
    {
        if self.total_runtime >= self.startup_time {
            Some(self.total_runtime - self.startup_time)
        } else {
            None
        }
    }
}

/// The record of one remote invocation.
#[derive(Clone, Debug)]
pub struct FunctionResult {
    pub metrics: Option<Metrics>,
    pub result: String,
    pub func_type: ModuleType,
    pub func_name: String,
    pub input: String,
    pub base_image: String,
}

} // verus!
