use vstd::prelude::*;

use crate::association::{all_wf, associate_power_measurements, associated};
use crate::invocation::FunctionResult;
use crate::sensor::{MeterError, SensorData};

verus! {

/// What happened since the orchestrator last decided.
#[derive(Debug)]
pub enum AcquisitionEvent {
    /// A meter read completed, with a sample or with an error.
    Reading(Result<SensorData, MeterError>),
    /// The workload driver completed its schedule.
    DriverFinished,
}

/// What the orchestrator asks to be done next.
#[derive(Clone, Copy, Debug, PartialEq, Eq, Structural)]
pub enum AcquisitionAction {
    /// Start another meter read.
    ReadMeter,
    /// Start no further read: acquisition is over.
    Stop,
}

/// The state of a benchmark run's acquisition: the samples read so far, in
/// arrival order, and whether the workload driver has finished.
#[derive(Debug)]
pub struct Acquisition {
    pub samples: Vec<SensorData>,
    pub finished: bool,
}

impl Acquisition {
    /// The invariant of the state: every sample kept is well formed.
    pub open spec fn wf(&self) -> bool {
        all_wf(self.samples@)
    }

    /// A run that has read nothing yet.
    pub fn new() -> (r: Acquisition)
        ensures
            r.wf(),
            r.samples@.len() == 0,
            !r.finished,
    {
        Acquisition { samples: Vec::new(), finished: false }
    }

    /// Takes in one event and decides what to do next.
    ///
    /// A sample is appended, also one whose read was in flight when the
    /// driver finished; a failed read is skipped and the loop goes on; once
    /// the driver has finished no further read is started.
    pub fn step(&mut self, event: AcquisitionEvent) -> (action: AcquisitionAction)
        requires
            old(self).wf(),
        ensures
            final(self).wf(),
            match event {
                AcquisitionEvent::Reading(Ok(s)) => {
                    &&& final(self).samples@ == if s.wf() {
                        old(self).samples@.push(s)
                    } else {
                        old(self).samples@
                    }
                    &&& final(self).finished == old(self).finished
                },
                AcquisitionEvent::Reading(Err(_)) => {
                    &&& final(self).samples@ == old(self).samples@
                    &&& final(self).finished == old(self).finished
                },
                AcquisitionEvent::DriverFinished => {
                    &&& final(self).samples@ == old(self).samples@
                    &&& final(self).finished
                },
            },
            action == if final(self).finished {
                AcquisitionAction::Stop
            } else {
                AcquisitionAction::ReadMeter
            },
    {
        match event {
            AcquisitionEvent::Reading(Ok(s)) => {
                if s.is_wf() {
                    self.samples.push(s);
                }
            },
            AcquisitionEvent::Reading(Err(_)) => {},
            AcquisitionEvent::DriverFinished => {
                self.finished = true;
            },
        }
        if self.finished {
            AcquisitionAction::Stop
        } else {
            AcquisitionAction::ReadMeter
        }
    }

    /// Hands the samples to the association engine together with the
    /// invocations that the driver produced.
    pub fn finish(self, invocations: Vec<FunctionResult>) -> (r: Vec<FunctionResult>)
        requires
            self.wf(),
        ensures
            r@ == associated(invocations@, self.samples@),
    {
        associate_power_measurements(invocations, &self.samples)
    }
}

} // verus!
