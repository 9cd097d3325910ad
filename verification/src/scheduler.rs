//! Measurement scheduler: the two-state machine that drives probing.
//!
//! The scheduler is `Idle` until a tick starts one measurement cycle
//! (`Running`); cycles never overlap, and after a shutdown request no new
//! cycle begins. Beginning a cycle plans one probe job per applicable
//! probe of each configured target, per the classification policy: an
//! HTTP(S) target gets one HTTP job, a dotted slash-free target gets both
//! a DNS and a ping job, anything else none. The probe I/O and the tick
//! timer live outside the library; the caller runs the jobs and reports
//! back.

use vstd::prelude::*;
use vstd::string::StringSliceAdditionalSpecFns;
use crate::classify::{TargetClass, classification, classify_target};
use crate::measurements::MeasurementType;

verus! {

/// Where the scheduler stands: waiting for a tick, or inside one cycle.
#[derive(Debug, Clone, Copy, PartialEq, Eq, Structural)]
pub enum SchedulerPhase {
    Idle,
    Running,
}

/// One probe to run: which target, with which probe kind.
#[derive(Debug, Clone)]
pub struct ProbeJob {
    pub target: String,
    pub kind: MeasurementType,
}

/// The class of a target given as text.
pub open spec fn target_class(t: Seq<char>) -> TargetClass {
    classification(vstd::utf8::encode_utf8(t))
}

/// The jobs one target yields: HTTP targets one HTTP probe; dotted,
/// slash-free targets both a DNS and a ping probe (in that order);
/// anything else none.
pub open spec fn jobs_of_target(t: Seq<char>) -> Seq<(Seq<char>, MeasurementType)> {
    match target_class(t) {
        TargetClass::Http => seq![(t, MeasurementType::Http)],
        TargetClass::PingAndDns => seq![(t, MeasurementType::Dns), (t, MeasurementType::Ping)],
        TargetClass::Unknown => Seq::empty(),
    }
}

/// The probe plan of one cycle over `targets`, in configuration order.
pub open spec fn cycle_plan(targets: Seq<Seq<char>>) -> Seq<(Seq<char>, MeasurementType)>
    decreases targets.len(),
{
    if targets.len() == 0 {
        Seq::empty()
    } else {
        cycle_plan(targets.drop_last()) + jobs_of_target(targets.last())
    }
}

/// The pair a planned job stands for.
pub open spec fn job_view(j: ProbeJob) -> (Seq<char>, MeasurementType) {
    (j.target@, j.kind)
}

/// Plans one measurement cycle: exactly the jobs of `cycle_plan`, in order.
pub fn plan_cycle(targets: &Vec<String>) -> (jobs: Vec<ProbeJob>)
    ensures
        jobs@.map_values(|j: ProbeJob| job_view(j)) == cycle_plan(
            targets@.map_values(|s: String| s@),
        ),
{
    let n = targets.len();
    let mut jobs: Vec<ProbeJob> = Vec::new();
    let mut i: usize = 0;
    while i < n
        invariant
            n == targets@.len(),
            i <= n,
            jobs@.map_values(|j: ProbeJob| job_view(j)) == cycle_plan(
                targets@.subrange(0, i as int).map_values(|s: String| s@),
            ),
        decreases n - i,
    {
        let ghost prefix = targets@.subrange(0, i as int).map_values(|s: String| s@);
        let ghost next = targets@.subrange(0, i + 1 as int).map_values(|s: String| s@);
        proof {
            assert(next.drop_last() =~= prefix);
            assert(next.last() == targets@[i as int]@);
        }
        let target = &targets[i];
        let ghost before = jobs@;
        match classify_target(target.as_str()) {
            TargetClass::Http => {
                jobs.push(ProbeJob { target: target.as_str().to_owned(), kind: MeasurementType::Http });
            }
            TargetClass::PingAndDns => {
                jobs.push(ProbeJob { target: target.as_str().to_owned(), kind: MeasurementType::Dns });
                jobs.push(ProbeJob { target: target.as_str().to_owned(), kind: MeasurementType::Ping });
            }
            TargetClass::Unknown => {}
        }
        proof {
            assert(jobs@.map_values(|j: ProbeJob| job_view(j)) =~= before.map_values(
                |j: ProbeJob| job_view(j),
            ) + jobs_of_target(targets@[i as int]@));
        }
        i += 1;
    }
    proof {
        assert(targets@.subrange(0, n as int) =~= targets@);
    }
    jobs
}

/// The measurement scheduler: drives cycles over the configured targets.
pub struct Scheduler {
    phase: SchedulerPhase,
    shutdown_requested: bool,
    interval_micros: u64,
    targets: Vec<String>,
}

impl Scheduler {
    pub closed spec fn phase_spec(&self) -> SchedulerPhase {
        self.phase
    }

    pub closed spec fn is_shutdown(&self) -> bool {
        self.shutdown_requested
    }

    pub closed spec fn interval_spec(&self) -> u64 {
        self.interval_micros
    }

    pub closed spec fn targets_spec(&self) -> Seq<Seq<char>> {
        self.targets@.map_values(|s: String| s@)
    }

    /// A fresh scheduler: idle, not shutting down.
    pub fn new(targets: Vec<String>, interval_micros: u64) -> (r: Scheduler)
        ensures
            r.phase_spec() == SchedulerPhase::Idle,
            !r.is_shutdown(),
            r.interval_spec() == interval_micros,
            r.targets_spec() == targets@.map_values(|s: String| s@),
    {
        Scheduler { phase: SchedulerPhase::Idle, shutdown_requested: false, interval_micros, targets }
    }

    /// The configured tick interval, in microseconds.
    pub fn interval_micros(&self) -> (r: u64)
        ensures
            r == self.interval_spec(),
    {
        self.interval_micros
    }

    /// Reacts to one tick. An idle scheduler that is not shutting down
    /// enters `Running` and hands back the cycle's probe plan; a running
    /// one (the previous cycle still queues) or one already asked to shut
    /// down starts nothing and stays as it is.
    pub fn begin_cycle(&mut self) -> (jobs: Option<Vec<ProbeJob>>)
        ensures
            final(self).is_shutdown() == old(self).is_shutdown(),
            final(self).interval_spec() == old(self).interval_spec(),
            final(self).targets_spec() == old(self).targets_spec(),
            old(self).phase_spec() == SchedulerPhase::Idle && !old(self).is_shutdown() ==> final(self).phase_spec() == SchedulerPhase::Running && (jobs matches Some(js)
                && js@.map_values(|j: ProbeJob| job_view(j)) == cycle_plan(
                old(self).targets_spec(),
            )),
            !(old(self).phase_spec() == SchedulerPhase::Idle && !old(self).is_shutdown())
                ==> jobs is None && final(self).phase_spec() == old(self).phase_spec(),
    {
        if self.shutdown_requested || matches!(self.phase, SchedulerPhase::Running) {
            return None;
        }
        self.phase = SchedulerPhase::Running;
        Some(plan_cycle(&self.targets))
    }

    /// Ends the in-flight cycle: a running scheduler returns to `Idle`;
    /// an idle one is unchanged.
    pub fn finish_cycle(&mut self)
        ensures
            final(self).phase_spec() == SchedulerPhase::Idle,
            final(self).is_shutdown() == old(self).is_shutdown(),
            final(self).interval_spec() == old(self).interval_spec(),
            final(self).targets_spec() == old(self).targets_spec(),
    {
        self.phase = SchedulerPhase::Idle;
    }

    /// Records the shutdown signal: no further cycle will begin; an
    /// in-flight cycle may still finish within its grace period.
    pub fn request_shutdown(&mut self)
        ensures
            final(self).is_shutdown(),
            final(self).phase_spec() == old(self).phase_spec(),
            final(self).interval_spec() == old(self).interval_spec(),
            final(self).targets_spec() == old(self).targets_spec(),
    {
        self.shutdown_requested = true;
    }

    /// Whether a shutdown has been requested.
    pub fn shutting_down(&self) -> (r: bool)
        ensures
            r == self.is_shutdown(),
    {
        self.shutdown_requested
    }
}

} // verus!
