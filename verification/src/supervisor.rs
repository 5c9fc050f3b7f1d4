//! Scenario D: the select-based supervisor.
//!
//! The supervisor races a worker future against a timeout timer, and then
//! races an overall shutdown timer against the OS interrupt. A select
//! commits to the arm whose future resolves first; the losing arms are
//! dropped at that moment and produce no observable effect. The model
//! represents each arm by the instant (in milliseconds from the start of
//! the race) at which its future would resolve; the decision of the select
//! is then a pure function of those instants, proved to pick the earliest.

use vstd::prelude::*;

verus! {

/// The three arms of the supervisor's select, in tie-break priority order.
#[derive(Clone, Copy, Debug, PartialEq, Eq, Structural)]
pub enum RaceArm {
    /// The simulated heavy task.
    Worker,
    /// The timer arm.
    Timeout,
    /// The OS terminal-interrupt arm.
    Interrupt,
}

/// The observable outcome of a race.
#[derive(Debug, PartialEq, Eq)]
pub enum WorkerOutcome {
    /// The worker resolved first; its result string is committed.
    WorkerDone(String),
    /// The timer elapsed first.
    TimedOut,
    /// The interrupt arrived first.
    Interrupted,
}

/// When the given arm's future resolves, in milliseconds from the start of
/// the race. `interrupt_at` is `None` when no interrupt ever arrives.
pub open spec fn arm_time(
    worker_at: u64,
    timeout_at: u64,
    interrupt_at: Option<u64>,
    arm: RaceArm,
) -> u64
    recommends
        arm is Interrupt ==> interrupt_at is Some,
{
    match arm {
        RaceArm::Worker => worker_at,
        RaceArm::Timeout => timeout_at,
        RaceArm::Interrupt => interrupt_at->0,
    }
}

/// The arm that resolves first. Ties go to the arm listed first, matching
/// the declaration order of the arms in the select.
pub open spec fn spec_first_arm(
    worker_at: u64,
    timeout_at: u64,
    interrupt_at: Option<u64>,
) -> RaceArm {
    if worker_at <= timeout_at && (interrupt_at matches Some(iv) ==> worker_at <= iv) {
        RaceArm::Worker
    } else if (interrupt_at matches Some(iv) ==> timeout_at <= iv) {
        RaceArm::Timeout
    } else {
        RaceArm::Interrupt
    }
}

/// Commit to the arm whose future resolves first.
pub fn first_arm(worker_at: u64, timeout_at: u64, interrupt_at: Option<u64>) -> (r: RaceArm)
    ensures
        r == spec_first_arm(worker_at, timeout_at, interrupt_at),
        r is Interrupt ==> interrupt_at is Some,
        arm_time(worker_at, timeout_at, interrupt_at, r) <= worker_at,
        arm_time(worker_at, timeout_at, interrupt_at, r) <= timeout_at,
        interrupt_at matches Some(iv) ==> arm_time(worker_at, timeout_at, interrupt_at, r)
            <= iv,
{
    let worker_first = match interrupt_at {
        Some(iv) => worker_at <= timeout_at && worker_at <= iv,
        None => worker_at <= timeout_at,
    };
    if worker_first {
        RaceArm::Worker
    } else {
        let timeout_first = match interrupt_at {
            Some(iv) => timeout_at <= iv,
            None => true,
        };
        if timeout_first {
            RaceArm::Timeout
        } else {
            RaceArm::Interrupt
        }
    }
}

/// Law: the select commits to the earliest arm — the chosen arm's resolve
/// time is no later than that of any arm in the race.
pub proof fn lemma_first_arm_wins(worker_at: u64, timeout_at: u64, interrupt_at: Option<u64>)
    ensures
        arm_time(
            worker_at,
            timeout_at,
            interrupt_at,
            spec_first_arm(worker_at, timeout_at, interrupt_at),
        ) <= worker_at,
        arm_time(
            worker_at,
            timeout_at,
            interrupt_at,
            spec_first_arm(worker_at, timeout_at, interrupt_at),
        ) <= timeout_at,
        interrupt_at matches Some(iv) ==> arm_time(
            worker_at,
            timeout_at,
            interrupt_at,
            spec_first_arm(worker_at, timeout_at, interrupt_at),
        ) <= iv,
        spec_first_arm(worker_at, timeout_at, interrupt_at) is Interrupt ==> interrupt_at
            is Some,
{
}

/// The result string of the simulated heavy task.
pub fn heavy_task_result() -> (r: String)
    ensures
        r@ == "작업 완료!"@,
{
    String::from_str("작업 완료!")
}

/// The result string of a named computation.
pub open spec fn spec_computation_result(name: Seq<char>) -> Seq<char> {
    name + "의 결과물"@
}

/// Format the result of the named computation.
pub fn computation_result(name: &str) -> (r: String)
    ensures
        r@ == spec_computation_result(name@),
{
    let mut s = String::from_str(name);
    s.append("의 결과물");
    s
}

/// The outcome of one full race, given when each arm would resolve. Only
/// the winning arm contributes to the outcome; in particular the worker's
/// result string is committed only when the worker arm wins.
pub fn run_race(
    worker_at: u64,
    timeout_at: u64,
    interrupt_at: Option<u64>,
    worker_result: String,
) -> (r: WorkerOutcome)
    ensures
        ({
            let arm = spec_first_arm(worker_at, timeout_at, interrupt_at);
            &&& arm is Worker ==> r == WorkerOutcome::WorkerDone(worker_result)
            &&& arm is Timeout ==> r == WorkerOutcome::TimedOut
            &&& arm is Interrupt ==> r == WorkerOutcome::Interrupted
        }),
{
    match first_arm(worker_at, timeout_at, interrupt_at) {
        RaceArm::Worker => WorkerOutcome::WorkerDone(worker_result),
        RaceArm::Timeout => WorkerOutcome::TimedOut,
        RaceArm::Interrupt => WorkerOutcome::Interrupted,
    }
}

/// The two races the supervisor runs in sequence: first the worker against
/// its timeout (no interrupt is subscribed yet), then the overall shutdown
/// timer against the interrupt.
pub fn supervise(
    worker_ms: u64,
    first_timeout_ms: u64,
    shutdown_ms: u64,
    interrupt_at: Option<u64>,
    worker_result: String,
) -> (r: (WorkerOutcome, WorkerOutcome))
    requires
        shutdown_ms < u64::MAX,
    ensures
        ({
            let arm1 = spec_first_arm(worker_ms, first_timeout_ms, None);
            &&& arm1 is Worker ==> r.0 == WorkerOutcome::WorkerDone(worker_result)
            &&& arm1 is Timeout ==> r.0 == WorkerOutcome::TimedOut
        }),
        ({
            let arm2 = spec_first_arm(u64::MAX, shutdown_ms, interrupt_at);
            &&& r.1 == WorkerOutcome::TimedOut <==> arm2 is Timeout
            &&& r.1 == WorkerOutcome::Interrupted <==> arm2 is Interrupt
        }),
{
    let first = run_race(worker_ms, first_timeout_ms, None, worker_result);
    // The second race has no worker arm: model it as one that never resolves
    // before the shutdown timer.
    let second = run_race(u64::MAX, shutdown_ms, interrupt_at, String::new());
    (first, second)
}

} // verus!
