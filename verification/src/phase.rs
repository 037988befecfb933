//! The controller that sequences a run: an optional warm-up batch whose
//! outcomes are discarded, then the measured batch.
//!
//! The controller never sends or waits itself. It is asked for the next
//! step, and told of each completed request; whoever drives it performs
//! the steps.

use vstd::prelude::*;

use crate::accumulator::{AccumulatorView, ResultAccumulator};
use crate::admission::AdmissionController;
use crate::error::SetupError;
use crate::outcome::Outcome;

verus! {

/// Where a run stands.
#[derive(Clone, Copy, Debug, PartialEq, Eq, Structural)]
pub enum Phase {
    /// Requests are sent and their outcomes thrown away.
    WarmUp,
    /// Requests are sent and their outcomes merged.
    Measured,
    /// Every request of both batches has completed.
    Finished,
}

/// What the driver has to do next.
#[derive(Clone, Copy, Debug, PartialEq, Eq, Structural)]
pub enum Step {
    /// Start one more request now; it belongs to the given phase and holds
    /// a permit until its outcome is recorded.
    Launch(Phase),
    /// Nothing can be started: wait for a request in flight to complete,
    /// and record its outcome.
    Await,
    /// The run is over.
    Finished,
}

/// The state of a run, as mathematical values.
#[verifier::ext_equal]
pub struct ControllerView {
    pub phase: Phase,
    /// The size of the warm-up batch.
    pub warmup: nat,
    /// The size of the measured batch.
    pub requests: nat,
    /// The concurrency ceiling.
    pub limit: nat,
    /// Requests of the current phase that were started.
    pub launched: nat,
    /// Requests of the current phase whose outcome was recorded.
    pub completed: nat,
    /// Warm-up outcomes that were thrown away.
    pub discarded: nat,
    /// What the measured outcomes recorded so far add up to.
    pub measured: AccumulatorView,
}

impl ControllerView {
    /// The state before anything was started.
    pub open spec fn initial(warmup: nat, requests: nat, limit: nat) -> ControllerView {
        ControllerView {
            phase: Phase::WarmUp,
            warmup,
            requests,
            limit,
            launched: 0,
            completed: 0,
            discarded: 0,
            measured: AccumulatorView::empty(),
        }
    }

    /// The size of the batch of the current phase.
    pub open spec fn phase_total(self) -> nat {
        match self.phase {
            Phase::WarmUp => self.warmup,
            _ => self.requests,
        }
    }

    /// The number of requests started and not yet recorded.
    pub open spec fn in_flight(self) -> int {
        self.launched - self.completed
    }

    /// What holds of every state that a run can reach.
    pub open spec fn inv(self) -> bool {
        &&& 1 <= self.limit
        &&& self.completed <= self.launched <= self.phase_total()
        &&& self.in_flight() <= self.limit
        &&& self.measured.balanced()
        &&& match self.phase {
            Phase::WarmUp => self.discarded == self.completed && self.measured
                == AccumulatorView::empty(),
            Phase::Measured => self.discarded == self.warmup && self.measured.total()
                == self.completed,
            Phase::Finished => self.discarded == self.warmup && self.measured.total()
                == self.requests && self.completed == self.requests,
        }
    }

    /// The state once every batch that is already complete has been left
    /// behind: a complete warm-up gives way to the measured batch, a
    /// complete measured batch to the end of the run.
    pub open spec fn settled(self) -> ControllerView {
        let entered = if self.phase is WarmUp && self.completed == self.warmup {
            ControllerView { phase: Phase::Measured, launched: 0, completed: 0, ..self }
        } else {
            self
        };
        if entered.phase is Measured && entered.completed == entered.requests {
            ControllerView { phase: Phase::Finished, ..entered }
        } else {
            entered
        }
    }

    /// Whether one more request of the current batch can be started: some
    /// are left to start, and a permit is free.
    pub open spec fn can_launch(self) -> bool {
        &&& !(self.phase is Finished)
        &&& self.launched < self.phase_total()
        &&& self.in_flight() < self.limit
    }

    /// The step that the driver is told to take.
    pub open spec fn next_step(self) -> Step {
        let s = self.settled();
        if s.phase is Finished {
            Step::Finished
        } else if s.can_launch() {
            Step::Launch(s.phase)
        } else {
            Step::Await
        }
    }

    /// The state after the driver was told its step.
    pub open spec fn after_step(self) -> ControllerView {
        let s = self.settled();
        if s.can_launch() {
            ControllerView { launched: s.launched + 1, ..s }
        } else {
            s
        }
    }

    /// The state after the outcome of one request in flight was recorded:
    /// thrown away during warm-up, merged otherwise.
    pub open spec fn record(self, outcome: Outcome) -> ControllerView {
        if self.phase is WarmUp {
            ControllerView {
                completed: self.completed + 1,
                discarded: self.discarded + 1,
                ..self
            }
        } else {
            ControllerView {
                completed: self.completed + 1,
                measured: self.measured.merge(outcome),
                ..self
            }
        }
    }

    /// The number of launches and recordings that are still to come.
    pub open spec fn work_left(self) -> nat {
        match self.phase {
            Phase::WarmUp => ((self.warmup - self.launched) + (self.warmup - self.completed) + 2
                * self.requests) as nat,
            Phase::Measured => ((self.requests - self.launched) + (self.requests
                - self.completed)) as nat,
            Phase::Finished => 0,
        }
    }
}

/// A run starts in a state that satisfies the invariant.
pub proof fn lemma_initial_inv(warmup: nat, requests: nat, limit: nat)
    requires
        1 <= limit,
    ensures
        ControllerView::initial(warmup, requests, limit).inv(),
        ControllerView::initial(warmup, requests, limit).work_left() == 2 * warmup + 2 * requests,
{
}

/// In every state that a run can reach, the requests in flight are at
/// most as many as the ceiling allows.
pub proof fn lemma_in_flight_bounded(state: ControllerView)
    requires
        state.inv(),
    ensures
        0 <= state.in_flight() <= state.limit,
{
}

/// In every state that a run can reach, nothing is merged before the
/// whole warm-up batch was thrown away, and nothing more is thrown away
/// afterwards.
pub proof fn lemma_warmup_comes_first(state: ControllerView)
    requires
        state.inv(),
    ensures
        state.discarded <= state.warmup,
        state.measured.total() <= state.requests,
        state.discarded < state.warmup ==> state.measured == AccumulatorView::empty(),
        state.measured.total() > 0 ==> state.discarded == state.warmup,
{
}

/// A run without requests is over at its first step, with nothing merged
/// and nothing thrown away.
pub proof fn lemma_empty_run(limit: nat)
    requires
        1 <= limit,
    ensures
        ControllerView::initial(0, 0, limit).next_step() is Finished,
        ControllerView::initial(0, 0, limit).after_step().measured == AccumulatorView::empty(),
        ControllerView::initial(0, 0, limit).after_step().discarded == 0,
{
}

/// Asking for the next step keeps the invariant, so the number of requests
/// in flight never exceeds the ceiling. A launch uses up one unit of the
/// work that is left; a driver that is told to wait has a request in
/// flight to wait for; and a run that is declared finished has merged
/// exactly `requests` outcomes and thrown away exactly `warmup`.
pub proof fn lemma_step_keeps_inv(state: ControllerView)
    requires
        state.inv(),
    ensures
        state.after_step().inv(),
        state.after_step().in_flight() <= state.limit,
        state.next_step() is Launch ==> state.after_step().work_left() + 1 == state.work_left(),
        !(state.next_step() is Launch) ==> state.after_step().work_left() == state.work_left(),
        state.next_step() is Await ==> state.after_step().in_flight() > 0,
        state.next_step() is Finished <==> state.work_left() == 0,
        state.next_step() is Finished ==> {
            &&& state.after_step().measured.total() == state.requests
            &&& state.after_step().measured.success + state.after_step().measured.failure
                == state.requests
            &&& state.after_step().discarded == state.warmup
            &&& state.after_step().in_flight() == 0
        },
{
}

/// Recording an outcome keeps the invariant and uses up one unit of the
/// work that is left. During warm-up nothing reaches the accumulator; in
/// the measured phase the accumulator counts exactly one outcome more.
pub proof fn lemma_record_keeps_inv(state: ControllerView, outcome: Outcome)
    requires
        state.inv(),
        state.in_flight() > 0,
    ensures
        state.record(outcome).inv(),
        state.record(outcome).work_left() + 1 == state.work_left(),
        state.phase is WarmUp ==> state.record(outcome).measured == AccumulatorView::empty(),
        state.phase is Measured ==> state.record(outcome).measured.total()
            == state.measured.total() + 1,
{
    crate::accumulator::lemma_merge_balanced(state.measured, outcome);
}

/// The state machine of one run.
#[derive(Debug)]
pub struct PhaseController {
    warmup: usize,
    requests: usize,
    phase: Phase,
    permits: AdmissionController,
    launched: usize,
    completed: usize,
    discarded: usize,
    measured: ResultAccumulator,
}

impl View for PhaseController {
    type V = ControllerView;

    closed spec fn view(&self) -> ControllerView {
        ControllerView {
            phase: self.phase,
            warmup: self.warmup as nat,
            requests: self.requests as nat,
            limit: self.permits@.limit,
            launched: self.launched as nat,
            completed: self.completed as nat,
            discarded: self.discarded as nat,
            measured: self.measured@,
        }
    }
}

impl PhaseController {
    /// The permits and the accumulator inside agree with the counters.
    pub closed spec fn coherent(&self) -> bool {
        &&& self.permits@.wf()
        &&& self.permits@.outstanding == self.launched - self.completed
        &&& self.measured.wf()
    }

    /// The controller is in a state that a run can reach.
    pub open spec fn wf(&self) -> bool {
        self@.inv() && self.coherent()
    }

    /// A controller for a run of `warmup` discarded and `requests` measured
    /// requests, with at most `concurrency` of them in flight. A
    /// concurrency of zero is a configuration error.
    pub fn new(warmup: usize, requests: usize, concurrency: usize) -> (made: Result<
        PhaseController,
        SetupError,
    >)
        ensures
            concurrency == 0 <==> made is Err,
            made matches Err(e) ==> e is ZeroConcurrency,
            made matches Ok(c) ==> c.wf() && c@ == ControllerView::initial(
                warmup as nat,
                requests as nat,
                concurrency as nat,
            ),
    {
        match AdmissionController::new(concurrency) {
            Err(e) => Err(e),
            Ok(permits) => Ok(
                PhaseController {
                    warmup,
                    requests,
                    phase: Phase::WarmUp,
                    permits,
                    launched: 0,
                    completed: 0,
                    discarded: 0,
                    measured: ResultAccumulator::new(),
                },
            ),
        }
    }

    /// Decides the next step. A batch that is complete is left behind
    /// first; then a request is launched if one is left to start and a
    /// permit is free, else the driver is told to wait for a completion,
    /// or that the run is over.
    pub fn next_step(&mut self) -> (step: Step)
        requires
            old(self).wf(),
        ensures
            final(self).wf(),
            step == old(self)@.next_step(),
            final(self)@ == old(self)@.after_step(),
            final(self)@.in_flight() <= final(self)@.limit,
            step is Await ==> final(self)@.in_flight() > 0,
            step is Finished ==> final(self)@.measured.total() == final(self)@.requests,
    {
        proof {
            lemma_step_keeps_inv(self@);
        }
        if self.phase == Phase::WarmUp && self.completed == self.warmup {
            self.phase = Phase::Measured;
            self.launched = 0;
            self.completed = 0;
        }
        if self.phase == Phase::Measured && self.completed == self.requests {
            self.phase = Phase::Finished;
        }
        assert(self@ == old(self)@.settled());
        let total = match self.phase {
            Phase::WarmUp => self.warmup,
            Phase::Measured => self.requests,
            Phase::Finished => {
                return Step::Finished;
            },
        };
        if self.launched < total && self.permits.try_acquire() {
            self.launched = self.launched + 1;
            Step::Launch(self.phase)
        } else {
            Step::Await
        }
    }

    /// Takes in the outcome of one request in flight: its permit is
    /// released at once; the outcome is thrown away during warm-up and
    /// merged into the accumulator in the measured phase.
    pub fn record(&mut self, outcome: Outcome)
        requires
            old(self).wf(),
            old(self)@.in_flight() > 0,
            outcome.well_classified(),
        ensures
            final(self).wf(),
            final(self)@ == old(self)@.record(outcome),
    {
        proof {
            lemma_record_keeps_inv(self@, outcome);
        }
        self.permits.release();
        self.completed = self.completed + 1;
        match self.phase {
            Phase::WarmUp => {
                self.discarded = self.discarded + 1;
            },
            _ => {
                self.measured.merge(outcome);
            },
        }
    }

    /// Ends a finished run: hands out the accumulator of the measured
    /// batch, with the batch's wall-clock duration written into it.
    pub fn finish(self, duration_micros: u64) -> (acc: ResultAccumulator)
        requires
            self.wf(),
            self@.phase is Finished,
        ensures
            acc.wf(),
            acc@ == (AccumulatorView {
                duration_micros: duration_micros as nat,
                ..self@.measured
            }),
            acc@.total() == self@.requests,
    {
        let mut acc = self.measured;
        acc.set_duration(duration_micros);
        acc
    }

    /// The phase that the run is in.
    pub fn phase(&self) -> (phase: Phase)
        ensures
            phase == self@.phase,
    {
        self.phase
    }

    /// The number of requests started and not yet recorded.
    pub fn in_flight(&self) -> (n: usize)
        requires
            self.wf(),
        ensures
            n == self@.in_flight(),
            n <= self@.limit,
    {
        self.launched - self.completed
    }

    /// The concurrency ceiling.
    pub fn limit(&self) -> (n: usize)
        ensures
            n == self@.limit,
    {
        self.permits.limit()
    }

    /// The number of warm-up outcomes thrown away so far.
    pub fn discarded(&self) -> (n: usize)
        ensures
            n == self@.discarded,
    {
        self.discarded
    }

    /// The size of the warm-up batch.
    pub fn warmup(&self) -> (n: usize)
        ensures
            n == self@.warmup,
    {
        self.warmup
    }

    /// The size of the measured batch.
    pub fn requests(&self) -> (n: usize)
        ensures
            n == self@.requests,
    {
        self.requests
    }

    /// What the measured outcomes recorded so far add up to.
    pub fn measured(&self) -> (acc: &ResultAccumulator)
        requires
            self.wf(),
        ensures
            acc@ == self@.measured,
            acc.wf(),
    {
        &self.measured
    }
}

} // verus!
