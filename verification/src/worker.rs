//! Calls of the resolver on a worker of its own: how long one is waited for, and
//! what becomes of it when the supervision is stopped.

use vstd::prelude::*;
use vstd::string::*;

use crate::course::{lemma_passed, lemma_passes, on_course, only_if};
use crate::fault::{fault, Fault, FaultKind, FaultView};

verus! {

/// How long a call that only reads is waited for, in milliseconds.
pub const NATIVE_READ_CALL_TIMEOUT: u64 = 150;

pub open spec fn worker_stopped_of() -> FaultView {
    FaultView {
        kind: FaultKind::Other,
        message: "the bounded native resolver worker stopped unexpectedly"@,
    }
}

pub open spec fn supervision_stopped_of() -> FaultView {
    FaultView { kind: FaultKind::Interrupted, message: "resolver supervision was stopped"@ }
}

pub open spec fn monitor_stopped_of() -> FaultView {
    FaultView { kind: FaultKind::Other, message: "the supervisor shutdown monitor stopped"@ }
}

pub open spec fn queue_full_of() -> FaultView {
    FaultView {
        kind: FaultKind::Other,
        message: "the bounded native resolver worker queue is unexpectedly full"@,
    }
}

/// The failure where the worker is gone.
pub fn worker_stopped() -> (r: Fault)
    ensures
        r@ == worker_stopped_of(),
{
    fault(FaultKind::Other, "the bounded native resolver worker stopped unexpectedly")
}

/// The failure where the supervision was stopped.
pub fn supervision_stopped() -> (r: Fault)
    ensures
        r@ == supervision_stopped_of(),
{
    fault(FaultKind::Interrupted, "resolver supervision was stopped")
}

/// The failure where nothing tells any more that the supervision is stopped.
pub fn monitor_stopped() -> (r: Fault)
    ensures
        r@ == monitor_stopped_of(),
{
    fault(FaultKind::Other, "the supervisor shutdown monitor stopped")
}

fn queue_full() -> (r: Fault)
    ensures
        r@ == queue_full_of(),
{
    fault(FaultKind::Other, "the bounded native resolver worker queue is unexpectedly full")
}

// ---------------------------------------------------------------------------
// Handing an operation to the worker
// ---------------------------------------------------------------------------

/// What the handing over of an operation does next.
#[derive(Debug, Clone, Copy, PartialEq, Eq, Structural)]
pub enum DispatchStage {
    /// See whether the supervision was stopped.
    CheckRunning,
    /// Wait until the worker is free.
    AwaitWorker,
    /// See again whether the supervision was stopped.
    CheckStillRunning,
    /// Hand the operation over.
    Send,
    /// Wait for the result.
    AwaitResult,
    /// The result is there.
    Completed,
    /// The time is up.
    TimedOut,
    Failed,
}

/// What came of what was to be done.
#[derive(Debug, Clone, Copy, PartialEq, Eq, Structural)]
pub enum DispatchEvent {
    Done,
    /// Whether the supervision was stopped.
    Stopped(bool),
    /// Nothing tells any more that the supervision is stopped.
    MonitorLost,
    /// The worker is gone.
    WorkerLost,
    /// The worker holds another operation.
    Full,
    /// The time is up.
    Elapsed,
}

/// How far an operation has come.
#[derive(Debug)]
pub struct DispatchFlow {
    pub stage: DispatchStage,
    /// Whether the operation changes the link; one that does is not begun once
    /// the supervision was stopped, and has no time limit here.
    pub effect: bool,
    pub error: Option<Fault>,
}

/// An operation over plain values.
pub struct DispatchView {
    pub stage: DispatchStage,
    pub effect: bool,
    pub error: Option<FaultView>,
}

impl View for DispatchFlow {
    type V = DispatchView;

    open spec fn view(&self) -> DispatchView {
        DispatchView {
            stage: self.stage,
            effect: self.effect,
            error: match self.error {
                Some(e) => Some(e@),
                None => None,
            },
        }
    }
}

pub open spec fn dispatch_at(f: DispatchView, stage: DispatchStage) -> DispatchView {
    DispatchView { stage, ..f }
}

pub open spec fn dispatch_failed(f: DispatchView, e: FaultView) -> DispatchView {
    DispatchView { stage: DispatchStage::Failed, error: Some(e), ..f }
}

pub open spec fn dispatch_begun(effect: bool) -> DispatchView {
    DispatchView {
        stage: if effect {
            DispatchStage::CheckRunning
        } else {
            DispatchStage::AwaitWorker
        },
        effect,
        error: None,
    }
}

/// Where an operation goes from an event. An event that does not belong to the
/// stage changes nothing.
pub open spec fn dispatch_step(f: DispatchView, e: DispatchEvent) -> DispatchView {
    match f.stage {
        DispatchStage::CheckRunning => match e {
            DispatchEvent::Stopped(true) => dispatch_failed(f, supervision_stopped_of()),
            DispatchEvent::Stopped(false) => dispatch_at(f, DispatchStage::AwaitWorker),
            _ => f,
        },
        DispatchStage::AwaitWorker => match e {
            DispatchEvent::Done => dispatch_at(
                f,
                if f.effect {
                    DispatchStage::CheckStillRunning
                } else {
                    DispatchStage::Send
                },
            ),
            DispatchEvent::WorkerLost => dispatch_failed(f, worker_stopped_of()),
            DispatchEvent::Elapsed => if f.effect {
                f
            } else {
                dispatch_at(f, DispatchStage::TimedOut)
            },
            DispatchEvent::Stopped(true) => if f.effect {
                dispatch_failed(f, supervision_stopped_of())
            } else {
                f
            },
            DispatchEvent::MonitorLost => if f.effect {
                dispatch_failed(f, monitor_stopped_of())
            } else {
                f
            },
            _ => f,
        },
        DispatchStage::CheckStillRunning => match e {
            DispatchEvent::Stopped(true) => dispatch_failed(f, supervision_stopped_of()),
            DispatchEvent::Stopped(false) => dispatch_at(f, DispatchStage::Send),
            _ => f,
        },
        DispatchStage::Send => match e {
            DispatchEvent::Done => dispatch_at(f, DispatchStage::AwaitResult),
            DispatchEvent::WorkerLost => dispatch_failed(f, worker_stopped_of()),
            DispatchEvent::Full => if f.effect {
                dispatch_failed(f, queue_full_of())
            } else {
                f
            },
            _ => f,
        },
        DispatchStage::AwaitResult => match e {
            DispatchEvent::Done => dispatch_at(f, DispatchStage::Completed),
            DispatchEvent::WorkerLost => dispatch_failed(f, worker_stopped_of()),
            DispatchEvent::Elapsed => if f.effect {
                f
            } else {
                dispatch_at(f, DispatchStage::TimedOut)
            },
            _ => f,
        },
        DispatchStage::Completed | DispatchStage::TimedOut | DispatchStage::Failed => f,
    }
}

impl DispatchFlow {
    /// Begins an operation.
    pub fn begin(effect: bool) -> (r: DispatchFlow)
        ensures
            r@ == dispatch_begun(effect),
    {
        DispatchFlow {
            stage: if effect {
                DispatchStage::CheckRunning
            } else {
                DispatchStage::AwaitWorker
            },
            effect,
            error: None,
        }
    }

    fn go(self, stage: DispatchStage) -> (r: DispatchFlow)
        ensures
            r@ == dispatch_at(self@, stage),
    {
        DispatchFlow { stage, ..self }
    }

    fn fail(self, e: Fault) -> (r: DispatchFlow)
        ensures
            r@ == dispatch_failed(self@, e@),
    {
        DispatchFlow { stage: DispatchStage::Failed, error: Some(e), ..self }
    }

    fn waiting(self, event: DispatchEvent) -> (r: DispatchFlow)
        requires
            self@.stage == DispatchStage::AwaitWorker,
        ensures
            r@ == dispatch_step(self@, event),
    {
        match event {
            DispatchEvent::Done => if self.effect {
                self.go(DispatchStage::CheckStillRunning)
            } else {
                self.go(DispatchStage::Send)
            },
            DispatchEvent::WorkerLost => self.fail(worker_stopped()),
            DispatchEvent::Elapsed => if self.effect {
                self
            } else {
                self.go(DispatchStage::TimedOut)
            },
            DispatchEvent::Stopped(true) => if self.effect {
                self.fail(supervision_stopped())
            } else {
                self
            },
            DispatchEvent::MonitorLost => if self.effect {
                self.fail(monitor_stopped())
            } else {
                self
            },
            _ => self,
        }
    }

    /// Goes on from what came of the last action.
    pub fn step(self, event: DispatchEvent) -> (r: DispatchFlow)
        ensures
            r@ == dispatch_step(self@, event),
    {
        match (self.stage, event) {
            (DispatchStage::CheckRunning, DispatchEvent::Stopped(stopped)) => if stopped {
                self.fail(supervision_stopped())
            } else {
                self.go(DispatchStage::AwaitWorker)
            },
            (DispatchStage::AwaitWorker, _) => self.waiting(event),
            (DispatchStage::CheckStillRunning, DispatchEvent::Stopped(stopped)) => if stopped {
                self.fail(supervision_stopped())
            } else {
                self.go(DispatchStage::Send)
            },
            (DispatchStage::Send, DispatchEvent::Done) => self.go(DispatchStage::AwaitResult),
            (DispatchStage::Send, DispatchEvent::WorkerLost) => self.fail(worker_stopped()),
            (DispatchStage::Send, DispatchEvent::Full) => if self.effect {
                self.fail(queue_full())
            } else {
                self
            },
            (DispatchStage::AwaitResult, DispatchEvent::Done) => self.go(DispatchStage::Completed),
            (DispatchStage::AwaitResult, DispatchEvent::WorkerLost) => self.fail(worker_stopped()),
            (DispatchStage::AwaitResult, DispatchEvent::Elapsed) => if self.effect {
                self
            } else {
                self.go(DispatchStage::TimedOut)
            },
            _ => self,
        }
    }
}

// ---------------------------------------------------------------------------
// Waiting for the worker and for the end of the supervision
// ---------------------------------------------------------------------------

/// What ended a wait first.
#[derive(Debug, Clone, Copy, PartialEq, Eq, Structural)]
pub enum WaitEnd {
    /// The result came; whether the supervision was stopped by then.
    Result(bool),
    /// The supervision was stopped.
    Shutdown,
    /// Nothing tells any more that the supervision is stopped.
    MonitorLost,
    /// The time is up.
    Elapsed,
}

/// What is done behind a wait.
#[derive(Debug, Clone, Copy, PartialEq, Eq, Structural)]
pub enum SettleAction {
    /// The result counts.
    Complete,
    /// The result counts, and the supervision ends.
    Stop,
    /// The result is waited for; it counts, and the supervision ends.
    SettleAndStop,
    /// The supervision ends without the result.
    Interrupt,
    /// The wait fails.
    Fail,
    /// The outcome is unknown.
    Unknown,
}

/// What an operation is waited for.
#[derive(Debug, Clone, Copy, PartialEq, Eq, Structural)]
pub enum CallKind {
    /// It only reads.
    Read,
    /// It has to be settled.
    Settled,
    /// It has to be settled, but within its time where nothing stops it.
    Effect,
}

/// What is done behind a wait: only an operation that reads is left behind
/// unsettled when the supervision is stopped.
pub open spec fn settle(kind: CallKind, end: WaitEnd) -> SettleAction {
    match end {
        WaitEnd::MonitorLost => SettleAction::Fail,
        WaitEnd::Result(stopped) => if stopped && kind != CallKind::Read {
            SettleAction::Stop
        } else {
            SettleAction::Complete
        },
        WaitEnd::Shutdown => if kind == CallKind::Read {
            SettleAction::Interrupt
        } else {
            SettleAction::SettleAndStop
        },
        WaitEnd::Elapsed => SettleAction::Unknown,
    }
}

/// What is done behind a wait.
pub fn settle_action(kind: CallKind, end: WaitEnd) -> (r: SettleAction)
    ensures
        r == settle(kind, end),
{
    match end {
        WaitEnd::MonitorLost => SettleAction::Fail,
        WaitEnd::Result(stopped) => if stopped && kind != CallKind::Read {
            SettleAction::Stop
        } else {
            SettleAction::Complete
        },
        WaitEnd::Shutdown => if kind == CallKind::Read {
            SettleAction::Interrupt
        } else {
            SettleAction::SettleAndStop
        },
        WaitEnd::Elapsed => SettleAction::Unknown,
    }
}

// ---------------------------------------------------------------------------
// Laws
// ---------------------------------------------------------------------------

/// Where an operation comes to after some events.
pub open spec fn dispatch_run(f: DispatchView, events: Seq<DispatchEvent>) -> DispatchView
    decreases events.len(),
{
    if events.len() == 0 {
        f
    } else {
        dispatch_step(dispatch_run(f, events.drop_last()), events.last())
    }
}

/// An operation that changes the link is handed over only right behind a check
/// that the supervision was not stopped.
pub proof fn law_effects_follow_a_check(f: DispatchView, e: DispatchEvent)
    requires
        f.effect,
        f.stage != DispatchStage::Send,
        dispatch_step(f, e).stage == DispatchStage::Send,
    ensures
        f.stage == DispatchStage::CheckStillRunning,
        e == DispatchEvent::Stopped(false),
{
}

/// An operation that changes the link is never given up for its time, whatever
/// happened on the way.
pub proof fn law_effects_are_not_given_up(events: Seq<DispatchEvent>)
    ensures
        dispatch_run(dispatch_begun(true), events).effect,
        dispatch_run(dispatch_begun(true), events).stage != DispatchStage::TimedOut,
    decreases events.len(),
{
    if events.len() > 0 {
        law_effects_are_not_given_up(events.drop_last());
    }
}

/// When the supervision is stopped, an operation that may change the link is
/// settled before that is reported.
pub proof fn law_stopping_settles_effects(kind: CallKind)
    ensures
        settle(kind, WaitEnd::Shutdown) == SettleAction::SettleAndStop <==> kind != CallKind::Read,
{
}

/// Whether an event is the success of what a stage is to do.
pub open spec fn dispatch_succeeds(stage: DispatchStage, e: DispatchEvent) -> bool {
    match stage {
        DispatchStage::CheckRunning | DispatchStage::CheckStillRunning => e
            == DispatchEvent::Stopped(false),
        DispatchStage::AwaitWorker | DispatchStage::Send | DispatchStage::AwaitResult => e
            == DispatchEvent::Done,
        _ => false,
    }
}

/// The stages that an operation has passed, in their order.
pub open spec fn dispatch_passed(f: DispatchView, events: Seq<DispatchEvent>) -> Seq<DispatchStage>
    decreases events.len(),
{
    if events.len() == 0 {
        Seq::empty()
    } else {
        let before = dispatch_passed(f, events.drop_last());
        let stage = dispatch_run(f, events.drop_last()).stage;
        if dispatch_succeeds(stage, events.last()) {
            before.push(stage)
        } else {
            before
        }
    }
}

/// What an operation goes through: one that changes the link is held to the running
/// supervision before it waits for the worker and again before it is handed over.
pub open spec fn dispatch_course(effect: bool) -> Seq<DispatchStage> {
    only_if(effect, seq![DispatchStage::CheckRunning]) + seq![DispatchStage::AwaitWorker]
        + only_if(effect, seq![DispatchStage::CheckStillRunning]) + seq![
        DispatchStage::Send,
        DispatchStage::AwaitResult,
    ]
}

/// An operation goes through the stages of its course one behind the other: one that
/// is completed was handed over and answered. A stop or a lost worker before the
/// answer is a failure; the time can be up only for one that reads.
#[verifier::spinoff_prover]
#[verifier::rlimit(60)]
pub proof fn law_operations_follow_their_course(effect: bool, events: Seq<DispatchEvent>)
    ensures
        ({
            let f = dispatch_run(dispatch_begun(effect), events);
            let passed = dispatch_passed(dispatch_begun(effect), events);
            let course = dispatch_course(effect);
            &&& f.effect == effect
            &&& f.stage == DispatchStage::Failed <==> f.error is Some
            &&& f.stage != DispatchStage::Failed && f.stage != DispatchStage::TimedOut ==> on_course(
                course,
                passed,
                f.stage,
                DispatchStage::Completed,
            )
            &&& f.stage == DispatchStage::Completed ==> passed == course
            &&& f.stage == DispatchStage::TimedOut ==> !effect && events.contains(
                DispatchEvent::Elapsed,
            )
        }),
    decreases events.len(),
{
    let begun = dispatch_begun(effect);
    let course = dispatch_course(effect);
    let passed = dispatch_passed(begun, events);
    if events.len() == 0 {
        assert(passed =~= course.subrange(0, 0));
    } else {
        let before = events.drop_last();
        law_operations_follow_their_course(effect, before);
        let g = dispatch_run(begun, before);
        let f = dispatch_run(begun, events);
        let e = events.last();
        assert(events[events.len() - 1] == e);
        if g.stage == DispatchStage::TimedOut {
            let i = choose|i: int| 0 <= i < before.len() && before[i] == DispatchEvent::Elapsed;
            assert(events[i] == DispatchEvent::Elapsed);
        }
        if dispatch_succeeds(g.stage, e) {
            lemma_passes(
                course,
                dispatch_passed(begun, before),
                g.stage,
                f.stage,
                DispatchStage::Completed,
            );
        }
        if f.stage == DispatchStage::Completed {
            assert(!course.contains(DispatchStage::Completed));
            lemma_passed(course, passed, DispatchStage::Completed);
        }
    }
}

/// What ends an operation before its answer: an effect that was not handed over yet
/// is given up where the supervision was stopped or nothing tells of its end any
/// more; behind that only a lost worker is a failure.
pub proof fn law_operations_fail_for_a_reason(f: DispatchView, e: DispatchEvent)
    requires
        f.stage != DispatchStage::Failed,
        dispatch_step(f, e).stage == DispatchStage::Failed,
    ensures
        e == DispatchEvent::WorkerLost || (f.effect && f.stage == DispatchStage::Send && e
            == DispatchEvent::Full) || (e == DispatchEvent::Stopped(true) && f.stage
            != DispatchStage::Send && f.stage != DispatchStage::AwaitResult) || (f.effect && e
            == DispatchEvent::MonitorLost && f.stage == DispatchStage::AwaitWorker),
        f.stage == DispatchStage::AwaitResult ==> e == DispatchEvent::WorkerLost,
{
}

/// What is done behind a wait: a result counts, and ends the supervision where that
/// was stopped and the operation may have changed something; an unknown outcome is
/// never taken for a result.
pub proof fn law_results_count(kind: CallKind, stopped: bool)
    ensures
        settle(kind, WaitEnd::Result(stopped)) == SettleAction::Stop <==> stopped && kind
            != CallKind::Read,
        settle(kind, WaitEnd::Result(stopped)) == SettleAction::Complete <==> !stopped || kind
            == CallKind::Read,
        settle(kind, WaitEnd::Shutdown) == SettleAction::Interrupt <==> kind == CallKind::Read,
        settle(kind, WaitEnd::MonitorLost) == SettleAction::Fail,
        settle(kind, WaitEnd::Elapsed) == SettleAction::Unknown,
{
}

} // verus!
