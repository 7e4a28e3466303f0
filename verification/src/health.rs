//! The health of the running units: stopping them, holding on to their
//! listeners, and bringing them back to the plan of the activation.

use vstd::prelude::*;
use vstd::string::*;

use crate::course::{lemma_part, lemma_passed, lemma_passes, on_course, only_if};
use crate::fault::{conflict, conflict_of, hand_on, Fault, FaultView};
use crate::files::agrees;
use crate::manager::{stop_action, stop_of, StopAction};
use crate::model::{same_plan, ResolverPlanIdentity};
use crate::native::{Activation, ActivationPhase};
use crate::observation::text_result;
use crate::order::views;
use crate::publications::option_fault;
use crate::snapshot::{activation_plan, expected_plan};
use crate::sockets::{descriptor_of, held_by, invalid_unit_of, SocketReservation};
use crate::text::same;
use crate::units::{socket_unit_names, socket_units};

verus! {

/// The number of the daemon's sockets.
pub const SOCKETS: usize = 3;

// ---------------------------------------------------------------------------
// Stopping all units
// ---------------------------------------------------------------------------

/// What the stop of several units does next.
#[derive(Debug, Clone, Copy, PartialEq, Eq, Structural)]
pub enum StopAllStage {
    /// See whether the unit at this position is at rest.
    Observe(usize),
    Stop(usize),
    /// It has to be at rest now.
    Confirm(usize),
    /// Nothing: the stop is over.
    Finished,
}

/// What came of what was to be done.
#[derive(Debug)]
pub enum StopAllEvent {
    Done,
    Failed(Fault),
    State(String),
}

/// An event over plain values.
pub enum StopAllEventView {
    Done,
    Failed(FaultView),
    State(Seq<char>),
}

impl View for StopAllEvent {
    type V = StopAllEventView;

    open spec fn view(&self) -> StopAllEventView {
        match self {
            StopAllEvent::Done => StopAllEventView::Done,
            StopAllEvent::Failed(e) => StopAllEventView::Failed(e@),
            StopAllEvent::State(s) => StopAllEventView::State(s@),
        }
    }
}

/// How far the stop of several units has come.
#[derive(Debug)]
pub struct StopAllFlow {
    pub stage: StopAllStage,
    pub count: usize,
    pub error: Option<Fault>,
}

/// A stop over plain values.
pub struct StopAllView {
    pub stage: StopAllStage,
    pub count: usize,
    pub error: Option<FaultView>,
}

impl View for StopAllFlow {
    type V = StopAllView;

    open spec fn view(&self) -> StopAllView {
        StopAllView { stage: self.stage, count: self.count, error: option_fault(self.error) }
    }
}

pub open spec fn stop_all_from(f: StopAllView, i: int) -> StopAllView {
    StopAllView {
        stage: if i < f.count {
            StopAllStage::Observe(i as usize)
        } else {
            StopAllStage::Finished
        },
        ..f
    }
}

/// Where the stop of several units goes from an event. An event that does not
/// belong to the stage changes nothing.
pub open spec fn stop_all_step(f: StopAllView, e: StopAllEventView) -> StopAllView {
    match e {
        StopAllEventView::Failed(x) => if f.stage == StopAllStage::Finished {
            f
        } else {
            StopAllView { stage: StopAllStage::Finished, error: Some(x), ..f }
        },
        StopAllEventView::Done => match f.stage {
            StopAllStage::Stop(i) => StopAllView { stage: StopAllStage::Confirm(i), ..f },
            _ => f,
        },
        StopAllEventView::State(state) => match f.stage {
            StopAllStage::Observe(i) => StopAllView {
                stage: if stop_of(state) == StopAction::Settled {
                    StopAllStage::Confirm(i)
                } else {
                    StopAllStage::Stop(i)
                },
                ..f
            },
            StopAllStage::Confirm(i) => if stop_of(state) == StopAction::Settled {
                stop_all_from(f, i + 1)
            } else {
                StopAllView {
                    stage: StopAllStage::Finished,
                    error: Some(conflict_of("an owned systemd unit did not stop"@)),
                    ..f
                }
            },
            _ => f,
        },
    }
}

/// A stop that has just begun.
pub open spec fn stop_all_begun(count: usize) -> StopAllView {
    stop_all_from(StopAllView { stage: StopAllStage::Finished, count, error: None }, 0)
}

impl StopAllFlow {
    /// Begins the stop of so many units, in their order.
    pub fn begin(count: usize) -> (r: StopAllFlow)
        ensures
            r@ == stop_all_begun(count),
    {
        let stage = if count > 0 {
            StopAllStage::Observe(0)
        } else {
            StopAllStage::Finished
        };
        StopAllFlow { stage, count, error: None }
    }

    fn go(self, stage: StopAllStage) -> (r: StopAllFlow)
        ensures
            r@ == (StopAllView { stage, ..self@ }),
    {
        StopAllFlow { stage, ..self }
    }

    fn end(self, e: Fault) -> (r: StopAllFlow)
        ensures
            r@ == (StopAllView { stage: StopAllStage::Finished, error: Some(e@), ..self@ }),
    {
        StopAllFlow { stage: StopAllStage::Finished, error: Some(e), ..self }
    }

    /// Goes on from what came of the last action.
    pub fn step(self, event: StopAllEvent) -> (r: StopAllFlow)
        ensures
            r@ == stop_all_step(self@, event@),
    {
        match event {
            StopAllEvent::Failed(e) => if self.stage == StopAllStage::Finished {
                self
            } else {
                self.end(e)
            },
            StopAllEvent::Done => match self.stage {
                StopAllStage::Stop(i) => self.go(StopAllStage::Confirm(i)),
                _ => self,
            },
            StopAllEvent::State(state) => {
                let settled = stop_action(state.as_str()) == StopAction::Settled;
                match self.stage {
                    StopAllStage::Observe(i) => if settled {
                        self.go(StopAllStage::Confirm(i))
                    } else {
                        self.go(StopAllStage::Stop(i))
                    },
                    StopAllStage::Confirm(i) => if settled {
                        if i < self.count && i + 1 < self.count {
                            self.go(StopAllStage::Observe(i + 1))
                        } else {
                            self.go(StopAllStage::Finished)
                        }
                    } else {
                        self.end(conflict("an owned systemd unit did not stop"))
                    },
                    _ => self,
                }
            },
        }
    }
}

// ---------------------------------------------------------------------------
// Listeners
// ---------------------------------------------------------------------------

/// The state of a socket, or why it is not known.
#[derive(Debug)]
pub struct SocketState {
    pub state: Result<String, Fault>,
}

impl View for SocketState {
    type V = Result<Seq<char>, FaultView>;

    open spec fn view(&self) -> Result<Seq<char>, FaultView> {
        text_result(self.state)
    }
}

/// Why the listener of a socket may be lost.
pub open spec fn listener_fault(
    unit: Seq<char>,
    state: Result<Seq<char>, FaultView>,
    reservation: Option<SocketReservation>,
) -> Option<FaultView> {
    if reservation is Some && descriptor_of(unit) is None {
        Some(invalid_unit_of())
    } else {
        match state {
            Err(e) => Some(e),
            Ok(s) => if s == "active"@ || (reservation is Some && held_by(reservation).contains(
                descriptor_of(unit)->0,
            )) {
                None
            } else {
                Some(
                    conflict_of(
                        "an update rollback listener is neither active nor exactly reserved"@,
                    ),
                )
            },
        }
    }
}

/// The first of the first `n` sockets whose listener may be lost.
pub open spec fn listeners_fault(
    units: Seq<Seq<char>>,
    states: Seq<Result<Seq<char>, FaultView>>,
    reservation: Option<SocketReservation>,
    n: int,
) -> Option<FaultView>
    decreases n,
{
    if n <= 0 {
        None
    } else {
        match listeners_fault(units, states, reservation, n - 1) {
            Some(e) => Some(e),
            None => listener_fault(units[n - 1], states[n - 1], reservation),
        }
    }
}

proof fn lemma_listeners_fault(
    units: Seq<Seq<char>>,
    states: Seq<Result<Seq<char>, FaultView>>,
    reservation: Option<SocketReservation>,
    n: int,
    m: int,
)
    requires
        0 <= n <= m,
        listeners_fault(units, states, reservation, n) is Some,
    ensures
        listeners_fault(units, states, reservation, m) == listeners_fault(
            units,
            states,
            reservation,
            n,
        ),
    decreases m - n,
{
    if n < m {
        lemma_listeners_fault(units, states, reservation, n, m - 1);
    }
}

fn check_listener(unit: &str, state: &SocketState, reservation: &Option<SocketReservation>) -> (r:
    Result<(), Fault>)
    ensures
        agrees(r, listener_fault(unit@, state@, *reservation)),
{
    let reserved = match reservation {
        None => false,
        Some(held) => match held.covers_unit(unit) {
            Err(e) => {
                return Err(e);
            },
            Ok(covered) => covered,
        },
    };
    match &state.state {
        Err(e) => Err(hand_on(e)),
        Ok(s) => if same(s.as_str(), "active") || reserved {
            Ok(())
        } else {
            Err(conflict("an update rollback listener is neither active nor exactly reserved"))
        },
    }
}

/// Every listener of the daemon is active or reserved; there is one state for
/// each socket.
pub fn verify_rollback_namespace(
    states: &Vec<SocketState>,
    reservation: &Option<SocketReservation>,
) -> (r: Result<(), Fault>)
    requires
        states@.len() == SOCKETS,
    ensures
        agrees(
            r,
            listeners_fault(socket_units(), views(states@), *reservation, SOCKETS as int),
        ),
{
    let units = socket_unit_names();
    let ghost uv = views(units@);
    let ghost sv = views(states@);
    proof {
        assert(uv.len() == units@.len());
    }
    let mut i: usize = 0;
    while i < SOCKETS
        invariant
            i <= SOCKETS,
            states@.len() == SOCKETS,
            units@.len() == SOCKETS,
            uv == views(units@),
            uv == socket_units(),
            sv == views(states@),
            listeners_fault(uv, sv, *reservation, i as int) is None,
        decreases SOCKETS - i,
    {
        proof {
            assert(uv[i as int] == units@[i as int]@);
            assert(sv[i as int] == states@[i as int]@);
        }
        if let Err(e) = check_listener(units[i].as_str(), &states[i], reservation) {
            proof {
                lemma_listeners_fault(uv, sv, *reservation, i as int + 1, SOCKETS as int);
            }
            return Err(e);
        }
        i += 1;
    }
    Ok(())
}

/// How listeners are held on to.
#[derive(Debug, Clone, Copy, PartialEq, Eq, Structural)]
pub enum ListenerMode {
    /// The sockets are stopped, and all listeners reserved.
    Cutover,
    /// The listeners of sockets that are not active are reserved.
    Retain,
}

/// What holding on to listeners does next.
#[derive(Debug, Clone, Copy, PartialEq, Eq, Structural)]
pub enum ListenerStage {
    StopResolver,
    QuiesceDaemon,
    /// See the state of the socket at this position.
    Observe(usize),
    StopSocket(usize),
    /// Reserve its listener where that is not reserved yet.
    Reserve(usize),
    /// Every listener has to be active or reserved.
    Verify,
    /// Nothing: the listeners are held, or could not be.
    Finished,
}

/// What came of what was to be done.
pub type ListenerEvent = StopAllEvent;

/// How far holding on to listeners has come.
#[derive(Debug)]
pub struct ListenerFlow {
    pub mode: ListenerMode,
    pub stage: ListenerStage,
    pub error: Option<Fault>,
}

/// Holding on to listeners over plain values.
pub struct ListenerView {
    pub mode: ListenerMode,
    pub stage: ListenerStage,
    pub error: Option<FaultView>,
}

impl View for ListenerFlow {
    type V = ListenerView;

    open spec fn view(&self) -> ListenerView {
        ListenerView { mode: self.mode, stage: self.stage, error: option_fault(self.error) }
    }
}

pub open spec fn listener_at(f: ListenerView, stage: ListenerStage) -> ListenerView {
    ListenerView { stage, ..f }
}

/// Behind the socket at a position.
pub open spec fn listener_next(f: ListenerView, i: int) -> ListenerView {
    listener_at(
        f,
        if i + 1 < SOCKETS {
            ListenerStage::Observe((i + 1) as usize)
        } else {
            ListenerStage::Verify
        },
    )
}

/// Where holding on to listeners goes from an event. An event that does not
/// belong to the stage changes nothing.
pub open spec fn listener_step(f: ListenerView, e: StopAllEventView) -> ListenerView {
    match e {
        StopAllEventView::Failed(x) => if f.stage == ListenerStage::Finished {
            f
        } else {
            ListenerView { stage: ListenerStage::Finished, error: Some(x), ..f }
        },
        StopAllEventView::Done => match f.stage {
            ListenerStage::StopResolver => listener_at(f, ListenerStage::QuiesceDaemon),
            ListenerStage::QuiesceDaemon => listener_at(f, ListenerStage::Observe(0)),
            ListenerStage::StopSocket(i) => listener_at(f, ListenerStage::Reserve(i)),
            ListenerStage::Reserve(i) => listener_next(f, i as int),
            ListenerStage::Verify => listener_at(f, ListenerStage::Finished),
            _ => f,
        },
        StopAllEventView::State(state) => match f.stage {
            ListenerStage::Observe(i) => match f.mode {
                ListenerMode::Cutover => if stop_of(state) == StopAction::Settled {
                    listener_at(f, ListenerStage::Reserve(i))
                } else {
                    listener_at(f, ListenerStage::StopSocket(i))
                },
                ListenerMode::Retain => if state == "active"@ {
                    listener_next(f, i as int)
                } else {
                    listener_at(f, ListenerStage::Reserve(i))
                },
            },
            _ => f,
        },
    }
}

/// Holding on to listeners that has just begun.
pub open spec fn listener_begun(mode: ListenerMode) -> ListenerView {
    ListenerView { mode, stage: ListenerStage::StopResolver, error: None }
}

impl ListenerFlow {
    /// Begins to hold on to the daemon's listeners.
    pub fn begin(mode: ListenerMode) -> (r: ListenerFlow)
        ensures
            r@ == listener_begun(mode),
    {
        ListenerFlow { mode, stage: ListenerStage::StopResolver, error: None }
    }

    fn go(self, stage: ListenerStage) -> (r: ListenerFlow)
        ensures
            r@ == listener_at(self@, stage),
    {
        ListenerFlow { stage, ..self }
    }

    fn next(self, i: usize) -> (r: ListenerFlow)
        ensures
            r@ == listener_next(self@, i as int),
    {
        if i < SOCKETS && i + 1 < SOCKETS {
            self.go(ListenerStage::Observe(i + 1))
        } else {
            self.go(ListenerStage::Verify)
        }
    }

    /// Goes on from what came of the last action.
    pub fn step(self, event: ListenerEvent) -> (r: ListenerFlow)
        ensures
            r@ == listener_step(self@, event@),
    {
        match event {
            StopAllEvent::Failed(e) => if self.stage == ListenerStage::Finished {
                self
            } else {
                ListenerFlow { stage: ListenerStage::Finished, error: Some(e), ..self }
            },
            StopAllEvent::Done => match self.stage {
                ListenerStage::StopResolver => self.go(ListenerStage::QuiesceDaemon),
                ListenerStage::QuiesceDaemon => self.go(ListenerStage::Observe(0)),
                ListenerStage::StopSocket(i) => self.go(ListenerStage::Reserve(i)),
                ListenerStage::Reserve(i) => self.next(i),
                ListenerStage::Verify => self.go(ListenerStage::Finished),
                _ => self,
            },
            StopAllEvent::State(state) => match self.stage {
                ListenerStage::Observe(i) => match self.mode {
                    ListenerMode::Cutover => if stop_action(state.as_str())
                        == StopAction::Settled {
                        self.go(ListenerStage::Reserve(i))
                    } else {
                        self.go(ListenerStage::StopSocket(i))
                    },
                    ListenerMode::Retain => if same(state.as_str(), "active") {
                        self.next(i)
                    } else {
                        self.go(ListenerStage::Reserve(i))
                    },
                },
                _ => self,
            },
        }
    }
}

/// What the handover of reserved listeners to the sockets does next.
#[derive(Debug, Clone, Copy, PartialEq, Eq, Structural)]
pub enum HandoverStage {
    /// Hold on to the listeners first.
    Retain,
    /// Allow the generation to start.
    AcquireLease,
    /// See the state of the socket at this position.
    Observe(usize),
    /// Reserve its listener where that is not reserved yet.
    Reserve(usize),
    /// Prepare its start.
    Prepare(usize),
    /// Give up its reservation.
    Release(usize),
    Start(usize),
    /// Reserve its listener again, until that succeeds.
    Recover(usize),
    /// Give up all reservations.
    DropReservations,
    ReleaseLease,
    StopResolver,
    QuiesceDaemon,
    /// The socket at this position is active with no job pending.
    Confirm(usize),
    /// Nothing: the handover is over.
    Finished,
}

/// How far a handover has come.
#[derive(Debug)]
pub struct HandoverFlow {
    pub stage: HandoverStage,
    pub error: Option<Fault>,
}

/// A handover over plain values.
pub struct HandoverView {
    pub stage: HandoverStage,
    pub error: Option<FaultView>,
}

impl View for HandoverFlow {
    type V = HandoverView;

    open spec fn view(&self) -> HandoverView {
        HandoverView { stage: self.stage, error: option_fault(self.error) }
    }
}

pub open spec fn handover_at(stage: HandoverStage) -> HandoverView {
    HandoverView { stage, error: None }
}

pub open spec fn handover_ended(e: FaultView) -> HandoverView {
    HandoverView { stage: HandoverStage::Finished, error: Some(e) }
}

pub open spec fn handover_next(i: int) -> HandoverView {
    handover_at(
        if i + 1 < SOCKETS {
            HandoverStage::Observe((i + 1) as usize)
        } else {
            HandoverStage::DropReservations
        },
    )
}

/// Where a handover goes from an event. An event that does not belong to the
/// stage changes nothing. A socket that did not start gets its reservation back
/// before the failure is reported.
pub open spec fn handover_step(f: HandoverView, e: StopAllEventView) -> HandoverView {
    match e {
        StopAllEventView::Failed(x) => match f.stage {
            HandoverStage::Start(i) => HandoverView {
                stage: HandoverStage::Recover(i),
                error: Some(x),
            },
            HandoverStage::Finished => f,
            _ => handover_ended(x),
        },
        StopAllEventView::State(state) => match f.stage {
            HandoverStage::Observe(i) => if state == "active"@ {
                handover_next(i as int)
            } else {
                handover_at(HandoverStage::Reserve(i))
            },
            _ => f,
        },
        StopAllEventView::Done => match f.stage {
            HandoverStage::Retain => handover_at(HandoverStage::AcquireLease),
            HandoverStage::AcquireLease => handover_at(HandoverStage::Observe(0)),
            HandoverStage::Reserve(i) => handover_at(HandoverStage::Prepare(i)),
            HandoverStage::Prepare(i) => handover_at(HandoverStage::Release(i)),
            HandoverStage::Release(i) => handover_at(HandoverStage::Start(i)),
            HandoverStage::Start(i) => handover_next(i as int),
            HandoverStage::Recover(_) => HandoverView { stage: HandoverStage::Finished, ..f },
            HandoverStage::DropReservations => handover_at(HandoverStage::ReleaseLease),
            HandoverStage::ReleaseLease => handover_at(HandoverStage::StopResolver),
            HandoverStage::StopResolver => handover_at(HandoverStage::QuiesceDaemon),
            HandoverStage::QuiesceDaemon => handover_at(HandoverStage::Confirm(0)),
            HandoverStage::Confirm(i) => handover_at(
                if i + 1 < SOCKETS {
                    HandoverStage::Confirm((i + 1) as usize)
                } else {
                    HandoverStage::Finished
                },
            ),
            HandoverStage::Observe(_) | HandoverStage::Finished => f,
        },
    }
}

/// A handover that has just begun.
pub open spec fn handover_begun() -> HandoverView {
    handover_at(HandoverStage::Retain)
}

impl HandoverFlow {
    /// Begins to hand reserved listeners over.
    pub fn begin() -> (r: HandoverFlow)
        ensures
            r@ == handover_begun(),
    {
        HandoverFlow { stage: HandoverStage::Retain, error: None }
    }

    fn at(stage: HandoverStage) -> (r: HandoverFlow)
        ensures
            r@ == handover_at(stage),
    {
        HandoverFlow { stage, error: None }
    }

    fn next(i: usize) -> (r: HandoverFlow)
        ensures
            r@ == handover_next(i as int),
    {
        if i < SOCKETS && i + 1 < SOCKETS {
            HandoverFlow::at(HandoverStage::Observe(i + 1))
        } else {
            HandoverFlow::at(HandoverStage::DropReservations)
        }
    }

    fn done(self) -> (r: HandoverFlow)
        ensures
            r@ == handover_step(self@, StopAllEventView::Done),
    {
        match self.stage {
            HandoverStage::Retain => HandoverFlow::at(HandoverStage::AcquireLease),
            HandoverStage::AcquireLease => HandoverFlow::at(HandoverStage::Observe(0)),
            HandoverStage::Reserve(i) => HandoverFlow::at(HandoverStage::Prepare(i)),
            HandoverStage::Prepare(i) => HandoverFlow::at(HandoverStage::Release(i)),
            HandoverStage::Release(i) => HandoverFlow::at(HandoverStage::Start(i)),
            HandoverStage::Start(i) => HandoverFlow::next(i),
            HandoverStage::Recover(_) => HandoverFlow { stage: HandoverStage::Finished, ..self },
            HandoverStage::DropReservations => HandoverFlow::at(HandoverStage::ReleaseLease),
            HandoverStage::ReleaseLease => HandoverFlow::at(HandoverStage::StopResolver),
            HandoverStage::StopResolver => HandoverFlow::at(HandoverStage::QuiesceDaemon),
            HandoverStage::QuiesceDaemon => HandoverFlow::at(HandoverStage::Confirm(0)),
            HandoverStage::Confirm(i) => if i < SOCKETS && i + 1 < SOCKETS {
                HandoverFlow::at(HandoverStage::Confirm(i + 1))
            } else {
                HandoverFlow::at(HandoverStage::Finished)
            },
            HandoverStage::Observe(_) | HandoverStage::Finished => self,
        }
    }

    /// Goes on from what came of the last action.
    pub fn step(self, event: StopAllEvent) -> (r: HandoverFlow)
        ensures
            r@ == handover_step(self@, event@),
    {
        match event {
            StopAllEvent::Failed(e) => match self.stage {
                HandoverStage::Start(i) => HandoverFlow {
                    stage: HandoverStage::Recover(i),
                    error: Some(e),
                },
                HandoverStage::Finished => self,
                _ => HandoverFlow { stage: HandoverStage::Finished, error: Some(e) },
            },
            StopAllEvent::State(state) => match self.stage {
                HandoverStage::Observe(i) => if same(state.as_str(), "active") {
                    HandoverFlow::next(i)
                } else {
                    HandoverFlow::at(HandoverStage::Reserve(i))
                },
                _ => self,
            },
            StopAllEvent::Done => self.done(),
        }
    }
}

// ---------------------------------------------------------------------------
// Health
// ---------------------------------------------------------------------------

/// What bringing the units back to health does next.
#[derive(Debug, Clone, Copy, PartialEq, Eq, Structural)]
pub enum HealthStage {
    /// See whether the socket at this position is active.
    ObserveSocket(usize),
    StartSocket(usize),
    /// Read the activation.
    ReadActivation,
    /// See whether the daemon is active.
    ObserveDaemon,
    /// Ask the daemon for its plan.
    ReadPlan,
    /// Give the resolver's authority to the supervisor that is right already.
    ReleaseForResolver,
    /// See whether the supervisor is active.
    ObserveResolver,
    /// Start the supervisor of a daemon that serves the right plan.
    StartResolver,
    /// Stop the supervisor where it is active.
    StopResolver,
    /// Withdraw the plan that the daemon serves.
    InvalidatePlan,
    StopDaemon,
    StartDaemon,
    WaitForDaemon,
    /// The daemon that was started serves no plan.
    ReadFreshPlan,
    /// Give the resolver's authority to the supervisor.
    ReleaseAuthority,
    /// Start the supervisor of a daemon without a plan.
    RestartResolver,
    WaitForHealth,
    /// The supervisor is active with no job pending.
    RequireSettled,
    /// Stop the supervisor that was not accepted.
    QuiesceResolver,
    /// Nothing: the units are in health, or could not be brought there.
    Finished,
}

/// What came of what was to be done.
#[derive(Debug)]
pub enum HealthEvent {
    Done,
    Failed(Fault),
    State(String),
    Activation(Option<Activation>),
    Plan(Option<ResolverPlanIdentity>),
}

/// An event over plain values.
pub enum HealthEventView {
    Done,
    Failed(FaultView),
    State(Seq<char>),
    Activation(Option<Activation>),
    Plan(Option<ResolverPlanIdentity>),
}

impl View for HealthEvent {
    type V = HealthEventView;

    open spec fn view(&self) -> HealthEventView {
        match self {
            HealthEvent::Done => HealthEventView::Done,
            HealthEvent::Failed(e) => HealthEventView::Failed(e@),
            HealthEvent::State(s) => HealthEventView::State(s@),
            HealthEvent::Activation(a) => HealthEventView::Activation(*a),
            HealthEvent::Plan(p) => HealthEventView::Plan(*p),
        }
    }
}

/// How far bringing the units back to health has come. What was observed of the
/// daemon's plan before is compared with what it serves now.
#[derive(Debug)]
pub struct HealthFlow {
    pub stage: HealthStage,
    pub plan_observed: bool,
    pub plan: Option<ResolverPlanIdentity>,
    pub activation: Option<Activation>,
    pub daemon_active: bool,
    pub error: Option<Fault>,
}

/// A run over plain values.
pub struct HealthView {
    pub stage: HealthStage,
    pub plan_observed: bool,
    pub plan: Option<ResolverPlanIdentity>,
    pub activation: Option<Activation>,
    pub daemon_active: bool,
    pub error: Option<FaultView>,
}

impl View for HealthFlow {
    type V = HealthView;

    open spec fn view(&self) -> HealthView {
        HealthView {
            stage: self.stage,
            plan_observed: self.plan_observed,
            plan: self.plan,
            activation: self.activation,
            daemon_active: self.daemon_active,
            error: option_fault(self.error),
        }
    }
}

pub open spec fn health_at(f: HealthView, stage: HealthStage) -> HealthView {
    HealthView { stage, ..f }
}

pub open spec fn health_ended(f: HealthView, e: FaultView) -> HealthView {
    HealthView { stage: HealthStage::Finished, error: Some(e), ..f }
}

pub open spec fn health_next_socket(f: HealthView, i: int) -> HealthView {
    health_at(
        f,
        if i + 1 < SOCKETS {
            HealthStage::ObserveSocket((i + 1) as usize)
        } else {
            HealthStage::ReadActivation
        },
    )
}

pub open spec fn plan_changed_of() -> FaultView {
    conflict_of("the daemon resolver plan changed after lifecycle authorization"@)
}

/// Whether the daemon was seen to serve the plan of an activation in force.
pub open spec fn serves_right_plan(f: HealthView) -> bool {
    &&& f.plan_observed
    &&& f.activation is Some
    &&& f.activation->0.phase == ActivationPhase::Active
    &&& f.plan == activation_plan(f.activation)
}

/// Behind what was compared: the supervisor alone is missing, or all is begun anew.
pub open spec fn health_compared(f: HealthView) -> HealthView {
    if serves_right_plan(f) {
        health_at(f, HealthStage::ReleaseForResolver)
    } else {
        health_at(f, HealthStage::StopResolver)
    }
}

/// Behind the stop of the supervisor and the withdrawal of the plan.
pub open spec fn health_withdrawn(f: HealthView) -> HealthView {
    health_at(
        f,
        if f.daemon_active {
            HealthStage::StopDaemon
        } else {
            HealthStage::StartDaemon
        },
    )
}

/// Where a run goes once an action succeeded.
pub open spec fn health_done(f: HealthView) -> HealthView {
    match f.stage {
        HealthStage::StartSocket(i) => health_next_socket(f, i as int),
        HealthStage::ReleaseForResolver => health_at(f, HealthStage::ObserveResolver),
        HealthStage::StartResolver => health_at(f, HealthStage::WaitForHealth),
        HealthStage::StopResolver => if f.plan_observed && f.plan is Some {
            health_at(f, HealthStage::InvalidatePlan)
        } else {
            health_withdrawn(f)
        },
        HealthStage::InvalidatePlan => health_withdrawn(f),
        HealthStage::StopDaemon => health_at(f, HealthStage::StartDaemon),
        HealthStage::StartDaemon => health_at(f, HealthStage::WaitForDaemon),
        HealthStage::WaitForDaemon => health_at(f, HealthStage::ReadFreshPlan),
        HealthStage::ReleaseAuthority => health_at(f, HealthStage::RestartResolver),
        HealthStage::RestartResolver => health_at(f, HealthStage::WaitForHealth),
        HealthStage::WaitForHealth => health_at(f, HealthStage::RequireSettled),
        HealthStage::RequireSettled => health_at(f, HealthStage::Finished),
        HealthStage::QuiesceResolver => health_at(f, HealthStage::Finished),
        _ => f,
    }
}

/// Where a run goes once an action failed.
pub open spec fn health_failed(f: HealthView, e: FaultView) -> HealthView {
    match f.stage {
        HealthStage::WaitForHealth => HealthView {
            stage: HealthStage::QuiesceResolver,
            error: Some(e),
            ..f
        },
        HealthStage::RequireSettled => HealthView {
            stage: HealthStage::QuiesceResolver,
            error: Some(
                conflict_of("the resolver supervisor exited after publishing its plan"@),
            ),
            ..f
        },
        HealthStage::QuiesceResolver | HealthStage::Finished => f,
        _ => health_ended(f, e),
    }
}

/// Where a run goes with the state of a unit.
pub open spec fn health_state(f: HealthView, state: Seq<char>) -> HealthView {
    let active = state == "active"@;
    match f.stage {
        HealthStage::ObserveSocket(i) => if active {
            health_next_socket(f, i as int)
        } else {
            health_at(f, HealthStage::StartSocket(i))
        },
        HealthStage::ObserveDaemon => {
            let g = HealthView { daemon_active: active, ..f };
            if f.plan_observed {
                if active {
                    health_at(g, HealthStage::ReadPlan)
                } else {
                    health_ended(g, plan_changed_of())
                }
            } else {
                health_compared(g)
            }
        },
        HealthStage::ObserveResolver => health_at(
            f,
            if active {
                HealthStage::WaitForHealth
            } else {
                HealthStage::StartResolver
            },
        ),
        _ => f,
    }
}

/// Where a run goes from an event. An event that does not belong to the stage
/// changes nothing.
pub open spec fn health_step(f: HealthView, e: HealthEventView) -> HealthView {
    match e {
        HealthEventView::Done => health_done(f),
        HealthEventView::Failed(x) => health_failed(f, x),
        HealthEventView::State(state) => health_state(f, state),
        HealthEventView::Activation(a) => if f.stage == HealthStage::ReadActivation {
            HealthView { stage: HealthStage::ObserveDaemon, activation: a, ..f }
        } else {
            f
        },
        HealthEventView::Plan(p) => match f.stage {
            HealthStage::ReadPlan => if p == f.plan {
                health_compared(f)
            } else {
                health_ended(f, plan_changed_of())
            },
            HealthStage::ReadFreshPlan => if p is Some {
                health_ended(
                    f,
                    conflict_of("the restarted daemon retained an unexpected resolver plan"@),
                )
            } else if f.activation is None {
                health_ended(
                    f,
                    conflict_of("the active installation has no resolver transaction to recover"@),
                )
            } else {
                health_at(f, HealthStage::ReleaseAuthority)
            },
            _ => f,
        },
    }
}

pub open spec fn health_begun(
    plan_observed: bool,
    plan: Option<ResolverPlanIdentity>,
) -> HealthView {
    HealthView {
        stage: HealthStage::ObserveSocket(0),
        plan_observed,
        plan,
        activation: None,
        daemon_active: false,
        error: None,
    }
}

impl HealthFlow {
    /// Begins to bring the units back to health, from what was seen of the
    /// daemon's plan.
    pub fn begin(plan_observed: bool, plan: Option<ResolverPlanIdentity>) -> (r: HealthFlow)
        ensures
            r@ == health_begun(plan_observed, plan),
    {
        HealthFlow {
            stage: HealthStage::ObserveSocket(0),
            plan_observed,
            plan,
            activation: None,
            daemon_active: false,
            error: None,
        }
    }

    fn go(self, stage: HealthStage) -> (r: HealthFlow)
        ensures
            r@ == health_at(self@, stage),
    {
        HealthFlow { stage, ..self }
    }

    fn end(self, e: Fault) -> (r: HealthFlow)
        ensures
            r@ == health_ended(self@, e@),
    {
        HealthFlow { stage: HealthStage::Finished, error: Some(e), ..self }
    }

    fn next_socket(self, i: usize) -> (r: HealthFlow)
        ensures
            r@ == health_next_socket(self@, i as int),
    {
        if i < SOCKETS && i + 1 < SOCKETS {
            self.go(HealthStage::ObserveSocket(i + 1))
        } else {
            self.go(HealthStage::ReadActivation)
        }
    }

    fn compared(self) -> (r: HealthFlow)
        ensures
            r@ == health_compared(self@),
    {
        let in_force = match &self.activation {
            Some(a) => a.phase == ActivationPhase::Active,
            None => false,
        };
        if self.plan_observed && in_force && same_plan(&self.plan, &expected_plan(&self.activation)) {
            self.go(HealthStage::ReleaseForResolver)
        } else {
            self.go(HealthStage::StopResolver)
        }
    }

    fn withdrawn(self) -> (r: HealthFlow)
        ensures
            r@ == health_withdrawn(self@),
    {
        if self.daemon_active {
            self.go(HealthStage::StopDaemon)
        } else {
            self.go(HealthStage::StartDaemon)
        }
    }

    fn done(self) -> (r: HealthFlow)
        ensures
            r@ == health_done(self@),
    {
        let serves = match self.plan {
            Some(_) => self.plan_observed,
            None => false,
        };
        match self.stage {
            HealthStage::StartSocket(i) => self.next_socket(i),
            HealthStage::ReleaseForResolver => self.go(HealthStage::ObserveResolver),
            HealthStage::StartResolver => self.go(HealthStage::WaitForHealth),
            HealthStage::StopResolver => if serves {
                self.go(HealthStage::InvalidatePlan)
            } else {
                self.withdrawn()
            },
            HealthStage::InvalidatePlan => self.withdrawn(),
            HealthStage::StopDaemon => self.go(HealthStage::StartDaemon),
            HealthStage::StartDaemon => self.go(HealthStage::WaitForDaemon),
            HealthStage::WaitForDaemon => self.go(HealthStage::ReadFreshPlan),
            HealthStage::ReleaseAuthority => self.go(HealthStage::RestartResolver),
            HealthStage::RestartResolver => self.go(HealthStage::WaitForHealth),
            HealthStage::WaitForHealth => self.go(HealthStage::RequireSettled),
            HealthStage::RequireSettled => self.go(HealthStage::Finished),
            HealthStage::QuiesceResolver => self.go(HealthStage::Finished),
            _ => self,
        }
    }

    fn failed(self, e: Fault) -> (r: HealthFlow)
        ensures
            r@ == health_failed(self@, e@),
    {
        match self.stage {
            HealthStage::WaitForHealth => HealthFlow {
                stage: HealthStage::QuiesceResolver,
                error: Some(e),
                ..self
            },
            HealthStage::RequireSettled => HealthFlow {
                stage: HealthStage::QuiesceResolver,
                error: Some(
                    conflict("the resolver supervisor exited after publishing its plan"),
                ),
                ..self
            },
            HealthStage::QuiesceResolver | HealthStage::Finished => self,
            _ => self.end(e),
        }
    }

    fn state(self, state: &str) -> (r: HealthFlow)
        ensures
            r@ == health_state(self@, state@),
    {
        let active = same(state, "active");
        match self.stage {
            HealthStage::ObserveSocket(i) => if active {
                self.next_socket(i)
            } else {
                self.go(HealthStage::StartSocket(i))
            },
            HealthStage::ObserveDaemon => {
                let f = HealthFlow { daemon_active: active, ..self };
                if f.plan_observed {
                    if active {
                        f.go(HealthStage::ReadPlan)
                    } else {
                        f.end(
                            conflict(
                                "the daemon resolver plan changed after lifecycle authorization",
                            ),
                        )
                    }
                } else {
                    f.compared()
                }
            },
            HealthStage::ObserveResolver => if active {
                self.go(HealthStage::WaitForHealth)
            } else {
                self.go(HealthStage::StartResolver)
            },
            _ => self,
        }
    }

    fn planned(self, p: Option<ResolverPlanIdentity>) -> (r: HealthFlow)
        ensures
            r@ == health_step(self@, HealthEventView::Plan(p)),
    {
        let activated = match self.activation {
            Some(_) => true,
            None => false,
        };
        match self.stage {
            HealthStage::ReadPlan => if same_plan(&p, &self.plan) {
                self.compared()
            } else {
                self.end(conflict("the daemon resolver plan changed after lifecycle authorization"))
            },
            HealthStage::ReadFreshPlan => match p {
                Some(_) => self.end(
                    conflict("the restarted daemon retained an unexpected resolver plan"),
                ),
                None => if !activated {
                    self.end(
                        conflict("the active installation has no resolver transaction to recover"),
                    )
                } else {
                    self.go(HealthStage::ReleaseAuthority)
                },
            },
            _ => self,
        }
    }

    /// Goes on from what came of the last action.
    pub fn step(self, event: HealthEvent) -> (r: HealthFlow)
        ensures
            r@ == health_step(self@, event@),
    {
        match event {
            HealthEvent::Done => self.done(),
            HealthEvent::Failed(e) => self.failed(e),
            HealthEvent::State(state) => self.state(state.as_str()),
            HealthEvent::Activation(a) => if self.stage == HealthStage::ReadActivation {
                HealthFlow { stage: HealthStage::ObserveDaemon, activation: a, ..self }
            } else {
                self
            },
            HealthEvent::Plan(p) => self.planned(p),
        }
    }
}

// ---------------------------------------------------------------------------
// Laws
// ---------------------------------------------------------------------------

/// The stop of several units succeeds only where the last one was seen at rest
/// behind all others.
pub proof fn law_units_are_stopped_in_order(f: StopAllView, e: StopAllEventView)
    requires
        f.stage != StopAllStage::Finished,
        f.error is None,
        stop_all_step(f, e).stage == StopAllStage::Finished,
        stop_all_step(f, e).error is None,
    ensures
        f.stage is Confirm,
        f.stage->Confirm_0 + 1 >= f.count,
        e matches StopAllEventView::State(state) && stop_of(state) == StopAction::Settled,
{
}

/// No listener is given up before its socket is about to start, and one whose
/// socket did not start is reserved again before the failure is reported.
pub proof fn law_failed_handovers_keep_their_listener(f: HandoverView, e: FaultView, i: usize)
    requires
        f.stage == HandoverStage::Start(i),
    ensures
        handover_step(f, StopAllEventView::Failed(e)).stage == HandoverStage::Recover(i),
        handover_step(
            handover_step(f, StopAllEventView::Failed(e)),
            StopAllEventView::Done,
        ).error == Some(e),
{
}

/// Where a run comes to after some events.
pub open spec fn health_run(f: HealthView, events: Seq<HealthEventView>) -> HealthView
    decreases events.len(),
{
    if events.len() == 0 {
        f
    } else {
        health_step(health_run(f, events.drop_last()), events.last())
    }
}

/// A daemon that serves the plan of the activation in force is neither stopped
/// nor is its plan withdrawn.
pub proof fn law_right_plans_are_left_alone(f: HealthView, e: HealthEventView)
    requires
        serves_right_plan(f),
        f.stage == HealthStage::ReadPlan || f.stage == HealthStage::ReleaseForResolver || f.stage
            == HealthStage::ObserveResolver || f.stage == HealthStage::StartResolver,
    ensures
        ({
            let s = health_step(f, e).stage;
            s != HealthStage::StopResolver && s != HealthStage::StopDaemon && s
                != HealthStage::InvalidatePlan && s != HealthStage::StartDaemon
        }),
{
}

/// A run that ends in health waited for the plan and saw the supervisor settled.
pub proof fn law_health_is_confirmed(f: HealthView, e: HealthEventView)
    requires
        f.stage != HealthStage::Finished,
        f.stage != HealthStage::QuiesceResolver,
        f.error is None,
        health_step(f, e).stage == HealthStage::Finished,
        health_step(f, e).error is None,
    ensures
        f.stage == HealthStage::RequireSettled,
{
}

/// A supervisor that was started and not accepted is stopped before the failure
/// is reported.
pub proof fn law_unaccepted_supervisors_are_stopped(f: HealthView, e: FaultView)
    requires
        f.stage == HealthStage::WaitForHealth || f.stage == HealthStage::RequireSettled,
    ensures
        health_step(f, HealthEventView::Failed(e)).stage == HealthStage::QuiesceResolver,
        health_step(f, HealthEventView::Failed(e)).error is Some,
{
}

/// Where the stop of several units comes to after some events.
pub open spec fn stop_all_run(f: StopAllView, events: Seq<StopAllEventView>) -> StopAllView
    decreases events.len(),
{
    if events.len() == 0 {
        f
    } else {
        stop_all_step(stop_all_run(f, events.drop_last()), events.last())
    }
}

/// The stages that the stop of several units has passed, in their order.
pub open spec fn stop_all_passed(f: StopAllView, events: Seq<StopAllEventView>) -> Seq<StopAllStage>
    decreases events.len(),
{
    if events.len() == 0 {
        Seq::empty()
    } else {
        let before = stop_all_passed(f, events.drop_last());
        let stage = stop_all_run(f, events.drop_last()).stage;
        match (stage, events.last()) {
            (StopAllStage::Observe(_), StopAllEventView::State(_)) => before.push(stage),
            (StopAllStage::Stop(_), StopAllEventView::Done) => before.push(stage),
            (StopAllStage::Confirm(_), StopAllEventView::State(s)) => if stop_of(s)
                == StopAction::Settled {
                before.push(stage)
            } else {
                before
            },
            _ => before,
        }
    }
}

/// What the stop of the first `n` units goes through: each is observed, stopped
/// where it is not at rest, and has to be seen at rest before the next one.
pub open spec fn stop_all_course(running: Seq<bool>, n: int) -> Seq<StopAllStage>
    decreases n,
{
    if n <= 0 {
        Seq::empty()
    } else {
        stop_all_course(running, n - 1) + seq![StopAllStage::Observe((n - 1) as usize)] + only_if(
            running[n - 1],
            seq![StopAllStage::Stop((n - 1) as usize)],
        ) + seq![StopAllStage::Confirm((n - 1) as usize)]
    }
}

/// Whether exactly those units were not at rest when they were observed.
pub open spec fn stop_all_finds(
    f: StopAllView,
    events: Seq<StopAllEventView>,
    running: Seq<bool>,
) -> bool
    decreases events.len(),
{
    if events.len() == 0 {
        true
    } else {
        &&& stop_all_finds(f, events.drop_last(), running)
        &&& match (stop_all_run(f, events.drop_last()).stage, events.last()) {
            (StopAllStage::Observe(i), StopAllEventView::State(s)) => running[i as int] == (stop_of(
                s,
            ) != StopAction::Settled),
            _ => true,
        }
    }
}

/// The stop of several units that succeeds has observed each of them in order,
/// stopped exactly those that were not at rest, and seen each at rest behind that.
#[verifier::spinoff_prover]
#[verifier::rlimit(60)]
pub proof fn law_all_units_are_stopped(
    count: usize,
    events: Seq<StopAllEventView>,
    running: Seq<bool>,
)
    requires
        stop_all_finds(stop_all_begun(count), events, running),
    ensures
        ({
            let f = stop_all_run(stop_all_begun(count), events);
            let passed = stop_all_passed(stop_all_begun(count), events);
            &&& f.count == count
            &&& f.error is None ==> match f.stage {
                StopAllStage::Observe(i) => i < count && passed == stop_all_course(
                    running,
                    i as int,
                ),
                StopAllStage::Stop(i) => i < count && running[i as int] && passed
                    == stop_all_course(running, i as int) + seq![StopAllStage::Observe(i)],
                StopAllStage::Confirm(i) => i < count && passed == stop_all_course(
                    running,
                    i as int,
                ) + seq![StopAllStage::Observe(i)] + only_if(
                    running[i as int],
                    seq![StopAllStage::Stop(i)],
                ),
                StopAllStage::Finished => passed == stop_all_course(running, count as int),
            }
        }),
    decreases events.len(),
{
    let begun = stop_all_begun(count);
    let passed = stop_all_passed(begun, events);
    if events.len() == 0 {
        assert(passed =~= stop_all_course(running, 0));
    } else {
        let before = events.drop_last();
        law_all_units_are_stopped(count, before, running);
        let was = stop_all_passed(begun, before);
        let g = stop_all_run(begun, before);
        let f = stop_all_run(begun, events);
        if g.error is None && f.error is None {
            match g.stage {
                StopAllStage::Observe(i) => {
                    let head = stop_all_course(running, i as int);
                    assert(was.push(g.stage) =~= head + seq![StopAllStage::Observe(i)]);
                    assert(was.push(g.stage) =~= head + seq![StopAllStage::Observe(i)] + Seq::<
                        StopAllStage,
                    >::empty());
                },
                StopAllStage::Stop(i) => {
                    let head = stop_all_course(running, i as int);
                    assert(was.push(g.stage) =~= head + seq![StopAllStage::Observe(i)] + seq![
                        StopAllStage::Stop(i),
                    ]);
                },
                StopAllStage::Confirm(i) => {
                    assert(was.push(g.stage) =~= stop_all_course(running, i as int + 1));
                },
                StopAllStage::Finished => {},
            }
        }
    }
}

/// Where holding on to listeners comes to after some events.
pub open spec fn listener_run(f: ListenerView, events: Seq<StopAllEventView>) -> ListenerView
    decreases events.len(),
{
    if events.len() == 0 {
        f
    } else {
        listener_step(listener_run(f, events.drop_last()), events.last())
    }
}

/// The stages that holding on to listeners has passed, in their order.
pub open spec fn listener_passed(f: ListenerView, events: Seq<StopAllEventView>) -> Seq<
    ListenerStage,
>
    decreases events.len(),
{
    if events.len() == 0 {
        Seq::empty()
    } else {
        let before = listener_passed(f, events.drop_last());
        let stage = listener_run(f, events.drop_last()).stage;
        match stage {
            ListenerStage::Observe(_) => if events.last() is State {
                before.push(stage)
            } else {
                before
            },
            ListenerStage::Finished => before,
            _ => if events.last() is Done {
                before.push(stage)
            } else {
                before
            },
        }
    }
}

/// What is done for the first `n` sockets: at a cutover each one that is not at rest
/// is stopped and every listener reserved; otherwise the listeners of those that are
/// not active are.
pub open spec fn listener_course(mode: ListenerMode, found: Seq<bool>, n: int) -> Seq<ListenerStage>
    decreases n,
{
    if n <= 0 {
        seq![ListenerStage::StopResolver, ListenerStage::QuiesceDaemon]
    } else {
        let i = (n - 1) as usize;
        listener_course(mode, found, n - 1) + seq![ListenerStage::Observe(i)] + match mode {
            ListenerMode::Cutover => only_if(
                found[n - 1],
                seq![ListenerStage::StopSocket(i)],
            ) + seq![ListenerStage::Reserve(i)],
            ListenerMode::Retain => only_if(!found[n - 1], seq![ListenerStage::Reserve(i)]),
        }
    }
}

/// Whether the sockets were found so: at a cutover whether they are not at rest,
/// otherwise whether they are active.
pub open spec fn listener_finds(
    f: ListenerView,
    events: Seq<StopAllEventView>,
    found: Seq<bool>,
) -> bool
    decreases events.len(),
{
    if events.len() == 0 {
        true
    } else {
        &&& listener_finds(f, events.drop_last(), found)
        &&& match (listener_run(f, events.drop_last()).stage, events.last()) {
            (ListenerStage::Observe(i), StopAllEventView::State(s)) => found[i as int]
                == match f.mode {
                ListenerMode::Cutover => stop_of(s) != StopAction::Settled,
                ListenerMode::Retain => s == "active"@,
            },
            _ => true,
        }
    }
}

/// Listeners that were held on to without a failure are held for every socket: the
/// supervisor and the daemon were stopped first, each socket was observed in order,
/// its listener was reserved where that is called for, and behind the last one all
/// were verified.
#[verifier::spinoff_prover]
#[verifier::rlimit(60)]
pub proof fn law_every_listener_is_held(
    mode: ListenerMode,
    events: Seq<StopAllEventView>,
    found: Seq<bool>,
)
    requires
        listener_finds(listener_begun(mode), events, found),
    ensures
        ({
            let f = listener_run(listener_begun(mode), events);
            let passed = listener_passed(listener_begun(mode), events);
            &&& f.mode == mode
            &&& f.error is None ==> match f.stage {
                ListenerStage::StopResolver => passed == Seq::<ListenerStage>::empty(),
                ListenerStage::QuiesceDaemon => passed == seq![ListenerStage::StopResolver],
                ListenerStage::Observe(i) => i < 3 && passed == listener_course(
                    mode,
                    found,
                    i as int,
                ),
                ListenerStage::StopSocket(i) => i < 3 && mode == ListenerMode::Cutover
                    && found[i as int] && passed == listener_course(mode, found, i as int) + seq![
                    ListenerStage::Observe(i),
                ],
                ListenerStage::Reserve(i) => i < 3 && (mode == ListenerMode::Retain
                    ==> !found[i as int]) && passed == listener_course(mode, found, i as int)
                    + seq![ListenerStage::Observe(i)] + only_if(
                    mode == ListenerMode::Cutover && found[i as int],
                    seq![ListenerStage::StopSocket(i)],
                ),
                ListenerStage::Verify => passed == listener_course(mode, found, 3),
                ListenerStage::Finished => passed == listener_course(mode, found, 3).push(
                    ListenerStage::Verify,
                ),
            }
        }),
    decreases events.len(),
{
    let begun = listener_begun(mode);
    let passed = listener_passed(begun, events);
    if events.len() > 0 {
        let before = events.drop_last();
        law_every_listener_is_held(mode, before, found);
        let was = listener_passed(begun, before);
        let g = listener_run(begun, before);
        let f = listener_run(begun, events);
        if g.error is None && f.error is None {
            match g.stage {
                ListenerStage::StopResolver => {
                    assert(was.push(g.stage) =~= seq![ListenerStage::StopResolver]);
                },
                ListenerStage::QuiesceDaemon => {
                    assert(was.push(g.stage) =~= listener_course(mode, found, 0));
                },
                ListenerStage::Observe(i) => {
                    let seen = listener_course(mode, found, i as int) + seq![
                        ListenerStage::Observe(i),
                    ];
                    assert(was.push(g.stage) =~= seen);
                    assert(seen + Seq::<ListenerStage>::empty() =~= seen);
                    if mode == ListenerMode::Retain && found[i as int] {
                        assert(seen =~= listener_course(mode, found, i as int + 1));
                    }
                },
                ListenerStage::StopSocket(i) => {
                    assert(was.push(g.stage) =~= listener_course(mode, found, i as int) + seq![
                        ListenerStage::Observe(i),
                    ] + seq![ListenerStage::StopSocket(i)]);
                },
                ListenerStage::Reserve(i) => {
                    assert(was.push(g.stage) =~= listener_course(mode, found, i as int + 1));
                },
                _ => {},
            }
        }
    } else {
        assert(passed =~= Seq::<ListenerStage>::empty());
    }
}

/// Where a handover comes to after some events.
pub open spec fn handover_run(f: HandoverView, events: Seq<StopAllEventView>) -> HandoverView
    decreases events.len(),
{
    if events.len() == 0 {
        f
    } else {
        handover_step(handover_run(f, events.drop_last()), events.last())
    }
}

/// The stages that a handover has passed, in their order.
pub open spec fn handover_passed(f: HandoverView, events: Seq<StopAllEventView>) -> Seq<
    HandoverStage,
>
    decreases events.len(),
{
    if events.len() == 0 {
        Seq::empty()
    } else {
        let before = handover_passed(f, events.drop_last());
        let stage = handover_run(f, events.drop_last()).stage;
        match stage {
            HandoverStage::Observe(_) => if events.last() is State {
                before.push(stage)
            } else {
                before
            },
            HandoverStage::Finished => before,
            _ => if events.last() is Done {
                before.push(stage)
            } else {
                before
            },
        }
    }
}

/// What is done for a socket that is not active.
pub open spec fn handed_over(i: usize) -> Seq<HandoverStage> {
    seq![
        HandoverStage::Reserve(i),
        HandoverStage::Prepare(i),
        HandoverStage::Release(i),
        HandoverStage::Start(i),
    ]
}

/// What is done for the first `n` sockets, where it is known which are active.
pub open spec fn handover_course(active: Seq<bool>, n: int) -> Seq<HandoverStage>
    decreases n,
{
    if n <= 0 {
        seq![HandoverStage::Retain, HandoverStage::AcquireLease]
    } else {
        handover_course(active, n - 1) + seq![HandoverStage::Observe((n - 1) as usize)] + only_if(
            !active[n - 1],
            handed_over((n - 1) as usize),
        )
    }
}

/// What a handover does behind the last socket.
pub open spec fn handover_end() -> Seq<HandoverStage> {
    seq![
        HandoverStage::DropReservations,
        HandoverStage::ReleaseLease,
        HandoverStage::StopResolver,
        HandoverStage::QuiesceDaemon,
        HandoverStage::Confirm(0),
        HandoverStage::Confirm(1),
        HandoverStage::Confirm(2),
    ]
}

/// Whether exactly those sockets were active when they were observed.
pub open spec fn handover_finds(
    f: HandoverView,
    events: Seq<StopAllEventView>,
    active: Seq<bool>,
) -> bool
    decreases events.len(),
{
    if events.len() == 0 {
        true
    } else {
        &&& handover_finds(f, events.drop_last(), active)
        &&& match (handover_run(f, events.drop_last()).stage, events.last()) {
            (HandoverStage::Observe(i), StopAllEventView::State(s)) => active[i as int] == (s
                == "active"@),
            _ => true,
        }
    }
}

/// What a handover has passed behind the last socket.
pub open spec fn handover_ending(passed: Seq<HandoverStage>, active: Seq<bool>, n: int) -> bool {
    passed == handover_course(active, 3) + handover_end().subrange(0, n)
}

/// A handover that ends without a failure held on to the listeners first, and under
/// the permission to start has observed each socket in order and handed the listener
/// of each one that was not active over; behind the last one it gave up the
/// reservations and the permission, stopped what the sockets started, and saw each
/// socket active.
#[verifier::spinoff_prover]
#[verifier::rlimit(60)]
pub proof fn law_every_listener_is_handed_over(events: Seq<StopAllEventView>, active: Seq<bool>)
    requires
        handover_finds(handover_begun(), events, active),
    ensures
        ({
            let f = handover_run(handover_begun(), events);
            let passed = handover_passed(handover_begun(), events);
            &&& f.error is Some ==> f.stage is Recover || f.stage == HandoverStage::Finished
            &&& f.error is None ==> match f.stage {
                HandoverStage::Retain => passed == Seq::<HandoverStage>::empty(),
                HandoverStage::AcquireLease => passed == seq![HandoverStage::Retain],
                HandoverStage::Observe(i) => i < 3 && passed == handover_course(active, i as int),
                HandoverStage::Reserve(i) => i < 3 && !active[i as int] && passed
                    == handover_course(active, i as int) + seq![HandoverStage::Observe(i)],
                HandoverStage::Prepare(i) => i < 3 && !active[i as int] && passed
                    == handover_course(active, i as int) + seq![
                    HandoverStage::Observe(i),
                    HandoverStage::Reserve(i),
                ],
                HandoverStage::Release(i) => i < 3 && !active[i as int] && passed
                    == handover_course(active, i as int) + seq![
                    HandoverStage::Observe(i),
                    HandoverStage::Reserve(i),
                    HandoverStage::Prepare(i),
                ],
                HandoverStage::Start(i) => i < 3 && !active[i as int] && passed == handover_course(
                    active,
                    i as int,
                ) + seq![
                    HandoverStage::Observe(i),
                    HandoverStage::Reserve(i),
                    HandoverStage::Prepare(i),
                    HandoverStage::Release(i),
                ],
                HandoverStage::Recover(_) => false,
                HandoverStage::DropReservations => handover_ending(passed, active, 0),
                HandoverStage::ReleaseLease => handover_ending(passed, active, 1),
                HandoverStage::StopResolver => handover_ending(passed, active, 2),
                HandoverStage::QuiesceDaemon => handover_ending(passed, active, 3),
                HandoverStage::Confirm(i) => i < 3 && handover_ending(passed, active, 4 + i),
                HandoverStage::Finished => passed == handover_course(active, 3) + handover_end(),
            }
        }),
    decreases events.len(),
{
    let begun = handover_begun();
    let passed = handover_passed(begun, events);
    if events.len() > 0 {
        let before = events.drop_last();
        law_every_listener_is_handed_over(before, active);
        let was = handover_passed(begun, before);
        let g = handover_run(begun, before);
        let f = handover_run(begun, events);
        let end = handover_end();
        assert(end.subrange(0, 7) =~= end);
        if g.error is None && f.error is None {
            match g.stage {
                HandoverStage::Retain => {
                    assert(was.push(g.stage) =~= seq![HandoverStage::Retain]);
                },
                HandoverStage::AcquireLease => {
                    assert(was.push(g.stage) =~= handover_course(active, 0));
                },
                HandoverStage::Observe(i) => {
                    let seen = handover_course(active, i as int) + seq![HandoverStage::Observe(i)];
                    assert(was.push(g.stage) =~= seen);
                    if active[i as int] {
                        assert(seen =~= handover_course(active, i as int + 1));
                        assert(seen =~= seen + end.subrange(0, 0));
                    }
                },
                HandoverStage::Reserve(i) => {
                    assert(was.push(g.stage) =~= handover_course(active, i as int) + seq![
                        HandoverStage::Observe(i),
                        HandoverStage::Reserve(i),
                    ]);
                },
                HandoverStage::Prepare(i) => {
                    assert(was.push(g.stage) =~= handover_course(active, i as int) + seq![
                        HandoverStage::Observe(i),
                        HandoverStage::Reserve(i),
                        HandoverStage::Prepare(i),
                    ]);
                },
                HandoverStage::Release(i) => {
                    assert(was.push(g.stage) =~= handover_course(active, i as int) + seq![
                        HandoverStage::Observe(i),
                        HandoverStage::Reserve(i),
                        HandoverStage::Prepare(i),
                        HandoverStage::Release(i),
                    ]);
                },
                HandoverStage::Start(i) => {
                    let done = handover_course(active, i as int + 1);
                    assert(was.push(g.stage) =~= done);
                    assert(done =~= done + end.subrange(0, 0));
                },
                HandoverStage::DropReservations => {
                    assert(was.push(g.stage) =~= handover_course(active, 3) + end.subrange(0, 1));
                },
                HandoverStage::ReleaseLease => {
                    assert(was.push(g.stage) =~= handover_course(active, 3) + end.subrange(0, 2));
                },
                HandoverStage::StopResolver => {
                    assert(was.push(g.stage) =~= handover_course(active, 3) + end.subrange(0, 3));
                },
                HandoverStage::QuiesceDaemon => {
                    assert(was.push(g.stage) =~= handover_course(active, 3) + end.subrange(0, 4));
                },
                HandoverStage::Confirm(i) => {
                    assert(end[4 + i] == HandoverStage::Confirm(i));
                    assert(was.push(g.stage) =~= handover_course(active, 3) + end.subrange(
                        0,
                        5 + i,
                    ));
                },
                _ => {},
            }
        }
    } else {
        assert(passed =~= Seq::<HandoverStage>::empty());
    }
}

/// Whether an event is the success of what a stage of a run is to do.
pub open spec fn health_succeeds(stage: HealthStage, e: HealthEventView) -> bool {
    match stage {
        HealthStage::ObserveSocket(_) | HealthStage::ObserveDaemon
        | HealthStage::ObserveResolver => e is State,
        HealthStage::ReadActivation => e is Activation,
        HealthStage::ReadPlan | HealthStage::ReadFreshPlan => e is Plan,
        HealthStage::Finished => false,
        _ => e is Done,
    }
}

/// The stages that a run has passed, in their order.
pub open spec fn health_passed(f: HealthView, events: Seq<HealthEventView>) -> Seq<HealthStage>
    decreases events.len(),
{
    if events.len() == 0 {
        Seq::empty()
    } else {
        let before = health_passed(f, events.drop_last());
        let stage = health_run(f, events.drop_last()).stage;
        if health_succeeds(stage, events.last()) {
            before.push(stage)
        } else {
            before
        }
    }
}

/// What the course of a run depends on.
pub struct HealthCase {
    /// Whether the daemon was seen to serve a plan or none, and which.
    pub plan_observed: bool,
    pub plan: Option<ResolverPlanIdentity>,
    /// Which sockets are active.
    pub sockets: Seq<bool>,
    /// The activation that was read.
    pub activation: Option<Activation>,
    /// Whether the daemon is active.
    pub daemon: bool,
    /// Whether the supervisor is active.
    pub resolver: bool,
}

/// Whether the daemon serves the plan of an activation in force.
pub open spec fn health_is_right(c: HealthCase) -> bool {
    &&& c.plan_observed
    &&& c.activation is Some
    &&& c.activation->0.phase == ActivationPhase::Active
    &&& c.plan == Some(
        ResolverPlanIdentity {
            activation_id: c.activation->0.activation_id,
            generation: c.activation->0.generation,
        },
    )
}

/// What is done for the first `n` sockets: each that is not active is started.
pub open spec fn health_sockets(sockets: Seq<bool>, n: int) -> Seq<HealthStage>
    decreases n,
{
    if n <= 0 {
        Seq::empty()
    } else {
        health_sockets(sockets, n - 1) + seq![HealthStage::ObserveSocket((n - 1) as usize)]
            + only_if(!sockets[n - 1], seq![HealthStage::StartSocket((n - 1) as usize)])
    }
}

/// What is done behind the sockets: where the daemon serves the plan of the
/// activation in force, only the supervisor may be missing; otherwise everything is
/// begun anew, and a plan that is served is withdrawn first.
pub open spec fn health_rest(c: HealthCase) -> Seq<HealthStage> {
    seq![HealthStage::ReadActivation, HealthStage::ObserveDaemon] + only_if(
        c.plan_observed,
        seq![HealthStage::ReadPlan],
    ) + (if health_is_right(c) {
        seq![HealthStage::ReleaseForResolver, HealthStage::ObserveResolver] + only_if(
            !c.resolver,
            seq![HealthStage::StartResolver],
        )
    } else {
        seq![HealthStage::StopResolver] + only_if(
            c.plan_observed && c.plan is Some,
            seq![HealthStage::InvalidatePlan],
        ) + only_if(c.daemon, seq![HealthStage::StopDaemon]) + seq![
            HealthStage::StartDaemon,
            HealthStage::WaitForDaemon,
            HealthStage::ReadFreshPlan,
            HealthStage::ReleaseAuthority,
            HealthStage::RestartResolver,
        ]
    }) + seq![HealthStage::WaitForHealth, HealthStage::RequireSettled]
}

/// Whether what is found out at a stage is as in a case.
pub open spec fn health_fits(f: HealthView, e: HealthEventView, c: HealthCase) -> bool {
    match e {
        HealthEventView::State(s) => match f.stage {
            HealthStage::ObserveSocket(i) => c.sockets[i as int] == (s == "active"@),
            HealthStage::ObserveDaemon => c.daemon == (s == "active"@),
            HealthStage::ObserveResolver => c.resolver == (s == "active"@),
            _ => true,
        },
        HealthEventView::Activation(a) => f.stage == HealthStage::ReadActivation ==> c.activation
            == a,
        _ => true,
    }
}

/// Whether what is found out in a run is as in a case.
pub open spec fn health_is_case(f: HealthView, events: Seq<HealthEventView>, c: HealthCase) -> bool
    decreases events.len(),
{
    if events.len() == 0 {
        true
    } else {
        &&& health_is_case(f, events.drop_last(), c)
        &&& health_fits(health_run(f, events.drop_last()), events.last(), c)
    }
}

/// Whether an event is no failure and fits what was seen before: the daemon is as it
/// was, a daemon that was started serves nothing, and there is an activation to
/// serve then.
pub open spec fn health_agreeable(f: HealthView, e: HealthEventView, c: HealthCase) -> bool {
    match e {
        HealthEventView::Failed(_) => false,
        HealthEventView::State(s) => f.stage == HealthStage::ObserveDaemon && c.plan_observed
            ==> s == "active"@,
        HealthEventView::Plan(p) => {
            &&& f.stage == HealthStage::ReadPlan ==> p == c.plan
            &&& f.stage == HealthStage::ReadFreshPlan ==> p is None && c.activation is Some
        },
        _ => true,
    }
}

/// Whether all events are agreeable where they come.
pub open spec fn health_undisturbed(
    f: HealthView,
    events: Seq<HealthEventView>,
    c: HealthCase,
) -> bool
    decreases events.len(),
{
    if events.len() == 0 {
        true
    } else {
        &&& health_undisturbed(f, events.drop_last(), c)
        &&& health_agreeable(health_run(f, events.drop_last()), events.last(), c)
    }
}

/// The stages that were passed behind the sockets.
spec fn health_behind(passed: Seq<HealthStage>, c: HealthCase) -> Seq<HealthStage> {
    passed.subrange(health_sockets(c.sockets, 3).len() as int, passed.len() as int)
}

/// What every run keeps of its case.
spec fn health_kept(f: HealthView, passed: Seq<HealthStage>, c: HealthCase) -> bool {
    &&& f.plan_observed == c.plan_observed
    &&& f.plan == c.plan
    &&& f.error is None ==> match f.stage {
        HealthStage::ObserveSocket(i) => i < 3 && passed == health_sockets(c.sockets, i as int),
        HealthStage::StartSocket(i) => i < 3 && !c.sockets[i as int] && passed == health_sockets(
            c.sockets,
            i as int,
        ) + seq![HealthStage::ObserveSocket(i)],
        _ => {
            let head = health_sockets(c.sockets, 3);
            let behind = health_behind(passed, c);
            &&& passed.len() >= head.len()
            &&& passed == head + behind
            &&& on_course(health_rest(c), behind, f.stage, HealthStage::Finished)
            &&& f.stage != HealthStage::ReadActivation ==> f.activation == c.activation
            &&& f.stage != HealthStage::ReadActivation && f.stage != HealthStage::ObserveDaemon
                ==> f.daemon_active == c.daemon
        },
    }
}

#[verifier::spinoff_prover]
#[verifier::rlimit(90)]
proof fn lemma_health_next(
    f: HealthView,
    behind: Seq<HealthStage>,
    e: HealthEventView,
    c: HealthCase,
)
    requires
        on_course(health_rest(c), behind, f.stage, HealthStage::Finished),
        f.plan_observed == c.plan_observed,
        f.plan == c.plan,
        f.stage != HealthStage::ReadActivation ==> f.activation == c.activation,
        f.stage != HealthStage::ReadActivation && f.stage != HealthStage::ObserveDaemon
            ==> f.daemon_active == c.daemon,
        f.error is None,
        health_step(f, e).error is None,
        health_succeeds(f.stage, e),
        health_fits(f, e, c),
    ensures
        ({
            let course = health_rest(c);
            let n = behind.len() as int;
            &&& n < course.len()
            &&& health_step(f, e).stage == if n + 1 < course.len() {
                course[n + 1]
            } else {
                HealthStage::Finished
            }
        }),
{
}

/// No stage behind the sockets is the end, or one of a socket.
#[verifier::spinoff_prover]
#[verifier::rlimit(60)]
proof fn lemma_health_rest(c: HealthCase)
    ensures
        !health_rest(c).contains(HealthStage::Finished),
        forall|i: int|
            0 <= i < health_rest(c).len() ==> !(#[trigger] health_rest(c)[i] is ObserveSocket)
                && !(health_rest(c)[i] is StartSocket),
        health_rest(c).len() > 0 && health_rest(c)[0] == HealthStage::ReadActivation,
{
    let course = health_rest(c);
    assert(forall|i: int| 0 <= i < course.len() ==> course[i] != HealthStage::Finished);
}

#[verifier::spinoff_prover]
#[verifier::rlimit(60)]
proof fn lemma_health_run(events: Seq<HealthEventView>, c: HealthCase)
    requires
        health_is_case(health_begun(c.plan_observed, c.plan), events, c),
    ensures
        ({
            let begun = health_begun(c.plan_observed, c.plan);
            let f = health_run(begun, events);
            &&& health_kept(f, health_passed(begun, events), c)
            &&& health_undisturbed(begun, events, c) ==> f.error is None
        }),
    decreases events.len(),
{
    let begun = health_begun(c.plan_observed, c.plan);
    let passed = health_passed(begun, events);
    let head = health_sockets(c.sockets, 3);
    if events.len() == 0 {
        assert(passed =~= health_sockets(c.sockets, 0));
    } else {
        let before = events.drop_last();
        lemma_health_run(before, c);
        lemma_health_rest(c);
        let was = health_passed(begun, before);
        let g = health_run(begun, before);
        let f = health_run(begun, events);
        let e = events.last();
        if g.error is None && f.error is None && health_succeeds(g.stage, e) {
            match g.stage {
                HealthStage::ObserveSocket(i) => {
                    let seen = health_sockets(c.sockets, i as int) + seq![g.stage];
                    assert(passed =~= seen);
                    if c.sockets[i as int] {
                        assert(seen =~= health_sockets(c.sockets, i as int + 1));
                        assert(passed.subrange(passed.len() as int, passed.len() as int)
                            =~= health_rest(c).subrange(0, 0));
                        assert(passed =~= passed + health_rest(c).subrange(0, 0));
                    }
                },
                HealthStage::StartSocket(i) => {
                    assert(passed =~= health_sockets(c.sockets, i as int + 1));
                    assert(passed.subrange(passed.len() as int, passed.len() as int)
                        =~= health_rest(c).subrange(0, 0));
                    assert(passed =~= passed + health_rest(c).subrange(0, 0));
                },
                _ => {
                    let behind = health_behind(was, c);
                    lemma_health_next(g, behind, e, c);
                    lemma_passes(health_rest(c), behind, g.stage, f.stage, HealthStage::Finished);
                    assert(passed =~= head + behind.push(g.stage));
                    assert(health_behind(passed, c) =~= behind.push(g.stage));
                },
            }
        }
    }
}

/// Bringing the units back to health goes through the stages of its course one
/// behind the other. So a run that ends without a failure has started each socket
/// that was not active, left a daemon with the right plan alone and begun anew with
/// any other, waited for health and seen the supervisor settled, in this order, and
/// done nothing else. Where nothing fails, it never comes to a failure.
pub proof fn law_health_follows_its_course(events: Seq<HealthEventView>, c: HealthCase)
    requires
        health_is_case(health_begun(c.plan_observed, c.plan), events, c),
    ensures
        ({
            let begun = health_begun(c.plan_observed, c.plan);
            let f = health_run(begun, events);
            &&& f.error is None && f.stage == HealthStage::Finished ==> health_passed(begun, events)
                == health_sockets(c.sockets, 3) + health_rest(c)
            &&& f.error is None ==> match f.stage {
                HealthStage::ObserveSocket(i) => health_passed(begun, events) == health_sockets(
                    c.sockets,
                    i as int,
                ),
                HealthStage::StartSocket(i) => health_passed(begun, events) == health_sockets(
                    c.sockets,
                    i as int,
                ) + seq![HealthStage::ObserveSocket(i)],
                _ => on_course(
                    health_sockets(c.sockets, 3) + health_rest(c),
                    health_passed(begun, events),
                    f.stage,
                    HealthStage::Finished,
                ),
            }
            &&& health_undisturbed(begun, events, c) ==> f.error is None
        }),
{
    lemma_health_run(events, c);
    lemma_health_rest(c);
    let begun = health_begun(c.plan_observed, c.plan);
    let f = health_run(begun, events);
    let passed = health_passed(begun, events);
    let head = health_sockets(c.sockets, 3);
    if f.error is None && !(f.stage is ObserveSocket) && !(f.stage is StartSocket) {
        let behind = health_behind(passed, c);
        lemma_part(
            head,
            health_rest(c),
            Seq::empty(),
            behind,
            f.stage,
            HealthStage::Finished,
        );
        assert(head + health_rest(c) + Seq::<HealthStage>::empty() =~= head + health_rest(c));
        if f.stage == HealthStage::Finished {
            lemma_passed(health_rest(c), behind, HealthStage::Finished);
        }
    }
}

/// What fails is reported: a supervisor that was started and not accepted is stopped
/// first, anything else ends at once; and a run that failed stays failed.
pub proof fn law_health_failures_are_reported(f: HealthView, x: FaultView, e: HealthEventView)
    ensures
        ({
            let g = health_step(f, HealthEventView::Failed(x));
            let waited = f.stage == HealthStage::WaitForHealth || f.stage
                == HealthStage::RequireSettled;
            let over = f.stage == HealthStage::QuiesceResolver || f.stage == HealthStage::Finished;
            &&& over ==> g == f
            &&& !over && !waited ==> g.stage == HealthStage::Finished && g.error == Some(x)
            &&& f.stage == HealthStage::WaitForHealth ==> g.error == Some(x)
            &&& waited ==> g.stage == HealthStage::QuiesceResolver && g.error is Some
        }),
        f.error is Some ==> health_step(f, e).error is Some,
        f.stage == HealthStage::QuiesceResolver && e is Done ==> health_step(f, e).stage
            == HealthStage::Finished && health_step(f, e).error == f.error,
{
}

} // verus!
