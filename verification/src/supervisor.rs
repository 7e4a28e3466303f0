//! The supervision of a resolver activation: its start, its reconciliation, its
//! stabilization, and the publication of its plan to the daemon.

use vstd::prelude::*;
use vstd::string::*;

use crate::course::{lemma_passed, lemma_passes, on_course, only_if};
use crate::exchange::SystemResult;
use crate::fault::{
    conflict, conflict_of, fault, invalid_data, invalid_of, stability_timeout,
    stability_timeout_message, Fault, FaultKind, FaultView,
};
use crate::files::{agrees, result_view};
use crate::model::{copy_option, option_text, Generation, GenerationView, ResolverPlanIdentity};
use crate::native::{ActivationPhase, ResolverLinkManager};
use crate::publications::option_fault;
use crate::stability::{
    evaluate_steady_observation, is_stable, observed, stamp, steady, timestamp_after, unobserved,
    ObservationStability, Observed, StabilityView, SteadyObservation, SteadyView,
};
use crate::text::{copy, same};

verus! {

/// How often the activation is reconciled, in milliseconds.
pub const RECONCILE_INTERVAL: u64 = 1000;

/// How often a lost monitor is sought again, in milliseconds.
pub const EVENT_MONITOR_RECONNECT_INTERVAL: u64 = 30000;

/// How long a start may take, in milliseconds.
pub const STARTUP_TIMEOUT: u64 = 15000;

/// How long a start waits between attempts, in milliseconds.
pub const STARTUP_RETRY: u64 = 50;

/// How far the observations of a start are apart, in milliseconds.
pub const STABILITY_INTERVAL: u64 = 500;

/// How far the observations of a reconciliation are apart, in milliseconds.
pub const STEADY_STABILITY_INTERVAL: u64 = 25;

/// How long a reconciliation may observe, in milliseconds.
pub const STEADY_STABILITY_TIMEOUT: u64 = 150;

/// How long a change of the link may take, in milliseconds.
pub const NATIVE_EFFECT_CALL_TIMEOUT: u64 = 2000;

// ---------------------------------------------------------------------------
// Failures of the resolver
// ---------------------------------------------------------------------------

/// The class of a failure of the resolver.
#[derive(Debug, Clone, Copy, PartialEq, Eq, Structural)]
pub enum NativeErrorKind {
    ResolverUnavailable,
    UnstableObservation,
    UnsupportedResolverManager,
    OwnershipConflict,
    Other,
}

/// A failure of the resolver.
#[derive(Debug)]
pub struct NativeError {
    pub kind: NativeErrorKind,
    pub message: String,
}

/// A failure of the resolver over plain values.
pub struct NativeErrorView {
    pub kind: NativeErrorKind,
    pub message: Seq<char>,
}

impl View for NativeError {
    type V = NativeErrorView;

    open spec fn view(&self) -> NativeErrorView {
        NativeErrorView { kind: self.kind, message: self.message@ }
    }
}

pub open spec fn platform_fault(e: NativeErrorView) -> FaultView {
    FaultView { kind: FaultKind::Other, message: e.message }
}

/// A failure of the resolver as it is reported.
pub fn platform_error(e: &NativeError) -> (r: Fault)
    ensures
        r@ == platform_fault(e@),
{
    fault(FaultKind::Other, e.message.as_str())
}

/// Whether the resolver's manager was out of reach for the moment.
pub fn platform_error_is_unavailable(e: &NativeError) -> (r: bool)
    ensures
        r == (e@.kind == NativeErrorKind::ResolverUnavailable),
{
    e.kind == NativeErrorKind::ResolverUnavailable
}

/// What came of a call of the resolver that has a bounded time.
#[derive(Debug)]
pub enum NativeCall<T> {
    Value(T),
    Failed(NativeError),
    TimedOut,
}

/// What an observation of the link came to: nothing where the resolver was out
/// of reach or too slow.
pub fn startup_observation<T>(call: NativeCall<Option<T>>) -> (r: Result<Option<T>, Fault>)
    ensures
        match call {
            NativeCall::Value(v) => r == Ok::<Option<T>, Fault>(v),
            NativeCall::TimedOut => r == Ok::<Option<T>, Fault>(None),
            NativeCall::Failed(e) => if e.kind == NativeErrorKind::ResolverUnavailable {
                r == Ok::<Option<T>, Fault>(None)
            } else {
                r is Err && r->Err_0@ == platform_fault(e@)
            },
        },
{
    match call {
        NativeCall::Value(v) => Ok(v),
        NativeCall::TimedOut => Ok(None),
        NativeCall::Failed(e) => if platform_error_is_unavailable(&e) {
            Ok(None)
        } else {
            Err(platform_error(&e))
        },
    }
}

/// What a comparison of the link came to: nothing where it changed meanwhile or
/// the resolver was too slow.
pub fn rebase_comparison(call: NativeCall<bool>) -> (r: Result<Option<bool>, Fault>)
    ensures
        match call {
            NativeCall::Value(v) => r == Ok::<Option<bool>, Fault>(Some(v)),
            NativeCall::TimedOut => r == Ok::<Option<bool>, Fault>(None),
            NativeCall::Failed(e) => if e.kind == NativeErrorKind::UnstableObservation {
                r == Ok::<Option<bool>, Fault>(None)
            } else {
                r is Err && r->Err_0@ == platform_fault(e@)
            },
        },
{
    match call {
        NativeCall::Value(v) => Ok(Some(v)),
        NativeCall::TimedOut => Ok(None),
        NativeCall::Failed(e) => if e.kind == NativeErrorKind::UnstableObservation {
            Ok(None)
        } else {
            Err(platform_error(&e))
        },
    }
}

/// What a read of the activation came to: nothing where the resolver was too slow.
pub fn load<T>(call: NativeCall<T>) -> (r: Result<Option<T>, Fault>)
    ensures
        match call {
            NativeCall::Value(v) => r == Ok::<Option<T>, Fault>(Some(v)),
            NativeCall::TimedOut => r == Ok::<Option<T>, Fault>(None),
            NativeCall::Failed(e) => r is Err && r->Err_0@ == platform_fault(e@),
        },
{
    match call {
        NativeCall::Value(v) => Ok(Some(v)),
        NativeCall::TimedOut => Ok(None),
        NativeCall::Failed(e) => Err(platform_error(&e)),
    }
}

/// What follows an attempt to connect.
#[derive(Debug)]
pub enum ConnectCourse {
    Connected,
    Retry,
    Failed(Fault),
}

/// What follows an attempt to connect, over plain values.
pub enum ConnectView {
    Connected,
    Retry,
    Failed(FaultView),
}

impl View for ConnectCourse {
    type V = ConnectView;

    open spec fn view(&self) -> ConnectView {
        match self {
            ConnectCourse::Connected => ConnectView::Connected,
            ConnectCourse::Retry => ConnectView::Retry,
            ConnectCourse::Failed(e) => ConnectView::Failed(e@),
        }
    }
}

/// What follows an attempt to connect: only a manager that is out of reach is
/// tried again, until the time is up.
pub fn connect_when_ready(outcome: &Result<(), NativeError>, now: u64, deadline: u64) -> (r:
    ConnectCourse)
    ensures
        r@ == match *outcome {
            Ok(_) => ConnectView::Connected,
            Err(e) => if e.kind != NativeErrorKind::ResolverUnavailable {
                ConnectView::Failed(platform_fault(e@))
            } else if now >= deadline {
                ConnectView::Failed(
                    FaultView { kind: FaultKind::TimedOut, message: stability_timeout() },
                )
            } else {
                ConnectView::Retry
            },
        },
{
    match outcome {
        Ok(_) => ConnectCourse::Connected,
        Err(e) => {
            if !platform_error_is_unavailable(e) {
                return ConnectCourse::Failed(platform_error(e));
            }
            if now >= deadline {
                return ConnectCourse::Failed(
                    fault(FaultKind::TimedOut, stability_timeout_message()),
                );
            }
            ConnectCourse::Retry
        },
    }
}

// ---------------------------------------------------------------------------
// What is supervised
// ---------------------------------------------------------------------------

/// What a supervisor was started for.
#[derive(Debug)]
pub struct SupervisorConfig {
    pub link: u32,
    pub interface_name: Option<String>,
    pub manager: Option<ResolverLinkManager>,
    pub owner_uid: u32,
    pub daemon_uid: u32,
    pub record_directory: String,
    pub system_socket: String,
}

/// A configuration over plain values.
pub struct SupervisorConfigView {
    pub link: u32,
    pub interface_name: Option<Seq<char>>,
    pub manager: Option<ResolverLinkManager>,
    pub owner_uid: u32,
    pub daemon_uid: u32,
    pub record_directory: Seq<char>,
    pub system_socket: Seq<char>,
}

impl View for SupervisorConfig {
    type V = SupervisorConfigView;

    open spec fn view(&self) -> SupervisorConfigView {
        SupervisorConfigView {
            link: self.link,
            interface_name: option_text(self.interface_name),
            manager: self.manager,
            owner_uid: self.owner_uid,
            daemon_uid: self.daemon_uid,
            record_directory: self.record_directory@,
            system_socket: self.system_socket@,
        }
    }
}

/// The configuration of a generation's supervisor.
pub open spec fn config_of(g: GenerationView) -> SupervisorConfigView {
    SupervisorConfigView {
        link: g.link,
        interface_name: g.interface_name,
        manager: g.resolver_manager,
        owner_uid: g.owner_uid,
        daemon_uid: g.daemon_uid,
        record_directory: "/var/lib/remap-system"@,
        system_socket: "/var/lib/remap/system.sock"@,
    }
}

/// The configuration of a generation's supervisor; its link has to be an index.
pub fn supervisor_config(g: &Generation) -> (r: Result<SupervisorConfig, Fault>)
    ensures
        match r {
            Ok(c) => g@.link != 0 && c@ == config_of(g@),
            Err(e) => g@.link == 0 && e@ == invalid_of(
                "the native Linux platform contract is invalid"@,
            ),
        },
{
    if g.link == 0 {
        return Err(invalid_data("the native Linux platform contract is invalid"));
    }
    Ok(
        SupervisorConfig {
            link: g.link,
            interface_name: copy_option(&g.interface_name),
            manager: g.resolver_manager,
            owner_uid: g.owner_uid,
            daemon_uid: g.daemon_uid,
            record_directory: copy("/var/lib/remap-system"),
            system_socket: copy("/var/lib/remap/system.sock"),
        },
    )
}

/// Whether a link has the native identity that it was approved with.
pub open spec fn identity_held(
    c: SupervisorConfigView,
    manager: ResolverLinkManager,
    interface_name: Seq<char>,
) -> bool {
    &&& c.manager is Some ==> c.manager == Some(manager)
    &&& c.interface_name is Some ==> c.interface_name == Some(interface_name)
}

fn holds_identity(c: &SupervisorConfig, manager: ResolverLinkManager, interface_name: &str) -> (r:
    bool)
    ensures
        r == identity_held(c@, manager, interface_name@),
{
    let same_manager = match c.manager {
        Some(expected) => expected == manager,
        None => true,
    };
    let same_name = match &c.interface_name {
        Some(expected) => same(expected.as_str(), interface_name),
        None => true,
    };
    same_manager && same_name
}

/// Accepts a link that kept its approved native identity when it was inspected.
pub fn require_inspected_identity(
    c: &SupervisorConfig,
    manager: ResolverLinkManager,
    interface_name: &str,
) -> (r: Result<(), Fault>)
    ensures
        agrees(
            r,
            if identity_held(c@, manager, interface_name@) {
                None
            } else {
                Some(
                    conflict_of("the selected resolver link changed its approved native identity"@),
                )
            },
        ),
{
    if holds_identity(c, manager, interface_name) {
        Ok(())
    } else {
        Err(conflict("the selected resolver link changed its approved native identity"))
    }
}

/// Which of the resolver's transactions a link is driven by.
#[derive(Debug, Clone, Copy, PartialEq, Eq, Structural)]
pub enum TransactionKind {
    /// The system's resolver; whether an earlier record of its manager is
    /// replaced.
    Systemd(bool),
    NetworkManager,
}

/// Which transaction a link that could be connected to is driven by, or why none.
pub open spec fn connected_transaction(
    c: SupervisorConfigView,
    manager: ResolverLinkManager,
    interface_name: Seq<char>,
) -> Result<TransactionKind, FaultView> {
    if identity_held(c, manager, interface_name) {
        Ok(TransactionKind::Systemd(c.manager is Some && c.interface_name is Some))
    } else {
        Err(conflict_of("the selected resolver link changed its approved native manager"@))
    }
}

/// Which transaction a link that could be connected to is driven by.
pub fn connect_systemd(
    c: &SupervisorConfig,
    manager: ResolverLinkManager,
    interface_name: &str,
) -> (r: Result<TransactionKind, Fault>)
    ensures
        result_view(r) == connected_transaction(c@, manager, interface_name@),
{
    if !holds_identity(c, manager, interface_name) {
        return Err(conflict("the selected resolver link changed its approved native manager"));
    }
    Ok(TransactionKind::Systemd(readiness_asked(c)))
}

/// Which transaction a link is driven by that could not be connected to.
pub open spec fn refused_transaction(c: SupervisorConfigView, e: NativeErrorView) -> Result<
    TransactionKind,
    FaultView,
> {
    if e.kind != NativeErrorKind::UnsupportedResolverManager {
        Err(platform_fault(e))
    } else if c.manager is Some && c.manager->0 != ResolverLinkManager::NetworkManager {
        Err(conflict_of("the selected resolver link changed its approved native manager"@))
    } else {
        Ok(TransactionKind::NetworkManager)
    }
}

/// Which transaction a link is driven by that could not be connected to: the
/// other manager's, where that is the approved one or none is.
pub fn connect_refused(c: &SupervisorConfig, e: &NativeError) -> (r: Result<TransactionKind, Fault>)
    ensures
        result_view(r) == refused_transaction(c@, e@),
{
    if e.kind != NativeErrorKind::UnsupportedResolverManager {
        return Err(platform_error(e));
    }
    let other = match c.manager {
        Some(manager) => manager != ResolverLinkManager::NetworkManager,
        None => false,
    };
    if other {
        return Err(conflict("the selected resolver link changed its approved native manager"));
    }
    Ok(TransactionKind::NetworkManager)
}

pub open spec fn unready() -> NativeErrorView {
    NativeErrorView {
        kind: NativeErrorKind::ResolverUnavailable,
        message: "the selected native resolver manager is temporarily unavailable"@,
    }
}

/// Whether it has to be seen that a link's manager is ready before the link is
/// inspected: where the manager and the link's name were approved.
pub fn readiness_asked(c: &SupervisorConfig) -> (r: bool)
    ensures
        r == (c@.manager is Some && c@.interface_name is Some),
{
    match (&c.manager, &c.interface_name) {
        (Some(_), Some(_)) => true,
        _ => false,
    }
}

/// Accepts a manager that is ready.
pub fn require_ready(ready: bool) -> (r: Result<(), NativeError>)
    ensures
        match r {
            Ok(_) => ready,
            Err(e) => !ready && e@ == unready(),
        },
{
    if ready {
        return Ok(());
    }
    Err(
        NativeError {
            kind: NativeErrorKind::ResolverUnavailable,
            message: copy("the selected native resolver manager is temporarily unavailable"),
        },
    )
}

/// Accepts an observation that belongs to the transaction it is used in.
pub fn require_fitting(transaction: TransactionKind, network_manager_observed: bool) -> (r: Result<
    (),
    NativeError,
>)
    ensures
        match r {
            Ok(_) => network_manager_observed == (transaction == TransactionKind::NetworkManager),
            Err(e) => network_manager_observed != (transaction == TransactionKind::NetworkManager)
                && e@ == (NativeErrorView {
                kind: NativeErrorKind::OwnershipConflict,
                message: "the native resolver manager changed after stabilization"@,
            }),
        },
{
    let fits = match transaction {
        TransactionKind::NetworkManager => network_manager_observed,
        TransactionKind::Systemd(_) => !network_manager_observed,
    };
    if fits {
        return Ok(());
    }
    Err(
        NativeError {
            kind: NativeErrorKind::OwnershipConflict,
            message: copy("the native resolver manager changed after stabilization"),
        },
    )
}

// ---------------------------------------------------------------------------
// Waiting for stability
// ---------------------------------------------------------------------------

/// What an observation on the way to stability came to.
#[derive(Debug)]
pub enum StartObservation<T> {
    Found(T),
    /// The link is not configured yet, or its manager is out of reach.
    Nothing,
    Failed(Fault),
}

/// What a wait for stability does next.
#[derive(Debug)]
pub enum StableWait<T> {
    Stable(T),
    Again,
    Failed(Fault),
}

/// What a wait for stability does next, over plain values.
pub enum StableWaitView<V> {
    Stable(V),
    Again,
    Failed(FaultView),
}

impl<T: View> View for StableWait<T> {
    type V = StableWaitView<T::V>;

    open spec fn view(&self) -> StableWaitView<T::V> {
        match self {
            StableWait::Stable(o) => StableWaitView::Stable(o@),
            StableWait::Again => StableWaitView::Again,
            StableWait::Failed(e) => StableWaitView::Failed(e@),
        }
    }
}

pub open spec fn late<V>(now: u64, deadline: u64) -> StableWaitView<V> {
    if now >= deadline {
        StableWaitView::Failed(
            FaultView { kind: FaultKind::TimedOut, message: stability_timeout() },
        )
    } else {
        StableWaitView::Again
    }
}

/// Takes an observation on the way to stability in: one that came often enough
/// in a row is stable, also at the last moment.
pub fn wait_for_stable_observation<T: Observed>(
    stability: &mut ObservationStability<T>,
    observation: StartObservation<T>,
    now: u64,
    deadline: u64,
) -> (r: StableWait<T>)
    ensures
        match observation {
            StartObservation::Failed(e) => final(stability)@ == old(stability)@ && r@
                == StableWaitView::<T::V>::Failed(e@),
            StartObservation::Nothing => r@ == late::<T::V>(now, deadline) && final(stability)@
                == unobserved::<T::V>(),
            StartObservation::Found(o) => final(stability)@ == observed(old(stability)@, o@)
                && r@ == if is_stable(observed(old(stability)@, o@)) {
                StableWaitView::Stable(o@)
            } else {
                late::<T::V>(now, deadline)
            },
        },
{
    match observation {
        StartObservation::Failed(e) => {
            return StableWait::Failed(e);
        },
        StartObservation::Nothing => {
            stability.reset();
        },
        StartObservation::Found(o) => {
            if stability.observe(o.duplicate()) {
                return StableWait::Stable(o);
            }
        },
    }
    if now >= deadline {
        StableWait::Failed(fault(FaultKind::TimedOut, stability_timeout_message()))
    } else {
        StableWait::Again
    }
}

/// What a wait for a steady drift does next.
#[derive(Debug)]
pub enum SteadyWait<T> {
    /// The drift stays: the activation is rebased on it.
    Rebase(T),
    /// The drift is gone, or did not come to rest in time.
    Leave,
    Again,
}

/// What a wait for a steady drift does next, over plain values.
pub enum SteadyWaitView<V> {
    Rebase(V),
    Leave,
    Again,
}

impl<T: View> View for SteadyWait<T> {
    type V = SteadyWaitView<T::V>;

    open spec fn view(&self) -> SteadyWaitView<T::V> {
        match self {
            SteadyWait::Rebase(o) => SteadyWaitView::Rebase(o@),
            SteadyWait::Leave => SteadyWaitView::Leave,
            SteadyWait::Again => SteadyWaitView::Again,
        }
    }
}

pub open spec fn option_view<T: View>(o: Option<T>) -> Option<T::V> {
    match o {
        Some(o) => Some(o@),
        None => None,
    }
}

/// What an observation of a drift comes to. One that came after the time is up
/// counts for nothing; where the comparison came to nothing, counting begins anew.
pub open spec fn steady_wait<V>(
    s: StabilityView<V>,
    o: Option<V>,
    requires_rebase: Option<bool>,
    expired: bool,
) -> (SteadyWaitView<V>, StabilityView<V>) {
    if expired {
        (SteadyWaitView::Leave, s)
    } else {
        match requires_rebase {
            None => (SteadyWaitView::Again, unobserved()),
            Some(rebase) => {
                let (verdict, after) = steady(s, o, rebase);
                (
                    match verdict {
                        SteadyView::Cancelled => SteadyWaitView::Leave,
                        SteadyView::Pending => SteadyWaitView::Again,
                        SteadyView::Stable(v) => SteadyWaitView::Rebase(v),
                    },
                    after,
                )
            },
        }
    }
}

/// Takes an observation of a drift in.
pub fn wait_for_steady_observation<T: Observed>(
    stability: &mut ObservationStability<T>,
    observation: Option<T>,
    requires_rebase: Option<bool>,
    now: u64,
    deadline: u64,
) -> (r: SteadyWait<T>)
    ensures
        (r@, final(stability)@) == steady_wait(
            old(stability)@,
            option_view(observation),
            requires_rebase,
            now >= deadline,
        ),
{
    if now >= deadline {
        return SteadyWait::Leave;
    }
    match requires_rebase {
        None => {
            stability.reset();
            SteadyWait::Again
        },
        Some(rebase) => match evaluate_steady_observation(stability, observation, rebase) {
            SteadyObservation::Cancelled => SteadyWait::Leave,
            SteadyObservation::Pending => SteadyWait::Again,
            SteadyObservation::Stable(o) => SteadyWait::Rebase(o),
        },
    }
}

// ---------------------------------------------------------------------------
// The daemon's plan
// ---------------------------------------------------------------------------

/// How the daemon's plan stands to the activation's.
#[derive(Debug, Clone, Copy, PartialEq, Eq, Structural)]
pub enum PlanState {
    Empty,
    Exact,
    Other,
}

pub open spec fn plan_state_of(r: SystemResult, plan: ResolverPlanIdentity) -> PlanState {
    match (r.activation_id, r.active_generation) {
        (None, None) => PlanState::Empty,
        (Some(id), Some(generation)) => if id == plan.activation_id && generation
            == plan.generation {
            PlanState::Exact
        } else {
            PlanState::Other
        },
        _ => PlanState::Other,
    }
}

/// How the daemon's plan stands to the activation's.
pub fn plan_state(result: &SystemResult, activation_id: u128, generation: u64) -> (r: PlanState)
    ensures
        r == plan_state_of(*result, ResolverPlanIdentity { activation_id, generation }),
{
    match (result.activation_id, result.active_generation) {
        (None, None) => PlanState::Empty,
        (Some(id), Some(current)) => if id == activation_id && current == generation {
            PlanState::Exact
        } else {
            PlanState::Other
        },
        _ => PlanState::Other,
    }
}

/// Whether a plan may be given to the daemon: it serves none, or an earlier one
/// of the same activation.
pub open spec fn may_publish(r: SystemResult, plan: ResolverPlanIdentity) -> bool {
    match (r.activation_id, r.active_generation) {
        (None, None) => true,
        (Some(id), Some(current)) => id == plan.activation_id && current < plan.generation,
        _ => false,
    }
}

/// What the publication of a plan does next.
#[derive(Debug, Clone, Copy, PartialEq, Eq, Structural)]
pub enum PublicationStage {
    /// Ask the daemon for its plan.
    ReadPlan,
    /// Give the plan to the daemon.
    Publish,
    /// Ask the daemon what became of it.
    ReadAgain,
    /// Nothing: the daemon serves the plan, or does not.
    Finished,
}

/// What came of what was to be done.
#[derive(Debug)]
pub enum PublicationEvent {
    Failed(Fault),
    Result(SystemResult),
}

/// An event over plain values.
pub enum PublicationEventView {
    Failed(FaultView),
    Result(SystemResult),
}

impl View for PublicationEvent {
    type V = PublicationEventView;

    open spec fn view(&self) -> PublicationEventView {
        match self {
            PublicationEvent::Failed(e) => PublicationEventView::Failed(e@),
            PublicationEvent::Result(r) => PublicationEventView::Result(*r),
        }
    }
}

/// How far the publication of a plan has come.
#[derive(Debug)]
pub struct PublicationFlow {
    pub stage: PublicationStage,
    pub plan: ResolverPlanIdentity,
    pub error: Option<Fault>,
    /// Whether the daemon is known not to serve the plan, so that the activation
    /// can be undone.
    pub rollback_safe: bool,
}

/// A publication over plain values.
pub struct PublicationFlowView {
    pub stage: PublicationStage,
    pub plan: ResolverPlanIdentity,
    pub error: Option<FaultView>,
    pub rollback_safe: bool,
}

impl View for PublicationFlow {
    type V = PublicationFlowView;

    open spec fn view(&self) -> PublicationFlowView {
        PublicationFlowView {
            stage: self.stage,
            plan: self.plan,
            error: option_fault(self.error),
            rollback_safe: self.rollback_safe,
        }
    }
}

pub open spec fn publication_failed(f: PublicationFlowView, e: FaultView, safe: bool) -> PublicationFlowView {
    PublicationFlowView {
        stage: PublicationStage::Finished,
        error: Some(e),
        rollback_safe: safe,
        ..f
    }
}

pub open spec fn publication_done(f: PublicationFlowView) -> PublicationFlowView {
    PublicationFlowView { stage: PublicationStage::Finished, error: None, ..f }
}

/// Where a publication goes from an event.
pub open spec fn publication_step(f: PublicationFlowView, e: PublicationEventView) -> PublicationFlowView {
    match f.stage {
        PublicationStage::ReadPlan => match e {
            PublicationEventView::Failed(x) => publication_failed(f, x, true),
            PublicationEventView::Result(r) => if plan_state_of(r, f.plan) == PlanState::Exact {
                publication_done(f)
            } else if may_publish(r, f.plan) {
                PublicationFlowView { stage: PublicationStage::Publish, ..f }
            } else {
                publication_failed(
                    f,
                    conflict_of("daemon resolver ownership differs from the activation record"@),
                    false,
                )
            },
        },
        PublicationStage::Publish => match e {
            PublicationEventView::Failed(x) => PublicationFlowView {
                stage: PublicationStage::ReadAgain,
                error: Some(x),
                ..f
            },
            PublicationEventView::Result(r) => match plan_state_of(r, f.plan) {
                PlanState::Exact => publication_done(f),
                PlanState::Empty => publication_failed(
                    f,
                    invalid_of("daemon did not commit the resolver plan"@),
                    true,
                ),
                PlanState::Other => publication_failed(
                    f,
                    conflict_of("daemon resolver ownership changed during publication"@),
                    false,
                ),
            },
        },
        PublicationStage::ReadAgain => match e {
            PublicationEventView::Failed(_) => PublicationFlowView {
                stage: PublicationStage::Finished,
                rollback_safe: false,
                ..f
            },
            PublicationEventView::Result(r) => match plan_state_of(r, f.plan) {
                PlanState::Exact => publication_done(f),
                PlanState::Empty => PublicationFlowView {
                    stage: PublicationStage::Finished,
                    rollback_safe: true,
                    ..f
                },
                PlanState::Other => publication_failed(
                    f,
                    conflict_of("daemon resolver ownership is ambiguous after publication"@),
                    false,
                ),
            },
        },
        PublicationStage::Finished => f,
    }
}

/// A publication that has just begun.
pub open spec fn publication_begun(plan: ResolverPlanIdentity) -> PublicationFlowView {
    PublicationFlowView {
        stage: PublicationStage::ReadPlan,
        plan,
        error: None,
        rollback_safe: true,
    }
}

impl PublicationFlow {
    /// Begins the publication of an activation's plan.
    pub fn begin(plan: ResolverPlanIdentity) -> (r: PublicationFlow)
        ensures
            r@ == publication_begun(plan),
    {
        PublicationFlow {
            stage: PublicationStage::ReadPlan,
            plan,
            error: None,
            rollback_safe: true,
        }
    }

    fn fail(self, e: Fault, safe: bool) -> (r: PublicationFlow)
        ensures
            r@ == publication_failed(self@, e@, safe),
    {
        PublicationFlow {
            stage: PublicationStage::Finished,
            error: Some(e),
            rollback_safe: safe,
            ..self
        }
    }

    fn done(self) -> (r: PublicationFlow)
        ensures
            r@ == publication_done(self@),
    {
        PublicationFlow { stage: PublicationStage::Finished, error: None, ..self }
    }

    fn publishable(&self, result: &SystemResult) -> (r: bool)
        ensures
            r == may_publish(*result, self@.plan),
    {
        match (result.activation_id, result.active_generation) {
            (None, None) => true,
            (Some(id), Some(current)) => id == self.plan.activation_id && current
                < self.plan.generation,
            _ => false,
        }
    }

    /// Goes on from what the daemon answered.
    pub fn step(self, event: PublicationEvent) -> (r: PublicationFlow)
        ensures
            r@ == publication_step(self@, event@),
    {
        match (self.stage, event) {
            (PublicationStage::ReadPlan, PublicationEvent::Failed(e)) => self.fail(e, true),
            (PublicationStage::ReadPlan, PublicationEvent::Result(result)) => {
                if plan_state(&result, self.plan.activation_id, self.plan.generation)
                    == PlanState::Exact {
                    self.done()
                } else if self.publishable(&result) {
                    PublicationFlow { stage: PublicationStage::Publish, ..self }
                } else {
                    self.fail(
                        conflict("daemon resolver ownership differs from the activation record"),
                        false,
                    )
                }
            },
            (PublicationStage::Publish, PublicationEvent::Failed(e)) => PublicationFlow {
                stage: PublicationStage::ReadAgain,
                error: Some(e),
                ..self
            },
            (PublicationStage::Publish, PublicationEvent::Result(result)) => match plan_state(
                &result,
                self.plan.activation_id,
                self.plan.generation,
            ) {
                PlanState::Exact => self.done(),
                PlanState::Empty => self.fail(
                    invalid_data("daemon did not commit the resolver plan"),
                    true,
                ),
                PlanState::Other => self.fail(
                    conflict("daemon resolver ownership changed during publication"),
                    false,
                ),
            },
            (PublicationStage::ReadAgain, PublicationEvent::Failed(_)) => PublicationFlow {
                stage: PublicationStage::Finished,
                rollback_safe: false,
                ..self
            },
            (PublicationStage::ReadAgain, PublicationEvent::Result(result)) => match plan_state(
                &result,
                self.plan.activation_id,
                self.plan.generation,
            ) {
                PlanState::Exact => self.done(),
                PlanState::Empty => PublicationFlow {
                    stage: PublicationStage::Finished,
                    rollback_safe: true,
                    ..self
                },
                PlanState::Other => self.fail(
                    conflict("daemon resolver ownership is ambiguous after publication"),
                    false,
                ),
            },
            (PublicationStage::Finished, _) => self,
        }
    }
}

// ---------------------------------------------------------------------------
// Reconciliation
// ---------------------------------------------------------------------------

/// What a reconciliation does next.
#[derive(Debug, Clone, Copy, PartialEq, Eq, Structural)]
pub enum ReconcileStage {
    /// Observe the link.
    Observe,
    /// See whether the activation has to be rebased on it.
    Compare,
    /// Wait for a steady drift.
    WaitSteady,
    /// Rebase the activation.
    Rebase,
    /// Take the upstreams from the rebased activation.
    ReadUpstreams,
    /// Publish the plan where the daemon does not serve it.
    Publish,
    /// The activation is still the supervised one.
    Load,
    /// Nothing: the reconciliation is over.
    Finished,
}

/// What came of what was to be done.
#[derive(Debug)]
pub enum ReconcileEvent {
    Done,
    Failed(Fault),
    /// Whether the link could be observed.
    Observed(bool),
    /// Whether the activation has to be rebased, where that could be said.
    Compared(Option<bool>),
    /// Whether the drift stays.
    Steady(bool),
    /// The activation is rebased; whether the supervision was stopped meanwhile.
    Rebased(bool),
    /// Whether the activation is the supervised one, where it could be read.
    Loaded(Option<bool>),
}

/// An event over plain values.
pub enum ReconcileEventView {
    Done,
    Failed(FaultView),
    Observed(bool),
    Compared(Option<bool>),
    Steady(bool),
    Rebased(bool),
    Loaded(Option<bool>),
}

impl View for ReconcileEvent {
    type V = ReconcileEventView;

    open spec fn view(&self) -> ReconcileEventView {
        match self {
            ReconcileEvent::Done => ReconcileEventView::Done,
            ReconcileEvent::Failed(e) => ReconcileEventView::Failed(e@),
            ReconcileEvent::Observed(b) => ReconcileEventView::Observed(*b),
            ReconcileEvent::Compared(b) => ReconcileEventView::Compared(*b),
            ReconcileEvent::Steady(b) => ReconcileEventView::Steady(*b),
            ReconcileEvent::Rebased(b) => ReconcileEventView::Rebased(*b),
            ReconcileEvent::Loaded(b) => ReconcileEventView::Loaded(*b),
        }
    }
}

/// How far a reconciliation has come.
#[derive(Debug)]
pub struct ReconcileFlow {
    pub stage: ReconcileStage,
    pub stopped_after_rebase: bool,
    pub error: Option<Fault>,
}

/// A reconciliation over plain values.
pub struct ReconcileView {
    pub stage: ReconcileStage,
    pub stopped_after_rebase: bool,
    pub error: Option<FaultView>,
}

impl View for ReconcileFlow {
    type V = ReconcileView;

    open spec fn view(&self) -> ReconcileView {
        ReconcileView {
            stage: self.stage,
            stopped_after_rebase: self.stopped_after_rebase,
            error: option_fault(self.error),
        }
    }
}

pub open spec fn reconcile_at(f: ReconcileView, stage: ReconcileStage) -> ReconcileView {
    ReconcileView { stage, ..f }
}

pub open spec fn reconcile_ended(f: ReconcileView, e: FaultView) -> ReconcileView {
    ReconcileView { stage: ReconcileStage::Finished, error: Some(e), ..f }
}

/// Where a reconciliation goes from an event. An event that does not belong to
/// the stage changes nothing.
pub open spec fn reconcile_step(f: ReconcileView, e: ReconcileEventView) -> ReconcileView {
    match e {
        ReconcileEventView::Failed(x) => if f.stage == ReconcileStage::Finished {
            f
        } else {
            reconcile_ended(f, x)
        },
        ReconcileEventView::Observed(found) => if f.stage == ReconcileStage::Observe {
            reconcile_at(
                f,
                if found {
                    ReconcileStage::Compare
                } else {
                    ReconcileStage::Publish
                },
            )
        } else {
            f
        },
        ReconcileEventView::Compared(rebase) => if f.stage == ReconcileStage::Compare {
            reconcile_at(
                f,
                if rebase == Some(true) {
                    ReconcileStage::WaitSteady
                } else {
                    ReconcileStage::Publish
                },
            )
        } else {
            f
        },
        ReconcileEventView::Steady(stays) => if f.stage == ReconcileStage::WaitSteady {
            reconcile_at(
                f,
                if stays {
                    ReconcileStage::Rebase
                } else {
                    ReconcileStage::Publish
                },
            )
        } else {
            f
        },
        ReconcileEventView::Rebased(stopped) => if f.stage == ReconcileStage::Rebase {
            ReconcileView {
                stage: ReconcileStage::ReadUpstreams,
                stopped_after_rebase: stopped,
                ..f
            }
        } else {
            f
        },
        ReconcileEventView::Done => match f.stage {
            ReconcileStage::ReadUpstreams => reconcile_at(f, ReconcileStage::Publish),
            ReconcileStage::Publish => if f.stopped_after_rebase {
                reconcile_ended(
                    f,
                    FaultView {
                        kind: FaultKind::Interrupted,
                        message: "resolver supervision was stopped after rebase settlement"@,
                    },
                )
            } else {
                reconcile_at(f, ReconcileStage::Load)
            },
            _ => f,
        },
        ReconcileEventView::Loaded(same_record) => if f.stage == ReconcileStage::Load {
            if same_record == Some(false) {
                reconcile_ended(
                    f,
                    conflict_of("resolver activation record changed while supervised"@),
                )
            } else {
                reconcile_at(f, ReconcileStage::Finished)
            }
        } else {
            f
        },
    }
}

/// A reconciliation that has just begun.
pub open spec fn reconcile_begun() -> ReconcileView {
    ReconcileView { stage: ReconcileStage::Observe, stopped_after_rebase: false, error: None }
}

impl ReconcileFlow {
    /// Begins a reconciliation.
    pub fn begin() -> (r: ReconcileFlow)
        ensures
            r@ == reconcile_begun(),
    {
        ReconcileFlow { stage: ReconcileStage::Observe, stopped_after_rebase: false, error: None }
    }

    fn go(self, stage: ReconcileStage) -> (r: ReconcileFlow)
        ensures
            r@ == reconcile_at(self@, stage),
    {
        ReconcileFlow { stage, ..self }
    }

    fn end(self, e: Fault) -> (r: ReconcileFlow)
        ensures
            r@ == reconcile_ended(self@, e@),
    {
        ReconcileFlow { stage: ReconcileStage::Finished, error: Some(e), ..self }
    }

    /// Goes on from what came of the last action.
    pub fn step(self, event: ReconcileEvent) -> (r: ReconcileFlow)
        ensures
            r@ == reconcile_step(self@, event@),
    {
        match (self.stage, event) {
            (ReconcileStage::Finished, _) => self,
            (_, ReconcileEvent::Failed(e)) => self.end(e),
            (ReconcileStage::Observe, ReconcileEvent::Observed(found)) => if found {
                self.go(ReconcileStage::Compare)
            } else {
                self.go(ReconcileStage::Publish)
            },
            (ReconcileStage::Compare, ReconcileEvent::Compared(rebase)) => match rebase {
                Some(true) => self.go(ReconcileStage::WaitSteady),
                _ => self.go(ReconcileStage::Publish),
            },
            (ReconcileStage::WaitSteady, ReconcileEvent::Steady(stays)) => if stays {
                self.go(ReconcileStage::Rebase)
            } else {
                self.go(ReconcileStage::Publish)
            },
            (ReconcileStage::Rebase, ReconcileEvent::Rebased(stopped)) => ReconcileFlow {
                stage: ReconcileStage::ReadUpstreams,
                stopped_after_rebase: stopped,
                ..self
            },
            (ReconcileStage::ReadUpstreams, ReconcileEvent::Done) => self.go(
                ReconcileStage::Publish,
            ),
            (ReconcileStage::Publish, ReconcileEvent::Done) => if self.stopped_after_rebase {
                self.end(
                    fault(
                        FaultKind::Interrupted,
                        "resolver supervision was stopped after rebase settlement",
                    ),
                )
            } else {
                self.go(ReconcileStage::Load)
            },
            (ReconcileStage::Load, ReconcileEvent::Loaded(same_record)) => match same_record {
                Some(false) => self.end(
                    conflict("resolver activation record changed while supervised"),
                ),
                _ => self.go(ReconcileStage::Finished),
            },
            _ => self,
        }
    }
}

// ---------------------------------------------------------------------------
// Stabilization
// ---------------------------------------------------------------------------

/// What stabilization does next.
#[derive(Debug, Clone, Copy, PartialEq, Eq, Structural)]
pub enum StabilizeStage {
    /// Read the activation.
    Load,
    /// Recover an activation in transition.
    Recover,
    /// Wait for a stable observation of the link.
    WaitStable,
    /// See whether the activation has to be rebased on it.
    Compare,
    Rebase,
    /// The activation and the link are stable.
    Stable,
    /// There is no activation.
    Absent,
    Failed,
}

/// What came of what was to be done.
#[derive(Debug)]
pub enum StabilizeEvent {
    Done,
    Failed(Fault),
    /// The phase of the activation, where there is one.
    Activation(Option<ActivationPhase>),
    /// Whether the activation has to be rebased.
    Compared(bool),
}

/// An event over plain values.
pub enum StabilizeEventView {
    Done,
    Failed(FaultView),
    Activation(Option<ActivationPhase>),
    Compared(bool),
}

impl View for StabilizeEvent {
    type V = StabilizeEventView;

    open spec fn view(&self) -> StabilizeEventView {
        match self {
            StabilizeEvent::Done => StabilizeEventView::Done,
            StabilizeEvent::Failed(e) => StabilizeEventView::Failed(e@),
            StabilizeEvent::Activation(p) => StabilizeEventView::Activation(*p),
            StabilizeEvent::Compared(b) => StabilizeEventView::Compared(*b),
        }
    }
}

/// How far stabilization has come.
#[derive(Debug)]
pub struct StabilizeFlow {
    pub stage: StabilizeStage,
    pub error: Option<Fault>,
}

/// Stabilization over plain values.
pub struct StabilizeView {
    pub stage: StabilizeStage,
    pub error: Option<FaultView>,
}

impl View for StabilizeFlow {
    type V = StabilizeView;

    open spec fn view(&self) -> StabilizeView {
        StabilizeView { stage: self.stage, error: option_fault(self.error) }
    }
}

/// Whether stabilization is over.
pub open spec fn stabilize_over(stage: StabilizeStage) -> bool {
    stage == StabilizeStage::Stable || stage == StabilizeStage::Absent || stage
        == StabilizeStage::Failed
}

pub open spec fn stabilize_at(stage: StabilizeStage) -> StabilizeView {
    StabilizeView { stage, error: None }
}

/// Where stabilization goes from an event. An event that does not belong to the
/// stage changes nothing. It begins anew behind each recovery and each rebase.
pub open spec fn stabilize_step(f: StabilizeView, e: StabilizeEventView) -> StabilizeView {
    match e {
        StabilizeEventView::Failed(x) => if stabilize_over(f.stage) {
            f
        } else {
            StabilizeView { stage: StabilizeStage::Failed, error: Some(x) }
        },
        StabilizeEventView::Activation(p) => match f.stage {
            StabilizeStage::Load => match p {
                None => stabilize_at(StabilizeStage::Absent),
                Some(phase) => stabilize_at(
                    if phase == ActivationPhase::Active {
                        StabilizeStage::WaitStable
                    } else {
                        StabilizeStage::Recover
                    },
                ),
            },
            StabilizeStage::Recover => stabilize_at(
                if p is Some {
                    StabilizeStage::Load
                } else {
                    StabilizeStage::Absent
                },
            ),
            _ => f,
        },
        StabilizeEventView::Compared(rebase) => if f.stage == StabilizeStage::Compare {
            stabilize_at(
                if rebase {
                    StabilizeStage::Rebase
                } else {
                    StabilizeStage::Stable
                },
            )
        } else {
            f
        },
        StabilizeEventView::Done => match f.stage {
            StabilizeStage::WaitStable => stabilize_at(StabilizeStage::Compare),
            StabilizeStage::Rebase => stabilize_at(StabilizeStage::Load),
            _ => f,
        },
    }
}

impl StabilizeFlow {
    /// Begins to stabilize an activation.
    pub fn begin() -> (r: StabilizeFlow)
        ensures
            r@ == stabilize_at(StabilizeStage::Load),
    {
        StabilizeFlow { stage: StabilizeStage::Load, error: None }
    }

    fn at(stage: StabilizeStage) -> (r: StabilizeFlow)
        ensures
            r@ == stabilize_at(stage),
    {
        StabilizeFlow { stage, error: None }
    }

    /// Goes on from what came of the last action.
    pub fn step(self, event: StabilizeEvent) -> (r: StabilizeFlow)
        ensures
            r@ == stabilize_step(self@, event@),
    {
        match (self.stage, event) {
            (StabilizeStage::Stable, _)
            | (StabilizeStage::Absent, _)
            | (StabilizeStage::Failed, _) => self,
            (_, StabilizeEvent::Failed(e)) => StabilizeFlow {
                stage: StabilizeStage::Failed,
                error: Some(e),
            },
            (StabilizeStage::Load, StabilizeEvent::Activation(p)) => match p {
                None => StabilizeFlow::at(StabilizeStage::Absent),
                Some(ActivationPhase::Active) => StabilizeFlow::at(StabilizeStage::WaitStable),
                Some(_) => StabilizeFlow::at(StabilizeStage::Recover),
            },
            (StabilizeStage::Recover, StabilizeEvent::Activation(p)) => match p {
                Some(_) => StabilizeFlow::at(StabilizeStage::Load),
                None => StabilizeFlow::at(StabilizeStage::Absent),
            },
            (StabilizeStage::Compare, StabilizeEvent::Compared(rebase)) => if rebase {
                StabilizeFlow::at(StabilizeStage::Rebase)
            } else {
                StabilizeFlow::at(StabilizeStage::Stable)
            },
            (StabilizeStage::WaitStable, StabilizeEvent::Done) => StabilizeFlow::at(
                StabilizeStage::Compare,
            ),
            (StabilizeStage::Rebase, StabilizeEvent::Done) => StabilizeFlow::at(
                StabilizeStage::Load,
            ),
            _ => self,
        }
    }
}

/// What is known of an activation that was stabilized.
#[derive(Debug, Clone, Copy, PartialEq, Eq, Structural)]
pub struct StableActivation {
    pub phase: ActivationPhase,
    pub link: u32,
    pub requires_rebase: bool,
}

/// Accepts the convergence of a rollback on the previous activation.
pub fn require_converged(stable: Option<StableActivation>, link: u32) -> (r: Result<(), Fault>)
    ensures
        agrees(
            r,
            match stable {
                None => Some(
                    conflict_of("the update rollback has no resolver activation to converge"@),
                ),
                Some(a) => if a.phase != ActivationPhase::Active || a.link != link
                    || a.requires_rebase {
                    Some(
                        conflict_of(
                            "the update rollback could not converge exact resolver ownership"@,
                        ),
                    )
                } else {
                    None
                },
            },
        ),
{
    match stable {
        None => Err(conflict("the update rollback has no resolver activation to converge")),
        Some(a) => if a.phase != ActivationPhase::Active || a.link != link || a.requires_rebase {
            Err(conflict("the update rollback could not converge exact resolver ownership"))
        } else {
            Ok(())
        },
    }
}

// ---------------------------------------------------------------------------
// Activation
// ---------------------------------------------------------------------------

/// Whether an activation was made or found.
#[derive(Debug, Clone, Copy, PartialEq, Eq, Structural)]
pub enum ActivationProvenance {
    New,
    Recovered,
}

/// What the start of a supervisor does next.
#[derive(Debug, Clone, Copy, PartialEq, Eq, Structural)]
pub enum StartupStage {
    /// Wait for the daemon's channel.
    WaitForChannel,
    /// Connect to the resolver.
    Connect,
    /// Read the activation.
    Load,
    /// Wait for a stable observation of the link.
    WaitStable,
    /// See whether the supervision was stopped.
    CheckRunning,
    /// See whether the activation has to be rebased on the link.
    Compare,
    Rebase,
    /// Recover the activation.
    Recover,
    /// See again whether the supervision was stopped.
    CheckStillRunning,
    /// Number the activation to be made.
    Prepare,
    /// Make the activation.
    Activate,
    /// Undo an activation that failed.
    Abort,
    /// Take the upstreams from the activation.
    ReadUpstreams,
    /// Publish the plan where the daemon does not serve it.
    Publish,
    /// Read the new activation, to undo it.
    LoadForRollback,
    /// Undo the new activation.
    Deactivate,
    /// The activation is supervised from here.
    Running,
    Failed,
}

/// What came of what was to be done.
#[derive(Debug)]
pub enum StartupEvent {
    Done,
    Failed(Fault),
    /// The publication failed; whether the activation can be undone.
    Unpublished(Fault, bool),
    /// The phase and the link of the activation, where there is one.
    Activation(Option<(ActivationPhase, u32)>),
    /// Whether the supervision was stopped.
    Stopped(bool),
    /// Whether the activation has to be rebased.
    Compared(bool),
}

/// An event over plain values.
pub enum StartupEventView {
    Done,
    Failed(FaultView),
    Unpublished(FaultView, bool),
    Activation(Option<(ActivationPhase, u32)>),
    Stopped(bool),
    Compared(bool),
}

impl View for StartupEvent {
    type V = StartupEventView;

    open spec fn view(&self) -> StartupEventView {
        match self {
            StartupEvent::Done => StartupEventView::Done,
            StartupEvent::Failed(e) => StartupEventView::Failed(e@),
            StartupEvent::Unpublished(e, safe) => StartupEventView::Unpublished(e@, *safe),
            StartupEvent::Activation(a) => StartupEventView::Activation(*a),
            StartupEvent::Stopped(b) => StartupEventView::Stopped(*b),
            StartupEvent::Compared(b) => StartupEventView::Compared(*b),
        }
    }
}

/// How far the start of a supervisor has come.
#[derive(Debug)]
pub struct StartupFlow {
    pub stage: StartupStage,
    pub link: u32,
    /// Whether the lifecycle allows an activation to be made.
    pub creation_allowed: bool,
    pub loaded: Option<ActivationPhase>,
    /// Whether a stable observation of the link was made.
    pub observed: bool,
    pub provenance: ActivationProvenance,
    pub error: Option<Fault>,
}

/// A start over plain values.
pub struct StartupView {
    pub stage: StartupStage,
    pub link: u32,
    pub creation_allowed: bool,
    pub loaded: Option<ActivationPhase>,
    pub observed: bool,
    pub provenance: ActivationProvenance,
    pub error: Option<FaultView>,
}

impl View for StartupFlow {
    type V = StartupView;

    open spec fn view(&self) -> StartupView {
        StartupView {
            stage: self.stage,
            link: self.link,
            creation_allowed: self.creation_allowed,
            loaded: self.loaded,
            observed: self.observed,
            provenance: self.provenance,
            error: option_fault(self.error),
        }
    }
}

pub open spec fn startup_at(f: StartupView, stage: StartupStage) -> StartupView {
    StartupView { stage, ..f }
}

pub open spec fn startup_ended(f: StartupView, e: FaultView) -> StartupView {
    StartupView { stage: StartupStage::Failed, error: Some(e), ..f }
}

pub open spec fn startup_stopped_of() -> FaultView {
    FaultView { kind: FaultKind::Interrupted, message: "resolver startup was stopped"@ }
}

/// A failure behind the activation: one that was made is undone where the daemon
/// is known not to serve its plan.
pub open spec fn startup_unwound(f: StartupView, e: FaultView, safe: bool) -> StartupView {
    if f.provenance == ActivationProvenance::New && safe {
        StartupView { stage: StartupStage::LoadForRollback, error: Some(e), ..f }
    } else {
        startup_ended(f, e)
    }
}

/// Accepts an activation in force on the configured link.
pub open spec fn startup_accepted(
    f: StartupView,
    a: (ActivationPhase, u32),
    provenance: ActivationProvenance,
) -> StartupView {
    if a.0 != ActivationPhase::Active || a.1 != f.link {
        startup_ended(f, conflict_of("resolver activation does not match the configured link"@))
    } else {
        StartupView { stage: StartupStage::ReadUpstreams, provenance, ..f }
    }
}

/// Behind the check that the supervision was not stopped.
pub open spec fn startup_running(f: StartupView) -> StartupView {
    startup_at(
        f,
        if f.loaded == Some(ActivationPhase::Active) && f.observed {
            StartupStage::Compare
        } else {
            StartupStage::Recover
        },
    )
}

/// Where a start goes once an action succeeded.
pub open spec fn startup_done(f: StartupView) -> StartupView {
    match f.stage {
        StartupStage::WaitForChannel => startup_at(f, StartupStage::Connect),
        StartupStage::Connect => startup_at(f, StartupStage::Load),
        StartupStage::WaitStable => StartupView {
            stage: StartupStage::CheckRunning,
            observed: true,
            ..f
        },
        StartupStage::Prepare => startup_at(f, StartupStage::Activate),
        StartupStage::Rebase => StartupView {
            stage: StartupStage::ReadUpstreams,
            provenance: ActivationProvenance::Recovered,
            ..f
        },
        StartupStage::Abort => startup_at(f, StartupStage::Failed),
        StartupStage::ReadUpstreams => startup_at(f, StartupStage::Publish),
        StartupStage::Publish => startup_at(f, StartupStage::Running),
        StartupStage::Deactivate => startup_at(f, StartupStage::Failed),
        _ => f,
    }
}

/// Where a start goes once an action failed.
pub open spec fn startup_failed(f: StartupView, e: FaultView) -> StartupView {
    match f.stage {
        StartupStage::Recover | StartupStage::Activate => StartupView {
            stage: StartupStage::Abort,
            error: Some(e),
            ..f
        },
        StartupStage::ReadUpstreams => startup_unwound(f, e, true),
        StartupStage::Running | StartupStage::Failed => f,
        _ => startup_ended(f, e),
    }
}

/// Where a start goes with an activation.
pub open spec fn startup_activation(f: StartupView, a: Option<(ActivationPhase, u32)>) -> StartupView {
    match f.stage {
        StartupStage::Load => {
            let loaded = match a {
                Some(v) => Some(v.0),
                None => None,
            };
            StartupView {
                stage: if loaded == Some(ActivationPhase::Active) || (loaded is None
                    && f.creation_allowed) {
                    StartupStage::WaitStable
                } else {
                    StartupStage::CheckRunning
                },
                loaded,
                ..f
            }
        },
        StartupStage::Recover => match a {
            Some(v) => startup_accepted(f, v, ActivationProvenance::Recovered),
            None => if f.creation_allowed {
                startup_at(f, StartupStage::CheckStillRunning)
            } else {
                startup_ended(
                    f,
                    conflict_of(
                        "the durable lifecycle phase does not authorize new resolver ownership"@,
                    ),
                )
            },
        },
        StartupStage::Activate => match a {
            Some(v) => startup_accepted(f, v, ActivationProvenance::New),
            None => f,
        },
        StartupStage::LoadForRollback => match a {
            Some(_) => startup_at(f, StartupStage::Deactivate),
            None => startup_ended(
                f,
                conflict_of("new resolver activation disappeared before rollback"@),
            ),
        },
        _ => f,
    }
}

/// Where a start goes from an event. An event that does not belong to the stage
/// changes nothing.
pub open spec fn startup_step(f: StartupView, e: StartupEventView) -> StartupView {
    match e {
        StartupEventView::Done => startup_done(f),
        StartupEventView::Failed(x) => startup_failed(f, x),
        StartupEventView::Unpublished(x, safe) => if f.stage == StartupStage::Publish {
            startup_unwound(f, x, safe)
        } else {
            f
        },
        StartupEventView::Activation(a) => startup_activation(f, a),
        StartupEventView::Stopped(stopped) => match f.stage {
            StartupStage::CheckRunning => if stopped {
                startup_ended(f, startup_stopped_of())
            } else {
                startup_running(f)
            },
            StartupStage::CheckStillRunning => if stopped {
                startup_ended(f, startup_stopped_of())
            } else if f.observed {
                startup_at(f, StartupStage::Prepare)
            } else {
                startup_ended(
                    f,
                    conflict_of(
                        "new resolver ownership has no stable native-manager observation"@,
                    ),
                )
            },
            _ => f,
        },
        StartupEventView::Compared(rebase) => if f.stage == StartupStage::Compare {
            startup_at(
                f,
                if rebase {
                    StartupStage::Rebase
                } else {
                    StartupStage::Recover
                },
            )
        } else {
            f
        },
    }
}

pub open spec fn startup_begun(link: u32, creation_allowed: bool) -> StartupView {
    StartupView {
        stage: StartupStage::WaitForChannel,
        link,
        creation_allowed,
        loaded: None,
        observed: false,
        provenance: ActivationProvenance::Recovered,
        error: None,
    }
}

/// The failure of a start that was stopped.
pub fn startup_stopped() -> (r: Fault)
    ensures
        r@ == startup_stopped_of(),
{
    fault(FaultKind::Interrupted, "resolver startup was stopped")
}

impl StartupFlow {
    /// Begins the start of a supervisor.
    pub fn begin(link: u32, creation_allowed: bool) -> (r: StartupFlow)
        ensures
            r@ == startup_begun(link, creation_allowed),
    {
        StartupFlow {
            stage: StartupStage::WaitForChannel,
            link,
            creation_allowed,
            loaded: None,
            observed: false,
            provenance: ActivationProvenance::Recovered,
            error: None,
        }
    }

    fn go(self, stage: StartupStage) -> (r: StartupFlow)
        ensures
            r@ == startup_at(self@, stage),
    {
        StartupFlow { stage, ..self }
    }

    fn end(self, e: Fault) -> (r: StartupFlow)
        ensures
            r@ == startup_ended(self@, e@),
    {
        StartupFlow { stage: StartupStage::Failed, error: Some(e), ..self }
    }

    fn unwind(self, e: Fault, safe: bool) -> (r: StartupFlow)
        ensures
            r@ == startup_unwound(self@, e@, safe),
    {
        if self.provenance == ActivationProvenance::New && safe {
            StartupFlow { stage: StartupStage::LoadForRollback, error: Some(e), ..self }
        } else {
            self.end(e)
        }
    }

    fn accept(self, a: (ActivationPhase, u32), provenance: ActivationProvenance) -> (r: StartupFlow)
        ensures
            r@ == startup_accepted(self@, a, provenance),
    {
        if a.0 != ActivationPhase::Active || a.1 != self.link {
            return self.end(conflict("resolver activation does not match the configured link"));
        }
        StartupFlow { stage: StartupStage::ReadUpstreams, provenance, ..self }
    }

    fn done(self) -> (r: StartupFlow)
        ensures
            r@ == startup_done(self@),
    {
        match self.stage {
            StartupStage::WaitForChannel => self.go(StartupStage::Connect),
            StartupStage::Connect => self.go(StartupStage::Load),
            StartupStage::WaitStable => StartupFlow {
                stage: StartupStage::CheckRunning,
                observed: true,
                ..self
            },
            StartupStage::Prepare => self.go(StartupStage::Activate),
            StartupStage::Rebase => StartupFlow {
                stage: StartupStage::ReadUpstreams,
                provenance: ActivationProvenance::Recovered,
                ..self
            },
            StartupStage::Abort => self.go(StartupStage::Failed),
            StartupStage::ReadUpstreams => self.go(StartupStage::Publish),
            StartupStage::Publish => self.go(StartupStage::Running),
            StartupStage::Deactivate => self.go(StartupStage::Failed),
            _ => self,
        }
    }

    fn failed(self, e: Fault) -> (r: StartupFlow)
        ensures
            r@ == startup_failed(self@, e@),
    {
        match self.stage {
            StartupStage::Recover | StartupStage::Activate => StartupFlow {
                stage: StartupStage::Abort,
                error: Some(e),
                ..self
            },
            StartupStage::ReadUpstreams => self.unwind(e, true),
            StartupStage::Running | StartupStage::Failed => self,
            _ => self.end(e),
        }
    }

    fn activation(self, a: Option<(ActivationPhase, u32)>) -> (r: StartupFlow)
        ensures
            r@ == startup_activation(self@, a),
    {
        match self.stage {
            StartupStage::Load => {
                let loaded = match a {
                    Some(v) => Some(v.0),
                    None => None,
                };
                let wait = match a {
                    Some(v) => v.0 == ActivationPhase::Active,
                    None => self.creation_allowed,
                };
                let stage = if wait {
                    StartupStage::WaitStable
                } else {
                    StartupStage::CheckRunning
                };
                StartupFlow { stage, loaded, ..self }
            },
            StartupStage::Recover => match a {
                Some(v) => self.accept(v, ActivationProvenance::Recovered),
                None => if self.creation_allowed {
                    self.go(StartupStage::CheckStillRunning)
                } else {
                    self.end(
                        conflict(
                            "the durable lifecycle phase does not authorize new resolver ownership",
                        ),
                    )
                },
            },
            StartupStage::Activate => match a {
                Some(v) => self.accept(v, ActivationProvenance::New),
                None => self,
            },
            StartupStage::LoadForRollback => match a {
                Some(_) => self.go(StartupStage::Deactivate),
                None => self.end(
                    conflict("new resolver activation disappeared before rollback"),
                ),
            },
            _ => self,
        }
    }

    fn checked(self, stopped: bool) -> (r: StartupFlow)
        ensures
            r@ == startup_step(self@, StartupEventView::Stopped(stopped)),
    {
        match self.stage {
            StartupStage::CheckRunning => {
                if stopped {
                    return self.end(startup_stopped());
                }
                let active = match self.loaded {
                    Some(phase) => phase == ActivationPhase::Active,
                    None => false,
                };
                if active && self.observed {
                    self.go(StartupStage::Compare)
                } else {
                    self.go(StartupStage::Recover)
                }
            },
            StartupStage::CheckStillRunning => {
                if stopped {
                    return self.end(startup_stopped());
                }
                if self.observed {
                    self.go(StartupStage::Prepare)
                } else {
                    self.end(
                        conflict("new resolver ownership has no stable native-manager observation"),
                    )
                }
            },
            _ => self,
        }
    }

    /// Goes on from what came of the last action.
    pub fn step(self, event: StartupEvent) -> (r: StartupFlow)
        ensures
            r@ == startup_step(self@, event@),
    {
        match event {
            StartupEvent::Done => self.done(),
            StartupEvent::Failed(e) => self.failed(e),
            StartupEvent::Unpublished(e, safe) => if self.stage == StartupStage::Publish {
                self.unwind(e, safe)
            } else {
                self
            },
            StartupEvent::Activation(a) => self.activation(a),
            StartupEvent::Stopped(stopped) => self.checked(stopped),
            StartupEvent::Compared(rebase) => if self.stage == StartupStage::Compare {
                if rebase {
                    self.go(StartupStage::Rebase)
                } else {
                    self.go(StartupStage::Recover)
                }
            } else {
                self
            },
        }
    }
}

/// The number and the second that an activation is rebased with: its current
/// number has to be on record.
pub fn rebase_stamp(current: Option<u64>, clock: Option<u128>) -> (r: Result<(u64, u64), Fault>)
    ensures
        result_view(r) == match current {
            None => Err::<(u64, u64), FaultView>(
                conflict_of("resolver rebase has no durable current generation"@),
            ),
            Some(generation) => stamp(clock, Some(generation)),
        },
{
    match current {
        None => Err(conflict("resolver rebase has no durable current generation")),
        Some(generation) => timestamp_after(clock, Some(generation)),
    }
}

/// What follows an attempt to reach the daemon.
pub fn wait_for_channel(answered: bool, now: u64, deadline: u64) -> (r: ConnectCourse)
    ensures
        r@ == if answered {
            ConnectView::Connected
        } else if now >= deadline {
            ConnectView::Failed(
                FaultView {
                    kind: FaultKind::TimedOut,
                    message: "the private daemon resolver channel did not become ready"@,
                },
            )
        } else {
            ConnectView::Retry
        },
{
    if answered {
        return ConnectCourse::Connected;
    }
    if now >= deadline {
        return ConnectCourse::Failed(
            fault(
                FaultKind::TimedOut,
                "the private daemon resolver channel did not become ready",
            ),
        );
    }
    ConnectCourse::Retry
}

// ---------------------------------------------------------------------------
// The loop
// ---------------------------------------------------------------------------

/// What wakes a supervisor.
#[derive(Debug, Clone, Copy, PartialEq, Eq, Structural)]
pub enum ServeEvent {
    Tick,
    Changed,
    StreamUnavailable,
    MonitorFailed,
    ReconnectTick,
    Shutdown,
    ShutdownLost,
}

/// What a supervisor does when it is woken.
#[derive(Debug, Clone, Copy, PartialEq, Eq, Structural)]
pub enum ServeAction {
    Reconcile,
    /// The monitor is given up; the ticks remain.
    DropMonitor,
    ConnectMonitor,
    Sleep,
    Stop,
    /// The supervision cannot be stopped any more, and ends.
    Fail,
}

pub open spec fn served(e: ServeEvent, monitored: bool) -> ServeAction {
    match e {
        ServeEvent::Tick | ServeEvent::Changed => ServeAction::Reconcile,
        ServeEvent::StreamUnavailable | ServeEvent::MonitorFailed => ServeAction::DropMonitor,
        ServeEvent::ReconnectTick => if monitored {
            ServeAction::Sleep
        } else {
            ServeAction::ConnectMonitor
        },
        ServeEvent::Shutdown => ServeAction::Stop,
        ServeEvent::ShutdownLost => ServeAction::Fail,
    }
}

/// What a supervisor does when it is woken.
pub fn serve_action(e: ServeEvent, monitored: bool) -> (r: ServeAction)
    ensures
        r == served(e, monitored),
{
    match e {
        ServeEvent::Tick | ServeEvent::Changed => ServeAction::Reconcile,
        ServeEvent::StreamUnavailable | ServeEvent::MonitorFailed => ServeAction::DropMonitor,
        ServeEvent::ReconnectTick => if monitored {
            ServeAction::Sleep
        } else {
            ServeAction::ConnectMonitor
        },
        ServeEvent::Shutdown => ServeAction::Stop,
        ServeEvent::ShutdownLost => ServeAction::Fail,
    }
}

/// What follows a reconciliation: an interruption ends the supervision without a
/// failure.
pub fn after_reconciliation(outcome: Result<(), Fault>) -> (r: Result<bool, Fault>)
    ensures
        match outcome {
            Ok(_) => r == Ok::<bool, Fault>(true),
            Err(e) => if e.kind == FaultKind::Interrupted {
                r == Ok::<bool, Fault>(false)
            } else {
                r == Err::<bool, Fault>(e)
            },
        },
{
    match outcome {
        Ok(_) => Ok(true),
        Err(e) => if e.kind == FaultKind::Interrupted {
            Ok(false)
        } else {
            Err(e)
        },
    }
}

/// What came of a change of the link.
#[derive(Debug)]
pub enum EffectCall<T> {
    Completed(Result<T, Fault>),
    /// The supervision was stopped, and the change settled behind that.
    Stopped(Result<T, Fault>),
    TimedOut,
}

/// The settled value of a change of the link, and whether the supervision was
/// stopped; one that took too long has an unknown outcome.
pub fn settled_effect<T>(call: EffectCall<T>) -> (r: Result<(T, bool), Fault>)
    ensures
        match call {
            EffectCall::Completed(Ok(v)) => r == Ok::<(T, bool), Fault>((v, false)),
            EffectCall::Stopped(Ok(v)) => r == Ok::<(T, bool), Fault>((v, true)),
            EffectCall::Completed(Err(e)) => r == Err::<(T, bool), Fault>(e),
            EffectCall::Stopped(Err(e)) => r == Err::<(T, bool), Fault>(e),
            EffectCall::TimedOut => r is Err && r->Err_0@ == (FaultView {
                kind: FaultKind::TimedOut,
                message: "the native resolver rebase has an unknown bounded outcome"@,
            }),
        },
{
    match call {
        EffectCall::Completed(result) => match result {
            Ok(v) => Ok((v, false)),
            Err(e) => Err(e),
        },
        EffectCall::Stopped(result) => match result {
            Ok(v) => Ok((v, true)),
            Err(e) => Err(e),
        },
        EffectCall::TimedOut => Err(
            fault(
                FaultKind::TimedOut,
                "the native resolver rebase has an unknown bounded outcome",
            ),
        ),
    }
}

/// What a start came to when the supervision was stopped during it: nothing to
/// supervise, where it was interrupted before it changed anything.
pub fn stopped_startup<T>(outcome: Result<T, Fault>) -> (r: Result<Option<T>, Fault>)
    ensures
        match outcome {
            Ok(v) => r == Ok::<Option<T>, Fault>(Some(v)),
            Err(e) => if e.kind == FaultKind::Interrupted {
                r == Ok::<Option<T>, Fault>(None)
            } else {
                r == Err::<Option<T>, Fault>(e)
            },
        },
{
    match outcome {
        Ok(v) => Ok(Some(v)),
        Err(e) => if e.kind == FaultKind::Interrupted {
            Ok(None)
        } else {
            Err(e)
        },
    }
}

// ---------------------------------------------------------------------------
// Laws
// ---------------------------------------------------------------------------

/// A plan is never given to a daemon that serves the plan of another activation,
/// or a later one of the same.
pub proof fn law_publication_never_overwrites(f: PublicationFlowView, r: SystemResult)
    requires
        f.stage == PublicationStage::ReadPlan,
        publication_step(f, PublicationEventView::Result(r)).stage == PublicationStage::Publish,
    ensures
        r.activation_id is Some ==> r.activation_id == Some(f.plan.activation_id)
            && r.active_generation is Some && r.active_generation->0 < f.plan.generation,
{
}

/// Where a publication comes to after some answers.
pub open spec fn publication_run(
    f: PublicationFlowView,
    events: Seq<PublicationEventView>,
) -> PublicationFlowView
    decreases events.len(),
{
    if events.len() == 0 {
        f
    } else {
        publication_step(publication_run(f, events.drop_last()), events.last())
    }
}

/// A publication that ends without a failure ends with an answer of the daemon
/// that it serves exactly the plan.
pub proof fn law_published_plans_are_served(f: PublicationFlowView, e: PublicationEventView)
    requires
        f.stage != PublicationStage::Finished,
        f.stage == PublicationStage::ReadAgain ==> f.error is Some,
        publication_step(f, e).stage == PublicationStage::Finished,
        publication_step(f, e).error is None,
    ensures
        e matches PublicationEventView::Result(r) && plan_state_of(r, f.plan) == PlanState::Exact,
{
}

/// After a publication whose outcome is not known, the activation is taken for
/// one that can be undone only where the daemon was seen to serve no plan.
pub proof fn law_unknown_publications_are_not_undone(f: PublicationFlowView, e: PublicationEventView)
    requires
        f.stage == PublicationStage::ReadAgain,
        f.error is Some,
        publication_step(f, e).rollback_safe,
        publication_step(f, e).error is Some,
    ensures
        e matches PublicationEventView::Result(r) && plan_state_of(r, f.plan) == PlanState::Empty,
{
}

/// Where a start comes to after some events.
pub open spec fn startup_run(f: StartupView, events: Seq<StartupEventView>) -> StartupView
    decreases events.len(),
{
    if events.len() == 0 {
        f
    } else {
        startup_step(startup_run(f, events.drop_last()), events.last())
    }
}

/// What every start keeps.
pub open spec fn startup_valid(f: StartupView) -> bool {
    &&& f.stage == StartupStage::Prepare || f.stage == StartupStage::Activate
        ==> f.creation_allowed && f.observed
    &&& f.stage == StartupStage::CheckStillRunning ==> f.creation_allowed
    &&& f.provenance == ActivationProvenance::New ==> f.creation_allowed
    &&& f.stage == StartupStage::LoadForRollback || f.stage == StartupStage::Deactivate
        ==> f.provenance == ActivationProvenance::New && f.error is Some
    &&& f.stage == StartupStage::Running ==> f.error is None
    &&& f.error is Some ==> f.stage == StartupStage::Failed || f.stage == StartupStage::Abort
        || f.stage == StartupStage::LoadForRollback || f.stage == StartupStage::Deactivate
}

/// An activation is made only where the lifecycle allows it and the link was
/// seen to be stable, and only one that was made is ever undone by a start,
/// whatever happened on the way.
pub proof fn law_activations_are_allowed_and_observed(
    link: u32,
    creation_allowed: bool,
    events: Seq<StartupEventView>,
)
    ensures
        startup_valid(startup_run(startup_begun(link, creation_allowed), events)),
    decreases events.len(),
{
    if events.len() > 0 {
        law_activations_are_allowed_and_observed(link, creation_allowed, events.drop_last());
    }
}

/// A supervised link is rebased only where it drifted and its drift stays.
pub proof fn law_rebase_needs_a_steady_drift(f: ReconcileView, e: ReconcileEventView)
    requires
        f.stage != ReconcileStage::Rebase,
        reconcile_step(f, e).stage == ReconcileStage::Rebase,
    ensures
        f.stage == ReconcileStage::WaitSteady,
        e == ReconcileEventView::Steady(true),
{
}

/// Where a reconciliation comes to after some events.
pub open spec fn reconcile_run(f: ReconcileView, events: Seq<ReconcileEventView>) -> ReconcileView
    decreases events.len(),
{
    if events.len() == 0 {
        f
    } else {
        reconcile_step(reconcile_run(f, events.drop_last()), events.last())
    }
}

/// Whether an event is the success of what a stage of a reconciliation is to do.
pub open spec fn reconcile_succeeds(stage: ReconcileStage, e: ReconcileEventView) -> bool {
    match stage {
        ReconcileStage::Observe => e is Observed,
        ReconcileStage::Compare => e is Compared,
        ReconcileStage::WaitSteady => e is Steady,
        ReconcileStage::Rebase => e is Rebased,
        ReconcileStage::Load => e is Loaded,
        ReconcileStage::Finished => false,
        ReconcileStage::ReadUpstreams | ReconcileStage::Publish => e is Done,
    }
}

/// The stages that a reconciliation has passed, in their order.
pub open spec fn reconcile_passed(f: ReconcileView, events: Seq<ReconcileEventView>) -> Seq<
    ReconcileStage,
>
    decreases events.len(),
{
    if events.len() == 0 {
        Seq::empty()
    } else {
        let before = reconcile_passed(f, events.drop_last());
        let stage = reconcile_run(f, events.drop_last()).stage;
        if reconcile_succeeds(stage, events.last()) {
            before.push(stage)
        } else {
            before
        }
    }
}

/// What a reconciliation goes through where nothing fails: whether the link could
/// be observed, whether the activation has to be rebased, and whether the drift
/// stays. Behind a rebase the upstreams are taken from the rebased activation before
/// anything is published.
pub open spec fn reconcile_course(found: bool, drifted: bool, stays: bool) -> Seq<ReconcileStage> {
    seq![ReconcileStage::Observe] + only_if(found, seq![ReconcileStage::Compare]) + only_if(
        found && drifted,
        seq![ReconcileStage::WaitSteady],
    ) + only_if(
        found && drifted && stays,
        seq![ReconcileStage::Rebase, ReconcileStage::ReadUpstreams],
    ) + seq![ReconcileStage::Publish, ReconcileStage::Load]
}

/// Whether what is found out by some events is as in a case.
pub open spec fn reconcile_is_case(
    events: Seq<ReconcileEventView>,
    found: bool,
    drifted: bool,
    stays: bool,
    stopped: bool,
) -> bool {
    forall|i: int|
        0 <= i < events.len() ==> match #[trigger] events[i] {
            ReconcileEventView::Observed(b) => b == found,
            ReconcileEventView::Compared(b) => (b == Some(true)) == drifted,
            ReconcileEventView::Steady(b) => b == stays,
            ReconcileEventView::Rebased(b) => b == stopped,
            _ => true,
        }
}

/// Whether some events hold no failure and no other record.
pub open spec fn reconcile_undisturbed(events: Seq<ReconcileEventView>) -> bool {
    forall|i: int|
        0 <= i < events.len() ==> !((#[trigger] events[i]) is Failed) && events[i]
            != ReconcileEventView::Loaded(Some(false))
}

#[verifier::spinoff_prover]
#[verifier::rlimit(60)]
proof fn lemma_reconcile_run(
    events: Seq<ReconcileEventView>,
    found: bool,
    drifted: bool,
    stays: bool,
    stopped: bool,
)
    requires
        reconcile_is_case(events, found, drifted, stays, stopped),
    ensures
        ({
            let f = reconcile_run(reconcile_begun(), events);
            let passed = reconcile_passed(reconcile_begun(), events);
            &&& f.error is None ==> on_course(
                reconcile_course(found, drifted, stays),
                passed,
                f.stage,
                ReconcileStage::Finished,
            )
            &&& f.error is Some ==> f.stage == ReconcileStage::Finished
            &&& f.error is None ==> f.stopped_after_rebase == (stopped && passed.contains(
                ReconcileStage::Rebase,
            ))
            &&& passed.contains(ReconcileStage::Rebase) ==> found && drifted && stays
            &&& f.error is None && f.stopped_after_rebase ==> f.stage
                == ReconcileStage::ReadUpstreams || f.stage == ReconcileStage::Publish
            &&& reconcile_undisturbed(events) && f.error is Some ==> {
                &&& stopped
                &&& passed == reconcile_course(found, drifted, stays).drop_last()
                &&& f.error == Some(
                    FaultView {
                        kind: FaultKind::Interrupted,
                        message: "resolver supervision was stopped after rebase settlement"@,
                    },
                )
            }
        }),
    decreases events.len(),
{
    let begun = reconcile_begun();
    let course = reconcile_course(found, drifted, stays);
    if events.len() == 0 {
        assert(reconcile_passed(begun, events) =~= course.subrange(0, 0));
    } else {
        let before = events.drop_last();
        assert forall|i: int| 0 <= i < before.len() implies match #[trigger] before[i] {
            ReconcileEventView::Observed(b) => b == found,
            ReconcileEventView::Compared(b) => (b == Some(true)) == drifted,
            ReconcileEventView::Steady(b) => b == stays,
            ReconcileEventView::Rebased(b) => b == stopped,
            _ => true,
        } by {
            assert(before[i] == events[i]);
        }
        if reconcile_undisturbed(events) {
            assert forall|i: int| 0 <= i < before.len() implies !((#[trigger] before[i]) is Failed)
                && before[i] != ReconcileEventView::Loaded(Some(false)) by {
                assert(before[i] == events[i]);
            }
        }
        lemma_reconcile_run(before, found, drifted, stays, stopped);
        let e = events[events.len() - 1];
        assert(e == events.last());
        let g = reconcile_run(begun, before);
        let h = reconcile_run(begun, events);
        let passed = reconcile_passed(begun, before);
        let now = reconcile_passed(begun, events);
        if g.error is None && reconcile_succeeds(g.stage, e) {
            assert(passed.len() < course.len());
            assert(now == passed.push(g.stage));
            assert(now[now.len() - 1] == g.stage);
            assert(forall|s: ReconcileStage| passed.contains(s) ==> now.contains(s)) by {
                assert forall|s: ReconcileStage| passed.contains(s) implies now.contains(s) by {
                    let i = choose|i: int| 0 <= i < passed.len() && passed[i] == s;
                    assert(now[i] == s);
                }
            }
            assert(now.contains(g.stage));
            if now.contains(ReconcileStage::Rebase) && g.stage != ReconcileStage::Rebase {
                let i = choose|i: int| 0 <= i < now.len() && now[i] == ReconcileStage::Rebase;
                assert(passed[i] == ReconcileStage::Rebase);
            }
            if h.error is None {
                lemma_passes(course, passed, g.stage, h.stage, ReconcileStage::Finished);
            } else if g.stage == ReconcileStage::Publish {
                assert(passed.push(g.stage) =~= course.drop_last());
            }
        }
    }
}

/// A reconciliation goes through the stages of its course one behind the other. So
/// one that ends without a failure has passed all of them, in their order, and
/// nothing else, and behind a rebase nothing is published before the upstreams were
/// taken from the rebased activation. One that was stopped during its rebase still
/// publishes the rebased plan, and ends interrupted; where nothing fails and the
/// record is the supervised one, no other failure comes.
pub proof fn law_reconciliation_follows_its_course(
    events: Seq<ReconcileEventView>,
    found: bool,
    drifted: bool,
    stays: bool,
    stopped: bool,
)
    requires
        reconcile_is_case(events, found, drifted, stays, stopped),
    ensures
        ({
            let f = reconcile_run(reconcile_begun(), events);
            let course = reconcile_course(found, drifted, stays);
            let passed = reconcile_passed(reconcile_begun(), events);
            &&& f.error is None ==> on_course(course, passed, f.stage, ReconcileStage::Finished)
            &&& f.error is None && f.stage == ReconcileStage::Finished ==> passed == course && !(
            found && drifted && stays && stopped)
            &&& reconcile_undisturbed(events) && f.error is Some ==> {
                &&& stopped
                &&& passed == course.drop_last()
                &&& f.error == Some(
                    FaultView {
                        kind: FaultKind::Interrupted,
                        message: "resolver supervision was stopped after rebase settlement"@,
                    },
                )
            }
        }),
{
    lemma_reconcile_run(events, found, drifted, stays, stopped);
    let f = reconcile_run(reconcile_begun(), events);
    let course = reconcile_course(found, drifted, stays);
    let passed = reconcile_passed(reconcile_begun(), events);
    if f.error is None && f.stage == ReconcileStage::Finished {
        assert(!course.contains(ReconcileStage::Finished));
        lemma_passed(course, passed, ReconcileStage::Finished);
        if found && drifted && stays {
            assert(course[3] == ReconcileStage::Rebase);
            assert(passed.contains(ReconcileStage::Rebase));
        }
    }
}

/// Whatever happened on the way, nothing is published behind a rebase before the
/// upstreams were read: from a rebase the only way on is to read them, and only from
/// there the rebased plan is published.
pub proof fn law_rebased_plans_have_their_own_upstreams(f: ReconcileView, e: ReconcileEventView)
    ensures
        f.stage == ReconcileStage::Rebase ==> reconcile_step(f, e).stage
            != ReconcileStage::Publish,
        f.stage == ReconcileStage::Rebase && e is Rebased ==> reconcile_step(f, e).stage
            == ReconcileStage::ReadUpstreams,
        f.stage == ReconcileStage::ReadUpstreams && reconcile_step(f, e).stage
            == ReconcileStage::Publish ==> e is Done,
        e is Failed && f.stage != ReconcileStage::Finished ==> reconcile_step(f, e).stage
            == ReconcileStage::Finished && reconcile_step(f, e).error == Some(e->Failed_0),
        f.stage == ReconcileStage::Load && e == ReconcileEventView::Loaded(Some(false))
            ==> reconcile_step(f, e).error == Some(
            conflict_of("resolver activation record changed while supervised"@),
        ),
{
}

/// What a publication comes to for each answer of the daemon: a daemon that serves
/// the plan is left alone, one that serves none or an earlier plan of the same
/// activation is given it, and no other is. What is given has to be served, and
/// where it is not known whether it is, the daemon is asked; the activation may be
/// undone only where the daemon is known to serve no plan of it.
pub proof fn law_publication_is_decided_by_the_daemon(
    plan: ResolverPlanIdentity,
    before: SystemResult,
    given: PublicationEventView,
    after: PublicationEventView,
)
    ensures
        ({
            let begun = publication_begun(plan);
            let read = publication_step(begun, PublicationEventView::Result(before));
            let exact = before.activation_id == Some(plan.activation_id)
                && before.active_generation == Some(plan.generation);
            let empty = before.activation_id is None && before.active_generation is None;
            let earlier = before.activation_id == Some(plan.activation_id)
                && before.active_generation is Some && before.active_generation->0
                < plan.generation;
            let sent = publication_step(read, given);
            let asked = publication_step(sent, after);
            &&& exact ==> read.stage == PublicationStage::Finished && read.error is None
            &&& empty || earlier ==> read.stage == PublicationStage::Publish && read.error is None
            &&& !exact && !empty && !earlier ==> read.stage == PublicationStage::Finished
                && read.error == Some(
                conflict_of("daemon resolver ownership differs from the activation record"@),
            ) && !read.rollback_safe
            &&& empty || earlier ==> match given {
                PublicationEventView::Result(r) => {
                    &&& sent.stage == PublicationStage::Finished
                    &&& sent.error is None <==> r.activation_id == Some(plan.activation_id)
                        && r.active_generation == Some(plan.generation)
                    &&& sent.error is Some ==> (sent.rollback_safe <==> r.activation_id is None
                        && r.active_generation is None)
                },
                PublicationEventView::Failed(x) => {
                    &&& sent.stage == PublicationStage::ReadAgain
                    &&& asked.stage == PublicationStage::Finished
                    &&& match after {
                        PublicationEventView::Failed(_) => asked.error == Some(x)
                            && !asked.rollback_safe,
                        PublicationEventView::Result(r) => {
                            &&& asked.error is None <==> r.activation_id == Some(
                                plan.activation_id,
                            ) && r.active_generation == Some(plan.generation)
                            &&& r.activation_id is None && r.active_generation is None
                                ==> asked.error == Some(x) && asked.rollback_safe
                            &&& asked.error is Some && !(r.activation_id is None
                                && r.active_generation is None) ==> !asked.rollback_safe
                        },
                    }
                },
            }
        }),
        forall|x: FaultView|
            ({
                let f = #[trigger] publication_step(
                    publication_begun(plan),
                    PublicationEventView::Failed(x),
                );
                f.stage == PublicationStage::Finished && f.error == Some(x) && f.rollback_safe
            }),
{
}

/// Where stabilization comes to after some events.
pub open spec fn stabilize_run(f: StabilizeView, events: Seq<StabilizeEventView>) -> StabilizeView
    decreases events.len(),
{
    if events.len() == 0 {
        f
    } else {
        stabilize_step(stabilize_run(f, events.drop_last()), events.last())
    }
}

/// Whether an event is an answer to what a stage of stabilization asks for.
pub open spec fn stabilize_answers(stage: StabilizeStage, e: StabilizeEventView) -> bool {
    match stage {
        StabilizeStage::Load | StabilizeStage::Recover => e is Activation,
        StabilizeStage::Compare => e is Compared,
        StabilizeStage::WaitStable | StabilizeStage::Rebase => e is Done,
        _ => false,
    }
}

/// The stages that stabilization has passed, each with its answer.
pub open spec fn stabilize_passed(f: StabilizeView, events: Seq<StabilizeEventView>) -> Seq<
    (StabilizeStage, StabilizeEventView),
>
    decreases events.len(),
{
    if events.len() == 0 {
        Seq::empty()
    } else {
        let before = stabilize_passed(f, events.drop_last());
        let stage = stabilize_run(f, events.drop_last()).stage;
        if stabilize_answers(stage, events.last()) {
            before.push((stage, events.last()))
        } else {
            before
        }
    }
}

/// Whether a sequence ends with another.
pub open spec fn ends_with<S>(s: Seq<S>, end: Seq<S>) -> bool {
    s.len() >= end.len() && s.subrange(s.len() - end.len(), s.len() as int) == end
}

/// What stabilization has passed where it comes to a stage: an activation is stable
/// only where it was read in force, the link was seen to be stable behind that, and
/// then nothing had to be rebased; it is read again behind each recovery and each
/// rebase.
pub proof fn law_stable_activations_were_read_and_compared(events: Seq<StabilizeEventView>)
    ensures
        ({
            let f = stabilize_run(stabilize_at(StabilizeStage::Load), events);
            let passed = stabilize_passed(stabilize_at(StabilizeStage::Load), events);
            let read = (
                StabilizeStage::Load,
                StabilizeEventView::Activation(Some(ActivationPhase::Active)),
            );
            let seen = (StabilizeStage::WaitStable, StabilizeEventView::Done);
            match f.stage {
                StabilizeStage::Load => passed.len() == 0 || ends_with(
                    passed,
                    seq![(StabilizeStage::Rebase, StabilizeEventView::Done)],
                ) || (passed.last().0 == StabilizeStage::Recover && passed.last().1
                    != StabilizeEventView::Activation(None)),
                StabilizeStage::Recover => passed.len() > 0 && passed.last().0
                    == StabilizeStage::Load && passed.last().1 != StabilizeEventView::Activation(
                    None,
                ) && passed.last() != read,
                StabilizeStage::WaitStable => ends_with(passed, seq![read]),
                StabilizeStage::Compare => ends_with(passed, seq![read, seen]),
                StabilizeStage::Rebase => ends_with(
                    passed,
                    seq![
                        read,
                        seen,
                        (StabilizeStage::Compare, StabilizeEventView::Compared(true)),
                    ],
                ),
                StabilizeStage::Stable => f.error is None && ends_with(
                    passed,
                    seq![
                        read,
                        seen,
                        (StabilizeStage::Compare, StabilizeEventView::Compared(false)),
                    ],
                ),
                StabilizeStage::Absent => f.error is None && passed.len() > 0 && passed.last().1
                    == StabilizeEventView::Activation(None),
                StabilizeStage::Failed => f.error is Some,
            }
        }),
    decreases events.len(),
{
    let begun = stabilize_at(StabilizeStage::Load);
    if events.len() > 0 {
        let before = events.drop_last();
        law_stable_activations_were_read_and_compared(before);
        let g = stabilize_run(begun, before);
        let f = stabilize_run(begun, events);
        let was = stabilize_passed(begun, before);
        let passed = stabilize_passed(begun, events);
        let e = events.last();
        if stabilize_answers(g.stage, e) {
            let n = was.len() as int;
            assert(passed == was.push((g.stage, e)));
            assert(passed.last() == (g.stage, e));
            assert(ends_with(passed, seq![(g.stage, e)])) by {
                assert(passed.subrange(n, n + 1) =~= seq![(g.stage, e)]);
            }
            if g.stage == StabilizeStage::WaitStable {
                let end = seq![was[n - 1], (g.stage, e)];
                assert(was.subrange(n - 1, n)[0] == was[n - 1]);
                assert(passed.subrange(n - 1, n + 1) =~= end);
            }
            if g.stage == StabilizeStage::Compare {
                let end = seq![was[n - 2], was[n - 1], (g.stage, e)];
                assert(was.subrange(n - 2, n)[0] == was[n - 2]);
                assert(was.subrange(n - 2, n)[1] == was[n - 1]);
                assert(passed.subrange(n - 2, n + 1) =~= end);
            }
        }
    }
}

/// Whether an event is the success of what a stage of a start is to do.
pub open spec fn startup_succeeds(stage: StartupStage, e: StartupEventView) -> bool {
    match stage {
        StartupStage::Load | StartupStage::Recover => e is Activation,
        StartupStage::Activate | StartupStage::LoadForRollback => e is Activation
            && e->Activation_0 is Some,
        StartupStage::CheckRunning | StartupStage::CheckStillRunning => e
            == StartupEventView::Stopped(false),
        StartupStage::Compare => e is Compared,
        StartupStage::Running | StartupStage::Failed => false,
        _ => e is Done,
    }
}

/// The stages that a start has passed, in their order.
pub open spec fn startup_passed(f: StartupView, events: Seq<StartupEventView>) -> Seq<StartupStage>
    decreases events.len(),
{
    if events.len() == 0 {
        Seq::empty()
    } else {
        let before = startup_passed(f, events.drop_last());
        let stage = startup_run(f, events.drop_last()).stage;
        if startup_succeeds(stage, events.last()) {
            before.push(stage)
        } else {
            before
        }
    }
}

/// What the course of a start depends on.
pub struct StartupCase {
    /// Whether the lifecycle allows an activation to be made.
    pub allowed: bool,
    /// The phase of the activation that was read, where there is one.
    pub loaded: Option<ActivationPhase>,
    /// Whether an activation in force has to be rebased.
    pub rebase: bool,
    /// Whether recovery gives an activation.
    pub recovered: bool,
}

/// Whether the link is observed before anything is decided: where it is to be
/// compared with the activation, or an activation may be made for it.
pub open spec fn startup_observes(c: StartupCase) -> bool {
    c.loaded == Some(ActivationPhase::Active) || (c.loaded is None && c.allowed)
}

/// Whether the activation is made.
pub open spec fn startup_creates(c: StartupCase) -> bool {
    !c.recovered && !(c.loaded == Some(ActivationPhase::Active) && c.rebase)
}

/// What a start goes through where nothing fails.
pub open spec fn startup_course(c: StartupCase) -> Seq<StartupStage> {
    let rebased = c.loaded == Some(ActivationPhase::Active) && c.rebase;
    seq![StartupStage::WaitForChannel, StartupStage::Connect, StartupStage::Load] + only_if(
        startup_observes(c),
        seq![StartupStage::WaitStable],
    ) + seq![StartupStage::CheckRunning] + only_if(
        c.loaded == Some(ActivationPhase::Active),
        seq![StartupStage::Compare],
    ) + only_if(rebased, seq![StartupStage::Rebase]) + only_if(
        !rebased,
        seq![StartupStage::Recover],
    ) + only_if(
        startup_creates(c),
        seq![StartupStage::CheckStillRunning, StartupStage::Prepare, StartupStage::Activate],
    ) + seq![StartupStage::ReadUpstreams, StartupStage::Publish]
}

/// Whether what is found out at a stage is as in a case.
pub open spec fn startup_fits(f: StartupView, e: StartupEventView, c: StartupCase) -> bool {
    match e {
        StartupEventView::Activation(a) => {
            &&& f.stage == StartupStage::Load ==> c.loaded == match a {
                Some(v) => Some(v.0),
                None => None,
            }
            &&& f.stage == StartupStage::Recover ==> c.recovered == (a is Some)
        },
        StartupEventView::Compared(b) => f.stage == StartupStage::Compare ==> c.rebase == b,
        _ => true,
    }
}

/// Whether what is found out in a start is as in a case.
pub open spec fn startup_is_case(f: StartupView, events: Seq<StartupEventView>, c: StartupCase) -> bool
    decreases events.len(),
{
    if events.len() == 0 {
        true
    } else {
        &&& startup_is_case(f, events.drop_last(), c)
        &&& startup_fits(startup_run(f, events.drop_last()), events.last(), c)
    }
}

/// Whether an event is no failure, and an activation that was recovered or made is
/// in force on the link, or none was recovered where one may be made.
pub open spec fn startup_agreeable(f: StartupView, e: StartupEventView, link: u32, c: StartupCase) -> bool {
    match e {
        StartupEventView::Failed(_) => false,
        StartupEventView::Unpublished(_, _) => false,
        StartupEventView::Stopped(b) => !b,
        StartupEventView::Activation(a) => f.stage == StartupStage::Recover || f.stage
            == StartupStage::Activate ==> match a {
            Some(v) => v.0 == ActivationPhase::Active && v.1 == link,
            None => c.allowed && startup_observes(c),
        },
        _ => true,
    }
}

/// Whether all events are agreeable where they come.
pub open spec fn startup_undisturbed(
    f: StartupView,
    events: Seq<StartupEventView>,
    c: StartupCase,
) -> bool
    decreases events.len(),
{
    if events.len() == 0 {
        true
    } else {
        &&& startup_undisturbed(f, events.drop_last(), c)
        &&& startup_agreeable(startup_run(f, events.drop_last()), events.last(), f.link, c)
    }
}

/// What every start keeps of its case.
spec fn startup_kept(f: StartupView, passed: Seq<StartupStage>, link: u32, c: StartupCase) -> bool {
    &&& f.link == link
    &&& f.creation_allowed == c.allowed
    &&& f.error is None ==> {
        &&& on_course(startup_course(c), passed, f.stage, StartupStage::Running)
        &&& f.stage != StartupStage::Failed
        &&& f.stage != StartupStage::WaitForChannel && f.stage != StartupStage::Connect && f.stage
            != StartupStage::Load ==> f.loaded == c.loaded
        &&& f.stage == StartupStage::CheckRunning || f.stage == StartupStage::CheckStillRunning
            || f.stage == StartupStage::Recover || f.stage == StartupStage::Compare ==> f.observed
            == startup_observes(c)
        &&& f.stage == StartupStage::WaitForChannel || f.stage == StartupStage::Connect || f.stage
            == StartupStage::Load ==> !f.observed
        &&& f.stage == StartupStage::WaitStable ==> startup_observes(c)
        &&& f.stage == StartupStage::CheckStillRunning || f.stage == StartupStage::Prepare || f.stage
            == StartupStage::Activate ==> startup_creates(c)
        &&& f.stage == StartupStage::Rebase ==> c.rebase && c.loaded == Some(
            ActivationPhase::Active,
        )
        &&& f.stage == StartupStage::Recover ==> !(c.rebase && c.loaded == Some(
            ActivationPhase::Active,
        ))
        &&& f.stage == StartupStage::ReadUpstreams || f.stage == StartupStage::Publish || f.stage
            == StartupStage::Running ==> f.provenance == if startup_creates(c) {
            ActivationProvenance::New
        } else {
            ActivationProvenance::Recovered
        }
    }
}

#[verifier::spinoff_prover]
#[verifier::rlimit(90)]
proof fn lemma_startup_next(
    f: StartupView,
    passed: Seq<StartupStage>,
    e: StartupEventView,
    link: u32,
    c: StartupCase,
)
    requires
        startup_kept(f, passed, link, c),
        f.error is None,
        startup_step(f, e).error is None,
        startup_succeeds(f.stage, e),
        startup_fits(f, e, c),
    ensures
        ({
            let course = startup_course(c);
            let n = passed.len() as int;
            &&& n < course.len()
            &&& startup_step(f, e).stage == if n + 1 < course.len() {
                course[n + 1]
            } else {
                StartupStage::Running
            }
        }),
{
}

#[verifier::spinoff_prover]
#[verifier::rlimit(60)]
proof fn lemma_startup_run(
    link: u32,
    events: Seq<StartupEventView>,
    c: StartupCase,
)
    requires
        startup_is_case(startup_begun(link, c.allowed), events, c),
    ensures
        ({
            let begun = startup_begun(link, c.allowed);
            let f = startup_run(begun, events);
            &&& startup_kept(f, startup_passed(begun, events), link, c)
            &&& startup_undisturbed(begun, events, c) ==> f.error is None && (f.stage
                == StartupStage::CheckStillRunning ==> startup_observes(c))
        }),
    decreases events.len(),
{
    let begun = startup_begun(link, c.allowed);
    let course = startup_course(c);
    if events.len() == 0 {
        assert(startup_passed(begun, events) =~= course.subrange(0, 0));
    } else {
        let before = events.drop_last();
        lemma_startup_run(link, before, c);
        let g = startup_run(begun, before);
        let h = startup_run(begun, events);
        let passed = startup_passed(begun, before);
        if h.error is None && startup_succeeds(g.stage, events.last()) {
            lemma_startup_next(g, passed, events.last(), link, c);
            lemma_passes(course, passed, g.stage, h.stage, StartupStage::Running);
        }
    }
}

/// The start of a supervisor goes through the stages of its course one behind the
/// other. So one that comes to supervise has passed all of them, in their order, and
/// nothing else: the activation is in force, its upstreams were read and its plan
/// published. Whether the activation was made or found is known from then on. Where
/// nothing fails, it never comes to a failure.
pub proof fn law_startup_follows_its_course(
    link: u32,
    events: Seq<StartupEventView>,
    c: StartupCase,
)
    requires
        startup_is_case(startup_begun(link, c.allowed), events, c),
    ensures
        ({
            let begun = startup_begun(link, c.allowed);
            let f = startup_run(begun, events);
            let passed = startup_passed(begun, events);
            &&& f.error is None ==> on_course(
                startup_course(c),
                passed,
                f.stage,
                StartupStage::Running,
            )
            &&& f.error is None && f.stage == StartupStage::Running ==> passed == startup_course(c)
                && f.provenance == (if startup_creates(c) {
                ActivationProvenance::New
            } else {
                ActivationProvenance::Recovered
            })
            &&& startup_undisturbed(begun, events, c) ==> f.error is None
        }),
{
    lemma_startup_run(link, events, c);
    let begun = startup_begun(link, c.allowed);
    let f = startup_run(begun, events);
    let course = startup_course(c);
    if f.error is None && f.stage == StartupStage::Running {
        lemma_startup_course_goes_on(c);
        lemma_passed(course, startup_passed(begun, events), StartupStage::Running);
    }
}

#[verifier::spinoff_prover]
#[verifier::rlimit(60)]
proof fn lemma_startup_course_goes_on(c: StartupCase)
    ensures
        !startup_course(c).contains(StartupStage::Running),
{
    let course = startup_course(c);
    assert(forall|i: int| 0 <= i < course.len() ==> course[i] != StartupStage::Running);
}

/// A start accepts only an activation in force on its own link.
pub proof fn law_started_activations_are_on_the_link(f: StartupView, a: (ActivationPhase, u32))
    requires
        f.stage == StartupStage::Recover || f.stage == StartupStage::Activate,
    ensures
        ({
            let g = startup_step(f, StartupEventView::Activation(Some(a)));
            &&& g.stage == StartupStage::ReadUpstreams <==> a.0 == ActivationPhase::Active && a.1
                == f.link
            &&& g.stage != StartupStage::ReadUpstreams ==> g.stage == StartupStage::Failed
                && g.error == Some(
                conflict_of("resolver activation does not match the configured link"@),
            )
        }),
{
}

/// What fails in a start is reported. A recovery or an activation that failed is
/// aborted first. Behind the activation, one that this start made is undone where
/// the daemon is known not to serve its plan, and no other is.
pub proof fn law_failed_starts_undo_what_they_made(f: StartupView, x: FaultView, safe: bool, a: (ActivationPhase, u32))
    requires
        f.stage != StartupStage::Running,
        f.stage != StartupStage::Failed,
    ensures
        ({
            let g = startup_step(f, StartupEventView::Failed(x));
            let aborts = f.stage == StartupStage::Recover || f.stage == StartupStage::Activate;
            let undoes = f.stage == StartupStage::ReadUpstreams && f.provenance
                == ActivationProvenance::New;
            &&& g.error == Some(x)
            &&& g.stage == if aborts {
                StartupStage::Abort
            } else if undoes {
                StartupStage::LoadForRollback
            } else {
                StartupStage::Failed
            }
        }),
        f.stage == StartupStage::Publish ==> {
            let g = startup_step(f, StartupEventView::Unpublished(x, safe));
            let found = startup_step(g, StartupEventView::Activation(Some(a)));
            let undone = startup_step(found, StartupEventView::Done);
            let undoes = f.provenance == ActivationProvenance::New && safe;
            &&& g.error == Some(x)
            &&& !undoes ==> g.stage == StartupStage::Failed
            &&& undoes ==> {
                &&& g.stage == StartupStage::LoadForRollback
                &&& found.stage == StartupStage::Deactivate && found.error == Some(x)
                &&& undone.stage == StartupStage::Failed && undone.error == Some(x)
            }
        },
        f.stage == StartupStage::CheckRunning || f.stage == StartupStage::CheckStillRunning ==> {
            let g = startup_step(f, StartupEventView::Stopped(true));
            g.stage == StartupStage::Failed && g.error == Some(
                FaultView {
                    kind: FaultKind::Interrupted,
                    message: "resolver startup was stopped"@,
                },
            )
        },
        f.stage == StartupStage::Abort && f.error == Some(x) ==> {
            let g = startup_step(f, StartupEventView::Done);
            g.stage == StartupStage::Failed && g.error == Some(x)
        },
{
}

/// A drift is rebased on exactly where it came three times in a row while there was
/// time; one that is gone, or did not come to rest in time, is left; and counting
/// begins anew where the comparison came to nothing.
pub proof fn law_drifts_are_rebased_on_when_they_stay<V>(
    o: Seq<V>,
    x: V,
    s: StabilityView<V>,
    seen: Option<V>,
    drifts: Option<bool>,
)
    ensures
        ({
            let waited = steady_wait(
                crate::stability::after(unobserved::<V>(), o),
                Some(x),
                Some(true),
                false,
            ).0;
            &&& waited == SteadyWaitView::Rebase(x) <==> o.len() >= 2 && o[o.len() - 1] == x && o[
            o.len() - 2] == x
            &&& waited != SteadyWaitView::Rebase(x) ==> waited == SteadyWaitView::<V>::Again
        }),
        steady_wait(s, seen, drifts, true).0 == SteadyWaitView::<V>::Leave,
        seen is Some ==> steady_wait(s, seen, Some(false), false).0 == SteadyWaitView::<V>::Leave,
        steady_wait(s, seen, None, false) == (SteadyWaitView::<V>::Again, unobserved::<V>()),
        steady_wait(s, None, Some(true), false) == (SteadyWaitView::<V>::Again, unobserved::<V>()),
{
    let all = o.push(x);
    crate::stability::law_stability_needs_a_run(all);
    assert(all.drop_last() =~= o);
    assert(crate::stability::after(unobserved::<V>(), all) == observed(
        crate::stability::after(unobserved::<V>(), o),
        x,
    ));
}

/// What wakes a supervisor decides what it does: it reconciles at each tick and each
/// change, keeps the ticks where the monitor is lost, seeks the monitor again only
/// where it has none, and ends only where it is told to or cannot be told any more.
pub proof fn law_supervisors_keep_reconciling(e: ServeEvent, monitored: bool)
    ensures
        served(e, monitored) == ServeAction::Reconcile <==> e == ServeEvent::Tick || e
            == ServeEvent::Changed,
        served(e, monitored) == ServeAction::Stop <==> e == ServeEvent::Shutdown,
        served(e, monitored) == ServeAction::Fail <==> e == ServeEvent::ShutdownLost,
        served(e, monitored) == ServeAction::ConnectMonitor <==> e == ServeEvent::ReconnectTick
            && !monitored,
        served(e, monitored) == ServeAction::DropMonitor <==> e == ServeEvent::StreamUnavailable
            || e == ServeEvent::MonitorFailed,
{
}

/// A link is driven by a transaction only while it has the identity that it was
/// approved with, where one was approved; and the other manager's transaction drives
/// it only where the system's resolver refuses the link for its manager.
pub proof fn law_links_keep_their_approved_identity(
    c: SupervisorConfigView,
    m: ResolverLinkManager,
    name: Seq<char>,
    e: NativeErrorView,
)
    ensures
        connected_transaction(c, m, name) is Ok <==> (c.manager is None || c.manager == Some(m))
            && (c.interface_name is None || c.interface_name == Some(name)),
        connected_transaction(c, m, name) matches Ok(t) ==> t == TransactionKind::Systemd(
            c.manager is Some && c.interface_name is Some,
        ),
        refused_transaction(c, e) is Ok <==> e.kind == NativeErrorKind::UnsupportedResolverManager
            && (c.manager is None || c.manager == Some(ResolverLinkManager::NetworkManager)),
        refused_transaction(c, e) matches Ok(t) ==> t == TransactionKind::NetworkManager,
{
}

/// A supervisor is started for the link, the manager and the owners of its generation.
pub proof fn law_supervisors_serve_their_generation(g: GenerationView)
    ensures
        ({
            let c = config_of(g);
            &&& c.link == g.link
            &&& c.interface_name == g.interface_name
            &&& c.manager == g.resolver_manager
            &&& c.owner_uid == g.owner_uid
            &&& c.daemon_uid == g.daemon_uid
            &&& c.record_directory == "/var/lib/remap-system"@
            &&& c.system_socket == "/var/lib/remap/system.sock"@
        }),
{
}

} // verus!
