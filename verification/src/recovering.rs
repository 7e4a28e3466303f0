//! The way from a request for recovery to its end: the approval, what an
//! interrupted record calls for, and the completion of an interrupted pruning.

use vstd::prelude::*;
use vstd::string::*;

use crate::cleanup::needs_quiescence;
use crate::course::{lemma_passed, lemma_passes, on_course, only_if};
use crate::digest::token_authorizes;
use crate::fault::{conflict, conflict_of, fault, Fault, FaultKind, FaultView};
use crate::model::{
    invalid_record_of, option_record, same_plan, InstallPhase, InstallRecord, RecordView,
    ResolverPlanIdentity,
};
use crate::native::{Activation, ActivationPhase};
use crate::order::views;
use crate::plan::{same_recovery_authority, token_refused_of, PreparedRecovery, RecoveryView};
use crate::publications::option_fault;
use crate::snapshot::{
    activation_plan, expected_plan, ServiceObservation, ServiceObservationView, SnapshotNormalization,
};
use crate::text::same;

verus! {

// ---------------------------------------------------------------------------
// What a record calls for
// ---------------------------------------------------------------------------

/// What recovery does about a record.
#[derive(Debug, Clone, Copy, PartialEq, Eq, Structural)]
pub enum Course {
    /// Roll an interrupted transaction back.
    RollBack,
    /// Go on with an interrupted rollback.
    ResumeRollback,
    /// Complete an interrupted pruning.
    CompletePruning,
    /// Go on with an interrupted uninstallation.
    ResumeUninstall,
    /// See what the runtime of an active installation lacks.
    InspectRuntime,
    /// Look for a resolver transaction that no record owns.
    InspectOrphan,
}

/// What recovery does about a record.
pub open spec fn course_of(record: Option<RecordView>) -> Course {
    match record {
        None => Course::InspectOrphan,
        Some(r) => match r.phase {
            InstallPhase::Staging | InstallPhase::Staged | InstallPhase::Published => {
                Course::RollBack
            },
            InstallPhase::RollingBack(_) => Course::ResumeRollback,
            InstallPhase::Pruning => Course::CompletePruning,
            InstallPhase::Uninstalling(_) => Course::ResumeUninstall,
            InstallPhase::Active => Course::InspectRuntime,
        },
    }
}

/// What recovery does about a record.
pub fn recovery_course(record: &Option<InstallRecord>) -> (r: Course)
    ensures
        r == course_of(option_record(*record)),
{
    match record {
        None => Course::InspectOrphan,
        Some(record) => match record.phase {
            InstallPhase::Staging | InstallPhase::Staged | InstallPhase::Published => {
                Course::RollBack
            },
            InstallPhase::RollingBack(_) => Course::ResumeRollback,
            InstallPhase::Pruning => Course::CompletePruning,
            InstallPhase::Uninstalling(_) => Course::ResumeUninstall,
            InstallPhase::Active => Course::InspectRuntime,
        },
    }
}

/// Whether every unit was seen to be active.
pub open spec fn all_active(s: Seq<ServiceObservationView>) -> bool {
    forall|i: int|
        0 <= i < s.len() ==> (#[trigger] s[i]).state == Ok::<Seq<char>, FaultView>("active"@)
}

/// Whether every unit was seen to be active.
pub fn services_healthy(observed: &Vec<ServiceObservation>) -> (r: bool)
    ensures
        r == all_active(views(observed@)),
{
    let ghost ov = views(observed@);
    let mut i: usize = 0;
    while i < observed.len()
        invariant
            i <= observed@.len(),
            ov == views(observed@),
            forall|k: int|
                0 <= k < i ==> (#[trigger] ov[k]).state == Ok::<Seq<char>, FaultView>("active"@),
        decreases observed@.len() - i,
    {
        proof {
            assert(ov[i as int] == observed@[i as int]@);
        }
        let active = match &observed[i].state {
            Ok(state) => same(state.as_str(), "active"),
            Err(_) => false,
        };
        if !active {
            return false;
        }
        i += 1;
    }
    true
}

/// Whether the daemon serves the plan of an activation that is in force.
pub open spec fn activation_in_force(
    activation: Option<Activation>,
    observed: bool,
    plan: Option<ResolverPlanIdentity>,
) -> bool {
    activation is Some && activation->0.phase == ActivationPhase::Active && observed && plan
        == activation_plan(activation)
}

/// Whether the daemon serves the plan of an activation that is in force.
pub fn activation_healthy(
    activation: &Option<Activation>,
    observed: bool,
    plan: &Option<ResolverPlanIdentity>,
) -> (r: bool)
    ensures
        r == activation_in_force(*activation, observed, *plan),
{
    let active = match activation {
        Some(a) => a.phase == ActivationPhase::Active,
        None => false,
    };
    active && observed && same_plan(plan, &expected_plan(activation))
}

// ---------------------------------------------------------------------------
// The request
// ---------------------------------------------------------------------------

/// What is to be done next.
#[derive(Debug, Clone, Copy, PartialEq, Eq, Structural)]
pub enum RecoverStage {
    /// Prepare the recovery without any lock.
    PrepareFirst,
    ConnectManager,
    /// Take the lifecycle lock and open the state directory.
    OpenStore,
    /// See whether the supervisor is active.
    ObserveResolver,
    StopResolver,
    /// Take the resolver's authority.
    AcquireResolver,
    /// Prepare the recovery again behind the locks.
    PrepareSecond,
    /// Read the record, to bring its generation back.
    LoadInstalled,
    /// Bring the installed generation back to health.
    RestartInstalled,
    /// Stop the supervisor before its files go.
    StopForResidue,
    /// Remove the approved residue of the state directory.
    CleanResidue,
    /// Read the record, for its links.
    LoadForLinks,
    /// Put the approved missing links back.
    InstallLinks,
    /// Read the record, for what it calls for.
    LoadRecord,
    /// Do what the record calls for.
    Take(Course),
    /// Look for an orphaned resolver transaction.
    InspectOrphan,
    /// Undo the orphaned resolver transaction.
    DeactivateOrphan,
    /// See what the runtime lacks.
    InspectRuntime,
    /// Bring the runtime back to health.
    EnsureHealth,
    /// Hold the installation to its record.
    VerifyActive,
    /// Remove the approved bootstrap residues.
    CleanBootstrap,
    /// Remove what is left of the state directory.
    CleanState,
    /// Nothing: the run is over.
    Finished,
}

/// What came of what was to be done.
#[derive(Debug)]
pub enum RecoverEvent {
    Done,
    Failed(Fault),
    Recovery(PreparedRecovery),
    /// The state directory is open; whether this run made it.
    Opened(bool),
    /// Whether the supervisor is active.
    ResolverActive(bool),
    Record(Option<InstallRecord>),
    /// Whether there is an activation.
    Activation(bool),
    /// Whether the runtime is in health.
    Runtime(bool),
}

/// An event over plain values.
pub enum RecoverEventView {
    Done,
    Failed(FaultView),
    Recovery(RecoveryView),
    Opened(bool),
    ResolverActive(bool),
    Record(Option<RecordView>),
    Activation(bool),
    Runtime(bool),
}

impl View for RecoverEvent {
    type V = RecoverEventView;

    open spec fn view(&self) -> RecoverEventView {
        match self {
            RecoverEvent::Done => RecoverEventView::Done,
            RecoverEvent::Failed(e) => RecoverEventView::Failed(e@),
            RecoverEvent::Recovery(p) => RecoverEventView::Recovery(p@),
            RecoverEvent::Opened(b) => RecoverEventView::Opened(*b),
            RecoverEvent::ResolverActive(b) => RecoverEventView::ResolverActive(*b),
            RecoverEvent::Record(r) => RecoverEventView::Record(option_record(*r)),
            RecoverEvent::Activation(b) => RecoverEventView::Activation(*b),
            RecoverEvent::Runtime(b) => RecoverEventView::Runtime(*b),
        }
    }
}

pub open spec fn option_recovery(p: Option<PreparedRecovery>) -> Option<RecoveryView> {
    match p {
        Some(p) => Some(p@),
        None => None,
    }
}

/// How far a recovery has come.
#[derive(Debug)]
pub struct RecoverFlow {
    pub stage: RecoverStage,
    pub approval_token: String,
    pub first: Option<PreparedRecovery>,
    pub second: Option<PreparedRecovery>,
    pub created_state: bool,
    pub resolver_was_active: bool,
    pub error: Option<Fault>,
}

/// A run over plain values.
pub struct RecoverFlowView {
    pub stage: RecoverStage,
    pub approval_token: Seq<char>,
    pub first: Option<RecoveryView>,
    pub second: Option<RecoveryView>,
    pub created_state: bool,
    pub resolver_was_active: bool,
    pub error: Option<FaultView>,
}

impl View for RecoverFlow {
    type V = RecoverFlowView;

    open spec fn view(&self) -> RecoverFlowView {
        RecoverFlowView {
            stage: self.stage,
            approval_token: self.approval_token@,
            first: option_recovery(self.first),
            second: option_recovery(self.second),
            created_state: self.created_state,
            resolver_was_active: self.resolver_was_active,
            error: option_fault(self.error),
        }
    }
}

pub open spec fn onward(f: RecoverFlowView, stage: RecoverStage) -> RecoverFlowView {
    RecoverFlowView { stage, ..f }
}

pub open spec fn stopped(f: RecoverFlowView, e: FaultView) -> RecoverFlowView {
    RecoverFlowView { stage: RecoverStage::Finished, error: Some(e), ..f }
}

/// A run that is given up: a stopped runtime is brought back first.
pub open spec fn given_up(f: RecoverFlowView, e: FaultView) -> RecoverFlowView {
    RecoverFlowView { stage: RecoverStage::LoadInstalled, error: Some(e), ..f }
}

/// The first action on an approved recovery.
pub open spec fn approved(f: RecoverFlowView, p: RecoveryView) -> RecoverFlowView {
    let g = RecoverFlowView { second: Some(p), ..f };
    match p.draft.state_residue {
        Some(residue) => if needs_quiescence(residue) {
            onward(g, RecoverStage::StopForResidue)
        } else {
            onward(g, RecoverStage::CleanResidue)
        },
        None => onward(g, RecoverStage::LoadForLinks),
    }
}

/// What follows the second preparation.
pub open spec fn with_second(f: RecoverFlowView, p: RecoveryView) -> RecoverFlowView {
    if !token_authorizes(p.approval_token, f.approval_token) {
        given_up(f, token_refused_of())
    } else if !(f.first is Some && same_recovery_authority(f.first->0, p)) {
        given_up(f, conflict_of("the Linux recovery plan changed while acquiring its lock"@))
    } else {
        approved(f, p)
    }
}

/// Whether the recovery that was prepared first touches the resolver.
pub open spec fn touches_resolver(f: RecoverFlowView) -> bool {
    f.first is Some && f.first->0.draft.resolver_authority_required
}

/// Where a run goes once an action succeeded.
pub open spec fn recover_done(f: RecoverFlowView) -> RecoverFlowView {
    match f.stage {
        RecoverStage::ConnectManager => onward(f, RecoverStage::OpenStore),
        RecoverStage::StopResolver => onward(f, RecoverStage::AcquireResolver),
        RecoverStage::AcquireResolver => onward(f, RecoverStage::PrepareSecond),
        RecoverStage::RestartInstalled => onward(f, RecoverStage::Finished),
        RecoverStage::StopForResidue => onward(f, RecoverStage::CleanResidue),
        RecoverStage::CleanResidue => onward(f, RecoverStage::LoadForLinks),
        RecoverStage::InstallLinks => onward(f, RecoverStage::LoadRecord),
        RecoverStage::Take(_) => onward(f, RecoverStage::CleanBootstrap),
        RecoverStage::DeactivateOrphan => onward(f, RecoverStage::CleanBootstrap),
        RecoverStage::EnsureHealth => onward(f, RecoverStage::VerifyActive),
        RecoverStage::VerifyActive => onward(f, RecoverStage::CleanBootstrap),
        RecoverStage::CleanBootstrap => onward(f, RecoverStage::CleanState),
        RecoverStage::CleanState => onward(f, RecoverStage::Finished),
        _ => f,
    }
}

/// Where a run goes with a record.
pub open spec fn recover_loaded(f: RecoverFlowView, r: Option<RecordView>) -> RecoverFlowView {
    match f.stage {
        RecoverStage::LoadInstalled => onward(
            f,
            if f.resolver_was_active && r is Some && r->0.phase == InstallPhase::Active {
                RecoverStage::RestartInstalled
            } else {
                RecoverStage::Finished
            },
        ),
        RecoverStage::LoadForLinks => onward(
            f,
            if r is Some {
                RecoverStage::InstallLinks
            } else {
                RecoverStage::LoadRecord
            },
        ),
        RecoverStage::LoadRecord => onward(
            f,
            match course_of(r) {
                Course::InspectOrphan => RecoverStage::InspectOrphan,
                Course::InspectRuntime => RecoverStage::InspectRuntime,
                course => RecoverStage::Take(course),
            },
        ),
        _ => f,
    }
}

/// Where a run goes from an event. An event that does not belong to the stage
/// changes nothing.
pub open spec fn recover_step(f: RecoverFlowView, e: RecoverEventView) -> RecoverFlowView {
    match e {
        RecoverEventView::Failed(x) => match f.stage {
            RecoverStage::AcquireResolver | RecoverStage::PrepareSecond => given_up(f, x),
            RecoverStage::Finished => f,
            _ => stopped(f, x),
        },
        RecoverEventView::Done => recover_done(f),
        RecoverEventView::Recovery(p) => match f.stage {
            RecoverStage::PrepareFirst => if token_authorizes(p.approval_token, f.approval_token) {
                RecoverFlowView { stage: RecoverStage::ConnectManager, first: Some(p), ..f }
            } else {
                stopped(f, token_refused_of())
            },
            RecoverStage::PrepareSecond => with_second(f, p),
            _ => f,
        },
        RecoverEventView::Opened(created) => if f.stage == RecoverStage::OpenStore {
            RecoverFlowView {
                stage: if touches_resolver(f) {
                    RecoverStage::ObserveResolver
                } else {
                    RecoverStage::PrepareSecond
                },
                created_state: created,
                ..f
            }
        } else {
            f
        },
        RecoverEventView::ResolverActive(active) => if f.stage == RecoverStage::ObserveResolver {
            RecoverFlowView {
                stage: if active {
                    RecoverStage::StopResolver
                } else {
                    RecoverStage::AcquireResolver
                },
                resolver_was_active: active,
                ..f
            }
        } else {
            f
        },
        RecoverEventView::Record(r) => recover_loaded(f, r),
        RecoverEventView::Activation(present) => if f.stage == RecoverStage::InspectOrphan {
            onward(
                f,
                if present {
                    RecoverStage::DeactivateOrphan
                } else {
                    RecoverStage::CleanBootstrap
                },
            )
        } else {
            f
        },
        RecoverEventView::Runtime(healthy) => if f.stage == RecoverStage::InspectRuntime {
            onward(
                f,
                if healthy {
                    RecoverStage::VerifyActive
                } else {
                    RecoverStage::EnsureHealth
                },
            )
        } else {
            f
        },
    }
}

/// A run that has just begun.
pub open spec fn recover_begun(effective_uid: u32, approval_token: Seq<char>) -> RecoverFlowView {
    RecoverFlowView {
        stage: if effective_uid == 0 {
            RecoverStage::PrepareFirst
        } else {
            RecoverStage::Finished
        },
        approval_token,
        first: None,
        second: None,
        created_state: false,
        resolver_was_active: false,
        error: if effective_uid == 0 {
            None
        } else {
            Some(
                FaultView {
                    kind: FaultKind::PermissionDenied,
                    message: "the Linux installer requires root"@,
                },
            )
        },
    }
}

/// What the locked preparation has to look past: the state directory that this run
/// made, and the stop of a supervisor that was active.
pub open spec fn recover_normalization(f: RecoverFlowView) -> SnapshotNormalization {
    SnapshotNormalization {
        fresh_state_created: f.created_state,
        resolver_quiesced: f.resolver_was_active,
    }
}

impl RecoverFlow {
    /// Begins a run.
    pub fn begin(effective_uid: u32, approval_token: String) -> (r: RecoverFlow)
        ensures
            r@ == recover_begun(effective_uid, approval_token@),
    {
        let root = effective_uid == 0;
        RecoverFlow {
            stage: if root {
                RecoverStage::PrepareFirst
            } else {
                RecoverStage::Finished
            },
            approval_token,
            first: None,
            second: None,
            created_state: false,
            resolver_was_active: false,
            error: if root {
                None
            } else {
                Some(fault(FaultKind::PermissionDenied, "the Linux installer requires root"))
            },
        }
    }

    /// What the locked preparation has to look past.
    pub fn normalization(&self) -> (r: SnapshotNormalization)
        ensures
            r == recover_normalization(self@),
    {
        SnapshotNormalization {
            fresh_state_created: self.created_state,
            resolver_quiesced: self.resolver_was_active,
        }
    }

    fn go(self, stage: RecoverStage) -> (r: RecoverFlow)
        ensures
            r@ == onward(self@, stage),
    {
        RecoverFlow { stage, ..self }
    }

    fn end(self, e: Fault) -> (r: RecoverFlow)
        ensures
            r@ == stopped(self@, e@),
    {
        RecoverFlow { stage: RecoverStage::Finished, error: Some(e), ..self }
    }

    fn give_up(self, e: Fault) -> (r: RecoverFlow)
        ensures
            r@ == given_up(self@, e@),
    {
        RecoverFlow { stage: RecoverStage::LoadInstalled, error: Some(e), ..self }
    }

    fn take_second(self, p: PreparedRecovery) -> (r: RecoverFlow)
        ensures
            r@ == with_second(self@, p@),
    {
        if let Err(e) = p.require_token(self.approval_token.as_str()) {
            return self.give_up(e);
        }
        let unchanged = match &self.first {
            Some(first) => first.same_authority(&p),
            None => false,
        };
        if !unchanged {
            return self.give_up(
                conflict("the Linux recovery plan changed while acquiring its lock"),
            );
        }
        let stage = match &p.draft.state_residue {
            Some(residue) => if residue.requires_resolver_quiescence() {
                RecoverStage::StopForResidue
            } else {
                RecoverStage::CleanResidue
            },
            None => RecoverStage::LoadForLinks,
        };
        RecoverFlow { stage, second: Some(p), ..self }
    }

    fn done(self) -> (r: RecoverFlow)
        ensures
            r@ == recover_done(self@),
    {
        match self.stage {
            RecoverStage::ConnectManager => self.go(RecoverStage::OpenStore),
            RecoverStage::StopResolver => self.go(RecoverStage::AcquireResolver),
            RecoverStage::AcquireResolver => self.go(RecoverStage::PrepareSecond),
            RecoverStage::RestartInstalled => self.go(RecoverStage::Finished),
            RecoverStage::StopForResidue => self.go(RecoverStage::CleanResidue),
            RecoverStage::CleanResidue => self.go(RecoverStage::LoadForLinks),
            RecoverStage::InstallLinks => self.go(RecoverStage::LoadRecord),
            RecoverStage::Take(_) => self.go(RecoverStage::CleanBootstrap),
            RecoverStage::DeactivateOrphan => self.go(RecoverStage::CleanBootstrap),
            RecoverStage::EnsureHealth => self.go(RecoverStage::VerifyActive),
            RecoverStage::VerifyActive => self.go(RecoverStage::CleanBootstrap),
            RecoverStage::CleanBootstrap => self.go(RecoverStage::CleanState),
            RecoverStage::CleanState => self.go(RecoverStage::Finished),
            _ => self,
        }
    }

    fn loaded(self, record: Option<InstallRecord>) -> (r: RecoverFlow)
        ensures
            r@ == recover_loaded(self@, option_record(record)),
    {
        match self.stage {
            RecoverStage::LoadInstalled => {
                let active = match &record {
                    Some(r) => r.phase == InstallPhase::Active,
                    None => false,
                };
                if self.resolver_was_active && active {
                    self.go(RecoverStage::RestartInstalled)
                } else {
                    self.go(RecoverStage::Finished)
                }
            },
            RecoverStage::LoadForLinks => match &record {
                Some(_) => self.go(RecoverStage::InstallLinks),
                None => self.go(RecoverStage::LoadRecord),
            },
            RecoverStage::LoadRecord => match recovery_course(&record) {
                Course::InspectOrphan => self.go(RecoverStage::InspectOrphan),
                Course::InspectRuntime => self.go(RecoverStage::InspectRuntime),
                course => self.go(RecoverStage::Take(course)),
            },
            _ => self,
        }
    }

    fn prepared(self, p: PreparedRecovery) -> (r: RecoverFlow)
        ensures
            r@ == recover_step(self@, RecoverEventView::Recovery(p@)),
    {
        match self.stage {
            RecoverStage::PrepareFirst => {
                if let Err(e) = p.require_token(self.approval_token.as_str()) {
                    return self.end(e);
                }
                RecoverFlow { stage: RecoverStage::ConnectManager, first: Some(p), ..self }
            },
            RecoverStage::PrepareSecond => self.take_second(p),
            _ => self,
        }
    }

    fn opened(self, created: bool) -> (r: RecoverFlow)
        ensures
            r@ == recover_step(self@, RecoverEventView::Opened(created)),
    {
        if self.stage != RecoverStage::OpenStore {
            return self;
        }
        let touches = match &self.first {
            Some(first) => first.requires_resolver_authority(),
            None => false,
        };
        let stage = if touches {
            RecoverStage::ObserveResolver
        } else {
            RecoverStage::PrepareSecond
        };
        RecoverFlow { stage, created_state: created, ..self }
    }

    /// Goes on from what came of the last action.
    pub fn step(self, event: RecoverEvent) -> (r: RecoverFlow)
        ensures
            r@ == recover_step(self@, event@),
    {
        match event {
            RecoverEvent::Failed(e) => match self.stage {
                RecoverStage::AcquireResolver | RecoverStage::PrepareSecond => self.give_up(e),
                RecoverStage::Finished => self,
                _ => self.end(e),
            },
            RecoverEvent::Done => self.done(),
            RecoverEvent::Recovery(p) => self.prepared(p),
            RecoverEvent::Opened(created) => self.opened(created),
            RecoverEvent::ResolverActive(active) => if self.stage == RecoverStage::ObserveResolver {
                let stage = if active {
                    RecoverStage::StopResolver
                } else {
                    RecoverStage::AcquireResolver
                };
                RecoverFlow { stage, resolver_was_active: active, ..self }
            } else {
                self
            },
            RecoverEvent::Record(r) => self.loaded(r),
            RecoverEvent::Activation(present) => if self.stage == RecoverStage::InspectOrphan {
                if present {
                    self.go(RecoverStage::DeactivateOrphan)
                } else {
                    self.go(RecoverStage::CleanBootstrap)
                }
            } else {
                self
            },
            RecoverEvent::Runtime(healthy) => if self.stage == RecoverStage::InspectRuntime {
                if healthy {
                    self.go(RecoverStage::VerifyActive)
                } else {
                    self.go(RecoverStage::EnsureHealth)
                }
            } else {
                self
            },
        }
    }
}

// ---------------------------------------------------------------------------
// The completion of a pruning
// ---------------------------------------------------------------------------

/// What is to be done next.
#[derive(Debug, Clone, Copy, PartialEq, Eq, Structural)]
pub enum PruneStage {
    /// The current link leads to the accepted generation.
    VerifyCurrent,
    /// Its files are what its manifest says.
    VerifyFiles,
    /// So are those of the generation to roll back to.
    VerifyPrevious,
    /// See whether the stale generation is still there.
    ProbeStale,
    /// Make its removal durable.
    SyncRoot,
    /// The generation root holds the two, or the three, generations only.
    VerifyRoot,
    /// The accepted generation is in health.
    EnsureHealth,
    RemoveStale,
    /// Write the record of the accepted generation.
    SaveActive,
    /// Nothing: the run is over.
    Finished,
}

/// What came of what was to be done.
#[derive(Debug)]
pub enum PruneEvent {
    Done,
    Failed(Fault),
    /// Whether the stale generation is still there.
    Stale(bool),
}

/// An event over plain values.
pub enum PruneEventView {
    Done,
    Failed(FaultView),
    Stale(bool),
}

impl View for PruneEvent {
    type V = PruneEventView;

    open spec fn view(&self) -> PruneEventView {
        match self {
            PruneEvent::Done => PruneEventView::Done,
            PruneEvent::Failed(e) => PruneEventView::Failed(e@),
            PruneEvent::Stale(b) => PruneEventView::Stale(*b),
        }
    }
}

/// How far the completion of a pruning has come.
#[derive(Debug)]
pub struct PruneFlow {
    pub stage: PruneStage,
    pub record: InstallRecord,
    /// Whether the stale generation is still there.
    pub stale_present: bool,
    pub error: Option<Fault>,
}

/// A completion over plain values.
pub struct PruneFlowView {
    pub stage: PruneStage,
    pub record: RecordView,
    pub stale_present: bool,
    pub error: Option<FaultView>,
}

impl View for PruneFlow {
    type V = PruneFlowView;

    open spec fn view(&self) -> PruneFlowView {
        PruneFlowView {
            stage: self.stage,
            record: self.record@,
            stale_present: self.stale_present,
            error: option_fault(self.error),
        }
    }
}

pub open spec fn prune_at(f: PruneFlowView, stage: PruneStage) -> PruneFlowView {
    PruneFlowView { stage, ..f }
}

pub open spec fn prune_ended(f: PruneFlowView, e: FaultView) -> PruneFlowView {
    PruneFlowView { stage: PruneStage::Finished, error: Some(e), ..f }
}

/// The generations that the generation root has to hold.
pub open spec fn pruning_ids(f: PruneFlowView) -> Seq<u128> {
    let current = f.record.current.id;
    match f.record.previous {
        None => seq![current],
        Some(previous) => match f.record.previous_previous {
            Some(stale) => if f.stale_present {
                seq![current, previous.id, stale.id]
            } else {
                seq![current, previous.id]
            },
            None => seq![current, previous.id],
        },
    }
}

/// Where a completion goes from an event. An event that does not belong to the
/// stage changes nothing.
pub open spec fn prune_step(f: PruneFlowView, e: PruneEventView) -> PruneFlowView {
    match e {
        PruneEventView::Failed(x) => if f.stage == PruneStage::Finished {
            f
        } else {
            prune_ended(f, x)
        },
        PruneEventView::Stale(present) => if f.stage == PruneStage::ProbeStale {
            PruneFlowView {
                stage: if present {
                    PruneStage::VerifyRoot
                } else {
                    PruneStage::SyncRoot
                },
                stale_present: present,
                ..f
            }
        } else {
            f
        },
        PruneEventView::Done => match f.stage {
            PruneStage::VerifyCurrent => prune_at(f, PruneStage::VerifyFiles),
            PruneStage::VerifyFiles => if f.record.previous_previous is None {
                prune_ended(f, conflict_of("the pruning journal has no stale generation"@))
            } else if f.record.previous is None {
                prune_ended(f, conflict_of("the pruning journal has no rollback generation"@))
            } else {
                prune_at(f, PruneStage::VerifyPrevious)
            },
            PruneStage::VerifyPrevious => prune_at(f, PruneStage::ProbeStale),
            PruneStage::SyncRoot => prune_at(f, PruneStage::VerifyRoot),
            PruneStage::VerifyRoot => prune_at(f, PruneStage::EnsureHealth),
            PruneStage::EnsureHealth => prune_at(f, PruneStage::RemoveStale),
            PruneStage::RemoveStale => if f.record.phase == InstallPhase::Pruning || (f.record.phase
                == InstallPhase::Published && f.record.previous_previous is None) {
                PruneFlowView {
                    stage: PruneStage::SaveActive,
                    record: RecordView {
                        phase: InstallPhase::Active,
                        previous_previous: None,
                        pending_resolver_plan: None,
                        ..f.record
                    },
                    ..f
                }
            } else {
                prune_ended(f, invalid_record_of())
            },
            PruneStage::SaveActive => prune_at(f, PruneStage::Finished),
            PruneStage::ProbeStale | PruneStage::Finished => f,
        },
    }
}

pub open spec fn prune_begun(record: RecordView) -> PruneFlowView {
    PruneFlowView { stage: PruneStage::VerifyCurrent, record, stale_present: false, error: None }
}

impl PruneFlow {
    /// Goes on with a pruning that was interrupted.
    pub fn begin(record: InstallRecord) -> (r: PruneFlow)
        ensures
            r@ == prune_begun(record@),
    {
        PruneFlow { stage: PruneStage::VerifyCurrent, record, stale_present: false, error: None }
    }

    /// The generations that the generation root has to hold.
    pub fn expected_generations(&self) -> (r: Vec<u128>)
        ensures
            r@ == pruning_ids(self@),
    {
        let mut v: Vec<u128> = Vec::new();
        v.push(self.record.current.id);
        if let Some(previous) = &self.record.previous {
            v.push(previous.id);
            if let Some(stale) = &self.record.previous_previous {
                if self.stale_present {
                    v.push(stale.id);
                }
            }
        }
        proof {
            assert(v@ =~= pruning_ids(self@));
        }
        v
    }

    fn go(self, stage: PruneStage) -> (r: PruneFlow)
        ensures
            r@ == prune_at(self@, stage),
    {
        PruneFlow { stage, ..self }
    }

    fn end(self, e: Fault) -> (r: PruneFlow)
        ensures
            r@ == prune_ended(self@, e@),
    {
        PruneFlow { stage: PruneStage::Finished, error: Some(e), ..self }
    }

    fn verified(self) -> (r: PruneFlow)
        requires
            self@.stage == PruneStage::VerifyFiles,
        ensures
            r@ == prune_step(self@, PruneEventView::Done),
    {
        match self.record.previous_previous {
            None => {
                return self.end(conflict("the pruning journal has no stale generation"));
            },
            Some(_) => {},
        }
        match self.record.previous {
            None => self.end(conflict("the pruning journal has no rollback generation")),
            Some(_) => self.go(PruneStage::VerifyPrevious),
        }
    }

    fn activate(self) -> (r: PruneFlow)
        requires
            self@.stage == PruneStage::RemoveStale,
        ensures
            r@ == prune_step(self@, PruneEventView::Done),
    {
        let mut f = self;
        match f.record.activate() {
            Err(e) => f.end(e),
            Ok(_) => f.go(PruneStage::SaveActive),
        }
    }

    /// Goes on from what came of the last action.
    pub fn step(self, event: PruneEvent) -> (r: PruneFlow)
        ensures
            r@ == prune_step(self@, event@),
    {
        match event {
            PruneEvent::Failed(e) => if self.stage == PruneStage::Finished {
                self
            } else {
                self.end(e)
            },
            PruneEvent::Stale(present) => if self.stage == PruneStage::ProbeStale {
                let stage = if present {
                    PruneStage::VerifyRoot
                } else {
                    PruneStage::SyncRoot
                };
                PruneFlow { stage, stale_present: present, ..self }
            } else {
                self
            },
            PruneEvent::Done => match self.stage {
                PruneStage::VerifyCurrent => self.go(PruneStage::VerifyFiles),
                PruneStage::VerifyFiles => self.verified(),
                PruneStage::VerifyPrevious => self.go(PruneStage::ProbeStale),
                PruneStage::SyncRoot => self.go(PruneStage::VerifyRoot),
                PruneStage::VerifyRoot => self.go(PruneStage::EnsureHealth),
                PruneStage::EnsureHealth => self.go(PruneStage::RemoveStale),
                PruneStage::RemoveStale => self.activate(),
                PruneStage::SaveActive => self.go(PruneStage::Finished),
                PruneStage::ProbeStale | PruneStage::Finished => self,
            },
        }
    }
}

// ---------------------------------------------------------------------------
// Laws
// ---------------------------------------------------------------------------

/// Where a recovery comes to after some events.
pub open spec fn recover_run(f: RecoverFlowView, events: Seq<RecoverEventView>) -> RecoverFlowView
    decreases events.len(),
{
    if events.len() == 0 {
        f
    } else {
        recover_step(recover_run(f, events.drop_last()), events.last())
    }
}

/// Whether a stage changes the host on the strength of the approval.
pub open spec fn is_effect(stage: RecoverStage) -> bool {
    match stage {
        RecoverStage::StopForResidue | RecoverStage::CleanResidue | RecoverStage::LoadForLinks
        | RecoverStage::InstallLinks | RecoverStage::LoadRecord | RecoverStage::Take(_)
        | RecoverStage::InspectOrphan | RecoverStage::DeactivateOrphan
        | RecoverStage::InspectRuntime | RecoverStage::EnsureHealth | RecoverStage::VerifyActive
        | RecoverStage::CleanBootstrap | RecoverStage::CleanState => true,
        _ => false,
    }
}

/// What every recovery keeps.
pub open spec fn recover_approved(f: RecoverFlowView) -> bool {
    &&& f.first is Some ==> token_authorizes(f.first->0.approval_token, f.approval_token)
    &&& f.second is Some ==> {
        &&& f.first is Some
        &&& token_authorizes(f.second->0.approval_token, f.approval_token)
        &&& same_recovery_authority(f.first->0, f.second->0)
    }
    &&& f.stage == RecoverStage::PrepareFirst ==> f.first is None && f.second is None
    &&& is_effect(f.stage) ==> f.second is Some
    &&& f.first is None ==> f.stage == RecoverStage::PrepareFirst || f.stage
        == RecoverStage::Finished
}

/// Recovery changes nothing of what is installed before the token authorized it
/// as it was before and as it is behind the locks, and both are the same.
pub proof fn law_recovery_is_approved_twice(
    effective_uid: u32,
    approval_token: Seq<char>,
    events: Seq<RecoverEventView>,
)
    ensures
        recover_approved(recover_run(recover_begun(effective_uid, approval_token), events)),
    decreases events.len(),
{
    if events.len() > 0 {
        law_recovery_is_approved_twice(effective_uid, approval_token, events.drop_last());
    }
}

/// A record that recovery finds in any phase has exactly one course.
pub proof fn law_every_phase_has_its_course(r: RecordView)
    ensures
        course_of(Some(r)) != Course::InspectOrphan,
        course_of(Some(r)) == Course::InspectRuntime <==> r.phase == InstallPhase::Active,
        course_of(Some(r)) == Course::CompletePruning <==> r.phase == InstallPhase::Pruning,
        course_of(Some(r)) == Course::ResumeRollback <==> r.phase is RollingBack,
        course_of(Some(r)) == Course::ResumeUninstall <==> r.phase is Uninstalling,
        course_of(Some(r)) == Course::RollBack <==> r.phase is Staging || r.phase is Staged
            || r.phase is Published,
{
}

/// Where a completion comes to after some events.
pub open spec fn prune_run(f: PruneFlowView, events: Seq<PruneEventView>) -> PruneFlowView
    decreases events.len(),
{
    if events.len() == 0 {
        f
    } else {
        prune_step(prune_run(f, events.drop_last()), events.last())
    }
}

/// A stale generation is removed only behind the checks on the two that stay,
/// and a completion that succeeds leaves an active record without it.
pub proof fn law_pruning_ends_active(record: RecordView, events: Seq<PruneEventView>)
    ensures
        ({
            let f = prune_run(prune_begun(record), events);
            &&& f.stage == PruneStage::Finished && f.error is None ==> f.record.phase
                == InstallPhase::Active && f.record.previous_previous is None
            &&& f.stage == PruneStage::SaveActive ==> f.record.phase == InstallPhase::Active
                && f.record.previous_previous is None
            &&& f.stage == PruneStage::RemoveStale || f.stage == PruneStage::EnsureHealth || f.stage
                == PruneStage::VerifyRoot || f.stage == PruneStage::SyncRoot || f.stage
                == PruneStage::ProbeStale || f.stage == PruneStage::VerifyPrevious
                ==> f.record.previous is Some && f.record.previous_previous is Some
        }),
    decreases events.len(),
{
    if events.len() > 0 {
        law_pruning_ends_active(record, events.drop_last());
    }
}

/// Whether an event is the success of what a stage is to do.
pub open spec fn succeeds(stage: RecoverStage, e: RecoverEventView) -> bool {
    match stage {
        RecoverStage::PrepareFirst | RecoverStage::PrepareSecond => e is Recovery,
        RecoverStage::OpenStore => e is Opened,
        RecoverStage::ObserveResolver => e is ResolverActive,
        RecoverStage::LoadInstalled | RecoverStage::LoadForLinks
        | RecoverStage::LoadRecord => e is Record,
        RecoverStage::InspectOrphan => e is Activation,
        RecoverStage::InspectRuntime => e is Runtime,
        RecoverStage::Finished => false,
        _ => e is Done,
    }
}

/// The stages that a recovery has passed, in their order.
pub open spec fn recover_passed(f: RecoverFlowView, events: Seq<RecoverEventView>) -> Seq<
    RecoverStage,
>
    decreases events.len(),
{
    if events.len() == 0 {
        Seq::empty()
    } else {
        let before = recover_passed(f, events.drop_last());
        let stage = recover_run(f, events.drop_last()).stage;
        if succeeds(stage, events.last()) {
            before.push(stage)
        } else {
            before
        }
    }
}

/// What the course of a recovery depends on.
pub struct RecoverCase {
    /// Whether the recovery that was prepared first touches the resolver.
    pub authority: bool,
    /// Whether the supervisor was active.
    pub active: bool,
    /// Whether the approved residue, where there is one, needs the supervisor to be
    /// stopped.
    pub residue: Option<bool>,
    /// Whether there is a record whose links are put back.
    pub linked: bool,
    /// The record that was found.
    pub record: Option<RecordView>,
    /// Whether a resolver transaction without a record was found.
    pub orphaned: bool,
    /// Whether the runtime of an active installation was found in health.
    pub healthy: bool,
}

/// What is done about the record that was found: an active installation that is
/// not in health is brought back to it, an interrupted transaction is rolled back
/// or completed, and what no record owns is undone.
pub open spec fn record_stages(c: RecoverCase) -> Seq<RecoverStage> {
    match c.record {
        None => seq![RecoverStage::InspectOrphan] + only_if(
            c.orphaned,
            seq![RecoverStage::DeactivateOrphan],
        ),
        Some(r) => if r.phase is Active {
            seq![RecoverStage::InspectRuntime] + only_if(
                !c.healthy,
                seq![RecoverStage::EnsureHealth],
            ) + seq![RecoverStage::VerifyActive]
        } else if r.phase is RollingBack {
            seq![RecoverStage::Take(Course::ResumeRollback)]
        } else if r.phase is Pruning {
            seq![RecoverStage::Take(Course::CompletePruning)]
        } else if r.phase is Uninstalling {
            seq![RecoverStage::Take(Course::ResumeUninstall)]
        } else {
            seq![RecoverStage::Take(Course::RollBack)]
        },
    }
}

/// What a recovery goes through where nothing fails.
pub open spec fn recover_course(c: RecoverCase) -> Seq<RecoverStage> {
    seq![RecoverStage::PrepareFirst, RecoverStage::ConnectManager, RecoverStage::OpenStore]
        + only_if(
        c.authority,
        seq![RecoverStage::ObserveResolver] + only_if(c.active, seq![RecoverStage::StopResolver])
            + seq![RecoverStage::AcquireResolver],
    ) + seq![RecoverStage::PrepareSecond] + only_if(
        c.residue is Some,
        only_if(c.residue == Some(true), seq![RecoverStage::StopForResidue]) + seq![
            RecoverStage::CleanResidue,
        ],
    ) + seq![RecoverStage::LoadForLinks] + only_if(c.linked, seq![RecoverStage::InstallLinks])
        + seq![RecoverStage::LoadRecord] + record_stages(c) + seq![
        RecoverStage::CleanBootstrap,
        RecoverStage::CleanState,
    ]
}

/// Whether what is found out at a stage is as in a case.
pub open spec fn recover_fits(f: RecoverFlowView, e: RecoverEventView, c: RecoverCase) -> bool {
    match e {
        RecoverEventView::Recovery(p) => {
            &&& f.stage == RecoverStage::PrepareFirst ==> c.authority
                == p.draft.resolver_authority_required
            &&& f.stage == RecoverStage::PrepareSecond ==> c.residue
                == match p.draft.state_residue {
                Some(residue) => Some(needs_quiescence(residue)),
                None => None,
            }
        },
        RecoverEventView::ResolverActive(b) => f.stage == RecoverStage::ObserveResolver ==> c.active
            == b,
        RecoverEventView::Record(r) => {
            &&& f.stage == RecoverStage::LoadForLinks ==> c.linked == (r is Some)
            &&& f.stage == RecoverStage::LoadRecord ==> c.record == r
        },
        RecoverEventView::Activation(b) => f.stage == RecoverStage::InspectOrphan ==> c.orphaned
            == b,
        RecoverEventView::Runtime(b) => f.stage == RecoverStage::InspectRuntime ==> c.healthy == b,
        _ => true,
    }
}

/// Whether what is found out in a recovery is as in a case.
pub open spec fn recover_is_case(
    f: RecoverFlowView,
    events: Seq<RecoverEventView>,
    c: RecoverCase,
) -> bool
    decreases events.len(),
{
    if events.len() == 0 {
        true
    } else {
        &&& recover_is_case(f, events.drop_last(), c)
        &&& recover_fits(recover_run(f, events.drop_last()), events.last(), c)
    }
}

/// Whether an event is no failure and no recovery that is refused.
pub open spec fn recover_agreeable(f: RecoverFlowView, e: RecoverEventView) -> bool {
    match e {
        RecoverEventView::Failed(_) => false,
        RecoverEventView::Recovery(p) => {
            &&& token_authorizes(p.approval_token, f.approval_token)
            &&& f.stage == RecoverStage::PrepareSecond ==> f.first is Some
                && same_recovery_authority(f.first->0, p)
        },
        _ => true,
    }
}

/// Whether all events are agreeable where they come.
pub open spec fn recover_undisturbed(f: RecoverFlowView, events: Seq<RecoverEventView>) -> bool
    decreases events.len(),
{
    if events.len() == 0 {
        true
    } else {
        &&& recover_undisturbed(f, events.drop_last())
        &&& recover_agreeable(recover_run(f, events.drop_last()), events.last())
    }
}

/// What every recovery keeps of its case.
spec fn recover_kept(f: RecoverFlowView, passed: Seq<RecoverStage>, c: RecoverCase) -> bool {
    f.error is None ==> {
        &&& on_course(recover_course(c), passed, f.stage, RecoverStage::Finished)
        &&& f.stage != RecoverStage::PrepareFirst ==> f.first is Some
            && f.first->0.draft.resolver_authority_required == c.authority
    }
}

/// The stages before the second preparation, at it, and behind it.
spec fn recover_head(c: RecoverCase) -> Seq<RecoverStage> {
    seq![RecoverStage::PrepareFirst, RecoverStage::ConnectManager, RecoverStage::OpenStore]
        + only_if(
        c.authority,
        seq![RecoverStage::ObserveResolver] + only_if(c.active, seq![RecoverStage::StopResolver])
            + seq![RecoverStage::AcquireResolver],
    ) + seq![RecoverStage::PrepareSecond]
}

spec fn recover_middle(c: RecoverCase) -> Seq<RecoverStage> {
    only_if(
        c.residue is Some,
        only_if(c.residue == Some(true), seq![RecoverStage::StopForResidue]) + seq![
            RecoverStage::CleanResidue,
        ],
    ) + seq![RecoverStage::LoadForLinks] + only_if(c.linked, seq![RecoverStage::InstallLinks])
        + seq![RecoverStage::LoadRecord]
}

spec fn recover_tail(c: RecoverCase) -> Seq<RecoverStage> {
    record_stages(c) + seq![RecoverStage::CleanBootstrap, RecoverStage::CleanState]
}

/// The stage at a position of a course.
#[verifier::spinoff_prover]
#[verifier::rlimit(60)]
proof fn lemma_recover_parts(c: RecoverCase)
    ensures
        recover_course(c) == recover_head(c) + recover_middle(c) + recover_tail(c),
        !recover_course(c).contains(RecoverStage::Finished),
        recover_middle(c).len() > 0,
        recover_tail(c).len() > 0,
{
    assert(recover_course(c) =~= recover_head(c) + recover_middle(c) + recover_tail(c));
    let course = recover_course(c);
    assert(forall|i: int|
        0 <= i < recover_head(c).len() ==> recover_head(c)[i] != RecoverStage::Finished);
    assert(forall|i: int|
        0 <= i < recover_middle(c).len() ==> recover_middle(c)[i] != RecoverStage::Finished);
    assert(forall|i: int|
        0 <= i < recover_tail(c).len() ==> recover_tail(c)[i] != RecoverStage::Finished);
}

#[verifier::spinoff_prover]
#[verifier::rlimit(60)]
proof fn lemma_head_next(f: RecoverFlowView, e: RecoverEventView, c: RecoverCase, n: int)
    requires
        0 <= n < recover_head(c).len(),
        f.stage == recover_head(c)[n],
        f.stage != RecoverStage::PrepareFirst ==> f.first is Some
            && f.first->0.draft.resolver_authority_required == c.authority,
        f.error is None,
        recover_step(f, e).error is None,
        succeeds(f.stage, e),
        recover_fits(f, e, c),
    ensures
        recover_step(f, e).stage == if n + 1 < recover_head(c).len() {
            recover_head(c)[n + 1]
        } else {
            recover_middle(c)[0]
        },
{
}

#[verifier::spinoff_prover]
#[verifier::rlimit(60)]
proof fn lemma_middle_next(f: RecoverFlowView, e: RecoverEventView, c: RecoverCase, n: int)
    requires
        0 <= n < recover_middle(c).len(),
        f.stage == recover_middle(c)[n],
        f.stage != RecoverStage::PrepareFirst ==> f.first is Some
            && f.first->0.draft.resolver_authority_required == c.authority,
        f.error is None,
        recover_step(f, e).error is None,
        succeeds(f.stage, e),
        recover_fits(f, e, c),
    ensures
        recover_step(f, e).stage == if n + 1 < recover_middle(c).len() {
            recover_middle(c)[n + 1]
        } else {
            recover_tail(c)[0]
        },
{
}

#[verifier::spinoff_prover]
#[verifier::rlimit(60)]
proof fn lemma_tail_next(f: RecoverFlowView, e: RecoverEventView, c: RecoverCase, n: int)
    requires
        0 <= n < recover_tail(c).len(),
        f.stage == recover_tail(c)[n],
        f.stage != RecoverStage::PrepareFirst ==> f.first is Some
            && f.first->0.draft.resolver_authority_required == c.authority,
        f.error is None,
        recover_step(f, e).error is None,
        succeeds(f.stage, e),
        recover_fits(f, e, c),
    ensures
        recover_step(f, e).stage == if n + 1 < recover_tail(c).len() {
            recover_tail(c)[n + 1]
        } else {
            RecoverStage::Finished
        },
{
}

proof fn lemma_recover_next(
    f: RecoverFlowView,
    passed: Seq<RecoverStage>,
    e: RecoverEventView,
    c: RecoverCase,
)
    requires
        recover_kept(f, passed, c),
        f.error is None,
        recover_step(f, e).error is None,
        succeeds(f.stage, e),
        recover_fits(f, e, c),
    ensures
        ({
            let course = recover_course(c);
            let n = passed.len() as int;
            &&& n < course.len()
            &&& recover_step(f, e).stage == if n + 1 < course.len() {
                course[n + 1]
            } else {
                RecoverStage::Finished
            }
        }),
{
    lemma_recover_parts(c);
    let n = passed.len() as int;
    let (head, middle, tail) = (recover_head(c), recover_middle(c), recover_tail(c));
    assert(recover_course(c).len() == head.len() + middle.len() + tail.len());
    if n < head.len() {
        lemma_head_next(f, e, c, n);
    } else if n < head.len() + middle.len() {
        lemma_middle_next(f, e, c, n - head.len());
    } else if n < recover_course(c).len() {
        lemma_tail_next(f, e, c, n - head.len() - middle.len());
    }
}

proof fn lemma_recover_run(approval_token: Seq<char>, events: Seq<RecoverEventView>, c: RecoverCase)
    requires
        recover_is_case(recover_begun(0, approval_token), events, c),
    ensures
        ({
            let begun = recover_begun(0, approval_token);
            let f = recover_run(begun, events);
            &&& recover_kept(f, recover_passed(begun, events), c)
            &&& recover_undisturbed(begun, events) ==> f.error is None
        }),
    decreases events.len(),
{
    let begun = recover_begun(0, approval_token);
    let course = recover_course(c);
    if events.len() == 0 {
        assert(recover_passed(begun, events) =~= course.subrange(0, 0));
    } else {
        let before = events.drop_last();
        lemma_recover_run(approval_token, before, c);
        let g = recover_run(begun, before);
        let h = recover_run(begun, events);
        let passed = recover_passed(begun, before);
        if h.error is None && succeeds(g.stage, events.last()) {
            lemma_recover_next(g, passed, events.last(), c);
            lemma_passes(course, passed, g.stage, h.stage, RecoverStage::Finished);
        }
    }
}

/// A recovery by root goes through the stages of its course one behind the other. So
/// one that ends without a failure has passed all of them, in their order, and
/// nothing else: an active installation that was not found in health was brought
/// back to it, and an interrupted transaction was rolled back or completed. Where
/// nothing fails and nothing is refused, it never comes to a failure.
pub proof fn law_recovery_follows_its_course(
    approval_token: Seq<char>,
    events: Seq<RecoverEventView>,
    c: RecoverCase,
)
    requires
        recover_is_case(recover_begun(0, approval_token), events, c),
    ensures
        ({
            let begun = recover_begun(0, approval_token);
            let f = recover_run(begun, events);
            let passed = recover_passed(begun, events);
            &&& f.error is None ==> on_course(
                recover_course(c),
                passed,
                f.stage,
                RecoverStage::Finished,
            )
            &&& f.error is None && f.stage == RecoverStage::Finished ==> passed == recover_course(c)
            &&& recover_undisturbed(begun, events) ==> f.error is None
        }),
{
    lemma_recover_run(approval_token, events, c);
    lemma_recover_parts(c);
    let begun = recover_begun(0, approval_token);
    let f = recover_run(begun, events);
    if f.error is None && f.stage == RecoverStage::Finished {
        lemma_passed(recover_course(c), recover_passed(begun, events), RecoverStage::Finished);
    }
}

/// A runtime that is not in health is brought back to it next, and only one that was
/// seen in health is held to its record at once.
pub proof fn law_broken_runtimes_are_restarted(f: RecoverFlowView)
    requires
        f.stage == RecoverStage::InspectRuntime,
    ensures
        recover_step(f, RecoverEventView::Runtime(false)).stage == RecoverStage::EnsureHealth,
        forall|e: RecoverEventView|
            (#[trigger] recover_step(f, e)).stage == RecoverStage::VerifyActive ==> e
                == RecoverEventView::Runtime(true),
{
}

/// A recovery that is given up behind the stop of the supervisor, or refused there,
/// reads the record, and brings an active installation back to health exactly where
/// the supervisor was active before; what stopped it is what is reported. Any other
/// failure ends it at once.
pub proof fn law_given_up_recoveries_bring_the_runtime_back(
    f: RecoverFlowView,
    e: RecoverEventView,
    r: Option<RecordView>,
)
    requires
        f.error is None,
        recover_step(f, e).error is Some,
    ensures
        ({
            let g = recover_step(f, e);
            let read = recover_step(g, RecoverEventView::Record(r));
            let again = f.resolver_was_active && r is Some && r->0.phase is Active;
            let behind_stop = f.stage == RecoverStage::AcquireResolver || f.stage
                == RecoverStage::PrepareSecond;
            &&& e is Failed ==> g.error == Some(e->Failed_0)
            &&& g.resolver_was_active == f.resolver_was_active
            &&& !behind_stop ==> g.stage == RecoverStage::Finished
            &&& behind_stop ==> {
                &&& g.stage == RecoverStage::LoadInstalled
                &&& read.error == g.error
                &&& read.stage == if again {
                    RecoverStage::RestartInstalled
                } else {
                    RecoverStage::Finished
                }
                &&& again ==> recover_step(read, RecoverEventView::Done).stage
                    == RecoverStage::Finished && recover_step(read, RecoverEventView::Done).error
                    == g.error
            }
        }),
{
}

/// Whether the supervisor was active, and whether this run made the state directory,
/// is what was seen; nothing else changes it.
pub proof fn law_recovery_remembers_what_it_saw(f: RecoverFlowView, e: RecoverEventView)
    ensures
        recover_step(f, e).resolver_was_active == match e {
            RecoverEventView::ResolverActive(b) => if f.stage == RecoverStage::ObserveResolver {
                b
            } else {
                f.resolver_was_active
            },
            _ => f.resolver_was_active,
        },
        recover_step(f, e).created_state == match e {
            RecoverEventView::Opened(b) => if f.stage == RecoverStage::OpenStore {
                b
            } else {
                f.created_state
            },
            _ => f.created_state,
        },
        recover_step(f, e).approval_token == f.approval_token,
{
}

/// Whether an event is the success of what a stage of a completion is to do.
pub open spec fn prune_succeeds(stage: PruneStage, e: PruneEventView) -> bool {
    match stage {
        PruneStage::ProbeStale => e is Stale,
        PruneStage::Finished => false,
        _ => e is Done,
    }
}

/// The stages that a completion has passed, in their order.
pub open spec fn prune_passed(f: PruneFlowView, events: Seq<PruneEventView>) -> Seq<PruneStage>
    decreases events.len(),
{
    if events.len() == 0 {
        Seq::empty()
    } else {
        let before = prune_passed(f, events.drop_last());
        let stage = prune_run(f, events.drop_last()).stage;
        if prune_succeeds(stage, events.last()) {
            before.push(stage)
        } else {
            before
        }
    }
}

/// What the completion of a pruning goes through where nothing fails: whether the
/// stale generation is still there.
pub open spec fn prune_course(present: bool) -> Seq<PruneStage> {
    seq![
        PruneStage::VerifyCurrent,
        PruneStage::VerifyFiles,
        PruneStage::VerifyPrevious,
        PruneStage::ProbeStale,
    ] + only_if(!present, seq![PruneStage::SyncRoot]) + seq![
        PruneStage::VerifyRoot,
        PruneStage::EnsureHealth,
        PruneStage::RemoveStale,
        PruneStage::SaveActive,
    ]
}

/// Whether each look for the stale generation finds it, or none does.
pub open spec fn prune_finds(events: Seq<PruneEventView>, present: bool) -> bool {
    forall|i: int|
        0 <= i < events.len() ==> ((#[trigger] events[i]) is Stale ==> events[i]->Stale_0
            == present)
}

/// Whether some events hold no failure.
pub open spec fn prune_undisturbed(events: Seq<PruneEventView>) -> bool {
    forall|i: int| 0 <= i < events.len() ==> !((#[trigger] events[i]) is Failed)
}

/// The completion of a pruning goes through the stages of its course one behind the
/// other. So one that ends without a failure has passed all of them, in their order,
/// and nothing else: the stale generation goes behind the checks on the two that
/// stay and the health of the accepted one. Where nothing fails, and the record is
/// one of a pruning, it never comes to a failure.
#[verifier::spinoff_prover]
#[verifier::rlimit(60)]
pub proof fn law_pruning_follows_its_course(
    record: RecordView,
    events: Seq<PruneEventView>,
    present: bool,
)
    requires
        prune_finds(events, present),
    ensures
        ({
            let begun = prune_begun(record);
            let f = prune_run(begun, events);
            let passed = prune_passed(begun, events);
            &&& f.error is None ==> on_course(
                prune_course(present),
                passed,
                f.stage,
                PruneStage::Finished,
            )
            &&& f.error is None && f.stage == PruneStage::Finished ==> passed == prune_course(
                present,
            )
            &&& f.error is None && f.stage != PruneStage::SaveActive && f.stage
                != PruneStage::Finished ==> f.record == record
            &&& prune_undisturbed(events) && record.phase is Pruning && record.previous is Some
                && record.previous_previous is Some ==> f.error is None
            &&& f.stage == PruneStage::SaveActive ==> f.record == (RecordView {
                phase: InstallPhase::Active,
                previous_previous: None,
                pending_resolver_plan: None,
                ..record
            })
            &&& f.error is Some ==> f.stage == PruneStage::Finished
            &&& f.stage == PruneStage::SyncRoot || f.stage == PruneStage::VerifyRoot
                ==> f.stale_present == present
        }),
    decreases events.len(),
{
    let begun = prune_begun(record);
    let course = prune_course(present);
    let passed = prune_passed(begun, events);
    if events.len() == 0 {
        assert(passed =~= course.subrange(0, 0));
    } else {
        let before = events.drop_last();
        assert forall|i: int| 0 <= i < before.len() implies ((#[trigger] before[i]) is Stale
            ==> before[i]->Stale_0 == present) by {
            assert(before[i] == events[i]);
        }
        if prune_undisturbed(events) {
            assert forall|i: int| 0 <= i < before.len() implies !((#[trigger] before[i]) is Failed) by {
                assert(before[i] == events[i]);
            }
        }
        law_pruning_follows_its_course(record, before, present);
        let e = events[events.len() - 1];
        assert(e == events.last());
        let g = prune_run(begun, before);
        let h = prune_run(begun, events);
        if h.error is None && prune_succeeds(g.stage, e) {
            lemma_passes(
                course,
                prune_passed(begun, before),
                g.stage,
                h.stage,
                PruneStage::Finished,
            );
        }
        if h.error is None && h.stage == PruneStage::Finished {
            assert(!course.contains(PruneStage::Finished));
            lemma_passed(course, passed, PruneStage::Finished);
        }
    }
}

/// The runtime of an active installation counts as in health only where every unit
/// was seen to be active and the daemon was seen to serve the plan of an activation in
/// force.
pub proof fn law_health_is_seen(
    observed: Seq<ServiceObservationView>,
    activation: Option<Activation>,
    seen: bool,
    plan: Option<ResolverPlanIdentity>,
)
    ensures
        all_active(observed) <==> forall|i: int|
            0 <= i < observed.len() ==> (#[trigger] observed[i]).state == Ok::<
                Seq<char>,
                FaultView,
            >("active"@),
        activation_in_force(activation, seen, plan) <==> activation is Some && seen
            && activation->0.phase == ActivationPhase::Active && plan is Some
            && plan->0.activation_id == activation->0.activation_id && plan->0.generation
            == activation->0.generation,
{
}

/// The locked preparation looks past what this run changed and nothing else: past the
/// stop of the supervisor exactly where this run has stopped it, and past a state
/// directory exactly where this run made it.
pub proof fn law_recovery_looks_past_its_own_changes(
    approval_token: Seq<char>,
    events: Seq<RecoverEventView>,
)
    ensures
        ({
            let begun = recover_begun(0, approval_token);
            let f = recover_run(begun, events);
            let stopped = recover_passed(begun, events).contains(RecoverStage::StopResolver);
            &&& f.stage == RecoverStage::PrepareSecond || f.stage == RecoverStage::AcquireResolver
                ==> recover_normalization(f).resolver_quiesced == stopped
            &&& f.stage == RecoverStage::StopResolver ==> f.resolver_was_active && !stopped
            &&& recover_normalization(f).fresh_state_created ==> events.contains(
                RecoverEventView::Opened(true),
            )
            &&& f.stage == RecoverStage::PrepareFirst || f.stage == RecoverStage::ConnectManager
                || f.stage == RecoverStage::OpenStore || f.stage == RecoverStage::ObserveResolver
                ==> !stopped && !f.resolver_was_active
        }),
    decreases events.len(),
{
    let begun = recover_begun(0, approval_token);
    if events.len() > 0 {
        let before = events.drop_last();
        law_recovery_looks_past_its_own_changes(approval_token, before);
        let g = recover_run(begun, before);
        let f = recover_run(begun, events);
        let was = recover_passed(begun, before);
        let passed = recover_passed(begun, events);
        if succeeds(g.stage, events.last()) {
            assert(passed[passed.len() - 1] == g.stage);
            if was.contains(RecoverStage::StopResolver) {
                let i = choose|i: int| 0 <= i < was.len() && was[i] == RecoverStage::StopResolver;
                assert(passed[i] == RecoverStage::StopResolver);
            }
            if passed.contains(RecoverStage::StopResolver) && g.stage
                != RecoverStage::StopResolver {
                let i = choose|i: int|
                    0 <= i < passed.len() && passed[i] == RecoverStage::StopResolver;
                assert(was[i] == RecoverStage::StopResolver);
            }
        }
        if f.created_state {
            if g.created_state {
                let i = choose|i: int|
                    0 <= i < before.len() && before[i] == RecoverEventView::Opened(true);
                assert(events[i] == RecoverEventView::Opened(true));
            } else {
                assert(events[events.len() - 1] == RecoverEventView::Opened(true));
            }
        }
    }
}

/// The generation root has to hold the generations of the record and no other: the
/// stale one exactly while it still stands.
pub proof fn law_pruning_expects_the_generations_of_the_record(f: PruneFlowView, id: u128)
    ensures
        pruning_ids(f).contains(id) <==> {
            ||| id == f.record.current.id
            ||| f.record.previous is Some && id == f.record.previous->0.id
            ||| f.record.previous is Some && f.record.previous_previous is Some && f.stale_present
                && id == f.record.previous_previous->0.id
        },
{
    let s = pruning_ids(f);
    assert(s[0] == f.record.current.id);
    if f.record.previous is Some {
        assert(s[1] == f.record.previous->0.id);
        if f.record.previous_previous is Some && f.stale_present {
            assert(s[2] == f.record.previous_previous->0.id);
        }
    }
    if s.contains(id) {
        let k = choose|k: int| 0 <= k < s.len() && s[k] == id;
        assert(k == 0 || k == 1 || k == 2);
    }
}

} // verus!
