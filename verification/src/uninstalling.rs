//! The way from a request for an uninstallation to its approved journal, and
//! the journal itself, step by step.

use vstd::prelude::*;
use vstd::string::*;

use crate::course::{lemma_part, lemma_passed, lemma_passes, on_course, only_if};
use crate::digest::token_authorizes;
use crate::fault::{conflict, conflict_of, fault, Fault, FaultKind, FaultView};
use crate::installing::option_plan;
use crate::model::{
    invalid_record_of, option_record, uninstall_index, InstallPhase, InstallRecord, RecordView,
    UninstallStep,
};
use crate::plan::{same_plan_authority, token_refused_of, PlanView, PreparedPlan};
use crate::publications::option_fault;

verus! {

// ---------------------------------------------------------------------------
// The journal
// ---------------------------------------------------------------------------

/// What the journal does next.
#[derive(Debug, Clone, Copy, PartialEq, Eq, Structural)]
pub enum RemovalStage {
    /// Write the record of the next step.
    SaveJournal,
    /// Stop the supervisor.
    StopResolver,
    /// Look for the activation.
    InspectActivation,
    /// Undo the activation.
    Deactivate,
    /// Allow the generation to start, to withdraw its plan.
    AcquireLease,
    ReachDaemon,
    InvalidatePlan,
    /// No activation may be left.
    InspectRestored,
    ReleaseLease,
    StopUnits,
    RemoveUnitLinks,
    RemovePublicLinks,
    RemoveCurrent,
    ReloadManager,
    RemoveCurrentGeneration,
    RemovePreviousGeneration,
    RemoveRoots,
    /// Remove the record itself.
    RemoveRecord,
    /// Nothing: the journal is done.
    Finished,
}

/// What came of what was to be done.
#[derive(Debug)]
pub enum RemovalEvent {
    Done,
    Failed(Fault),
    /// Whether there is an activation.
    Activation(bool),
}

/// An event over plain values.
pub enum RemovalEventView {
    Done,
    Failed(FaultView),
    Activation(bool),
}

impl View for RemovalEvent {
    type V = RemovalEventView;

    open spec fn view(&self) -> RemovalEventView {
        match self {
            RemovalEvent::Done => RemovalEventView::Done,
            RemovalEvent::Failed(e) => RemovalEventView::Failed(e@),
            RemovalEvent::Activation(b) => RemovalEventView::Activation(*b),
        }
    }
}

/// How far the journal has come.
#[derive(Debug)]
pub struct RemovalFlow {
    pub stage: RemovalStage,
    pub record: InstallRecord,
    pub error: Option<Fault>,
}

/// A journal over plain values.
pub struct RemovalFlowView {
    pub stage: RemovalStage,
    pub record: RecordView,
    pub error: Option<FaultView>,
}

impl View for RemovalFlow {
    type V = RemovalFlowView;

    open spec fn view(&self) -> RemovalFlowView {
        RemovalFlowView {
            stage: self.stage,
            record: self.record@,
            error: option_fault(self.error),
        }
    }
}

pub open spec fn at(f: RemovalFlowView, stage: RemovalStage) -> RemovalFlowView {
    RemovalFlowView { stage, ..f }
}

pub open spec fn ended(f: RemovalFlowView, e: FaultView) -> RemovalFlowView {
    RemovalFlowView { stage: RemovalStage::Finished, error: Some(e), ..f }
}

pub open spec fn next_step(step: UninstallStep) -> Option<UninstallStep> {
    match step {
        UninstallStep::RestoreResolver => Some(UninstallStep::StopServices),
        UninstallStep::StopServices => Some(UninstallStep::RemoveUnitLinks),
        UninstallStep::RemoveUnitLinks => Some(UninstallStep::RemovePublicPaths),
        UninstallStep::RemovePublicPaths => Some(UninstallStep::RemoveCurrent),
        UninstallStep::RemoveCurrent => Some(UninstallStep::ReloadManager),
        UninstallStep::ReloadManager => Some(UninstallStep::RemoveCurrentGeneration),
        UninstallStep::RemoveCurrentGeneration => Some(UninstallStep::RemovePreviousGeneration),
        UninstallStep::RemovePreviousGeneration => Some(UninstallStep::RemoveGenerationRoots),
        UninstallStep::RemoveGenerationRoots => Some(UninstallStep::Finalize),
        UninstallStep::Finalize => None,
    }
}

/// The journal with the step behind it.
pub open spec fn advanced(f: RemovalFlowView) -> RemovalFlowView {
    match f.record.phase {
        InstallPhase::Uninstalling(step) => match next_step(step) {
            Some(next) => RemovalFlowView {
                stage: RemovalStage::SaveJournal,
                record: RecordView { phase: InstallPhase::Uninstalling(next), ..f.record },
                ..f
            },
            None => ended(f, conflict_of("the Linux uninstall journal order is invalid"@)),
        },
        _ => ended(f, conflict_of("the Linux uninstall journal is invalid"@)),
    }
}

/// The first action of the step that the journal stands at.
pub open spec fn entered(f: RemovalFlowView) -> RemovalFlowView {
    match f.record.phase {
        InstallPhase::Uninstalling(step) => match step {
            UninstallStep::RestoreResolver => at(f, RemovalStage::StopResolver),
            UninstallStep::StopServices => at(f, RemovalStage::StopUnits),
            UninstallStep::RemoveUnitLinks => at(f, RemovalStage::RemoveUnitLinks),
            UninstallStep::RemovePublicPaths => at(f, RemovalStage::RemovePublicLinks),
            UninstallStep::RemoveCurrent => at(f, RemovalStage::RemoveCurrent),
            UninstallStep::ReloadManager => at(f, RemovalStage::ReloadManager),
            UninstallStep::RemoveCurrentGeneration => at(f, RemovalStage::RemoveCurrentGeneration),
            UninstallStep::RemovePreviousGeneration => if f.record.previous is Some {
                at(f, RemovalStage::RemovePreviousGeneration)
            } else {
                advanced(f)
            },
            UninstallStep::RemoveGenerationRoots => at(f, RemovalStage::RemoveRoots),
            UninstallStep::Finalize => at(f, RemovalStage::RemoveRecord),
        },
        _ => ended(f, conflict_of("the Linux uninstall journal is invalid"@)),
    }
}

/// Behind the restoration of the resolver: the plan has to be known.
pub open spec fn restored(f: RemovalFlowView) -> RemovalFlowView {
    if f.record.pending_resolver_plan is Some {
        at(f, RemovalStage::AcquireLease)
    } else {
        ended(f, conflict_of("the uninstall journal has no resolver plan identity"@))
    }
}

/// Where the journal goes once an action succeeded.
pub open spec fn removal_done(f: RemovalFlowView) -> RemovalFlowView {
    match f.stage {
        RemovalStage::SaveJournal => entered(f),
        RemovalStage::StopResolver => at(f, RemovalStage::InspectActivation),
        RemovalStage::Deactivate => restored(f),
        RemovalStage::AcquireLease => at(f, RemovalStage::ReachDaemon),
        RemovalStage::ReachDaemon => at(f, RemovalStage::InvalidatePlan),
        RemovalStage::InvalidatePlan => at(f, RemovalStage::InspectRestored),
        RemovalStage::ReleaseLease => match f.error {
            Some(_) => at(f, RemovalStage::Finished),
            None => advanced(f),
        },
        RemovalStage::StopUnits | RemovalStage::RemoveUnitLinks | RemovalStage::RemovePublicLinks
        | RemovalStage::RemoveCurrent | RemovalStage::ReloadManager
        | RemovalStage::RemoveCurrentGeneration | RemovalStage::RemovePreviousGeneration
        | RemovalStage::RemoveRoots => advanced(f),
        RemovalStage::RemoveRecord => at(f, RemovalStage::Finished),
        RemovalStage::InspectActivation | RemovalStage::InspectRestored
        | RemovalStage::Finished => f,
    }
}

/// Where the journal goes once an action failed.
pub open spec fn removal_failed(f: RemovalFlowView, e: FaultView) -> RemovalFlowView {
    match f.stage {
        RemovalStage::ReachDaemon | RemovalStage::InvalidatePlan
        | RemovalStage::InspectRestored => RemovalFlowView {
            stage: RemovalStage::ReleaseLease,
            error: Some(e),
            ..f
        },
        RemovalStage::ReleaseLease | RemovalStage::Finished => f,
        _ => ended(f, e),
    }
}

/// Where the journal goes from an event. An event that does not belong to the
/// stage changes nothing.
pub open spec fn removal_step(f: RemovalFlowView, e: RemovalEventView) -> RemovalFlowView {
    match e {
        RemovalEventView::Done => removal_done(f),
        RemovalEventView::Failed(x) => removal_failed(f, x),
        RemovalEventView::Activation(present) => match f.stage {
            RemovalStage::InspectActivation => if present {
                at(f, RemovalStage::Deactivate)
            } else {
                restored(f)
            },
            RemovalStage::InspectRestored => if present {
                RemovalFlowView {
                    stage: RemovalStage::ReleaseLease,
                    error: Some(
                        conflict_of("the resolver activation record remains after restoration"@),
                    ),
                    ..f
                }
            } else {
                at(f, RemovalStage::ReleaseLease)
            },
            _ => f,
        },
    }
}

/// A journal that goes on where its record stands.
pub open spec fn removal_resumed(record: RecordView) -> RemovalFlowView {
    entered(RemovalFlowView { stage: RemovalStage::SaveJournal, record, error: None })
}

impl RemovalFlow {
    /// Goes on with the journal of a record.
    pub fn resume(record: InstallRecord) -> (r: RemovalFlow)
        ensures
            r@ == removal_resumed(record@),
    {
        let f = RemovalFlow { stage: RemovalStage::SaveJournal, record, error: None };
        f.enter()
    }

    fn go(self, stage: RemovalStage) -> (r: RemovalFlow)
        ensures
            r@ == at(self@, stage),
    {
        RemovalFlow { stage, ..self }
    }

    fn end(self, e: Fault) -> (r: RemovalFlow)
        ensures
            r@ == ended(self@, e@),
    {
        RemovalFlow { stage: RemovalStage::Finished, error: Some(e), ..self }
    }

    fn advance(self) -> (r: RemovalFlow)
        ensures
            r@ == advanced(self@),
    {
        let step = match self.record.phase {
            InstallPhase::Uninstalling(step) => step,
            _ => {
                return self.end(conflict("the Linux uninstall journal is invalid"));
            },
        };
        match step.successor() {
            None => self.end(conflict("the Linux uninstall journal order is invalid")),
            Some(next) => {
                let mut f = self;
                match f.record.advance_uninstall(step, next) {
                    Err(e) => f.end(e),
                    Ok(_) => f.go(RemovalStage::SaveJournal),
                }
            },
        }
    }

    fn enter(self) -> (r: RemovalFlow)
        ensures
            r@ == entered(self@),
    {
        let retained = match self.record.previous {
            Some(_) => true,
            None => false,
        };
        let step = match self.record.phase {
            InstallPhase::Uninstalling(step) => step,
            _ => {
                return self.end(conflict("the Linux uninstall journal is invalid"));
            },
        };
        match step {
            UninstallStep::RestoreResolver => self.go(RemovalStage::StopResolver),
            UninstallStep::StopServices => self.go(RemovalStage::StopUnits),
            UninstallStep::RemoveUnitLinks => self.go(RemovalStage::RemoveUnitLinks),
            UninstallStep::RemovePublicPaths => self.go(RemovalStage::RemovePublicLinks),
            UninstallStep::RemoveCurrent => self.go(RemovalStage::RemoveCurrent),
            UninstallStep::ReloadManager => self.go(RemovalStage::ReloadManager),
            UninstallStep::RemoveCurrentGeneration => self.go(
                RemovalStage::RemoveCurrentGeneration,
            ),
            UninstallStep::RemovePreviousGeneration => if retained {
                self.go(RemovalStage::RemovePreviousGeneration)
            } else {
                self.advance()
            },
            UninstallStep::RemoveGenerationRoots => self.go(RemovalStage::RemoveRoots),
            UninstallStep::Finalize => self.go(RemovalStage::RemoveRecord),
        }
    }

    fn restored(self) -> (r: RemovalFlow)
        ensures
            r@ == restored(self@),
    {
        match self.record.pending_resolver_plan {
            Some(_) => self.go(RemovalStage::AcquireLease),
            None => self.end(conflict("the uninstall journal has no resolver plan identity")),
        }
    }

    fn done(self) -> (r: RemovalFlow)
        ensures
            r@ == removal_done(self@),
    {
        let broken = match self.error {
            Some(_) => true,
            None => false,
        };
        match self.stage {
            RemovalStage::SaveJournal => self.enter(),
            RemovalStage::StopResolver => self.go(RemovalStage::InspectActivation),
            RemovalStage::Deactivate => self.restored(),
            RemovalStage::AcquireLease => self.go(RemovalStage::ReachDaemon),
            RemovalStage::ReachDaemon => self.go(RemovalStage::InvalidatePlan),
            RemovalStage::InvalidatePlan => self.go(RemovalStage::InspectRestored),
            RemovalStage::ReleaseLease => if broken {
                self.go(RemovalStage::Finished)
            } else {
                self.advance()
            },
            RemovalStage::StopUnits
            | RemovalStage::RemoveUnitLinks
            | RemovalStage::RemovePublicLinks
            | RemovalStage::RemoveCurrent
            | RemovalStage::ReloadManager
            | RemovalStage::RemoveCurrentGeneration
            | RemovalStage::RemovePreviousGeneration
            | RemovalStage::RemoveRoots => self.advance(),
            RemovalStage::RemoveRecord => self.go(RemovalStage::Finished),
            RemovalStage::InspectActivation
            | RemovalStage::InspectRestored
            | RemovalStage::Finished => self,
        }
    }

    fn failed(self, e: Fault) -> (r: RemovalFlow)
        ensures
            r@ == removal_failed(self@, e@),
    {
        match self.stage {
            RemovalStage::ReachDaemon
            | RemovalStage::InvalidatePlan
            | RemovalStage::InspectRestored => RemovalFlow {
                stage: RemovalStage::ReleaseLease,
                error: Some(e),
                ..self
            },
            RemovalStage::ReleaseLease | RemovalStage::Finished => self,
            _ => self.end(e),
        }
    }

    /// Goes on from what came of the last action.
    pub fn step(self, event: RemovalEvent) -> (r: RemovalFlow)
        ensures
            r@ == removal_step(self@, event@),
    {
        match event {
            RemovalEvent::Done => self.done(),
            RemovalEvent::Failed(e) => self.failed(e),
            RemovalEvent::Activation(present) => match self.stage {
                RemovalStage::InspectActivation => if present {
                    self.go(RemovalStage::Deactivate)
                } else {
                    self.restored()
                },
                RemovalStage::InspectRestored => if present {
                    RemovalFlow {
                        stage: RemovalStage::ReleaseLease,
                        error: Some(
                            conflict("the resolver activation record remains after restoration"),
                        ),
                        ..self
                    }
                } else {
                    self.go(RemovalStage::ReleaseLease)
                },
                _ => self,
            },
        }
    }
}

// ---------------------------------------------------------------------------
// The request
// ---------------------------------------------------------------------------

/// What the request does next.
#[derive(Debug, Clone, Copy, PartialEq, Eq, Structural)]
pub enum UninstallStage {
    /// Prepare the plan without any lock.
    PrepareFirst,
    ConnectManager,
    /// Take the lifecycle lock.
    OpenStore,
    StopResolver,
    /// Take the resolver's authority.
    AcquireResolver,
    /// Prepare the plan again behind the locks.
    PrepareSecond,
    /// Read the record, to bring its generation back.
    LoadInstalled,
    /// Bring the installed generation back to health.
    RestartInstalled,
    /// Read the record that is to go.
    LoadRecord,
    /// Hold the installation to its record.
    VerifyActive,
    /// Look for foreign files in the state directory.
    PreflightState,
    /// Write the record with which the journal begins.
    SaveBegun,
    /// Go through the journal.
    RunJournal,
    /// Remove what is left of the state directory.
    CleanState,
    /// Nothing: the run is over.
    Finished,
}

/// What came of what was to be done.
#[derive(Debug)]
pub enum UninstallEvent {
    Done,
    Failed(Fault),
    Plan(PreparedPlan),
    Record(Option<InstallRecord>),
}

/// An event over plain values.
pub enum UninstallEventView {
    Done,
    Failed(FaultView),
    Plan(PlanView),
    Record(Option<RecordView>),
}

impl View for UninstallEvent {
    type V = UninstallEventView;

    open spec fn view(&self) -> UninstallEventView {
        match self {
            UninstallEvent::Done => UninstallEventView::Done,
            UninstallEvent::Failed(e) => UninstallEventView::Failed(e@),
            UninstallEvent::Plan(p) => UninstallEventView::Plan(p@),
            UninstallEvent::Record(r) => UninstallEventView::Record(option_record(*r)),
        }
    }
}

/// How far an uninstallation has come.
#[derive(Debug)]
pub struct UninstallFlow {
    pub stage: UninstallStage,
    pub approval_token: String,
    pub first: Option<PreparedPlan>,
    pub second: Option<PreparedPlan>,
    pub record: Option<InstallRecord>,
    pub error: Option<Fault>,
}

/// A run over plain values.
pub struct UninstallFlowView {
    pub stage: UninstallStage,
    pub approval_token: Seq<char>,
    pub first: Option<PlanView>,
    pub second: Option<PlanView>,
    pub record: Option<RecordView>,
    pub error: Option<FaultView>,
}

impl View for UninstallFlow {
    type V = UninstallFlowView;

    open spec fn view(&self) -> UninstallFlowView {
        UninstallFlowView {
            stage: self.stage,
            approval_token: self.approval_token@,
            first: option_plan(self.first),
            second: option_plan(self.second),
            record: option_record(self.record),
            error: option_fault(self.error),
        }
    }
}

pub open spec fn stopped(f: UninstallFlowView, e: FaultView) -> UninstallFlowView {
    UninstallFlowView { stage: UninstallStage::Finished, error: Some(e), ..f }
}

pub open spec fn onward(f: UninstallFlowView, stage: UninstallStage) -> UninstallFlowView {
    UninstallFlowView { stage, ..f }
}

/// A run that is given up: the installed generation is brought back first.
pub open spec fn given_up(f: UninstallFlowView, e: FaultView) -> UninstallFlowView {
    UninstallFlowView { stage: UninstallStage::LoadInstalled, error: Some(e), ..f }
}

/// What follows the second plan.
pub open spec fn with_second(f: UninstallFlowView, p: PlanView) -> UninstallFlowView {
    if !token_authorizes(p.approval_token, f.approval_token) {
        given_up(f, token_refused_of())
    } else if !(f.first is Some && same_plan_authority(f.first->0, p)) {
        given_up(
            f,
            conflict_of("the Linux lifecycle plan changed while acquiring resolver authority"@),
        )
    } else {
        UninstallFlowView { stage: UninstallStage::LoadRecord, second: Some(p), ..f }
    }
}

/// The journal begins with the plan that the daemon serves.
pub open spec fn begun(f: UninstallFlowView) -> UninstallFlowView {
    if !(f.second is Some && f.second->0.draft.daemon_plan_observed) {
        stopped(
            f,
            conflict_of(
                "the active daemon plan became unreachable after lifecycle authorization"@,
            ),
        )
    } else if f.second->0.draft.daemon_plan_identity is None {
        stopped(
            f,
            conflict_of("the active installation has no daemon resolver plan to invalidate"@),
        )
    } else if !(f.record is Some && f.record->0.phase == InstallPhase::Active) {
        stopped(f, invalid_record_of())
    } else {
        UninstallFlowView {
            stage: UninstallStage::SaveBegun,
            record: Some(
                RecordView {
                    phase: InstallPhase::Uninstalling(UninstallStep::RestoreResolver),
                    pending_resolver_plan: f.second->0.draft.daemon_plan_identity,
                    ..f.record->0
                },
            ),
            ..f
        }
    }
}

/// Where a run goes from an event. An event that does not belong to the stage
/// changes nothing.
pub open spec fn uninstall_step(f: UninstallFlowView, e: UninstallEventView) -> UninstallFlowView {
    match e {
        UninstallEventView::Failed(x) => match f.stage {
            UninstallStage::AcquireResolver | UninstallStage::PrepareSecond => given_up(f, x),
            UninstallStage::Finished => f,
            _ => stopped(f, x),
        },
        UninstallEventView::Done => match f.stage {
            UninstallStage::ConnectManager => onward(f, UninstallStage::OpenStore),
            UninstallStage::OpenStore => onward(f, UninstallStage::StopResolver),
            UninstallStage::StopResolver => onward(f, UninstallStage::AcquireResolver),
            UninstallStage::AcquireResolver => onward(f, UninstallStage::PrepareSecond),
            UninstallStage::RestartInstalled => onward(f, UninstallStage::Finished),
            UninstallStage::VerifyActive => onward(f, UninstallStage::PreflightState),
            UninstallStage::PreflightState => begun(f),
            UninstallStage::SaveBegun => onward(f, UninstallStage::RunJournal),
            UninstallStage::RunJournal => onward(f, UninstallStage::CleanState),
            UninstallStage::CleanState => onward(f, UninstallStage::Finished),
            _ => f,
        },
        UninstallEventView::Plan(p) => match f.stage {
            UninstallStage::PrepareFirst => if token_authorizes(
                p.approval_token,
                f.approval_token,
            ) {
                UninstallFlowView { stage: UninstallStage::ConnectManager, first: Some(p), ..f }
            } else {
                stopped(f, token_refused_of())
            },
            UninstallStage::PrepareSecond => with_second(f, p),
            _ => f,
        },
        UninstallEventView::Record(r) => match f.stage {
            UninstallStage::LoadInstalled => onward(
                f,
                if r is Some && r->0.phase == InstallPhase::Active {
                    UninstallStage::RestartInstalled
                } else {
                    UninstallStage::Finished
                },
            ),
            UninstallStage::LoadRecord => if r is Some {
                UninstallFlowView { stage: UninstallStage::VerifyActive, record: r, ..f }
            } else {
                stopped(f, conflict_of("Remap is not installed"@))
            },
            _ => f,
        },
    }
}

/// A run that has just begun.
pub open spec fn uninstall_begun(effective_uid: u32, approval_token: Seq<char>) -> UninstallFlowView {
    UninstallFlowView {
        stage: if effective_uid == 0 {
            UninstallStage::PrepareFirst
        } else {
            UninstallStage::Finished
        },
        approval_token,
        first: None,
        second: None,
        record: None,
        error: if effective_uid == 0 {
            None
        } else {
            Some(
                FaultView {
                    kind: FaultKind::PermissionDenied,
                    message: "the Linux installer requires root"@,
                },
            )
        },
    }
}

impl UninstallFlow {
    /// Begins a run.
    pub fn begin(effective_uid: u32, approval_token: String) -> (r: UninstallFlow)
        ensures
            r@ == uninstall_begun(effective_uid, approval_token@),
    {
        let root = effective_uid == 0;
        UninstallFlow {
            stage: if root {
                UninstallStage::PrepareFirst
            } else {
                UninstallStage::Finished
            },
            approval_token,
            first: None,
            second: None,
            record: None,
            error: if root {
                None
            } else {
                Some(fault(FaultKind::PermissionDenied, "the Linux installer requires root"))
            },
        }
    }

    fn go(self, stage: UninstallStage) -> (r: UninstallFlow)
        ensures
            r@ == onward(self@, stage),
    {
        UninstallFlow { stage, ..self }
    }

    fn end(self, e: Fault) -> (r: UninstallFlow)
        ensures
            r@ == stopped(self@, e@),
    {
        UninstallFlow { stage: UninstallStage::Finished, error: Some(e), ..self }
    }

    fn give_up(self, e: Fault) -> (r: UninstallFlow)
        ensures
            r@ == given_up(self@, e@),
    {
        UninstallFlow { stage: UninstallStage::LoadInstalled, error: Some(e), ..self }
    }

    fn take_second(self, p: PreparedPlan) -> (r: UninstallFlow)
        ensures
            r@ == with_second(self@, p@),
    {
        if let Err(e) = p.require_token(self.approval_token.as_str()) {
            return self.give_up(e);
        }
        let unchanged = match &self.first {
            Some(first) => first.same_authority(&p),
            None => false,
        };
        if !unchanged {
            return self.give_up(
                conflict("the Linux lifecycle plan changed while acquiring resolver authority"),
            );
        }
        UninstallFlow { stage: UninstallStage::LoadRecord, second: Some(p), ..self }
    }

    fn begin_journal(self) -> (r: UninstallFlow)
        ensures
            r@ == begun(self@),
    {
        let (observed, identity) = match &self.second {
            Some(p) => (p.draft.daemon_plan_observed, p.draft.daemon_plan_identity),
            None => (false, None),
        };
        if !observed {
            return self.end(
                conflict("the active daemon plan became unreachable after lifecycle authorization"),
            );
        }
        let plan = match identity {
            None => {
                return self.end(
                    conflict("the active installation has no daemon resolver plan to invalidate"),
                );
            },
            Some(plan) => plan,
        };
        let mut f = self;
        let taken = f.record.take();
        match taken {
            None => {
                let g = UninstallFlow { record: None, ..f };
                g.end(crate::fault::invalid_data("the Linux installation record is invalid"))
            },
            Some(record) => {
                let mut record = record;
                let outcome = record.begin_uninstall(plan);
                let g = UninstallFlow { record: Some(record), ..f };
                match outcome {
                    Err(e) => g.end(e),
                    Ok(_) => g.go(UninstallStage::SaveBegun),
                }
            },
        }
    }

    fn done(self) -> (r: UninstallFlow)
        ensures
            r@ == uninstall_step(self@, UninstallEventView::Done),
    {
        match self.stage {
            UninstallStage::ConnectManager => self.go(UninstallStage::OpenStore),
            UninstallStage::OpenStore => self.go(UninstallStage::StopResolver),
            UninstallStage::StopResolver => self.go(UninstallStage::AcquireResolver),
            UninstallStage::AcquireResolver => self.go(UninstallStage::PrepareSecond),
            UninstallStage::RestartInstalled => self.go(UninstallStage::Finished),
            UninstallStage::VerifyActive => self.go(UninstallStage::PreflightState),
            UninstallStage::PreflightState => self.begin_journal(),
            UninstallStage::SaveBegun => self.go(UninstallStage::RunJournal),
            UninstallStage::RunJournal => self.go(UninstallStage::CleanState),
            UninstallStage::CleanState => self.go(UninstallStage::Finished),
            _ => self,
        }
    }

    fn planned(self, p: PreparedPlan) -> (r: UninstallFlow)
        ensures
            r@ == uninstall_step(self@, UninstallEventView::Plan(p@)),
    {
        match self.stage {
            UninstallStage::PrepareFirst => {
                if let Err(e) = p.require_token(self.approval_token.as_str()) {
                    return self.end(e);
                }
                UninstallFlow { stage: UninstallStage::ConnectManager, first: Some(p), ..self }
            },
            UninstallStage::PrepareSecond => self.take_second(p),
            _ => self,
        }
    }

    fn loaded(self, record: Option<InstallRecord>) -> (r: UninstallFlow)
        ensures
            r@ == uninstall_step(self@, UninstallEventView::Record(option_record(record))),
    {
        match self.stage {
            UninstallStage::LoadInstalled => {
                let active = match &record {
                    Some(r) => r.phase == InstallPhase::Active,
                    None => false,
                };
                if active {
                    self.go(UninstallStage::RestartInstalled)
                } else {
                    self.go(UninstallStage::Finished)
                }
            },
            UninstallStage::LoadRecord => match record {
                Some(r) => UninstallFlow {
                    stage: UninstallStage::VerifyActive,
                    record: Some(r),
                    ..self
                },
                None => self.end(conflict("Remap is not installed")),
            },
            _ => self,
        }
    }

    /// Goes on from what came of the last action.
    pub fn step(self, event: UninstallEvent) -> (r: UninstallFlow)
        ensures
            r@ == uninstall_step(self@, event@),
    {
        match event {
            UninstallEvent::Failed(e) => match self.stage {
                UninstallStage::AcquireResolver | UninstallStage::PrepareSecond => self.give_up(e),
                UninstallStage::Finished => self,
                _ => self.end(e),
            },
            UninstallEvent::Done => self.done(),
            UninstallEvent::Plan(p) => self.planned(p),
            UninstallEvent::Record(r) => self.loaded(r),
        }
    }
}

// ---------------------------------------------------------------------------
// Laws
// ---------------------------------------------------------------------------

/// A journal never skips a step and never goes back: each event keeps the step
/// or goes on to the one behind it, and nothing else of the record changes.
pub proof fn law_uninstall_passes_every_step(f: RemovalFlowView, e: RemovalEventView)
    requires
        f.record.phase is Uninstalling,
    ensures
        ({
            let g = removal_step(f, e);
            &&& g.record == (RecordView { phase: g.record.phase, ..f.record })
            &&& g.record.phase is Uninstalling
            &&& uninstall_index(f.record.phase->Uninstalling_0) <= uninstall_index(
                g.record.phase->Uninstalling_0,
            ) <= uninstall_index(f.record.phase->Uninstalling_0) + 1
            &&& g.record.phase != f.record.phase ==> g.stage == RemovalStage::SaveJournal
        }),
{
}

/// Where a journal comes to after some events.
pub open spec fn removal_run(f: RemovalFlowView, events: Seq<RemovalEventView>) -> RemovalFlowView
    decreases events.len(),
{
    if events.len() == 0 {
        f
    } else {
        removal_step(removal_run(f, events.drop_last()), events.last())
    }
}

/// The step that a stage belongs to.
pub open spec fn stage_step(stage: RemovalStage) -> Option<UninstallStep> {
    match stage {
        RemovalStage::StopResolver | RemovalStage::InspectActivation | RemovalStage::Deactivate
        | RemovalStage::AcquireLease | RemovalStage::ReachDaemon | RemovalStage::InvalidatePlan
        | RemovalStage::InspectRestored | RemovalStage::ReleaseLease => Some(
            UninstallStep::RestoreResolver,
        ),
        RemovalStage::StopUnits => Some(UninstallStep::StopServices),
        RemovalStage::RemoveUnitLinks => Some(UninstallStep::RemoveUnitLinks),
        RemovalStage::RemovePublicLinks => Some(UninstallStep::RemovePublicPaths),
        RemovalStage::RemoveCurrent => Some(UninstallStep::RemoveCurrent),
        RemovalStage::ReloadManager => Some(UninstallStep::ReloadManager),
        RemovalStage::RemoveCurrentGeneration => Some(UninstallStep::RemoveCurrentGeneration),
        RemovalStage::RemovePreviousGeneration => Some(UninstallStep::RemovePreviousGeneration),
        RemovalStage::RemoveRoots => Some(UninstallStep::RemoveGenerationRoots),
        RemovalStage::RemoveRecord => Some(UninstallStep::Finalize),
        RemovalStage::SaveJournal | RemovalStage::Finished => None,
    }
}

/// What every journal keeps.
pub open spec fn removal_valid(f: RemovalFlowView) -> bool {
    &&& stage_step(f.stage) is Some ==> f.record.phase == InstallPhase::Uninstalling(
        stage_step(f.stage)->0,
    )
    &&& f.stage == RemovalStage::SaveJournal ==> f.record.phase is Uninstalling && f.error is None
    &&& f.error is Some ==> f.stage == RemovalStage::ReleaseLease || f.stage
        == RemovalStage::Finished
    &&& f.stage == RemovalStage::Finished && f.error is None ==> f.record.phase
        == InstallPhase::Uninstalling(UninstallStep::Finalize)
}

/// Every action of an uninstallation is one of the step that its journal stands
/// at, and a journal that ends without a failure has passed its last step,
/// whatever happened on the way.
pub proof fn law_uninstall_acts_on_its_journal(record: RecordView, events: Seq<RemovalEventView>)
    ensures
        removal_valid(removal_run(removal_resumed(record), events)),
    decreases events.len(),
{
    if events.len() > 0 {
        law_uninstall_acts_on_its_journal(record, events.drop_last());
    }
}

/// Where a request comes to after some events.
pub open spec fn uninstall_run(
    f: UninstallFlowView,
    events: Seq<UninstallEventView>,
) -> UninstallFlowView
    decreases events.len(),
{
    if events.len() == 0 {
        f
    } else {
        uninstall_step(uninstall_run(f, events.drop_last()), events.last())
    }
}

/// What every request keeps.
pub open spec fn uninstall_approved(f: UninstallFlowView) -> bool {
    &&& f.first is Some ==> token_authorizes(f.first->0.approval_token, f.approval_token)
    &&& f.second is Some ==> {
        &&& f.first is Some
        &&& token_authorizes(f.second->0.approval_token, f.approval_token)
        &&& same_plan_authority(f.first->0, f.second->0)
    }
    &&& f.stage == UninstallStage::PrepareFirst ==> f.first is None && f.second is None
    &&& f.stage == UninstallStage::LoadRecord || f.stage == UninstallStage::VerifyActive || f.stage
        == UninstallStage::PreflightState || f.stage == UninstallStage::SaveBegun || f.stage
        == UninstallStage::RunJournal || f.stage == UninstallStage::CleanState ==> f.second is Some
    &&& f.stage == UninstallStage::SaveBegun || f.stage == UninstallStage::RunJournal
        ==> f.record is Some && f.record->0.phase == InstallPhase::Uninstalling(
        UninstallStep::RestoreResolver,
    ) && f.record->0.pending_resolver_plan is Some && f.record->0.pending_resolver_plan
        == f.second->0.draft.daemon_plan_identity
    &&& f.first is None ==> f.stage == UninstallStage::PrepareFirst || f.stage
        == UninstallStage::Finished
}

/// The journal of an uninstallation begins only where the token authorizes the
/// plan as it was before and as it is behind the locks, both are the same, and
/// the plan to withdraw is the one that the daemon was seen to serve.
pub proof fn law_uninstallation_is_approved_twice(
    effective_uid: u32,
    approval_token: Seq<char>,
    events: Seq<UninstallEventView>,
)
    ensures
        uninstall_approved(uninstall_run(uninstall_begun(effective_uid, approval_token), events)),
    decreases events.len(),
{
    if events.len() > 0 {
        law_uninstallation_is_approved_twice(effective_uid, approval_token, events.drop_last());
    }
}

/// Where the second plan is refused or cannot be made, the record is read and an
/// active installation is brought back before the failure is reported.
pub proof fn law_refused_uninstallations_bring_the_runtime_back(
    f: UninstallFlowView,
    e: UninstallEventView,
)
    requires
        f.stage == UninstallStage::AcquireResolver || f.stage == UninstallStage::PrepareSecond,
        f.error is None,
        uninstall_step(f, e).error is Some,
    ensures
        uninstall_step(f, e).stage == UninstallStage::LoadInstalled,
        forall|r: RecordView|
            r.phase == InstallPhase::Active ==> (#[trigger] uninstall_step(
                uninstall_step(f, e),
                UninstallEventView::Record(Some(r)),
            )).stage == UninstallStage::RestartInstalled,
{
}

/// The steps of an uninstallation, in the order of its journal.
pub open spec fn uninstall_order() -> Seq<UninstallStep> {
    seq![
        UninstallStep::RestoreResolver,
        UninstallStep::StopServices,
        UninstallStep::RemoveUnitLinks,
        UninstallStep::RemovePublicPaths,
        UninstallStep::RemoveCurrent,
        UninstallStep::ReloadManager,
        UninstallStep::RemoveCurrentGeneration,
        UninstallStep::RemovePreviousGeneration,
        UninstallStep::RemoveGenerationRoots,
        UninstallStep::Finalize,
    ]
}

/// The position of a step is its place in the order.
pub proof fn law_uninstall_order(step: UninstallStep)
    ensures
        0 <= uninstall_index(step) < uninstall_order().len(),
        uninstall_order()[uninstall_index(step)] == step,
{
}

/// Whether an event is the success of what a stage of the journal is to do.
pub open spec fn succeeds(stage: RemovalStage, e: RemovalEventView) -> bool {
    match stage {
        RemovalStage::InspectActivation => e is Activation,
        RemovalStage::InspectRestored => e == RemovalEventView::Activation(false),
        RemovalStage::Finished => false,
        _ => e is Done,
    }
}

/// The stages that a journal has passed with success, in their order.
pub open spec fn removal_passed(f: RemovalFlowView, events: Seq<RemovalEventView>) -> Seq<
    RemovalStage,
>
    decreases events.len(),
{
    if events.len() == 0 {
        Seq::empty()
    } else {
        let before = removal_passed(f, events.drop_last());
        let stage = removal_run(f, events.drop_last()).stage;
        if succeeds(stage, events.last()) {
            before.push(stage)
        } else {
            before
        }
    }
}

/// What is done at a step: whether there is an activation to undo, and whether
/// there is a previous generation.
pub open spec fn step_stages(step: UninstallStep, present: bool, retained: bool) -> Seq<
    RemovalStage,
> {
    match step {
        UninstallStep::RestoreResolver => seq![
            RemovalStage::StopResolver,
            RemovalStage::InspectActivation,
        ] + only_if(present, seq![RemovalStage::Deactivate]) + seq![
            RemovalStage::AcquireLease,
            RemovalStage::ReachDaemon,
            RemovalStage::InvalidatePlan,
            RemovalStage::InspectRestored,
            RemovalStage::ReleaseLease,
        ],
        UninstallStep::StopServices => seq![RemovalStage::StopUnits],
        UninstallStep::RemoveUnitLinks => seq![RemovalStage::RemoveUnitLinks],
        UninstallStep::RemovePublicPaths => seq![RemovalStage::RemovePublicLinks],
        UninstallStep::RemoveCurrent => seq![RemovalStage::RemoveCurrent],
        UninstallStep::ReloadManager => seq![RemovalStage::ReloadManager],
        UninstallStep::RemoveCurrentGeneration => seq![RemovalStage::RemoveCurrentGeneration],
        UninstallStep::RemovePreviousGeneration => only_if(
            retained,
            seq![RemovalStage::RemovePreviousGeneration],
        ),
        UninstallStep::RemoveGenerationRoots => seq![RemovalStage::RemoveRoots],
        UninstallStep::Finalize => seq![RemovalStage::RemoveRecord],
    }
}

/// What is done at the step at a position, with what precedes it: the journal is
/// written first, but for the step at which it goes on.
pub open spec fn removal_part(start: int, k: int, present: bool, retained: bool) -> Seq<
    RemovalStage,
> {
    only_if(k != start, seq![RemovalStage::SaveJournal]) + step_stages(
        uninstall_order()[k],
        present,
        retained,
    )
}

/// What is done at the steps from the first position up to the last one, which is
/// left out.
pub open spec fn removal_course(start: int, end: int, present: bool, retained: bool) -> Seq<
    RemovalStage,
>
    decreases end - start,
{
    if end <= start {
        Seq::empty()
    } else {
        removal_course(start, end - 1, present, retained) + removal_part(
            start,
            end - 1,
            present,
            retained,
        )
    }
}

/// Whether each look for the activation at the beginning finds one, or none does.
pub open spec fn removal_finds(
    f: RemovalFlowView,
    events: Seq<RemovalEventView>,
    present: bool,
) -> bool
    decreases events.len(),
{
    if events.len() == 0 {
        true
    } else {
        let stage = removal_run(f, events.drop_last()).stage;
        &&& removal_finds(f, events.drop_last(), present)
        &&& stage == RemovalStage::InspectActivation && events.last() is Activation
            ==> events.last()->Activation_0 == present
    }
}

/// Whether no event is a failure, and no activation is left behind its
/// restoration.
pub open spec fn removal_undisturbed(f: RemovalFlowView, events: Seq<RemovalEventView>) -> bool
    decreases events.len(),
{
    if events.len() == 0 {
        true
    } else {
        let stage = removal_run(f, events.drop_last()).stage;
        &&& removal_undisturbed(f, events.drop_last())
        &&& !(events.last() is Failed)
        &&& stage == RemovalStage::InspectRestored ==> events.last()
            != RemovalEventView::Activation(true)
    }
}

/// The stages that were passed since the journal came to its step.
spec fn removal_acted(f: RemovalFlowView, events: Seq<RemovalEventView>) -> Seq<RemovalStage>
    decreases events.len(),
{
    if events.len() == 0 {
        Seq::empty()
    } else {
        let g = removal_run(f, events.drop_last());
        if removal_step(g, events.last()).record.phase != g.record.phase {
            Seq::empty()
        } else if succeeds(g.stage, events.last()) {
            removal_acted(f, events.drop_last()).push(g.stage)
        } else {
            removal_acted(f, events.drop_last())
        }
    }
}

/// What every journal keeps of its course.
spec fn removal_kept(
    f: RemovalFlowView,
    acted: Seq<RemovalStage>,
    start: int,
    present: bool,
    retained: bool,
) -> bool {
    &&& f.record.phase is Uninstalling
    &&& f.record.previous is Some == retained
    &&& f.record.pending_resolver_plan is Some
    &&& f.error is None ==> {
        let k = uninstall_index(f.record.phase->Uninstalling_0);
        &&& start <= k
        &&& on_course(removal_part(start, k, present, retained), acted, f.stage, RemovalStage::Finished)
        &&& k < 9 ==> acted.len() < removal_part(start, k, present, retained).len()
    }
}

/// Whether a journal on its course has passed a stage.
spec fn removal_ready(
    f: RemovalFlowView,
    acted: Seq<RemovalStage>,
    e: RemovalEventView,
    start: int,
    present: bool,
    retained: bool,
) -> bool {
    &&& removal_kept(f, acted, start, present, retained)
    &&& 0 <= start
    &&& f.error is None
    &&& succeeds(f.stage, e)
    &&& f.stage == RemovalStage::InspectActivation ==> e == RemovalEventView::Activation(present)
}

/// Whether a journal goes on as its course says: at the next stage of the step, or
/// behind the last one at the next step, which is written first.
spec fn removal_goes_on(
    f: RemovalFlowView,
    acted: Seq<RemovalStage>,
    e: RemovalEventView,
    start: int,
    present: bool,
    retained: bool,
) -> bool {
    let g = removal_step(f, e);
    let k = uninstall_index(f.record.phase->Uninstalling_0);
    let part = removal_part(start, k, present, retained);
    let n = acted.len() as int;
    &&& n < part.len()
    &&& g.error is None
    &&& g.record.phase is Uninstalling
    &&& g.record.phase == f.record.phase ==> g.stage == (if n + 1 < part.len() {
        part[n + 1]
    } else {
        RemovalStage::Finished
    }) && (n + 1 == part.len() ==> k == 9)
    &&& g.record.phase != f.record.phase ==> n + 1 == part.len() && g.stage
        == RemovalStage::SaveJournal && uninstall_index(g.record.phase->Uninstalling_0) == k + 1
}

#[verifier::spinoff_prover]
#[verifier::rlimit(60)]
proof fn lemma_resolver_go_on(
    f: RemovalFlowView,
    acted: Seq<RemovalStage>,
    e: RemovalEventView,
    start: int,
    present: bool,
    retained: bool,
)
    requires
        removal_ready(f, acted, e, start, present, retained),
        f.record.phase == InstallPhase::Uninstalling(UninstallStep::RestoreResolver),
    ensures
        removal_goes_on(f, acted, e, start, present, retained),
{
    law_uninstall_order(f.record.phase->Uninstalling_0);
}

#[verifier::spinoff_prover]
#[verifier::rlimit(60)]
proof fn lemma_effects_go_on(
    f: RemovalFlowView,
    acted: Seq<RemovalStage>,
    e: RemovalEventView,
    start: int,
    present: bool,
    retained: bool,
)
    requires
        removal_ready(f, acted, e, start, present, retained),
        f.record.phase != InstallPhase::Uninstalling(UninstallStep::RestoreResolver),
    ensures
        removal_goes_on(f, acted, e, start, present, retained),
{
    law_uninstall_order(f.record.phase->Uninstalling_0);
}

/// What is no success of a stage changes nothing, or is a failure.
proof fn lemma_no_success(f: RemovalFlowView, e: RemovalEventView)
    requires
        f.error is None,
        !succeeds(f.stage, e),
    ensures
        removal_step(f, e) == f || (removal_step(f, e).error is Some && removal_step(f, e).record
            == f.record && (e is Failed || (f.stage == RemovalStage::InspectRestored && e
            == RemovalEventView::Activation(true)))),
{
}

proof fn lemma_removal_run(
    f: RemovalFlowView,
    events: Seq<RemovalEventView>,
    start: int,
    present: bool,
    retained: bool,
)
    requires
        removal_kept(f, Seq::empty(), start, present, retained),
        f.error is None,
        0 <= start,
        start == uninstall_index(f.record.phase->Uninstalling_0),
        removal_finds(f, events, present),
    ensures
        ({
            let g = removal_run(f, events);
            &&& removal_kept(g, removal_acted(f, events), start, present, retained)
            &&& g.error is None ==> removal_passed(f, events) == removal_course(
                start,
                uninstall_index(g.record.phase->Uninstalling_0),
                present,
                retained,
            ) + removal_acted(f, events)
            &&& removal_undisturbed(f, events) ==> g.error is None
        }),
    decreases events.len(),
{
    if events.len() == 0 {
        assert(removal_passed(f, events) =~= removal_course(start, start, present, retained)
            + removal_acted(f, events));
        return ;
    }
    let before = events.drop_last();
    let e = events.last();
    lemma_removal_run(f, before, start, present, retained);
    let g = removal_run(f, before);
    let h = removal_run(f, events);
    let acted = removal_acted(f, before);
    let passed = removal_passed(f, before);
    law_uninstall_passes_every_step(g, e);
    if g.error is Some {
        assert(h.error is Some);
    } else if !succeeds(g.stage, e) {
        lemma_no_success(g, e);
    } else {
        let k = uninstall_index(g.record.phase->Uninstalling_0);
        let part = removal_part(start, k, present, retained);
        let head = removal_course(start, k, present, retained);
        if g.record.phase == InstallPhase::Uninstalling(UninstallStep::RestoreResolver) {
            lemma_resolver_go_on(g, acted, e, start, present, retained);
        } else {
            lemma_effects_go_on(g, acted, e, start, present, retained);
        }
        lemma_passes(
            part,
            acted,
            g.stage,
            if acted.len() + 1 < part.len() {
                part[acted.len() as int + 1]
            } else {
                RemovalStage::Finished
            },
            RemovalStage::Finished,
        );
        assert(passed.push(g.stage) =~= head + acted.push(g.stage));
        if h.record.phase != g.record.phase {
            let next = removal_part(start, k + 1, present, retained);
            assert(acted.push(g.stage) =~= part);
            assert(removal_course(start, k + 1, present, retained) == head + part);
            assert(removal_passed(f, events) =~= removal_course(start, k + 1, present, retained)
                + Seq::<RemovalStage>::empty());
            assert(next[0] == RemovalStage::SaveJournal);
            assert(next.subrange(0, 0) =~= Seq::<RemovalStage>::empty());
        }
    }
}

/// What is done up to a step begins what is done up to a later one.
proof fn lemma_removal_course(start: int, k: int, end: int, present: bool, retained: bool) -> (tail:
    Seq<RemovalStage>)
    requires
        start <= k <= end,
    ensures
        removal_course(start, end, present, retained) == removal_course(start, k, present, retained)
            + tail,
        k == end ==> tail.len() == 0,
    decreases end - k,
{
    let head = removal_course(start, k, present, retained);
    if k == end {
        assert(head =~= head + Seq::<RemovalStage>::empty());
        Seq::empty()
    } else {
        let rest = lemma_removal_course(start, k, end - 1, present, retained);
        let part = removal_part(start, end - 1, present, retained);
        assert(removal_course(start, end, present, retained) =~= head + (rest + part));
        rest + part
    }
}

/// No stage of a course is the end.
proof fn lemma_removal_course_goes_on(start: int, end: int, present: bool, retained: bool)
    requires
        0 <= start,
        end <= 10,
    ensures
        !removal_course(start, end, present, retained).contains(RemovalStage::Finished),
    decreases end - start,
{
    if end > start {
        lemma_removal_course_goes_on(start, end - 1, present, retained);
        let head = removal_course(start, end - 1, present, retained);
        let part = removal_part(start, end - 1, present, retained);
        let stages = step_stages(uninstall_order()[end - 1], present, retained);
        assert(forall|i: int| 0 <= i < stages.len() ==> stages[i] != RemovalStage::Finished);
        assert(forall|i: int| 0 <= i < part.len() ==> part[i] != RemovalStage::Finished);
        assert forall|i: int| 0 <= i < (head + part).len() implies (head + part)[i]
            != RemovalStage::Finished by {
            if i < head.len() {
                assert(head.contains(head[i]));
            } else {
                assert((head + part)[i] == part[i - head.len()]);
            }
        }
    }
}

/// An uninstallation goes through all steps of its journal from the one at which it
/// stands, and at each step through the stages that have its effects: as long as
/// nothing failed it has passed a beginning of its course, each stage with success,
/// and is at the stage behind it. So one that ends without a failure has passed all
/// of them, in their order, and nothing else. Where nothing fails, it never comes to
/// a failure. The one step left out is one at which there is nothing to do, so that
/// the journal is at the next step at once.
pub proof fn law_uninstallation_follows_its_course(
    record: RecordView,
    step: UninstallStep,
    events: Seq<RemovalEventView>,
    present: bool,
)
    requires
        record.phase == InstallPhase::Uninstalling(step),
        record.pending_resolver_plan is Some,
        removal_finds(removal_resumed(record), events, present),
    ensures
        ({
            let resumed = removal_resumed(record);
            let f = removal_run(resumed, events);
            let retained = record.previous is Some;
            let course = if !retained && step == UninstallStep::RemovePreviousGeneration {
                seq![
                    RemovalStage::SaveJournal,
                    RemovalStage::RemoveRoots,
                    RemovalStage::SaveJournal,
                    RemovalStage::RemoveRecord,
                ]
            } else {
                removal_course(uninstall_index(step), 10, present, retained)
            };
            let passed = removal_passed(resumed, events);
            &&& f.error is None ==> on_course(course, passed, f.stage, RemovalStage::Finished)
            &&& f.error is None && f.stage == RemovalStage::Finished ==> passed == course
            &&& removal_undisturbed(resumed, events) ==> f.error is None
        }),
{
    let resumed = removal_resumed(record);
    let retained = record.previous is Some;
    law_uninstall_order(step);
    if !retained && step == UninstallStep::RemovePreviousGeneration {
        lemma_removal_at_roots(record, events, present);
    } else {
        let start = uninstall_index(step);
        let part = removal_part(start, start, present, retained);
        assert(part[0] == resumed.stage);
        assert(part.subrange(0, 0) =~= Seq::<RemovalStage>::empty());
        lemma_removal_run(resumed, events, start, present, retained);
        let g = removal_run(resumed, events);
        let course = removal_course(start, 10, present, retained);
        if g.error is None {
            let k = uninstall_index(g.record.phase->Uninstalling_0);
            law_uninstall_order(g.record.phase->Uninstalling_0);
            let head = removal_course(start, k, present, retained);
            let here = removal_part(start, k, present, retained);
            let tail = lemma_removal_course(start, k + 1, 10, present, retained);
            lemma_part(
                head,
                here,
                tail,
                removal_acted(resumed, events),
                g.stage,
                RemovalStage::Finished,
            );
            assert(course == head + here + tail);
            if g.stage == RemovalStage::Finished {
                lemma_removal_course_goes_on(start, 10, present, retained);
                lemma_passed(course, removal_passed(resumed, events), RemovalStage::Finished);
            }
        }
    }
}

/// A journal that has no previous generation to remove is at the roots.
proof fn lemma_removal_at_roots(record: RecordView, events: Seq<RemovalEventView>, present: bool)
    requires
        record.phase == InstallPhase::Uninstalling(UninstallStep::RemovePreviousGeneration),
        record.previous is None,
        record.pending_resolver_plan is Some,
    ensures
        ({
            let resumed = removal_resumed(record);
            let f = removal_run(resumed, events);
            let course = seq![
                RemovalStage::SaveJournal,
                RemovalStage::RemoveRoots,
                RemovalStage::SaveJournal,
                RemovalStage::RemoveRecord,
            ];
            let passed = removal_passed(resumed, events);
            &&& f.error is None ==> on_course(course, passed, f.stage, RemovalStage::Finished)
            &&& f.error is None && f.stage == RemovalStage::Finished ==> passed == course
            &&& f.error is None ==> f.record.phase == InstallPhase::Uninstalling(
                if passed.len() < 2 {
                    UninstallStep::RemoveGenerationRoots
                } else {
                    UninstallStep::Finalize
                },
            )
            &&& removal_undisturbed(resumed, events) ==> f.error is None
        }),
    decreases events.len(),
{
    let resumed = removal_resumed(record);
    let course = seq![
        RemovalStage::SaveJournal,
        RemovalStage::RemoveRoots,
        RemovalStage::SaveJournal,
        RemovalStage::RemoveRecord,
    ];
    if events.len() == 0 {
        assert(course.subrange(0, 0) =~= removal_passed(resumed, events));
    } else {
        let before = events.drop_last();
        lemma_removal_at_roots(record, before, present);
        let g = removal_run(resumed, before);
        let h = removal_run(resumed, events);
        if g.error is None && succeeds(g.stage, events.last()) {
            lemma_passes(
                course,
                removal_passed(resumed, before),
                g.stage,
                h.stage,
                RemovalStage::Finished,
            );
        }
        if h.error is None && h.stage == RemovalStage::Finished {
            lemma_passed(course, removal_passed(resumed, events), RemovalStage::Finished);
        }
    }
}

/// Whether a journal holds the permission to start: it was given and not withdrawn
/// since.
pub open spec fn removal_leased(f: RemovalFlowView, events: Seq<RemovalEventView>) -> bool
    decreases events.len(),
{
    if events.len() == 0 {
        false
    } else {
        let stage = removal_run(f, events.drop_last()).stage;
        if events.last() is Done && stage == RemovalStage::AcquireLease {
            true
        } else if events.last() is Done && stage == RemovalStage::ReleaseLease {
            false
        } else {
            removal_leased(f, events.drop_last())
        }
    }
}

/// However an uninstallation goes, the permission to start is withdrawn before it
/// goes on or ends.
pub proof fn law_uninstallation_withdraws_permissions(
    record: RecordView,
    events: Seq<RemovalEventView>,
)
    ensures
        ({
            let f = removal_run(removal_resumed(record), events);
            removal_leased(removal_resumed(record), events) <==> f.stage
                == RemovalStage::ReachDaemon || f.stage == RemovalStage::InvalidatePlan || f.stage
                == RemovalStage::InspectRestored || f.stage == RemovalStage::ReleaseLease
        }),
    decreases events.len(),
{
    if events.len() > 0 {
        law_uninstallation_withdraws_permissions(record, events.drop_last());
    }
}

/// What fails is reported, and nothing of the journal is done behind it. A journal
/// without the plan to withdraw, or with an activation left behind its restoration,
/// ends in the same way.
pub proof fn law_removal_failures_are_reported(f: RemovalFlowView, x: FaultView)
    ensures
        ({
            let g = removal_step(f, RemovalEventView::Failed(x));
            let released = removal_step(g, RemovalEventView::Done);
            &&& g.record == f.record
            &&& f.stage != RemovalStage::ReleaseLease && f.stage != RemovalStage::Finished
                ==> g.error == Some(x)
            &&& f.stage == RemovalStage::ReachDaemon || f.stage == RemovalStage::InvalidatePlan
                || f.stage == RemovalStage::InspectRestored ==> g.stage
                == RemovalStage::ReleaseLease && released.stage == RemovalStage::Finished
                && released.error == Some(x) && released.record == f.record
        }),
        ({
            let g = removal_step(f, RemovalEventView::Activation(true));
            f.stage == RemovalStage::InspectRestored ==> g.stage == RemovalStage::ReleaseLease
                && g.error == Some(
                conflict_of("the resolver activation record remains after restoration"@),
            ) && removal_step(g, RemovalEventView::Done).stage == RemovalStage::Finished
        }),
        f.record.pending_resolver_plan is None && (f.stage == RemovalStage::Deactivate || f.stage
            == RemovalStage::InspectActivation) ==> ({
            let g = removal_step(
                f,
                if f.stage == RemovalStage::Deactivate {
                    RemovalEventView::Done
                } else {
                    RemovalEventView::Activation(false)
                },
            );
            g.stage == RemovalStage::Finished && g.error == Some(
                conflict_of("the uninstall journal has no resolver plan identity"@),
            ) && g.record == f.record
        }),
{
}

/// Whether an event is the success of what a stage of a request is to do.
pub open spec fn request_succeeds(stage: UninstallStage, e: UninstallEventView) -> bool {
    match stage {
        UninstallStage::PrepareFirst | UninstallStage::PrepareSecond => e is Plan,
        UninstallStage::LoadInstalled | UninstallStage::LoadRecord => e is Record,
        UninstallStage::Finished => false,
        _ => e is Done,
    }
}

/// The stages that a request has passed, in their order.
pub open spec fn uninstall_passed(f: UninstallFlowView, events: Seq<UninstallEventView>) -> Seq<
    UninstallStage,
>
    decreases events.len(),
{
    if events.len() == 0 {
        Seq::empty()
    } else {
        let before = uninstall_passed(f, events.drop_last());
        let stage = uninstall_run(f, events.drop_last()).stage;
        if request_succeeds(stage, events.last()) {
            before.push(stage)
        } else {
            before
        }
    }
}

/// What a request for an uninstallation goes through where nothing fails.
pub open spec fn uninstall_course() -> Seq<UninstallStage> {
    seq![
        UninstallStage::PrepareFirst,
        UninstallStage::ConnectManager,
        UninstallStage::OpenStore,
        UninstallStage::StopResolver,
        UninstallStage::AcquireResolver,
        UninstallStage::PrepareSecond,
        UninstallStage::LoadRecord,
        UninstallStage::VerifyActive,
        UninstallStage::PreflightState,
        UninstallStage::SaveBegun,
        UninstallStage::RunJournal,
        UninstallStage::CleanState,
    ]
}

/// Whether an event is no failure and nothing that refuses the request: plans that
/// the token authorizes, the second of the first one's authority and with a plan
/// that the daemon serves, and an active record.
pub open spec fn uninstall_agreeable(f: UninstallFlowView, e: UninstallEventView) -> bool {
    match e {
        UninstallEventView::Failed(_) => false,
        UninstallEventView::Plan(p) => {
            &&& token_authorizes(p.approval_token, f.approval_token)
            &&& f.stage == UninstallStage::PrepareSecond ==> f.first is Some
                && same_plan_authority(f.first->0, p) && p.draft.daemon_plan_observed
                && p.draft.daemon_plan_identity is Some
        },
        UninstallEventView::Record(r) => r is Some && r->0.phase == InstallPhase::Active,
        UninstallEventView::Done => true,
    }
}

/// Whether all events are agreeable where they come.
pub open spec fn uninstall_undisturbed(f: UninstallFlowView, events: Seq<UninstallEventView>) -> bool
    decreases events.len(),
{
    if events.len() == 0 {
        true
    } else {
        &&& uninstall_undisturbed(f, events.drop_last())
        &&& uninstall_agreeable(uninstall_run(f, events.drop_last()), events.last())
    }
}

/// What every request keeps of what it was given.
spec fn uninstall_kept(f: UninstallFlowView, undisturbed: bool) -> bool {
    undisturbed ==> {
        &&& f.error is None
        &&& f.stage == UninstallStage::VerifyActive || f.stage == UninstallStage::PreflightState
            ==> f.record is Some && f.record->0.phase == InstallPhase::Active
        &&& f.second is Some ==> f.second->0.draft.daemon_plan_observed
            && f.second->0.draft.daemon_plan_identity is Some
    }
}

/// A request by root goes through the stages of its course one behind the other. So
/// one that ends without a failure has passed all of them, the journal among them,
/// and nothing else; where nothing fails and nothing refuses it, it never comes to a
/// failure.
pub proof fn law_uninstall_request_follows_its_course(
    approval_token: Seq<char>,
    events: Seq<UninstallEventView>,
)
    ensures
        ({
            let begun = uninstall_begun(0, approval_token);
            let f = uninstall_run(begun, events);
            let passed = uninstall_passed(begun, events);
            &&& f.error is None ==> on_course(
                uninstall_course(),
                passed,
                f.stage,
                UninstallStage::Finished,
            )
            &&& f.error is None && f.stage == UninstallStage::Finished ==> passed
                == uninstall_course()
            &&& uninstall_undisturbed(begun, events) ==> f.error is None
        }),
{
    lemma_uninstall_request(approval_token, events);
    let begun = uninstall_begun(0, approval_token);
    let f = uninstall_run(begun, events);
    if f.error is None && f.stage == UninstallStage::Finished {
        lemma_passed(
            uninstall_course(),
            uninstall_passed(begun, events),
            UninstallStage::Finished,
        );
    }
}

#[verifier::spinoff_prover]
#[verifier::rlimit(60)]
proof fn lemma_uninstall_request(approval_token: Seq<char>, events: Seq<UninstallEventView>)
    ensures
        ({
            let begun = uninstall_begun(0, approval_token);
            let f = uninstall_run(begun, events);
            &&& f.error is None ==> on_course(
                uninstall_course(),
                uninstall_passed(begun, events),
                f.stage,
                UninstallStage::Finished,
            )
            &&& uninstall_kept(f, uninstall_undisturbed(begun, events))
            &&& uninstall_approved(f)
        }),
    decreases events.len(),
{
    let begun = uninstall_begun(0, approval_token);
    let course = uninstall_course();
    law_uninstallation_is_approved_twice(0, approval_token, events);
    if events.len() == 0 {
        assert(uninstall_passed(begun, events) =~= course.subrange(0, 0));
    } else {
        let before = events.drop_last();
        lemma_uninstall_request(approval_token, before);
        let g = uninstall_run(begun, before);
        let h = uninstall_run(begun, events);
        let passed = uninstall_passed(begun, before);
        if h.error is None && request_succeeds(g.stage, events.last()) {
            assert(g.error is None);
            assert(passed.len() < course.len());
            lemma_passes(course, passed, g.stage, h.stage, UninstallStage::Finished);
        }
    }
}

/// A failure behind the stop of the supervisor is reported once the record was read
/// and an active installation is in health again; no other failure restarts
/// anything.
pub proof fn law_given_up_uninstallations_report_why(f: UninstallFlowView, x: FaultView, r: Option<RecordView>)
    requires
        f.stage != UninstallStage::Finished,
    ensures
        ({
            let g = uninstall_step(f, UninstallEventView::Failed(x));
            let read = uninstall_step(g, UninstallEventView::Record(r));
            let behind_stop = f.stage == UninstallStage::AcquireResolver || f.stage
                == UninstallStage::PrepareSecond;
            let active = r is Some && r->0.phase == InstallPhase::Active;
            &&& g.error == Some(x)
            &&& g.record == f.record
            &&& !behind_stop ==> g.stage == UninstallStage::Finished
            &&& behind_stop ==> {
                &&& g.stage == UninstallStage::LoadInstalled
                &&& read.error == Some(x)
                &&& read.stage == if active {
                    UninstallStage::RestartInstalled
                } else {
                    UninstallStage::Finished
                }
                &&& active ==> uninstall_step(read, UninstallEventView::Done).stage
                    == UninstallStage::Finished && uninstall_step(
                    read,
                    UninstallEventView::Done,
                ).error == Some(x)
            }
        }),
{
}

/// Only a journal of an uninstallation goes on; any other record is left as it is.
pub proof fn law_only_uninstallations_go_on(record: RecordView, events: Seq<RemovalEventView>)
    ensures
        record.phase is Uninstalling <==> removal_resumed(record).error is None,
        !(record.phase is Uninstalling) ==> removal_run(removal_resumed(record), events)
            == removal_resumed(record) && removal_resumed(record).stage == RemovalStage::Finished
            && removal_resumed(record).record == record,
    decreases events.len(),
{
    if events.len() > 0 {
        law_only_uninstallations_go_on(record, events.drop_last());
    }
}

/// The record that goes is the one that was read behind the locks: only its phase and
/// the plan to withdraw are written before its journal begins.
pub proof fn law_the_record_that_was_read_goes(f: UninstallFlowView, e: UninstallEventView)
    ensures
        ({
            let g = uninstall_step(f, e);
            &&& f.stage == UninstallStage::LoadRecord && e is Record && e->Record_0 is Some
                ==> g.record == e->Record_0
            &&& g.stage == UninstallStage::SaveBegun && f.stage != UninstallStage::SaveBegun ==> {
                &&& f.stage == UninstallStage::PreflightState
                &&& f.record is Some && f.record->0.phase is Active
                &&& g.record == Some(
                    RecordView {
                        phase: InstallPhase::Uninstalling(UninstallStep::RestoreResolver),
                        pending_resolver_plan: f.second->0.draft.daemon_plan_identity,
                        ..f.record->0
                    },
                )
            }
            &&& f.stage != UninstallStage::LoadRecord && f.stage != UninstallStage::PreflightState
                ==> g.record == f.record
        }),
{
}

} // verus!
