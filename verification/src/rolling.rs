//! The rollback of an installation or an update, step by journaled step.

use vstd::prelude::*;
use vstd::string::*;

use crate::course::{lemma_part, lemma_passed, lemma_passes, on_course, only_if};
use crate::fault::{conflict, conflict_of, Fault, FaultView};
use crate::model::{
    invalid_record_of, rollback_index, rolled_back, InstallPhase, InstallRecord, RecordView,
    RollbackStep,
};
use crate::publications::option_fault;

verus! {

/// What is to be done next.
#[derive(Debug, Clone, Copy, PartialEq, Eq, Structural)]
pub enum RollbackStage {
    /// Write the record with which the rollback begins.
    SaveBegun,
    /// Write the record of the next step.
    SaveJournal,
    /// Hold on to the listeners before anything else.
    RetainFirst,
    /// The current link leads to the previous generation already.
    VerifyRestored,
    /// Keep the restored generation's listeners up, however long it takes.
    RetainRestored,
    /// Stop all units of a first installation and give up its listeners.
    StopUnits,
    /// Hold on to the listeners of the previous generation.
    RetainListeners,
    /// Lead the link back to what the previous activation owns.
    Converge,
    /// Reserve the listeners where none are held.
    ReserveNamespace,
    /// Look for an activation of the failed first installation.
    InspectActivation,
    /// Undo that activation.
    Deactivate,
    /// Stop the daemon that still serves its plan.
    QuiesceDaemon,
    /// Lead the current link back.
    RestoreCurrent,
    RemoveUnitLinks,
    /// Take away the links of a first installation.
    RemovePublicLinks,
    /// Undo what an update changed of the links.
    RevertLinks,
    ReloadManager,
    /// Keep the listeners up under the reloaded units.
    RetainReloaded,
    /// Allow the previous generation to start, to withdraw the pending plan.
    LeaseReloaded,
    StartReloaded,
    ReachReloaded,
    /// Withdraw the pending plan.
    InvalidatePlan,
    ReleaseReloaded,
    RetainInvalidated,
    RemoveGeneration,
    RemoveRoots,
    /// See whether the supervisor is active.
    ObserveResolver,
    /// Give the resolver's authority to the supervisor.
    ReleaseAuthority,
    /// Keep the previous generation's listeners up.
    RetainPrevious,
    /// Allow the previous generation to start.
    LeasePrevious,
    StartPrevious,
    /// The previous generation is in health.
    ConfirmPrevious,
    ReleasePrevious,
    /// Keep its listeners up although it is not.
    RetainFailed,
    /// Write the previous record back, or remove the record.
    RestoreRecord,
    /// Nothing: the run is over.
    Finished,
}

/// What came of what was to be done.
#[derive(Debug)]
pub enum RollbackEvent {
    Done,
    Failed(Fault),
    /// The listeners are active or reserved; whether any is reserved.
    Retained(bool),
    /// Whether there is an activation.
    Activation(bool),
    /// Whether the supervisor is active.
    ResolverActive(bool),
}

/// An event over plain values.
pub enum RollbackEventView {
    Done,
    Failed(FaultView),
    Retained(bool),
    Activation(bool),
    ResolverActive(bool),
}

impl View for RollbackEvent {
    type V = RollbackEventView;

    open spec fn view(&self) -> RollbackEventView {
        match self {
            RollbackEvent::Done => RollbackEventView::Done,
            RollbackEvent::Failed(e) => RollbackEventView::Failed(e@),
            RollbackEvent::Retained(b) => RollbackEventView::Retained(*b),
            RollbackEvent::Activation(b) => RollbackEventView::Activation(*b),
            RollbackEvent::ResolverActive(b) => RollbackEventView::ResolverActive(*b),
        }
    }
}

/// How far a rollback has come.
#[derive(Debug)]
pub struct RollbackFlow {
    pub stage: RollbackStage,
    pub record: InstallRecord,
    /// Whether a listener is reserved.
    pub reserved: bool,
    pub error: Option<Fault>,
}

/// A rollback over plain values.
pub struct RollbackFlowView {
    pub stage: RollbackStage,
    pub record: RecordView,
    pub reserved: bool,
    pub error: Option<FaultView>,
}

impl View for RollbackFlow {
    type V = RollbackFlowView;

    open spec fn view(&self) -> RollbackFlowView {
        RollbackFlowView {
            stage: self.stage,
            record: self.record@,
            reserved: self.reserved,
            error: option_fault(self.error),
        }
    }
}

pub open spec fn at(f: RollbackFlowView, stage: RollbackStage) -> RollbackFlowView {
    RollbackFlowView { stage, ..f }
}

pub open spec fn ended(f: RollbackFlowView, e: FaultView) -> RollbackFlowView {
    RollbackFlowView { stage: RollbackStage::Finished, error: Some(e), ..f }
}

pub open spec fn next_step(step: RollbackStep) -> Option<RollbackStep> {
    match step {
        RollbackStep::StopServices => Some(RollbackStep::RestoreResolver),
        RollbackStep::RestoreResolver => Some(RollbackStep::RestoreCurrent),
        RollbackStep::RestoreCurrent => Some(RollbackStep::RemoveUnitLinks),
        RollbackStep::RemoveUnitLinks => Some(RollbackStep::RemovePublicPaths),
        RollbackStep::RemovePublicPaths => Some(RollbackStep::ReloadManager),
        RollbackStep::ReloadManager => Some(RollbackStep::RemoveFailedGeneration),
        RollbackStep::RemoveFailedGeneration => Some(RollbackStep::RemoveGenerationRoots),
        RollbackStep::RemoveGenerationRoots => Some(RollbackStep::StartPrevious),
        RollbackStep::StartPrevious => Some(RollbackStep::Finalize),
        RollbackStep::Finalize => None,
    }
}

pub open spec fn broken_journal_of() -> FaultView {
    conflict_of("the Linux rollback journal is invalid"@)
}

/// The journal with the step behind it.
pub open spec fn advanced(f: RollbackFlowView) -> RollbackFlowView {
    match f.record.phase {
        InstallPhase::RollingBack(step) => match next_step(step) {
            Some(next) => RollbackFlowView {
                stage: RollbackStage::SaveJournal,
                record: RecordView { phase: InstallPhase::RollingBack(next), ..f.record },
                ..f
            },
            None => ended(f, conflict_of("the Linux rollback journal order is invalid"@)),
        },
        _ => ended(f, broken_journal_of()),
    }
}

/// The first action of the step that the journal stands at. A rollback of an
/// update leaves the unit links and the roots alone, and a rollback of a first
/// installation has nothing to start again.
pub open spec fn entered(f: RollbackFlowView) -> RollbackFlowView {
    let update = f.record.previous is Some;
    match f.record.phase {
        InstallPhase::RollingBack(step) => match step {
            RollbackStep::StopServices => at(
                f,
                if update {
                    RollbackStage::RetainListeners
                } else {
                    RollbackStage::StopUnits
                },
            ),
            RollbackStep::RestoreResolver => at(
                f,
                if update {
                    RollbackStage::Converge
                } else {
                    RollbackStage::InspectActivation
                },
            ),
            RollbackStep::RestoreCurrent => at(f, RollbackStage::RestoreCurrent),
            RollbackStep::RemoveUnitLinks => if update {
                advanced(f)
            } else {
                at(f, RollbackStage::RemoveUnitLinks)
            },
            RollbackStep::RemovePublicPaths => at(
                f,
                if update {
                    RollbackStage::RevertLinks
                } else {
                    RollbackStage::RemovePublicLinks
                },
            ),
            RollbackStep::ReloadManager => at(f, RollbackStage::ReloadManager),
            RollbackStep::RemoveFailedGeneration => at(f, RollbackStage::RemoveGeneration),
            RollbackStep::RemoveGenerationRoots => if update {
                advanced(f)
            } else {
                at(f, RollbackStage::RemoveRoots)
            },
            RollbackStep::StartPrevious => if update {
                at(f, RollbackStage::Converge)
            } else {
                advanced(f)
            },
            RollbackStep::Finalize => at(
                f,
                if update {
                    RollbackStage::ObserveResolver
                } else {
                    RollbackStage::RestoreRecord
                },
            ),
        },
        _ => ended(f, broken_journal_of()),
    }
}

/// What precedes the first step of a rollback that begins or goes on.
pub open spec fn resumed(f: RollbackFlowView) -> RollbackFlowView {
    if !(f.record.phase is RollingBack) {
        ended(f, broken_journal_of())
    } else if f.record.previous is Some {
        at(f, RollbackStage::RetainFirst)
    } else {
        entered(f)
    }
}

/// Whether the journal stands behind the restoration of the previous generation.
pub open spec fn restored(phase: InstallPhase) -> bool {
    match phase {
        InstallPhase::RollingBack(step) => rollback_index(step) >= rollback_index(
            RollbackStep::RemoveFailedGeneration,
        ),
        _ => false,
    }
}

/// Behind an action of the previous generation's start.
pub open spec fn started(f: RollbackFlowView) -> RollbackFlowView {
    match f.record.phase {
        InstallPhase::RollingBack(RollbackStep::Finalize) => at(f, RollbackStage::RestoreRecord),
        _ => advanced(f),
    }
}

/// Where a rollback goes once an action succeeded.
pub open spec fn rollback_done(f: RollbackFlowView) -> RollbackFlowView {
    match f.stage {
        RollbackStage::SaveBegun => resumed(f),
        RollbackStage::SaveJournal => entered(f),
        RollbackStage::VerifyRestored => at(f, RollbackStage::RetainRestored),
        RollbackStage::RetainRestored => entered(f),
        RollbackStage::StopUnits => advanced(RollbackFlowView { reserved: false, ..f }),
        RollbackStage::Converge => if f.record.phase == InstallPhase::RollingBack(
            RollbackStep::RestoreResolver,
        ) {
            if f.reserved {
                advanced(f)
            } else {
                at(f, RollbackStage::ReserveNamespace)
            }
        } else {
            at(f, RollbackStage::ReleaseAuthority)
        },
        RollbackStage::Deactivate => if f.record.pending_resolver_plan is Some {
            at(f, RollbackStage::QuiesceDaemon)
        } else {
            advanced(f)
        },
        RollbackStage::QuiesceDaemon | RollbackStage::RestoreCurrent
        | RollbackStage::RemoveUnitLinks | RollbackStage::RemovePublicLinks
        | RollbackStage::RevertLinks | RollbackStage::RemoveGeneration
        | RollbackStage::RemoveRoots => advanced(f),
        RollbackStage::ReloadManager => if f.record.previous is Some {
            at(f, RollbackStage::RetainReloaded)
        } else {
            advanced(f)
        },
        RollbackStage::RetainReloaded => if f.record.pending_resolver_plan is Some {
            at(f, RollbackStage::LeaseReloaded)
        } else {
            advanced(f)
        },
        RollbackStage::LeaseReloaded => at(f, RollbackStage::StartReloaded),
        RollbackStage::StartReloaded => at(f, RollbackStage::ReachReloaded),
        RollbackStage::ReachReloaded => at(f, RollbackStage::InvalidatePlan),
        RollbackStage::InvalidatePlan => at(f, RollbackStage::ReleaseReloaded),
        RollbackStage::ReleaseReloaded => at(f, RollbackStage::RetainInvalidated),
        RollbackStage::RetainInvalidated => match f.error {
            Some(e) => ended(f, e),
            None => advanced(f),
        },
        RollbackStage::ReleaseAuthority => at(f, RollbackStage::RetainPrevious),
        RollbackStage::RetainPrevious => at(f, RollbackStage::LeasePrevious),
        RollbackStage::LeasePrevious => at(f, RollbackStage::StartPrevious),
        RollbackStage::StartPrevious => at(f, RollbackStage::ConfirmPrevious),
        RollbackStage::ConfirmPrevious => at(f, RollbackStage::ReleasePrevious),
        RollbackStage::ReleasePrevious => match f.error {
            Some(_) => at(f, RollbackStage::RetainFailed),
            None => started(f),
        },
        RollbackStage::RetainFailed => at(f, RollbackStage::Finished),
        RollbackStage::RestoreRecord => at(f, RollbackStage::Finished),
        RollbackStage::RetainFirst | RollbackStage::RetainListeners
        | RollbackStage::ReserveNamespace | RollbackStage::InspectActivation
        | RollbackStage::ObserveResolver | RollbackStage::Finished => f,
    }
}

/// Where a rollback goes once an action failed. Listeners are kept up however
/// long it takes, and permissions are withdrawn without fail.
pub open spec fn rollback_failed(f: RollbackFlowView, e: FaultView) -> RollbackFlowView {
    match f.stage {
        RollbackStage::StartReloaded | RollbackStage::ReachReloaded
        | RollbackStage::InvalidatePlan => RollbackFlowView {
            stage: RollbackStage::ReleaseReloaded,
            error: Some(e),
            ..f
        },
        RollbackStage::StartPrevious | RollbackStage::ConfirmPrevious => RollbackFlowView {
            stage: RollbackStage::ReleasePrevious,
            error: Some(e),
            ..f
        },
        RollbackStage::RetainRestored | RollbackStage::RetainReloaded
        | RollbackStage::ReleaseReloaded | RollbackStage::RetainInvalidated
        | RollbackStage::ReleaseAuthority | RollbackStage::RetainPrevious
        | RollbackStage::ReleasePrevious | RollbackStage::RetainFailed
        | RollbackStage::Finished => f,
        _ => ended(f, e),
    }
}

/// Where a rollback goes from an event. An event that does not belong to the
/// stage changes nothing.
pub open spec fn rollback_step(f: RollbackFlowView, e: RollbackEventView) -> RollbackFlowView {
    match e {
        RollbackEventView::Done => rollback_done(f),
        RollbackEventView::Failed(x) => rollback_failed(f, x),
        RollbackEventView::Retained(reserved) => {
            let g = RollbackFlowView { reserved, ..f };
            match f.stage {
                RollbackStage::RetainFirst => if restored(f.record.phase) {
                    at(g, RollbackStage::VerifyRestored)
                } else {
                    entered(g)
                },
                RollbackStage::RetainListeners | RollbackStage::ReserveNamespace => advanced(g),
                _ => f,
            }
        },
        RollbackEventView::Activation(present) => if f.stage == RollbackStage::InspectActivation {
            if present {
                at(f, RollbackStage::Deactivate)
            } else if f.record.pending_resolver_plan is Some {
                at(f, RollbackStage::QuiesceDaemon)
            } else {
                advanced(f)
            }
        } else {
            f
        },
        RollbackEventView::ResolverActive(active) => if f.stage == RollbackStage::ObserveResolver {
            at(
                f,
                if active {
                    RollbackStage::RetainPrevious
                } else {
                    RollbackStage::Converge
                },
            )
        } else {
            f
        },
    }
}

/// A rollback of a transaction that failed or was interrupted.
pub open spec fn rollback_begun(record: RecordView, reserved: bool) -> RollbackFlowView {
    let f = RollbackFlowView { stage: RollbackStage::SaveBegun, record, reserved, error: None };
    if record.phase is Staging || record.phase is Staged || record.phase is Published {
        RollbackFlowView {
            record: RecordView {
                phase: InstallPhase::RollingBack(RollbackStep::StopServices),
                pending_resolver_plan: None,
                ..record
            },
            ..f
        }
    } else {
        ended(f, invalid_record_of())
    }
}

/// A rollback that goes on where it was interrupted.
pub open spec fn rollback_resumed(record: RecordView) -> RollbackFlowView {
    resumed(
        RollbackFlowView { stage: RollbackStage::SaveJournal, record, reserved: false, error: None },
    )
}

impl RollbackFlow {
    /// Begins the rollback of a transaction that failed or was interrupted.
    pub fn begin(record: InstallRecord, reserved: bool) -> (r: RollbackFlow)
        ensures
            r@ == rollback_begun(record@, reserved),
    {
        let mut record = record;
        match record.begin_rollback(None) {
            Err(e) => RollbackFlow {
                stage: RollbackStage::Finished,
                record,
                reserved,
                error: Some(e),
            },
            Ok(_) => RollbackFlow { stage: RollbackStage::SaveBegun, record, reserved, error: None },
        }
    }

    /// Goes on with a rollback that was interrupted.
    pub fn resume(record: InstallRecord) -> (r: RollbackFlow)
        ensures
            r@ == rollback_resumed(record@),
    {
        let f = RollbackFlow {
            stage: RollbackStage::SaveJournal,
            record,
            reserved: false,
            error: None,
        };
        f.resumed()
    }

    /// The record that the rollback leads back to.
    pub fn restoration(&self) -> (r: Option<InstallRecord>)
        ensures
            crate::model::option_record(r) == rolled_back(self@.record),
    {
        self.record.rollback_record()
    }

    fn go(self, stage: RollbackStage) -> (r: RollbackFlow)
        ensures
            r@ == at(self@, stage),
    {
        RollbackFlow { stage, ..self }
    }

    fn end(self, e: Fault) -> (r: RollbackFlow)
        ensures
            r@ == ended(self@, e@),
    {
        RollbackFlow { stage: RollbackStage::Finished, error: Some(e), ..self }
    }

    fn is_update(&self) -> (r: bool)
        ensures
            r == (self@.record.previous is Some),
    {
        match self.record.previous {
            Some(_) => true,
            None => false,
        }
    }

    fn has_pending_plan(&self) -> (r: bool)
        ensures
            r == (self@.record.pending_resolver_plan is Some),
    {
        match self.record.pending_resolver_plan {
            Some(_) => true,
            None => false,
        }
    }

    fn advance(self) -> (r: RollbackFlow)
        ensures
            r@ == advanced(self@),
    {
        let step = match self.record.phase {
            InstallPhase::RollingBack(step) => step,
            _ => {
                return self.end(conflict("the Linux rollback journal is invalid"));
            },
        };
        match step.successor() {
            None => self.end(conflict("the Linux rollback journal order is invalid")),
            Some(next) => {
                let mut f = self;
                match f.record.advance_rollback(step, next) {
                    Err(e) => f.end(e),
                    Ok(_) => f.go(RollbackStage::SaveJournal),
                }
            },
        }
    }

    fn enter(self) -> (r: RollbackFlow)
        ensures
            r@ == entered(self@),
    {
        let update = self.is_update();
        let step = match self.record.phase {
            InstallPhase::RollingBack(step) => step,
            _ => {
                return self.end(conflict("the Linux rollback journal is invalid"));
            },
        };
        match step {
            RollbackStep::StopServices => if update {
                self.go(RollbackStage::RetainListeners)
            } else {
                self.go(RollbackStage::StopUnits)
            },
            RollbackStep::RestoreResolver => if update {
                self.go(RollbackStage::Converge)
            } else {
                self.go(RollbackStage::InspectActivation)
            },
            RollbackStep::RestoreCurrent => self.go(RollbackStage::RestoreCurrent),
            RollbackStep::RemoveUnitLinks => if update {
                self.advance()
            } else {
                self.go(RollbackStage::RemoveUnitLinks)
            },
            RollbackStep::RemovePublicPaths => if update {
                self.go(RollbackStage::RevertLinks)
            } else {
                self.go(RollbackStage::RemovePublicLinks)
            },
            RollbackStep::ReloadManager => self.go(RollbackStage::ReloadManager),
            RollbackStep::RemoveFailedGeneration => self.go(RollbackStage::RemoveGeneration),
            RollbackStep::RemoveGenerationRoots => if update {
                self.advance()
            } else {
                self.go(RollbackStage::RemoveRoots)
            },
            RollbackStep::StartPrevious => if update {
                self.go(RollbackStage::Converge)
            } else {
                self.advance()
            },
            RollbackStep::Finalize => if update {
                self.go(RollbackStage::ObserveResolver)
            } else {
                self.go(RollbackStage::RestoreRecord)
            },
        }
    }

    fn resumed(self) -> (r: RollbackFlow)
        ensures
            r@ == resumed(self@),
    {
        match self.record.phase {
            InstallPhase::RollingBack(_) => if self.is_update() {
                self.go(RollbackStage::RetainFirst)
            } else {
                self.enter()
            },
            _ => self.end(conflict("the Linux rollback journal is invalid")),
        }
    }

    fn started(self) -> (r: RollbackFlow)
        ensures
            r@ == started(self@),
    {
        match self.record.phase {
            InstallPhase::RollingBack(RollbackStep::Finalize) => self.go(
                RollbackStage::RestoreRecord,
            ),
            _ => self.advance(),
        }
    }

    fn is_restored(&self) -> (r: bool)
        ensures
            r == restored(self@.record.phase),
    {
        match self.record.phase {
            InstallPhase::RollingBack(step) => match step {
                RollbackStep::RemoveFailedGeneration
                | RollbackStep::RemoveGenerationRoots
                | RollbackStep::StartPrevious
                | RollbackStep::Finalize => true,
                _ => false,
            },
            _ => false,
        }
    }

    fn converged(self) -> (r: RollbackFlow)
        requires
            self@.stage == RollbackStage::Converge,
        ensures
            r@ == rollback_done(self@),
    {
        match self.record.phase {
            InstallPhase::RollingBack(RollbackStep::RestoreResolver) => if self.reserved {
                self.advance()
            } else {
                self.go(RollbackStage::ReserveNamespace)
            },
            _ => self.go(RollbackStage::ReleaseAuthority),
        }
    }

    fn done(self) -> (r: RollbackFlow)
        ensures
            r@ == rollback_done(self@),
    {
        let pending = self.has_pending_plan();
        let broken = match self.error {
            Some(_) => true,
            None => false,
        };
        match self.stage {
            RollbackStage::SaveBegun => self.resumed(),
            RollbackStage::SaveJournal => self.enter(),
            RollbackStage::VerifyRestored => self.go(RollbackStage::RetainRestored),
            RollbackStage::RetainRestored => self.enter(),
            RollbackStage::StopUnits => {
                let f = RollbackFlow { reserved: false, ..self };
                f.advance()
            },
            RollbackStage::Converge => self.converged(),
            RollbackStage::Deactivate => if pending {
                self.go(RollbackStage::QuiesceDaemon)
            } else {
                self.advance()
            },
            RollbackStage::QuiesceDaemon
            | RollbackStage::RestoreCurrent
            | RollbackStage::RemoveUnitLinks
            | RollbackStage::RemovePublicLinks
            | RollbackStage::RevertLinks
            | RollbackStage::RemoveGeneration
            | RollbackStage::RemoveRoots => self.advance(),
            RollbackStage::ReloadManager => if self.is_update() {
                self.go(RollbackStage::RetainReloaded)
            } else {
                self.advance()
            },
            RollbackStage::RetainReloaded => if pending {
                self.go(RollbackStage::LeaseReloaded)
            } else {
                self.advance()
            },
            RollbackStage::LeaseReloaded => self.go(RollbackStage::StartReloaded),
            RollbackStage::StartReloaded => self.go(RollbackStage::ReachReloaded),
            RollbackStage::ReachReloaded => self.go(RollbackStage::InvalidatePlan),
            RollbackStage::InvalidatePlan => self.go(RollbackStage::ReleaseReloaded),
            RollbackStage::ReleaseReloaded => self.go(RollbackStage::RetainInvalidated),
            RollbackStage::RetainInvalidated => if broken {
                self.go(RollbackStage::Finished)
            } else {
                self.advance()
            },
            RollbackStage::ReleaseAuthority => self.go(RollbackStage::RetainPrevious),
            RollbackStage::RetainPrevious => self.go(RollbackStage::LeasePrevious),
            RollbackStage::LeasePrevious => self.go(RollbackStage::StartPrevious),
            RollbackStage::StartPrevious => self.go(RollbackStage::ConfirmPrevious),
            RollbackStage::ConfirmPrevious => self.go(RollbackStage::ReleasePrevious),
            RollbackStage::ReleasePrevious => if broken {
                self.go(RollbackStage::RetainFailed)
            } else {
                self.started()
            },
            RollbackStage::RetainFailed => self.go(RollbackStage::Finished),
            RollbackStage::RestoreRecord => self.go(RollbackStage::Finished),
            RollbackStage::RetainFirst
            | RollbackStage::RetainListeners
            | RollbackStage::ReserveNamespace
            | RollbackStage::InspectActivation
            | RollbackStage::ObserveResolver
            | RollbackStage::Finished => self,
        }
    }

    fn failed(self, e: Fault) -> (r: RollbackFlow)
        ensures
            r@ == rollback_failed(self@, e@),
    {
        match self.stage {
            RollbackStage::StartReloaded
            | RollbackStage::ReachReloaded
            | RollbackStage::InvalidatePlan => RollbackFlow {
                stage: RollbackStage::ReleaseReloaded,
                error: Some(e),
                ..self
            },
            RollbackStage::StartPrevious | RollbackStage::ConfirmPrevious => RollbackFlow {
                stage: RollbackStage::ReleasePrevious,
                error: Some(e),
                ..self
            },
            RollbackStage::RetainRestored
            | RollbackStage::RetainReloaded
            | RollbackStage::ReleaseReloaded
            | RollbackStage::RetainInvalidated
            | RollbackStage::ReleaseAuthority
            | RollbackStage::RetainPrevious
            | RollbackStage::ReleasePrevious
            | RollbackStage::RetainFailed
            | RollbackStage::Finished => self,
            _ => self.end(e),
        }
    }

    fn retained(self, reserved: bool) -> (r: RollbackFlow)
        ensures
            r@ == rollback_step(self@, RollbackEventView::Retained(reserved)),
    {
        match self.stage {
            RollbackStage::RetainFirst => {
                let f = RollbackFlow { reserved, ..self };
                if f.is_restored() {
                    f.go(RollbackStage::VerifyRestored)
                } else {
                    f.enter()
                }
            },
            RollbackStage::RetainListeners | RollbackStage::ReserveNamespace => {
                let f = RollbackFlow { reserved, ..self };
                f.advance()
            },
            _ => self,
        }
    }

    fn inspected(self, present: bool) -> (r: RollbackFlow)
        ensures
            r@ == rollback_step(self@, RollbackEventView::Activation(present)),
    {
        if self.stage != RollbackStage::InspectActivation {
            return self;
        }
        if present {
            self.go(RollbackStage::Deactivate)
        } else if self.has_pending_plan() {
            self.go(RollbackStage::QuiesceDaemon)
        } else {
            self.advance()
        }
    }

    /// Goes on from what came of the last action.
    pub fn step(self, event: RollbackEvent) -> (r: RollbackFlow)
        ensures
            r@ == rollback_step(self@, event@),
    {
        match event {
            RollbackEvent::Done => self.done(),
            RollbackEvent::Failed(e) => self.failed(e),
            RollbackEvent::Retained(reserved) => self.retained(reserved),
            RollbackEvent::Activation(present) => self.inspected(present),
            RollbackEvent::ResolverActive(active) => if self.stage
                == RollbackStage::ObserveResolver {
                if active {
                    self.go(RollbackStage::RetainPrevious)
                } else {
                    self.go(RollbackStage::Converge)
                }
            } else {
                self
            },
        }
    }
}

// ---------------------------------------------------------------------------
// Laws
// ---------------------------------------------------------------------------

/// Where a rollback comes to after some events.
pub open spec fn rollback_run(f: RollbackFlowView, events: Seq<RollbackEventView>) -> RollbackFlowView
    decreases events.len(),
{
    if events.len() == 0 {
        f
    } else {
        rollback_step(rollback_run(f, events.drop_last()), events.last())
    }
}

/// A journal never skips a step and never goes back: each event keeps the step
/// or goes on to the one behind it, and nothing else of the record changes.
pub proof fn law_rollback_passes_every_step(f: RollbackFlowView, e: RollbackEventView)
    requires
        f.record.phase is RollingBack,
    ensures
        ({
            let g = rollback_step(f, e);
            &&& g.record == (RecordView { phase: g.record.phase, ..f.record })
            &&& g.record.phase is RollingBack
            &&& rollback_index(f.record.phase->RollingBack_0) <= rollback_index(
                g.record.phase->RollingBack_0,
            ) <= rollback_index(f.record.phase->RollingBack_0) + 1
            &&& g.record.phase != f.record.phase ==> g.stage == RollbackStage::SaveJournal
        }),
{
}

/// What every rollback keeps.
pub open spec fn rollback_valid(f: RollbackFlowView) -> bool {
    &&& f.record.phase is RollingBack || f.stage == RollbackStage::Finished
    &&& f.stage == RollbackStage::RestoreRecord ==> f.record.phase == InstallPhase::RollingBack(
        RollbackStep::Finalize,
    ) && f.error is None
    &&& f.stage == RollbackStage::Finished && f.error is None ==> f.record.phase
        == InstallPhase::RollingBack(RollbackStep::Finalize)
    &&& f.error is Some ==> f.stage == RollbackStage::Finished || f.stage
        == RollbackStage::ReleaseReloaded || f.stage == RollbackStage::RetainInvalidated || f.stage
        == RollbackStage::ReleasePrevious || f.stage == RollbackStage::RetainFailed
    &&& f.stage == RollbackStage::RetainFailed ==> f.error is Some
    &&& f.record.previous is Some ==> {
        &&& f.stage != RollbackStage::StopUnits
        &&& f.stage != RollbackStage::RemoveUnitLinks
        &&& f.stage != RollbackStage::RemovePublicLinks
        &&& f.stage != RollbackStage::RemoveRoots
        &&& f.stage != RollbackStage::InspectActivation
        &&& f.stage != RollbackStage::Deactivate
    }
    &&& f.record.previous is None ==> {
        &&& f.stage != RollbackStage::Converge
        &&& f.stage != RollbackStage::RevertLinks
        &&& f.stage != RollbackStage::ObserveResolver
        &&& f.stage != RollbackStage::StartPrevious
        &&& f.stage != RollbackStage::LeasePrevious
        &&& f.stage != RollbackStage::RetainPrevious
        &&& f.stage != RollbackStage::ReleaseAuthority
        &&& f.stage != RollbackStage::ReleasePrevious
        &&& f.stage != RollbackStage::ConfirmPrevious
        &&& f.stage != RollbackStage::RetainReloaded
        &&& f.stage != RollbackStage::RetainListeners
        &&& f.stage != RollbackStage::RetainFirst
    }
    &&& stage_step(f.stage) is Some ==> f.record.phase == InstallPhase::RollingBack(
        stage_step(f.stage)->0,
    )
    &&& f.stage == RollbackStage::Converge || f.stage == RollbackStage::ReleaseAuthority || f.stage
        == RollbackStage::RetainPrevious || f.stage == RollbackStage::LeasePrevious || f.stage
        == RollbackStage::StartPrevious || f.stage == RollbackStage::ConfirmPrevious || f.stage
        == RollbackStage::ReleasePrevious ==> f.record.phase == InstallPhase::RollingBack(
        RollbackStep::StartPrevious,
    ) || f.record.phase == InstallPhase::RollingBack(RollbackStep::Finalize) || (f.stage
        == RollbackStage::Converge && f.record.phase == InstallPhase::RollingBack(
        RollbackStep::RestoreResolver,
    ))
}

/// The step that a stage belongs to, where it belongs to one alone.
pub open spec fn stage_step(stage: RollbackStage) -> Option<RollbackStep> {
    match stage {
        RollbackStage::StopUnits | RollbackStage::RetainListeners => Some(
            RollbackStep::StopServices,
        ),
        RollbackStage::ReserveNamespace | RollbackStage::InspectActivation
        | RollbackStage::Deactivate | RollbackStage::QuiesceDaemon => Some(
            RollbackStep::RestoreResolver,
        ),
        RollbackStage::RestoreCurrent => Some(RollbackStep::RestoreCurrent),
        RollbackStage::RemoveUnitLinks => Some(RollbackStep::RemoveUnitLinks),
        RollbackStage::RemovePublicLinks | RollbackStage::RevertLinks => Some(
            RollbackStep::RemovePublicPaths,
        ),
        RollbackStage::ReloadManager | RollbackStage::RetainReloaded
        | RollbackStage::LeaseReloaded | RollbackStage::StartReloaded
        | RollbackStage::ReachReloaded | RollbackStage::InvalidatePlan
        | RollbackStage::ReleaseReloaded | RollbackStage::RetainInvalidated => Some(
            RollbackStep::ReloadManager,
        ),
        RollbackStage::RemoveGeneration => Some(RollbackStep::RemoveFailedGeneration),
        RollbackStage::RemoveRoots => Some(RollbackStep::RemoveGenerationRoots),
        RollbackStage::ObserveResolver | RollbackStage::RestoreRecord => Some(
            RollbackStep::Finalize,
        ),
        _ => None,
    }
}

proof fn lemma_advanced_valid(f: RollbackFlowView)
    requires
        f.record.phase is RollingBack,
        f.error is None,
    ensures
        rollback_valid(advanced(f)),
{
}

proof fn lemma_entered_valid(f: RollbackFlowView)
    requires
        f.record.phase is RollingBack,
        f.error is None,
    ensures
        rollback_valid(entered(f)),
{
    lemma_advanced_valid(f);
}

#[verifier::spinoff_prover]
#[verifier::rlimit(60)]
proof fn lemma_done_valid(f: RollbackFlowView)
    requires
        rollback_valid(f),
    ensures
        rollback_valid(rollback_done(f)),
{
    if f.stage != RollbackStage::Finished && f.error is None {
        lemma_advanced_valid(f);
        lemma_advanced_valid(RollbackFlowView { reserved: false, ..f });
        lemma_entered_valid(f);
    }
}

#[verifier::spinoff_prover]
#[verifier::rlimit(60)]
proof fn lemma_failed_valid(f: RollbackFlowView, e: FaultView)
    requires
        rollback_valid(f),
    ensures
        rollback_valid(rollback_failed(f, e)),
{
}

#[verifier::spinoff_prover]
#[verifier::rlimit(60)]
proof fn lemma_step_valid(f: RollbackFlowView, e: RollbackEventView)
    requires
        rollback_valid(f),
    ensures
        rollback_valid(rollback_step(f, e)),
{
    match e {
        RollbackEventView::Done => {
            lemma_done_valid(f);
        },
        RollbackEventView::Failed(x) => {
            lemma_failed_valid(f, x);
        },
        RollbackEventView::Retained(reserved) => {
            if f.stage != RollbackStage::Finished && f.error is None {
                lemma_advanced_valid(RollbackFlowView { reserved, ..f });
                lemma_entered_valid(RollbackFlowView { reserved, ..f });
            }
        },
        _ => {
            if f.stage != RollbackStage::Finished && f.error is None {
                lemma_advanced_valid(f);
            }
        },
    }
}

proof fn lemma_rollback_valid(f: RollbackFlowView, events: Seq<RollbackEventView>)
    requires
        rollback_valid(f),
    ensures
        rollback_valid(rollback_run(f, events)),
    decreases events.len(),
{
    if events.len() > 0 {
        lemma_rollback_valid(f, events.drop_last());
        lemma_step_valid(rollback_run(f, events.drop_last()), events.last());
    }
}

/// Every action of a rollback is one of the step that its journal stands at,
/// whatever happened on the way.
pub proof fn law_rollback_acts_on_its_journal(
    record: RecordView,
    reserved: bool,
    events: Seq<RollbackEventView>,
)
    ensures
        rollback_valid(rollback_run(rollback_begun(record, reserved), events)),
        rollback_valid(rollback_run(rollback_resumed(record), events)),
{
    lemma_rollback_valid(rollback_begun(record, reserved), events);
    lemma_rollback_valid(rollback_resumed(record), events);
}

/// A rollback that ends without a failure has passed its last step.
pub proof fn law_rollback_success_is_complete(
    record: RecordView,
    reserved: bool,
    events: Seq<RollbackEventView>,
)
    ensures
        ({
            let f = rollback_run(rollback_begun(record, reserved), events);
            f.stage == RollbackStage::Finished && f.error is None ==> f.record.phase
                == InstallPhase::RollingBack(RollbackStep::Finalize)
        }),
{
    lemma_rollback_valid(rollback_begun(record, reserved), events);
}

/// The failed generation is removed before the previous one is accepted again.
pub proof fn law_failed_generation_goes_first()
    ensures
        rollback_index(RollbackStep::RemoveFailedGeneration) < rollback_index(
            RollbackStep::StartPrevious,
        ),
        rollback_index(RollbackStep::RemoveGenerationRoots) < rollback_index(
            RollbackStep::StartPrevious,
        ),
        rollback_index(RollbackStep::StartPrevious) < rollback_index(RollbackStep::Finalize),
{
}

/// The steps of a rollback, in the order of its journal.
pub open spec fn rollback_order() -> Seq<RollbackStep> {
    seq![
        RollbackStep::StopServices,
        RollbackStep::RestoreResolver,
        RollbackStep::RestoreCurrent,
        RollbackStep::RemoveUnitLinks,
        RollbackStep::RemovePublicPaths,
        RollbackStep::ReloadManager,
        RollbackStep::RemoveFailedGeneration,
        RollbackStep::RemoveGenerationRoots,
        RollbackStep::StartPrevious,
        RollbackStep::Finalize,
    ]
}

/// Whether an event is the success of what a stage is to do.
pub open spec fn succeeds(stage: RollbackStage, e: RollbackEventView) -> bool {
    match stage {
        RollbackStage::RetainFirst
        | RollbackStage::RetainListeners
        | RollbackStage::ReserveNamespace => e is Retained,
        RollbackStage::InspectActivation => e is Activation,
        RollbackStage::ObserveResolver => e is ResolverActive,
        RollbackStage::Finished => false,
        _ => e is Done,
    }
}

/// The stages that a rollback has passed with success, in their order.
pub open spec fn rollback_passed(f: RollbackFlowView, events: Seq<RollbackEventView>) -> Seq<
    RollbackStage,
>
    decreases events.len(),
{
    if events.len() == 0 {
        Seq::empty()
    } else {
        let before = rollback_passed(f, events.drop_last());
        let stage = rollback_run(f, events.drop_last()).stage;
        if succeeds(stage, events.last()) {
            before.push(stage)
        } else {
            before
        }
    }
}

/// What the course of a rollback depends on.
pub struct RollbackCase {
    /// Whether an update is rolled back, not a first installation.
    pub update: bool,
    /// Whether a plan has to be withdrawn.
    pub pending: bool,
    /// Whether a listener is reserved once the resolver was converged.
    pub reserved: bool,
    /// Whether the first installation left an activation.
    pub present: bool,
    /// Whether the supervisor is active at the end.
    pub active: bool,
}

/// What is done at a step. A rollback of an update leads the links back and starts
/// the previous generation; one of a first installation takes everything away.
pub open spec fn step_stages(step: RollbackStep, c: RollbackCase) -> Seq<RollbackStage> {
    let start = seq![
        RollbackStage::RetainPrevious,
        RollbackStage::LeasePrevious,
        RollbackStage::StartPrevious,
        RollbackStage::ConfirmPrevious,
        RollbackStage::ReleasePrevious,
    ];
    if c.update {
        match step {
            RollbackStep::StopServices => seq![RollbackStage::RetainListeners],
            RollbackStep::RestoreResolver => seq![RollbackStage::Converge] + only_if(
                !c.reserved,
                seq![RollbackStage::ReserveNamespace],
            ),
            RollbackStep::RestoreCurrent => seq![RollbackStage::RestoreCurrent],
            RollbackStep::RemovePublicPaths => seq![RollbackStage::RevertLinks],
            RollbackStep::ReloadManager => seq![
                RollbackStage::ReloadManager,
                RollbackStage::RetainReloaded,
            ] + only_if(
                c.pending,
                seq![
                    RollbackStage::LeaseReloaded,
                    RollbackStage::StartReloaded,
                    RollbackStage::ReachReloaded,
                    RollbackStage::InvalidatePlan,
                    RollbackStage::ReleaseReloaded,
                    RollbackStage::RetainInvalidated,
                ],
            ),
            RollbackStep::RemoveFailedGeneration => seq![RollbackStage::RemoveGeneration],
            RollbackStep::StartPrevious => seq![
                RollbackStage::Converge,
                RollbackStage::ReleaseAuthority,
            ] + start,
            RollbackStep::Finalize => seq![RollbackStage::ObserveResolver] + only_if(
                !c.active,
                seq![RollbackStage::Converge, RollbackStage::ReleaseAuthority],
            ) + start + seq![RollbackStage::RestoreRecord],
            RollbackStep::RemoveUnitLinks | RollbackStep::RemoveGenerationRoots => Seq::empty(),
        }
    } else {
        match step {
            RollbackStep::StopServices => seq![RollbackStage::StopUnits],
            RollbackStep::RestoreResolver => seq![RollbackStage::InspectActivation] + only_if(
                c.present,
                seq![RollbackStage::Deactivate],
            ) + only_if(c.pending, seq![RollbackStage::QuiesceDaemon]),
            RollbackStep::RestoreCurrent => seq![RollbackStage::RestoreCurrent],
            RollbackStep::RemoveUnitLinks => seq![RollbackStage::RemoveUnitLinks],
            RollbackStep::RemovePublicPaths => seq![RollbackStage::RemovePublicLinks],
            RollbackStep::ReloadManager => seq![RollbackStage::ReloadManager],
            RollbackStep::RemoveFailedGeneration => seq![RollbackStage::RemoveGeneration],
            RollbackStep::RemoveGenerationRoots => seq![RollbackStage::RemoveRoots],
            RollbackStep::StartPrevious => Seq::empty(),
            RollbackStep::Finalize => seq![RollbackStage::RestoreRecord],
        }
    }
}

/// What is done at the step at a position, with what precedes it: a rollback that
/// begins or goes on at the step has a prelude, any other writes the journal.
pub open spec fn rollback_part(
    prelude: Seq<RollbackStage>,
    start: int,
    k: int,
    c: RollbackCase,
) -> Seq<RollbackStage> {
    (if k == start {
        prelude
    } else {
        seq![RollbackStage::SaveJournal]
    }) + step_stages(rollback_order()[k], c)
}

/// What is done at the steps from the first position up to the last one, which is
/// left out.
pub open spec fn rollback_course(
    prelude: Seq<RollbackStage>,
    start: int,
    end: int,
    c: RollbackCase,
) -> Seq<RollbackStage>
    decreases end - start,
{
    if end <= start {
        Seq::empty()
    } else {
        rollback_course(prelude, start, end - 1, c) + rollback_part(prelude, start, end - 1, c)
    }
}

/// What precedes the first step of a rollback that begins.
pub open spec fn begun_prelude(update: bool) -> Seq<RollbackStage> {
    seq![RollbackStage::SaveBegun] + only_if(update, seq![RollbackStage::RetainFirst])
}

/// What precedes the step at which a rollback goes on: the listeners of an update
/// are held on to first, and where the previous generation was restored already,
/// it has to be in place.
pub open spec fn resumed_prelude(update: bool, start: int) -> Seq<RollbackStage> {
    only_if(update, seq![RollbackStage::RetainFirst]) + only_if(
        update && start >= 6,
        seq![RollbackStage::VerifyRestored, RollbackStage::RetainRestored],
    )
}

/// Whether what is found out at the stages of a rollback is as in a case.
pub open spec fn rollback_is_case(
    f: RollbackFlowView,
    events: Seq<RollbackEventView>,
    c: RollbackCase,
) -> bool
    decreases events.len(),
{
    if events.len() == 0 {
        true
    } else {
        let g = rollback_run(f, events.drop_last());
        &&& rollback_is_case(f, events.drop_last(), c)
        &&& case_fits(g, events.last(), c)
    }
}

pub open spec fn case_fits(f: RollbackFlowView, e: RollbackEventView, c: RollbackCase) -> bool {
    &&& f.stage == RollbackStage::InspectActivation && e is Activation ==> e->Activation_0
        == c.present
    &&& f.stage == RollbackStage::ObserveResolver && e is ResolverActive ==> e->ResolverActive_0
        == c.active
    &&& f.stage == RollbackStage::Converge && f.record.phase == InstallPhase::RollingBack(
        RollbackStep::RestoreResolver,
    ) ==> f.reserved == c.reserved
}

/// Whether some events hold no failure.
pub open spec fn rollback_undisturbed(events: Seq<RollbackEventView>) -> bool {
    forall|i: int| 0 <= i < events.len() ==> !((#[trigger] events[i]) is Failed)
}

/// The stages that were passed since the journal came to its step.
spec fn rollback_acted(f: RollbackFlowView, events: Seq<RollbackEventView>) -> Seq<RollbackStage>
    decreases events.len(),
{
    if events.len() == 0 {
        Seq::empty()
    } else {
        let g = rollback_run(f, events.drop_last());
        acted_on(g, rollback_acted(f, events.drop_last()), events.last())
    }
}

spec fn acted_on(
    f: RollbackFlowView,
    acted: Seq<RollbackStage>,
    e: RollbackEventView,
) -> Seq<RollbackStage> {
    if rollback_step(f, e).record.phase != f.record.phase {
        Seq::empty()
    } else if succeeds(f.stage, e) {
        acted.push(f.stage)
    } else {
        acted
    }
}

/// Whether a prelude is one of those that there are.
spec fn is_prelude(prelude: Seq<RollbackStage>, update: bool, start: int) -> bool {
    ||| start == 0 && prelude == begun_prelude(update)
    ||| prelude == resumed_prelude(update, start)
    ||| start == 9 && !update && prelude == seq![RollbackStage::SaveJournal]
}

/// What every rollback keeps of its course.
spec fn rollback_kept(
    f: RollbackFlowView,
    acted: Seq<RollbackStage>,
    prelude: Seq<RollbackStage>,
    start: int,
    c: RollbackCase,
) -> bool {
    &&& f.record.phase is RollingBack
    &&& f.record.previous is Some == c.update
    &&& f.record.pending_resolver_plan is Some == c.pending
    &&& f.error is None ==> {
        let k = rollback_index(f.record.phase->RollingBack_0);
        &&& start <= k
        &&& on_course(
            rollback_part(prelude, start, k, c),
            acted,
            f.stage,
            RollbackStage::Finished,
        )
        &&& k < 9 ==> acted.len() < rollback_part(prelude, start, k, c).len()
    }
}

/// The position of a step is its place in the order.
pub proof fn law_rollback_order(step: RollbackStep)
    ensures
        0 <= rollback_index(step) < rollback_order().len(),
        rollback_order()[rollback_index(step)] == step,
{
}

/// Whether a rollback on its course has passed a stage.
spec fn rollback_ready(
    f: RollbackFlowView,
    acted: Seq<RollbackStage>,
    e: RollbackEventView,
    prelude: Seq<RollbackStage>,
    start: int,
    c: RollbackCase,
) -> bool {
    &&& rollback_kept(f, acted, prelude, start, c)
    &&& is_prelude(prelude, c.update, start)
    &&& 0 <= start
    &&& f.error is None
    &&& succeeds(f.stage, e)
    &&& case_fits(f, e, c)
}

/// Whether a rollback goes on as its course says: at the next stage of the step, or
/// behind the last one at the next step, for which the journal is written first.
spec fn rollback_goes_on(
    f: RollbackFlowView,
    acted: Seq<RollbackStage>,
    e: RollbackEventView,
    prelude: Seq<RollbackStage>,
    start: int,
    c: RollbackCase,
) -> bool {
    let g = rollback_step(f, e);
    let k = rollback_index(f.record.phase->RollingBack_0);
    let part = rollback_part(prelude, start, k, c);
    let n = acted.len() as int;
    &&& n < part.len()
    &&& g.error is None
    &&& g.record.phase is RollingBack
    &&& g.record.phase == f.record.phase ==> g.stage == (if n + 1 < part.len() {
        part[n + 1]
    } else {
        RollbackStage::Finished
    }) && (n + 1 == part.len() ==> k == 9)
    &&& g.record.phase != f.record.phase ==> n + 1 == part.len() && g.stage
        == RollbackStage::SaveJournal && rollback_index(g.record.phase->RollingBack_0) == k + 1
}

#[verifier::spinoff_prover]
#[verifier::rlimit(60)]
proof fn lemma_stop_services_of_update(
    f: RollbackFlowView,
    acted: Seq<RollbackStage>,
    e: RollbackEventView,
    prelude: Seq<RollbackStage>,
    start: int,
    c: RollbackCase,
)
    requires
        rollback_ready(f, acted, e, prelude, start, c),
        f.record.phase == InstallPhase::RollingBack(RollbackStep::StopServices),
        c.update,
    ensures
        rollback_goes_on(f, acted, e, prelude, start, c),
{
    law_rollback_order(RollbackStep::StopServices);
}

#[verifier::spinoff_prover]
#[verifier::rlimit(60)]
proof fn lemma_stop_services_of_first(
    f: RollbackFlowView,
    acted: Seq<RollbackStage>,
    e: RollbackEventView,
    prelude: Seq<RollbackStage>,
    start: int,
    c: RollbackCase,
)
    requires
        rollback_ready(f, acted, e, prelude, start, c),
        f.record.phase == InstallPhase::RollingBack(RollbackStep::StopServices),
        !c.update,
    ensures
        rollback_goes_on(f, acted, e, prelude, start, c),
{
    law_rollback_order(RollbackStep::StopServices);
}

#[verifier::spinoff_prover]
#[verifier::rlimit(60)]
proof fn lemma_restore_resolver_of_update(
    f: RollbackFlowView,
    acted: Seq<RollbackStage>,
    e: RollbackEventView,
    prelude: Seq<RollbackStage>,
    start: int,
    c: RollbackCase,
)
    requires
        rollback_ready(f, acted, e, prelude, start, c),
        f.record.phase == InstallPhase::RollingBack(RollbackStep::RestoreResolver),
        c.update,
    ensures
        rollback_goes_on(f, acted, e, prelude, start, c),
{
    law_rollback_order(RollbackStep::RestoreResolver);
}

#[verifier::spinoff_prover]
#[verifier::rlimit(60)]
proof fn lemma_restore_resolver_of_first(
    f: RollbackFlowView,
    acted: Seq<RollbackStage>,
    e: RollbackEventView,
    prelude: Seq<RollbackStage>,
    start: int,
    c: RollbackCase,
)
    requires
        rollback_ready(f, acted, e, prelude, start, c),
        f.record.phase == InstallPhase::RollingBack(RollbackStep::RestoreResolver),
        !c.update,
    ensures
        rollback_goes_on(f, acted, e, prelude, start, c),
{
    law_rollback_order(RollbackStep::RestoreResolver);
}

#[verifier::spinoff_prover]
#[verifier::rlimit(60)]
proof fn lemma_restore_current_of_update(
    f: RollbackFlowView,
    acted: Seq<RollbackStage>,
    e: RollbackEventView,
    prelude: Seq<RollbackStage>,
    start: int,
    c: RollbackCase,
)
    requires
        rollback_ready(f, acted, e, prelude, start, c),
        f.record.phase == InstallPhase::RollingBack(RollbackStep::RestoreCurrent),
        c.update,
    ensures
        rollback_goes_on(f, acted, e, prelude, start, c),
{
    law_rollback_order(RollbackStep::RestoreCurrent);
}

#[verifier::spinoff_prover]
#[verifier::rlimit(60)]
proof fn lemma_restore_current_of_first(
    f: RollbackFlowView,
    acted: Seq<RollbackStage>,
    e: RollbackEventView,
    prelude: Seq<RollbackStage>,
    start: int,
    c: RollbackCase,
)
    requires
        rollback_ready(f, acted, e, prelude, start, c),
        f.record.phase == InstallPhase::RollingBack(RollbackStep::RestoreCurrent),
        !c.update,
    ensures
        rollback_goes_on(f, acted, e, prelude, start, c),
{
    law_rollback_order(RollbackStep::RestoreCurrent);
}

#[verifier::spinoff_prover]
#[verifier::rlimit(60)]
proof fn lemma_remove_unit_links_of_update(
    f: RollbackFlowView,
    acted: Seq<RollbackStage>,
    e: RollbackEventView,
    prelude: Seq<RollbackStage>,
    start: int,
    c: RollbackCase,
)
    requires
        rollback_ready(f, acted, e, prelude, start, c),
        f.record.phase == InstallPhase::RollingBack(RollbackStep::RemoveUnitLinks),
        c.update,
    ensures
        rollback_goes_on(f, acted, e, prelude, start, c),
{
    law_rollback_order(RollbackStep::RemoveUnitLinks);
}

#[verifier::spinoff_prover]
#[verifier::rlimit(60)]
proof fn lemma_remove_unit_links_of_first(
    f: RollbackFlowView,
    acted: Seq<RollbackStage>,
    e: RollbackEventView,
    prelude: Seq<RollbackStage>,
    start: int,
    c: RollbackCase,
)
    requires
        rollback_ready(f, acted, e, prelude, start, c),
        f.record.phase == InstallPhase::RollingBack(RollbackStep::RemoveUnitLinks),
        !c.update,
    ensures
        rollback_goes_on(f, acted, e, prelude, start, c),
{
    law_rollback_order(RollbackStep::RemoveUnitLinks);
}

#[verifier::spinoff_prover]
#[verifier::rlimit(60)]
proof fn lemma_remove_public_paths_of_update(
    f: RollbackFlowView,
    acted: Seq<RollbackStage>,
    e: RollbackEventView,
    prelude: Seq<RollbackStage>,
    start: int,
    c: RollbackCase,
)
    requires
        rollback_ready(f, acted, e, prelude, start, c),
        f.record.phase == InstallPhase::RollingBack(RollbackStep::RemovePublicPaths),
        c.update,
    ensures
        rollback_goes_on(f, acted, e, prelude, start, c),
{
    law_rollback_order(RollbackStep::RemovePublicPaths);
}

#[verifier::spinoff_prover]
#[verifier::rlimit(60)]
proof fn lemma_remove_public_paths_of_first(
    f: RollbackFlowView,
    acted: Seq<RollbackStage>,
    e: RollbackEventView,
    prelude: Seq<RollbackStage>,
    start: int,
    c: RollbackCase,
)
    requires
        rollback_ready(f, acted, e, prelude, start, c),
        f.record.phase == InstallPhase::RollingBack(RollbackStep::RemovePublicPaths),
        !c.update,
    ensures
        rollback_goes_on(f, acted, e, prelude, start, c),
{
    law_rollback_order(RollbackStep::RemovePublicPaths);
}

#[verifier::spinoff_prover]
#[verifier::rlimit(60)]
proof fn lemma_reload_manager_of_update(
    f: RollbackFlowView,
    acted: Seq<RollbackStage>,
    e: RollbackEventView,
    prelude: Seq<RollbackStage>,
    start: int,
    c: RollbackCase,
)
    requires
        rollback_ready(f, acted, e, prelude, start, c),
        f.record.phase == InstallPhase::RollingBack(RollbackStep::ReloadManager),
        c.update,
    ensures
        rollback_goes_on(f, acted, e, prelude, start, c),
{
    law_rollback_order(RollbackStep::ReloadManager);
}

#[verifier::spinoff_prover]
#[verifier::rlimit(60)]
proof fn lemma_reload_manager_of_first(
    f: RollbackFlowView,
    acted: Seq<RollbackStage>,
    e: RollbackEventView,
    prelude: Seq<RollbackStage>,
    start: int,
    c: RollbackCase,
)
    requires
        rollback_ready(f, acted, e, prelude, start, c),
        f.record.phase == InstallPhase::RollingBack(RollbackStep::ReloadManager),
        !c.update,
    ensures
        rollback_goes_on(f, acted, e, prelude, start, c),
{
    law_rollback_order(RollbackStep::ReloadManager);
}

#[verifier::spinoff_prover]
#[verifier::rlimit(60)]
proof fn lemma_remove_failed_generation_of_update(
    f: RollbackFlowView,
    acted: Seq<RollbackStage>,
    e: RollbackEventView,
    prelude: Seq<RollbackStage>,
    start: int,
    c: RollbackCase,
)
    requires
        rollback_ready(f, acted, e, prelude, start, c),
        f.record.phase == InstallPhase::RollingBack(RollbackStep::RemoveFailedGeneration),
        c.update,
    ensures
        rollback_goes_on(f, acted, e, prelude, start, c),
{
    law_rollback_order(RollbackStep::RemoveFailedGeneration);
}

#[verifier::spinoff_prover]
#[verifier::rlimit(60)]
proof fn lemma_remove_failed_generation_of_first(
    f: RollbackFlowView,
    acted: Seq<RollbackStage>,
    e: RollbackEventView,
    prelude: Seq<RollbackStage>,
    start: int,
    c: RollbackCase,
)
    requires
        rollback_ready(f, acted, e, prelude, start, c),
        f.record.phase == InstallPhase::RollingBack(RollbackStep::RemoveFailedGeneration),
        !c.update,
    ensures
        rollback_goes_on(f, acted, e, prelude, start, c),
{
    law_rollback_order(RollbackStep::RemoveFailedGeneration);
}

#[verifier::spinoff_prover]
#[verifier::rlimit(60)]
proof fn lemma_remove_generation_roots_of_update(
    f: RollbackFlowView,
    acted: Seq<RollbackStage>,
    e: RollbackEventView,
    prelude: Seq<RollbackStage>,
    start: int,
    c: RollbackCase,
)
    requires
        rollback_ready(f, acted, e, prelude, start, c),
        f.record.phase == InstallPhase::RollingBack(RollbackStep::RemoveGenerationRoots),
        c.update,
    ensures
        rollback_goes_on(f, acted, e, prelude, start, c),
{
    law_rollback_order(RollbackStep::RemoveGenerationRoots);
}

#[verifier::spinoff_prover]
#[verifier::rlimit(60)]
proof fn lemma_remove_generation_roots_of_first(
    f: RollbackFlowView,
    acted: Seq<RollbackStage>,
    e: RollbackEventView,
    prelude: Seq<RollbackStage>,
    start: int,
    c: RollbackCase,
)
    requires
        rollback_ready(f, acted, e, prelude, start, c),
        f.record.phase == InstallPhase::RollingBack(RollbackStep::RemoveGenerationRoots),
        !c.update,
    ensures
        rollback_goes_on(f, acted, e, prelude, start, c),
{
    law_rollback_order(RollbackStep::RemoveGenerationRoots);
}

#[verifier::spinoff_prover]
#[verifier::rlimit(60)]
proof fn lemma_start_previous_of_update(
    f: RollbackFlowView,
    acted: Seq<RollbackStage>,
    e: RollbackEventView,
    prelude: Seq<RollbackStage>,
    start: int,
    c: RollbackCase,
)
    requires
        rollback_ready(f, acted, e, prelude, start, c),
        f.record.phase == InstallPhase::RollingBack(RollbackStep::StartPrevious),
        c.update,
    ensures
        rollback_goes_on(f, acted, e, prelude, start, c),
{
    law_rollback_order(RollbackStep::StartPrevious);
}

#[verifier::spinoff_prover]
#[verifier::rlimit(60)]
proof fn lemma_start_previous_of_first(
    f: RollbackFlowView,
    acted: Seq<RollbackStage>,
    e: RollbackEventView,
    prelude: Seq<RollbackStage>,
    start: int,
    c: RollbackCase,
)
    requires
        rollback_ready(f, acted, e, prelude, start, c),
        f.record.phase == InstallPhase::RollingBack(RollbackStep::StartPrevious),
        !c.update,
    ensures
        rollback_goes_on(f, acted, e, prelude, start, c),
{
    law_rollback_order(RollbackStep::StartPrevious);
}

#[verifier::spinoff_prover]
#[verifier::rlimit(60)]
proof fn lemma_finalize_of_update(
    f: RollbackFlowView,
    acted: Seq<RollbackStage>,
    e: RollbackEventView,
    prelude: Seq<RollbackStage>,
    start: int,
    c: RollbackCase,
)
    requires
        rollback_ready(f, acted, e, prelude, start, c),
        f.record.phase == InstallPhase::RollingBack(RollbackStep::Finalize),
        c.update,
    ensures
        rollback_goes_on(f, acted, e, prelude, start, c),
{
    law_rollback_order(RollbackStep::Finalize);
}

#[verifier::spinoff_prover]
#[verifier::rlimit(60)]
proof fn lemma_finalize_of_first(
    f: RollbackFlowView,
    acted: Seq<RollbackStage>,
    e: RollbackEventView,
    prelude: Seq<RollbackStage>,
    start: int,
    c: RollbackCase,
)
    requires
        rollback_ready(f, acted, e, prelude, start, c),
        f.record.phase == InstallPhase::RollingBack(RollbackStep::Finalize),
        !c.update,
    ensures
        rollback_goes_on(f, acted, e, prelude, start, c),
{
    law_rollback_order(RollbackStep::Finalize);
}

proof fn lemma_rollback_next(
    f: RollbackFlowView,
    acted: Seq<RollbackStage>,
    e: RollbackEventView,
    prelude: Seq<RollbackStage>,
    start: int,
    c: RollbackCase,
)
    requires
        rollback_ready(f, acted, e, prelude, start, c),
    ensures
        rollback_goes_on(f, acted, e, prelude, start, c),
{
    match f.record.phase->RollingBack_0 {
        RollbackStep::StopServices => {
            if c.update {
                lemma_stop_services_of_update(f, acted, e, prelude, start, c);
            } else {
                lemma_stop_services_of_first(f, acted, e, prelude, start, c);
            }
        },
        RollbackStep::RestoreResolver => {
            if c.update {
                lemma_restore_resolver_of_update(f, acted, e, prelude, start, c);
            } else {
                lemma_restore_resolver_of_first(f, acted, e, prelude, start, c);
            }
        },
        RollbackStep::RestoreCurrent => {
            if c.update {
                lemma_restore_current_of_update(f, acted, e, prelude, start, c);
            } else {
                lemma_restore_current_of_first(f, acted, e, prelude, start, c);
            }
        },
        RollbackStep::RemoveUnitLinks => {
            if c.update {
                lemma_remove_unit_links_of_update(f, acted, e, prelude, start, c);
            } else {
                lemma_remove_unit_links_of_first(f, acted, e, prelude, start, c);
            }
        },
        RollbackStep::RemovePublicPaths => {
            if c.update {
                lemma_remove_public_paths_of_update(f, acted, e, prelude, start, c);
            } else {
                lemma_remove_public_paths_of_first(f, acted, e, prelude, start, c);
            }
        },
        RollbackStep::ReloadManager => {
            if c.update {
                lemma_reload_manager_of_update(f, acted, e, prelude, start, c);
            } else {
                lemma_reload_manager_of_first(f, acted, e, prelude, start, c);
            }
        },
        RollbackStep::RemoveFailedGeneration => {
            if c.update {
                lemma_remove_failed_generation_of_update(f, acted, e, prelude, start, c);
            } else {
                lemma_remove_failed_generation_of_first(f, acted, e, prelude, start, c);
            }
        },
        RollbackStep::RemoveGenerationRoots => {
            if c.update {
                lemma_remove_generation_roots_of_update(f, acted, e, prelude, start, c);
            } else {
                lemma_remove_generation_roots_of_first(f, acted, e, prelude, start, c);
            }
        },
        RollbackStep::StartPrevious => {
            if c.update {
                lemma_start_previous_of_update(f, acted, e, prelude, start, c);
            } else {
                lemma_start_previous_of_first(f, acted, e, prelude, start, c);
            }
        },
        RollbackStep::Finalize => {
            if c.update {
                lemma_finalize_of_update(f, acted, e, prelude, start, c);
            } else {
                lemma_finalize_of_first(f, acted, e, prelude, start, c);
            }
        },
    }
}

/// A failure is never lost.
#[verifier::spinoff_prover]
proof fn lemma_failure_stays(f: RollbackFlowView, e: RollbackEventView)
    requires
        f.error is Some,
    ensures
        rollback_step(f, e).error is Some,
{
}

/// What is no success of a stage changes nothing, or is a failure.
#[verifier::spinoff_prover]
proof fn lemma_no_success(f: RollbackFlowView, e: RollbackEventView)
    requires
        f.error is None,
        !succeeds(f.stage, e),
    ensures
        rollback_step(f, e) == f || (e is Failed && rollback_step(f, e).error is Some
            && rollback_step(f, e).record == f.record),
{
}

proof fn lemma_rollback_run(
    f: RollbackFlowView,
    events: Seq<RollbackEventView>,
    prelude: Seq<RollbackStage>,
    start: int,
    c: RollbackCase,
)
    requires
        rollback_kept(f, Seq::empty(), prelude, start, c),
        is_prelude(prelude, c.update, start),
        f.error is None,
        0 <= start,
        start == rollback_index(f.record.phase->RollingBack_0),
        rollback_is_case(f, events, c),
    ensures
        ({
            let g = rollback_run(f, events);
            &&& rollback_kept(g, rollback_acted(f, events), prelude, start, c)
            &&& g.error is None ==> rollback_passed(f, events) == rollback_course(
                prelude,
                start,
                rollback_index(g.record.phase->RollingBack_0),
                c,
            ) + rollback_acted(f, events)
            &&& rollback_undisturbed(events) ==> g.error is None
        }),
    decreases events.len(),
{
    if events.len() == 0 {
        assert(rollback_passed(f, events) =~= rollback_course(prelude, start, start, c)
            + rollback_acted(f, events));
        return ;
    }
    let before = events.drop_last();
    let e = events.last();
    lemma_rollback_run(f, before, prelude, start, c);
    let g = rollback_run(f, before);
    let h = rollback_run(f, events);
    let acted = rollback_acted(f, before);
    let passed = rollback_passed(f, before);
    if rollback_undisturbed(events) {
        assert forall|i: int| 0 <= i < before.len() implies !((#[trigger] before[i]) is Failed) by {
            assert(before[i] == events[i]);
        }
        assert(!(events[events.len() - 1] is Failed));
    }
    law_rollback_passes_every_step(g, e);
    if g.error is Some {
        lemma_failure_stays(g, e);
    } else if !succeeds(g.stage, e) {
        lemma_no_success(g, e);
    } else {
        let k = rollback_index(g.record.phase->RollingBack_0);
        let part = rollback_part(prelude, start, k, c);
        let head = rollback_course(prelude, start, k, c);
        lemma_rollback_next(g, acted, e, prelude, start, c);
        lemma_passes(
            part,
            acted,
            g.stage,
            if acted.len() + 1 < part.len() {
                part[acted.len() as int + 1]
            } else {
                RollbackStage::Finished
            },
            RollbackStage::Finished,
        );
        assert(passed.push(g.stage) =~= head + acted.push(g.stage));
        if h.record.phase != g.record.phase {
            assert(acted.push(g.stage) =~= part);
            assert(rollback_course(prelude, start, k + 1, c) == head + part);
            assert(rollback_passed(f, events) =~= rollback_course(prelude, start, k + 1, c)
                + Seq::<RollbackStage>::empty());
            assert(rollback_part(prelude, start, k + 1, c)[0] == RollbackStage::SaveJournal);
            assert(rollback_part(prelude, start, k + 1, c).subrange(0, 0) =~= Seq::<
                RollbackStage,
            >::empty());
        }
    }
}

/// What is done up to a step begins what is done up to a later one.
proof fn lemma_rollback_course(
    prelude: Seq<RollbackStage>,
    start: int,
    k: int,
    end: int,
    c: RollbackCase,
) -> (tail: Seq<RollbackStage>)
    requires
        start <= k <= end,
    ensures
        rollback_course(prelude, start, end, c) == rollback_course(prelude, start, k, c) + tail,
        k == end ==> tail.len() == 0,
    decreases end - k,
{
    if k == end {
        assert(rollback_course(prelude, start, end, c) =~= rollback_course(prelude, start, k, c)
            + Seq::<RollbackStage>::empty());
        Seq::empty()
    } else {
        let rest = lemma_rollback_course(prelude, start, k, end - 1, c);
        let part = rollback_part(prelude, start, end - 1, c);
        assert(rollback_course(prelude, start, end, c) =~= rollback_course(prelude, start, k, c)
            + (rest + part));
        rest + part
    }
}

/// No stage of a course is the end.
proof fn lemma_rollback_course_goes_on(
    prelude: Seq<RollbackStage>,
    start: int,
    end: int,
    c: RollbackCase,
)
    requires
        0 <= start,
        end <= 10,
        is_prelude(prelude, c.update, start),
    ensures
        !rollback_course(prelude, start, end, c).contains(RollbackStage::Finished),
    decreases end - start,
{
    if end > start {
        lemma_rollback_course_goes_on(prelude, start, end - 1, c);
        let head = rollback_course(prelude, start, end - 1, c);
        let part = rollback_part(prelude, start, end - 1, c);
        lemma_part_goes_on(prelude, start, end - 1, c);
        assert forall|i: int| 0 <= i < (head + part).len() implies (head + part)[i]
            != RollbackStage::Finished by {
            if i < head.len() {
                assert(head.contains(head[i]));
            } else {
                assert(part.contains(part[i - head.len()]));
            }
        }
    }
}

#[verifier::spinoff_prover]
#[verifier::rlimit(60)]
proof fn lemma_part_goes_on(prelude: Seq<RollbackStage>, start: int, k: int, c: RollbackCase)
    requires
        0 <= k < 10,
        is_prelude(prelude, c.update, start),
    ensures
        !rollback_part(prelude, start, k, c).contains(RollbackStage::Finished),
{
    let step = rollback_order()[k];
    let lead = if k == start {
        prelude
    } else {
        seq![RollbackStage::SaveJournal]
    };
    assert(forall|i: int| 0 <= i < lead.len() ==> lead[i] != RollbackStage::Finished);
    let stages = step_stages(step, c);
    assert(forall|i: int| 0 <= i < stages.len() ==> stages[i] != RollbackStage::Finished);
}

proof fn lemma_rollback_on_course(
    f: RollbackFlowView,
    events: Seq<RollbackEventView>,
    prelude: Seq<RollbackStage>,
    start: int,
    c: RollbackCase,
)
    requires
        rollback_kept(f, Seq::empty(), prelude, start, c),
        is_prelude(prelude, c.update, start),
        f.error is None,
        0 <= start,
        start == rollback_index(f.record.phase->RollingBack_0),
        rollback_is_case(f, events, c),
    ensures
        ({
            let g = rollback_run(f, events);
            let course = rollback_course(prelude, start, 10, c);
            let passed = rollback_passed(f, events);
            &&& g.error is None ==> on_course(course, passed, g.stage, RollbackStage::Finished)
            &&& g.error is None && g.stage == RollbackStage::Finished ==> passed == course
            &&& rollback_undisturbed(events) ==> g.error is None
        }),
{
    lemma_rollback_run(f, events, prelude, start, c);
    let g = rollback_run(f, events);
    let course = rollback_course(prelude, start, 10, c);
    let passed = rollback_passed(f, events);
    if g.error is None {
        let k = rollback_index(g.record.phase->RollingBack_0);
        law_rollback_order(g.record.phase->RollingBack_0);
        let head = rollback_course(prelude, start, k, c);
        let part = rollback_part(prelude, start, k, c);
        let tail = lemma_rollback_course(prelude, start, k + 1, 10, c);
        lemma_part(
            head,
            part,
            tail,
            rollback_acted(f, events),
            g.stage,
            RollbackStage::Finished,
        );
        assert(course == head + part + tail);
        if g.stage == RollbackStage::Finished {
            lemma_rollback_course_goes_on(prelude, start, 10, c);
            lemma_passed(course, passed, RollbackStage::Finished);
        }
    }
}

/// A rollback goes through all steps of its journal from the first one on, and at
/// each step through the stages that have its effects: as long as nothing failed it
/// has passed a beginning of its course, each stage with success, and is at the
/// stage behind it. So one that ends without a failure has passed all of them, in
/// their order, and nothing else. Where nothing fails, it never comes to a failure.
pub proof fn law_rollback_follows_its_course(
    record: RecordView,
    reserved: bool,
    events: Seq<RollbackEventView>,
    c: RollbackCase,
)
    requires
        record.phase is Staging || record.phase is Staged || record.phase is Published,
        c.update == (record.previous is Some),
        !c.pending,
        rollback_is_case(rollback_begun(record, reserved), events, c),
    ensures
        ({
            let begun = rollback_begun(record, reserved);
            let f = rollback_run(begun, events);
            let course = rollback_course(begun_prelude(c.update), 0, 10, c);
            let passed = rollback_passed(begun, events);
            &&& f.error is None ==> on_course(course, passed, f.stage, RollbackStage::Finished)
            &&& f.error is None && f.stage == RollbackStage::Finished ==> passed == course
            &&& rollback_undisturbed(events) ==> f.error is None
        }),
{
    let begun = rollback_begun(record, reserved);
    let prelude = begun_prelude(c.update);
    assert(rollback_part(prelude, 0, 0, c)[0] == RollbackStage::SaveBegun);
    assert(rollback_part(prelude, 0, 0, c).subrange(0, 0) =~= Seq::<RollbackStage>::empty());
    lemma_rollback_on_course(begun, events, prelude, 0, c);
}

/// A rollback that goes on passes the step at which it was interrupted, and all
/// behind it, in the same way. The one step left out is one at which there is
/// nothing to do, so that the journal is at the last step at once.
pub proof fn law_resumed_rollback_follows_its_course(
    record: RecordView,
    step: RollbackStep,
    events: Seq<RollbackEventView>,
    c: RollbackCase,
)
    requires
        record.phase == InstallPhase::RollingBack(step),
        c.update == (record.previous is Some),
        c.pending == (record.pending_resolver_plan is Some),
        rollback_is_case(rollback_resumed(record), events, c),
    ensures
        ({
            let resumed = rollback_resumed(record);
            let f = rollback_run(resumed, events);
            let start = rollback_index(step);
            let course = if !c.update && step == RollbackStep::StartPrevious {
                seq![RollbackStage::SaveJournal, RollbackStage::RestoreRecord]
            } else {
                rollback_course(resumed_prelude(c.update, start), start, 10, c)
            };
            let passed = rollback_passed(resumed, events);
            &&& f.error is None ==> on_course(course, passed, f.stage, RollbackStage::Finished)
            &&& f.error is None && f.stage == RollbackStage::Finished ==> passed == course
            &&& rollback_undisturbed(events) ==> f.error is None
        }),
{
    let resumed = rollback_resumed(record);
    law_rollback_order(step);
    if !c.update && step == RollbackStep::StartPrevious {
        let prelude = seq![RollbackStage::SaveJournal];
        let part = rollback_part(prelude, 9, 9, c);
        law_rollback_order(RollbackStep::Finalize);
        assert(part =~= seq![RollbackStage::SaveJournal, RollbackStage::RestoreRecord]);
        assert(part.subrange(0, 0) =~= Seq::<RollbackStage>::empty());
        lemma_rollback_on_course(resumed, events, prelude, 9, c);
        assert(rollback_course(prelude, 9, 9, c) =~= Seq::<RollbackStage>::empty());
        assert(rollback_course(prelude, 9, 10, c) =~= part);
    } else {
        let start = rollback_index(step);
        let prelude = resumed_prelude(c.update, start);
        let part = rollback_part(prelude, start, start, c);
        assert(part[0] == resumed.stage);
        assert(part.subrange(0, 0) =~= Seq::<RollbackStage>::empty());
        lemma_rollback_on_course(resumed, events, prelude, start, c);
    }
}

/// Whether a listener is known to be reserved: from the last answer on it.
pub open spec fn last_reserved(
    f: RollbackFlowView,
    reserved: bool,
    events: Seq<RollbackEventView>,
) -> bool
    decreases events.len(),
{
    if events.len() == 0 {
        reserved
    } else {
        let stage = rollback_run(f, events.drop_last()).stage;
        match events.last() {
            RollbackEventView::Retained(b) if succeeds(stage, events.last()) => b,
            RollbackEventView::Done if stage == RollbackStage::StopUnits => false,
            _ => last_reserved(f, reserved, events.drop_last()),
        }
    }
}

#[verifier::spinoff_prover]
#[verifier::rlimit(60)]
proof fn lemma_reservation_step(f: RollbackFlowView, e: RollbackEventView)
    ensures
        rollback_step(f, e).reserved == match e {
            RollbackEventView::Retained(b) => if succeeds(f.stage, e) {
                b
            } else {
                f.reserved
            },
            RollbackEventView::Done => f.reserved && f.stage != RollbackStage::StopUnits,
            _ => f.reserved,
        },
{
}

proof fn lemma_reservations(f: RollbackFlowView, events: Seq<RollbackEventView>)
    ensures
        rollback_run(f, events).reserved == last_reserved(f, f.reserved, events),
    decreases events.len(),
{
    if events.len() > 0 {
        lemma_reservations(f, events.drop_last());
        lemma_reservation_step(rollback_run(f, events.drop_last()), events.last());
    }
}

/// A rollback takes a listener for reserved exactly where the last answer on it
/// said so; the stop of all units gives the reservations up.
pub proof fn law_reservations_are_known(
    record: RecordView,
    reserved: bool,
    events: Seq<RollbackEventView>,
)
    ensures
        rollback_run(rollback_begun(record, reserved), events).reserved == last_reserved(
            rollback_begun(record, reserved),
            reserved,
            events,
        ),
        rollback_run(rollback_resumed(record), events).reserved == last_reserved(
            rollback_resumed(record),
            false,
            events,
        ),
{
    let resumed = rollback_resumed(record);
    assert(!resumed.reserved);
    lemma_reservations(rollback_begun(record, reserved), events);
    lemma_reservations(resumed, events);
}

/// Whether a generation is allowed to start: the permission was given and not
/// withdrawn since.
pub open spec fn rollback_leased(f: RollbackFlowView, events: Seq<RollbackEventView>) -> bool
    decreases events.len(),
{
    if events.len() == 0 {
        false
    } else {
        let stage = rollback_run(f, events.drop_last()).stage;
        if events.last() is Done && (stage == RollbackStage::LeaseReloaded || stage
            == RollbackStage::LeasePrevious) {
            true
        } else if events.last() is Done && (stage == RollbackStage::ReleaseReloaded || stage
            == RollbackStage::ReleasePrevious) {
            false
        } else {
            rollback_leased(f, events.drop_last())
        }
    }
}

/// Whether a stage belongs to a permitted start.
pub open spec fn is_permitted_start(stage: RollbackStage) -> bool {
    stage == RollbackStage::StartReloaded || stage == RollbackStage::ReachReloaded || stage
        == RollbackStage::InvalidatePlan || stage == RollbackStage::ReleaseReloaded || stage
        == RollbackStage::StartPrevious || stage == RollbackStage::ConfirmPrevious || stage
        == RollbackStage::ReleasePrevious
}

proof fn lemma_rollback_leases(f: RollbackFlowView, events: Seq<RollbackEventView>)
    requires
        !is_permitted_start(f.stage),
    ensures
        rollback_leased(f, events) == is_permitted_start(rollback_run(f, events).stage),
    decreases events.len(),
{
    if events.len() > 0 {
        lemma_rollback_leases(f, events.drop_last());
        lemma_lease_step(rollback_run(f, events.drop_last()), events.last());
    }
}

#[verifier::spinoff_prover]
proof fn lemma_lease_step(f: RollbackFlowView, e: RollbackEventView)
    ensures
        is_permitted_start(rollback_step(f, e).stage) == if e is Done && (f.stage
            == RollbackStage::LeaseReloaded || f.stage == RollbackStage::LeasePrevious) {
            true
        } else if e is Done && (f.stage == RollbackStage::ReleaseReloaded || f.stage
            == RollbackStage::ReleasePrevious) {
            false
        } else {
            is_permitted_start(f.stage)
        },
{
}

/// The permission to start is held exactly while a generation is started under it:
/// however a rollback goes, it is withdrawn before the rollback goes on or ends.
pub proof fn law_rollback_withdraws_permissions(
    record: RecordView,
    reserved: bool,
    events: Seq<RollbackEventView>,
)
    ensures
        rollback_leased(rollback_begun(record, reserved), events) == is_permitted_start(
            rollback_run(rollback_begun(record, reserved), events).stage,
        ),
        rollback_leased(rollback_resumed(record), events) == is_permitted_start(
            rollback_run(rollback_resumed(record), events).stage,
        ),
{
    lemma_rollback_leases(rollback_begun(record, reserved), events);
    lemma_rollback_leases(rollback_resumed(record), events);
}

/// Whether a stage cannot fail: listeners are kept up however long it takes, and
/// permissions and authority are given up without fail.
pub open spec fn cannot_fail(stage: RollbackStage) -> bool {
    stage == RollbackStage::RetainRestored || stage == RollbackStage::RetainReloaded || stage
        == RollbackStage::RetainInvalidated || stage == RollbackStage::RetainPrevious || stage
        == RollbackStage::RetainFailed || stage == RollbackStage::ReleaseReloaded || stage
        == RollbackStage::ReleasePrevious || stage == RollbackStage::ReleaseAuthority || stage
        == RollbackStage::Finished
}

/// What fails is reported, and nothing of the journal is done behind it: a start
/// under a permission first gives that up and keeps the listeners up, anything
/// else ends at once. A rollback of an update that could not start the generation
/// that it restored ends with its listeners kept up.
pub proof fn law_rollback_failures_are_reported(f: RollbackFlowView, x: FaultView)
    ensures
        ({
            let g = rollback_step(f, RollbackEventView::Failed(x));
            &&& g.record == f.record
            &&& cannot_fail(f.stage) ==> g == f
            &&& !cannot_fail(f.stage) ==> g.error == Some(x)
            &&& !cannot_fail(f.stage) && !is_permitted_start(f.stage) ==> g.stage
                == RollbackStage::Finished
            &&& f.stage == RollbackStage::StartPrevious || f.stage
                == RollbackStage::ConfirmPrevious ==> {
                let released = rollback_step(g, RollbackEventView::Done);
                let kept = rollback_step(released, RollbackEventView::Done);
                &&& g.stage == RollbackStage::ReleasePrevious
                &&& released.stage == RollbackStage::RetainFailed
                &&& kept.stage == RollbackStage::Finished
                &&& kept.error == Some(x)
                &&& kept.record == f.record
            }
            &&& f.stage == RollbackStage::StartReloaded || f.stage == RollbackStage::ReachReloaded
                || f.stage == RollbackStage::InvalidatePlan ==> {
                let released = rollback_step(g, RollbackEventView::Done);
                let kept = rollback_step(released, RollbackEventView::Done);
                &&& g.stage == RollbackStage::ReleaseReloaded
                &&& released.stage == RollbackStage::RetainInvalidated
                &&& kept.stage == RollbackStage::Finished
                &&& kept.error == Some(x)
                &&& kept.record == f.record
            }
        }),
{
}

/// Only a transaction that was not accepted is rolled back, and only a rollback that
/// was begun goes on; anything else is refused without an effect.
pub proof fn law_only_open_transactions_are_rolled_back(
    record: RecordView,
    reserved: bool,
    events: Seq<RollbackEventView>,
)
    ensures
        ({
            let open = record.phase is Staging || record.phase is Staged || record.phase
                is Published;
            let begun = rollback_begun(record, reserved);
            &&& open <==> begun.error is None
            &&& open ==> begun.record.current == record.current && begun.record.previous
                == record.previous && begun.record.previous_previous == record.previous_previous
            &&& !open ==> begun.record == record && rollback_run(begun, events) == begun
                && begun.stage == RollbackStage::Finished
            &&& record.phase is RollingBack <==> rollback_resumed(record).error is None
            &&& !(record.phase is RollingBack) ==> rollback_run(rollback_resumed(record), events)
                == rollback_resumed(record) && rollback_resumed(record).stage
                == RollbackStage::Finished
        }),
    decreases events.len(),
{
    if events.len() > 0 {
        law_only_open_transactions_are_rolled_back(record, reserved, events.drop_last());
    }
}

} // verus!
