//! The execution of an approved installation or update, from the journal's
//! first entry to the accepted generation, and what follows a failure.

use vstd::prelude::*;
use vstd::string::*;

use crate::course::{lemma_passed, lemma_passes, on_course, only_if};
use crate::fault::{conflict, conflict_of, Fault, FaultView};
use crate::model::{
    directory_views, invalid_record_of, staging_record, Generation, GenerationView, InstallPhase,
    InstallRecord, PublicDirectory, PublicDirectoryView, RecordView, ResolverPlanIdentity,
};
use crate::publications::option_fault;

verus! {

/// What is to be done next.
#[derive(Debug, Clone, Copy, PartialEq, Eq, Structural)]
pub enum PublishStage {
    /// Write the record of the staging generation.
    SaveStaging,
    /// Write the files of the generation.
    StageFiles,
    /// Hold the files to the manifest.
    VerifyFiles,
    /// Publish the directories that the generation creates.
    PublishDirectories,
    /// Write the record of the staged generation.
    SaveStaged,
    /// Publish the unit links of a first installation.
    InstallUnitLinks,
    /// Publish the public links of a first installation.
    InstallPublicLinks,
    /// Stop the running generation and reserve its listeners.
    PrepareCutover,
    /// Lead the current link to the generation.
    PublishCurrent,
    /// Write the record of the published generation.
    SavePublished,
    /// Publish and take away the links that an update changes.
    ChangeLinks,
    VerifyUnitLinks,
    ReloadManager,
    /// Hold on to the listeners that are not active.
    RetainReservations,
    /// Prepare the start of the daemon and its sockets.
    PrepareDaemon,
    /// Allow the generation to start.
    AcquireLease,
    /// Start the daemon and its sockets.
    StartDaemon,
    WaitForDaemon,
    /// Give the resolver's authority to the supervisor.
    ReleaseResolver,
    /// The activation is still the one that the plan was bound to.
    RequireActivation,
    /// Ask the daemon for its plan.
    ReadPlan,
    StartResolver,
    WaitForHealth,
    /// The activation of an update is still the one that the plan was bound to.
    RequireActivationAgain,
    /// The supervisor is active with no job pending.
    RequireSettled,
    /// Stop the supervisor that was not accepted.
    QuiesceResolver,
    /// Write the record of the generation whose stale one goes.
    SavePruning,
    RemoveStale,
    /// Write the record of the accepted generation.
    SaveActive,
    /// Withdraw the permission to start.
    ReleaseLease,
    /// Hold on to the listeners after a failure.
    RetainAfterFailure,
    /// Roll the transaction back.
    RollBack,
    /// Nothing: the run is over.
    Finished,
}

/// What came of what was to be done.
#[derive(Debug)]
pub enum PublishEvent {
    Done,
    Failed(Fault),
    /// The public directories with the identities that they were given.
    Directories(Vec<PublicDirectory>),
    /// The plan that the daemon serves.
    Plan(Option<ResolverPlanIdentity>),
}

/// An event over plain values.
pub enum PublishEventView {
    Done,
    Failed(FaultView),
    Directories(Seq<PublicDirectoryView>),
    Plan(Option<ResolverPlanIdentity>),
}

impl View for PublishEvent {
    type V = PublishEventView;

    open spec fn view(&self) -> PublishEventView {
        match self {
            PublishEvent::Done => PublishEventView::Done,
            PublishEvent::Failed(e) => PublishEventView::Failed(e@),
            PublishEvent::Directories(d) => PublishEventView::Directories(directory_views(d@)),
            PublishEvent::Plan(p) => PublishEventView::Plan(*p),
        }
    }
}

/// How far an execution has come. The journal is the record that was last
/// written or is to be written next.
#[derive(Debug)]
pub struct PublishFlow {
    pub stage: PublishStage,
    pub record: InstallRecord,
    /// Whether the plan was bound to an activation.
    pub activation_bound: bool,
    pub error: Option<Fault>,
}

/// An execution over plain values.
pub struct PublishFlowView {
    pub stage: PublishStage,
    pub record: RecordView,
    pub activation_bound: bool,
    pub error: Option<FaultView>,
}

impl View for PublishFlow {
    type V = PublishFlowView;

    open spec fn view(&self) -> PublishFlowView {
        PublishFlowView {
            stage: self.stage,
            record: self.record@,
            activation_bound: self.activation_bound,
            error: option_fault(self.error),
        }
    }
}

pub open spec fn at(f: PublishFlowView, stage: PublishStage) -> PublishFlowView {
    PublishFlowView { stage, ..f }
}

pub open spec fn in_phase(f: PublishFlowView, phase: InstallPhase) -> PublishFlowView {
    PublishFlowView { record: RecordView { phase, ..f.record }, ..f }
}

/// A failed execution: what was not pruned yet is rolled back.
pub open spec fn failed(f: PublishFlowView, e: FaultView) -> PublishFlowView {
    PublishFlowView {
        stage: if f.record.phase != InstallPhase::Pruning {
            PublishStage::RollBack
        } else {
            PublishStage::Finished
        },
        error: Some(e),
        ..f
    }
}

/// A failure while the generation is allowed to start.
pub open spec fn failed_leased(f: PublishFlowView, e: FaultView) -> PublishFlowView {
    PublishFlowView { stage: PublishStage::ReleaseLease, error: Some(e), ..f }
}

/// A failure of the supervisor that was started.
pub open spec fn not_accepted(f: PublishFlowView, e: FaultView) -> PublishFlowView {
    PublishFlowView { stage: PublishStage::QuiesceResolver, error: Some(e), ..f }
}

/// Acceptance: the stale generation goes first, where there is one.
pub open spec fn accept(f: PublishFlowView) -> PublishFlowView {
    if f.record.previous_previous is Some {
        if f.record.phase == InstallPhase::Published {
            at(in_phase(f, InstallPhase::Pruning), PublishStage::SavePruning)
        } else {
            failed_leased(f, invalid_record_of())
        }
    } else {
        activate(f)
    }
}

/// The record of the accepted generation.
pub open spec fn activate(f: PublishFlowView) -> PublishFlowView {
    if f.record.phase == InstallPhase::Pruning || (f.record.phase == InstallPhase::Published
        && f.record.previous_previous is None) {
        PublishFlowView {
            stage: PublishStage::SaveActive,
            record: RecordView {
                phase: InstallPhase::Active,
                previous_previous: None,
                pending_resolver_plan: None,
                ..f.record
            },
            ..f
        }
    } else {
        failed_leased(f, invalid_record_of())
    }
}

/// Where an execution goes once an action succeeded.
pub open spec fn publish_done(f: PublishFlowView) -> PublishFlowView {
    let update = f.record.previous is Some;
    match f.stage {
        PublishStage::SaveStaging => at(f, PublishStage::StageFiles),
        PublishStage::StageFiles => at(f, PublishStage::VerifyFiles),
        PublishStage::VerifyFiles => at(f, PublishStage::PublishDirectories),
        PublishStage::SaveStaged => at(
            f,
            if update {
                PublishStage::PrepareCutover
            } else {
                PublishStage::InstallUnitLinks
            },
        ),
        PublishStage::InstallUnitLinks => at(f, PublishStage::InstallPublicLinks),
        PublishStage::InstallPublicLinks => at(f, PublishStage::PublishCurrent),
        PublishStage::PrepareCutover => at(f, PublishStage::PublishCurrent),
        PublishStage::PublishCurrent => if f.record.phase == InstallPhase::Staged {
            at(in_phase(f, InstallPhase::Published), PublishStage::SavePublished)
        } else {
            failed(f, invalid_record_of())
        },
        PublishStage::SavePublished => at(
            f,
            if update {
                PublishStage::ChangeLinks
            } else {
                PublishStage::VerifyUnitLinks
            },
        ),
        PublishStage::ChangeLinks => at(f, PublishStage::VerifyUnitLinks),
        PublishStage::VerifyUnitLinks => at(f, PublishStage::ReloadManager),
        PublishStage::ReloadManager => at(f, PublishStage::RetainReservations),
        PublishStage::RetainReservations => at(f, PublishStage::PrepareDaemon),
        PublishStage::PrepareDaemon => at(f, PublishStage::AcquireLease),
        PublishStage::AcquireLease => at(f, PublishStage::StartDaemon),
        PublishStage::StartDaemon => at(f, PublishStage::WaitForDaemon),
        PublishStage::WaitForDaemon => at(f, PublishStage::ReleaseResolver),
        PublishStage::ReleaseResolver => at(f, PublishStage::RequireActivation),
        PublishStage::RequireActivation => at(f, PublishStage::ReadPlan),
        PublishStage::StartResolver => at(f, PublishStage::WaitForHealth),
        PublishStage::WaitForHealth => at(
            f,
            if f.activation_bound {
                PublishStage::RequireActivationAgain
            } else {
                PublishStage::RequireSettled
            },
        ),
        PublishStage::RequireActivationAgain => at(f, PublishStage::RequireSettled),
        PublishStage::RequireSettled => accept(f),
        PublishStage::QuiesceResolver => at(f, PublishStage::ReleaseLease),
        PublishStage::SavePruning => at(f, PublishStage::RemoveStale),
        PublishStage::RemoveStale => activate(f),
        PublishStage::SaveActive => at(f, PublishStage::ReleaseLease),
        PublishStage::ReleaseLease => match f.error {
            None => at(f, PublishStage::Finished),
            Some(e) => if f.record.phase != InstallPhase::Pruning && update {
                at(f, PublishStage::RetainAfterFailure)
            } else {
                failed(f, e)
            },
        },
        PublishStage::RetainAfterFailure => match f.error {
            Some(e) => failed(f, e),
            None => f,
        },
        PublishStage::RollBack => at(f, PublishStage::Finished),
        PublishStage::PublishDirectories | PublishStage::ReadPlan | PublishStage::Finished => f,
    }
}

/// Where an execution goes once an action failed.
pub open spec fn publish_failed(f: PublishFlowView, e: FaultView) -> PublishFlowView {
    match f.stage {
        PublishStage::StartDaemon | PublishStage::WaitForDaemon | PublishStage::ReleaseResolver
        | PublishStage::RequireActivation | PublishStage::ReadPlan | PublishStage::StartResolver
        | PublishStage::SavePruning | PublishStage::RemoveStale
        | PublishStage::SaveActive => failed_leased(f, e),
        PublishStage::WaitForHealth | PublishStage::RequireActivationAgain => not_accepted(f, e),
        PublishStage::RequireSettled => not_accepted(
            f,
            conflict_of("the resolver supervisor exited before acceptance"@),
        ),
        PublishStage::QuiesceResolver | PublishStage::ReleaseLease | PublishStage::Finished => f,
        PublishStage::RollBack => PublishFlowView {
            stage: PublishStage::Finished,
            error: Some(e),
            ..f
        },
        _ => failed(f, e),
    }
}

/// Where an execution goes from an event. An event that does not belong to the
/// stage changes nothing; stopping a supervisor and withdrawing a permission
/// cannot fail.
pub open spec fn publish_step(f: PublishFlowView, e: PublishEventView) -> PublishFlowView {
    match e {
        PublishEventView::Done => publish_done(f),
        PublishEventView::Failed(x) => publish_failed(f, x),
        PublishEventView::Directories(d) => if f.stage == PublishStage::PublishDirectories {
            let g = PublishFlowView {
                record: RecordView {
                    current: GenerationView { public_directories: d, ..f.record.current },
                    ..f.record
                },
                ..f
            };
            if f.record.phase == InstallPhase::Staging {
                at(in_phase(g, InstallPhase::Staged), PublishStage::SaveStaged)
            } else {
                failed(g, invalid_record_of())
            }
        } else {
            f
        },
        PublishEventView::Plan(p) => if f.stage == PublishStage::ReadPlan {
            if p is Some {
                failed_leased(
                    f,
                    conflict_of("the restarted daemon retained an unexpected resolver plan"@),
                )
            } else {
                at(f, PublishStage::StartResolver)
            }
        } else {
            f
        },
    }
}

/// An execution that has just begun.
pub open spec fn publish_begun(
    g: GenerationView,
    previous: Option<RecordView>,
    activation_bound: bool,
) -> PublishFlowView {
    PublishFlowView {
        stage: PublishStage::SaveStaging,
        record: staging_record(g, previous),
        activation_bound,
        error: None,
    }
}

impl PublishFlow {
    /// Begins the execution of an approved generation over the installed one.
    pub fn begin(
        generation: Generation,
        previous: Option<&InstallRecord>,
        activation_bound: bool,
    ) -> (r: PublishFlow)
        ensures
            r@ == publish_begun(
                generation@,
                match previous {
                    Some(record) => Some(record@),
                    None => None,
                },
                activation_bound,
            ),
    {
        PublishFlow {
            stage: PublishStage::SaveStaging,
            record: InstallRecord::staging(generation, previous),
            activation_bound,
            error: None,
        }
    }

    fn go(self, stage: PublishStage) -> (r: PublishFlow)
        ensures
            r@ == at(self@, stage),
    {
        PublishFlow { stage, ..self }
    }

    fn fail(self, e: Fault) -> (r: PublishFlow)
        ensures
            r@ == failed(self@, e@),
    {
        let stage = if self.record.phase != InstallPhase::Pruning {
            PublishStage::RollBack
        } else {
            PublishStage::Finished
        };
        PublishFlow { stage, error: Some(e), ..self }
    }

    fn fail_at(self, stage: PublishStage, e: Fault) -> (r: PublishFlow)
        ensures
            r@ == (PublishFlowView { stage, error: Some(e@), ..self@ }),
    {
        PublishFlow { stage, error: Some(e), ..self }
    }

    fn activate(self) -> (r: PublishFlow)
        ensures
            r@ == activate(self@),
    {
        let mut f = self;
        match f.record.activate() {
            Err(e) => f.fail_at(PublishStage::ReleaseLease, e),
            Ok(_) => f.go(PublishStage::SaveActive),
        }
    }

    fn accept(self) -> (r: PublishFlow)
        ensures
            r@ == accept(self@),
    {
        let mut f = self;
        let stale = match f.record.previous_previous {
            Some(_) => true,
            None => false,
        };
        if !stale {
            return f.activate();
        }
        match f.record.begin_prune() {
            Err(e) => f.fail_at(PublishStage::ReleaseLease, e),
            Ok(_) => f.go(PublishStage::SavePruning),
        }
    }

    fn publish(self) -> (r: PublishFlow)
        requires
            self@.stage == PublishStage::PublishCurrent,
        ensures
            r@ == publish_done(self@),
    {
        let mut f = self;
        match f.record.publish() {
            Err(e) => f.fail(e),
            Ok(_) => f.go(PublishStage::SavePublished),
        }
    }

    fn release(self) -> (r: PublishFlow)
        requires
            self@.stage == PublishStage::ReleaseLease,
        ensures
            r@ == publish_done(self@),
    {
        let update = match self.record.previous {
            Some(_) => true,
            None => false,
        };
        let retain = self.record.phase != InstallPhase::Pruning && update;
        match self.error {
            None => PublishFlow { stage: PublishStage::Finished, error: None, ..self },
            Some(e) => if retain {
                PublishFlow { stage: PublishStage::RetainAfterFailure, error: Some(e), ..self }
            } else {
                let f = PublishFlow { error: None, ..self };
                f.fail(e)
            },
        }
    }

    fn done(self) -> (r: PublishFlow)
        ensures
            r@ == publish_done(self@),
    {
        let update = match self.record.previous {
            Some(_) => true,
            None => false,
        };
        match self.stage {
            PublishStage::SaveStaging => self.go(PublishStage::StageFiles),
            PublishStage::StageFiles => self.go(PublishStage::VerifyFiles),
            PublishStage::VerifyFiles => self.go(PublishStage::PublishDirectories),
            PublishStage::SaveStaged => if update {
                self.go(PublishStage::PrepareCutover)
            } else {
                self.go(PublishStage::InstallUnitLinks)
            },
            PublishStage::InstallUnitLinks => self.go(PublishStage::InstallPublicLinks),
            PublishStage::InstallPublicLinks => self.go(PublishStage::PublishCurrent),
            PublishStage::PrepareCutover => self.go(PublishStage::PublishCurrent),
            PublishStage::PublishCurrent => self.publish(),
            PublishStage::SavePublished => if update {
                self.go(PublishStage::ChangeLinks)
            } else {
                self.go(PublishStage::VerifyUnitLinks)
            },
            PublishStage::ChangeLinks => self.go(PublishStage::VerifyUnitLinks),
            PublishStage::VerifyUnitLinks => self.go(PublishStage::ReloadManager),
            PublishStage::ReloadManager => self.go(PublishStage::RetainReservations),
            PublishStage::RetainReservations => self.go(PublishStage::PrepareDaemon),
            PublishStage::PrepareDaemon => self.go(PublishStage::AcquireLease),
            PublishStage::AcquireLease => self.go(PublishStage::StartDaemon),
            PublishStage::StartDaemon => self.go(PublishStage::WaitForDaemon),
            PublishStage::WaitForDaemon => self.go(PublishStage::ReleaseResolver),
            PublishStage::ReleaseResolver => self.go(PublishStage::RequireActivation),
            PublishStage::RequireActivation => self.go(PublishStage::ReadPlan),
            PublishStage::StartResolver => self.go(PublishStage::WaitForHealth),
            PublishStage::WaitForHealth => if self.activation_bound {
                self.go(PublishStage::RequireActivationAgain)
            } else {
                self.go(PublishStage::RequireSettled)
            },
            PublishStage::RequireActivationAgain => self.go(PublishStage::RequireSettled),
            PublishStage::RequireSettled => self.accept(),
            PublishStage::QuiesceResolver => self.go(PublishStage::ReleaseLease),
            PublishStage::SavePruning => self.go(PublishStage::RemoveStale),
            PublishStage::RemoveStale => self.activate(),
            PublishStage::SaveActive => self.go(PublishStage::ReleaseLease),
            PublishStage::ReleaseLease => self.release(),
            PublishStage::RetainAfterFailure => match self.error {
                Some(e) => {
                    let f = PublishFlow { error: None, ..self };
                    f.fail(e)
                },
                None => PublishFlow { error: None, ..self },
            },
            PublishStage::RollBack => self.go(PublishStage::Finished),
            PublishStage::PublishDirectories
            | PublishStage::ReadPlan
            | PublishStage::Finished => self,
        }
    }

    fn failed(self, e: Fault) -> (r: PublishFlow)
        ensures
            r@ == publish_failed(self@, e@),
    {
        match self.stage {
            PublishStage::StartDaemon
            | PublishStage::WaitForDaemon
            | PublishStage::ReleaseResolver
            | PublishStage::RequireActivation
            | PublishStage::ReadPlan
            | PublishStage::StartResolver
            | PublishStage::SavePruning
            | PublishStage::RemoveStale
            | PublishStage::SaveActive => self.fail_at(PublishStage::ReleaseLease, e),
            PublishStage::WaitForHealth | PublishStage::RequireActivationAgain => self.fail_at(
                PublishStage::QuiesceResolver,
                e,
            ),
            PublishStage::RequireSettled => self.fail_at(
                PublishStage::QuiesceResolver,
                conflict("the resolver supervisor exited before acceptance"),
            ),
            PublishStage::QuiesceResolver
            | PublishStage::ReleaseLease
            | PublishStage::Finished => self,
            PublishStage::RollBack => self.fail_at(PublishStage::Finished, e),
            _ => self.fail(e),
        }
    }

    fn directories(self, d: Vec<PublicDirectory>) -> (r: PublishFlow)
        ensures
            r@ == publish_step(self@, PublishEventView::Directories(directory_views(d@))),
    {
        if self.stage != PublishStage::PublishDirectories {
            return self;
        }
        let mut f = self;
        f.record.current.public_directories = d;
        match f.record.stage() {
            Err(e) => f.fail(e),
            Ok(_) => f.go(PublishStage::SaveStaged),
        }
    }

    fn plan(self, p: Option<ResolverPlanIdentity>) -> (r: PublishFlow)
        ensures
            r@ == publish_step(self@, PublishEventView::Plan(p)),
    {
        if self.stage != PublishStage::ReadPlan {
            return self;
        }
        match p {
            Some(_) => self.fail_at(
                PublishStage::ReleaseLease,
                conflict("the restarted daemon retained an unexpected resolver plan"),
            ),
            None => self.go(PublishStage::StartResolver),
        }
    }

    /// Goes on from what came of the last action.
    pub fn step(self, event: PublishEvent) -> (r: PublishFlow)
        ensures
            r@ == publish_step(self@, event@),
    {
        match event {
            PublishEvent::Done => self.done(),
            PublishEvent::Failed(e) => self.failed(e),
            PublishEvent::Directories(d) => self.directories(d),
            PublishEvent::Plan(p) => self.plan(p),
        }
    }
}

// ---------------------------------------------------------------------------
// Laws
// ---------------------------------------------------------------------------

/// Where an execution comes to after some events.
pub open spec fn publish_run(f: PublishFlowView, events: Seq<PublishEventView>) -> PublishFlowView
    decreases events.len(),
{
    if events.len() == 0 {
        f
    } else {
        publish_step(publish_run(f, events.drop_last()), events.last())
    }
}

/// The phase in which the journal stands at a stage, where nothing failed yet.
pub open spec fn journal_phase(stage: PublishStage) -> Option<InstallPhase> {
    match stage {
        PublishStage::SaveStaging | PublishStage::StageFiles | PublishStage::VerifyFiles
        | PublishStage::PublishDirectories => Some(InstallPhase::Staging),
        PublishStage::SaveStaged | PublishStage::InstallUnitLinks
        | PublishStage::InstallPublicLinks | PublishStage::PrepareCutover
        | PublishStage::PublishCurrent => Some(InstallPhase::Staged),
        PublishStage::SavePublished | PublishStage::ChangeLinks | PublishStage::VerifyUnitLinks
        | PublishStage::ReloadManager | PublishStage::RetainReservations
        | PublishStage::PrepareDaemon | PublishStage::AcquireLease | PublishStage::StartDaemon
        | PublishStage::WaitForDaemon | PublishStage::ReleaseResolver
        | PublishStage::RequireActivation | PublishStage::ReadPlan | PublishStage::StartResolver
        | PublishStage::WaitForHealth | PublishStage::RequireActivationAgain
        | PublishStage::RequireSettled => Some(InstallPhase::Published),
        PublishStage::SavePruning | PublishStage::RemoveStale => Some(InstallPhase::Pruning),
        PublishStage::SaveActive => Some(InstallPhase::Active),
        _ => None,
    }
}

/// What every execution keeps.
pub open spec fn execution_valid(f: PublishFlowView) -> bool {
    &&& journal_phase(f.stage) is Some ==> {
        &&& f.error is None
        &&& f.record.phase == journal_phase(f.stage)->0
    }
    &&& f.stage == PublishStage::ReleaseLease && f.error is None ==> f.record.phase
        == InstallPhase::Active
    &&& f.stage == PublishStage::QuiesceResolver || f.stage == PublishStage::RetainAfterFailure
        || f.stage == PublishStage::RollBack ==> f.error is Some
    &&& f.stage == PublishStage::RetainAfterFailure || f.stage == PublishStage::RollBack
        ==> f.record.phase != InstallPhase::Pruning
    &&& f.stage == PublishStage::Finished && f.error is None ==> f.record.phase
        == InstallPhase::Active
}

proof fn lemma_execution_valid(
    g: GenerationView,
    previous: Option<RecordView>,
    activation_bound: bool,
    events: Seq<PublishEventView>,
)
    ensures
        execution_valid(publish_run(publish_begun(g, previous, activation_bound), events)),
    decreases events.len(),
{
    if events.len() > 0 {
        lemma_execution_valid(g, previous, activation_bound, events.drop_last());
    }
}

/// An execution that ends without a failure leaves an active record, whatever
/// happened on the way.
pub proof fn law_success_leaves_an_active_record(
    g: GenerationView,
    previous: Option<RecordView>,
    activation_bound: bool,
    events: Seq<PublishEventView>,
)
    ensures
        ({
            let f = publish_run(publish_begun(g, previous, activation_bound), events);
            f.stage == PublishStage::Finished && f.error is None ==> f.record.phase
                == InstallPhase::Active
        }),
{
    lemma_execution_valid(g, previous, activation_bound, events);
}

/// The journal is always in the phase that its stage belongs to: no effect
/// precedes the entry that recovery would undo it by.
pub proof fn law_journal_leads_the_effects(
    g: GenerationView,
    previous: Option<RecordView>,
    activation_bound: bool,
    events: Seq<PublishEventView>,
)
    ensures
        ({
            let f = publish_run(publish_begun(g, previous, activation_bound), events);
            journal_phase(f.stage) is Some ==> f.record.phase == journal_phase(f.stage)->0
        }),
{
    lemma_execution_valid(g, previous, activation_bound, events);
}

/// No execution ends with a failure before the transaction was rolled back,
/// except one whose generation was accepted already and is only being pruned.
pub proof fn law_failures_are_rolled_back(f: PublishFlowView, e: PublishEventView)
    requires
        f.stage != PublishStage::Finished,
        f.stage != PublishStage::RollBack,
        publish_step(f, e).stage == PublishStage::Finished,
        publish_step(f, e).error is Some,
    ensures
        publish_step(f, e).record.phase == InstallPhase::Pruning,
{
}

/// The generation that is executed is the approved one throughout: only its
/// phase, its directories' identities and what went with pruning change.
pub proof fn law_execution_keeps_the_generation(
    g: GenerationView,
    previous: Option<RecordView>,
    activation_bound: bool,
    events: Seq<PublishEventView>,
)
    ensures
        ({
            let r = publish_run(publish_begun(g, previous, activation_bound), events).record;
            &&& r.current == (GenerationView {
                public_directories: r.current.public_directories,
                ..g
            })
            &&& r.previous == staging_record(g, previous).previous
            &&& r.pending_resolver_plan is None
        }),
    decreases events.len(),
{
    if events.len() > 0 {
        law_execution_keeps_the_generation(g, previous, activation_bound, events.drop_last());
    }
}

/// Whether an event is the success of what a stage is to do.
pub open spec fn succeeds(stage: PublishStage, e: PublishEventView) -> bool {
    match stage {
        PublishStage::PublishDirectories => e is Directories,
        PublishStage::ReadPlan => e == PublishEventView::Plan(None),
        PublishStage::Finished => false,
        _ => e is Done,
    }
}

/// The stages that a run has passed with success, in their order.
pub open spec fn publish_passed(f: PublishFlowView, events: Seq<PublishEventView>) -> Seq<
    PublishStage,
>
    decreases events.len(),
{
    if events.len() == 0 {
        Seq::empty()
    } else {
        let before = publish_passed(f, events.drop_last());
        let stage = publish_run(f, events.drop_last()).stage;
        if succeeds(stage, events.last()) {
            before.push(stage)
        } else {
            before
        }
    }
}

/// What an installation or an update goes through where nothing fails: whether it
/// is an update, whether its plan was bound to an activation, and whether a stale
/// generation has to go.
pub open spec fn publish_course(update: bool, bound: bool, stale: bool) -> Seq<PublishStage> {
    seq![
        PublishStage::SaveStaging,
        PublishStage::StageFiles,
        PublishStage::VerifyFiles,
        PublishStage::PublishDirectories,
        PublishStage::SaveStaged,
    ] + only_if(update, seq![PublishStage::PrepareCutover]) + only_if(
        !update,
        seq![PublishStage::InstallUnitLinks, PublishStage::InstallPublicLinks],
    ) + seq![PublishStage::PublishCurrent, PublishStage::SavePublished] + only_if(
        update,
        seq![PublishStage::ChangeLinks],
    ) + seq![
        PublishStage::VerifyUnitLinks,
        PublishStage::ReloadManager,
        PublishStage::RetainReservations,
        PublishStage::PrepareDaemon,
        PublishStage::AcquireLease,
        PublishStage::StartDaemon,
        PublishStage::WaitForDaemon,
        PublishStage::ReleaseResolver,
        PublishStage::RequireActivation,
        PublishStage::ReadPlan,
        PublishStage::StartResolver,
        PublishStage::WaitForHealth,
    ] + only_if(bound, seq![PublishStage::RequireActivationAgain]) + seq![
        PublishStage::RequireSettled,
    ] + only_if(stale, seq![PublishStage::SavePruning, PublishStage::RemoveStale]) + seq![
        PublishStage::SaveActive,
        PublishStage::ReleaseLease,
    ]
}

/// Whether some events hold no failure.
pub open spec fn publish_undisturbed(events: Seq<PublishEventView>) -> bool {
    forall|i: int|
        0 <= i < events.len() ==> !((#[trigger] events[i]) is Failed) && (events[i] is Plan
            ==> events[i] == PublishEventView::Plan(None))
}

/// What every execution keeps of its course.
spec fn publish_kept(
    f: PublishFlowView,
    passed: Seq<PublishStage>,
    update: bool,
    bound: bool,
    stale: bool,
) -> bool {
    &&& execution_valid(f)
    &&& f.record.previous is Some == update
    &&& f.activation_bound == bound
    &&& journal_phase(f.stage) is Some && f.stage != PublishStage::SaveActive
        ==> f.record.previous_previous is Some == stale
    &&& f.error is None ==> on_course(
        publish_course(update, bound, stale),
        passed,
        f.stage,
        PublishStage::Finished,
    )
}

#[verifier::spinoff_prover]
#[verifier::rlimit(60)]
proof fn lemma_publish_kept(
    f: PublishFlowView,
    passed: Seq<PublishStage>,
    e: PublishEventView,
    update: bool,
    bound: bool,
    stale: bool,
)
    requires
        publish_kept(f, passed, update, bound, stale),
    ensures
        publish_kept(
            publish_step(f, e),
            if succeeds(f.stage, e) {
                passed.push(f.stage)
            } else {
                passed
            },
            update,
            bound,
            stale,
        ),
        f.error is None && !(e is Failed) && (e is Plan ==> e == PublishEventView::Plan(None))
            ==> publish_step(f, e).error is None,
{
    let c = publish_course(update, bound, stale);
    let n = passed.len() as int;
    let g = publish_step(f, e);
    if f.error is None && succeeds(f.stage, e) {
        assert(!c.contains(PublishStage::Finished));
        assert(n < c.len());
        assert(g.error is None);
        assert(g.stage == if n + 1 < c.len() {
            c[n + 1]
        } else {
            PublishStage::Finished
        });
        lemma_passes(c, passed, f.stage, g.stage, PublishStage::Finished);
    }
}

proof fn lemma_publish_run(
    g: GenerationView,
    previous: Option<RecordView>,
    bound: bool,
    events: Seq<PublishEventView>,
)
    ensures
        ({
            let begun = publish_begun(g, previous, bound);
            let f = publish_run(begun, events);
            &&& publish_kept(
                f,
                publish_passed(begun, events),
                previous is Some,
                bound,
                previous is Some && previous->0.previous is Some,
            )
            &&& publish_undisturbed(events) ==> f.error is None
        }),
    decreases events.len(),
{
    let begun = publish_begun(g, previous, bound);
    let stale = previous is Some && previous->0.previous is Some;
    if events.len() > 0 {
        let before = events.drop_last();
        lemma_publish_run(g, previous, bound, before);
        lemma_publish_kept(
            publish_run(begun, before),
            publish_passed(begun, before),
            events.last(),
            previous is Some,
            bound,
            stale,
        );
        if publish_undisturbed(events) {
            assert forall|i: int| 0 <= i < before.len() implies !((#[trigger] before[i]) is Failed)
                && (before[i] is Plan ==> before[i] == PublishEventView::Plan(None)) by {
                assert(before[i] == events[i]);
            }
        }
    } else {
        assert(publish_passed(begun, events) =~= publish_course(
            previous is Some,
            bound,
            stale,
        ).subrange(0, 0));
    }
}

/// An execution goes through the stages of its course one behind the other: as
/// long as nothing failed it has passed a beginning of the course, each stage with
/// success, and is at the stage behind it. So one that ends without a failure has
/// passed all of them, in their order, and nothing else. Where nothing fails, it
/// never comes to a failure.
pub proof fn law_execution_follows_its_course(
    g: GenerationView,
    previous: Option<RecordView>,
    bound: bool,
    events: Seq<PublishEventView>,
)
    ensures
        ({
            let begun = publish_begun(g, previous, bound);
            let f = publish_run(begun, events);
            let course = publish_course(
                previous is Some,
                bound,
                previous is Some && previous->0.previous is Some,
            );
            let passed = publish_passed(begun, events);
            &&& f.error is None ==> on_course(course, passed, f.stage, PublishStage::Finished)
            &&& f.error is None && f.stage == PublishStage::Finished ==> passed == course
            &&& publish_undisturbed(events) ==> f.error is None
        }),
{
    let begun = publish_begun(g, previous, bound);
    let course = publish_course(
        previous is Some,
        bound,
        previous is Some && previous->0.previous is Some,
    );
    lemma_publish_run(g, previous, bound, events);
    let f = publish_run(begun, events);
    if f.error is None && f.stage == PublishStage::Finished {
        lemma_passed(course, publish_passed(begun, events), PublishStage::Finished);
    }
}

/// Whether the generation is allowed to start: the permission was given and not
/// withdrawn since.
pub open spec fn publish_leased(f: PublishFlowView, events: Seq<PublishEventView>) -> bool
    decreases events.len(),
{
    if events.len() == 0 {
        false
    } else {
        let stage = publish_run(f, events.drop_last()).stage;
        if succeeds(stage, events.last()) && stage == PublishStage::AcquireLease {
            true
        } else if succeeds(stage, events.last()) && stage == PublishStage::ReleaseLease {
            false
        } else {
            publish_leased(f, events.drop_last())
        }
    }
}

/// Whether the supervisor was started and not stopped since.
pub open spec fn publish_supervised(f: PublishFlowView, events: Seq<PublishEventView>) -> bool
    decreases events.len(),
{
    if events.len() == 0 {
        false
    } else {
        let stage = publish_run(f, events.drop_last()).stage;
        if succeeds(stage, events.last()) && stage == PublishStage::StartResolver {
            true
        } else if succeeds(stage, events.last()) && stage == PublishStage::QuiesceResolver {
            false
        } else {
            publish_supervised(f, events.drop_last())
        }
    }
}

/// However an execution goes, the permission to start is withdrawn before it is
/// over and before anything is rolled back, and a supervisor that was started is
/// stopped before a generation that was not accepted is rolled back.
pub proof fn law_failed_executions_stop_what_they_started(
    g: GenerationView,
    previous: Option<RecordView>,
    bound: bool,
    events: Seq<PublishEventView>,
)
    ensures
        ({
            let begun = publish_begun(g, previous, bound);
            let f = publish_run(begun, events);
            let leased = publish_leased(begun, events);
            let supervised = publish_supervised(begun, events);
            &&& f.stage == PublishStage::Finished || f.stage == PublishStage::RollBack || f.stage
                == PublishStage::RetainAfterFailure ==> !leased
            &&& leased <==> f.stage == PublishStage::StartDaemon || f.stage
                == PublishStage::WaitForDaemon || f.stage == PublishStage::ReleaseResolver || f.stage
                == PublishStage::RequireActivation || f.stage == PublishStage::ReadPlan || f.stage
                == PublishStage::StartResolver || f.stage == PublishStage::WaitForHealth || f.stage
                == PublishStage::RequireActivationAgain || f.stage == PublishStage::RequireSettled
                || f.stage == PublishStage::QuiesceResolver || f.stage == PublishStage::SavePruning
                || f.stage == PublishStage::RemoveStale || f.stage == PublishStage::SaveActive
                || f.stage == PublishStage::ReleaseLease
            &&& f.error is Some && f.record.phase == InstallPhase::Published && supervised
                ==> f.stage == PublishStage::QuiesceResolver
            &&& f.stage == PublishStage::WaitForHealth || f.stage
                == PublishStage::RequireActivationAgain || f.stage == PublishStage::RequireSettled
                ==> supervised
            &&& journal_phase(f.stage) == Some(InstallPhase::Published) && supervised ==> f.stage
                == PublishStage::WaitForHealth || f.stage == PublishStage::RequireActivationAgain
                || f.stage == PublishStage::RequireSettled
            &&& journal_phase(f.stage) == Some(InstallPhase::Staging) || journal_phase(f.stage)
                == Some(InstallPhase::Staged) ==> !supervised
        }),
    decreases events.len(),
{
    lemma_execution_valid(g, previous, bound, events);
    if events.len() > 0 {
        law_failed_executions_stop_what_they_started(g, previous, bound, events.drop_last());
        lemma_execution_valid(g, previous, bound, events.drop_last());
    }
}

/// No failure is lost: what failed is what is reported, until the rollback itself
/// fails; an update's listeners are held on to before it is rolled back; and a
/// rollback is the last thing that is done.
pub proof fn law_failures_are_reported(f: PublishFlowView, x: FaultView, e: PublishEventView)
    requires
        execution_valid(f),
    ensures
        ({
            let g = publish_step(f, PublishEventView::Failed(x));
            &&& journal_phase(f.stage) is Some ==> g.error is Some && (f.stage
                != PublishStage::RequireSettled ==> g.error == Some(x))
            &&& f.stage == PublishStage::RequireSettled ==> g.error == Some(
                conflict_of("the resolver supervisor exited before acceptance"@),
            )
            &&& f.stage == PublishStage::RollBack ==> g.error == Some(x) && g.stage
                == PublishStage::Finished
        }),
        f.error is Some ==> publish_step(f, e).error is Some,
        f.error is Some && e is Done ==> publish_step(f, e).error == f.error,
        f.stage == PublishStage::ReleaseLease && f.error is Some && e is Done && f.record.phase
            != InstallPhase::Pruning ==> publish_step(f, e).stage == if f.record.previous is Some {
            PublishStage::RetainAfterFailure
        } else {
            PublishStage::RollBack
        },
        f.stage == PublishStage::RetainAfterFailure && (e is Done || e is Failed)
            ==> publish_step(f, e).stage == PublishStage::RollBack,
        f.stage == PublishStage::RollBack && (e is Done || e is Failed) ==> publish_step(f, e).stage
            == PublishStage::Finished,
        f.stage == PublishStage::Finished ==> publish_step(f, e) == f,
{
}

/// The record takes the identities that the directories were given, where they are
/// published and nowhere else.
pub proof fn law_directories_are_recorded(f: PublishFlowView, e: PublishEventView)
    ensures
        publish_step(f, e).record.current.public_directories == match e {
            PublishEventView::Directories(d) => if f.stage == PublishStage::PublishDirectories {
                d
            } else {
                f.record.current.public_directories
            },
            _ => f.record.current.public_directories,
        },
{
}

} // verus!
