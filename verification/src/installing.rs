//! The way from a request for an installation or an update to its approved
//! execution: two plans, one before and one behind the locks, and what is put
//! back where they disagree.

use vstd::prelude::*;
use vstd::string::*;

use crate::course::{lemma_passed, lemma_passes, on_course, only_if};
use crate::digest::token_authorizes;
use crate::fault::{conflict, conflict_of, fault, Fault, FaultKind, FaultView};
use crate::model::{option_record, InstallPhase, InstallRecord, RecordView};
use crate::plan::{same_plan_authority, token_refused_of, PlanView, PreparedPlan};
use crate::publications::option_fault;
use crate::snapshot::SnapshotNormalization;

verus! {

/// What is to be done next.
#[derive(Debug, Clone, Copy, PartialEq, Eq, Structural)]
pub enum InstallStage {
    /// Prepare the plan without any lock.
    PrepareFirst,
    /// Connect to the service manager.
    ConnectManager,
    /// Take the lifecycle lock and open the state directory.
    OpenStore,
    /// Read the record.
    LoadRecord,
    /// Prepare the plan again: it should do nothing.
    PrepareNoOp,
    /// Stop the supervisor of the installed generation.
    StopResolver,
    /// Take the resolver's authority.
    AcquireResolver,
    /// Prepare the plan again behind the locks.
    PrepareSecond,
    /// Bring the installed generation back to health.
    RestartPrevious,
    /// Remove the record from a state directory that this run made.
    RemoveRecord,
    /// Remove the state directory that this run made.
    CleanState,
    /// Execute the approved plan.
    Execute,
    /// Nothing: the run is over.
    Finished,
}

/// What came of what was to be done.
#[derive(Debug)]
pub enum InstallEvent {
    Done,
    Failed(Fault),
    Plan(PreparedPlan),
    /// The state directory is open; whether this run made it.
    Opened(bool),
    Record(Option<InstallRecord>),
}

/// An event over plain values.
pub enum InstallEventView {
    Done,
    Failed(FaultView),
    Plan(PlanView),
    Opened(bool),
    Record(Option<RecordView>),
}

impl View for InstallEvent {
    type V = InstallEventView;

    open spec fn view(&self) -> InstallEventView {
        match self {
            InstallEvent::Done => InstallEventView::Done,
            InstallEvent::Failed(e) => InstallEventView::Failed(e@),
            InstallEvent::Plan(p) => InstallEventView::Plan(p@),
            InstallEvent::Opened(created) => InstallEventView::Opened(*created),
            InstallEvent::Record(r) => InstallEventView::Record(option_record(*r)),
        }
    }
}

pub open spec fn option_plan(p: Option<PreparedPlan>) -> Option<PlanView> {
    match p {
        Some(p) => Some(p@),
        None => None,
    }
}

/// How far an installation or an update has come.
#[derive(Debug)]
pub struct InstallFlow {
    pub stage: InstallStage,
    pub approval_token: String,
    pub first: Option<PreparedPlan>,
    pub second: Option<PreparedPlan>,
    pub previous: Option<InstallRecord>,
    pub created_state: bool,
    /// Whether a state directory that this run made goes again.
    pub clean: bool,
    pub error: Option<Fault>,
}

/// A run over plain values.
pub struct InstallFlowView {
    pub stage: InstallStage,
    pub approval_token: Seq<char>,
    pub first: Option<PlanView>,
    pub second: Option<PlanView>,
    pub previous: Option<RecordView>,
    pub created_state: bool,
    pub clean: bool,
    pub error: Option<FaultView>,
}

impl View for InstallFlow {
    type V = InstallFlowView;

    open spec fn view(&self) -> InstallFlowView {
        InstallFlowView {
            stage: self.stage,
            approval_token: self.approval_token@,
            first: option_plan(self.first),
            second: option_plan(self.second),
            previous: option_record(self.previous),
            created_state: self.created_state,
            clean: self.clean,
            error: option_fault(self.error),
        }
    }
}

/// A run that is over with a failure.
pub open spec fn ended(f: InstallFlowView, e: FaultView) -> InstallFlowView {
    InstallFlowView { stage: InstallStage::Finished, error: Some(e), ..f }
}

/// Whether the supervisor of an installed generation was stopped.
pub open spec fn was_quiesced(f: InstallFlowView) -> bool {
    f.previous is Some
}

/// Whether there is a running generation to bring back.
pub open spec fn has_restart(f: InstallFlowView) -> bool {
    f.previous is Some && f.previous->0.phase == InstallPhase::Active
}

/// What a failed run does once the installed generation runs again.
pub open spec fn after_restart(f: InstallFlowView) -> InstallFlowView {
    InstallFlowView {
        stage: if f.clean {
            InstallStage::RemoveRecord
        } else {
            InstallStage::Finished
        },
        ..f
    }
}

/// A run that is given up: the installed generation is brought back first.
pub open spec fn given_up(f: InstallFlowView, e: FaultView, clean: bool) -> InstallFlowView {
    let g = InstallFlowView { error: Some(e), clean, ..f };
    if has_restart(f) {
        InstallFlowView { stage: InstallStage::RestartPrevious, ..g }
    } else {
        after_restart(g)
    }
}

/// What follows the second plan.
pub open spec fn with_second(f: InstallFlowView, p: PlanView) -> InstallFlowView {
    if !token_authorizes(p.approval_token, f.approval_token) {
        given_up(f, token_refused_of(), f.created_state)
    } else if !(f.first is Some && same_plan_authority(f.first->0, p)) {
        given_up(
            f,
            conflict_of("the Linux lifecycle plan changed while acquiring its lock"@),
            f.created_state,
        )
    } else if !p.draft.has_effects {
        given_up(
            f,
            conflict_of("an effectful Linux plan became a no-op after resolver quiescence"@),
            false,
        )
    } else {
        InstallFlowView { stage: InstallStage::Execute, second: Some(p), ..f }
    }
}

/// What follows the second plan of a run that should do nothing.
pub open spec fn with_no_op(f: InstallFlowView, p: PlanView) -> InstallFlowView {
    if !token_authorizes(p.approval_token, f.approval_token) {
        ended(f, token_refused_of())
    } else if !(f.first is Some && same_plan_authority(f.first->0, p)) || p.draft.has_effects {
        ended(f, conflict_of("the Linux no-op plan changed while acquiring its lock"@))
    } else {
        InstallFlowView { stage: InstallStage::Finished, ..f }
    }
}

/// Where a run goes from an event. An event that does not belong to the stage
/// changes nothing.
pub open spec fn install_step(f: InstallFlowView, e: InstallEventView) -> InstallFlowView {
    match f.stage {
        InstallStage::PrepareFirst => match e {
            InstallEventView::Failed(x) => ended(f, x),
            InstallEventView::Plan(p) => if token_authorizes(p.approval_token, f.approval_token) {
                InstallFlowView { stage: InstallStage::ConnectManager, first: Some(p), ..f }
            } else {
                ended(f, token_refused_of())
            },
            _ => f,
        },
        InstallStage::ConnectManager => match e {
            InstallEventView::Failed(x) => ended(f, x),
            InstallEventView::Done => InstallFlowView { stage: InstallStage::OpenStore, ..f },
            _ => f,
        },
        InstallStage::OpenStore => match e {
            InstallEventView::Failed(x) => ended(f, x),
            InstallEventView::Opened(created) => InstallFlowView {
                stage: InstallStage::LoadRecord,
                created_state: created,
                ..f
            },
            _ => f,
        },
        InstallStage::LoadRecord => match e {
            InstallEventView::Failed(x) => ended(f, x),
            InstallEventView::Record(r) => InstallFlowView {
                stage: if f.first is Some && !f.first->0.draft.has_effects {
                    InstallStage::PrepareNoOp
                } else if r is Some {
                    InstallStage::StopResolver
                } else {
                    InstallStage::AcquireResolver
                },
                previous: r,
                ..f
            },
            _ => f,
        },
        InstallStage::PrepareNoOp => match e {
            InstallEventView::Failed(x) => ended(f, x),
            InstallEventView::Plan(p) => with_no_op(f, p),
            _ => f,
        },
        InstallStage::StopResolver => match e {
            InstallEventView::Failed(x) => ended(f, x),
            InstallEventView::Done => InstallFlowView { stage: InstallStage::AcquireResolver, ..f },
            _ => f,
        },
        InstallStage::AcquireResolver => match e {
            InstallEventView::Failed(x) => given_up(f, x, false),
            InstallEventView::Done => InstallFlowView { stage: InstallStage::PrepareSecond, ..f },
            _ => f,
        },
        InstallStage::PrepareSecond => match e {
            InstallEventView::Failed(x) => if f.created_state {
                InstallFlowView { stage: InstallStage::RemoveRecord, error: Some(x), ..f }
            } else {
                given_up(f, x, false)
            },
            InstallEventView::Plan(p) => with_second(f, p),
            _ => f,
        },
        InstallStage::RestartPrevious => match e {
            InstallEventView::Failed(x) => ended(f, x),
            InstallEventView::Done => after_restart(f),
            _ => f,
        },
        InstallStage::RemoveRecord => match e {
            InstallEventView::Failed(x) => ended(f, x),
            InstallEventView::Done => InstallFlowView { stage: InstallStage::CleanState, ..f },
            _ => f,
        },
        InstallStage::CleanState => match e {
            InstallEventView::Failed(x) => ended(f, x),
            InstallEventView::Done => InstallFlowView { stage: InstallStage::Finished, ..f },
            _ => f,
        },
        InstallStage::Execute => match e {
            InstallEventView::Failed(x) => ended(f, x),
            InstallEventView::Done => InstallFlowView { stage: InstallStage::Finished, ..f },
            _ => f,
        },
        InstallStage::Finished => f,
    }
}

/// A run that has just begun.
pub open spec fn install_begun(effective_uid: u32, approval_token: Seq<char>) -> InstallFlowView {
    InstallFlowView {
        stage: if effective_uid == 0 {
            InstallStage::PrepareFirst
        } else {
            InstallStage::Finished
        },
        approval_token,
        first: None,
        second: None,
        previous: None,
        created_state: false,
        clean: false,
        error: if effective_uid == 0 {
            None
        } else {
            Some(
                FaultView {
                    kind: FaultKind::PermissionDenied,
                    message: "the Linux installer requires root"@,
                },
            )
        },
    }
}

/// What a locked preparation has to look past: the state directory that this run made,
/// and behind the stop of the supervisor that.
pub open spec fn install_normalization(f: InstallFlowView) -> SnapshotNormalization {
    SnapshotNormalization {
        fresh_state_created: f.created_state,
        resolver_quiesced: f.stage == InstallStage::PrepareSecond && was_quiesced(f),
    }
}

impl InstallFlow {
    /// Begins a run.
    pub fn begin(effective_uid: u32, approval_token: String) -> (r: InstallFlow)
        ensures
            r@ == install_begun(effective_uid, approval_token@),
    {
        let root = effective_uid == 0;
        InstallFlow {
            stage: if root {
                InstallStage::PrepareFirst
            } else {
                InstallStage::Finished
            },
            approval_token,
            first: None,
            second: None,
            previous: None,
            created_state: false,
            clean: false,
            error: if root {
                None
            } else {
                Some(fault(FaultKind::PermissionDenied, "the Linux installer requires root"))
            },
        }
    }

    /// What a locked preparation has to look past.
    pub fn normalization(&self) -> (r: SnapshotNormalization)
        ensures
            r == install_normalization(self@),
    {
        let quiesced = match self.previous {
            Some(_) => true,
            None => false,
        };
        SnapshotNormalization {
            fresh_state_created: self.created_state,
            resolver_quiesced: self.stage == InstallStage::PrepareSecond && quiesced,
        }
    }

    fn end(self, e: Fault) -> (r: InstallFlow)
        ensures
            r@ == ended(self@, e@),
    {
        InstallFlow { stage: InstallStage::Finished, error: Some(e), ..self }
    }

    fn go(self, stage: InstallStage) -> (r: InstallFlow)
        ensures
            r@ == (InstallFlowView { stage, ..self@ }),
    {
        InstallFlow { stage, ..self }
    }

    fn settle(self) -> (r: InstallFlow)
        ensures
            r@ == after_restart(self@),
    {
        let stage = if self.clean {
            InstallStage::RemoveRecord
        } else {
            InstallStage::Finished
        };
        InstallFlow { stage, ..self }
    }

    fn give_up(self, e: Fault, clean: bool) -> (r: InstallFlow)
        ensures
            r@ == given_up(self@, e@, clean),
    {
        let restart = match &self.previous {
            Some(record) => record.phase == InstallPhase::Active,
            None => false,
        };
        let f = InstallFlow { error: Some(e), clean, ..self };
        if restart {
            f.go(InstallStage::RestartPrevious)
        } else {
            f.settle()
        }
    }

    fn take_second(self, p: PreparedPlan) -> (r: InstallFlow)
        ensures
            r@ == with_second(self@, p@),
    {
        let created = self.created_state;
        if let Err(e) = p.require_token(self.approval_token.as_str()) {
            return self.give_up(e, created);
        }
        let unchanged = match &self.first {
            Some(first) => first.same_authority(&p),
            None => false,
        };
        if !unchanged {
            return self.give_up(
                conflict("the Linux lifecycle plan changed while acquiring its lock"),
                created,
            );
        }
        if !p.has_effects() {
            return self.give_up(
                conflict("an effectful Linux plan became a no-op after resolver quiescence"),
                false,
            );
        }
        InstallFlow { stage: InstallStage::Execute, second: Some(p), ..self }
    }

    fn take_no_op(self, p: PreparedPlan) -> (r: InstallFlow)
        ensures
            r@ == with_no_op(self@, p@),
    {
        if let Err(e) = p.require_token(self.approval_token.as_str()) {
            return self.end(e);
        }
        let unchanged = match &self.first {
            Some(first) => first.same_authority(&p),
            None => false,
        };
        if !unchanged || p.has_effects() {
            return self.end(conflict("the Linux no-op plan changed while acquiring its lock"));
        }
        self.go(InstallStage::Finished)
    }

    fn take_first(self, p: PreparedPlan) -> (r: InstallFlow)
        requires
            self@.stage == InstallStage::PrepareFirst,
        ensures
            r@ == install_step(self@, InstallEventView::Plan(p@)),
    {
        if let Err(e) = p.require_token(self.approval_token.as_str()) {
            return self.end(e);
        }
        InstallFlow { stage: InstallStage::ConnectManager, first: Some(p), ..self }
    }

    fn take_record(self, record: Option<InstallRecord>) -> (r: InstallFlow)
        requires
            self@.stage == InstallStage::LoadRecord,
        ensures
            r@ == install_step(self@, InstallEventView::Record(option_record(record))),
    {
        let effectful = match &self.first {
            Some(first) => first.has_effects(),
            None => true,
        };
        let stage = if !effectful {
            InstallStage::PrepareNoOp
        } else {
            match &record {
                Some(_) => InstallStage::StopResolver,
                None => InstallStage::AcquireResolver,
            }
        };
        InstallFlow { stage, previous: record, ..self }
    }

    /// Goes on from what came of the last action.
    pub fn step(self, event: InstallEvent) -> (r: InstallFlow)
        ensures
            r@ == install_step(self@, event@),
    {
        match (self.stage, event) {
            (InstallStage::Finished, _) => self,
            (InstallStage::AcquireResolver, InstallEvent::Failed(e)) => self.give_up(e, false),
            (InstallStage::PrepareSecond, InstallEvent::Failed(e)) => if self.created_state {
                InstallFlow { stage: InstallStage::RemoveRecord, error: Some(e), ..self }
            } else {
                self.give_up(e, false)
            },
            (_, InstallEvent::Failed(e)) => self.end(e),
            (InstallStage::PrepareFirst, InstallEvent::Plan(p)) => self.take_first(p),
            (InstallStage::PrepareNoOp, InstallEvent::Plan(p)) => self.take_no_op(p),
            (InstallStage::PrepareSecond, InstallEvent::Plan(p)) => self.take_second(p),
            (InstallStage::OpenStore, InstallEvent::Opened(created)) => InstallFlow {
                stage: InstallStage::LoadRecord,
                created_state: created,
                ..self
            },
            (InstallStage::LoadRecord, InstallEvent::Record(record)) => self.take_record(record),
            (InstallStage::ConnectManager, InstallEvent::Done) => self.go(InstallStage::OpenStore),
            (InstallStage::StopResolver, InstallEvent::Done) => self.go(
                InstallStage::AcquireResolver,
            ),
            (InstallStage::AcquireResolver, InstallEvent::Done) => self.go(
                InstallStage::PrepareSecond,
            ),
            (InstallStage::RestartPrevious, InstallEvent::Done) => self.settle(),
            (InstallStage::RemoveRecord, InstallEvent::Done) => self.go(InstallStage::CleanState),
            (InstallStage::CleanState, InstallEvent::Done) => self.go(InstallStage::Finished),
            (InstallStage::Execute, InstallEvent::Done) => self.go(InstallStage::Finished),
            _ => self,
        }
    }
}

// ---------------------------------------------------------------------------
// Laws
// ---------------------------------------------------------------------------

/// Where a run comes to after some events.
pub open spec fn install_run(f: InstallFlowView, events: Seq<InstallEventView>) -> InstallFlowView
    decreases events.len(),
{
    if events.len() == 0 {
        f
    } else {
        install_step(install_run(f, events.drop_last()), events.last())
    }
}

/// What every run keeps: a plan that was taken up is authorized by the token,
/// and behind the locks both plans are, and rest on the same authority.
pub open spec fn approvals_held(f: InstallFlowView) -> bool {
    &&& f.first is Some ==> token_authorizes(f.first->0.approval_token, f.approval_token)
    &&& f.second is Some ==> {
        &&& f.first is Some
        &&& token_authorizes(f.second->0.approval_token, f.approval_token)
        &&& same_plan_authority(f.first->0, f.second->0)
        &&& f.second->0.draft.has_effects
        &&& f.stage == InstallStage::Execute || f.stage == InstallStage::Finished
    }
    &&& f.stage == InstallStage::Execute ==> f.second is Some
    &&& f.first is None ==> f.stage == InstallStage::PrepareFirst || f.stage
        == InstallStage::Finished
    &&& f.stage == InstallStage::PrepareFirst ==> f.first is None
}

/// Whatever happens, a plan is executed only where the token authorizes it as
/// it was before and as it is behind the locks, and both are the same.
pub proof fn law_execution_is_approved_twice(
    effective_uid: u32,
    approval_token: Seq<char>,
    events: Seq<InstallEventView>,
)
    ensures
        approvals_held(install_run(install_begun(effective_uid, approval_token), events)),
        install_run(install_begun(effective_uid, approval_token), events).approval_token
            == approval_token,
    decreases events.len(),
{
    if events.len() > 0 {
        law_execution_is_approved_twice(effective_uid, approval_token, events.drop_last());
    }
}

/// Without root nothing is ever done.
pub proof fn law_only_root_installs(
    effective_uid: u32,
    approval_token: Seq<char>,
    events: Seq<InstallEventView>,
)
    requires
        effective_uid != 0,
    ensures
        install_run(install_begun(effective_uid, approval_token), events) == install_begun(
            effective_uid,
            approval_token,
        ),
    decreases events.len(),
{
    if events.len() > 0 {
        law_only_root_installs(effective_uid, approval_token, events.drop_last());
    }
}

/// Once the supervisor of an active installation was stopped, no failure is
/// reported before the installation was brought back to health: the run ends
/// from there, or from the execution itself. The one input left out is a state
/// directory that this run made, which no installed record can come from.
pub proof fn law_stopped_installations_are_brought_back(
    f: InstallFlowView,
    e: InstallEventView,
)
    requires
        has_restart(f),
        !f.created_state,
        f.stage == InstallStage::AcquireResolver || f.stage == InstallStage::PrepareSecond,
    ensures
        install_step(f, e).stage != InstallStage::Finished,
        install_step(f, e).error is Some && f.error is None ==> install_step(f, e).stage
            == InstallStage::RestartPrevious,
{
}

/// A run that ends without a failure either executed its plan or had a plan
/// without effects.
pub proof fn law_success_is_execution_or_nothing(f: InstallFlowView, e: InstallEventView)
    requires
        f.stage != InstallStage::Finished,
        f.error is None,
        install_step(f, e).stage == InstallStage::Finished,
        install_step(f, e).error is None,
        f.stage != InstallStage::CleanState,
        f.stage != InstallStage::RestartPrevious,
    ensures
        f.stage == InstallStage::Execute || f.stage == InstallStage::PrepareNoOp,
{
}

/// Whether an event is the success of what a stage is to do.
pub open spec fn succeeds(stage: InstallStage, e: InstallEventView) -> bool {
    match stage {
        InstallStage::PrepareFirst | InstallStage::PrepareNoOp
        | InstallStage::PrepareSecond => e is Plan,
        InstallStage::OpenStore => e is Opened,
        InstallStage::LoadRecord => e is Record,
        InstallStage::Finished => false,
        _ => e is Done,
    }
}

/// The stages that a run has passed, in their order.
pub open spec fn install_passed(f: InstallFlowView, events: Seq<InstallEventView>) -> Seq<
    InstallStage,
>
    decreases events.len(),
{
    if events.len() == 0 {
        Seq::empty()
    } else {
        let before = install_passed(f, events.drop_last());
        let stage = install_run(f, events.drop_last()).stage;
        if succeeds(stage, events.last()) {
            before.push(stage)
        } else {
            before
        }
    }
}

/// What a run goes through where nothing fails: whether its plan has effects, and
/// whether something is installed.
pub open spec fn install_course(effectful: bool, installed: bool) -> Seq<InstallStage> {
    seq![
        InstallStage::PrepareFirst,
        InstallStage::ConnectManager,
        InstallStage::OpenStore,
        InstallStage::LoadRecord,
    ] + if !effectful {
        seq![InstallStage::PrepareNoOp]
    } else {
        only_if(installed, seq![InstallStage::StopResolver]) + seq![
            InstallStage::AcquireResolver,
            InstallStage::PrepareSecond,
            InstallStage::Execute,
        ]
    }
}

/// Whether what is found out at a stage is as in a case.
pub open spec fn install_fits(
    f: InstallFlowView,
    e: InstallEventView,
    effectful: bool,
    installed: bool,
) -> bool {
    match e {
        InstallEventView::Plan(p) => f.stage == InstallStage::PrepareFirst ==> effectful
            == p.draft.has_effects,
        InstallEventView::Record(r) => f.stage == InstallStage::LoadRecord ==> installed
            == (r is Some),
        _ => true,
    }
}

/// Whether what is found out in a run is as in a case.
pub open spec fn install_is_case(
    f: InstallFlowView,
    events: Seq<InstallEventView>,
    effectful: bool,
    installed: bool,
) -> bool
    decreases events.len(),
{
    if events.len() == 0 {
        true
    } else {
        &&& install_is_case(f, events.drop_last(), effectful, installed)
        &&& install_fits(install_run(f, events.drop_last()), events.last(), effectful, installed)
    }
}

/// Whether an event is no failure and no plan that is refused: plans that the token
/// authorizes, the second of the first one's authority, and with effects where that
/// has some.
pub open spec fn install_agreeable(f: InstallFlowView, e: InstallEventView) -> bool {
    match e {
        InstallEventView::Failed(_) => false,
        InstallEventView::Plan(p) => {
            &&& token_authorizes(p.approval_token, f.approval_token)
            &&& f.stage != InstallStage::PrepareFirst ==> f.first is Some && same_plan_authority(
                f.first->0,
                p,
            ) && p.draft.has_effects == f.first->0.draft.has_effects
        },
        _ => true,
    }
}

/// Whether all events are agreeable where they come.
pub open spec fn install_undisturbed(f: InstallFlowView, events: Seq<InstallEventView>) -> bool
    decreases events.len(),
{
    if events.len() == 0 {
        true
    } else {
        &&& install_undisturbed(f, events.drop_last())
        &&& install_agreeable(install_run(f, events.drop_last()), events.last())
    }
}

#[verifier::spinoff_prover]
#[verifier::rlimit(60)]
proof fn lemma_install_run(
    approval_token: Seq<char>,
    events: Seq<InstallEventView>,
    effectful: bool,
    installed: bool,
)
    requires
        install_is_case(install_begun(0, approval_token), events, effectful, installed),
    ensures
        ({
            let begun = install_begun(0, approval_token);
            let f = install_run(begun, events);
            &&& f.error is None ==> {
                &&& on_course(
                    install_course(effectful, installed),
                    install_passed(begun, events),
                    f.stage,
                    InstallStage::Finished,
                )
                &&& f.stage != InstallStage::PrepareFirst ==> f.first is Some
                    && f.first->0.draft.has_effects == effectful
            }
            &&& install_undisturbed(begun, events) ==> f.error is None
        }),
    decreases events.len(),
{
    let begun = install_begun(0, approval_token);
    let course = install_course(effectful, installed);
    if events.len() == 0 {
        assert(install_passed(begun, events) =~= course.subrange(0, 0));
    } else {
        let before = events.drop_last();
        lemma_install_run(approval_token, before, effectful, installed);
        let g = install_run(begun, before);
        let h = install_run(begun, events);
        let passed = install_passed(begun, before);
        if h.error is None && succeeds(g.stage, events.last()) {
            assert(g.error is None);
            assert(passed.len() < course.len());
            lemma_passes(course, passed, g.stage, h.stage, InstallStage::Finished);
        }
    }
}

/// A run by root goes through the stages of its course one behind the other. So one
/// that ends without a failure has passed all of them, in their order, and nothing
/// else: a plan with effects was executed, behind the stop of what is installed and
/// the second preparation, and one without was held to that. Where nothing fails and
/// no plan is refused, it never comes to a failure.
pub proof fn law_installation_follows_its_course(
    approval_token: Seq<char>,
    events: Seq<InstallEventView>,
    effectful: bool,
    installed: bool,
)
    requires
        install_is_case(install_begun(0, approval_token), events, effectful, installed),
    ensures
        ({
            let begun = install_begun(0, approval_token);
            let f = install_run(begun, events);
            let course = install_course(effectful, installed);
            let passed = install_passed(begun, events);
            &&& f.error is None ==> on_course(course, passed, f.stage, InstallStage::Finished)
            &&& f.error is None && f.stage == InstallStage::Finished ==> passed == course
            &&& install_undisturbed(begun, events) ==> f.error is None
        }),
{
    lemma_install_run(approval_token, events, effectful, installed);
    let begun = install_begun(0, approval_token);
    let course = install_course(effectful, installed);
    let f = install_run(begun, events);
    if f.error is None && f.stage == InstallStage::Finished {
        assert(!course.contains(InstallStage::Finished));
        lemma_passed(course, install_passed(begun, events), InstallStage::Finished);
    }
}

/// A run remembers what it saw: whether it made the state directory, and the record
/// that was installed; nothing else changes that.
pub proof fn law_installation_remembers_what_it_saw(f: InstallFlowView, e: InstallEventView)
    ensures
        install_step(f, e).created_state == match e {
            InstallEventView::Opened(b) => if f.stage == InstallStage::OpenStore {
                b
            } else {
                f.created_state
            },
            _ => f.created_state,
        },
        install_step(f, e).previous == match e {
            InstallEventView::Record(r) => if f.stage == InstallStage::LoadRecord {
                r
            } else {
                f.previous
            },
            _ => f.previous,
        },
        install_step(f, e).second != f.second ==> e is Plan && install_step(f, e).second == Some(
            e->Plan_0,
        ) && f.stage == InstallStage::PrepareSecond,
        install_step(f, e).first != f.first ==> e is Plan && install_step(f, e).first == Some(
            e->Plan_0,
        ) && f.stage == InstallStage::PrepareFirst,
{
}

/// What stops a run is what is reported, and a state directory that this run made
/// goes again where the second plan could not be made or was refused: the record
/// first, then the directory.
pub proof fn law_refused_installations_leave_no_state(
    f: InstallFlowView,
    e: InstallEventView,
)
    requires
        f.error is None,
        f.stage == InstallStage::PrepareSecond,
        f.created_state,
        f.previous is None,
        e is Failed || (e is Plan && !(token_authorizes(
            e->Plan_0.approval_token,
            f.approval_token,
        ) && f.first is Some && same_plan_authority(f.first->0, e->Plan_0))),
    ensures
        ({
            let g = install_step(f, e);
            let removed = install_step(g, InstallEventView::Done);
            let cleaned = install_step(removed, InstallEventView::Done);
            &&& g.error is Some
            &&& e is Failed ==> g.error == Some(e->Failed_0)
            &&& g.stage == InstallStage::RemoveRecord
            &&& removed.stage == InstallStage::CleanState && removed.error == g.error
            &&& cleaned.stage == InstallStage::Finished && cleaned.error == g.error
        }),
{
}

/// A failure is reported as it is, and a run that failed stays failed.
pub proof fn law_installation_failures_are_reported(
    f: InstallFlowView,
    x: FaultView,
    e: InstallEventView,
)
    ensures
        f.stage != InstallStage::Finished ==> install_step(f, InstallEventView::Failed(x)).error
            == Some(x),
        f.error is Some ==> install_step(f, e).error is Some,
        f.stage == InstallStage::Finished ==> install_step(f, e) == f,
        f.stage == InstallStage::Execute ==> install_step(f, InstallEventView::Failed(x)).stage
            == InstallStage::Finished,
{
}

/// A locked preparation looks past what this run changed and nothing else: past the
/// stop of the supervisor exactly where this run has stopped it, and past a state
/// directory exactly where this run made it.
pub proof fn law_installation_looks_past_its_own_changes(
    approval_token: Seq<char>,
    events: Seq<InstallEventView>,
)
    ensures
        ({
            let begun = install_begun(0, approval_token);
            let f = install_run(begun, events);
            let stopped = install_passed(begun, events).contains(InstallStage::StopResolver);
            &&& f.stage == InstallStage::PrepareSecond ==> install_normalization(
                f,
            ).resolver_quiesced == stopped
            &&& f.stage == InstallStage::PrepareNoOp ==> !install_normalization(
                f,
            ).resolver_quiesced && !stopped
            &&& install_normalization(f).fresh_state_created ==> events.contains(
                InstallEventView::Opened(true),
            )
            &&& f.stage == InstallStage::PrepareFirst || f.stage == InstallStage::ConnectManager
                || f.stage == InstallStage::OpenStore || f.stage == InstallStage::LoadRecord
                || f.stage == InstallStage::StopResolver ==> !stopped
            &&& f.stage == InstallStage::StopResolver ==> f.previous is Some
            &&& f.stage == InstallStage::AcquireResolver ==> stopped == (f.previous is Some)
        }),
    decreases events.len(),
{
    let begun = install_begun(0, approval_token);
    if events.len() > 0 {
        let before = events.drop_last();
        law_installation_looks_past_its_own_changes(approval_token, before);
        let g = install_run(begun, before);
        let f = install_run(begun, events);
        let was = install_passed(begun, before);
        let passed = install_passed(begun, events);
        if succeeds(g.stage, events.last()) {
            assert(passed[passed.len() - 1] == g.stage);
            if was.contains(InstallStage::StopResolver) {
                let i = choose|i: int| 0 <= i < was.len() && was[i] == InstallStage::StopResolver;
                assert(passed[i] == InstallStage::StopResolver);
            }
            if passed.contains(InstallStage::StopResolver) && g.stage
                != InstallStage::StopResolver {
                let i = choose|i: int|
                    0 <= i < passed.len() && passed[i] == InstallStage::StopResolver;
                assert(was[i] == InstallStage::StopResolver);
            }
        }
        if f.created_state {
            if g.created_state {
                let i = choose|i: int|
                    0 <= i < before.len() && before[i] == InstallEventView::Opened(true);
                assert(events[i] == InstallEventView::Opened(true));
            } else {
                assert(events[events.len() - 1] == InstallEventView::Opened(true));
            }
        }
    }
}

} // verus!
