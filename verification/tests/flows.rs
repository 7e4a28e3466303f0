//! Installations, rollbacks, uninstallations and recoveries, step by step.

use remap::disk::{
    remove_generation_partial, save_record, stage_artifact, stage_directory,
    remove_state_residue, sync_public_parent, Ancestor, DiskStep, ReplaceEvent, ReplaceFlow,
    ReplaceStage,
};
use remap::cleanup::{StateResidue, StateResidueEntry};
use remap::effects::Operation;
use remap::fault::{conflict, fault, Fault, FaultKind};
use remap::health::{HealthEvent, HealthFlow, HealthStage, StopAllEvent, StopAllFlow, StopAllStage};
use remap::installing::{InstallEvent, InstallFlow, InstallStage};
use remap::manager::{
    QuiesceAct, Quiescence, StartEvent, StartFlow, StartStage, StopEvent, StopFlow, StopStage,
};
use remap::model::{
    Artifact, DirectoryProvenance, Generation, InstallPhase, InstallRecord, PublicDirectory,
    ResolverPlanIdentity, RollbackStep, UninstallStep, RESOLVER_REBASE_CAPABILITY,
};
use remap::native::{Activation, ActivationPhase, ResolverLinkManager};
use remap::plan::{bind, PlanDraft, PreparedPlan};
use remap::publishing::{PublishEvent, PublishFlow, PublishStage};
use remap::recovering::{recovery_course, Course, PruneEvent, PruneFlow, PruneStage};
use remap::rolling::{RollbackEvent, RollbackFlow, RollbackStage};
use remap::snapshot::StateSnapshot;
use remap::storage::{stage_generation_at, stage_path, StageStep};
use remap::uninstalling::{RemovalEvent, RemovalFlow, RemovalStage, UninstallEvent, UninstallFlow, UninstallStage};
use remap::units::PathProbe;

fn generation(id: u128) -> Generation {
    Generation {
        id,
        manifest_digest: [1; 32],
        product_version: "0.1.1".to_owned(),
        account: "remap".to_owned(),
        group: "remap".to_owned(),
        owner_uid: 1000,
        daemon_uid: 1001,
        link: 7,
        interface_name: Some("eth0".to_owned()),
        resolver_manager: Some(ResolverLinkManager::SystemdNetworkd),
        resolver_rebase_capability: RESOLVER_REBASE_CAPABILITY,
        artifacts: vec![Artifact {
            relative_path: "remap".to_owned(),
            mode: 0o755,
            byte_length: 1,
            digest: [2; 32],
        }],
        public_directories: vec![PublicDirectory {
            path: "/usr/share/doc/remap".to_owned(),
            provenance: DirectoryProvenance::Preexisting,
            identity: None,
        }],
    }
}

fn active(current: u128, previous: Option<u128>) -> InstallRecord {
    InstallRecord {
        phase: InstallPhase::Active,
        current: generation(current),
        previous: previous.map(generation),
        previous_previous: None,
        pending_resolver_plan: None,
    }
}

fn broken() -> Fault {
    fault(FaultKind::Other, "broken")
}

fn empty_state() -> StateSnapshot {
    StateSnapshot {
        install_record: None,
        active_integrity_valid: None,
        publications: vec![],
        services: vec![],
        resolver_environment: "systemd_resolved",
        selected_link: None,
        effective_link_digest: None,
        activation_state_valid: true,
        activation_record_digest: None,
        activation_phase: None,
        daemon_plan_observed: false,
        daemon_plan_identity: None,
        daemon_plan_valid: true,
        bootstrap_residues: vec![],
        state_residue: None,
    }
}

fn plan(token: &str, effects: bool) -> PreparedPlan {
    let draft = PlanDraft {
        operation: Operation::Install,
        generation_id: None,
        previous_generation_id: None,
        source_manifest_sha256: None,
        source_digest: None,
        link_index: Some(7),
        interface_name: None,
        backend: None,
        resolver_environment: "systemd_resolved",
        publications: vec![],
        effects: vec![],
        has_effects: effects,
        generation: Some(generation(3)),
        activation_record_digest: None,
        daemon_plan_identity: Some(ResolverPlanIdentity { activation_id: 9, generation: 1 }),
        daemon_plan_observed: true,
    };
    let mut bound = bind(draft, &empty_state());
    bound.approval_token = token.to_owned();
    bound
}

fn token() -> String {
    "ab".repeat(32)
}

#[test]
fn plans_are_bound_to_what_they_were_made_from() {
    let p = plan(&token(), true);
    assert!(p.has_effects());
    assert!(p.require_token(&token()).is_ok());
    assert!(p.require_token("x").is_err());
    assert!(p.same_authority(&plan(&token(), true)));
    assert!(!p.same_authority(&plan(&"cd".repeat(32), true)));
}

#[test]
fn installations_execute_only_what_was_approved_twice() {
    let begin = || InstallFlow::begin(0, token());
    let opened = || {
        begin()
            .step(InstallEvent::Plan(plan(&token(), true)))
            .step(InstallEvent::Done)
            .step(InstallEvent::Opened(false))
    };
    assert_eq!(opened().stage, InstallStage::LoadRecord);
    let installed = opened().step(InstallEvent::Record(Some(active(2, None))));
    assert_eq!(installed.stage, InstallStage::StopResolver);
    let locked = installed.step(InstallEvent::Done).step(InstallEvent::Done);
    assert_eq!(locked.stage, InstallStage::PrepareSecond);
    let executed = locked.step(InstallEvent::Plan(plan(&token(), true)));
    assert_eq!(executed.stage, InstallStage::Execute);
    assert!(executed.step(InstallEvent::Done).error.is_none());

    let refused = begin().step(InstallEvent::Plan(plan(&"cd".repeat(32), true)));
    assert_eq!(refused.stage, InstallStage::Finished);
    assert!(refused.error.is_some());

    let changed = opened()
        .step(InstallEvent::Record(Some(active(2, None))))
        .step(InstallEvent::Done)
        .step(InstallEvent::Done)
        .step(InstallEvent::Plan(plan(&"cd".repeat(32), true)));
    assert_eq!(changed.stage, InstallStage::RestartPrevious);
    let ended = changed.step(InstallEvent::Done);
    assert_eq!(ended.stage, InstallStage::Finished);
    assert!(ended.error.is_some());
}

#[test]
fn only_root_installs() {
    let flow = InstallFlow::begin(1000, token());
    assert_eq!(flow.stage, InstallStage::Finished);
    assert_eq!(flow.error.map(|e| e.kind), Some(FaultKind::PermissionDenied));
}

#[test]
fn installations_without_effects_do_nothing() {
    let flow = InstallFlow::begin(0, token())
        .step(InstallEvent::Plan(plan(&token(), false)))
        .step(InstallEvent::Done)
        .step(InstallEvent::Opened(false))
        .step(InstallEvent::Record(Some(active(2, None))));
    assert_eq!(flow.stage, InstallStage::PrepareNoOp);
    let ended = flow.step(InstallEvent::Plan(plan(&token(), false)));
    assert_eq!(ended.stage, InstallStage::Finished);
    assert!(ended.error.is_none());
}

fn run_publication(previous: Option<&InstallRecord>) -> PublishFlow {
    let mut flow = PublishFlow::begin(generation(3), previous, true);
    for _ in 0..64 {
        let event = match flow.stage {
            PublishStage::PublishDirectories => {
                PublishEvent::Directories(generation(3).public_directories)
            }
            PublishStage::ReadPlan => PublishEvent::Plan(None),
            PublishStage::Finished => return flow,
            _ => PublishEvent::Done,
        };
        flow = flow.step(event);
    }
    flow
}

#[test]
fn publications_end_in_an_active_record() {
    for previous in [None, Some(active(2, None)), Some(active(2, Some(1)))] {
        let flow = run_publication(previous.as_ref());
        assert_eq!(flow.stage, PublishStage::Finished);
        assert!(flow.error.is_none());
        assert_eq!(flow.record.phase, InstallPhase::Active);
        assert_eq!(flow.record.current.id, 3);
        assert_eq!(flow.record.previous.map(|g| g.id), previous.map(|r| r.current.id));
        assert!(flow.record.previous_previous.is_none());
    }
}

#[test]
fn failed_publications_are_rolled_back() {
    let staged = PublishFlow::begin(generation(3), None, true).step(PublishEvent::Done);
    assert_eq!(staged.stage, PublishStage::StageFiles);
    let failed = staged.step(PublishEvent::Failed(broken()));
    assert!(matches!(failed.stage, PublishStage::RollBack | PublishStage::RetainAfterFailure));
    assert_eq!(failed.error.as_ref().map(|e| e.kind), Some(FaultKind::Other));
    let retained = run_publication(None);
    assert!(retained.error.is_none());
    let mut flow = PublishFlow::begin(generation(3), None, true);
    while flow.stage != PublishStage::ReadPlan {
        let event = match flow.stage {
            PublishStage::PublishDirectories => {
                PublishEvent::Directories(generation(3).public_directories)
            }
            _ => PublishEvent::Done,
        };
        flow = flow.step(event);
    }
    let kept = flow.step(PublishEvent::Plan(Some(ResolverPlanIdentity {
        activation_id: 1,
        generation: 1,
    })));
    assert_eq!(
        kept.error.map(|e| e.message).as_deref(),
        Some("the restarted daemon retained an unexpected resolver plan")
    );
}

fn run_rollback(mut flow: RollbackFlow) -> (RollbackFlow, Vec<RollbackStep>) {
    let mut steps = Vec::new();
    for _ in 0..200 {
        if let InstallPhase::RollingBack(step) = flow.record.phase {
            if steps.last() != Some(&step) {
                steps.push(step);
            }
        }
        let event = match flow.stage {
            RollbackStage::Finished => break,
            RollbackStage::RetainFirst
            | RollbackStage::RetainListeners
            | RollbackStage::ReserveNamespace => RollbackEvent::Retained(true),
            RollbackStage::InspectActivation => RollbackEvent::Activation(true),
            RollbackStage::ObserveResolver => RollbackEvent::ResolverActive(true),
            _ => RollbackEvent::Done,
        };
        flow = flow.step(event);
    }
    (flow, steps)
}

fn published(previous: Option<&InstallRecord>) -> InstallRecord {
    let mut record = InstallRecord::staging(generation(3), previous);
    assert!(record.stage().is_ok() && record.publish().is_ok());
    record
}

#[test]
fn rollbacks_pass_every_step_of_their_journal() {
    for previous in [None, Some(active(2, Some(1)))] {
        let (flow, steps) = run_rollback(RollbackFlow::begin(published(previous.as_ref()), true));
        assert_eq!(flow.stage, RollbackStage::Finished);
        assert!(flow.error.is_none());
        assert_eq!(steps, RollbackStep::all().to_vec());
        assert_eq!(flow.restoration(), previous);
    }
}

#[test]
fn rollbacks_resume_where_they_were_interrupted() {
    for (index, step) in RollbackStep::all().into_iter().enumerate() {
        let mut record = published(Some(&active(2, Some(1))));
        record.phase = InstallPhase::RollingBack(step);
        let (flow, steps) = run_rollback(RollbackFlow::resume(record));
        assert!(flow.error.is_none());
        assert_eq!(steps, RollbackStep::all()[index..].to_vec());
    }
}

fn run_removal(mut flow: RemovalFlow) -> (RemovalFlow, Vec<UninstallStep>) {
    let mut steps = Vec::new();
    for _ in 0..200 {
        if let InstallPhase::Uninstalling(step) = flow.record.phase {
            if steps.last() != Some(&step) {
                steps.push(step);
            }
        }
        let event = match flow.stage {
            RemovalStage::Finished => break,
            RemovalStage::InspectActivation => RemovalEvent::Activation(true),
            RemovalStage::InspectRestored => RemovalEvent::Activation(false),
            _ => RemovalEvent::Done,
        };
        flow = flow.step(event);
    }
    (flow, steps)
}

#[test]
fn uninstallations_pass_every_step_of_their_journal() {
    let mut record = active(2, Some(1));
    assert!(record
        .begin_uninstall(ResolverPlanIdentity { activation_id: 9, generation: 1 })
        .is_ok());
    let (flow, steps) = run_removal(RemovalFlow::resume(record));
    assert_eq!(flow.stage, RemovalStage::Finished);
    assert!(flow.error.is_none());
    assert_eq!(steps, UninstallStep::all().to_vec());
}

#[test]
fn uninstallations_are_approved_twice_and_bring_the_runtime_back() {
    let prepared = || {
        UninstallFlow::begin(0, token())
            .step(UninstallEvent::Plan(plan(&token(), true)))
            .step(UninstallEvent::Done)
            .step(UninstallEvent::Done)
            .step(UninstallEvent::Done)
            .step(UninstallEvent::Done)
    };
    assert_eq!(prepared().stage, UninstallStage::PrepareSecond);
    let begun = prepared()
        .step(UninstallEvent::Plan(plan(&token(), true)))
        .step(UninstallEvent::Record(Some(active(2, None))))
        .step(UninstallEvent::Done)
        .step(UninstallEvent::Done);
    assert_eq!(begun.stage, UninstallStage::SaveBegun);
    let refused = prepared().step(UninstallEvent::Plan(plan(&"cd".repeat(32), true)));
    assert_eq!(refused.stage, UninstallStage::LoadInstalled);
    let back = refused.step(UninstallEvent::Record(Some(active(2, None))));
    assert_eq!(back.stage, UninstallStage::RestartInstalled);
    let ended = back.step(UninstallEvent::Done);
    assert!(ended.error.is_some());
    assert_eq!(ended.stage, UninstallStage::Finished);
}

#[test]
fn every_phase_has_its_course() {
    let course = |phase| {
        let mut record = active(2, None);
        record.phase = phase;
        recovery_course(&Some(record))
    };
    assert_eq!(course(InstallPhase::Staging), Course::RollBack);
    assert_eq!(course(InstallPhase::Published), Course::RollBack);
    assert_eq!(
        course(InstallPhase::RollingBack(RollbackStep::Finalize)),
        Course::ResumeRollback
    );
    assert_eq!(course(InstallPhase::Pruning), Course::CompletePruning);
    assert_eq!(
        course(InstallPhase::Uninstalling(UninstallStep::Finalize)),
        Course::ResumeUninstall
    );
    assert_eq!(course(InstallPhase::Active), Course::InspectRuntime);
    assert_eq!(recovery_course(&None), Course::InspectOrphan);
}

#[test]
fn pruning_removes_the_stale_generation_last() {
    let mut record = InstallRecord::staging(generation(3), Some(&active(2, Some(1))));
    assert!(record.stage().is_ok() && record.publish().is_ok() && record.begin_prune().is_ok());
    let mut flow = PruneFlow::begin(record);
    let mut stages = Vec::new();
    while flow.stage != PruneStage::Finished {
        stages.push(flow.stage);
        let event = match flow.stage {
            PruneStage::ProbeStale => PruneEvent::Stale(true),
            _ => PruneEvent::Done,
        };
        flow = flow.step(event);
    }
    assert!(flow.error.is_none());
    assert_eq!(flow.record.phase, InstallPhase::Active);
    assert!(flow.record.previous_previous.is_none());
    let at = |s: PruneStage| stages.iter().position(|x| *x == s);
    assert!(at(PruneStage::EnsureHealth) < at(PruneStage::RemoveStale));
}

#[test]
fn stops_end_at_rest() {
    let rest = || StopEvent::State("inactive".to_owned(), false);
    let flow = StopFlow::begin().step(rest()).step(rest());
    assert_eq!(flow.stage, StopStage::Finished);
    assert!(flow.error.is_none());
    let asked = StopFlow::begin().step(StopEvent::State("active".to_owned(), false));
    assert_eq!(asked.stage, StopStage::Request);
}

#[test]
fn processes_are_terminated_before_they_are_killed() {
    let mut q = Quiescence::begin(0, 10);
    assert_eq!(q.next("inactive", false, 1, 10), QuiesceAct::Rested);
    let mut q = Quiescence::begin(0, 10);
    let acts: Vec<QuiesceAct> =
        [1, 11, 12, 30].into_iter().map(|now| q.next("active", false, now, 10)).collect();
    let first_kill = acts.iter().position(|a| *a == QuiesceAct::Kill);
    let first_term = acts.iter().position(|a| *a == QuiesceAct::Terminate);
    assert!(first_term.is_some());
    assert!(first_kill.is_none() || first_term < first_kill);
}

#[test]
fn failed_starts_are_undone() {
    let flow = StartFlow::begin(0).step(StartEvent::Failed(broken()));
    assert!(flow.error.is_some());
    assert_ne!(flow.stage, StartStage::Capture);
    let asked = StartFlow::begin(1).step(StartEvent::Job("/org/freedesktop/systemd1/job/7".to_owned()));
    assert_eq!(asked.stage, StartStage::Capture);
    let undone = asked.step(StartEvent::Failed(broken()));
    assert_eq!(undone.stage, StartStage::Undo);
}

#[test]
fn units_are_stopped_one_after_the_other() {
    let mut flow = StopAllFlow::begin(2);
    let mut stages = Vec::new();
    for _ in 0..20 {
        stages.push(flow.stage);
        let event = match flow.stage {
            StopAllStage::Finished => break,
            StopAllStage::Observe(_) => StopAllEvent::State("active".to_owned()),
            StopAllStage::Confirm(_) => StopAllEvent::State("inactive".to_owned()),
            StopAllStage::Stop(_) => StopAllEvent::Done,
        };
        flow = flow.step(event);
    }
    assert_eq!(flow.stage, StopAllStage::Finished);
    assert!(flow.error.is_none());
    let first = stages.iter().position(|s| *s == StopAllStage::Stop(0));
    let second = stages.iter().position(|s| *s == StopAllStage::Stop(1));
    assert!(first.is_some() && first < second);
}

#[test]
fn a_daemon_that_serves_the_plan_is_left_alone() {
    let activation = Activation {
        phase: ActivationPhase::Active,
        activation_id: 9,
        generation: 4,
        owner_uid: 1000,
        link: 7,
    };
    let served = Some(ResolverPlanIdentity { activation_id: 9, generation: 4 });
    let mut flow = HealthFlow::begin(true, served);
    let mut seen = Vec::new();
    for _ in 0..40 {
        seen.push(flow.stage);
        let event = match flow.stage {
            HealthStage::Finished => break,
            HealthStage::ObserveSocket(_)
            | HealthStage::ObserveDaemon
            | HealthStage::ObserveResolver => HealthEvent::State("active".to_owned()),
            HealthStage::ReadActivation => HealthEvent::Activation(Some(activation)),
            HealthStage::ReadPlan | HealthStage::ReadFreshPlan => HealthEvent::Plan(served),
            _ => HealthEvent::Done,
        };
        flow = flow.step(event);
    }
    assert_eq!(flow.stage, HealthStage::Finished);
    assert!(flow.error.is_none());
    assert!(!seen.contains(&HealthStage::StopDaemon));
    assert!(!seen.contains(&HealthStage::InvalidatePlan));
}

fn kinds(steps: &[DiskStep]) -> Vec<String> {
    steps
        .iter()
        .map(|s| {
            let text = format!("{s:?}");
            text.split('(').next().unwrap_or_default().to_owned()
        })
        .collect()
}

#[test]
fn files_are_durable_before_they_are_named() -> Result<(), Fault> {
    let steps = stage_artifact("/g/1", "share/a", 0o644)?;
    assert_eq!(
        kinds(&steps),
        vec![
            "RequireAbsent",
            "RequireAbsent",
            "CreateFile",
            "WriteFile",
            "SetMode",
            "SyncFile",
            "RenameNew",
            "SyncDirectory"
        ]
    );
    match &steps[6] {
        DiskStep::RenameNew(from, to) => {
            assert_eq!(from, "/g/1/share/.remap-stage-a");
            assert_eq!(to, "/g/1/share/a");
        }
        other => panic!("{other:?}"),
    }
    assert_eq!(stage_path("a/b")?, "a/.remap-stage-b");
    assert_eq!(kinds(&save_record("/s"))[5], "Rename");
    Ok(())
}

#[test]
fn removal_reverses_staging() -> Result<(), Fault> {
    let staged: Vec<String> = stage_generation_at("/p/generations", 1, 2, true)?
        .into_iter()
        .filter_map(|s| match s {
            StageStep::StageDirectory(p) => Some(p),
            _ => None,
        })
        .collect();
    let removed: Vec<String> =
        remove_generation_partial("/p/generations", &staged[2], 2, true)
            .into_iter()
            .filter_map(|s| match s {
                DiskStep::RemoveOwnedDirectory(p) => Some(p),
                _ => None,
            })
            .collect();
    let mut below = staged[3..].to_vec();
    below.reverse();
    assert_eq!(removed, below);
    assert_eq!(staged[0], "/p");
    assert_eq!(kinds(&stage_directory("/p", false))[0], "CreateDirectory");
    Ok(())
}

#[test]
fn residues_go_without_the_records() {
    let residue = StateResidue {
        directory: "/var/lib/x".to_owned(),
        remove_directory: true,
        entries: vec![StateResidueEntry {
            path: "/var/lib/x/.installation.new".to_owned(),
            byte_length: 1,
            digest: [0; 32],
        }],
    };
    assert_eq!(
        kinds(&remove_state_residue(&residue)),
        vec![
            "RemoveFile",
            "SyncDirectory",
            "ValidateExact",
            "RequireAbsent",
            "RequireAbsent",
            "RemoveEmptyDirectory",
            "SyncDirectory"
        ]
    );
}

#[test]
fn the_current_link_is_replaced_or_left_alone() {
    // Two links and what the steps do to them.
    let run = |current: u128, new: u128, expected: u128| {
        let mut links = (Some(current), None);
        let mut flow = ReplaceFlow::begin();
        while flow.stage != ReplaceStage::Finished {
            let ok = match flow.stage {
                ReplaceStage::RequireAbsent => links.1.is_none(),
                ReplaceStage::MakeTemporary => {
                    links.1 = Some(new);
                    true
                }
                ReplaceStage::Exchange | ReplaceStage::ExchangeBack => {
                    links = (links.1, links.0);
                    true
                }
                ReplaceStage::VerifyTemporary => links.1 == Some(expected),
                ReplaceStage::VerifyCurrent => links.0 == Some(new),
                ReplaceStage::GiveUp | ReplaceStage::RemoveTemporary => {
                    links.1 = None;
                    true
                }
                _ => true,
            };
            flow = flow.step(if ok {
                ReplaceEvent::Done
            } else {
                ReplaceEvent::Failed(conflict("an installed publication link changed ownership"))
            });
        }
        (links, flow.error.map(|e| e.message))
    };
    assert_eq!(run(1, 2, 1), ((Some(2), None), None));
    assert_eq!(
        run(9, 2, 1),
        (
            (Some(9), None),
            Some("the current generation changed during atomic replacement".to_owned())
        )
    );
}

#[test]
fn the_nearest_directory_is_made_durable() {
    let missing = PathProbe { result: Err(fault(FaultKind::NotFound, "no")) };
    match sync_public_parent("/a/b", &missing) {
        Ancestor::Look(p) => assert_eq!(p, "/a"),
        other => panic!("{other:?}"),
    }
    match sync_public_parent("/", &missing) {
        Ancestor::Refused(e) => {
            assert_eq!(e.message, "a public directory durable ancestor is unavailable");
        }
        other => panic!("{other:?}"),
    }
}
