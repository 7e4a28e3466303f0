//! The service manager, the daemon's channel and the supervised link.

use remap::exchange::{
    exchange_timeout, require_activation_digest, require_invalidated, require_served,
    wait_for_daemon, wait_for_health, ExchangePart, SystemResult, Wait,
};
use remap::events::{coalesce, manager_service, Coalescing, Polled, ResolverEvent};
use remap::fault::{fault, Fault, FaultKind};
use remap::health::{verify_rollback_namespace, SocketState};
use remap::link::LinkState;
use remap::manager::{
    capture_transaction, job_pending, operation_failed, prepare_start, require_stayed_inactive,
    require_transaction_active, settle_failed_dependency, started_job, transaction_is_quiesced,
    transaction_pending, undo_start, unit_job, DependencyCourse, DependencyJob, JobIdentity,
    JobObservation, StartPreparation, StopEvent, StopFlow, StopStage, UndoAct, UnitObservation,
};
use remap::model::{InstallPhase, ResolverPlanIdentity};
use remap::native::{Activation, ActivationPhase, ResolverLinkManager};
use remap::recovering::{activation_healthy, services_healthy};
use remap::runtime::{require_lease, LeaseLock};
use remap::snapshot::{
    daemon_plan_matches_activation, expected_plan, is_active, service_states, service_units,
    ServiceObservation,
};
use remap::sockets::{bind_fault, contract_descriptor, descriptor_name, SocketReservation};
use remap::stability::ObservationStability;
use remap::supervisor::{
    after_reconciliation, connect_refused, connect_systemd, load, readiness_asked, rebase_stamp,
    require_converged, require_fitting, require_inspected_identity, require_ready, serve_action,
    settled_effect, startup_stopped, stopped_startup, wait_for_channel,
    wait_for_stable_observation, wait_for_steady_observation, ConnectCourse, EffectCall,
    NativeCall, NativeError, NativeErrorKind, ServeAction, ServeEvent, StableActivation, StableWait,
    StartObservation, SteadyWait, SupervisorConfig, TransactionKind,
};
use remap::units::{socket_unit_names, unit_names};
use remap::worker::{monitor_stopped, supervision_stopped, worker_stopped};

const JOB: &str = "/org/freedesktop/systemd1/job/42";

fn job(id: u32) -> JobIdentity {
    JobIdentity { id, path: format!("/org/freedesktop/systemd1/job/{id}") }
}

fn unit(state: &str, pending: bool) -> UnitObservation {
    UnitObservation {
        state: Ok(state.to_owned()),
        job: Ok(if pending { Some(job(3)) } else { None }),
    }
}

fn other(message: &str) -> Fault {
    fault(FaultKind::Other, message)
}

fn message<T>(outcome: Result<T, Fault>) -> Option<String> {
    outcome.err().map(|error| error.message)
}

#[test]
fn units_are_prepared_for_a_start_by_their_state() {
    assert_eq!(prepare_start("active").ok(), Some(StartPreparation::Nothing));
    assert_eq!(prepare_start("inactive").ok(), Some(StartPreparation::StartLimit));
    assert_eq!(prepare_start("failed").ok(), Some(StartPreparation::Failure));
    assert_eq!(prepare_start("not_found").err().map(|e| e.kind), Some(FaultKind::NotFound));
    assert_eq!(prepare_start("activating").err().map(|e| e.kind), Some(FaultKind::AlreadyExists));
    assert!(require_stayed_inactive(&unit("inactive", false)).is_ok());
    assert!(require_stayed_inactive(&unit("inactive", true)).is_err());
    assert!(require_stayed_inactive(&unit("active", false)).is_err());
}

#[test]
fn jobs_are_known_by_their_number_and_their_path() -> Result<(), Fault> {
    assert_eq!(unit_job(0, "/".to_owned())?, None);
    assert_eq!(unit_job(42, JOB.to_owned())?, Some(job(42)));
    assert_eq!(
        message(unit_job(41, JOB.to_owned())).as_deref(),
        Some("the native systemd manager operation failed")
    );
    assert_eq!(started_job(JOB.to_owned())?, job(42));
    assert!(started_job("/other".to_owned()).is_err());
    assert!(job_pending(&JobObservation::Found(JOB.to_owned()), &job(42))?);
    assert!(!job_pending(&JobObservation::Missing, &job(42))?);
    assert_eq!(
        message(job_pending(&JobObservation::Found(JOB.to_owned()), &job(7))).as_deref(),
        Some("the native systemd job identity changed")
    );
    assert_eq!(job_pending(&JobObservation::Failed, &job(7)).err(), Some(operation_failed()));
    Ok(())
}

#[test]
fn a_transaction_waits_for_each_of_its_jobs_once() -> Result<(), Fault> {
    let found = |id: Option<u32>| DependencyJob { result: Ok(id.map(job)) };
    let dependencies = || vec![found(Some(2)), found(None), found(Some(2)), found(Some(1))];
    let running = JobObservation::Found(job(1).path);
    let jobs = capture_transaction(job(1), dependencies(), &running)?;
    assert_eq!(jobs, vec![job(1), job(2)]);
    let jobs = capture_transaction(job(1), dependencies(), &JobObservation::Missing)?;
    assert_eq!(jobs, vec![job(2)]);
    assert!(transaction_pending(&vec![JobObservation::Found(job(2).path)], &jobs)?);
    assert!(!transaction_pending(&vec![JobObservation::Missing], &jobs)?);
    let failing = vec![DependencyJob { result: Err(other("lost")) }];
    assert_eq!(message(capture_transaction(job(1), failing, &running)).as_deref(), Some("lost"));
    Ok(())
}

#[test]
fn starts_are_complete_or_undone() {
    assert!(require_transaction_active(&vec![unit("active", false)]).is_ok());
    assert!(require_transaction_active(&vec![unit("active", false), unit("failed", false)]).is_err());
    assert!(require_transaction_active(&vec![unit("active", true)]).is_err());
    assert!(transaction_is_quiesced(&vec![unit("inactive", false), unit("not_found", false)]));
    assert!(!transaction_is_quiesced(&vec![unit("inactive", true)]));
    assert_eq!(undo_start(&vec![unit("inactive", false)], 5, 1, 10), UndoAct::Rested);
    assert_eq!(undo_start(&vec![unit("active", false)], 5, 6, 10), UndoAct::Wait);
    assert_eq!(undo_start(&vec![unit("active", false)], 6, 6, 10), UndoAct::Force(16));
    assert_eq!(settle_failed_dependency(&unit("active", false), true), DependencyCourse::Keep);
    assert_eq!(settle_failed_dependency(&unit("failed", false), false), DependencyCourse::Quiesce);
    assert_eq!(settle_failed_dependency(&unit("active", true), false), DependencyCourse::Wait);
    assert_eq!(settle_failed_dependency(&unit("active", true), true), DependencyCourse::Quiesce);
}

#[test]
fn a_failure_that_is_gone_needs_no_reset() {
    let mut flow = StopFlow::begin_reset();
    assert_eq!(flow.stage, StopStage::ObserveFailed);
    flow = flow.step(StopEvent::State("inactive".to_owned(), false));
    assert_eq!(flow.stage, StopStage::Finished);
    assert!(flow.error.is_none());
    let mut flow = StopFlow::begin_reset();
    flow = flow.step(StopEvent::State("failed".to_owned(), false));
    assert_eq!(flow.stage, StopStage::Reset);
    flow = flow.step(StopEvent::Failed(operation_failed()));
    assert_eq!(flow.stage, StopStage::ObserveUnreset);
    flow = flow.step(StopEvent::State("failed".to_owned(), false));
    assert_eq!(flow.stage, StopStage::Finished);
    assert_eq!(flow.error, Some(operation_failed()));
}

#[test]
fn listeners_are_active_or_reserved() -> Result<(), Fault> {
    let states = |first: &str| {
        vec![first, "active", "active"]
            .into_iter()
            .map(|state| SocketState { state: Ok(state.to_owned()) })
            .collect::<Vec<_>>()
    };
    verify_rollback_namespace(&states("active"), &None)?;
    assert_eq!(
        message(verify_rollback_namespace(&states("inactive"), &None)).as_deref(),
        Some("an update rollback listener is neither active nor exactly reserved")
    );
    let reserved = Some(SocketReservation::of(vec!["dns-udp".to_owned()])?);
    verify_rollback_namespace(&states("inactive"), &reserved)?;
    assert_eq!(descriptor_name("remapd-http.socket")?, "http");
    assert!(descriptor_name("http.socket").is_err());
    let contract = vec!["dns-udp".to_owned(), "http".to_owned()];
    assert_eq!(contract_descriptor(&contract, "remapd-http.socket")?, 1);
    assert!(contract_descriptor(&contract, "remapd-dns-tcp.socket").is_err());
    assert!(SocketReservation::of(vec!["http".to_owned(), "http".to_owned()]).is_err());
    let taken = bind_fault(FaultKind::AddrInUse, "http", "127.0.0.1:80", "in use");
    assert_eq!(taken.kind, FaultKind::AddrInUse);
    assert_eq!(
        taken.message,
        "the required http loopback listener at 127.0.0.1:80 is unavailable: in use"
    );
    Ok(())
}

fn activation(phase: ActivationPhase) -> Activation {
    Activation { phase, activation_id: 3, generation: 4, owner_uid: 1000, link: 7 }
}

const PLAN: ResolverPlanIdentity = ResolverPlanIdentity { activation_id: 3, generation: 4 };
const SERVED: SystemResult = SystemResult { activation_id: Some(3), active_generation: Some(4) };
const EMPTY: SystemResult = SystemResult { activation_id: None, active_generation: None };

#[test]
fn health_is_the_plan_of_an_activation_in_force() {
    let active = Some(activation(ActivationPhase::Active));
    let moving = Some(activation(ActivationPhase::Transitional));
    assert_eq!(wait_for_health(&active, &Some(SERVED), 9, 5), Wait::Ready);
    assert_eq!(wait_for_health(&moving, &Some(SERVED), 1, 5), Wait::Again);
    assert_eq!(wait_for_health(&active, &None, 1, 5), Wait::Again);
    assert!(matches!(wait_for_health(&active, &Some(EMPTY), 5, 5), Wait::TimedOut(_)));
    assert_eq!(wait_for_daemon(true, 9, 5), Wait::Ready);
    assert_eq!(wait_for_daemon(false, 4, 5), Wait::Again);
    assert!(matches!(wait_for_daemon(false, 5, 5), Wait::TimedOut(_)));
    assert!(require_invalidated(&EMPTY).is_ok());
    assert_eq!(
        message(require_invalidated(&SERVED)).as_deref(),
        Some("the daemon did not invalidate the previous resolver plan")
    );
    assert!(require_served(PLAN, &SERVED, "not served").is_ok());
    assert_eq!(message(require_served(PLAN, &EMPTY, "not served")).as_deref(), Some("not served"));
    assert!(require_activation_digest(&Some([1; 32]), &Some([1; 32])).is_ok());
    assert!(require_activation_digest(&None, &Some([1; 32])).is_err());
    assert_eq!(
        exchange_timeout(ExchangePart::Write).message,
        "system-control write timed out"
    );
    assert_eq!(exchange_timeout(ExchangePart::Connection).kind, FaultKind::TimedOut);
    assert!(activation_healthy(&active, true, &Some(PLAN)));
    assert!(!activation_healthy(&active, false, &Some(PLAN)));
    assert!(!activation_healthy(&moving, true, &Some(PLAN)));
    assert_eq!(expected_plan(&active), Some(PLAN));
    assert_eq!(expected_plan(&None), None);
    assert!(daemon_plan_matches_activation(&None, &None, false, &None));
}

#[test]
fn every_unit_is_observed_in_order() -> Result<(), Fault> {
    let observed = |state: &str| {
        service_units()
            .into_iter()
            .map(|unit| ServiceObservation { unit, state: Ok(state.to_owned()) })
            .collect::<Vec<_>>()
    };
    let states = service_states(&observed("active"))?;
    assert_eq!(states.len(), 5);
    assert!(states.windows(2).all(|pair| pair[0].unit < pair[1].unit));
    assert!(is_active(&states, "remapd.service"));
    assert!(!is_active(&states, "other.service"));
    assert!(services_healthy(&observed("active")));
    assert!(!services_healthy(&observed("failed")));
    let mut failing = observed("active");
    failing[2].state = Err(other("lost"));
    assert_eq!(message(service_states(&failing)).as_deref(), Some("lost"));
    assert!(!services_healthy(&failing));
    assert_eq!(socket_unit_names().len(), 3);
    assert_eq!(
        unit_names(),
        vec![
            "remapd-dns-udp.socket",
            "remapd-dns-tcp.socket",
            "remapd-http.socket",
            "remapd.service",
            "remap-resolver.service",
        ]
    );
    Ok(())
}

fn config(manager: Option<ResolverLinkManager>, name: Option<&str>) -> SupervisorConfig {
    SupervisorConfig {
        link: 7,
        interface_name: name.map(str::to_owned),
        manager,
        owner_uid: 1000,
        daemon_uid: 1001,
        record_directory: "/var/lib/remap-system".to_owned(),
        system_socket: "/var/lib/remap/system.sock".to_owned(),
    }
}

fn native(kind: NativeErrorKind) -> NativeError {
    NativeError { kind, message: "native".to_owned() }
}

#[test]
fn links_are_driven_by_their_approved_manager() {
    let resolved = ResolverLinkManager::SystemdResolved;
    let network_manager = ResolverLinkManager::NetworkManager;
    let approved = config(Some(resolved), Some("eth0"));
    let open = config(None, None);
    assert!(readiness_asked(&approved));
    assert!(!readiness_asked(&config(Some(resolved), None)));
    assert_eq!(
        connect_systemd(&approved, resolved, "eth0").ok(),
        Some(TransactionKind::Systemd(true))
    );
    assert_eq!(
        connect_systemd(&open, network_manager, "eth1").ok(),
        Some(TransactionKind::Systemd(false))
    );
    assert!(connect_systemd(&approved, network_manager, "eth0").is_err());
    assert!(connect_systemd(&approved, resolved, "eth1").is_err());
    let unsupported = native(NativeErrorKind::UnsupportedResolverManager);
    assert_eq!(connect_refused(&open, &unsupported).ok(), Some(TransactionKind::NetworkManager));
    assert!(connect_refused(&approved, &unsupported).is_err());
    assert_eq!(
        connect_refused(&config(Some(network_manager), Some("eth0")), &unsupported).ok(),
        Some(TransactionKind::NetworkManager)
    );
    assert_eq!(
        message(connect_refused(&open, &native(NativeErrorKind::Other))).as_deref(),
        Some("native")
    );
    assert!(require_inspected_identity(&approved, resolved, "eth0").is_ok());
    assert!(require_inspected_identity(&approved, resolved, "eth1").is_err());
    assert!(require_ready(true).is_ok());
    assert!(matches!(
        require_ready(false).map_err(|error| error.kind),
        Err(NativeErrorKind::ResolverUnavailable)
    ));
    assert!(require_fitting(TransactionKind::Systemd(true), false).is_ok());
    assert!(require_fitting(TransactionKind::NetworkManager, false).is_err());
}

fn link_state(default_route: bool) -> LinkState {
    LinkState { link: 7, dns: vec![], domains: vec![], default_route }
}

#[test]
fn a_link_is_stable_when_it_was_seen_three_times() {
    let mut stability = ObservationStability::unobserved();
    let found = |route| StartObservation::Found(link_state(route));
    let mut observe = |observation, now| {
        wait_for_stable_observation(&mut stability, observation, now, 10)
    };
    assert!(matches!(observe(found(true), 1), StableWait::Again));
    assert!(matches!(observe(found(true), 2), StableWait::Again));
    assert!(matches!(observe(StartObservation::Nothing, 3), StableWait::Again));
    assert!(matches!(observe(found(true), 4), StableWait::Again));
    assert!(matches!(observe(found(true), 5), StableWait::Again));
    assert!(matches!(observe(found(true), 99), StableWait::Stable(_)));
    assert!(matches!(
        observe(StartObservation::Failed(other("lost")), 6),
        StableWait::Failed(_)
    ));
    let mut fresh: ObservationStability<LinkState> = ObservationStability::unobserved();
    match wait_for_stable_observation(&mut fresh, StartObservation::Nothing, 10, 10) {
        StableWait::Failed(error) => assert_eq!(error.kind, FaultKind::TimedOut),
        outcome => panic!("{outcome:?}"),
    }
}

#[test]
fn a_drift_is_rebased_only_while_it_stays() {
    let mut stability = ObservationStability::seeded(link_state(true));
    let mut wait = |state: Option<LinkState>, rebase, now| {
        wait_for_steady_observation(&mut stability, state, rebase, now, 150)
    };
    assert!(matches!(wait(Some(link_state(true)), Some(true), 25), SteadyWait::Again));
    assert!(matches!(wait(Some(link_state(true)), Some(true), 50), SteadyWait::Rebase(_)));
    assert!(matches!(wait(Some(link_state(true)), Some(false), 75), SteadyWait::Leave));
    assert!(matches!(wait(None, None, 100), SteadyWait::Again));
    assert!(matches!(wait(Some(link_state(true)), Some(true), 150), SteadyWait::Leave));
}

#[test]
fn a_supervisor_is_woken_and_stopped() -> Result<(), Fault> {
    assert_eq!(serve_action(ServeEvent::Tick, true), ServeAction::Reconcile);
    assert_eq!(serve_action(ServeEvent::Changed, true), ServeAction::Reconcile);
    assert_eq!(serve_action(ServeEvent::StreamUnavailable, true), ServeAction::DropMonitor);
    assert_eq!(serve_action(ServeEvent::ReconnectTick, true), ServeAction::Sleep);
    assert_eq!(serve_action(ServeEvent::ReconnectTick, false), ServeAction::ConnectMonitor);
    assert_eq!(serve_action(ServeEvent::Shutdown, false), ServeAction::Stop);
    assert_eq!(serve_action(ServeEvent::ShutdownLost, false), ServeAction::Fail);
    assert!(after_reconciliation(Ok(()))?);
    assert!(!after_reconciliation(Err(supervision_stopped()))?);
    assert_eq!(after_reconciliation(Err(worker_stopped())).err(), Some(worker_stopped()));
    assert_eq!(settled_effect(EffectCall::Completed(Ok(1)))?, (1, false));
    assert_eq!(settled_effect(EffectCall::Stopped(Ok(1)))?, (1, true));
    let unknown: EffectCall<u8> = EffectCall::TimedOut;
    assert_eq!(settled_effect(unknown).err().map(|e| e.kind), Some(FaultKind::TimedOut));
    assert_eq!(stopped_startup(Ok(1))?, Some(1));
    assert_eq!(stopped_startup::<u8>(Err(startup_stopped()))?, None);
    assert!(stopped_startup::<u8>(Err(monitor_stopped())).is_err());
    assert!(matches!(wait_for_channel(true, 9, 5), ConnectCourse::Connected));
    assert!(matches!(wait_for_channel(false, 4, 5), ConnectCourse::Retry));
    assert!(matches!(wait_for_channel(false, 5, 5), ConnectCourse::Failed(_)));
    assert_eq!(load(NativeCall::Value(1))?, Some(1));
    let slow: NativeCall<u8> = NativeCall::TimedOut;
    assert_eq!(load(slow)?, None);
    let stable = StableActivation { phase: ActivationPhase::Active, link: 7, requires_rebase: false };
    require_converged(Some(stable), 7)?;
    assert!(require_converged(Some(stable), 8).is_err());
    assert!(require_converged(None, 7).is_err());
    assert!(rebase_stamp(None, Some(1)).is_err());
    assert_eq!(rebase_stamp(Some(u64::MAX - 1), Some(5_000_000_000))?, (u64::MAX, 5));
    assert!(rebase_stamp(Some(u64::MAX), Some(5_000_000_000)).is_err());
    Ok(())
}

#[test]
fn signals_are_taken_until_the_stream_is_quiet() {
    assert!(matches!(coalesce(0, Polled::Message), Coalescing::Taken(1)));
    assert!(matches!(
        coalesce(1, Polled::Quiet),
        Coalescing::Report(ResolverEvent::Changed)
    ));
    assert!(matches!(
        coalesce(63, Polled::Message),
        Coalescing::Report(ResolverEvent::Changed)
    ));
    assert!(matches!(
        coalesce(0, Polled::Ended),
        Coalescing::Report(ResolverEvent::StreamUnavailable)
    ));
    assert_eq!(
        manager_service(Some(ResolverLinkManager::NetworkManager)),
        Some("org.freedesktop.NetworkManager")
    );
    assert_eq!(manager_service(None), None);
}

#[test]
fn a_lease_counts_only_while_it_is_held() {
    assert_eq!(require_lease(&Ok(3), LeaseLock::Held, &Ok(3)).ok(), Some(3));
    assert!(require_lease(&Ok(3), LeaseLock::Held, &Ok(4)).is_err());
    assert_eq!(
        message(require_lease(&Ok(3), LeaseLock::Free, &Ok(3))).as_deref(),
        Some("the runtime-start lease is not held")
    );
    assert!(require_lease(&Ok(3), LeaseLock::Failed, &Ok(3)).is_err());
    assert!(require_lease(&Err(other("lost")), LeaseLock::Held, &Ok(3)).is_err());
    assert_ne!(InstallPhase::Active, InstallPhase::Pruning);
}
