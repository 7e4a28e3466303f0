//! The resolver's supervision, the service manager and the sockets.

use remap::address::IpAddress;
use remap::events::{
    event_rules, forward, EventThrottle, Polled, ResolverEvent, EVENT_DEBOUNCE,
    EVENT_MIN_INTERVAL, MAX_COALESCED_SIGNALS,
};
use remap::exchange::{health_matches, SystemResult};
use remap::fault::{fault, Fault, FaultKind};
use remap::link::{LinkDomain, LinkState};
use remap::manager::{parse_job_path, start_action, stop_action, StartAction, StopAction};
use remap::model::ResolverPlanIdentity;
use remap::native::{
    activation_manager, ActivationPhase, ResolverLinkManager, ResolverManagerRecord,
};
use remap::sockets::{add_reservation, reservation_missing, SocketReservation};
use remap::stability::{
    deadline_reached, evaluate_steady_observation, monotonic_generation, timestamp_after,
    ObservationStability, SteadyObservation, REQUIRED_STABLE_OBSERVATIONS,
};
use remap::supervisor::{
    connect_when_ready, plan_state, platform_error, platform_error_is_unavailable,
    rebase_comparison, startup_observation, ConnectCourse, NativeCall, NativeError,
    NativeErrorKind, PlanState, PublicationEvent, PublicationFlow, PublicationStage,
    ReconcileEvent, ReconcileFlow, ReconcileStage, StabilizeEvent, StabilizeFlow, StabilizeStage,
    StartupEvent, StartupFlow, StartupStage, RECONCILE_INTERVAL, STABILITY_INTERVAL,
    STEADY_STABILITY_TIMEOUT,
};
use remap::upstreams::{upstreams, DnsServer};
use remap::worker::{
    settle_action, CallKind, DispatchEvent, DispatchFlow, DispatchStage, SettleAction, WaitEnd,
};

const RESOLVED_SERVICE: &str = "org.freedesktop.resolve1";
const NETWORKD_SERVICE: &str = "org.freedesktop.network1";
const NETWORK_MANAGER_SERVICE: &str = "org.freedesktop.NetworkManager";

fn native(kind: NativeErrorKind, message: &str) -> NativeError {
    NativeError { kind, message: message.to_owned() }
}

#[test]
fn only_typed_manager_unavailability_enters_the_startup_retry_path() {
    let unavailable = native(NativeErrorKind::ResolverUnavailable, "synthetic manager outage");
    let conflict = native(NativeErrorKind::OwnershipConflict, "synthetic manager conflict");
    assert!(platform_error_is_unavailable(&unavailable));
    assert!(!platform_error_is_unavailable(&conflict));
    assert_eq!(platform_error(&conflict), fault(FaultKind::Other, "synthetic manager conflict"));
    assert!(matches!(connect_when_ready(&Err(unavailable), 1, 2), ConnectCourse::Retry));
    assert!(matches!(connect_when_ready(&Err(conflict), 1, 2), ConnectCourse::Failed(_)));
}

#[test]
fn steady_reconciliation_is_bounded_without_weakening_startup_stability() {
    assert_eq!(REQUIRED_STABLE_OBSERVATIONS, 3);
    assert!(STABILITY_INTERVAL * u64::from(REQUIRED_STABLE_OBSERVATIONS - 1) >= 1000);
    assert_eq!(RECONCILE_INTERVAL, 1000);
    assert!(STEADY_STABILITY_TIMEOUT <= 150);
}

#[test]
fn steady_reconciliation_counts_the_seed_in_debug_and_release() {
    let mut stability = ObservationStability::seeded(42_u8);
    assert!(!stability.observe(42));
    assert!(stability.observe(42));
}

#[test]
fn steady_reconciliation_timeout_boundary_is_exact() {
    let deadline = 1_000_000_000 + STEADY_STABILITY_TIMEOUT;
    assert!(!deadline_reached(deadline - 1, deadline));
    assert!(deadline_reached(deadline, deadline));
}

#[test]
fn resolver_generation_survives_a_backward_clock() {
    assert_eq!(monotonic_generation(41, Some(900)), Some(901));
    assert_eq!(monotonic_generation(901, Some(900)), Some(901));
    assert_eq!(monotonic_generation(902, Some(900)), Some(902));
    assert_eq!(monotonic_generation(41, Some(u64::MAX)), None);
}

#[test]
fn ambiguous_publication_state_is_never_treated_as_empty() {
    let activation_id = 0x5eed_u128;
    let exact = SystemResult { activation_id: Some(activation_id), active_generation: Some(42) };
    let empty = SystemResult { activation_id: None, active_generation: None };
    let partial = SystemResult { activation_id: Some(activation_id), active_generation: None };
    assert_eq!(plan_state(&exact, activation_id, 42), PlanState::Exact);
    assert_eq!(plan_state(&empty, activation_id, 42), PlanState::Empty);
    assert_eq!(plan_state(&partial, activation_id, 42), PlanState::Other);
    assert_eq!(plan_state(&exact, activation_id, 43), PlanState::Other);
}

#[test]
fn staggered_manager_fields_never_become_a_stable_rebase_input() {
    let dns = || DnsServer {
        address: IpAddress::V4([192, 0, 2, 53]),
        port: 0,
        server_name: String::new(),
    };
    let domain = || LinkDomain { name: "example.test".to_owned(), route_only: false };
    let state = |dns, domains, default_route| LinkState { link: 2, dns, domains, default_route };
    let mut stability = ObservationStability::unobserved();
    assert!(!stability.observe(state(vec![dns()], vec![], false)));
    assert!(!stability.observe(state(vec![dns()], vec![domain()], false)));
    assert!(!stability.observe(state(vec![dns()], vec![domain()], true)));
    assert!(!stability.observe(state(vec![dns()], vec![domain()], true)));
    assert!(stability.observe(state(vec![dns()], vec![domain()], true)));
}

#[test]
fn steady_sequences_cancel_disappearing_drift_and_reset_changed_candidates() {
    let mut missing = ObservationStability::unobserved();
    assert_eq!(
        evaluate_steady_observation(&mut missing, None::<u8>, false),
        SteadyObservation::Pending
    );
    let mut owned = ObservationStability::unobserved();
    assert_eq!(
        evaluate_steady_observation(&mut owned, Some(1_u8), false),
        SteadyObservation::Cancelled
    );
    let mut changed = ObservationStability::unobserved();
    assert_eq!(
        evaluate_steady_observation(&mut changed, Some(1_u8), true),
        SteadyObservation::Pending
    );
    assert_eq!(
        evaluate_steady_observation(&mut changed, Some(2_u8), true),
        SteadyObservation::Pending
    );
    assert_eq!(
        evaluate_steady_observation(&mut changed, Some(2_u8), true),
        SteadyObservation::Pending
    );
    assert_eq!(
        evaluate_steady_observation(&mut changed, Some(2_u8), true),
        SteadyObservation::Stable(2)
    );
    assert_eq!(REQUIRED_STABLE_OBSERVATIONS, 3);
}

#[test]
fn systemd_job_paths_require_one_canonical_nonzero_identity() -> Result<(), Fault> {
    assert_eq!(parse_job_path("/org/freedesktop/systemd1/job/42")?, 42);
    for invalid in [
        "/org/freedesktop/systemd1/job/0",
        "/org/freedesktop/systemd1/job/042",
        "/org/freedesktop/systemd1/job/4294967296",
        "/org/freedesktop/systemd1/unit/42",
    ] {
        assert!(parse_job_path(invalid).is_err());
    }
    Ok(())
}

#[test]
fn failed_units_require_reset_and_reactivation_is_never_settled() {
    assert_eq!(stop_action("inactive"), StopAction::Settled);
    assert_eq!(stop_action("not_found"), StopAction::Settled);
    assert_eq!(stop_action("failed"), StopAction::ResetFailed);
    assert_eq!(stop_action("active"), StopAction::Request);
    assert_eq!(stop_action("activating"), StopAction::Request);
    assert_eq!(stop_action("deactivating"), StopAction::Request);
    let failed_then_active = ["failed", "active"].map(stop_action);
    assert_eq!(failed_then_active, [StopAction::ResetFailed, StopAction::Request]);
    let inactive_then_active = ["inactive", "active"].map(stop_action);
    assert_eq!(inactive_then_active, [StopAction::Settled, StopAction::Request]);
}

#[test]
fn inactive_units_reset_hidden_start_limit_before_start() {
    assert_eq!(start_action("active"), StartAction::Ready);
    assert_eq!(start_action("inactive"), StartAction::ResetInactive);
    assert_eq!(start_action("failed"), StartAction::ResetFailed);
    assert_eq!(start_action("not_found"), StartAction::Missing);
    assert_eq!(start_action("activating"), StartAction::Transitional);
}

#[test]
fn health_acceptance_rejects_stale_or_partial_identity() {
    let plan = |activation_id, generation| ResolverPlanIdentity { activation_id, generation };
    let exact = SystemResult { activation_id: Some(7), active_generation: Some(11) };
    assert!(health_matches(plan(7, 11), &exact));
    assert!(!health_matches(plan(7, 12), &exact));
    assert!(!health_matches(plan(8, 11), &exact));
    assert!(!health_matches(
        plan(7, 11),
        &SystemResult { activation_id: None, active_generation: Some(11) }
    ));
}

#[test]
fn event_rules_are_scoped_to_the_exact_link_and_selected_manager() -> Result<(), Fault> {
    for (manager, selected, excluded) in [
        (
            ResolverLinkManager::SystemdResolved,
            RESOLVED_SERVICE,
            [NETWORKD_SERVICE, NETWORK_MANAGER_SERVICE],
        ),
        (
            ResolverLinkManager::SystemdNetworkd,
            NETWORKD_SERVICE,
            [NETWORK_MANAGER_SERVICE, "org.example.unused"],
        ),
        (
            ResolverLinkManager::NetworkManager,
            NETWORK_MANAGER_SERVICE,
            [NETWORKD_SERVICE, "org.example.unused"],
        ),
    ] {
        let mut encoded = event_rules(23, Some(manager))?;
        encoded.sort();
        encoded.dedup();
        let expected_count = usize::from(selected != RESOLVED_SERVICE) + 2;
        assert_eq!(encoded.len(), expected_count);
        assert!(encoded.iter().any(|rule| {
            rule.contains(RESOLVED_SERVICE) && rule.contains("/org/freedesktop/resolve1/link/_23")
        }));
        assert!(encoded.iter().any(|rule| rule.contains(selected)));
        for service in excluded {
            assert!(!encoded.iter().any(|rule| rule.contains(service)));
        }
    }
    Ok(())
}

#[test]
fn event_rules_are_those_of_the_bus() -> Result<(), Fault> {
    for rule in event_rules(23, Some(ResolverLinkManager::NetworkManager))? {
        let parsed = zbus::MatchRule::try_from(rule.as_str());
        assert_eq!(parsed.ok().map(|r| r.to_string()), Some(rule));
    }
    Ok(())
}

#[test]
fn sustained_signal_flood_is_bounded_to_four_full_scans_per_second() {
    let start = 1_000_000;
    let mut throttle = EventThrottle::unused();
    assert_eq!(throttle.deadline(start), start + EVENT_DEBOUNCE);
    throttle.record(start + EVENT_DEBOUNCE);
    for offset in 1_u64..=100 {
        assert!(
            throttle.deadline(start + offset) >= start + EVENT_DEBOUNCE + EVENT_MIN_INTERVAL,
            "event {offset} bypassed the reconciliation rate limit"
        );
    }
}

#[test]
fn an_individual_stream_closure_is_visible_and_floods_coalesce() {
    let mut polled = vec![Polled::Message; 100];
    polled.push(Polled::Ended);
    let mut reports = Vec::new();
    let mut at = 0;
    while let Some((event, taken)) = forward(&polled[at..]) {
        assert!(taken <= MAX_COALESCED_SIGNALS + 1);
        reports.push(event);
        at += taken;
    }
    assert_eq!(reports, vec![ResolverEvent::Changed, ResolverEvent::StreamUnavailable]);
    assert_eq!(at, polled.len());
}

#[test]
fn a_quiet_stream_reports_nothing_and_a_single_signal_is_reported() {
    assert_eq!(forward(&[]), None);
    assert_eq!(
        forward(&[Polled::Message, Polled::Quiet]),
        Some((ResolverEvent::Changed, 2))
    );
    assert_eq!(forward(&[Polled::Failed]), Some((ResolverEvent::StreamUnavailable, 1)));
    assert_eq!(forward(&[Polled::Ended]), Some((ResolverEvent::StreamUnavailable, 1)));
}

#[test]
fn reservation_handoff_releases_and_reacquires_only_one_exact_unit() -> Result<(), Fault> {
    let descriptor = || SocketReservation::of(vec!["dns-tcp".to_owned()]);
    let mut reservation = descriptor()?;
    assert!(reservation.covers_unit("remapd-dns-tcp.socket")?);
    reservation.release_unit("remapd-dns-tcp.socket")?;
    assert!(!reservation.covers_unit("remapd-dns-tcp.socket")?);
    reservation.merge(descriptor()?)?;
    assert!(reservation.covers_unit("remapd-dns-tcp.socket")?);
    assert!(reservation.merge(descriptor()?).is_err());
    Ok(())
}

#[test]
fn partial_reservation_requires_top_up_for_a_newly_missing_unit() -> Result<(), Fault> {
    let mut reservation = Some(SocketReservation::of(vec!["dns-tcp".to_owned()])?);
    assert!(reservation_missing(&reservation, "remapd-http.socket")?);
    add_reservation(&mut reservation, SocketReservation::of(vec!["http".to_owned()])?)?;
    assert!(!reservation_missing(&reservation, "remapd-dns-tcp.socket")?);
    assert!(!reservation_missing(&reservation, "remapd-http.socket")?);
    Ok(())
}

#[test]
fn calls_that_only_read_come_to_nothing_when_the_resolver_is_away() {
    let away = || native(NativeErrorKind::ResolverUnavailable, "away");
    assert_eq!(startup_observation(NativeCall::Value(Some(3_u8))), Ok(Some(3)));
    assert_eq!(startup_observation::<u8>(NativeCall::TimedOut), Ok(None));
    assert_eq!(startup_observation::<u8>(NativeCall::Failed(away())), Ok(None));
    assert!(rebase_comparison(NativeCall::Failed(away())).is_err());
    assert_eq!(
        rebase_comparison(NativeCall::Failed(native(NativeErrorKind::UnstableObservation, "x"))),
        Ok(None)
    );
}

#[test]
fn publications_are_told_apart_by_what_the_daemon_serves() {
    let plan = ResolverPlanIdentity { activation_id: 7, generation: 11 };
    let result = |id, generation| {
        PublicationEvent::Result(SystemResult { activation_id: id, active_generation: generation })
    };
    let begun = || PublicationFlow::begin(plan);
    let served = begun().step(result(Some(7), Some(11)));
    assert_eq!(served.stage, PublicationStage::Finished);
    assert!(served.error.is_none());
    assert_eq!(begun().step(result(None, None)).stage, PublicationStage::Publish);
    assert_eq!(begun().step(result(Some(7), Some(10))).stage, PublicationStage::Publish);
    let foreign = begun().step(result(Some(8), Some(1)));
    assert_eq!(foreign.stage, PublicationStage::Finished);
    assert!(foreign.error.is_some() && !foreign.rollback_safe);
    let lost = begun()
        .step(result(None, None))
        .step(PublicationEvent::Failed(fault(FaultKind::Other, "cut")));
    assert_eq!(lost.stage, PublicationStage::ReadAgain);
    let undone = lost.step(result(None, None));
    assert_eq!(undone.error.as_ref().map(|e| e.message.as_str()), Some("cut"));
    assert!(undone.rollback_safe);
}

#[test]
fn a_drift_that_does_not_stay_is_left_alone() {
    let flow = ReconcileFlow::begin()
        .step(ReconcileEvent::Observed(true))
        .step(ReconcileEvent::Compared(Some(true)));
    assert_eq!(flow.stage, ReconcileStage::WaitSteady);
    assert_eq!(flow.step(ReconcileEvent::Steady(false)).stage, ReconcileStage::Publish);
    let stopped = ReconcileFlow::begin()
        .step(ReconcileEvent::Observed(true))
        .step(ReconcileEvent::Compared(Some(true)))
        .step(ReconcileEvent::Steady(true))
        .step(ReconcileEvent::Rebased(true))
        .step(ReconcileEvent::Done)
        .step(ReconcileEvent::Done);
    assert_eq!(stopped.error.map(|e| e.kind), Some(FaultKind::Interrupted));
    let changed = ReconcileFlow::begin()
        .step(ReconcileEvent::Observed(false))
        .step(ReconcileEvent::Done)
        .step(ReconcileEvent::Loaded(Some(false)));
    assert_eq!(
        changed.error.map(|e| e.message).as_deref(),
        Some("resolver activation record changed while supervised")
    );
}

#[test]
fn activations_begin_anew_behind_each_rebase() {
    let flow = StabilizeFlow::begin()
        .step(StabilizeEvent::Activation(Some(ActivationPhase::Active)))
        .step(StabilizeEvent::Done)
        .step(StabilizeEvent::Compared(true))
        .step(StabilizeEvent::Done);
    assert_eq!(flow.stage, StabilizeStage::Load);
    assert_eq!(flow.step(StabilizeEvent::Activation(None)).stage, StabilizeStage::Absent);
}

#[test]
fn new_activations_need_leave_and_a_stable_link() {
    let loaded = |allowed| {
        StartupFlow::begin(2, allowed)
            .step(StartupEvent::Done)
            .step(StartupEvent::Done)
            .step(StartupEvent::Activation(None))
    };
    let refused = loaded(false).step(StartupEvent::Stopped(false)).step(StartupEvent::Activation(None));
    assert_eq!(
        refused.error.map(|e| e.message).as_deref(),
        Some("the durable lifecycle phase does not authorize new resolver ownership")
    );
    let made = loaded(true)
        .step(StartupEvent::Done)
        .step(StartupEvent::Stopped(false))
        .step(StartupEvent::Activation(None))
        .step(StartupEvent::Stopped(false));
    assert_eq!(made.stage, StartupStage::Prepare);
    let published = made
        .step(StartupEvent::Done)
        .step(StartupEvent::Activation(Some((ActivationPhase::Active, 2))))
        .step(StartupEvent::Done);
    assert_eq!(published.stage, StartupStage::Publish);
    let undone = published.step(StartupEvent::Unpublished(fault(FaultKind::Other, "x"), true));
    assert_eq!(undone.stage, StartupStage::LoadForRollback);
    let gone = undone.step(StartupEvent::Activation(None));
    assert_eq!(
        gone.error.map(|e| e.message).as_deref(),
        Some("new resolver activation disappeared before rollback")
    );
}

#[test]
fn effects_are_settled_and_reads_are_not() {
    assert_eq!(settle_action(CallKind::Read, WaitEnd::Shutdown), SettleAction::Interrupt);
    assert_eq!(settle_action(CallKind::Effect, WaitEnd::Shutdown), SettleAction::SettleAndStop);
    assert_eq!(settle_action(CallKind::Settled, WaitEnd::Result(true)), SettleAction::Stop);
    assert_eq!(settle_action(CallKind::Effect, WaitEnd::Elapsed), SettleAction::Unknown);
    let stopped = DispatchFlow::begin(true).step(DispatchEvent::Stopped(true));
    assert_eq!(stopped.stage, DispatchStage::Failed);
    assert_eq!(stopped.error.map(|e| e.kind), Some(FaultKind::Interrupted));
    let late = DispatchFlow::begin(false).step(DispatchEvent::Elapsed);
    assert_eq!(late.stage, DispatchStage::TimedOut);
}

#[test]
fn forwarding_never_leads_back_to_the_host() {
    let server = |address, port| DnsServer { address, port, server_name: String::new() };
    let ok = upstreams(&vec![server(IpAddress::V4([192, 0, 2, 53]), 0)]);
    let got = ok.ok().map(|v| (v[0].port, v.len()));
    assert_eq!(got, Some((53, 1)));
    for bad in [IpAddress::V4([127, 0, 0, 1]), IpAddress::V4([224, 0, 0, 1]), IpAddress::V6([0; 8])] {
        assert_eq!(
            upstreams(&vec![server(bad, 53)]).err().map(|e| e.kind),
            Some(FaultKind::Unsupported)
        );
    }
    assert!(upstreams(&vec![]).is_err());
}

#[test]
fn activations_are_stamped_by_the_clock() {
    assert_eq!(timestamp_after(Some(5_000_000_007), None), Ok((5_000_000_007, 5)));
    assert_eq!(timestamp_after(Some(5), Some(9)), Ok((10, 0)));
    assert!(timestamp_after(None, None).is_err());
    assert!(timestamp_after(Some(u128::from(u64::MAX) + 1), None).is_err());
    assert!(timestamp_after(Some(5), Some(u64::MAX)).is_err());
}

#[test]
fn earlier_activations_name_no_manager() {
    assert_eq!(activation_manager(ResolverManagerRecord::Systemd), None);
    assert_eq!(
        activation_manager(ResolverManagerRecord::SystemdNetworkd),
        Some(ResolverLinkManager::SystemdNetworkd)
    );
}
