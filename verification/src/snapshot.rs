//! The state of the host that a lifecycle plan is bound to.

use vstd::prelude::*;
use vstd::string::*;

use crate::bootstrap::{BootstrapResidue, BootstrapResidueView};
use crate::cleanup::{is_empty_residue, option_residue, StateResidue, StateResidueView};
use crate::digest::{option_digest, sha256_digest, sha256_of};
use crate::fault::{conflict, conflict_of, invalid_data, invalid_of, Fault, FaultView};
use crate::labels::{environment, environment_name};
use crate::model::{option_record, same_plan, InstallPhase, InstallRecord, RecordView, ResolverPlanIdentity};
use crate::native::{
    Activation, ActivationPhase, ResolverEnvironment, ResolverLinkManager, ResolverLinkSelectionState,
};
use crate::observation::{PathState, PathStateView};
use crate::order::{dedup, dedup_texts, push_text, sort, sorted, views};
use crate::paths::{sort_paths, PathText};
use crate::publications::{all_publication_paths, publication_paths};
use crate::text::{copy, same};
use crate::units::{all_units, daemon_unit, resolver_unit, unit_names};

verus! {

/// A unit and the state in which the service manager has it.
#[derive(Debug, PartialEq, Eq)]
pub struct ServiceStatus {
    pub unit: String,
    pub state: String,
}

/// A service state over plain values.
pub struct ServiceView {
    pub unit: Seq<char>,
    pub state: Seq<char>,
}

impl View for ServiceStatus {
    type V = ServiceView;

    open spec fn view(&self) -> ServiceView {
        ServiceView { unit: self.unit@, state: self.state@ }
    }
}

/// What the resolver says of one link.
#[derive(Debug, PartialEq, Eq)]
pub struct LinkInspection {
    pub index: u32,
    pub interface_name: String,
    pub manager: ResolverLinkManager,
    pub selection_state: ResolverLinkSelectionState,
}

/// A link inspection over plain values.
pub struct LinkInspectionView {
    pub index: u32,
    pub interface_name: Seq<char>,
    pub manager: ResolverLinkManager,
    pub selection_state: ResolverLinkSelectionState,
}

impl View for LinkInspection {
    type V = LinkInspectionView;

    open spec fn view(&self) -> LinkInspectionView {
        LinkInspectionView {
            index: self.index,
            interface_name: self.interface_name@,
            manager: self.manager,
            selection_state: self.selection_state,
        }
    }
}

pub open spec fn option_link(l: Option<LinkInspection>) -> Option<LinkInspectionView> {
    match l {
        Some(l) => Some(l@),
        None => None,
    }
}

/// A durable activation: its summary, its encoding, and the encoding of the link
/// state that it owns.
#[derive(Debug)]
pub struct ActivationObservation {
    pub summary: Activation,
    pub encoded: Vec<u8>,
    pub owned_link: Vec<u8>,
}

/// What a plan is bound to.
#[derive(Debug)]
pub struct StateSnapshot {
    pub install_record: Option<InstallRecord>,
    pub active_integrity_valid: Option<bool>,
    pub publications: Vec<PathState>,
    pub services: Vec<ServiceStatus>,
    pub resolver_environment: &'static str,
    pub selected_link: Option<LinkInspection>,
    pub effective_link_digest: Option<[u8; 32]>,
    pub activation_state_valid: bool,
    pub activation_record_digest: Option<[u8; 32]>,
    pub activation_phase: Option<ActivationPhase>,
    pub daemon_plan_observed: bool,
    pub daemon_plan_identity: Option<ResolverPlanIdentity>,
    pub daemon_plan_valid: bool,
    pub bootstrap_residues: Vec<BootstrapResidue>,
    pub state_residue: Option<StateResidue>,
}

/// A snapshot over plain values.
pub struct SnapshotView {
    pub install_record: Option<RecordView>,
    pub active_integrity_valid: Option<bool>,
    pub publications: Seq<PathStateView>,
    pub services: Seq<ServiceView>,
    pub resolver_environment: Seq<char>,
    pub selected_link: Option<LinkInspectionView>,
    pub effective_link_digest: Option<Seq<u8>>,
    pub activation_state_valid: bool,
    pub activation_record_digest: Option<Seq<u8>>,
    pub activation_phase: Option<ActivationPhase>,
    pub daemon_plan_observed: bool,
    pub daemon_plan_identity: Option<ResolverPlanIdentity>,
    pub daemon_plan_valid: bool,
    pub bootstrap_residues: Seq<BootstrapResidueView>,
    pub state_residue: Option<StateResidueView>,
}

impl View for StateSnapshot {
    type V = SnapshotView;

    open spec fn view(&self) -> SnapshotView {
        SnapshotView {
            install_record: option_record(self.install_record),
            active_integrity_valid: self.active_integrity_valid,
            publications: views(self.publications@),
            services: views(self.services@),
            resolver_environment: self.resolver_environment@,
            selected_link: option_link(self.selected_link),
            effective_link_digest: option_digest(self.effective_link_digest),
            activation_state_valid: self.activation_state_valid,
            activation_record_digest: option_digest(self.activation_record_digest),
            activation_phase: self.activation_phase,
            daemon_plan_observed: self.daemon_plan_observed,
            daemon_plan_identity: self.daemon_plan_identity,
            daemon_plan_valid: self.daemon_plan_valid,
            bootstrap_residues: views(self.bootstrap_residues@),
            state_residue: option_residue(self.state_residue),
        }
    }
}

/// What a locked preparation looks past, for the preparation itself caused it.
#[derive(Debug, Clone, Copy, PartialEq, Eq, Structural)]
pub struct SnapshotNormalization {
    pub fresh_state_created: bool,
    pub resolver_quiesced: bool,
}

impl SnapshotNormalization {
    /// Nothing to look past.
    pub fn none() -> (r: SnapshotNormalization)
        ensures
            r == (SnapshotNormalization { fresh_state_created: false, resolver_quiesced: false }),
    {
        SnapshotNormalization { fresh_state_created: false, resolver_quiesced: false }
    }
}

pub open spec fn native_failure_of() -> FaultView {
    invalid_of("the native Linux resolver state could not be inspected safely"@)
}

/// The failure under which the resolver's own failures are reported.
pub fn native_failure() -> (r: Fault)
    ensures
        r@ == native_failure_of(),
{
    invalid_data("the native Linux resolver state could not be inspected safely")
}

// ---------------------------------------------------------------------------
// Services
// ---------------------------------------------------------------------------

/// The units in the order in which they are reported.
pub open spec fn service_order() -> Seq<Seq<char>> {
    dedup(sorted::<String>(all_units()))
}

/// The units in the order in which they are reported.
pub fn service_units() -> (r: Vec<String>)
    ensures
        views(r@) == service_order(),
{
    dedup_texts(sort(unit_names()))
}

/// The state of one unit, or why the service manager did not tell it.
#[derive(Debug)]
pub struct ServiceObservation {
    pub unit: String,
    pub state: Result<String, Fault>,
}

/// An observed unit over plain values.
pub struct ServiceObservationView {
    pub unit: Seq<char>,
    pub state: Result<Seq<char>, FaultView>,
}

impl View for ServiceObservation {
    type V = ServiceObservationView;

    open spec fn view(&self) -> ServiceObservationView {
        ServiceObservationView {
            unit: self.unit@,
            state: match self.state {
                Ok(s) => Ok(s@),
                Err(e) => Err(e@),
            },
        }
    }
}

/// The states of the first `n` units, or the first failure.
pub open spec fn observed_services(s: Seq<ServiceObservationView>, n: int) -> Result<
    Seq<ServiceView>,
    FaultView,
>
    decreases n,
{
    if n <= 0 {
        Ok(Seq::empty())
    } else {
        match observed_services(s, n - 1) {
            Err(e) => Err(e),
            Ok(before) => match s[n - 1].state {
                Err(e) => Err(e),
                Ok(state) => Ok(before.push(ServiceView { unit: s[n - 1].unit, state })),
            },
        }
    }
}

proof fn lemma_services_fail(s: Seq<ServiceObservationView>, n: int, m: int)
    requires
        0 <= n <= m,
        observed_services(s, n) is Err,
    ensures
        observed_services(s, m) == observed_services(s, n),
    decreases m - n,
{
    if n < m {
        lemma_services_fail(s, n, m - 1);
    }
}

pub open spec fn services_result(r: Result<Vec<ServiceStatus>, Fault>) -> Result<
    Seq<ServiceView>,
    FaultView,
> {
    match r {
        Ok(v) => Ok(views(v@)),
        Err(e) => Err(e@),
    }
}

/// The states of all units.
pub fn service_states(observed: &Vec<ServiceObservation>) -> (r: Result<Vec<ServiceStatus>, Fault>)
    ensures
        services_result(r) == observed_services(views(observed@), observed@.len() as int),
{
    let ghost ov = views(observed@);
    let mut v: Vec<ServiceStatus> = Vec::new();
    let mut i: usize = 0;
    proof {
        assert(views(v@) =~= Seq::<ServiceView>::empty());
    }
    while i < observed.len()
        invariant
            i <= observed@.len(),
            ov == views(observed@),
            observed_services(ov, i as int) == Ok::<Seq<ServiceView>, FaultView>(views(v@)),
        decreases observed@.len() - i,
    {
        proof {
            assert(ov[i as int] == observed@[i as int]@);
        }
        match &observed[i].state {
            Err(e) => {
                proof {
                    lemma_services_fail(ov, i as int + 1, ov.len() as int);
                }
                return Err(crate::fault::hand_on(e));
            },
            Ok(state) => {
                let ghost before = views(v@);
                let status = ServiceStatus {
                    unit: copy(observed[i].unit.as_str()),
                    state: copy(state.as_str()),
                };
                v.push(status);
                proof {
                    assert(views(v@) =~= before.push(status@));
                }
            },
        }
        i += 1;
    }
    Ok(v)
}

/// Where a unit first stands among the first `n` states.
pub open spec fn service_at(s: Seq<ServiceView>, unit: Seq<char>, n: int) -> Option<int>
    decreases n,
{
    if n <= 0 {
        None
    } else {
        match service_at(s, unit, n - 1) {
            Some(i) => Some(i),
            None => if s[n - 1].unit == unit {
                Some(n - 1)
            } else {
                None
            },
        }
    }
}

proof fn lemma_service_at(s: Seq<ServiceView>, unit: Seq<char>, i: int, n: int)
    requires
        0 <= i < n,
        s[i].unit == unit,
        forall|k: int| 0 <= k < i ==> (#[trigger] s[k]).unit != unit,
    ensures
        service_at(s, unit, n) == Some(i),
    decreases n,
{
    if n - 1 > i {
        lemma_service_at(s, unit, i, n - 1);
    } else {
        lemma_no_service(s, unit, i);
    }
}

proof fn lemma_no_service(s: Seq<ServiceView>, unit: Seq<char>, n: int)
    requires
        forall|k: int| 0 <= k < n ==> (#[trigger] s[k]).unit != unit,
    ensures
        service_at(s, unit, n) is None,
    decreases n,
{
    if n > 0 {
        assert(s[n - 1].unit != unit);
        lemma_no_service(s, unit, n - 1);
    }
}

/// The states with the quiesced supervisor reported as it was before it was stopped.
pub open spec fn normalized_services(s: Seq<ServiceView>) -> Result<Seq<ServiceView>, FaultView> {
    match service_at(s, resolver_unit(), s.len() as int) {
        None => Err(invalid_of("the resolver service state is unavailable"@)),
        Some(i) => if s[i].state != "inactive"@ {
            Err(conflict_of("the resolver service changed while acquiring transaction authority"@))
        } else {
            Ok(s.update(i, ServiceView { unit: s[i].unit, state: "active"@ }))
        },
    }
}

fn normalize_services(services: Vec<ServiceStatus>) -> (r: Result<Vec<ServiceStatus>, Fault>)
    ensures
        services_result(r) == normalized_services(views(services@)),
{
    let ghost sv = views(services@);
    let mut kept = services;
    let mut i: usize = 0;
    while i < kept.len()
        invariant
            i <= kept@.len(),
            sv == views(services@),
            sv == views(kept@),
            forall|k: int| 0 <= k < i ==> (#[trigger] sv[k]).unit != resolver_unit(),
        decreases kept@.len() - i,
    {
        proof {
            assert(sv[i as int] == kept@[i as int]@);
        }
        if same(kept[i].unit.as_str(), "remap-resolver.service") {
            proof {
                lemma_service_at(sv, resolver_unit(), i as int, sv.len() as int);
            }
            if !same(kept[i].state.as_str(), "inactive") {
                return Err(
                    conflict("the resolver service changed while acquiring transaction authority"),
                );
            }
            let replacement = ServiceStatus {
                unit: copy(kept[i].unit.as_str()),
                state: copy("active"),
            };
            kept.set(i, replacement);
            proof {
                assert(views(kept@) =~= sv.update(i as int, replacement@));
            }
            return Ok(kept);
        }
        i += 1;
    }
    proof {
        lemma_no_service(sv, resolver_unit(), sv.len() as int);
    }
    Err(invalid_data("the resolver service state is unavailable"))
}

// ---------------------------------------------------------------------------
// The daemon's plan
// ---------------------------------------------------------------------------

/// Whether a unit is among the states as active.
pub open spec fn unit_active(s: Seq<ServiceView>, unit: Seq<char>) -> bool {
    exists|i: int|
        0 <= i < s.len() && (#[trigger] s[i]).unit == unit && s[i].state == "active"@
}

/// Whether the daemon is to be asked for its plan.
pub open spec fn plan_wanted(record: Option<RecordView>, services: Seq<ServiceView>) -> bool {
    record is Some && unit_active(services, daemon_unit())
}

/// Whether the daemon is to be asked for its plan.
pub fn asks_daemon(record: &Option<InstallRecord>, services: &Vec<ServiceStatus>) -> (r: bool)
    ensures
        r == plan_wanted(option_record(*record), views(services@)),
{
    match record {
        None => false,
        Some(_) => is_active(services, "remapd.service"),
    }
}

/// Whether a unit is among the states as active.
pub fn is_active(services: &Vec<ServiceStatus>, unit: &str) -> (r: bool)
    ensures
        r == unit_active(views(services@), unit@),
{
    let ghost sv = views(services@);
    let mut i: usize = 0;
    while i < services.len()
        invariant
            i <= services@.len(),
            sv == views(services@),
            forall|k: int|
                0 <= k < i ==> !((#[trigger] sv[k]).unit == unit@ && sv[k].state == "active"@),
        decreases services@.len() - i,
    {
        proof {
            assert(sv[i as int] == services@[i as int]@);
        }
        if same(services[i].unit.as_str(), unit) && same(services[i].state.as_str(), "active") {
            proof {
                assert(sv[i as int].unit == unit@);
            }
            return true;
        }
        i += 1;
    }
    false
}

/// Whether a plan was learned of, and which.
pub open spec fn observed_plan(
    record: Option<RecordView>,
    services: Seq<ServiceView>,
    answer: Result<Option<ResolverPlanIdentity>, FaultView>,
) -> (bool, Option<ResolverPlanIdentity>) {
    if record is None {
        (true, None)
    } else if !unit_active(services, daemon_unit()) {
        (false, None)
    } else {
        match answer {
            Ok(plan) => (true, plan),
            Err(_) => (false, None),
        }
    }
}

/// What the daemon's answer says of its plan.
pub fn observe_daemon_plan(
    record: &Option<InstallRecord>,
    services: &Vec<ServiceStatus>,
    answer: &Result<Option<ResolverPlanIdentity>, Fault>,
) -> (r: (bool, Option<ResolverPlanIdentity>))
    ensures
        r == observed_plan(
            option_record(*record),
            views(services@),
            crate::files::result_view(*answer),
        ),
{
    match record {
        None => (true, None),
        Some(_) => {
            if !is_active(services, "remapd.service") {
                return (false, None);
            }
            match answer {
                Ok(plan) => (true, *plan),
                Err(_) => (false, None),
            }
        },
    }
}

/// The plan that an activation calls for.
pub open spec fn activation_plan(activation: Option<Activation>) -> Option<ResolverPlanIdentity> {
    match activation {
        Some(a) => Some(
            ResolverPlanIdentity { activation_id: a.activation_id, generation: a.generation },
        ),
        None => None,
    }
}

/// Whether the daemon serves what the activation of an active installation calls for.
pub open spec fn plan_matches(
    record: Option<RecordView>,
    activation: Option<Activation>,
    observed: bool,
    plan: Option<ResolverPlanIdentity>,
) -> bool {
    match record {
        None => true,
        Some(r) => r.phase != InstallPhase::Active || (observed && plan == activation_plan(
            activation,
        )),
    }
}

/// The plan that an activation calls for.
pub fn expected_plan(activation: &Option<Activation>) -> (r: Option<ResolverPlanIdentity>)
    ensures
        r == activation_plan(*activation),
{
    match activation {
        Some(a) => Some(
            ResolverPlanIdentity { activation_id: a.activation_id, generation: a.generation },
        ),
        None => None,
    }
}

/// Whether the daemon serves what the activation of an active installation calls for.
pub fn daemon_plan_matches_activation(
    record: &Option<InstallRecord>,
    activation: &Option<Activation>,
    observed: bool,
    plan: &Option<ResolverPlanIdentity>,
) -> (r: bool)
    ensures
        r == plan_matches(option_record(*record), *activation, observed, *plan),
{
    match record {
        None => true,
        Some(record) => {
            if record.phase != InstallPhase::Active {
                return true;
            }
            observed && same_plan(plan, &expected_plan(activation))
        },
    }
}

// ---------------------------------------------------------------------------
// Publications
// ---------------------------------------------------------------------------

/// The paths that a snapshot records.
pub open spec fn snapshot_paths(record: Option<RecordView>) -> Seq<Seq<char>> {
    let paths = match record {
        None => all_publication_paths(),
        Some(r) => all_publication_paths() + Seq::new(
            r.current.public_directories.len(),
            |i: int| r.current.public_directories[i].path,
        ),
    };
    dedup(sorted::<PathText>(paths))
}

/// The paths that a snapshot records.
pub fn snapshot_publication_paths(record: &Option<InstallRecord>) -> (r: Vec<String>)
    ensures
        views(r@) == snapshot_paths(option_record(*record)),
{
    let mut paths = publication_paths();
    if let Some(record) = record {
        let ghost all = Seq::new(
            record@.current.public_directories.len(),
            |i: int| record@.current.public_directories[i].path,
        );
        let directories = &record.current.public_directories;
        let mut i: usize = 0;
        proof {
            assert(all.subrange(0, 0) =~= Seq::<Seq<char>>::empty());
            assert(views(paths@) =~= all_publication_paths() + all.subrange(0, 0));
        }
        while i < directories.len()
            invariant
                i <= directories@.len(),
                *directories == record.current.public_directories,
                all == Seq::new(
                    record@.current.public_directories.len(),
                    |i: int| record@.current.public_directories[i].path,
                ),
                views(paths@) == all_publication_paths() + all.subrange(0, i as int),
            decreases directories@.len() - i,
        {
            let ghost before = views(paths@);
            push_text(&mut paths, copy(directories[i].path.as_str()));
            proof {
                assert(all[i as int] == directories@[i as int].path@);
                assert(all.subrange(0, i as int + 1) =~= all.subrange(0, i as int).push(
                    all[i as int],
                ));
                assert(views(paths@) =~= all_publication_paths() + all.subrange(0, i as int + 1));
            }
            i += 1;
        }
        proof {
            assert(all.subrange(0, i as int) =~= all);
        }
    }
    dedup_texts(sort_paths(paths))
}

/// What was recorded of one path, or why it was not.
#[derive(Debug)]
pub struct PathRecord {
    pub result: Result<PathState, Fault>,
}

impl View for PathRecord {
    type V = Result<PathStateView, FaultView>;

    open spec fn view(&self) -> Result<PathStateView, FaultView> {
        match self.result {
            Ok(s) => Ok(s@),
            Err(e) => Err(e@),
        }
    }
}

/// The first `n` recorded paths, or the first failure.
pub open spec fn recorded_paths(s: Seq<Result<PathStateView, FaultView>>, n: int) -> Result<
    Seq<PathStateView>,
    FaultView,
>
    decreases n,
{
    if n <= 0 {
        Ok(Seq::empty())
    } else {
        match recorded_paths(s, n - 1) {
            Err(e) => Err(e),
            Ok(before) => match s[n - 1] {
                Err(e) => Err(e),
                Ok(state) => Ok(before.push(state)),
            },
        }
    }
}

proof fn lemma_paths_fail(s: Seq<Result<PathStateView, FaultView>>, n: int, m: int)
    requires
        0 <= n <= m,
        recorded_paths(s, n) is Err,
    ensures
        recorded_paths(s, m) == recorded_paths(s, n),
    decreases m - n,
{
    if n < m {
        lemma_paths_fail(s, n, m - 1);
    }
}

fn collect_paths(records: Vec<PathRecord>) -> (r: Result<Vec<PathState>, Fault>)
    ensures
        match r {
            Ok(v) => recorded_paths(views(records@), records@.len() as int) == Ok::<
                Seq<PathStateView>,
                FaultView,
            >(views(v@)),
            Err(e) => recorded_paths(views(records@), records@.len() as int) == Err::<
                Seq<PathStateView>,
                FaultView,
            >(e@),
        },
{
    let ghost rv = views(records@);
    let mut rest = records;
    let mut back: Vec<PathRecord> = Vec::new();
    // Taken from the back first, so that each is then moved out in order.
    while rest.len() > 0
        invariant
            rv.len() == rest@.len() + back@.len(),
            rv == views(records@),
            forall|k: int| 0 <= k < rest@.len() ==> (#[trigger] rest@[k])@ == rv[k],
            forall|k: int|
                0 <= k < back@.len() ==> (#[trigger] back@[k])@ == rv[rv.len() - 1 - k],
        decreases rest@.len(),
    {
        let ghost n = rest@.len();
        match rest.pop() {
            Some(x) => {
                proof {
                    assert(x@ == rv[n - 1]);
                }
                back.push(x);
            },
            None => {},
        }
    }
    let mut v: Vec<PathState> = Vec::new();
    proof {
        assert(views(v@) =~= Seq::<PathStateView>::empty());
    }
    while back.len() > 0
        invariant
            back@.len() <= rv.len(),
            rv == views(records@),
            forall|k: int|
                0 <= k < back@.len() ==> (#[trigger] back@[k])@ == rv[rv.len() - 1 - k],
            recorded_paths(rv, rv.len() - back@.len()) == Ok::<Seq<PathStateView>, FaultView>(
                views(v@),
            ),
        decreases back@.len(),
    {
        let ghost i = rv.len() - back@.len();
        match back.pop() {
            Some(x) => {
                proof {
                    assert(x@ == rv[i]);
                }
                match x.result {
                    Err(e) => {
                        proof {
                            lemma_paths_fail(rv, i + 1, rv.len() as int);
                        }
                        return Err(e);
                    },
                    Ok(state) => {
                        let ghost before = views(v@);
                        v.push(state);
                        proof {
                            assert(views(v@) =~= before.push(state@));
                        }
                    },
                }
            },
            None => {},
        }
    }
    Ok(v)
}

// ---------------------------------------------------------------------------
// The snapshot
// ---------------------------------------------------------------------------

/// What was observed of the host. The links were looked at where one is
/// selected; the daemon's answer counts where it was to be asked, and the
/// integrity where the installation is active.
#[derive(Debug)]
pub struct SnapshotInputs {
    pub services: Vec<ServiceObservation>,
    pub selected_link: Option<Result<LinkInspection, Fault>>,
    pub effective_link: Option<Result<Vec<u8>, Fault>>,
    pub activation: Result<Option<ActivationObservation>, Fault>,
    pub publications: Vec<PathRecord>,
    pub bootstrap_residues: Result<Vec<BootstrapResidue>, Fault>,
    pub state_residue: Result<Option<StateResidue>, Fault>,
    pub daemon_plan: Result<Option<ResolverPlanIdentity>, Fault>,
    pub integrity: Result<(), Fault>,
    pub environment: ResolverEnvironment,
}

/// The states that count after normalization.
pub open spec fn counted_services(
    observed: Seq<ServiceObservationView>,
    normalization: SnapshotNormalization,
) -> Result<Seq<ServiceView>, FaultView> {
    match observed_services(observed, observed.len() as int) {
        Err(e) => Err(e),
        Ok(s) => if normalization.resolver_quiesced {
            normalized_services(s)
        } else {
            Ok(s)
        },
    }
}

/// The residue that counts after normalization.
pub open spec fn counted_residue(
    residue: Option<StateResidueView>,
    normalization: SnapshotNormalization,
) -> Option<StateResidueView> {
    match residue {
        Some(r) => if normalization.fresh_state_created && is_empty_residue(r) {
            None
        } else {
            Some(r)
        },
        None => None,
    }
}

pub open spec fn summary_of(a: Option<ActivationObservation>) -> Option<Activation> {
    match a {
        Some(a) => Some(a.summary),
        None => None,
    }
}

/// The failure of the first observation that failed, in the order in which they count.
pub open spec fn snapshot_fault(normalization: SnapshotNormalization, i: SnapshotInputs) -> Option<
    FaultView,
> {
    match counted_services(views(i.services@), normalization) {
        Err(e) => Some(e),
        Ok(_) => if i.selected_link matches Some(Err(_)) {
            Some(native_failure_of())
        } else if i.effective_link matches Some(Err(_)) {
            Some(native_failure_of())
        } else if i.activation is Err {
            Some(native_failure_of())
        } else {
            match recorded_paths(views(i.publications@), i.publications@.len() as int) {
                Err(e) => Some(e),
                Ok(_) => match i.bootstrap_residues {
                    Err(e) => Some(e@),
                    Ok(_) => match i.state_residue {
                        Err(e) => Some(e@),
                        Ok(_) => None,
                    },
                },
            }
        },
    }
}

/// The snapshot that observations make up, where none of them failed.
pub open spec fn snapshot_of(
    record: Option<RecordView>,
    normalization: SnapshotNormalization,
    i: SnapshotInputs,
) -> SnapshotView {
    let services = counted_services(views(i.services@), normalization)->Ok_0;
    let activation = i.activation->Ok_0;
    let plan = observed_plan(record, services, crate::files::result_view(i.daemon_plan));
    SnapshotView {
        install_record: record,
        active_integrity_valid: match record {
            Some(r) => if r.phase == InstallPhase::Active {
                Some(i.integrity is Ok)
            } else {
                None
            },
            None => None,
        },
        publications: recorded_paths(views(i.publications@), i.publications@.len() as int)->Ok_0,
        services,
        resolver_environment: environment_name(i.environment),
        selected_link: match i.selected_link {
            Some(Ok(l)) => Some(l@),
            _ => None,
        },
        effective_link_digest: match i.effective_link {
            Some(Ok(b)) => Some(sha256_of(b@)),
            _ => None,
        },
        activation_state_valid: match activation {
            None => true,
            Some(a) => i.effective_link matches Some(Ok(b)) && b@ == a.owned_link@,
        },
        activation_record_digest: match activation {
            Some(a) => Some(sha256_of(a.encoded@)),
            None => None,
        },
        activation_phase: match activation {
            Some(a) => Some(a.summary.phase),
            None => None,
        },
        daemon_plan_observed: plan.0,
        daemon_plan_identity: plan.1,
        daemon_plan_valid: plan_matches(record, summary_of(activation), plan.0, plan.1),
        bootstrap_residues: views(i.bootstrap_residues->Ok_0@),
        state_residue: counted_residue(option_residue(i.state_residue->Ok_0), normalization),
    }
}

fn same_bytes(a: &[u8], b: &[u8]) -> (r: bool)
    ensures
        r == (a@ == b@),
{
    let count: usize = a.len();
    if count != b.len() {
        return false;
    }
    let mut i: usize = 0;
    while i < count
        invariant
            i <= count,
            count == a@.len(),
            a@.len() == b@.len(),
            forall|k: int| 0 <= k < i ==> a@[k] == b@[k],
        decreases count - i,
    {
        if a[i] != b[i] {
            return false;
        }
        i += 1;
    }
    proof {
        assert(a@ =~= b@);
    }
    true
}

/// Binds the observations of the host to one snapshot.
pub fn snapshot(
    record: Option<InstallRecord>,
    normalization: SnapshotNormalization,
    inputs: SnapshotInputs,
) -> (r: Result<StateSnapshot, Fault>)
    ensures
        match r {
            Ok(s) => snapshot_fault(normalization, inputs) is None && s@ == snapshot_of(
                option_record(record),
                normalization,
                inputs,
            ),
            Err(e) => snapshot_fault(normalization, inputs) == Some(e@),
        },
{
    let ghost all = inputs;
    proof {
        assert(views(inputs.services@).len() == inputs.services@.len());
        assert(views(inputs.publications@).len() == inputs.publications@.len());
    }
    let observed = match service_states(&inputs.services) {
        Err(e) => {
            return Err(e);
        },
        Ok(services) => services,
    };
    let services = if normalization.resolver_quiesced {
        match normalize_services(observed) {
            Err(e) => {
                return Err(e);
            },
            Ok(services) => services,
        }
    } else {
        observed
    };
    let selected_link = match inputs.selected_link {
        Some(Err(_)) => {
            return Err(native_failure());
        },
        Some(Ok(link)) => Some(link),
        None => None,
    };
    let effective = match inputs.effective_link {
        Some(Err(_)) => {
            return Err(native_failure());
        },
        Some(Ok(bytes)) => Some(bytes),
        None => None,
    };
    let activation = match inputs.activation {
        Err(_) => {
            return Err(native_failure());
        },
        Ok(activation) => activation,
    };
    let publications = match collect_paths(inputs.publications) {
        Err(e) => {
            return Err(e);
        },
        Ok(publications) => publications,
    };
    let bootstrap_residues = match inputs.bootstrap_residues {
        Err(e) => {
            return Err(e);
        },
        Ok(residues) => residues,
    };
    let found = match inputs.state_residue {
        Err(e) => {
            return Err(e);
        },
        Ok(residue) => residue,
    };
    let state_residue = match found {
        Some(residue) => if normalization.fresh_state_created && residue.is_empty_directory() {
            None
        } else {
            Some(residue)
        },
        None => None,
    };
    let (daemon_plan_observed, daemon_plan_identity) = observe_daemon_plan(
        &record,
        &services,
        &inputs.daemon_plan,
    );
    let summary = match &activation {
        Some(a) => Some(a.summary),
        None => None,
    };
    let daemon_plan_valid = daemon_plan_matches_activation(
        &record,
        &summary,
        daemon_plan_observed,
        &daemon_plan_identity,
    );
    let active_integrity_valid = match &record {
        Some(value) => if value.phase == InstallPhase::Active {
            Some(
                match inputs.integrity {
                    Ok(_) => true,
                    Err(_) => false,
                },
            )
        } else {
            None
        },
        None => None,
    };
    let effective_link_digest = match &effective {
        Some(bytes) => Some(sha256_digest(bytes.as_slice())),
        None => None,
    };
    let activation_state_valid = match &activation {
        None => true,
        Some(a) => match &effective {
            Some(bytes) => same_bytes(bytes.as_slice(), a.owned_link.as_slice()),
            None => false,
        },
    };
    let activation_record_digest = match &activation {
        Some(a) => Some(sha256_digest(a.encoded.as_slice())),
        None => None,
    };
    let activation_phase = match &activation {
        Some(a) => Some(a.summary.phase),
        None => None,
    };
    Ok(
        StateSnapshot {
            install_record: record,
            active_integrity_valid,
            publications,
            services,
            resolver_environment: environment(inputs.environment),
            selected_link,
            effective_link_digest,
            activation_state_valid,
            activation_record_digest,
            activation_phase,
            daemon_plan_observed,
            daemon_plan_identity,
            daemon_plan_valid,
            bootstrap_residues,
            state_residue,
        },
    )
}

proof fn lemma_service_found(s: Seq<ServiceView>, unit: Seq<char>, n: int)
    requires
        0 <= n <= s.len(),
    ensures
        service_at(s, unit, n) matches Some(i) ==> 0 <= i < n && s[i].unit == unit,
        service_at(s, unit, n) is None ==> forall|k: int| 0 <= k < n ==> (#[trigger] s[k]).unit
            != unit,
    decreases n,
{
    if n > 0 {
        lemma_service_found(s, unit, n - 1);
        if service_at(s, unit, n) is None {
            assert forall|k: int| 0 <= k < n implies (#[trigger] s[k]).unit != unit by {
                if k < n - 1 {
                    assert(s[k].unit != unit);
                }
            }
        }
    }
}

/// A preparation behind the locks looks past what its own run changed and nothing
/// else: the supervisor that it stopped, and has to find stopped, counts as active,
/// and an empty state directory that it made counts as none.
pub proof fn law_normalization_hides_only_the_own_run(
    observed: Seq<ServiceObservationView>,
    residue: Option<StateResidueView>,
    n: SnapshotNormalization,
)
    ensures
        !n.resolver_quiesced ==> counted_services(observed, n) == observed_services(
            observed,
            observed.len() as int,
        ),
        counted_services(observed, n) is Ok && n.resolver_quiesced ==> {
            let s = observed_services(observed, observed.len() as int)->Ok_0;
            let t = counted_services(observed, n)->Ok_0;
            &&& t.len() == s.len()
            &&& exists|i: int|
                0 <= i < s.len() && s[i].unit == "remap-resolver.service"@ && s[i].state
                    == "inactive"@ && t[i].unit == s[i].unit && (#[trigger] t[i]).state == "active"@
                    && forall|k: int| 0 <= k < s.len() && k != i ==> t[k] == (#[trigger] s[k])
        },
        counted_residue(residue, n) != residue ==> n.fresh_state_created && residue is Some
            && is_empty_residue(residue->0) && counted_residue(residue, n) is None,
        !n.fresh_state_created ==> counted_residue(residue, n) == residue,
{
    if n.resolver_quiesced && counted_services(observed, n) is Ok {
        let s = observed_services(observed, observed.len() as int)->Ok_0;
        lemma_service_found(s, resolver_unit(), s.len() as int);
        let i = service_at(s, resolver_unit(), s.len() as int)->0;
        let t = counted_services(observed, n)->Ok_0;
        assert(t == s.update(i, ServiceView { unit: s[i].unit, state: "active"@ }));
        assert(t[i].state == "active"@);
    }
}

/// The plan that the daemon serves is what it answered, where there is a record and
/// the daemon is active; it is the right one where it is that of the activation, and
/// only an active installation is held to that.
pub proof fn law_daemon_plans_are_what_was_answered(
    record: Option<RecordView>,
    services: Seq<ServiceView>,
    answer: Result<Option<ResolverPlanIdentity>, FaultView>,
    activation: Option<Activation>,
)
    ensures
        ({
            let (observed, plan) = observed_plan(record, services, answer);
            let running = exists|i: int|
                0 <= i < services.len() && (#[trigger] services[i]).unit == "remapd.service"@
                    && services[i].state == "active"@;
            &&& observed <==> record is None || (running && answer is Ok)
            &&& plan is Some ==> record is Some && running && answer == Ok::<
                Option<ResolverPlanIdentity>,
                FaultView,
            >(plan)
            &&& record is Some && running && answer is Ok ==> plan == answer->Ok_0
            &&& !plan_matches(record, activation, observed, plan) <==> record is Some
                && record->0.phase is Active && !(observed && match activation {
                Some(a) => plan is Some && plan->0.activation_id == a.activation_id
                    && plan->0.generation == a.generation,
                None => plan is None,
            })
        }),
{
}

} // verus!
