//! The status of an installation.

use vstd::prelude::*;
use vstd::string::*;

use crate::bootstrap::BootstrapResidue;
use crate::cleanup::{option_residue, StateResidue, StateResidueView};
use crate::digest::{identity_text, uuid_text};
use crate::fault::{hand_on, Fault, FaultKind, FaultView};
use crate::files::{result_view, LinkObservation, Metadata};
use crate::labels::{
    environment, environment_name, manager, manager_name, selection_name, selection_state,
};
use crate::model::{
    option_record, option_text, Generation, GenerationView, InstallPhase, InstallRecord, RecordView,
    ResolverPlanIdentity,
};
use crate::native::{Activation, ResolverEnvironment};
use crate::observation::Distribution;
use crate::order::views;
use crate::recovery::{
    any_unit_known, blocked_without_activation, missing_activation_blocks, some_unit_known,
    status_needs_recovery, status_required,
};
use crate::snapshot::{
    daemon_plan_matches_activation, native_failure, native_failure_of, observe_daemon_plan,
    observed_plan, observed_services, plan_matches, service_states, LinkInspection,
    LinkInspectionView, ServiceObservation, ServiceStatus, ServiceView,
};
use crate::text::{copy, same};
use crate::units::{generation_path, leads_to, verify_current_link, PathProbe};

verus! {

// ---------------------------------------------------------------------------
// Links
// ---------------------------------------------------------------------------

/// A link that could be selected.
#[derive(Debug, PartialEq, Eq)]
pub struct LinkCandidate {
    pub link_index: u32,
    pub interface_name: String,
    pub backend: String,
    pub selection_state: String,
}

/// A candidate over plain values.
pub struct CandidateView {
    pub link_index: u32,
    pub interface_name: Seq<char>,
    pub backend: Seq<char>,
    pub selection_state: Seq<char>,
}

impl View for LinkCandidate {
    type V = CandidateView;

    open spec fn view(&self) -> CandidateView {
        CandidateView {
            link_index: self.link_index,
            interface_name: self.interface_name@,
            backend: self.backend@,
            selection_state: self.selection_state@,
        }
    }
}

/// A link as it is offered.
pub open spec fn candidate_of(l: LinkInspectionView) -> CandidateView {
    CandidateView {
        link_index: l.index,
        interface_name: l.interface_name,
        backend: manager_name(l.manager),
        selection_state: selection_name(l.selection_state),
    }
}

/// A link as it is offered.
pub fn candidate(l: &LinkInspection) -> (r: LinkCandidate)
    ensures
        r@ == candidate_of(l@),
{
    LinkCandidate {
        link_index: l.index,
        interface_name: copy(l.interface_name.as_str()),
        backend: copy(manager(l.manager)),
        selection_state: copy(selection_state(l.selection_state)),
    }
}

pub open spec fn candidates_of(s: Seq<LinkInspectionView>) -> Seq<CandidateView> {
    Seq::new(s.len(), |i: int| candidate_of(s[i]))
}

fn candidates(links: &Vec<LinkInspection>) -> (r: Vec<LinkCandidate>)
    ensures
        views(r@) == candidates_of(views(links@)),
{
    let mut r: Vec<LinkCandidate> = Vec::new();
    let mut i: usize = 0;
    while i < links.len()
        invariant
            i <= links@.len(),
            r@.len() == i,
            forall|k: int| 0 <= k < i ==> (#[trigger] r@[k])@ == candidate_of(links@[k]@),
        decreases links@.len() - i,
    {
        r.push(candidate(&links[i]));
        i += 1;
    }
    proof {
        assert(views(r@) =~= candidates_of(views(links@)));
    }
    r
}

/// How many of the first `n` candidates are primary and supported.
pub open spec fn primaries(s: Seq<CandidateView>, n: int) -> nat
    decreases n,
{
    if n <= 0 {
        0
    } else if s[n - 1].selection_state == "supported_primary"@ {
        primaries(s, n - 1) + 1
    } else {
        primaries(s, n - 1)
    }
}

/// What to do about the selection of a link.
pub open spec fn selection_hint(selected: bool, recovery: bool, s: Seq<CandidateView>) -> Option<
    Seq<char>,
> {
    let count = primaries(s, s.len() as int);
    if selected || recovery {
        None
    } else if count == 0 {
        Some(
            "no supported primary interface is available; inspect link candidates and resolver ownership"@,
        )
    } else if count == 1 {
        Some("the only supported primary interface will be selected automatically"@)
    } else {
        Some("select one supported primary interface with REMAP_LINUX_LINK=<index> make install"@)
    }
}

pub open spec fn option_str(s: Option<&'static str>) -> Option<Seq<char>> {
    match s {
        Some(s) => Some(s@),
        None => None,
    }
}

/// What to do about the selection of a link.
pub fn link_selection_hint(
    selected: bool,
    recovery_required: bool,
    candidates: &Vec<LinkCandidate>,
) -> (r: Option<&'static str>)
    ensures
        option_str(r) == selection_hint(selected, recovery_required, views(candidates@)),
{
    if selected || recovery_required {
        return None;
    }
    let ghost cv = views(candidates@);
    let mut count: usize = 0;
    let mut i: usize = 0;
    while i < candidates.len()
        invariant
            i <= candidates@.len(),
            cv == views(candidates@),
            count == primaries(cv, i as int),
            count <= i,
        decreases candidates@.len() - i,
    {
        proof {
            assert(cv[i as int] == candidates@[i as int]@);
        }
        if same(candidates[i].selection_state.as_str(), "supported_primary") {
            count += 1;
        }
        i += 1;
    }
    if count == 0 {
        Some(
            "no supported primary interface is available; inspect link candidates and resolver ownership",
        )
    } else if count == 1 {
        Some("the only supported primary interface will be selected automatically")
    } else {
        Some("select one supported primary interface with REMAP_LINUX_LINK=<index> make install")
    }
}

/// The link that a status is about.
pub open spec fn link_in_question(
    explicit: Option<u32>,
    record: Option<RecordView>,
    activation: Option<Activation>,
) -> Option<u32> {
    if explicit is Some {
        explicit
    } else if record is Some && record->0.current.link != 0 {
        Some(record->0.current.link)
    } else {
        match activation {
            Some(a) => Some(a.link),
            None => None,
        }
    }
}

/// The link that a status is about: the one that was asked for, else the
/// installed one, else the one of a resolver transaction.
pub fn selected_link(
    explicit: Option<u32>,
    record: &Option<InstallRecord>,
    activation: &Option<Activation>,
) -> (r: Option<u32>)
    ensures
        r == link_in_question(explicit, option_record(*record), *activation),
{
    if let Some(link) = explicit {
        return Some(link);
    }
    if let Some(record) = record {
        if record.current.link != 0 {
            return Some(record.current.link);
        }
    }
    match activation {
        Some(a) => Some(a.link),
        None => None,
    }
}

// ---------------------------------------------------------------------------
// The need for recovery
// ---------------------------------------------------------------------------

/// Whether anything stands at one of the first `n` paths, or why that is not known.
pub open spec fn occupied(s: Seq<Result<Metadata, FaultView>>, n: int) -> Result<bool, FaultView>
    decreases n,
{
    if n <= 0 {
        Ok(false)
    } else {
        match occupied(s, n - 1) {
            Err(e) => Err(e),
            Ok(true) => Ok(true),
            Ok(false) => match s[n - 1] {
                Ok(_) => Ok(true),
                Err(e) => if e.kind == FaultKind::NotFound {
                    Ok(false)
                } else {
                    Err(e)
                },
            },
        }
    }
}

proof fn lemma_occupied(s: Seq<Result<Metadata, FaultView>>, n: int, m: int)
    requires
        0 <= n <= m,
        occupied(s, n) != Ok::<bool, FaultView>(false),
    ensures
        occupied(s, m) == occupied(s, n),
    decreases m - n,
{
    if n < m {
        lemma_occupied(s, n, m - 1);
    }
}

/// Whether anything stands at one of the published paths.
pub fn publication_namespace_occupied(observed: &Vec<PathProbe>) -> (r: Result<bool, Fault>)
    ensures
        result_view(r) == occupied(views(observed@), observed@.len() as int),
{
    let ghost ov = views(observed@);
    let mut i: usize = 0;
    while i < observed.len()
        invariant
            i <= observed@.len(),
            ov == views(observed@),
            occupied(ov, i as int) == Ok::<bool, FaultView>(false),
        decreases observed@.len() - i,
    {
        proof {
            assert(ov[i as int] == observed@[i as int]@);
        }
        match &observed[i].result {
            Ok(_) => {
                proof {
                    lemma_occupied(ov, i as int + 1, ov.len() as int);
                }
                return Ok(true);
            },
            Err(e) => {
                if e.kind != FaultKind::NotFound {
                    proof {
                        lemma_occupied(ov, i as int + 1, ov.len() as int);
                    }
                    return Err(hand_on(e));
                }
            },
        }
        i += 1;
    }
    Ok(false)
}

/// Whether recovery is needed, and what to do about it.
pub open spec fn status_class(integrity_invalid: bool, other_required: bool, blocked: bool) -> (
    bool,
    Option<Seq<char>>,
) {
    (
        integrity_invalid || other_required,
        if integrity_invalid {
            Some(
                "run make recover to inspect the exact blocked integrity invariant without mutation"@,
            )
        } else if blocked {
            Some("inspect the blocked Linux ownership state before attempting lifecycle changes"@)
        } else if other_required {
            Some("run make recover to preview and approve exact recovery effects"@)
        } else {
            None
        },
    )
}

/// Whether recovery is needed, and what to do about it.
pub fn classify_status_observation(
    active_integrity_invalid: bool,
    other_recovery_required: bool,
    other_blocked: bool,
) -> (r: (bool, Option<&'static str>))
    ensures
        (r.0, option_str(r.1)) == status_class(
            active_integrity_invalid,
            other_recovery_required,
            other_blocked,
        ),
{
    let required = active_integrity_invalid || other_recovery_required;
    let hint = if active_integrity_invalid {
        Some("run make recover to inspect the exact blocked integrity invariant without mutation")
    } else if other_blocked {
        Some("inspect the blocked Linux ownership state before attempting lifecycle changes")
    } else if required {
        Some("run make recover to preview and approve exact recovery effects")
    } else {
        None
    };
    (required, hint)
}

/// What was observed of the host. The candidates count where no link is in
/// question, the published paths where nothing is installed, the integrity
/// where the installation is active, and whether the link is still in the state
/// that the activation owns where there is an activation.
#[derive(Debug)]
pub struct StatusInputs {
    pub record: Option<InstallRecord>,
    pub activation: Option<Activation>,
    pub selected: Option<u32>,
    pub inspection: Option<Result<LinkInspection, Fault>>,
    pub candidates: Result<Vec<LinkInspection>, Fault>,
    pub services: Vec<ServiceObservation>,
    pub daemon_plan: Result<Option<ResolverPlanIdentity>, Fault>,
    pub bootstrap_residues: Result<Vec<BootstrapResidue>, Fault>,
    pub state_residue: Result<Option<StateResidue>, Fault>,
    pub publications: Vec<PathProbe>,
    pub integrity: Result<(), Fault>,
    pub activation_link_owned: Result<bool, Fault>,
    pub current_link: LinkObservation,
    pub distribution: Result<Distribution, Fault>,
    pub environment: ResolverEnvironment,
}

/// Whether published paths are occupied that no record owns.
pub open spec fn publications_left(i: StatusInputs) -> Result<bool, FaultView> {
    if i.record is None {
        occupied(views(i.publications@), i.publications@.len() as int)
    } else {
        Ok(false)
    }
}

/// Whether the link left the state that the activation owns.
pub open spec fn activation_lost(i: StatusInputs) -> Result<bool, FaultView> {
    if i.activation is None {
        Ok(false)
    } else {
        match i.activation_link_owned {
            Ok(owned) => Ok(!owned),
            Err(_) => Err(native_failure_of()),
        }
    }
}

/// Whether recovery is needed, and what to do about it, or why that is not known.
pub open spec fn classified(
    i: StatusInputs,
    services: Seq<ServiceView>,
    plan_valid: bool,
) -> Result<(bool, Option<Seq<char>>), FaultView> {
    let record = option_record(i.record);
    match publications_left(i) {
        Err(e) => Err(e),
        Ok(left) => match activation_lost(i) {
            Err(e) => Err(e),
            Ok(lost) => Ok(
                status_class(
                    record is Some && record->0.phase == InstallPhase::Active && i.integrity is Err,
                    status_needs_recovery(
                        record,
                        i.activation,
                        services,
                        i.bootstrap_residues->Ok_0@.len() > 0,
                        i.state_residue->Ok_0 is Some,
                    ) || left || lost || !plan_valid,
                    left || (record is None && some_unit_known(services)) || (record is Some
                        && blocked_without_activation(record->0, i.activation is Some)) || (record
                        is None && i.activation is Some),
                ),
            ),
        },
    }
}

/// What the observations say of the need for recovery.
fn classify_status(
    inputs: &StatusInputs,
    services: &Vec<ServiceStatus>,
    bootstrap_residues: &Vec<BootstrapResidue>,
    state_residue: &Option<StateResidue>,
    daemon_plan_valid: bool,
) -> (r: Result<(bool, Option<&'static str>), Fault>)
    requires
        inputs.bootstrap_residues == Ok::<Vec<BootstrapResidue>, Fault>(*bootstrap_residues),
        inputs.state_residue == Ok::<Option<StateResidue>, Fault>(*state_residue),
    ensures
        match r {
            Ok(v) => classified(*inputs, views(services@), daemon_plan_valid) == Ok::<
                (bool, Option<Seq<char>>),
                FaultView,
            >((v.0, option_str(v.1))),
            Err(e) => classified(*inputs, views(services@), daemon_plan_valid) == Err::<
                (bool, Option<Seq<char>>),
                FaultView,
            >(e@),
        },
{
    let installed = match inputs.record {
        Some(_) => true,
        None => false,
    };
    let activated = match inputs.activation {
        Some(_) => true,
        None => false,
    };
    let left = if installed {
        false
    } else {
        match publication_namespace_occupied(&inputs.publications) {
            Err(e) => {
                return Err(e);
            },
            Ok(left) => left,
        }
    };
    let integrity_invalid = match &inputs.record {
        Some(record) => record.phase == InstallPhase::Active && match inputs.integrity {
            Err(_) => true,
            Ok(_) => false,
        },
        None => false,
    };
    let lost = if activated {
        match &inputs.activation_link_owned {
            Err(_) => {
                return Err(native_failure());
            },
            Ok(owned) => !*owned,
        }
    } else {
        false
    };
    let missing_authority = match &inputs.record {
        Some(record) => missing_activation_blocks(record, activated),
        None => false,
    };
    let orphaned_authority = !installed && activated;
    let unowned_runtime = !installed && any_unit_known(services);
    let other_required = status_required(
        &inputs.record,
        &inputs.activation,
        services,
        bootstrap_residues,
        state_residue,
    ) || left || lost || !daemon_plan_valid;
    Ok(
        classify_status_observation(
            integrity_invalid,
            other_required,
            left || unowned_runtime || missing_authority || orphaned_authority,
        ),
    )
}

// ---------------------------------------------------------------------------
// The report
// ---------------------------------------------------------------------------

/// The generation that is in force: that of a settled record to which the
/// current link leads.
pub open spec fn accepted(record: Option<RecordView>, current_link_exact: bool) -> Option<
    GenerationView,
> {
    match record {
        Some(r) => if current_link_exact && (r.phase is Active || r.phase is Pruning) {
            Some(r.current)
        } else {
            None
        },
        None => None,
    }
}

/// The generation that is in force.
pub fn accepted_generation(record: Option<&InstallRecord>, current_link_exact: bool) -> (r: Option<
    &Generation,
>)
    ensures
        match r {
            Some(g) => accepted(
                match record {
                    Some(v) => Some(v@),
                    None => None,
                },
                current_link_exact,
            ) == Some(g@),
            None => accepted(
                match record {
                    Some(v) => Some(v@),
                    None => None,
                },
                current_link_exact,
            ) is None,
        },
{
    match record {
        Some(value) => match value.phase {
            InstallPhase::Active | InstallPhase::Pruning => if current_link_exact {
                Some(&value.current)
            } else {
                None
            },
            _ => None,
        },
        None => None,
    }
}

/// The status of an installation.
#[derive(Debug)]
pub struct StatusData {
    pub active_generation_id: Option<String>,
    pub previous_generation_id: Option<String>,
    pub link_index: Option<u32>,
    pub owner_uid: Option<u32>,
    pub recovery_required: bool,
    pub installation_state: &'static str,
    pub distribution: Distribution,
    pub resolver_environment: &'static str,
    pub interface_name: Option<String>,
    pub backend: Option<String>,
    pub services: Vec<ServiceStatus>,
    pub link_candidates: Vec<LinkCandidate>,
    pub state_residue: Option<StateResidue>,
    pub hint: Option<&'static str>,
}

/// A status over plain values.
pub struct StatusView {
    pub active_generation_id: Option<Seq<char>>,
    pub previous_generation_id: Option<Seq<char>>,
    pub link_index: Option<u32>,
    pub owner_uid: Option<u32>,
    pub recovery_required: bool,
    pub installation_state: Seq<char>,
    pub distribution: Distribution,
    pub resolver_environment: Seq<char>,
    pub interface_name: Option<Seq<char>>,
    pub backend: Option<Seq<char>>,
    pub services: Seq<ServiceView>,
    pub link_candidates: Seq<CandidateView>,
    pub state_residue: Option<StateResidueView>,
    pub hint: Option<Seq<char>>,
}

impl View for StatusData {
    type V = StatusView;

    open spec fn view(&self) -> StatusView {
        StatusView {
            active_generation_id: option_text(self.active_generation_id),
            previous_generation_id: option_text(self.previous_generation_id),
            link_index: self.link_index,
            owner_uid: self.owner_uid,
            recovery_required: self.recovery_required,
            installation_state: self.installation_state@,
            distribution: self.distribution,
            resolver_environment: self.resolver_environment@,
            interface_name: option_text(self.interface_name),
            backend: option_text(self.backend),
            services: views(self.services@),
            link_candidates: views(self.link_candidates@),
            state_residue: option_residue(self.state_residue),
            hint: option_str(self.hint),
        }
    }
}

/// The state of an installation in a word.
pub open spec fn state_word(record: Option<RecordView>, recovery: bool) -> Seq<char> {
    if recovery {
        "recovery_required"@
    } else {
        match record {
            None => "absent"@,
            Some(r) => if r.phase == InstallPhase::Active {
                "active"@
            } else {
                "recovery_required"@
            },
        }
    }
}

pub open spec fn status_plan(i: StatusInputs) -> (bool, Option<ResolverPlanIdentity>) {
    observed_plan(
        option_record(i.record),
        observed_services(views(i.services@), i.services@.len() as int)->Ok_0,
        result_view(i.daemon_plan),
    )
}

pub open spec fn status_classified(i: StatusInputs) -> Result<
    (bool, Option<Seq<char>>),
    FaultView,
> {
    classified(
        i,
        observed_services(views(i.services@), i.services@.len() as int)->Ok_0,
        plan_matches(option_record(i.record), i.activation, status_plan(i).0, status_plan(i).1),
    )
}

/// Why there is no status: the first observation that failed.
pub open spec fn status_fault(i: StatusInputs) -> Option<FaultView> {
    if i.inspection matches Some(Err(_)) {
        Some(native_failure_of())
    } else if i.selected is None && i.candidates is Err {
        Some(native_failure_of())
    } else {
        match observed_services(views(i.services@), i.services@.len() as int) {
            Err(e) => Some(e),
            Ok(_) => match i.bootstrap_residues {
                Err(e) => Some(e@),
                Ok(_) => match i.state_residue {
                    Err(e) => Some(e@),
                    Ok(_) => match status_classified(i) {
                        Err(e) => Some(e),
                        Ok(_) => match i.distribution {
                            Err(e) => Some(e@),
                            Ok(_) => None,
                        },
                    },
                },
            },
        }
    }
}

/// The status, where every observation succeeded.
pub open spec fn status_of(i: StatusInputs) -> StatusView {
    let record = option_record(i.record);
    let class = status_classified(i)->Ok_0;
    let offered = if i.selected is None {
        candidates_of(views(i.candidates->Ok_0@))
    } else {
        Seq::empty()
    };
    let exact = record is Some && crate::files::installed_link_fault(
        i.current_link@,
        generation_path(record->0.current.id),
    ) is None;
    let in_force = accepted(record, exact);
    StatusView {
        active_generation_id: match in_force {
            Some(g) => Some(uuid_text(g.id)),
            None => None,
        },
        previous_generation_id: match record {
            Some(r) => match r.previous {
                Some(g) => Some(uuid_text(g.id)),
                None => None,
            },
            None => None,
        },
        link_index: i.selected,
        owner_uid: match in_force {
            Some(g) => Some(g.owner_uid),
            None => None,
        },
        recovery_required: class.0,
        installation_state: state_word(record, class.0),
        distribution: i.distribution->Ok_0,
        resolver_environment: environment_name(i.environment),
        interface_name: match i.inspection {
            Some(Ok(l)) => Some(l@.interface_name),
            _ => None,
        },
        backend: match i.inspection {
            Some(Ok(l)) => Some(manager_name(l@.manager)),
            _ => None,
        },
        services: observed_services(views(i.services@), i.services@.len() as int)->Ok_0,
        link_candidates: offered,
        state_residue: option_residue(i.state_residue->Ok_0),
        hint: match class.1 {
            Some(h) => Some(h),
            None => selection_hint(i.selected is Some, class.0, offered),
        },
    }
}

/// The status that observations make up.
pub fn status(inputs: StatusInputs) -> (r: Result<StatusData, Fault>)
    ensures
        match r {
            Ok(s) => status_fault(inputs) is None && s@ == status_of(inputs),
            Err(e) => status_fault(inputs) == Some(e@),
        },
{
    let (interface_name, backend) = match &inputs.inspection {
        Some(Err(_)) => {
            return Err(native_failure());
        },
        Some(Ok(l)) => (Some(copy(l.interface_name.as_str())), Some(copy(manager(l.manager)))),
        None => (None, None),
    };
    let is_selected = match inputs.selected {
        Some(_) => true,
        None => false,
    };
    let mut link_candidates: Vec<LinkCandidate> = Vec::new();
    proof {
        assert(views(link_candidates@) =~= Seq::<CandidateView>::empty());
    }
    if !is_selected {
        match &inputs.candidates {
            Err(_) => {
                return Err(native_failure());
            },
            Ok(links) => {
                link_candidates = candidates(links);
            },
        }
    }
    let services = match service_states(&inputs.services) {
        Err(e) => {
            return Err(e);
        },
        Ok(services) => services,
    };
    proof {
        assert(views(inputs.services@).len() == inputs.services@.len());
    }
    let (observed, plan) = observe_daemon_plan(&inputs.record, &services, &inputs.daemon_plan);
    let plan_valid = daemon_plan_matches_activation(
        &inputs.record,
        &inputs.activation,
        observed,
        &plan,
    );
    let bootstrap = match &inputs.bootstrap_residues {
        Err(e) => {
            return Err(hand_on(e));
        },
        Ok(bootstrap) => bootstrap,
    };
    let residue = match &inputs.state_residue {
        Err(e) => {
            return Err(hand_on(e));
        },
        Ok(residue) => residue,
    };
    let (recovery_required, recovery_hint) = match classify_status(
        &inputs,
        &services,
        bootstrap,
        residue,
        plan_valid,
    ) {
        Err(e) => {
            return Err(e);
        },
        Ok(class) => class,
    };
    let link_hint = link_selection_hint(is_selected, recovery_required, &link_candidates);
    let installation_state = if recovery_required {
        "recovery_required"
    } else {
        match &inputs.record {
            None => "absent",
            Some(record) => if record.phase == InstallPhase::Active {
                "active"
            } else {
                "recovery_required"
            },
        }
    };
    let current_link_exact = match &inputs.record {
        Some(record) => match verify_current_link(&inputs.current_link, record.current.id) {
            Ok(_) => true,
            Err(_) => false,
        },
        None => false,
    };
    let (active_generation_id, owner_uid) = match accepted_generation(
        match &inputs.record {
            Some(record) => Some(record),
            None => None,
        },
        current_link_exact,
    ) {
        Some(g) => (Some(identity_text(g.id)), Some(g.owner_uid)),
        None => (None, None),
    };
    let previous_generation_id = match &inputs.record {
        Some(record) => match &record.previous {
            Some(g) => Some(identity_text(g.id)),
            None => None,
        },
        None => None,
    };
    let state_residue = match residue {
        Some(residue) => Some(residue.duplicate()),
        None => None,
    };
    let resolver_environment = environment(inputs.environment);
    let link_index = inputs.selected;
    let hint = match recovery_hint {
        Some(h) => Some(h),
        None => link_hint,
    };
    let distribution = match inputs.distribution {
        Err(e) => {
            return Err(e);
        },
        Ok(distribution) => distribution,
    };
    Ok(
        StatusData {
            active_generation_id,
            previous_generation_id,
            link_index,
            owner_uid,
            recovery_required,
            installation_state,
            distribution,
            resolver_environment,
            interface_name,
            backend,
            services,
            link_candidates,
            state_residue,
            hint,
        },
    )
}

// ---------------------------------------------------------------------------
// Laws
// ---------------------------------------------------------------------------

/// A status that calls an installation active rests on an active record whose
/// integrity holds and whose daemon serves the plan of its activation.
pub proof fn law_active_status_is_earned(i: StatusInputs)
    requires
        status_fault(i) is None,
        status_of(i).installation_state == "active"@,
    ensures
        i.record is Some,
        i.record->0.phase == InstallPhase::Active,
        i.integrity is Ok,
        i.activation is Some,
        plan_matches(option_record(i.record), i.activation, status_plan(i).0, status_plan(i).1),
{
    reveal_strlit("active");
    reveal_strlit("absent");
    reveal_strlit("recovery_required");
    assert("absent"@[1] == 'b');
    assert("active"@[1] == 'c');
    assert("recovery_required"@[0] == 'r');
    assert("active"@[0] == 'a');
}

/// No generation is reported as active while its record is on the way to
/// another state, or while the current link leads elsewhere.
pub proof fn law_only_settled_generations_are_reported(i: StatusInputs)
    requires
        status_fault(i) is None,
        status_of(i).active_generation_id is Some,
    ensures
        i.record is Some,
        i.record->0.phase is Active || i.record->0.phase is Pruning,
        leads_to(i.current_link@, i.record->0.current.id),
{
}

proof fn lemma_free(s: Seq<Result<Metadata, FaultView>>, n: int)
    requires
        0 <= n <= s.len(),
    ensures
        occupied(s, n) == Ok::<bool, FaultView>(false) <==> forall|i: int|
            0 <= i < n ==> ((#[trigger] s[i]) matches Err(e) && e.kind == FaultKind::NotFound),
        occupied(s, n) == Ok::<bool, FaultView>(true) ==> exists|i: int|
            0 <= i < n && (#[trigger] s[i]) is Ok,
    decreases n,
{
    if n > 0 {
        lemma_free(s, n - 1);
        if occupied(s, n) == Ok::<bool, FaultView>(false) {
            assert forall|i: int| 0 <= i < n implies ((#[trigger] s[i]) matches Err(e) && e.kind
                == FaultKind::NotFound) by {
                if i < n - 1 {
                    assert(s[i] matches Err(e) && e.kind == FaultKind::NotFound);
                }
            }
        }
        if occupied(s, n) == Ok::<bool, FaultView>(true) {
            if occupied(s, n - 1) == Ok::<bool, FaultView>(true) {
                let i = choose|i: int| 0 <= i < n - 1 && (#[trigger] s[i]) is Ok;
                assert(s[i] is Ok);
            } else {
                assert(s[n - 1] is Ok);
            }
        }
    }
}

/// A namespace counts as free exactly where nothing stands at any of its paths.
pub proof fn law_free_namespaces_are_empty(s: Seq<Result<Metadata, FaultView>>)
    ensures
        occupied(s, s.len() as int) == Ok::<bool, FaultView>(false) <==> forall|i: int|
            0 <= i < s.len() ==> ((#[trigger] s[i]) matches Err(e) && e.kind == FaultKind::NotFound),
        occupied(s, s.len() as int) == Ok::<bool, FaultView>(true) ==> exists|i: int|
            0 <= i < s.len() && (#[trigger] s[i]) is Ok,
{
    lemma_free(s, s.len() as int);
}

/// What the status says of an installation: it is absent only where there is no
/// record, no activation, no unit, no publication and no residue; and active only
/// where the record is, its files are intact, its link is owned, its activation is in
/// force and served, and nothing was left behind. Anything else is reported as in
/// need of recovery.
pub proof fn law_status_is_truthful(i: StatusInputs)
    requires
        status_fault(i) is None,
    ensures
        ({
            let services = observed_services(views(i.services@), i.services@.len() as int)->Ok_0;
            let s = status_of(i);
            let clean = i.bootstrap_residues->Ok_0@.len() == 0 && i.state_residue->Ok_0 is None;
            let active = i.record is Some && i.record->0.phase is Active && i.integrity is Ok
                && i.activation is Some && i.activation->0.phase
                == crate::native::ActivationPhase::Active && i.activation_link_owned == Ok::<
                bool,
                Fault,
            >(true) && !crate::recovery::some_required_inactive(services) && clean
                && plan_matches(
                option_record(i.record),
                i.activation,
                status_plan(i).0,
                status_plan(i).1,
            );
            let absent = i.record is None && i.activation is None && (forall|k: int|
                0 <= k < services.len() ==> (#[trigger] services[k]).state == "not_found"@)
                && occupied(views(i.publications@), i.publications@.len() as int) == Ok::<
                bool,
                FaultView,
            >(false) && clean;
            &&& s.recovery_required <==> !active && !absent
            &&& active ==> s.installation_state == "active"@
            &&& absent ==> s.installation_state == "absent"@
            &&& s.recovery_required ==> s.installation_state == "recovery_required"@ && s.hint
                is Some
        }),
{
    let services = observed_services(views(i.services@), i.services@.len() as int)->Ok_0;
    if !some_unit_known(services) {
        assert forall|k: int| 0 <= k < services.len() implies (#[trigger] services[k]).state
            == "not_found"@ by {
            assert(!(services[k].state != "not_found"@));
        }
    }
}

} // verus!
