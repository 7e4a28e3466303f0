//! Lifecycle plans: what is checked before one is drafted, what it says, and
//! when two of them are the same.

use vstd::prelude::*;
use vstd::string::*;

use crate::approval::{
    plan_token, plan_token_of, recovery_token, recovery_token_of, ApprovalView,
};
use crate::bootstrap::{copy_residues, BootstrapResidue, BootstrapResidueView};
use crate::cleanup::{option_residue, StateResidue, StateResidueView};
use crate::digest::{
    hex, hex_bytes, identity_text, option_digest, require_token, same_digest, same_option_digest,
    sha256_digest, sha256_of, token_authorizes, uuid_text,
};
use crate::effects::{
    install, install_announcement, install_publications, install_sentences, recovery,
    recovery_sentences, repair_sentences, repairs_announced, uninstall, uninstall_announcement,
    uninstall_publications, uninstall_sentences, Operation, PublicationEffect, PublicationView,
};
use crate::fault::{
    conflict, conflict_of, fault, hand_on, invalid_data, invalid_of, legacy_update_error,
    legacy_update_message, Fault, FaultKind, FaultView,
};
use crate::files::{agrees, result_view, Probe};
use crate::integrity::{directories_fault, validate_directories};
use crate::labels::{manager, manager_name, phase, phase_name};
use crate::model::{
    option_generation, option_record, option_text, same_generation, same_plan, Generation,
    GenerationView, InstallRecord, RecordView, ResolverPlanIdentity, RESOLVER_REBASE_CAPABILITY,
};
use crate::native::ResolverLinkManager;
use crate::order::{extend_texts, views};
use crate::publications::{all_publication_paths, publication_paths, same_links};
use crate::recovery::{
    active_integrity_conflict, authority_needed, blocked_without_activation,
    integrity_conflict_of, missing_activation_blocks, needs_recovery, needs_resolver_authority,
    require_no_recovery, snapshot_required, unowned_publication_namespace, unowned_publications,
    unowned_runtime, unowned_runtime_namespace,
};
use crate::snapshot::{
    native_failure, native_failure_of, LinkInspection, LinkInspectionView, SnapshotView,
    StateSnapshot,
};
use crate::state::{encoded_state, state_bytes};
use crate::text::{copy, same};
use crate::units::{first_occupied, require_all_absent, PathProbe, PublishedLink, PublishedLinkView};

verus! {

// ---------------------------------------------------------------------------
// Before a plan
// ---------------------------------------------------------------------------

/// Why an operation does not fit what is installed.
pub open spec fn mode_fault(installed: bool, o: Operation) -> Option<FaultView> {
    match o {
        Operation::Install => if installed {
            Some(conflict_of("Remap is already installed"@))
        } else {
            None
        },
        Operation::Update => if installed {
            None
        } else {
            Some(conflict_of("Remap is not installed"@))
        },
        Operation::Uninstall | Operation::Recover => Some(invalid_of("invalid operation"@)),
    }
}

/// An installation is made where there is none, and an update where there is one.
pub fn require_mode(record: &Option<InstallRecord>, operation: Operation) -> (r: Result<(), Fault>)
    ensures
        agrees(r, mode_fault(*record is Some, operation)),
{
    match (operation, record) {
        (Operation::Install, None) | (Operation::Update, Some(_)) => Ok(()),
        (Operation::Install, Some(_)) => Err(conflict("Remap is already installed")),
        (Operation::Update, None) => Err(conflict("Remap is not installed")),
        (Operation::Uninstall, _) | (Operation::Recover, _) => Err(
            invalid_data("invalid operation"),
        ),
    }
}

/// What is to become of the listeners while a plan is drafted.
#[derive(Debug, Clone, Copy, PartialEq, Eq, Structural)]
pub enum Listeners {
    /// An installation runs behind them: none is reserved.
    Installed,
    /// The reservation that is held already is kept.
    Keep,
    /// They are reserved now.
    Reserve,
}

/// What was observed of the host before a plan. The integrity counts where
/// something is installed; the paths, the roots and the unit directories where
/// nothing is.
#[derive(Debug)]
pub struct AuthorityInputs {
    pub effective_uid: u32,
    pub record: Result<Option<InstallRecord>, Fault>,
    pub reservation_held: bool,
    pub integrity: Result<(), Fault>,
    pub publications: Vec<PathProbe>,
    pub generation_roots: Vec<PathProbe>,
    pub unit_directories: Vec<Probe>,
}

pub open spec fn root_missing_of() -> FaultView {
    FaultView {
        kind: FaultKind::PermissionDenied,
        message: "the Linux lifecycle authority requires root"@,
    }
}

/// Why nothing may be installed here.
pub open spec fn vacancy_fault(i: AuthorityInputs) -> Option<FaultView> {
    match first_occupied(
        views(i.publications@),
        i.publications@.len() as int,
        "a public Remap installation path is occupied"@,
    ) {
        Some(e) => Some(e),
        None => match first_occupied(
            views(i.generation_roots@),
            i.generation_roots@.len() as int,
            "the reserved Remap generation directory is already occupied"@,
        ) {
            Some(e) => Some(e),
            None => directories_fault(
                views(i.unit_directories@),
                i.unit_directories@.len() as int,
            ),
        },
    }
}

/// What becomes of the listeners, or why no plan is drafted.
pub open spec fn prepared_authority(o: Operation, i: AuthorityInputs) -> Result<
    Listeners,
    FaultView,
> {
    if i.effective_uid != 0 {
        Err(root_missing_of())
    } else {
        match i.record {
            Err(e) => Err(e@),
            Ok(record) => match mode_fault(record is Some, o) {
                Some(e) => Err(e),
                None => if record is Some {
                    if i.reservation_held {
                        Err(
                            conflict_of(
                                "the listener reservation no longer matches a fresh installation"@,
                            ),
                        )
                    } else {
                        match i.integrity {
                            Err(e) => Err(e@),
                            Ok(_) => Ok(Listeners::Installed),
                        }
                    }
                } else {
                    match vacancy_fault(i) {
                        Some(e) => Err(e),
                        None => Ok(
                            if i.reservation_held {
                                Listeners::Keep
                            } else {
                                Listeners::Reserve
                            },
                        ),
                    }
                },
            },
        }
    }
}

/// Decides whether a plan may be drafted, and what becomes of the listeners.
pub fn prepare_authority(operation: Operation, i: &AuthorityInputs) -> (r: Result<Listeners, Fault>)
    ensures
        result_view(r) == prepared_authority(operation, *i),
{
    if i.effective_uid != 0 {
        return Err(
            fault(FaultKind::PermissionDenied, "the Linux lifecycle authority requires root"),
        );
    }
    let record = match &i.record {
        Err(e) => {
            return Err(hand_on(e));
        },
        Ok(record) => record,
    };
    if let Err(e) = require_mode(record, operation) {
        return Err(e);
    }
    match record {
        Some(_) => {
            if i.reservation_held {
                return Err(
                    conflict("the listener reservation no longer matches a fresh installation"),
                );
            }
            match &i.integrity {
                Err(e) => Err(hand_on(e)),
                Ok(_) => Ok(Listeners::Installed),
            }
        },
        None => {
            if let Err(e) = require_all_absent(
                &i.publications,
                "a public Remap installation path is occupied",
            ) {
                return Err(e);
            }
            if let Err(e) = require_all_absent(
                &i.generation_roots,
                "the reserved Remap generation directory is already occupied",
            ) {
                return Err(e);
            }
            if let Err(e) = validate_directories(&i.unit_directories) {
                return Err(e);
            }
            Ok(
                if i.reservation_held {
                    Listeners::Keep
                } else {
                    Listeners::Reserve
                },
            )
        },
    }
}

/// Whether an installed generation cannot be updated.
pub open spec fn lacks_capability(o: Operation, record: Option<RecordView>) -> bool {
    o == Operation::Update && record is Some && record->0.current.resolver_rebase_capability
        != RESOLVER_REBASE_CAPABILITY
}

pub open spec fn capability_fault(o: Operation, record: Option<RecordView>) -> Option<FaultView> {
    if lacks_capability(o, record) {
        Some(FaultView { kind: FaultKind::Unsupported, message: legacy_update_error() })
    } else {
        None
    }
}

/// An update needs an installed generation that can be updated.
pub fn require_update_capability(operation: Operation, record: &Option<InstallRecord>) -> (r: Result<
    (),
    Fault,
>)
    ensures
        agrees(r, capability_fault(operation, option_record(*record))),
{
    if operation == Operation::Update {
        if let Some(record) = record {
            if record.current.resolver_rebase_capability != RESOLVER_REBASE_CAPABILITY {
                return Err(fault(FaultKind::Unsupported, legacy_update_message()));
            }
        }
    }
    Ok(())
}

/// Whether the link is not the one that the installed generation was approved for.
pub open spec fn link_moved(
    record: Option<RecordView>,
    m: ResolverLinkManager,
    interface_name: Seq<char>,
) -> bool {
    record is Some && {
        let g = record->0.current;
        (g.resolver_manager is Some && g.resolver_manager != Some(m)) || (g.interface_name is Some
            && g.interface_name != Some(interface_name))
    }
}

pub open spec fn approved(
    inspection: Result<LinkInspectionView, FaultView>,
    record: Option<RecordView>,
) -> Result<(ResolverLinkManager, Seq<char>), FaultView> {
    match inspection {
        Err(_) => Err(native_failure_of()),
        Ok(l) => if link_moved(record, l.manager, l.interface_name) {
            Err(conflict_of("the installed resolver link changed its approved native identity"@))
        } else {
            Ok((l.manager, l.interface_name))
        },
    }
}

/// What was learned of a link, or why nothing was.
#[derive(Debug)]
pub struct InspectionResult {
    pub result: Result<LinkInspection, Fault>,
}

impl View for InspectionResult {
    type V = Result<LinkInspectionView, FaultView>;

    open spec fn view(&self) -> Result<LinkInspectionView, FaultView> {
        match self.result {
            Ok(l) => Ok(l@),
            Err(e) => Err(e@),
        }
    }
}

/// The native identity of the link that a plan is drafted for.
pub fn approved_link(inspection: &InspectionResult, record: &Option<InstallRecord>) -> (r: Result<
    (ResolverLinkManager, String),
    Fault,
>)
    ensures
        match r {
            Ok(v) => approved(inspection@, option_record(*record)) == Ok::<
                (ResolverLinkManager, Seq<char>),
                FaultView,
            >((v.0, v.1@)),
            Err(e) => approved(inspection@, option_record(*record)) == Err::<
                (ResolverLinkManager, Seq<char>),
                FaultView,
            >(e@),
        },
{
    let l = match &inspection.result {
        Err(_) => {
            return Err(native_failure());
        },
        Ok(l) => l,
    };
    if let Some(installed) = record {
        let other_manager = match installed.current.resolver_manager {
            Some(m) => m != l.manager,
            None => false,
        };
        let other_name = match &installed.current.interface_name {
            Some(name) => !same(name.as_str(), l.interface_name.as_str()),
            None => false,
        };
        if other_manager || other_name {
            return Err(
                conflict("the installed resolver link changed its approved native identity"),
            );
        }
    }
    Ok((l.manager, copy(l.interface_name.as_str())))
}

/// Whether a snapshot is about the approved link.
pub open spec fn snapshot_link_approved(
    s: SnapshotView,
    m: ResolverLinkManager,
    interface_name: Seq<char>,
) -> bool {
    s.selected_link is Some && s.selected_link->0.manager == m && s.selected_link->0.interface_name
        == interface_name
}

/// The link keeps its native identity while a plan is drafted.
pub fn require_approved_link(
    s: &StateSnapshot,
    expected: ResolverLinkManager,
    expected_interface_name: &str,
) -> (r: Result<(), Fault>)
    ensures
        agrees(
            r,
            if snapshot_link_approved(s@, expected, expected_interface_name@) {
                None
            } else {
                Some(
                    conflict_of(
                        "the selected resolver link changed native managers during preview"@,
                    ),
                )
            },
        ),
{
    let held = match &s.selected_link {
        Some(l) => l.manager == expected && same(l.interface_name.as_str(), expected_interface_name),
        None => false,
    };
    if held {
        Ok(())
    } else {
        Err(conflict("the selected resolver link changed native managers during preview"))
    }
}

// ---------------------------------------------------------------------------
// Plans
// ---------------------------------------------------------------------------

/// A plan before it is bound to a token.
#[derive(Debug)]
pub struct PlanDraft {
    pub operation: Operation,
    pub generation_id: Option<String>,
    pub previous_generation_id: Option<String>,
    pub source_manifest_sha256: Option<String>,
    pub source_digest: Option<[u8; 32]>,
    pub link_index: Option<u32>,
    pub interface_name: Option<String>,
    pub backend: Option<String>,
    pub resolver_environment: &'static str,
    pub publications: Vec<PublicationEffect>,
    pub effects: Vec<String>,
    pub has_effects: bool,
    pub generation: Option<Generation>,
    pub activation_record_digest: Option<[u8; 32]>,
    pub daemon_plan_identity: Option<ResolverPlanIdentity>,
    pub daemon_plan_observed: bool,
}

/// A draft over plain values.
pub struct DraftView {
    pub operation: Operation,
    pub generation_id: Option<Seq<char>>,
    pub previous_generation_id: Option<Seq<char>>,
    pub source_manifest_sha256: Option<Seq<char>>,
    pub source_digest: Option<Seq<u8>>,
    pub link_index: Option<u32>,
    pub interface_name: Option<Seq<char>>,
    pub backend: Option<Seq<char>>,
    pub resolver_environment: Seq<char>,
    pub publications: Seq<PublicationView>,
    pub effects: Seq<Seq<char>>,
    pub has_effects: bool,
    pub generation: Option<GenerationView>,
    pub activation_record_digest: Option<Seq<u8>>,
    pub daemon_plan_identity: Option<ResolverPlanIdentity>,
    pub daemon_plan_observed: bool,
}

impl View for PlanDraft {
    type V = DraftView;

    open spec fn view(&self) -> DraftView {
        DraftView {
            operation: self.operation,
            generation_id: option_text(self.generation_id),
            previous_generation_id: option_text(self.previous_generation_id),
            source_manifest_sha256: option_text(self.source_manifest_sha256),
            source_digest: option_digest(self.source_digest),
            link_index: self.link_index,
            interface_name: option_text(self.interface_name),
            backend: option_text(self.backend),
            resolver_environment: self.resolver_environment@,
            publications: views(self.publications@),
            effects: views(self.effects@),
            has_effects: self.has_effects,
            generation: option_generation(self.generation),
            activation_record_digest: option_digest(self.activation_record_digest),
            daemon_plan_identity: self.daemon_plan_identity,
            daemon_plan_observed: self.daemon_plan_observed,
        }
    }
}

/// A plan with its token.
#[derive(Debug)]
pub struct PreparedPlan {
    pub draft: PlanDraft,
    pub state_digest: [u8; 32],
    pub approval_token: String,
}

/// A plan over plain values.
pub struct PlanView {
    pub draft: DraftView,
    pub state_digest: Seq<u8>,
    pub approval_token: Seq<char>,
}

impl View for PreparedPlan {
    type V = PlanView;

    open spec fn view(&self) -> PlanView {
        PlanView {
            draft: self.draft@,
            state_digest: self.state_digest@,
            approval_token: self.approval_token@,
        }
    }
}

/// Whether two plans rest on the same authority.
pub open spec fn same_plan_authority(a: PlanView, b: PlanView) -> bool {
    &&& a.state_digest == b.state_digest
    &&& a.approval_token == b.approval_token
    &&& a.draft.generation == b.draft.generation
    &&& a.draft.activation_record_digest == b.draft.activation_record_digest
    &&& a.draft.daemon_plan_identity == b.draft.daemon_plan_identity
    &&& a.draft.daemon_plan_observed == b.draft.daemon_plan_observed
}

pub open spec fn token_refused_of() -> FaultView {
    FaultView {
        kind: FaultKind::PermissionDenied,
        message: "the approval token does not authorize the current Linux lifecycle plan"@,
    }
}

impl PreparedPlan {
    /// Accepts the token of this plan only.
    pub fn require_token(&self, token: &str) -> (r: Result<(), Fault>)
        ensures
            agrees(
                r,
                if token_authorizes(self@.approval_token, token@) {
                    None
                } else {
                    Some(token_refused_of())
                },
            ),
    {
        require_token(self.approval_token.as_str(), token)
    }

    /// Whether two plans rest on the same authority.
    pub fn same_authority(&self, other: &PreparedPlan) -> (r: bool)
        ensures
            r == same_plan_authority(self@, other@),
    {
        same_digest(&self.state_digest, &other.state_digest) && same(
            self.approval_token.as_str(),
            other.approval_token.as_str(),
        ) && same_generation(&self.draft.generation, &other.draft.generation) && same_option_digest(
            &self.draft.activation_record_digest,
            &other.draft.activation_record_digest,
        ) && same_plan(&self.draft.daemon_plan_identity, &other.draft.daemon_plan_identity)
            && self.draft.daemon_plan_observed == other.draft.daemon_plan_observed
    }

    /// Whether the plan does anything.
    pub fn has_effects(&self) -> (r: bool)
        ensures
            r == self@.draft.has_effects,
    {
        self.draft.has_effects
    }
}

/// What the token of a draft is taken over, with the digest of the state that it
/// rests on.
pub open spec fn draft_approval(d: DraftView, state_digest: Seq<u8>) -> ApprovalView {
    ApprovalView {
        operation: d.operation,
        generation_manifest_digest: match d.generation {
            Some(g) => Some(g.manifest_digest),
            None => None,
        },
        source_manifest_sha256: d.source_digest,
        state_digest,
        effects: d.effects,
        publications: d.publications,
    }
}

/// A draft bound to the state that was found.
pub open spec fn bound(d: DraftView, s: SnapshotView) -> PlanView {
    PlanView {
        draft: d,
        state_digest: sha256_of(state_bytes(s)),
        approval_token: plan_token_of(draft_approval(d, sha256_of(state_bytes(s)))),
    }
}

/// Binds a draft to the state that was found.
pub fn bind(draft: PlanDraft, s: &StateSnapshot) -> (r: PreparedPlan)
    ensures
        r@ == bound(draft@, s@),
{
    let state_digest = state_digest(s);
    let manifest_digest = match &draft.generation {
        Some(g) => Some(g.manifest_digest),
        None => None,
    };
    let approval_token = plan_token(
        draft.operation,
        &manifest_digest,
        &draft.source_digest,
        &state_digest,
        &draft.effects,
        &draft.publications,
    );
    PreparedPlan { draft, state_digest, approval_token }
}

/// The digest of the state that was found.
pub fn state_digest(s: &StateSnapshot) -> (d: [u8; 32])
    ensures
        d@ == sha256_of(state_bytes(s@)),
{
    sha256_digest(encoded_state(s).as_slice())
}

pub open spec fn link_name(s: SnapshotView) -> Option<Seq<char>> {
    match s.selected_link {
        Some(l) => Some(l.interface_name),
        None => None,
    }
}

pub open spec fn link_backend(s: SnapshotView) -> Option<Seq<char>> {
    match s.selected_link {
        Some(l) => Some(manager_name(l.manager)),
        None => None,
    }
}

fn selected_name(s: &StateSnapshot) -> (r: Option<String>)
    ensures
        option_text(r) == link_name(s@),
{
    match &s.selected_link {
        Some(l) => Some(copy(l.interface_name.as_str())),
        None => None,
    }
}

fn selected_backend(s: &StateSnapshot) -> (r: Option<String>)
    ensures
        option_text(r) == link_backend(s@),
{
    match &s.selected_link {
        Some(l) => Some(copy(manager(l.manager))),
        None => None,
    }
}

pub open spec fn installed_id(record: Option<RecordView>) -> Option<Seq<char>> {
    match record {
        Some(r) => Some(uuid_text(r.current.id)),
        None => None,
    }
}

/// Whether a generation is the one that a rollback would lead back to.
pub open spec fn is_retained(record: Option<RecordView>, g: GenerationView) -> bool {
    record is Some && record->0.previous is Some && record->0.previous->0.id == g.id
}

pub open spec fn retained_of() -> FaultView {
    conflict_of("the requested generation is already retained as the rollback generation"@)
}

/// Whether an update changes nothing.
pub open spec fn changes_nothing(o: Operation, record: Option<RecordView>, g: GenerationView) -> bool {
    o == Operation::Update && record is Some && record->0.current == g
}

/// Why no installation or update is drafted.
pub open spec fn draft_fault(
    record: Option<RecordView>,
    g: GenerationView,
    s: SnapshotView,
    m: ResolverLinkManager,
    interface_name: Seq<char>,
) -> Option<FaultView> {
    if is_retained(record, g) {
        Some(retained_of())
    } else if !snapshot_link_approved(s, m, interface_name) {
        Some(conflict_of("the selected resolver link changed native managers during preview"@))
    } else if needs_recovery(s) {
        Some(conflict_of("the Linux installation requires separately approved recovery"@))
    } else {
        None
    }
}

/// The draft of an installation or an update.
pub open spec fn install_draft(
    o: Operation,
    record: Option<RecordView>,
    g: GenerationView,
    s: SnapshotView,
    source_manifest: Seq<u8>,
    link: u32,
) -> DraftView {
    let no_op = changes_nothing(o, record, g);
    let next = uuid_text(g.id);
    let announcement = install_announcement(o, no_op, record, g, installed_id(record), next);
    DraftView {
        operation: o,
        generation_id: Some(next),
        previous_generation_id: installed_id(record),
        source_manifest_sha256: Some(hex_bytes(source_manifest)),
        source_digest: Some(source_manifest),
        link_index: Some(link),
        interface_name: link_name(s),
        backend: link_backend(s),
        resolver_environment: s.resolver_environment,
        publications: announcement.0,
        effects: if no_op {
            Seq::empty()
        } else {
            install_sentences(o, g, record, announcement.1)
        },
        has_effects: !no_op,
        generation: Some(g),
        activation_record_digest: s.activation_record_digest,
        daemon_plan_identity: s.daemon_plan_identity,
        daemon_plan_observed: s.daemon_plan_observed,
    }
}

/// A generation that a rollback would lead back to is not installed anew. This
/// is settled before the state of the host is looked at.
pub fn require_new_generation(record: &Option<InstallRecord>, g: &Generation) -> (r: Result<
    (),
    Fault,
>)
    ensures
        agrees(
            r,
            if is_retained(option_record(*record), g@) {
                Some(
                    conflict_of(
                        "the requested generation is already retained as the rollback generation"@,
                    ),
                )
            } else {
                None
            },
        ),
{
    if let Some(record) = record {
        if let Some(previous) = &record.previous {
            if previous.id == g.id {
                return Err(
                    conflict(
                        "the requested generation is already retained as the rollback generation",
                    ),
                );
            }
        }
    }
    Ok(())
}

/// Drafts an installation or an update of a sealed generation.
pub fn draft_install(
    operation: Operation,
    record: &Option<InstallRecord>,
    generation: Generation,
    s: &StateSnapshot,
    source_manifest_sha256: &[u8; 32],
    link: u32,
    approved_manager: ResolverLinkManager,
    approved_interface_name: &str,
) -> (r: Result<PlanDraft, Fault>)
    ensures
        agrees(
            r,
            draft_fault(
                option_record(*record),
                generation@,
                s@,
                approved_manager,
                approved_interface_name@,
            ),
        ),
        r is Ok ==> r->Ok_0@ == install_draft(
            operation,
            option_record(*record),
            generation@,
            s@,
            source_manifest_sha256@,
            link,
        ),
{
    if let Err(e) = require_new_generation(record, &generation) {
        return Err(e);
    }
    if let Err(e) = require_approved_link(s, approved_manager, approved_interface_name) {
        return Err(e);
    }
    if let Err(e) = require_no_recovery(s) {
        return Err(e);
    }
    let previous = match record {
        Some(value) => Some(identity_text(value.current.id)),
        None => None,
    };
    let next = identity_text(generation.id);
    let no_op = operation == Operation::Update && match record {
        Some(value) => value.current.same_as(&generation),
        None => false,
    };
    let (publications, count) = install_publications(
        operation,
        no_op,
        record,
        &generation,
        &previous,
        next.as_str(),
    );
    let mut effects: Vec<String> = Vec::new();
    proof {
        assert(views(effects@) =~= Seq::<Seq<char>>::empty());
    }
    if !no_op {
        effects = install(operation, &generation, record, count);
    }
    Ok(
        PlanDraft {
            operation,
            generation_id: Some(next),
            previous_generation_id: previous,
            source_manifest_sha256: Some(hex(source_manifest_sha256)),
            source_digest: Some(*source_manifest_sha256),
            link_index: Some(link),
            interface_name: selected_name(s),
            backend: selected_backend(s),
            resolver_environment: s.resolver_environment,
            publications,
            effects,
            has_effects: !no_op,
            generation: Some(generation),
            activation_record_digest: s.activation_record_digest,
            daemon_plan_identity: s.daemon_plan_identity,
            daemon_plan_observed: s.daemon_plan_observed,
        },
    )
}

/// The installation that an uninstallation is about, or why there is none.
pub open spec fn uninstallable(
    effective_uid: u32,
    record: Result<Option<RecordView>, FaultView>,
    integrity: Result<(), FaultView>,
) -> Result<RecordView, FaultView> {
    if effective_uid != 0 {
        Err(root_missing_of())
    } else {
        match record {
            Err(e) => Err(e),
            Ok(None) => Err(conflict_of("Remap is not installed"@)),
            Ok(Some(r)) => match integrity {
                Err(e) => Err(e),
                Ok(_) => Ok(r),
            },
        }
    }
}

pub open spec fn record_result(r: Result<Option<InstallRecord>, Fault>) -> Result<
    Option<RecordView>,
    FaultView,
> {
    match r {
        Ok(v) => Ok(option_record(v)),
        Err(e) => Err(e@),
    }
}

/// The installation that an uninstallation is about.
pub fn require_installed(
    effective_uid: u32,
    record: Result<Option<InstallRecord>, Fault>,
    integrity: &Result<(), Fault>,
) -> (r: Result<InstallRecord, Fault>)
    ensures
        match r {
            Ok(v) => uninstallable(effective_uid, record_result(record), result_view(*integrity))
                == Ok::<RecordView, FaultView>(v@),
            Err(e) => uninstallable(effective_uid, record_result(record), result_view(*integrity))
                == Err::<RecordView, FaultView>(e@),
        },
{
    if effective_uid != 0 {
        return Err(
            fault(FaultKind::PermissionDenied, "the Linux lifecycle authority requires root"),
        );
    }
    match record {
        Err(e) => Err(e),
        Ok(None) => Err(conflict("Remap is not installed")),
        Ok(Some(record)) => match integrity {
            Err(e) => Err(hand_on(e)),
            Ok(_) => Ok(record),
        },
    }
}

/// The directories that an uninstallation can take along, or why that is not known.
#[derive(Debug)]
pub struct RemovableDirectories {
    pub result: Result<Vec<String>, Fault>,
}

impl View for RemovableDirectories {
    type V = Result<Seq<Seq<char>>, FaultView>;

    open spec fn view(&self) -> Result<Seq<Seq<char>>, FaultView> {
        match self.result {
            Ok(v) => Ok(views(v@)),
            Err(e) => Err(e@),
        }
    }
}

/// The draft of an uninstallation, or why there is none.
pub open spec fn uninstall_draft(
    r: RecordView,
    s: SnapshotView,
    removable: Result<Seq<Seq<char>>, FaultView>,
) -> Result<DraftView, FaultView> {
    if needs_recovery(s) {
        Err(conflict_of("the Linux installation requires separately approved recovery"@))
    } else {
        match removable {
            Err(e) => Err(e),
            Ok(directories) => Ok(
                DraftView {
                    operation: Operation::Uninstall,
                    generation_id: None,
                    previous_generation_id: Some(uuid_text(r.current.id)),
                    source_manifest_sha256: None,
                    source_digest: None,
                    link_index: Some(r.current.link),
                    interface_name: link_name(s),
                    backend: link_backend(s),
                    resolver_environment: s.resolver_environment,
                    publications: uninstall_announcement(uuid_text(r.current.id), directories),
                    effects: uninstall_sentences(r, all_publication_paths().len(), directories),
                    has_effects: true,
                    generation: None,
                    activation_record_digest: s.activation_record_digest,
                    daemon_plan_identity: s.daemon_plan_identity,
                    daemon_plan_observed: s.daemon_plan_observed,
                },
            ),
        }
    }
}

/// Drafts an uninstallation.
pub fn draft_uninstall(
    record: &InstallRecord,
    s: &StateSnapshot,
    removable: &RemovableDirectories,
) -> (r: Result<PlanDraft, Fault>)
    ensures
        match r {
            Ok(d) => uninstall_draft(record@, s@, removable@) == Ok::<DraftView, FaultView>(d@),
            Err(e) => uninstall_draft(record@, s@, removable@) == Err::<DraftView, FaultView>(e@),
        },
{
    if let Err(e) = require_no_recovery(s) {
        return Err(e);
    }
    let directories = match &removable.result {
        Err(e) => {
            return Err(hand_on(e));
        },
        Ok(directories) => directories,
    };
    let previous = identity_text(record.current.id);
    let publications = uninstall_publications(&record.current, previous.as_str(), directories);
    let paths = publication_paths();
    proof {
        assert(views(paths@).len() == paths@.len());
    }
    let effects = uninstall(record, paths.len(), directories);
    Ok(
        PlanDraft {
            operation: Operation::Uninstall,
            generation_id: None,
            previous_generation_id: Some(previous),
            source_manifest_sha256: None,
            source_digest: None,
            link_index: Some(record.current.link),
            interface_name: selected_name(s),
            backend: selected_backend(s),
            resolver_environment: s.resolver_environment,
            publications,
            effects,
            has_effects: true,
            generation: None,
            activation_record_digest: s.activation_record_digest,
            daemon_plan_identity: s.daemon_plan_identity,
            daemon_plan_observed: s.daemon_plan_observed,
        },
    )
}

// ---------------------------------------------------------------------------
// Recovery
// ---------------------------------------------------------------------------

/// A recovery before it is bound to a token.
#[derive(Debug)]
pub struct RecoveryDraft {
    pub installation_phase: Option<&'static str>,
    pub generation_id: Option<String>,
    pub bootstrap_residues: Vec<BootstrapResidue>,
    pub state_residue: Option<StateResidue>,
    pub effects: Vec<String>,
    pub daemon_plan_identity: Option<ResolverPlanIdentity>,
    pub daemon_plan_observed: bool,
    pub publication_repairs: Vec<PublishedLink>,
    pub resolver_authority_required: bool,
}

/// A recovery draft over plain values.
pub struct RecoveryDraftView {
    pub installation_phase: Option<Seq<char>>,
    pub generation_id: Option<Seq<char>>,
    pub bootstrap_residues: Seq<BootstrapResidueView>,
    pub state_residue: Option<StateResidueView>,
    pub effects: Seq<Seq<char>>,
    pub daemon_plan_identity: Option<ResolverPlanIdentity>,
    pub daemon_plan_observed: bool,
    pub publication_repairs: Seq<PublishedLinkView>,
    pub resolver_authority_required: bool,
}

impl View for RecoveryDraft {
    type V = RecoveryDraftView;

    open spec fn view(&self) -> RecoveryDraftView {
        RecoveryDraftView {
            installation_phase: crate::status::option_str(self.installation_phase),
            generation_id: option_text(self.generation_id),
            bootstrap_residues: views(self.bootstrap_residues@),
            state_residue: option_residue(self.state_residue),
            effects: views(self.effects@),
            daemon_plan_identity: self.daemon_plan_identity,
            daemon_plan_observed: self.daemon_plan_observed,
            publication_repairs: views(self.publication_repairs@),
            resolver_authority_required: self.resolver_authority_required,
        }
    }
}

/// The links that recovery puts back, or why they are not known.
#[derive(Debug)]
pub struct MissingLinks {
    pub result: Result<Vec<PublishedLink>, Fault>,
}

impl View for MissingLinks {
    type V = Result<Seq<PublishedLinkView>, FaultView>;

    open spec fn view(&self) -> Result<Seq<PublishedLinkView>, FaultView> {
        match self.result {
            Ok(v) => Ok(views(v@)),
            Err(e) => Err(e@),
        }
    }
}

/// The links that recovery puts back: those that an otherwise intact active
/// installation lacks.
pub open spec fn repairs_of(
    s: SnapshotView,
    record: Option<RecordView>,
    integrity: Result<(), FaultView>,
    installation: Result<(), FaultView>,
    missing: Result<Seq<PublishedLinkView>, FaultView>,
) -> Result<Seq<PublishedLinkView>, FaultView> {
    if s.active_integrity_valid != Some(false) {
        Ok(Seq::empty())
    } else if record is None {
        Err(integrity_conflict_of(None))
    } else {
        match installation {
            Err(e) => Err(e),
            Ok(_) => match missing {
                Err(e) => Err(e),
                Ok(links) => if links.len() == 0 {
                    Err(
                        integrity_conflict_of(
                            match integrity {
                                Err(e) => Some(e.message),
                                Ok(_) => None,
                            },
                        ),
                    )
                } else {
                    Ok(links)
                },
            },
        }
    }
}

/// Why recovery cannot be drafted although it is needed.
pub open spec fn recovery_block(
    record: Option<RecordView>,
    activated: bool,
    s: SnapshotView,
) -> Option<FaultView> {
    if record is Some && blocked_without_activation(record->0, activated) {
        Some(
            conflict_of(
                "the active Linux installation is missing its reversible resolver authority"@,
            ),
        )
    } else if record is None && activated {
        Some(
            conflict_of(
                "the orphaned resolver authority lacks an authenticated installed daemon identity"@,
            ),
        )
    } else if record is None && (unowned_runtime(s) || unowned_publications(s)) {
        Some(
            conflict_of(
                "an unowned Remap runtime or publication namespace requires administrator review"@,
            ),
        )
    } else {
        None
    }
}

/// The draft of a recovery, or why there is none.
pub open spec fn recovery_draft(
    record: Option<RecordView>,
    activated: bool,
    s: SnapshotView,
    integrity: Result<(), FaultView>,
    installation: Result<(), FaultView>,
    missing: Result<Seq<PublishedLinkView>, FaultView>,
) -> Result<RecoveryDraftView, FaultView> {
    if !needs_recovery(s) {
        Err(conflict_of("the Linux installation does not require recovery"@))
    } else {
        match repairs_of(s, record, integrity, installation, missing) {
            Err(e) => Err(e),
            Ok(repairs) => match recovery_block(record, activated, s) {
                Some(e) => Err(e),
                None => Ok(
                    RecoveryDraftView {
                        installation_phase: match record {
                            Some(r) => Some(phase_name(r.phase)),
                            None => None,
                        },
                        generation_id: installed_id(record),
                        bootstrap_residues: s.bootstrap_residues,
                        state_residue: s.state_residue,
                        effects: recovery_sentences(record, s) + repair_sentences(repairs),
                        daemon_plan_identity: s.daemon_plan_identity,
                        daemon_plan_observed: s.daemon_plan_observed,
                        publication_repairs: repairs,
                        resolver_authority_required: authority_needed(s),
                    },
                ),
            },
        }
    }
}

fn find_repairs(
    s: &StateSnapshot,
    record: &Option<InstallRecord>,
    integrity: &Result<(), Fault>,
    installation: &Result<(), Fault>,
    missing: MissingLinks,
) -> (r: MissingLinks)
    ensures
        r@ == repairs_of(
            s@,
            option_record(*record),
            result_view(*integrity),
            result_view(*installation),
            missing@,
        ),
{
    let broken = match s.active_integrity_valid {
        Some(valid) => !valid,
        None => false,
    };
    if !broken {
        let none: Vec<PublishedLink> = Vec::new();
        proof {
            assert(views(none@) =~= Seq::<PublishedLinkView>::empty());
        }
        return MissingLinks { result: Ok(none) };
    }
    match record {
        None => {
            return MissingLinks { result: Err(active_integrity_conflict(None)) };
        },
        Some(_) => {},
    }
    if let Err(e) = installation {
        return MissingLinks { result: Err(hand_on(e)) };
    }
    match missing.result {
        Err(e) => MissingLinks { result: Err(e) },
        Ok(links) => {
            proof {
                assert(views(links@).len() == links@.len());
            }
            if links.len() == 0 {
                MissingLinks { result: Err(active_integrity_conflict(Some(integrity))) }
            } else {
                MissingLinks { result: Ok(links) }
            }
        },
    }
}

/// Drafts a recovery. The integrity is that of the whole installation, the
/// installation's outcome that of all but its public links; they and the missing
/// links count where the snapshot found an active installation broken.
pub fn draft_recovery(
    record: &Option<InstallRecord>,
    activated: bool,
    s: &StateSnapshot,
    integrity: &Result<(), Fault>,
    installation: &Result<(), Fault>,
    missing: MissingLinks,
) -> (r: Result<RecoveryDraft, Fault>)
    ensures
        match r {
            Ok(d) => recovery_draft(
                option_record(*record),
                activated,
                s@,
                result_view(*integrity),
                result_view(*installation),
                missing@,
            ) == Ok::<RecoveryDraftView, FaultView>(d@),
            Err(e) => recovery_draft(
                option_record(*record),
                activated,
                s@,
                result_view(*integrity),
                result_view(*installation),
                missing@,
            ) == Err::<RecoveryDraftView, FaultView>(e@),
        },
{
    if !snapshot_required(s) {
        return Err(conflict("the Linux installation does not require recovery"));
    }
    let repairs = match find_repairs(s, record, integrity, installation, missing).result {
        Err(e) => {
            return Err(e);
        },
        Ok(repairs) => repairs,
    };
    match record {
        Some(value) => {
            if missing_activation_blocks(value, activated) {
                return Err(
                    conflict(
                        "the active Linux installation is missing its reversible resolver authority",
                    ),
                );
            }
        },
        None => {
            if activated {
                return Err(
                    conflict(
                        "the orphaned resolver authority lacks an authenticated installed daemon identity",
                    ),
                );
            }
            if unowned_runtime_namespace(s) || unowned_publication_namespace(s) {
                return Err(
                    conflict(
                        "an unowned Remap runtime or publication namespace requires administrator review",
                    ),
                );
            }
        },
    }
    let mut effects = recovery(record, s);
    extend_texts(&mut effects, repairs_announced(&repairs));
    let installation_phase = match record {
        Some(value) => Some(phase(value.phase)),
        None => None,
    };
    let generation_id = match record {
        Some(value) => Some(identity_text(value.current.id)),
        None => None,
    };
    let state_residue = match &s.state_residue {
        Some(residue) => Some(residue.duplicate()),
        None => None,
    };
    let resolver_authority_required = needs_resolver_authority(s);
    Ok(
        RecoveryDraft {
            installation_phase,
            generation_id,
            bootstrap_residues: copy_residues(&s.bootstrap_residues),
            state_residue,
            effects,
            daemon_plan_identity: s.daemon_plan_identity,
            daemon_plan_observed: s.daemon_plan_observed,
            publication_repairs: repairs,
            resolver_authority_required,
        },
    )
}

/// A recovery with its token.
#[derive(Debug)]
pub struct PreparedRecovery {
    pub draft: RecoveryDraft,
    pub state_digest: [u8; 32],
    pub approval_token: String,
}

/// A recovery over plain values.
pub struct RecoveryView {
    pub draft: RecoveryDraftView,
    pub state_digest: Seq<u8>,
    pub approval_token: Seq<char>,
}

impl View for PreparedRecovery {
    type V = RecoveryView;

    open spec fn view(&self) -> RecoveryView {
        RecoveryView {
            draft: self.draft@,
            state_digest: self.state_digest@,
            approval_token: self.approval_token@,
        }
    }
}

/// Whether two recoveries rest on the same authority.
pub open spec fn same_recovery_authority(a: RecoveryView, b: RecoveryView) -> bool {
    &&& a.state_digest == b.state_digest
    &&& a.approval_token == b.approval_token
    &&& a.draft.daemon_plan_identity == b.draft.daemon_plan_identity
    &&& a.draft.daemon_plan_observed == b.draft.daemon_plan_observed
    &&& a.draft.resolver_authority_required == b.draft.resolver_authority_required
    &&& a.draft.publication_repairs == b.draft.publication_repairs
}

impl PreparedRecovery {
    /// Accepts the token of this recovery only.
    pub fn require_token(&self, token: &str) -> (r: Result<(), Fault>)
        ensures
            agrees(
                r,
                if token_authorizes(self@.approval_token, token@) {
                    None
                } else {
                    Some(token_refused_of())
                },
            ),
    {
        require_token(self.approval_token.as_str(), token)
    }

    /// Whether two recoveries rest on the same authority.
    pub fn same_authority(&self, other: &PreparedRecovery) -> (r: bool)
        ensures
            r == same_recovery_authority(self@, other@),
    {
        same_digest(&self.state_digest, &other.state_digest) && same(
            self.approval_token.as_str(),
            other.approval_token.as_str(),
        ) && same_plan(&self.draft.daemon_plan_identity, &other.draft.daemon_plan_identity)
            && self.draft.daemon_plan_observed == other.draft.daemon_plan_observed
            && self.draft.resolver_authority_required == other.draft.resolver_authority_required
            && same_links(&self.draft.publication_repairs, &other.draft.publication_repairs)
    }

    /// Whether the recovery touches the resolver.
    pub fn requires_resolver_authority(&self) -> (r: bool)
        ensures
            r == self@.draft.resolver_authority_required,
    {
        self.draft.resolver_authority_required
    }
}

/// The draft of a recovery bound to the state that was found.
pub open spec fn bound_recovery(d: RecoveryDraftView, s: SnapshotView) -> RecoveryView {
    RecoveryView {
        draft: d,
        state_digest: sha256_of(state_bytes(s)),
        approval_token: recovery_token_of(sha256_of(state_bytes(s)), d.effects),
    }
}

/// Binds a recovery to the state that was found.
pub fn bind_recovery(draft: RecoveryDraft, s: &StateSnapshot) -> (r: PreparedRecovery)
    ensures
        r@ == bound_recovery(draft@, s@),
{
    let state_digest = state_digest(s);
    let approval_token = recovery_token(&state_digest, &draft.effects);
    PreparedRecovery { draft, state_digest, approval_token }
}

// ---------------------------------------------------------------------------
// Laws
// ---------------------------------------------------------------------------

/// To rest on the same authority is an equivalence between plans.
pub proof fn law_plan_authority_is_an_equivalence(a: PlanView, b: PlanView, c: PlanView)
    ensures
        same_plan_authority(a, a),
        same_plan_authority(a, b) ==> same_plan_authority(b, a),
        same_plan_authority(a, b) && same_plan_authority(b, c) ==> same_plan_authority(a, c),
{
}

/// To rest on the same authority is an equivalence between recoveries.
pub proof fn law_recovery_authority_is_an_equivalence(
    a: RecoveryView,
    b: RecoveryView,
    c: RecoveryView,
)
    ensures
        same_recovery_authority(a, a),
        same_recovery_authority(a, b) ==> same_recovery_authority(b, a),
        same_recovery_authority(a, b) && same_recovery_authority(b, c) ==> same_recovery_authority(
            a,
            c,
        ),
{
}

/// An update to the installed generation is a plan without any effect.
pub proof fn law_update_to_itself_does_nothing(
    record: RecordView,
    s: SnapshotView,
    source_manifest: Seq<u8>,
    link: u32,
)
    ensures
        ({
            let d = install_draft(
                Operation::Update,
                Some(record),
                record.current,
                s,
                source_manifest,
                link,
            );
            !d.has_effects && d.effects.len() == 0 && d.publications.len() == 0
        }),
{
    let g = record.current;
    crate::publications::law_same_files_change_no_link(g, g);
    let next = uuid_text(g.id);
    let previous = Some(next);
    let none = crate::effects::actions_on(
        "create"@,
        crate::units::link_paths(crate::publications::link_difference(g, g)),
        previous,
        Some(next),
    ) + crate::effects::actions_on(
        "remove"@,
        crate::units::link_paths(crate::publications::link_difference(g, g)),
        previous,
        Some(next),
    );
    assert(none =~= Seq::<PublicationView>::empty());
    assert(crate::effects::changed_publications(g, g, previous, next) =~= Seq::<
        PublicationView,
    >::empty());
}

/// No plan of an installation, an update or an uninstallation is drafted while
/// recovery is needed, and no recovery while it is not.
pub proof fn law_recovery_and_plans_exclude_each_other(
    record: RecordView,
    g: GenerationView,
    s: SnapshotView,
    m: ResolverLinkManager,
    name: Seq<char>,
    removable: Result<Seq<Seq<char>>, FaultView>,
    activated: bool,
    integrity: Result<(), FaultView>,
    installation: Result<(), FaultView>,
    missing: Result<Seq<PublishedLinkView>, FaultView>,
)
    ensures
        recovery_draft(Some(record), activated, s, integrity, installation, missing) is Ok ==> {
            &&& draft_fault(Some(record), g, s, m, name) is Some
            &&& uninstall_draft(record, s, removable) is Err
        },
{
}

proof fn lemma_vacant(observed: Seq<Result<crate::files::Metadata, FaultView>>, n: int, occupied: Seq<char>)
    requires
        0 <= n <= observed.len(),
    ensures
        first_occupied(observed, n, occupied) is None <==> forall|i: int|
            0 <= i < n ==> ((#[trigger] observed[i]) matches Err(e) && e.kind
                == crate::fault::FaultKind::NotFound),
    decreases n,
{
    if n > 0 {
        lemma_vacant(observed, n - 1, occupied);
        if first_occupied(observed, n, occupied) is None {
            assert forall|i: int| 0 <= i < n implies ((#[trigger] observed[i]) matches Err(e)
                && e.kind == crate::fault::FaultKind::NotFound) by {
                if i < n - 1 {
                    assert(observed[i] matches Err(e) && e.kind
                        == crate::fault::FaultKind::NotFound);
                }
            }
        }
    }
}

/// Whether nothing stands at any of the observed paths.
pub open spec fn all_vacant(observed: Seq<Result<crate::files::Metadata, FaultView>>) -> bool {
    forall|i: int|
        0 <= i < observed.len() ==> ((#[trigger] observed[i]) matches Err(e) && e.kind
            == crate::fault::FaultKind::NotFound)
}

/// An installation is prepared by root only over nothing: there is no record, and
/// nothing stands at any path that it would publish or keep its generations in. An
/// update is prepared only over an installation that is intact. Nothing else is.
pub proof fn law_plans_are_prepared_on_sound_ground(o: Operation, i: AuthorityInputs)
    ensures
        prepared_authority(o, i) is Ok <==> {
            &&& i.effective_uid == 0
            &&& i.record is Ok
            &&& {
                ||| o == Operation::Update && i.record->Ok_0 is Some && !i.reservation_held
                    && i.integrity is Ok
                ||| o == Operation::Install && i.record->Ok_0 is None && all_vacant(
                    views(i.publications@),
                ) && all_vacant(views(i.generation_roots@)) && directories_fault(
                    views(i.unit_directories@),
                    i.unit_directories@.len() as int,
                ) is None
            }
        },
        prepared_authority(o, i) matches Ok(l) ==> {
            &&& l == Listeners::Installed <==> o == Operation::Update
            &&& l == Listeners::Keep <==> o == Operation::Install && i.reservation_held
            &&& l == Listeners::Reserve <==> o == Operation::Install && !i.reservation_held
        },
{
    lemma_vacant(
        views(i.publications@),
        i.publications@.len() as int,
        "a public Remap installation path is occupied"@,
    );
    lemma_vacant(
        views(i.generation_roots@),
        i.generation_roots@.len() as int,
        "the reserved Remap generation directory is already occupied"@,
    );
}

/// A plan is drafted exactly where its generation is not the one to roll back to, its
/// link is the approved one, and nothing needs recovery.
pub proof fn law_plans_are_drafted_on_sound_state(
    record: Option<RecordView>,
    g: GenerationView,
    s: SnapshotView,
    m: ResolverLinkManager,
    name: Seq<char>,
)
    ensures
        draft_fault(record, g, s, m, name) is None <==> {
            &&& !needs_recovery(s)
            &&& s.selected_link is Some && s.selected_link->0.manager == m
                && s.selected_link->0.interface_name == name
            &&& !(record is Some && record->0.previous is Some && record->0.previous->0.id == g.id)
        },
{
}

/// A plan has effects exactly where it is no update to what is installed, and it is
/// for the generation, the link, the sources and the state that it was drafted from.
pub proof fn law_plans_are_for_what_was_asked(
    o: Operation,
    record: Option<RecordView>,
    g: GenerationView,
    s: SnapshotView,
    source_manifest: Seq<u8>,
    link: u32,
)
    ensures
        ({
            let d = install_draft(o, record, g, s, source_manifest, link);
            &&& d.operation == o
            &&& d.generation == Some(g)
            &&& d.generation_id == Some(uuid_text(g.id))
            &&& d.previous_generation_id is Some == record is Some
            &&& record is Some ==> d.previous_generation_id == Some(uuid_text(record->0.current.id))
            &&& d.link_index == Some(link)
            &&& d.source_digest == Some(source_manifest)
            &&& d.source_manifest_sha256 == Some(hex_bytes(source_manifest))
            &&& d.activation_record_digest == s.activation_record_digest
            &&& d.daemon_plan_identity == s.daemon_plan_identity
            &&& d.daemon_plan_observed == s.daemon_plan_observed
            &&& d.has_effects <==> !(o == Operation::Update && record is Some && record->0.current
                == g)
            &&& !d.has_effects ==> d.effects.len() == 0
        }),
{
}

/// A recovery is drafted exactly where one is needed and everything that it would
/// touch is the product's: files that are not intact are mended only where the
/// installation is whole but for links that are missing; a record that needs an
/// activation has one; and what no record owns is left to an administrator.
pub proof fn law_recoveries_never_guess(
    record: Option<RecordView>,
    activated: bool,
    s: SnapshotView,
    integrity: Result<(), FaultView>,
    installation: Result<(), FaultView>,
    missing: Result<Seq<PublishedLinkView>, FaultView>,
)
    ensures
        ({
            let d = recovery_draft(record, activated, s, integrity, installation, missing);
            let broken = s.active_integrity_valid == Some(false);
            &&& d is Ok <==> {
                &&& needs_recovery(s)
                &&& broken ==> record is Some && installation is Ok && missing is Ok
                    && missing->Ok_0.len() > 0
                &&& record is Some ==> !blocked_without_activation(record->0, activated)
                &&& record is None ==> !activated && !unowned_runtime(s) && !unowned_publications(s)
            }
            &&& d is Ok ==> {
                let r = d->Ok_0;
                &&& r.publication_repairs == (if broken {
                    missing->Ok_0
                } else {
                    Seq::empty()
                })
                &&& r.state_residue == s.state_residue
                &&& r.bootstrap_residues == s.bootstrap_residues
                &&& r.resolver_authority_required == authority_needed(s)
                &&& r.daemon_plan_identity == s.daemon_plan_identity
                &&& r.daemon_plan_observed == s.daemon_plan_observed
            }
        }),
{
}

/// Two plans that rest on the same authority were bound to the same state and are for
/// the same generation, activation and daemon plan; the same holds of recoveries,
/// which also mend the same links.
pub proof fn law_same_authority_is_the_same_ground(
    a: PlanView,
    b: PlanView,
    r: RecoveryView,
    q: RecoveryView,
)
    ensures
        same_plan_authority(a, b) ==> a.state_digest == b.state_digest && a.approval_token
            == b.approval_token && a.draft.generation == b.draft.generation
            && a.draft.activation_record_digest == b.draft.activation_record_digest
            && a.draft.daemon_plan_identity == b.draft.daemon_plan_identity
            && a.draft.daemon_plan_observed == b.draft.daemon_plan_observed,
        same_recovery_authority(r, q) ==> r.state_digest == q.state_digest && r.approval_token
            == q.approval_token && r.draft.publication_repairs == q.draft.publication_repairs
            && r.draft.resolver_authority_required == q.draft.resolver_authority_required
            && r.draft.daemon_plan_identity == q.draft.daemon_plan_identity
            && r.draft.daemon_plan_observed == q.draft.daemon_plan_observed,
{
}

} // verus!
