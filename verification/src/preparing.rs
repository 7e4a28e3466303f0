//! The preparation of a plan: which observation is asked first, which refusal
//! comes before which, and what the plan is bound to in the end.

use vstd::prelude::*;

use crate::approval::{
    approval_text, law_approval_binds_the_plan, law_approval_binds_the_recovery, recovery_text,
    ApprovalView,
};
use crate::digest::sha256_of;
use crate::effects::Operation;
use crate::fault::{fault, hand_on, Fault, FaultKind, FaultView};
use crate::files::result_view;
use crate::generation::{
    prepare, prepared_generation, public_paths, GenerationInputs, InstallRequest, PreparedArtifact,
    PreparedView,
};
use crate::model::{option_record, GenerationView, InstallRecord, RecordView};
use crate::native::ResolverLinkManager;
use crate::order::views;
use crate::plan::{
    approved, approved_link, bind, bind_recovery, bound, bound_recovery, capability_fault,
    draft_approval, draft_fault, draft_install, draft_recovery, draft_uninstall, install_draft,
    is_retained, prepare_authority, prepared_authority, record_result, recovery_draft,
    require_installed, require_new_generation, require_update_capability, retained_of,
    root_missing_of, uninstall_draft, uninstallable, AuthorityInputs, InspectionResult, Listeners,
    MissingLinks, PlanView, PreparedPlan, PreparedRecovery, RecoveryView, RemovableDirectories,
};
use crate::snapshot::{SnapshotView, StateSnapshot};
use crate::state::{law_state_text_tells_the_state, state_bytes};

verus! {

/// The state that a plan is bound to, or why it could not be taken.
#[derive(Debug)]
pub struct StateResult {
    pub result: Result<StateSnapshot, Fault>,
}

impl View for StateResult {
    type V = Result<SnapshotView, FaultView>;

    open spec fn view(&self) -> Result<SnapshotView, FaultView> {
        match self.result {
            Ok(s) => Ok(s@),
            Err(e) => Err(e@),
        }
    }
}

// ---------------------------------------------------------------------------
// Installation and update
// ---------------------------------------------------------------------------

/// Everything that is observed for an installation or an update. The outcome of
/// the reservation counts where the listeners had to be reserved.
pub struct InstallInputs {
    pub authority: AuthorityInputs,
    pub reserved: Result<(), Fault>,
    pub inspection: InspectionResult,
    pub sources: GenerationInputs,
    pub state: StateResult,
}

/// The observations of the sources are complete: one for each manual page and
/// one for each public directory.
pub open spec fn complete(i: GenerationInputs) -> bool {
    i.manpages@.len() == 22 && i.directories@.len() == public_paths().len()
}

/// The plan for a link and a generation that may be installed, or why there is
/// none.
pub open spec fn planned_install(
    o: Operation,
    request: InstallRequest,
    record: Option<RecordView>,
    m: ResolverLinkManager,
    name: Seq<char>,
    g: GenerationView,
    state: Result<SnapshotView, FaultView>,
) -> Result<PlanView, FaultView> {
    if is_retained(record, g) {
        Err(retained_of())
    } else {
        match state {
            Err(e) => Err(e),
            Ok(s) => match draft_fault(record, g, s, m, name) {
                Some(e) => Err(e),
                None => Ok(
                    bound(
                        install_draft(
                            o,
                            record,
                            g,
                            s,
                            request.source_manifest_sha256@,
                            request.link,
                        ),
                        s,
                    ),
                ),
            },
        }
    }
}

/// The plan of an installation or an update with the files to be written, or the
/// first thing that stands against it: the authority, the listeners, the
/// capability of what is installed, the link, the sources, the generation that
/// would be replaced, and the state of the host, in this order.
pub open spec fn prepared_install(o: Operation, request: InstallRequest, i: InstallInputs) -> Result<
    (PlanView, Seq<PreparedView>),
    FaultView,
> {
    match prepared_authority(o, i.authority) {
        Err(e) => Err(e),
        Ok(course) => if course == Listeners::Reserve && i.reserved is Err {
            Err(i.reserved->Err_0@)
        } else {
            let record = option_record(i.authority.record->Ok_0);
            match capability_fault(o, record) {
                Some(e) => Err(e),
                None => match approved(i.inspection@, record) {
                    Err(e) => Err(e),
                    Ok((m, name)) => match prepared_generation(
                        request,
                        i.sources,
                        match record {
                            Some(r) => Some(r.current),
                            None => None,
                        },
                        m,
                        name,
                    ) {
                        Err(e) => Err(e),
                        Ok((g, files)) => match planned_install(
                            o,
                            request,
                            record,
                            m,
                            name,
                            g,
                            i.state@,
                        ) {
                            Err(e) => Err(e),
                            Ok(plan) => Ok((plan, files)),
                        },
                    },
                },
            }
        },
    }
}

/// Prepares an installation or an update.
pub fn prepare_install(operation: Operation, request: &InstallRequest, inputs: &InstallInputs) -> (r:
    Result<(PreparedPlan, Vec<PreparedArtifact>), Fault>)
    requires
        complete(inputs.sources),
    ensures
        match r {
            Ok((plan, files)) => prepared_install(operation, *request, *inputs) == Ok::<
                (PlanView, Seq<PreparedView>),
                FaultView,
            >((plan@, views(files@))),
            Err(e) => prepared_install(operation, *request, *inputs) == Err::<
                (PlanView, Seq<PreparedView>),
                FaultView,
            >(e@),
        },
{
    let course = match prepare_authority(operation, &inputs.authority) {
        Ok(course) => course,
        Err(e) => {
            return Err(e);
        },
    };
    if course == Listeners::Reserve {
        if let Err(e) = &inputs.reserved {
            return Err(hand_on(e));
        }
    }
    let record = match &inputs.authority.record {
        Ok(record) => record,
        Err(e) => {
            return Err(hand_on(e));
        },
    };
    if let Err(e) = require_update_capability(operation, record) {
        return Err(e);
    }
    let (manager, name) = match approved_link(&inputs.inspection, record) {
        Ok(v) => v,
        Err(e) => {
            return Err(e);
        },
    };
    let previous = match record {
        Some(installed) => Some(&installed.current),
        None => None,
    };
    let (generation, files) = match prepare(
        request,
        &inputs.sources,
        previous,
        manager,
        name.as_str(),
    ) {
        Ok(v) => v,
        Err(e) => {
            return Err(e);
        },
    };
    if let Err(e) = require_new_generation(record, &generation) {
        return Err(e);
    }
    let state = match &inputs.state.result {
        Ok(state) => state,
        Err(e) => {
            return Err(hand_on(e));
        },
    };
    match draft_install(
        operation,
        record,
        generation,
        state,
        &request.source_manifest_sha256,
        request.link,
        manager,
        name.as_str(),
    ) {
        Ok(draft) => Ok((bind(draft, state), files)),
        Err(e) => Err(e),
    }
}

// ---------------------------------------------------------------------------
// Uninstallation
// ---------------------------------------------------------------------------

/// The plan of an uninstallation, or the first thing that stands against it: the
/// authority, the record, the integrity of what is installed, the state of the
/// host, and the directories that would go, in this order.
pub open spec fn prepared_uninstall(
    effective_uid: u32,
    record: Result<Option<RecordView>, FaultView>,
    integrity: Result<(), FaultView>,
    state: Result<SnapshotView, FaultView>,
    removable: Result<Seq<Seq<char>>, FaultView>,
) -> Result<PlanView, FaultView> {
    match uninstallable(effective_uid, record, integrity) {
        Err(e) => Err(e),
        Ok(installed) => match state {
            Err(e) => Err(e),
            Ok(s) => match uninstall_draft(installed, s, removable) {
                Err(e) => Err(e),
                Ok(d) => Ok(bound(d, s)),
            },
        },
    }
}

/// Prepares an uninstallation.
pub fn prepare_uninstall(
    effective_uid: u32,
    record: Result<Option<InstallRecord>, Fault>,
    integrity: &Result<(), Fault>,
    state: &StateResult,
    removable: &RemovableDirectories,
) -> (r: Result<PreparedPlan, Fault>)
    ensures
        match r {
            Ok(plan) => prepared_uninstall(
                effective_uid,
                record_result(record),
                result_view(*integrity),
                state@,
                removable@,
            ) == Ok::<PlanView, FaultView>(plan@),
            Err(e) => prepared_uninstall(
                effective_uid,
                record_result(record),
                result_view(*integrity),
                state@,
                removable@,
            ) == Err::<PlanView, FaultView>(e@),
        },
{
    let installed = match require_installed(effective_uid, record, integrity) {
        Ok(installed) => installed,
        Err(e) => {
            return Err(e);
        },
    };
    let snapshot = match &state.result {
        Ok(snapshot) => snapshot,
        Err(e) => {
            return Err(hand_on(e));
        },
    };
    match draft_uninstall(&installed, snapshot, removable) {
        Ok(draft) => Ok(bind(draft, snapshot)),
        Err(e) => Err(e),
    }
}

// ---------------------------------------------------------------------------
// Recovery
// ---------------------------------------------------------------------------

/// Everything that is observed for a recovery. The integrity is that of the whole
/// installation, the installation's outcome that of all but its public links.
#[derive(Debug)]
pub struct RecoveryInputs {
    pub effective_uid: u32,
    pub record: Result<Option<InstallRecord>, Fault>,
    pub activated: Result<bool, Fault>,
    pub state: StateResult,
    pub integrity: Result<(), Fault>,
    pub installation: Result<(), Fault>,
    pub missing: MissingLinks,
}

/// The plan of a recovery, or the first thing that stands against it: the
/// authority, the record, the activation, the state of the host, and what the
/// draft is refused for, in this order.
pub open spec fn prepared_recovery(i: RecoveryInputs) -> Result<RecoveryView, FaultView> {
    if i.effective_uid != 0 {
        Err(root_missing_of())
    } else {
        match record_result(i.record) {
            Err(e) => Err(e),
            Ok(record) => match i.activated {
                Err(e) => Err(e@),
                Ok(activated) => match i.state@ {
                    Err(e) => Err(e),
                    Ok(s) => match recovery_draft(
                        record,
                        activated,
                        s,
                        result_view(i.integrity),
                        result_view(i.installation),
                        i.missing@,
                    ) {
                        Err(e) => Err(e),
                        Ok(d) => Ok(bound_recovery(d, s)),
                    },
                },
            },
        }
    }
}

/// Prepares a recovery.
pub fn prepare_recovery(inputs: RecoveryInputs) -> (r: Result<PreparedRecovery, Fault>)
    ensures
        match r {
            Ok(plan) => prepared_recovery(inputs) == Ok::<RecoveryView, FaultView>(plan@),
            Err(e) => prepared_recovery(inputs) == Err::<RecoveryView, FaultView>(e@),
        },
{
    if inputs.effective_uid != 0 {
        return Err(
            fault(FaultKind::PermissionDenied, "the Linux lifecycle authority requires root"),
        );
    }
    let record = match inputs.record {
        Ok(record) => record,
        Err(e) => {
            return Err(e);
        },
    };
    let activated = match inputs.activated {
        Ok(activated) => activated,
        Err(e) => {
            return Err(e);
        },
    };
    let snapshot = match inputs.state.result {
        Ok(snapshot) => snapshot,
        Err(e) => {
            return Err(e);
        },
    };
    match draft_recovery(
        &record,
        activated,
        &snapshot,
        &inputs.integrity,
        &inputs.installation,
        inputs.missing,
    ) {
        Ok(draft) => Ok(bind_recovery(draft, &snapshot)),
        Err(e) => Err(e),
    }
}

// ---------------------------------------------------------------------------
// Laws
// ---------------------------------------------------------------------------

/// What a plan's token is taken over.
pub open spec fn approved_for(p: PlanView) -> ApprovalView {
    draft_approval(p.draft, p.state_digest)
}

/// Two byte sequences are a collision of the digest.
pub open spec fn collide(a: Seq<u8>, b: Seq<u8>) -> bool {
    a != b && sha256_of(a) == sha256_of(b)
}

/// Nothing is prepared for a user other than root.
pub proof fn law_preparation_needs_root(
    o: Operation,
    request: InstallRequest,
    i: InstallInputs,
    u: RecoveryInputs,
    record: Result<Option<RecordView>, FaultView>,
    integrity: Result<(), FaultView>,
    state: Result<SnapshotView, FaultView>,
    removable: Result<Seq<Seq<char>>, FaultView>,
    uid: u32,
)
    requires
        uid != 0,
        i.authority.effective_uid == uid,
        u.effective_uid == uid,
    ensures
        prepared_install(o, request, i) == Err::<(PlanView, Seq<PreparedView>), FaultView>(
            root_missing_of(),
        ),
        prepared_recovery(u) == Err::<RecoveryView, FaultView>(root_missing_of()),
        prepared_uninstall(uid, record, integrity, state, removable) == Err::<
            PlanView,
            FaultView,
        >(root_missing_of()),
{
}

/// A plan of an installation is for the operation, the link and the reviewed
/// sources of the request, for the generation that was prepared from them, and
/// bound to the state that was observed.
pub proof fn law_plans_follow_the_request(o: Operation, request: InstallRequest, i: InstallInputs)
    requires
        prepared_install(o, request, i) is Ok,
    ensures
        ({
            let plan = prepared_install(o, request, i)->Ok_0.0;
            &&& plan.draft.operation == o
            &&& plan.draft.link_index == Some(request.link)
            &&& plan.draft.source_digest == Some(request.source_manifest_sha256@)
            &&& plan.draft.generation is Some
            &&& plan.draft.generation->0.link == request.link
            &&& plan.draft.generation->0.owner_uid == request.owner_uid
            &&& i.state@ is Ok
            &&& plan.state_digest == sha256_of(state_bytes(i.state@->Ok_0))
            &&& !is_retained(
                option_record(i.authority.record->Ok_0),
                plan.draft.generation->0,
            )
        }),
{
}

/// A plan is bound to everything that was found: where two preparations are
/// approved for the same, their states are the same, or their bytes are a collision
/// of the digest.
pub proof fn law_plans_bind_the_state(
    o: Operation,
    request: InstallRequest,
    i: InstallInputs,
    j: InstallInputs,
)
    requires
        prepared_install(o, request, i) is Ok,
        prepared_install(o, request, j) is Ok,
        approval_text(approved_for(prepared_install(o, request, i)->Ok_0.0)) == approval_text(
            approved_for(prepared_install(o, request, j)->Ok_0.0),
        ),
    ensures
        i.state@ == j.state@ || collide(
            state_bytes(i.state@->Ok_0),
            state_bytes(j.state@->Ok_0),
        ),
{
    let a = prepared_install(o, request, i)->Ok_0.0;
    let b = prepared_install(o, request, j)->Ok_0.0;
    law_approval_binds_the_plan(approved_for(a), approved_for(b));
    if state_bytes(i.state@->Ok_0) == state_bytes(j.state@->Ok_0) {
        law_state_text_tells_the_state(i.state@->Ok_0, j.state@->Ok_0);
    }
}

/// So is the plan of an uninstallation.
pub proof fn law_uninstallations_bind_the_state(
    record: Result<Option<RecordView>, FaultView>,
    integrity: Result<(), FaultView>,
    s: SnapshotView,
    t: SnapshotView,
    removable: Result<Seq<Seq<char>>, FaultView>,
    other: Result<Seq<Seq<char>>, FaultView>,
)
    requires
        prepared_uninstall(0, record, integrity, Ok(s), removable) is Ok,
        prepared_uninstall(0, record, integrity, Ok(t), other) is Ok,
        approval_text(
            approved_for(prepared_uninstall(0, record, integrity, Ok(s), removable)->Ok_0),
        ) == approval_text(
            approved_for(prepared_uninstall(0, record, integrity, Ok(t), other)->Ok_0),
        ),
    ensures
        s == t || collide(state_bytes(s), state_bytes(t)),
{
    let a = prepared_uninstall(0, record, integrity, Ok(s), removable)->Ok_0;
    let b = prepared_uninstall(0, record, integrity, Ok(t), other)->Ok_0;
    law_approval_binds_the_plan(approved_for(a), approved_for(b));
    if state_bytes(s) == state_bytes(t) {
        law_state_text_tells_the_state(s, t);
    }
}

/// A recovery is bound to everything that was found, the identities and digests of
/// every residue among it, in the same way.
pub proof fn law_recoveries_bind_the_state(i: RecoveryInputs, j: RecoveryInputs)
    requires
        prepared_recovery(i) is Ok,
        prepared_recovery(j) is Ok,
        recovery_text(
            prepared_recovery(i)->Ok_0.state_digest,
            prepared_recovery(i)->Ok_0.draft.effects,
        ) == recovery_text(
            prepared_recovery(j)->Ok_0.state_digest,
            prepared_recovery(j)->Ok_0.draft.effects,
        ),
    ensures
        collide(state_bytes(i.state@->Ok_0), state_bytes(j.state@->Ok_0)) || {
            &&& i.state@ == j.state@
            &&& prepared_recovery(i)->Ok_0.draft.bootstrap_residues
                == prepared_recovery(j)->Ok_0.draft.bootstrap_residues
            &&& prepared_recovery(i)->Ok_0.draft.state_residue
                == prepared_recovery(j)->Ok_0.draft.state_residue
        },
{
    let a = prepared_recovery(i)->Ok_0;
    let b = prepared_recovery(j)->Ok_0;
    law_approval_binds_the_recovery(a.state_digest, b.state_digest, a.draft.effects, b.draft.effects);
    if state_bytes(i.state@->Ok_0) == state_bytes(j.state@->Ok_0) {
        law_state_text_tells_the_state(i.state@->Ok_0, j.state@->Ok_0);
    }
}

} // verus!
