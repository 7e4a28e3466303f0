//! When an installation needs recovery, and what stands in the way of it.

use vstd::prelude::*;
use vstd::string::*;
use vstd::utf8::encode_utf8;

use crate::bootstrap::BootstrapResidue;
use crate::cleanup::{needs_quiescence, StateResidue};
use crate::fault::{conflict, conflict_of, Fault, FaultKind, FaultView};
use crate::files::agrees;
use crate::model::{option_record, InstallPhase, InstallRecord, RecordView};
use crate::native::{Activation, ActivationPhase};
use crate::observation::{PathState, PathStateView};
use crate::order::{contains_text, views};
use crate::snapshot::{ServiceStatus, ServiceView, SnapshotView, StateSnapshot};
use crate::text::{byte_length, concat, same};
use crate::units::{daemon_unit, resolver_unit, socket_unit_names, socket_units};

verus! {

/// The longest detail that an integrity failure repeats, in bytes.
pub const MAX_INTEGRITY_DETAIL_BYTES: usize = 256;

/// The failure of an active installation that is not what its record says.
pub open spec fn integrity_conflict_of(detail: Option<Seq<char>>) -> FaultView {
    conflict_of(
        match detail {
            Some(d) => if d.len() > 0 && encode_utf8(d).len() <= MAX_INTEGRITY_DETAIL_BYTES {
                "the active Linux installation failed exact integrity: "@ + d
            } else {
                "the active Linux installation changed during exact integrity inspection"@
            },
            None => "the active Linux installation changed during exact integrity inspection"@,
        },
    )
}

/// The failure of an active installation, with its detail where that is short.
pub fn integrity_conflict_from_detail(detail: Option<&str>) -> (r: Fault)
    ensures
        r@ == integrity_conflict_of(
            match detail {
                Some(d) => Some(d@),
                None => None,
            },
        ),
{
    match detail {
        Some(d) => {
            let count: usize = byte_length(d);
            if !is_empty(d) && count <= MAX_INTEGRITY_DETAIL_BYTES {
                let message = concat("the active Linux installation failed exact integrity: ", d);
                return Fault { kind: FaultKind::AlreadyExists, message };
            }
            conflict("the active Linux installation changed during exact integrity inspection")
        },
        None => conflict(
            "the active Linux installation changed during exact integrity inspection",
        ),
    }
}

fn is_empty(s: &str) -> (r: bool)
    ensures
        r == (s@.len() == 0),
{
    proof {
        reveal_strlit("");
        if s@.len() == 0 {
            assert(s@ =~= ""@);
        }
    }
    same(s, "")
}

/// The failure that the integrity of an installation gives.
pub fn active_integrity_conflict(integrity: Option<&Result<(), Fault>>) -> (r: Fault)
    ensures
        r@ == integrity_conflict_of(
            match integrity {
                Some(Err(e)) => Some(e@.message),
                _ => None,
            },
        ),
{
    match integrity {
        Some(Err(e)) => integrity_conflict_from_detail(Some(e.message.as_str())),
        _ => integrity_conflict_from_detail(None),
    }
}

// ---------------------------------------------------------------------------
// Units and paths
// ---------------------------------------------------------------------------

/// Whether the product needs a unit to run.
pub open spec fn is_required_unit(unit: Seq<char>) -> bool {
    socket_units().contains(unit) || unit == resolver_unit() || unit == daemon_unit()
}

/// Whether a unit that the product needs is not active.
pub open spec fn some_required_inactive(s: Seq<ServiceView>) -> bool {
    exists|i: int|
        0 <= i < s.len() && is_required_unit((#[trigger] s[i]).unit) && s[i].state != "active"@
}

/// Whether a unit that the product needs is not active.
pub fn required_service_inactive(services: &Vec<ServiceStatus>) -> (r: bool)
    ensures
        r == some_required_inactive(views(services@)),
{
    let ghost sv = views(services@);
    let sockets = socket_unit_names();
    let mut i: usize = 0;
    while i < services.len()
        invariant
            i <= services@.len(),
            sv == views(services@),
            views(sockets@) == socket_units(),
            forall|k: int|
                0 <= k < i ==> !(is_required_unit((#[trigger] sv[k]).unit) && sv[k].state
                    != "active"@),
        decreases services@.len() - i,
    {
        proof {
            assert(sv[i as int] == services@[i as int]@);
        }
        let unit = services[i].unit.as_str();
        let required = contains_text(sockets.as_slice(), unit) || same(
            unit,
            "remap-resolver.service",
        ) || same(unit, "remapd.service");
        if required && !same(services[i].state.as_str(), "active") {
            proof {
                assert(is_required_unit(sv[i as int].unit));
            }
            return true;
        }
        i += 1;
    }
    false
}

/// Whether the daemon or the supervisor is not active.
pub open spec fn runtime_inactive(s: Seq<ServiceView>) -> bool {
    exists|i: int|
        0 <= i < s.len() && ((#[trigger] s[i]).unit == resolver_unit() || s[i].unit
            == daemon_unit()) && s[i].state != "active"@
}

fn runtime_service_inactive(services: &Vec<ServiceStatus>) -> (r: bool)
    ensures
        r == runtime_inactive(views(services@)),
{
    let ghost sv = views(services@);
    let mut i: usize = 0;
    while i < services.len()
        invariant
            i <= services@.len(),
            sv == views(services@),
            forall|k: int|
                0 <= k < i ==> !(((#[trigger] sv[k]).unit == resolver_unit() || sv[k].unit
                    == daemon_unit()) && sv[k].state != "active"@),
        decreases services@.len() - i,
    {
        proof {
            assert(sv[i as int] == services@[i as int]@);
        }
        let unit = services[i].unit.as_str();
        if (same(unit, "remap-resolver.service") || same(unit, "remapd.service")) && !same(
            services[i].state.as_str(),
            "active",
        ) {
            return true;
        }
        i += 1;
    }
    false
}

/// Whether the service manager knows any of the units.
pub open spec fn some_unit_known(s: Seq<ServiceView>) -> bool {
    exists|i: int| 0 <= i < s.len() && (#[trigger] s[i]).state != "not_found"@
}

/// Whether the service manager knows any of the units.
pub fn any_unit_known(services: &Vec<ServiceStatus>) -> (r: bool)
    ensures
        r == some_unit_known(views(services@)),
{
    let ghost sv = views(services@);
    let mut i: usize = 0;
    while i < services.len()
        invariant
            i <= services@.len(),
            sv == views(services@),
            forall|k: int| 0 <= k < i ==> (#[trigger] sv[k]).state == "not_found"@,
        decreases services@.len() - i,
    {
        proof {
            assert(sv[i as int] == services@[i as int]@);
        }
        if !same(services[i].state.as_str(), "not_found") {
            return true;
        }
        i += 1;
    }
    false
}

/// Whether anything stands at one of the recorded paths.
pub open spec fn some_path_occupied(s: Seq<PathStateView>) -> bool {
    exists|i: int| 0 <= i < s.len() && (#[trigger] s[i]).kind != "absent"@
}

fn any_path_occupied(publications: &Vec<PathState>) -> (r: bool)
    ensures
        r == some_path_occupied(views(publications@)),
{
    let ghost pv = views(publications@);
    let mut i: usize = 0;
    while i < publications.len()
        invariant
            i <= publications@.len(),
            pv == views(publications@),
            forall|k: int| 0 <= k < i ==> (#[trigger] pv[k]).kind == "absent"@,
        decreases publications@.len() - i,
    {
        proof {
            assert(pv[i as int] == publications@[i as int]@);
        }
        if !publications[i].is_absent() {
            return true;
        }
        i += 1;
    }
    false
}

/// Whether units are known that no record owns.
pub open spec fn unowned_runtime(s: SnapshotView) -> bool {
    s.install_record is None && some_unit_known(s.services)
}

/// Whether units are known that no record owns.
pub fn unowned_runtime_namespace(s: &StateSnapshot) -> (r: bool)
    ensures
        r == unowned_runtime(s@),
{
    match s.install_record {
        None => any_unit_known(&s.services),
        Some(_) => false,
    }
}

/// Whether paths are occupied that no record owns.
pub open spec fn unowned_publications(s: SnapshotView) -> bool {
    s.install_record is None && some_path_occupied(s.publications)
}

/// Whether paths are occupied that no record owns.
pub fn unowned_publication_namespace(s: &StateSnapshot) -> (r: bool)
    ensures
        r == unowned_publications(s@),
{
    match s.install_record {
        None => any_path_occupied(&s.publications),
        Some(_) => false,
    }
}

// ---------------------------------------------------------------------------
// Activations
// ---------------------------------------------------------------------------

/// Whether a record may stand without an activation.
pub open spec fn may_lack_activation(r: RecordView) -> bool {
    ||| r.phase is Uninstalling
    ||| r.previous is None && (r.phase is Staging || r.phase is Staged || r.phase is Published
        || r.phase is RollingBack)
}

/// Whether a record may stand without an activation.
pub fn permits_missing_activation(record: &InstallRecord) -> (r: bool)
    ensures
        r == may_lack_activation(record@),
{
    let first = match record.previous {
        None => true,
        Some(_) => false,
    };
    match record.phase {
        InstallPhase::Uninstalling(_) => true,
        InstallPhase::Staging | InstallPhase::Staged | InstallPhase::Published
        | InstallPhase::RollingBack(_) => first,
        InstallPhase::Active | InstallPhase::Pruning => false,
    }
}

/// Whether a missing activation stands in the way of recovery.
pub open spec fn blocked_without_activation(r: RecordView, present: bool) -> bool {
    !present && !may_lack_activation(r)
}

/// Whether a missing activation stands in the way of recovery.
pub fn missing_activation_blocks(record: &InstallRecord, activation_present: bool) -> (r: bool)
    ensures
        r == blocked_without_activation(record@, activation_present),
{
    !activation_present && !permits_missing_activation(record)
}

pub open spec fn in_transition(phase: Option<ActivationPhase>) -> bool {
    phase is Some && phase->0 != ActivationPhase::Active
}

fn phase_in_transition(phase: Option<ActivationPhase>) -> (r: bool)
    ensures
        r == in_transition(phase),
{
    match phase {
        Some(p) => p != ActivationPhase::Active,
        None => false,
    }
}

pub open spec fn unsettled(record: Option<RecordView>) -> bool {
    record is Some && record->0.phase != InstallPhase::Active
}

fn record_unsettled(record: &Option<InstallRecord>) -> (r: bool)
    ensures
        r == unsettled(option_record(*record)),
{
    match record {
        Some(r) => r.phase != InstallPhase::Active,
        None => false,
    }
}

// ---------------------------------------------------------------------------
// The need for recovery
// ---------------------------------------------------------------------------

pub open spec fn phase_of(activation: Option<Activation>) -> Option<ActivationPhase> {
    match activation {
        Some(a) => Some(a.phase),
        None => None,
    }
}

/// Whether a status shows that recovery is needed.
pub open spec fn status_needs_recovery(
    record: Option<RecordView>,
    activation: Option<Activation>,
    services: Seq<ServiceView>,
    bootstrap: bool,
    residue: bool,
) -> bool {
    ||| unsettled(record)
    ||| in_transition(phase_of(activation))
    ||| record is Some != activation is Some
    ||| record is Some && some_required_inactive(services)
    ||| bootstrap
    ||| residue
    ||| record is None && some_unit_known(services)
}

/// Whether a status shows that recovery is needed.
pub fn status_required(
    record: &Option<InstallRecord>,
    activation: &Option<Activation>,
    services: &Vec<ServiceStatus>,
    bootstrap_residues: &Vec<BootstrapResidue>,
    state_residue: &Option<StateResidue>,
) -> (r: bool)
    ensures
        r == status_needs_recovery(
            option_record(*record),
            *activation,
            views(services@),
            bootstrap_residues@.len() > 0,
            *state_residue is Some,
        ),
{
    let installed = match record {
        Some(_) => true,
        None => false,
    };
    let (activated, phase) = match activation {
        Some(a) => (true, Some(a.phase)),
        None => (false, None),
    };
    let residue = match state_residue {
        Some(_) => true,
        None => false,
    };
    record_unsettled(record) || phase_in_transition(phase) || (installed && !activated) || (
    installed && required_service_inactive(services)) || (!installed && activated)
        || bootstrap_residues.len() > 0 || residue || (!installed && any_unit_known(services))
}

/// Whether a snapshot shows that recovery is needed.
pub open spec fn needs_recovery(s: SnapshotView) -> bool {
    ||| unsettled(s.install_record)
    ||| s.active_integrity_valid == Some(false)
    ||| !s.daemon_plan_valid
    ||| !s.activation_state_valid
    ||| in_transition(s.activation_phase)
    ||| s.install_record is Some && some_required_inactive(s.services)
    ||| s.install_record is Some != s.activation_phase is Some
    ||| s.bootstrap_residues.len() > 0
    ||| s.state_residue is Some
    ||| unowned_runtime(s)
    ||| unowned_publications(s)
}

/// Whether a snapshot shows that recovery is needed.
pub fn snapshot_required(s: &StateSnapshot) -> (r: bool)
    ensures
        r == needs_recovery(s@),
{
    let installed = match s.install_record {
        Some(_) => true,
        None => false,
    };
    let activated = match s.activation_phase {
        Some(_) => true,
        None => false,
    };
    let broken = match s.active_integrity_valid {
        Some(valid) => !valid,
        None => false,
    };
    let residue = match s.state_residue {
        Some(_) => true,
        None => false,
    };
    proof {
        assert(s@.bootstrap_residues.len() == s.bootstrap_residues@.len());
    }
    record_unsettled(&s.install_record) || broken || !s.daemon_plan_valid
        || !s.activation_state_valid || phase_in_transition(s.activation_phase) || (installed
        && required_service_inactive(&s.services)) || (!installed && activated) || (installed
        && !activated) || s.bootstrap_residues.len() > 0 || residue || unowned_runtime_namespace(s)
        || unowned_publication_namespace(s)
}

/// Whether recovery touches the resolver, and so needs its authority.
pub open spec fn authority_needed(s: SnapshotView) -> bool {
    ||| unsettled(s.install_record)
    ||| !s.activation_state_valid
    ||| !s.daemon_plan_valid
    ||| in_transition(s.activation_phase)
    ||| s.install_record is Some != s.activation_phase is Some
    ||| s.state_residue is Some && needs_quiescence(s.state_residue->0)
    ||| runtime_inactive(s.services)
}

/// Whether recovery touches the resolver, and so needs its authority.
pub fn needs_resolver_authority(s: &StateSnapshot) -> (r: bool)
    ensures
        r == authority_needed(s@),
{
    let installed = match s.install_record {
        Some(_) => true,
        None => false,
    };
    let activated = match s.activation_phase {
        Some(_) => true,
        None => false,
    };
    let quiescence = match &s.state_residue {
        Some(residue) => residue.requires_resolver_quiescence(),
        None => false,
    };
    record_unsettled(&s.install_record) || !s.activation_state_valid || !s.daemon_plan_valid
        || phase_in_transition(s.activation_phase) || (!installed && activated) || (installed
        && !activated) || quiescence || runtime_service_inactive(&s.services)
}

/// Whether the runtime of an active installation has to be recovered.
pub open spec fn active_runtime_broken(s: SnapshotView) -> bool {
    ||| some_required_inactive(s.services)
    ||| !s.activation_state_valid
    ||| !s.daemon_plan_valid
    ||| s.activation_phase != Some(ActivationPhase::Active)
}

/// Whether the runtime of an active installation has to be recovered.
pub fn active_runtime_requires_recovery(s: &StateSnapshot) -> (r: bool)
    ensures
        r == active_runtime_broken(s@),
{
    let settled = match s.activation_phase {
        Some(p) => p == ActivationPhase::Active,
        None => false,
    };
    required_service_inactive(&s.services) || !s.activation_state_valid || !s.daemon_plan_valid
        || !settled
}

/// A plan is prepared only where nothing has to be recovered first.
pub fn require_no_recovery(s: &StateSnapshot) -> (r: Result<(), Fault>)
    ensures
        agrees(
            r,
            if needs_recovery(s@) {
                Some(
                    conflict_of("the Linux installation requires separately approved recovery"@),
                )
            } else {
                None
            },
        ),
{
    if snapshot_required(s) {
        Err(conflict("the Linux installation requires separately approved recovery"))
    } else {
        Ok(())
    }
}

// ---------------------------------------------------------------------------
// Laws
// ---------------------------------------------------------------------------

/// Where the runtime of an active installation is broken, recovery is offered.
pub proof fn law_broken_runtime_needs_recovery(s: SnapshotView)
    requires
        s.install_record is Some,
        active_runtime_broken(s),
    ensures
        needs_recovery(s),
{
}

/// Recovery that needs the resolver's authority is recovery that is needed,
/// wherever an installation is recorded.
pub proof fn law_authority_is_for_recovery(s: SnapshotView)
    requires
        s.install_record is Some,
        authority_needed(s),
    ensures
        needs_recovery(s),
{
    if runtime_inactive(s.services) {
        let i = choose|i: int|
            0 <= i < s.services.len() && ((#[trigger] s.services[i]).unit == resolver_unit()
                || s.services[i].unit == daemon_unit()) && s.services[i].state != "active"@;
        assert(is_required_unit(s.services[i].unit));
    }
}

/// An activation is missed by no record of an uninstallation, and by none of a
/// first installation that has not been accepted yet.
pub proof fn law_replayable_records_miss_no_activation(r: RecordView)
    requires
        r.phase is Uninstalling || (r.previous is None && r.phase != InstallPhase::Active && r.phase
            != InstallPhase::Pruning),
    ensures
        !blocked_without_activation(r, false),
{
}

/// Whether nothing of the product is on the host: no record, no activation, no unit
/// that the service manager knows, no publication and no residue.
pub open spec fn soundly_absent(s: SnapshotView) -> bool {
    &&& s.install_record is None
    &&& s.activation_phase is None
    &&& forall|i: int| 0 <= i < s.services.len() ==> (#[trigger] s.services[i]).state == "not_found"@
    &&& forall|i: int|
        0 <= i < s.publications.len() ==> (#[trigger] s.publications[i]).kind == "absent"@
}

/// Whether an installation is whole: its record is active, an activation is in
/// force, and its three sockets, its daemon and its supervisor are active.
pub open spec fn soundly_active(s: SnapshotView) -> bool {
    &&& s.install_record is Some
    &&& s.install_record->0.phase is Active
    &&& s.activation_phase == Some(ActivationPhase::Active)
    &&& forall|i: int|
        0 <= i < s.services.len() ==> ((#[trigger] s.services[i]).unit == "remapd-dns-udp.socket"@
            || s.services[i].unit == "remapd-dns-tcp.socket"@ || s.services[i].unit
            == "remapd-http.socket"@ || s.services[i].unit == "remapd.service"@
            || s.services[i].unit == "remap-resolver.service"@ ==> s.services[i].state == "active"@)
}

/// Recovery is needed exactly where the host is neither free of the product nor has a
/// whole installation, or where its files, its plan or its link are not what they
/// should be, or something was left behind.
pub proof fn law_only_sound_states_need_no_recovery(s: SnapshotView)
    ensures
        !needs_recovery(s) <==> {
            &&& soundly_absent(s) || soundly_active(s)
            &&& s.active_integrity_valid != Some(false)
            &&& s.daemon_plan_valid
            &&& s.activation_state_valid
            &&& s.bootstrap_residues.len() == 0
            &&& s.state_residue is None
        },
{
    let sockets = socket_units();
    assert forall|u: Seq<char>|
        #![trigger is_required_unit(u)]
        is_required_unit(u) <==> u == "remapd-dns-udp.socket"@ || u == "remapd-dns-tcp.socket"@ || u
            == "remapd-http.socket"@ || u == "remapd.service"@ || u
            == "remap-resolver.service"@ by {
        assert(sockets[0] == "remapd-dns-udp.socket"@ && sockets[1] == "remapd-dns-tcp.socket"@
            && sockets[2] == "remapd-http.socket"@);
        if sockets.contains(u) {
            let k = choose|k: int| 0 <= k < sockets.len() && sockets[k] == u;
            assert(k == 0 || k == 1 || k == 2);
        }
    }
    if soundly_active(s) && some_required_inactive(s.services) {
        let i = choose|i: int|
            0 <= i < s.services.len() && is_required_unit((#[trigger] s.services[i]).unit)
                && s.services[i].state != "active"@;
        assert(is_required_unit(s.services[i].unit));
    }
    if !some_required_inactive(s.services) {
        assert forall|i: int| 0 <= i < s.services.len() implies ((#[trigger] s.services[i]).unit
            == "remapd-dns-udp.socket"@ || s.services[i].unit == "remapd-dns-tcp.socket"@
            || s.services[i].unit == "remapd-http.socket"@ || s.services[i].unit
            == "remapd.service"@ || s.services[i].unit == "remap-resolver.service"@
            ==> s.services[i].state == "active"@) by {
            let u = s.services[i].unit;
            assert(is_required_unit(u) <==> u == "remapd-dns-udp.socket"@ || u
                == "remapd-dns-tcp.socket"@ || u == "remapd-http.socket"@ || u
                == "remapd.service"@ || u == "remap-resolver.service"@);
        }
    }
}

/// The resolver's authority is needed exactly where recovery may touch the resolver:
/// the record or the activation is in transition, one is there without the other, the
/// link or the plan is not what it should be, the residue is the resolver's, or the
/// daemon or the supervisor is not active.
pub proof fn law_authority_covers_the_resolver(s: SnapshotView)
    ensures
        !authority_needed(s) <==> {
            &&& s.install_record is Some ==> s.install_record->0.phase is Active
                && s.activation_phase == Some(ActivationPhase::Active)
            &&& s.install_record is None ==> s.activation_phase is None
            &&& s.activation_state_valid
            &&& s.daemon_plan_valid
            &&& s.state_residue is Some ==> !needs_quiescence(s.state_residue->0)
            &&& forall|i: int|
                0 <= i < s.services.len() ==> ((#[trigger] s.services[i]).unit
                    == "remapd.service"@ || s.services[i].unit == "remap-resolver.service"@
                    ==> s.services[i].state == "active"@)
        },
{
    if !runtime_inactive(s.services) {
        assert forall|i: int| 0 <= i < s.services.len() implies ((#[trigger] s.services[i]).unit
            == "remapd.service"@ || s.services[i].unit == "remap-resolver.service"@
            ==> s.services[i].state == "active"@) by {
            assert(s.services[i].unit == daemon_unit() || s.services[i].unit == resolver_unit()
                ==> s.services[i].state == "active"@);
        }
    }
}

/// A record can do without an activation only while it is taken away, or before the
/// first one was ever made.
pub proof fn law_lost_activations_block_recovery(r: RecordView, present: bool)
    ensures
        blocked_without_activation(r, present) <==> !present && (r.phase is Active || r.phase
            is Pruning || (r.previous is Some && !(r.phase is Uninstalling))),
{
}

} // verus!
