//! The text of the state that a plan is bound to.

use vstd::prelude::*;
use vstd::string::*;
use vstd::utf8::*;

use crate::bootstrap::{
    option_helper, BootstrapResidue, BootstrapResidueView, ResidueDirectory, ResidueDirectoryView,
    ResidueHelper, ResidueHelperView, XattrIdentity, XattrIdentityView,
};
use crate::cleanup::{
    option_residue, StateResidue, StateResidueEntry, StateResidueEntryView, StateResidueView,
};
use crate::encoding::{
    encoded_record, lemma_append2, lemma_managers, lemma_null_or, lemma_plan, lemma_record,
    plan_text, record_text, write_plan,
};
use crate::generation::copy_bytes;
use crate::json::{
    array_text, bytes_text, chain, closing, json_array, json_bytes, json_option_bytes,
    json_option_string, json_string, json_text, lemma_array, lemma_bytes, lemma_number,
    lemma_option_bytes, lemma_option_string, lemma_peel, lemma_string, mapped, null, null_text,
    option_digest_text, option_string_text, self_delimiting,
};
use crate::labels::{manager, manager_name, selection_name, selection_state};
use crate::model::{option_record, InstallRecord, RecordView};
use crate::native::{ActivationPhase, ResolverLinkSelectionState};
use crate::observation::{PathState, PathStateView};
use crate::order::views;
use crate::snapshot::{
    option_link, LinkInspection, LinkInspectionView, ServiceStatus, ServiceView, SnapshotView,
    StateSnapshot,
};
use crate::text::{copy, decimal, is_digit, lemma_decimal, number_text};

verus! {

// ---------------------------------------------------------------------------
// Values
// ---------------------------------------------------------------------------

pub open spec fn json_bool(b: bool) -> Seq<char> {
    if b {
        "true"@
    } else {
        "false"@
    }
}

pub open spec fn json_option_bool(b: Option<bool>) -> Seq<char> {
    match b {
        None => null(),
        Some(b) => json_bool(b),
    }
}

pub open spec fn option_number32(n: Option<u32>) -> Seq<char> {
    match n {
        None => null(),
        Some(n) => decimal(n as nat),
    }
}

pub open spec fn option_number64(n: Option<u64>) -> Seq<char> {
    match n {
        None => null(),
        Some(n) => decimal(n as nat),
    }
}

/// The name of an activation's phase.
pub open spec fn activation_phase_name(p: ActivationPhase) -> Seq<char> {
    match p {
        ActivationPhase::Active => "active"@,
        ActivationPhase::Transitional => "transitional"@,
    }
}

pub open spec fn activation_phase_text(p: Option<ActivationPhase>) -> Seq<char> {
    match p {
        None => null(),
        Some(p) => json_string(activation_phase_name(p)),
    }
}

fn write_bool(b: bool) -> (r: String)
    ensures
        r@ == json_bool(b),
{
    if b {
        copy("true")
    } else {
        copy("false")
    }
}

fn write_option_bool(b: Option<bool>) -> (r: String)
    ensures
        r@ == json_option_bool(b),
{
    match b {
        None => null_text(),
        Some(b) => write_bool(b),
    }
}

fn write_option_number32(n: Option<u32>) -> (r: String)
    ensures
        r@ == option_number32(n),
{
    match n {
        None => null_text(),
        Some(n) => number_text(n as u64),
    }
}

fn write_option_number64(n: Option<u64>) -> (r: String)
    ensures
        r@ == option_number64(n),
{
    match n {
        None => null_text(),
        Some(n) => number_text(n),
    }
}

fn write_activation_phase(p: Option<ActivationPhase>) -> (r: String)
    ensures
        r@ == activation_phase_text(p),
{
    match p {
        None => null_text(),
        Some(ActivationPhase::Active) => json_text("active"),
        Some(ActivationPhase::Transitional) => json_text("transitional"),
    }
}

// ---------------------------------------------------------------------------
// Texts
// ---------------------------------------------------------------------------

/// What stands at a path, and what stands behind it.
pub open spec fn path_state_then(v: PathStateView, rest: Seq<char>) -> Seq<char> {
    "{\"path\":"@ + (json_string(v.path) + (
    ",\"kind\":"@ + (json_string(v.kind) + (
    ",\"target\":"@ + (json_option_string(v.target) + (
    ",\"uid\":"@ + (option_number32(v.uid) + (
    ",\"mode\":"@ + (option_number32(v.mode) + (
    ",\"linkCount\":"@ + (option_number64(v.link_count) + (
    ",\"entryCount\":"@ + (option_number32(v.entry_count) + (
    ",\"entryDigest\":"@ + (json_option_bytes(v.entry_digest) + (
    "}"@ + rest))))))))))))))))
}

pub open spec fn path_state_text(v: PathStateView) -> Seq<char> {
    path_state_then(v, Seq::empty())
}

pub open spec fn path_states_text(s: Seq<PathStateView>) -> Seq<char> {
    json_array(mapped(s, |v: PathStateView| path_state_text(v)))
}

/// A unit and its state, and what stands behind it.
pub open spec fn service_then(v: ServiceView, rest: Seq<char>) -> Seq<char> {
    "{\"unit\":"@ + (json_string(v.unit) + (
    ",\"state\":"@ + (json_string(v.state) + (
    "}"@ + rest))))
}

pub open spec fn service_text(v: ServiceView) -> Seq<char> {
    service_then(v, Seq::empty())
}

pub open spec fn services_text(s: Seq<ServiceView>) -> Seq<char> {
    json_array(mapped(s, |v: ServiceView| service_text(v)))
}

/// A link as the resolver has it, and what stands behind it.
pub open spec fn link_then(v: LinkInspectionView, rest: Seq<char>) -> Seq<char> {
    "{\"index\":"@ + (decimal(v.index as nat) + (
    ",\"interface_name\":"@ + (json_string(v.interface_name) + (
    ",\"manager\":"@ + (json_string(manager_name(v.manager)) + (
    ",\"selection_state\":"@ + (json_string(selection_name(v.selection_state)) + (
    "}"@ + rest))))))))
}

pub open spec fn link_text(v: LinkInspectionView) -> Seq<char> {
    link_then(v, Seq::empty())
}

/// A link as the resolver has it, where there is one.
pub open spec fn option_link_text(v: Option<LinkInspectionView>) -> Seq<char> {
    match v {
        None => null(),
        Some(v) => link_text(v),
    }
}

/// An extended attribute, and what stands behind it.
pub open spec fn xattr_then(v: XattrIdentityView, rest: Seq<char>) -> Seq<char> {
    "{\"name\":"@ + (json_string(v.name) + (
    ",\"byteLength\":"@ + (decimal(v.byte_length as nat) + (
    ",\"digest\":"@ + (json_bytes(v.digest) + (
    "}"@ + rest))))))
}

pub open spec fn xattr_text(v: XattrIdentityView) -> Seq<char> {
    xattr_then(v, Seq::empty())
}

pub open spec fn xattrs_text(s: Seq<XattrIdentityView>) -> Seq<char> {
    json_array(mapped(s, |v: XattrIdentityView| xattr_text(v)))
}

/// The directory of a bootstrap residue, and what stands behind it.
pub open spec fn residue_directory_then(v: ResidueDirectoryView, rest: Seq<char>) -> Seq<char> {
    "{\"path\":"@ + (json_string(v.path) + (
    ",\"device\":"@ + (decimal(v.device as nat) + (
    ",\"inode\":"@ + (decimal(v.inode as nat) + (
    ",\"mode\":"@ + (decimal(v.mode as nat) + (
    ",\"ownerUid\":"@ + (decimal(v.owner_uid as nat) + (
    ",\"ownerGid\":"@ + (decimal(v.owner_gid as nat) + (
    ",\"xattrs\":"@ + (xattrs_text(v.xattrs) + (
    "}"@ + rest))))))))))))))
}

pub open spec fn residue_directory_text(v: ResidueDirectoryView) -> Seq<char> {
    residue_directory_then(v, Seq::empty())
}

/// The helper of a bootstrap residue, and what stands behind it.
pub open spec fn residue_helper_then(v: ResidueHelperView, rest: Seq<char>) -> Seq<char> {
    "{\"path\":"@ + (json_string(v.path) + (
    ",\"device\":"@ + (decimal(v.device as nat) + (
    ",\"inode\":"@ + (decimal(v.inode as nat) + (
    ",\"mode\":"@ + (decimal(v.mode as nat) + (
    ",\"ownerUid\":"@ + (decimal(v.owner_uid as nat) + (
    ",\"ownerGid\":"@ + (decimal(v.owner_gid as nat) + (
    ",\"links\":"@ + (decimal(v.links as nat) + (
    ",\"byteLength\":"@ + (decimal(v.byte_length as nat) + (
    ",\"sha256\":"@ + (json_string(v.sha256) + (
    ",\"xattrs\":"@ + (xattrs_text(v.xattrs) + (
    "}"@ + rest))))))))))))))))))))
}

pub open spec fn residue_helper_text(v: ResidueHelperView) -> Seq<char> {
    residue_helper_then(v, Seq::empty())
}

/// The helper of a bootstrap residue, where there is one.
pub open spec fn option_residue_helper_text(v: Option<ResidueHelperView>) -> Seq<char> {
    match v {
        None => null(),
        Some(v) => residue_helper_text(v),
    }
}

/// A bootstrap residue, and what stands behind it.
pub open spec fn bootstrap_then(v: BootstrapResidueView, rest: Seq<char>) -> Seq<char> {
    "{\"directory\":"@ + (residue_directory_text(v.directory) + (
    ",\"helper\":"@ + (option_residue_helper_text(v.helper) + (
    "}"@ + rest))))
}

pub open spec fn bootstrap_text(v: BootstrapResidueView) -> Seq<char> {
    bootstrap_then(v, Seq::empty())
}

pub open spec fn bootstraps_text(s: Seq<BootstrapResidueView>) -> Seq<char> {
    json_array(mapped(s, |v: BootstrapResidueView| bootstrap_text(v)))
}

/// A file that a transaction left, and what stands behind it.
pub open spec fn residue_entry_then(v: StateResidueEntryView, rest: Seq<char>) -> Seq<char> {
    "{\"path\":"@ + (json_string(v.path) + (
    ",\"byteLength\":"@ + (decimal(v.byte_length as nat) + (
    ",\"digest\":"@ + (json_bytes(v.digest) + (
    "}"@ + rest))))))
}

pub open spec fn residue_entry_text(v: StateResidueEntryView) -> Seq<char> {
    residue_entry_then(v, Seq::empty())
}

pub open spec fn residue_entrys_text(s: Seq<StateResidueEntryView>) -> Seq<char> {
    json_array(mapped(s, |v: StateResidueEntryView| residue_entry_text(v)))
}

/// What a transaction left in the state directory, and what stands behind it.
pub open spec fn state_residue_then(v: StateResidueView, rest: Seq<char>) -> Seq<char> {
    "{\"directory\":"@ + (json_string(v.directory) + (
    ",\"removeDirectory\":"@ + (json_bool(v.remove_directory) + (
    ",\"entries\":"@ + (residue_entrys_text(v.entries) + (
    "}"@ + rest))))))
}

pub open spec fn state_residue_text(v: StateResidueView) -> Seq<char> {
    state_residue_then(v, Seq::empty())
}

/// What a transaction left in the state directory, where there is one.
pub open spec fn option_state_residue_text(v: Option<StateResidueView>) -> Seq<char> {
    match v {
        None => null(),
        Some(v) => state_residue_text(v),
    }
}

/// The record, where there is one.
pub open spec fn option_record_text(v: Option<RecordView>) -> Seq<char> {
    match v {
        None => null(),
        Some(v) => record_text(v),
    }
}

/// The state that a plan is bound to, and what stands behind it.
pub open spec fn state_then(v: SnapshotView, rest: Seq<char>) -> Seq<char> {
    "{\"installRecord\":"@ + (option_record_text(v.install_record) + (
    ",\"activeIntegrityValid\":"@ + (json_option_bool(v.active_integrity_valid) + (
    ",\"publications\":"@ + (path_states_text(v.publications) + (
    ",\"services\":"@ + (services_text(v.services) + (
    ",\"resolverEnvironment\":"@ + (json_string(v.resolver_environment) + (
    ",\"selectedLink\":"@ + (option_link_text(v.selected_link) + (
    ",\"effectiveLinkDigest\":"@ + (json_option_bytes(v.effective_link_digest) + (
    ",\"activationStateValid\":"@ + (json_bool(v.activation_state_valid) + (
    ",\"activationRecordDigest\":"@ + (json_option_bytes(v.activation_record_digest) + (
    ",\"activationPhase\":"@ + (activation_phase_text(v.activation_phase) + (
    ",\"daemonPlanObserved\":"@ + (json_bool(v.daemon_plan_observed) + (
    ",\"daemonPlanIdentity\":"@ + (plan_text(v.daemon_plan_identity) + (
    ",\"daemonPlanValid\":"@ + (json_bool(v.daemon_plan_valid) + (
    ",\"bootstrapResidues\":"@ + (bootstraps_text(v.bootstrap_residues) + (
    ",\"stateResidue\":"@ + (option_state_residue_text(v.state_residue) + (
    "}"@ + rest))))))))))))))))))))))))))))))
}

/// The state that a plan is bound to.
pub open spec fn state_text(v: SnapshotView) -> Seq<char> {
    state_then(v, Seq::empty())
}

/// The bytes of the state that a plan is bound to.
pub open spec fn state_bytes(v: SnapshotView) -> Seq<u8> {
    encode_utf8(state_text(v))
}

// ---------------------------------------------------------------------------
// Writing
// ---------------------------------------------------------------------------

fn write_path_state(v: &PathState) -> (r: String)
    ensures
        r@ == path_state_text(v@),
{
    let r = chain(",\"entryDigest\":", option_digest_text(&v.entry_digest).as_str(), "}");
    let r = chain(",\"entryCount\":", write_option_number32(v.entry_count).as_str(), r.as_str());
    let r = chain(",\"linkCount\":", write_option_number64(v.link_count).as_str(), r.as_str());
    let r = chain(",\"mode\":", write_option_number32(v.mode).as_str(), r.as_str());
    let r = chain(",\"uid\":", write_option_number32(v.uid).as_str(), r.as_str());
    let r = chain(",\"target\":", option_string_text(&v.target).as_str(), r.as_str());
    let r = chain(",\"kind\":", json_text(v.kind).as_str(), r.as_str());
    let r = chain("{\"path\":", json_text(v.path.as_str()).as_str(), r.as_str());
    proof {
        assert("}"@ + Seq::<char>::empty() =~= "}"@);
    }
    r
}

fn write_path_states(v: &Vec<PathState>) -> (r: String)
    ensures
        r@ == path_states_text(views(v@)),
{
    let ghost all = mapped(views(v@), |v: PathStateView| path_state_text(v));
    let mut items: Vec<String> = Vec::new();
    let mut i: usize = 0;
    while i < v.len()
        invariant
            0 <= i <= v@.len(),
            all == mapped(views(v@), |v: PathStateView| path_state_text(v)),
            all.len() == v@.len(),
            items@.len() == i,
            forall|j: int| 0 <= j < i ==> #[trigger] items@[j]@ == all[j],
        decreases v@.len() - i,
    {
        items.push(write_path_state(&v[i]));
        i += 1;
    }
    proof {
        assert(views(items@) =~= all);
    }
    array_text(&items)
}

fn write_service(v: &ServiceStatus) -> (r: String)
    ensures
        r@ == service_text(v@),
{
    let r = chain(",\"state\":", json_text(v.state.as_str()).as_str(), "}");
    let r = chain("{\"unit\":", json_text(v.unit.as_str()).as_str(), r.as_str());
    proof {
        assert("}"@ + Seq::<char>::empty() =~= "}"@);
    }
    r
}

fn write_services(v: &Vec<ServiceStatus>) -> (r: String)
    ensures
        r@ == services_text(views(v@)),
{
    let ghost all = mapped(views(v@), |v: ServiceView| service_text(v));
    let mut items: Vec<String> = Vec::new();
    let mut i: usize = 0;
    while i < v.len()
        invariant
            0 <= i <= v@.len(),
            all == mapped(views(v@), |v: ServiceView| service_text(v)),
            all.len() == v@.len(),
            items@.len() == i,
            forall|j: int| 0 <= j < i ==> #[trigger] items@[j]@ == all[j],
        decreases v@.len() - i,
    {
        items.push(write_service(&v[i]));
        i += 1;
    }
    proof {
        assert(views(items@) =~= all);
    }
    array_text(&items)
}

fn write_link(v: &LinkInspection) -> (r: String)
    ensures
        r@ == link_text(v@),
{
    let r = chain(
        ",\"selection_state\":",
        json_text(selection_state(v.selection_state)).as_str(),
        "}",
    );
    let r = chain(",\"manager\":", json_text(manager(v.manager)).as_str(), r.as_str());
    let r = chain(
        ",\"interface_name\":",
        json_text(v.interface_name.as_str()).as_str(),
        r.as_str(),
    );
    let r = chain("{\"index\":", number_text(v.index as u64).as_str(), r.as_str());
    proof {
        assert("}"@ + Seq::<char>::empty() =~= "}"@);
    }
    r
}

fn write_option_link(v: &Option<LinkInspection>) -> (r: String)
    ensures
        r@ == option_link_text(option_link(*v)),
{
    match v {
        None => null_text(),
        Some(v) => write_link(v),
    }
}

fn write_xattr(v: &XattrIdentity) -> (r: String)
    ensures
        r@ == xattr_text(v@),
{
    let r = chain(",\"digest\":", bytes_text(&v.digest).as_str(), "}");
    let r = chain(",\"byteLength\":", number_text(v.byte_length as u64).as_str(), r.as_str());
    let r = chain("{\"name\":", json_text(v.name.as_str()).as_str(), r.as_str());
    proof {
        assert("}"@ + Seq::<char>::empty() =~= "}"@);
    }
    r
}

fn write_xattrs(v: &Vec<XattrIdentity>) -> (r: String)
    ensures
        r@ == xattrs_text(views(v@)),
{
    let ghost all = mapped(views(v@), |v: XattrIdentityView| xattr_text(v));
    let mut items: Vec<String> = Vec::new();
    let mut i: usize = 0;
    while i < v.len()
        invariant
            0 <= i <= v@.len(),
            all == mapped(views(v@), |v: XattrIdentityView| xattr_text(v)),
            all.len() == v@.len(),
            items@.len() == i,
            forall|j: int| 0 <= j < i ==> #[trigger] items@[j]@ == all[j],
        decreases v@.len() - i,
    {
        items.push(write_xattr(&v[i]));
        i += 1;
    }
    proof {
        assert(views(items@) =~= all);
    }
    array_text(&items)
}

fn write_residue_directory(v: &ResidueDirectory) -> (r: String)
    ensures
        r@ == residue_directory_text(v@),
{
    let r = chain(",\"xattrs\":", write_xattrs(&v.xattrs).as_str(), "}");
    let r = chain(",\"ownerGid\":", number_text(v.owner_gid as u64).as_str(), r.as_str());
    let r = chain(",\"ownerUid\":", number_text(v.owner_uid as u64).as_str(), r.as_str());
    let r = chain(",\"mode\":", number_text(v.mode as u64).as_str(), r.as_str());
    let r = chain(",\"inode\":", number_text(v.inode).as_str(), r.as_str());
    let r = chain(",\"device\":", number_text(v.device).as_str(), r.as_str());
    let r = chain("{\"path\":", json_text(v.path.as_str()).as_str(), r.as_str());
    proof {
        assert("}"@ + Seq::<char>::empty() =~= "}"@);
    }
    r
}

fn write_residue_helper(v: &ResidueHelper) -> (r: String)
    ensures
        r@ == residue_helper_text(v@),
{
    let r = chain(",\"xattrs\":", write_xattrs(&v.xattrs).as_str(), "}");
    let r = chain(",\"sha256\":", json_text(v.sha256.as_str()).as_str(), r.as_str());
    let r = chain(",\"byteLength\":", number_text(v.byte_length).as_str(), r.as_str());
    let r = chain(",\"links\":", number_text(v.links).as_str(), r.as_str());
    let r = chain(",\"ownerGid\":", number_text(v.owner_gid as u64).as_str(), r.as_str());
    let r = chain(",\"ownerUid\":", number_text(v.owner_uid as u64).as_str(), r.as_str());
    let r = chain(",\"mode\":", number_text(v.mode as u64).as_str(), r.as_str());
    let r = chain(",\"inode\":", number_text(v.inode).as_str(), r.as_str());
    let r = chain(",\"device\":", number_text(v.device).as_str(), r.as_str());
    let r = chain("{\"path\":", json_text(v.path.as_str()).as_str(), r.as_str());
    proof {
        assert("}"@ + Seq::<char>::empty() =~= "}"@);
    }
    r
}

fn write_option_residue_helper(v: &Option<ResidueHelper>) -> (r: String)
    ensures
        r@ == option_residue_helper_text(option_helper(*v)),
{
    match v {
        None => null_text(),
        Some(v) => write_residue_helper(v),
    }
}

fn write_bootstrap(v: &BootstrapResidue) -> (r: String)
    ensures
        r@ == bootstrap_text(v@),
{
    let r = chain(",\"helper\":", write_option_residue_helper(&v.helper).as_str(), "}");
    let r = chain("{\"directory\":", write_residue_directory(&v.directory).as_str(), r.as_str());
    proof {
        assert("}"@ + Seq::<char>::empty() =~= "}"@);
    }
    r
}

fn write_bootstraps(v: &Vec<BootstrapResidue>) -> (r: String)
    ensures
        r@ == bootstraps_text(views(v@)),
{
    let ghost all = mapped(views(v@), |v: BootstrapResidueView| bootstrap_text(v));
    let mut items: Vec<String> = Vec::new();
    let mut i: usize = 0;
    while i < v.len()
        invariant
            0 <= i <= v@.len(),
            all == mapped(views(v@), |v: BootstrapResidueView| bootstrap_text(v)),
            all.len() == v@.len(),
            items@.len() == i,
            forall|j: int| 0 <= j < i ==> #[trigger] items@[j]@ == all[j],
        decreases v@.len() - i,
    {
        items.push(write_bootstrap(&v[i]));
        i += 1;
    }
    proof {
        assert(views(items@) =~= all);
    }
    array_text(&items)
}

fn write_residue_entry(v: &StateResidueEntry) -> (r: String)
    ensures
        r@ == residue_entry_text(v@),
{
    let r = chain(",\"digest\":", bytes_text(&v.digest).as_str(), "}");
    let r = chain(",\"byteLength\":", number_text(v.byte_length).as_str(), r.as_str());
    let r = chain("{\"path\":", json_text(v.path.as_str()).as_str(), r.as_str());
    proof {
        assert("}"@ + Seq::<char>::empty() =~= "}"@);
    }
    r
}

fn write_residue_entrys(v: &Vec<StateResidueEntry>) -> (r: String)
    ensures
        r@ == residue_entrys_text(views(v@)),
{
    let ghost all = mapped(views(v@), |v: StateResidueEntryView| residue_entry_text(v));
    let mut items: Vec<String> = Vec::new();
    let mut i: usize = 0;
    while i < v.len()
        invariant
            0 <= i <= v@.len(),
            all == mapped(views(v@), |v: StateResidueEntryView| residue_entry_text(v)),
            all.len() == v@.len(),
            items@.len() == i,
            forall|j: int| 0 <= j < i ==> #[trigger] items@[j]@ == all[j],
        decreases v@.len() - i,
    {
        items.push(write_residue_entry(&v[i]));
        i += 1;
    }
    proof {
        assert(views(items@) =~= all);
    }
    array_text(&items)
}

fn write_state_residue(v: &StateResidue) -> (r: String)
    ensures
        r@ == state_residue_text(v@),
{
    let r = chain(",\"entries\":", write_residue_entrys(&v.entries).as_str(), "}");
    let r = chain(",\"removeDirectory\":", write_bool(v.remove_directory).as_str(), r.as_str());
    let r = chain("{\"directory\":", json_text(v.directory.as_str()).as_str(), r.as_str());
    proof {
        assert("}"@ + Seq::<char>::empty() =~= "}"@);
    }
    r
}

fn write_option_state_residue(v: &Option<StateResidue>) -> (r: String)
    ensures
        r@ == option_state_residue_text(option_residue(*v)),
{
    match v {
        None => null_text(),
        Some(v) => write_state_residue(v),
    }
}

fn write_option_record(v: &Option<InstallRecord>) -> (r: String)
    ensures
        r@ == option_record_text(option_record(*v)),
{
    match v {
        None => null_text(),
        Some(v) => encoded_record(v),
    }
}

fn write_state(v: &StateSnapshot) -> (r: String)
    ensures
        r@ == state_text(v@),
{
    let r = chain(",\"stateResidue\":", write_option_state_residue(&v.state_residue).as_str(), "}");
    let r = chain(
        ",\"bootstrapResidues\":",
        write_bootstraps(&v.bootstrap_residues).as_str(),
        r.as_str(),
    );
    let r = chain(",\"daemonPlanValid\":", write_bool(v.daemon_plan_valid).as_str(), r.as_str());
    let r = chain(
        ",\"daemonPlanIdentity\":",
        write_plan(&v.daemon_plan_identity).as_str(),
        r.as_str(),
    );
    let r = chain(
        ",\"daemonPlanObserved\":",
        write_bool(v.daemon_plan_observed).as_str(),
        r.as_str(),
    );
    let r = chain(
        ",\"activationPhase\":",
        write_activation_phase(v.activation_phase).as_str(),
        r.as_str(),
    );
    let r = chain(
        ",\"activationRecordDigest\":",
        option_digest_text(&v.activation_record_digest).as_str(),
        r.as_str(),
    );
    let r = chain(
        ",\"activationStateValid\":",
        write_bool(v.activation_state_valid).as_str(),
        r.as_str(),
    );
    let r = chain(
        ",\"effectiveLinkDigest\":",
        option_digest_text(&v.effective_link_digest).as_str(),
        r.as_str(),
    );
    let r = chain(",\"selectedLink\":", write_option_link(&v.selected_link).as_str(), r.as_str());
    let r = chain(
        ",\"resolverEnvironment\":",
        json_text(v.resolver_environment).as_str(),
        r.as_str(),
    );
    let r = chain(",\"services\":", write_services(&v.services).as_str(), r.as_str());
    let r = chain(",\"publications\":", write_path_states(&v.publications).as_str(), r.as_str());
    let r = chain(
        ",\"activeIntegrityValid\":",
        write_option_bool(v.active_integrity_valid).as_str(),
        r.as_str(),
    );
    let r = chain(
        "{\"installRecord\":",
        write_option_record(&v.install_record).as_str(),
        r.as_str(),
    );
    proof {
        assert("}"@ + Seq::<char>::empty() =~= "}"@);
    }
    r
}

/// Writes the state that a plan is bound to.
pub fn encoded_state(s: &StateSnapshot) -> (b: Vec<u8>)
    ensures
        b@ == state_bytes(s@),
{
    copy_bytes(write_state(s).as_str().as_bytes())
}

// ---------------------------------------------------------------------------
// Laws
// ---------------------------------------------------------------------------

proof fn lemma_bool(a: bool, b: bool, x: Seq<char>, y: Seq<char>)
    requires
        json_bool(a) + x == json_bool(b) + y,
    ensures
        a == b,
        x == y,
{
    reveal_strlit("true");
    reveal_strlit("false");
    assert((json_bool(a) + x)[0] == json_bool(a)[0]);
    assert((json_bool(b) + y)[0] == json_bool(b)[0]);
    assert(a == b);
    lemma_peel(json_bool(a), x, y);
}

proof fn lemma_option_bool(a: Option<bool>, b: Option<bool>, x: Seq<char>, y: Seq<char>)
    requires
        json_option_bool(a) + x == json_option_bool(b) + y,
    ensures
        a == b,
        x == y,
{
    reveal_strlit("true");
    reveal_strlit("false");
    assert((json_option_bool(a) + x)[0] == json_option_bool(a)[0]);
    assert((json_option_bool(b) + y)[0] == json_option_bool(b)[0]);
    if a is Some && b is Some {
        lemma_bool(a->0, b->0, x, y);
    } else {
        assert(a is None && b is None);
        lemma_peel(null(), x, y);
    }
}

proof fn lemma_number_start(n: nat, x: Seq<char>)
    ensures
        (decimal(n) + x).len() > 0,
        (decimal(n) + x)[0] != 'n',
{
    lemma_decimal(n);
    assert((decimal(n) + x)[0] == decimal(n)[0]);
    assert(is_digit(decimal(n)[0]));
}

proof fn lemma_option_number64(a: Option<u64>, b: Option<u64>, x: Seq<char>, y: Seq<char>)
    requires
        option_number64(a) + x == option_number64(b) + y,
        closing(x),
        closing(y),
    ensures
        a == b,
        x == y,
{
    if a is Some {
        lemma_number_start(a->0 as nat, x);
    } else {
        assert((option_number64(a) + x)[0] == 'n');
    }
    if b is Some {
        lemma_number_start(b->0 as nat, y);
    } else {
        assert((option_number64(b) + y)[0] == 'n');
    }
    if a is Some && b is Some {
        lemma_number(a->0 as nat, b->0 as nat, x, y);
    } else {
        lemma_peel(null(), x, y);
    }
}

proof fn lemma_option_number32(a: Option<u32>, b: Option<u32>, x: Seq<char>, y: Seq<char>)
    requires
        option_number32(a) + x == option_number32(b) + y,
        closing(x),
        closing(y),
    ensures
        a == b,
        x == y,
{
    let wide = |n: Option<u32>|
        match n {
            None => None::<u64>,
            Some(n) => Some(n as u64),
        };
    lemma_option_number64(wide(a), wide(b), x, y);
}

proof fn lemma_selections(a: ResolverLinkSelectionState, b: ResolverLinkSelectionState)
    requires
        selection_name(a) == selection_name(b),
    ensures
        a == b,
{
    reveal_strlit("supported_primary");
    reveal_strlit("supported_secondary");
    reveal_strlit("inactive");
    reveal_strlit("unsupported");
    assert("supported_primary"@.len() == 17 && "supported_secondary"@.len() == 19
        && "inactive"@.len() == 8 && "unsupported"@.len() == 11);
}

proof fn lemma_activation_phase(
    a: Option<ActivationPhase>,
    b: Option<ActivationPhase>,
    x: Seq<char>,
    y: Seq<char>,
)
    requires
        activation_phase_text(a) + x == activation_phase_text(b) + y,
    ensures
        a == b,
        x == y,
{
    reveal_strlit("active");
    reveal_strlit("transitional");
    assert("active"@.len() == 6 && "transitional"@.len() == 12);
    let s = activation_phase_text(a) + x;
    let t = activation_phase_text(b) + y;
    assert(s[0] == activation_phase_text(a)[0] && t[0] == activation_phase_text(b)[0]);
    if a is Some && b is Some {
        lemma_string(activation_phase_name(a->0), activation_phase_name(b->0), x, y);
    } else {
        assert(a is None && b is None);
        lemma_peel(null(), x, y);
    }
}

#[verifier::spinoff_prover]
proof fn lemma_path_state_then(v: PathStateView, x: Seq<char>)
    ensures
        path_state_text(v) + x == path_state_then(v, x),
{
    let e = "}"@ + Seq::<char>::empty();
    assert(e + x =~= "}"@ + x);
    lemma_append2(",\"entryDigest\":"@, json_option_bytes(v.entry_digest), e, x);
    let r7 = ",\"entryDigest\":"@ + (json_option_bytes(v.entry_digest) + e);
    lemma_append2(",\"entryCount\":"@, option_number32(v.entry_count), r7, x);
    let r6 = ",\"entryCount\":"@ + (option_number32(v.entry_count) + r7);
    lemma_append2(",\"linkCount\":"@, option_number64(v.link_count), r6, x);
    let r5 = ",\"linkCount\":"@ + (option_number64(v.link_count) + r6);
    lemma_append2(",\"mode\":"@, option_number32(v.mode), r5, x);
    let r4 = ",\"mode\":"@ + (option_number32(v.mode) + r5);
    lemma_append2(",\"uid\":"@, option_number32(v.uid), r4, x);
    let r3 = ",\"uid\":"@ + (option_number32(v.uid) + r4);
    lemma_append2(",\"target\":"@, json_option_string(v.target), r3, x);
    let r2 = ",\"target\":"@ + (json_option_string(v.target) + r3);
    lemma_append2(",\"kind\":"@, json_string(v.kind), r2, x);
    let r1 = ",\"kind\":"@ + (json_string(v.kind) + r2);
    lemma_append2("{\"path\":"@, json_string(v.path), r1, x);
}

#[verifier::spinoff_prover]
proof fn lemma_path_state(a: PathStateView, b: PathStateView, x: Seq<char>, y: Seq<char>)
    requires
        path_state_text(a) + x == path_state_text(b) + y,
    ensures
        a == b,
        x == y,
{
    lemma_path_state_then(a, x);
    lemma_path_state_then(b, y);
    let (p8, q8) = ("}"@ + x, "}"@ + y);
    let p7 = json_option_bytes(a.entry_digest) + p8;
    let q7 = json_option_bytes(b.entry_digest) + q8;
    let p6 = option_number32(a.entry_count) + (",\"entryDigest\":"@ + p7);
    let q6 = option_number32(b.entry_count) + (",\"entryDigest\":"@ + q7);
    let p5 = option_number64(a.link_count) + (",\"entryCount\":"@ + p6);
    let q5 = option_number64(b.link_count) + (",\"entryCount\":"@ + q6);
    let p4 = option_number32(a.mode) + (",\"linkCount\":"@ + p5);
    let q4 = option_number32(b.mode) + (",\"linkCount\":"@ + q5);
    let p3 = option_number32(a.uid) + (",\"mode\":"@ + p4);
    let q3 = option_number32(b.uid) + (",\"mode\":"@ + q4);
    let p2 = json_option_string(a.target) + (",\"uid\":"@ + p3);
    let q2 = json_option_string(b.target) + (",\"uid\":"@ + q3);
    let p1 = json_string(a.kind) + (",\"target\":"@ + p2);
    let q1 = json_string(b.kind) + (",\"target\":"@ + q2);
    let p0 = json_string(a.path) + (",\"kind\":"@ + p1);
    let q0 = json_string(b.path) + (",\"kind\":"@ + q1);
    reveal_strlit(",\"entryCount\":");
    reveal_strlit(",\"entryDigest\":");
    reveal_strlit(",\"linkCount\":");
    reveal_strlit(",\"mode\":");
    lemma_peel("{\"path\":"@, p0, q0);
    lemma_string(a.path, b.path, ",\"kind\":"@ + p1, ",\"kind\":"@ + q1);
    lemma_peel(",\"kind\":"@, p1, q1);
    lemma_string(a.kind, b.kind, ",\"target\":"@ + p2, ",\"target\":"@ + q2);
    lemma_peel(",\"target\":"@, p2, q2);
    lemma_option_string(a.target, b.target, ",\"uid\":"@ + p3, ",\"uid\":"@ + q3);
    lemma_peel(",\"uid\":"@, p3, q3);
    lemma_option_number32(a.uid, b.uid, ",\"mode\":"@ + p4, ",\"mode\":"@ + q4);
    lemma_peel(",\"mode\":"@, p4, q4);
    lemma_option_number32(a.mode, b.mode, ",\"linkCount\":"@ + p5, ",\"linkCount\":"@ + q5);
    lemma_peel(",\"linkCount\":"@, p5, q5);
    lemma_option_number64(
        a.link_count,
        b.link_count,
        ",\"entryCount\":"@ + p6,
        ",\"entryCount\":"@ + q6,
    );
    lemma_peel(",\"entryCount\":"@, p6, q6);
    lemma_option_number32(
        a.entry_count,
        b.entry_count,
        ",\"entryDigest\":"@ + p7,
        ",\"entryDigest\":"@ + q7,
    );
    lemma_peel(",\"entryDigest\":"@, p7, q7);
    lemma_option_bytes(a.entry_digest, b.entry_digest, p8, q8);
    lemma_peel("}"@, x, y);
}

proof fn lemma_path_states(s: Seq<PathStateView>, t: Seq<PathStateView>, x: Seq<char>, y: Seq<char>)
    requires
        path_states_text(s) + x == path_states_text(t) + y,
    ensures
        s == t,
        x == y,
{
    let f = |v: PathStateView| path_state_text(v);
    assert forall|a: PathStateView| #[trigger] f(a).len() > 0 && f(a)[0] != ']' by {
        reveal_strlit("{\"path\":");
        assert(path_state_text(a)[0] == '{');
    }
    assert forall|a: PathStateView, b: PathStateView, u: Seq<char>, v: Seq<char>|
        #![trigger f(a) + u, f(b) + v]
        closing(u) && closing(v) && f(a) + u == f(b) + v implies a == b && u == v by {
        lemma_path_state(a, b, u, v);
    }
    assert(self_delimiting(f));
    lemma_array(s, t, f, x, y);
}

#[verifier::spinoff_prover]
proof fn lemma_service_then(v: ServiceView, x: Seq<char>)
    ensures
        service_text(v) + x == service_then(v, x),
{
    let e = "}"@ + Seq::<char>::empty();
    assert(e + x =~= "}"@ + x);
    lemma_append2(",\"state\":"@, json_string(v.state), e, x);
    let r1 = ",\"state\":"@ + (json_string(v.state) + e);
    lemma_append2("{\"unit\":"@, json_string(v.unit), r1, x);
}

#[verifier::spinoff_prover]
proof fn lemma_service(a: ServiceView, b: ServiceView, x: Seq<char>, y: Seq<char>)
    requires
        service_text(a) + x == service_text(b) + y,
    ensures
        a == b,
        x == y,
{
    lemma_service_then(a, x);
    lemma_service_then(b, y);
    let (p2, q2) = ("}"@ + x, "}"@ + y);
    let p1 = json_string(a.state) + p2;
    let q1 = json_string(b.state) + q2;
    let p0 = json_string(a.unit) + (",\"state\":"@ + p1);
    let q0 = json_string(b.unit) + (",\"state\":"@ + q1);
    lemma_peel("{\"unit\":"@, p0, q0);
    lemma_string(a.unit, b.unit, ",\"state\":"@ + p1, ",\"state\":"@ + q1);
    lemma_peel(",\"state\":"@, p1, q1);
    lemma_string(a.state, b.state, p2, q2);
    lemma_peel("}"@, x, y);
}

proof fn lemma_services(s: Seq<ServiceView>, t: Seq<ServiceView>, x: Seq<char>, y: Seq<char>)
    requires
        services_text(s) + x == services_text(t) + y,
    ensures
        s == t,
        x == y,
{
    let f = |v: ServiceView| service_text(v);
    assert forall|a: ServiceView| #[trigger] f(a).len() > 0 && f(a)[0] != ']' by {
        reveal_strlit("{\"unit\":");
        assert(service_text(a)[0] == '{');
    }
    assert forall|a: ServiceView, b: ServiceView, u: Seq<char>, v: Seq<char>|
        #![trigger f(a) + u, f(b) + v]
        closing(u) && closing(v) && f(a) + u == f(b) + v implies a == b && u == v by {
        lemma_service(a, b, u, v);
    }
    assert(self_delimiting(f));
    lemma_array(s, t, f, x, y);
}

#[verifier::spinoff_prover]
proof fn lemma_link_then(v: LinkInspectionView, x: Seq<char>)
    ensures
        link_text(v) + x == link_then(v, x),
{
    let e = "}"@ + Seq::<char>::empty();
    assert(e + x =~= "}"@ + x);
    lemma_append2(",\"selection_state\":"@, json_string(selection_name(v.selection_state)), e, x);
    let r3 = ",\"selection_state\":"@ + (json_string(selection_name(v.selection_state)) + e);
    lemma_append2(",\"manager\":"@, json_string(manager_name(v.manager)), r3, x);
    let r2 = ",\"manager\":"@ + (json_string(manager_name(v.manager)) + r3);
    lemma_append2(",\"interface_name\":"@, json_string(v.interface_name), r2, x);
    let r1 = ",\"interface_name\":"@ + (json_string(v.interface_name) + r2);
    lemma_append2("{\"index\":"@, decimal(v.index as nat), r1, x);
}

#[verifier::spinoff_prover]
proof fn lemma_link(a: LinkInspectionView, b: LinkInspectionView, x: Seq<char>, y: Seq<char>)
    requires
        link_text(a) + x == link_text(b) + y,
    ensures
        a == b,
        x == y,
{
    lemma_link_then(a, x);
    lemma_link_then(b, y);
    let (p4, q4) = ("}"@ + x, "}"@ + y);
    let p3 = json_string(selection_name(a.selection_state)) + p4;
    let q3 = json_string(selection_name(b.selection_state)) + q4;
    let p2 = json_string(manager_name(a.manager)) + (",\"selection_state\":"@ + p3);
    let q2 = json_string(manager_name(b.manager)) + (",\"selection_state\":"@ + q3);
    let p1 = json_string(a.interface_name) + (",\"manager\":"@ + p2);
    let q1 = json_string(b.interface_name) + (",\"manager\":"@ + q2);
    let p0 = decimal(a.index as nat) + (",\"interface_name\":"@ + p1);
    let q0 = decimal(b.index as nat) + (",\"interface_name\":"@ + q1);
    reveal_strlit(",\"interface_name\":");
    lemma_peel("{\"index\":"@, p0, q0);
    lemma_number(
        a.index as nat,
        b.index as nat,
        ",\"interface_name\":"@ + p1,
        ",\"interface_name\":"@ + q1,
    );
    lemma_peel(",\"interface_name\":"@, p1, q1);
    lemma_string(a.interface_name, b.interface_name, ",\"manager\":"@ + p2, ",\"manager\":"@ + q2);
    lemma_peel(",\"manager\":"@, p2, q2);
    lemma_string(
        manager_name(a.manager),
        manager_name(b.manager),
        ",\"selection_state\":"@ + p3,
        ",\"selection_state\":"@ + q3,
    );
    lemma_managers(a.manager, b.manager);
    lemma_peel(",\"selection_state\":"@, p3, q3);
    lemma_string(selection_name(a.selection_state), selection_name(b.selection_state), p4, q4);
    lemma_selections(a.selection_state, b.selection_state);
    lemma_peel("}"@, x, y);
}

proof fn lemma_option_link(
    a: Option<LinkInspectionView>,
    b: Option<LinkInspectionView>,
    x: Seq<char>,
    y: Seq<char>,
)
    requires
        option_link_text(a) + x == option_link_text(b) + y,
    ensures
        a == b,
        x == y,
{
    reveal_strlit("{\"index\":");
    if a is None && b is None {
        lemma_peel(null(), x, y);
    } else if a is None {
        lemma_null_or(null(), link_text(b->0), x, y);
    } else if b is None {
        lemma_null_or(null(), link_text(a->0), y, x);
    } else {
        lemma_link(a->0, b->0, x, y);
    }
}

#[verifier::spinoff_prover]
proof fn lemma_xattr_then(v: XattrIdentityView, x: Seq<char>)
    ensures
        xattr_text(v) + x == xattr_then(v, x),
{
    let e = "}"@ + Seq::<char>::empty();
    assert(e + x =~= "}"@ + x);
    lemma_append2(",\"digest\":"@, json_bytes(v.digest), e, x);
    let r2 = ",\"digest\":"@ + (json_bytes(v.digest) + e);
    lemma_append2(",\"byteLength\":"@, decimal(v.byte_length as nat), r2, x);
    let r1 = ",\"byteLength\":"@ + (decimal(v.byte_length as nat) + r2);
    lemma_append2("{\"name\":"@, json_string(v.name), r1, x);
}

#[verifier::spinoff_prover]
proof fn lemma_xattr(a: XattrIdentityView, b: XattrIdentityView, x: Seq<char>, y: Seq<char>)
    requires
        xattr_text(a) + x == xattr_text(b) + y,
    ensures
        a == b,
        x == y,
{
    lemma_xattr_then(a, x);
    lemma_xattr_then(b, y);
    let (p3, q3) = ("}"@ + x, "}"@ + y);
    let p2 = json_bytes(a.digest) + p3;
    let q2 = json_bytes(b.digest) + q3;
    let p1 = decimal(a.byte_length as nat) + (",\"digest\":"@ + p2);
    let q1 = decimal(b.byte_length as nat) + (",\"digest\":"@ + q2);
    let p0 = json_string(a.name) + (",\"byteLength\":"@ + p1);
    let q0 = json_string(b.name) + (",\"byteLength\":"@ + q1);
    reveal_strlit(",\"digest\":");
    lemma_peel("{\"name\":"@, p0, q0);
    lemma_string(a.name, b.name, ",\"byteLength\":"@ + p1, ",\"byteLength\":"@ + q1);
    lemma_peel(",\"byteLength\":"@, p1, q1);
    lemma_number(
        a.byte_length as nat,
        b.byte_length as nat,
        ",\"digest\":"@ + p2,
        ",\"digest\":"@ + q2,
    );
    lemma_peel(",\"digest\":"@, p2, q2);
    lemma_bytes(a.digest, b.digest, p3, q3);
    lemma_peel("}"@, x, y);
}

proof fn lemma_xattrs(
    s: Seq<XattrIdentityView>,
    t: Seq<XattrIdentityView>,
    x: Seq<char>,
    y: Seq<char>,
)
    requires
        xattrs_text(s) + x == xattrs_text(t) + y,
    ensures
        s == t,
        x == y,
{
    let f = |v: XattrIdentityView| xattr_text(v);
    assert forall|a: XattrIdentityView| #[trigger] f(a).len() > 0 && f(a)[0] != ']' by {
        reveal_strlit("{\"name\":");
        assert(xattr_text(a)[0] == '{');
    }
    assert forall|a: XattrIdentityView, b: XattrIdentityView, u: Seq<char>, v: Seq<char>|
        #![trigger f(a) + u, f(b) + v]
        closing(u) && closing(v) && f(a) + u == f(b) + v implies a == b && u == v by {
        lemma_xattr(a, b, u, v);
    }
    assert(self_delimiting(f));
    lemma_array(s, t, f, x, y);
}

#[verifier::spinoff_prover]
proof fn lemma_residue_directory_then(v: ResidueDirectoryView, x: Seq<char>)
    ensures
        residue_directory_text(v) + x == residue_directory_then(v, x),
{
    let e = "}"@ + Seq::<char>::empty();
    assert(e + x =~= "}"@ + x);
    lemma_append2(",\"xattrs\":"@, xattrs_text(v.xattrs), e, x);
    let r6 = ",\"xattrs\":"@ + (xattrs_text(v.xattrs) + e);
    lemma_append2(",\"ownerGid\":"@, decimal(v.owner_gid as nat), r6, x);
    let r5 = ",\"ownerGid\":"@ + (decimal(v.owner_gid as nat) + r6);
    lemma_append2(",\"ownerUid\":"@, decimal(v.owner_uid as nat), r5, x);
    let r4 = ",\"ownerUid\":"@ + (decimal(v.owner_uid as nat) + r5);
    lemma_append2(",\"mode\":"@, decimal(v.mode as nat), r4, x);
    let r3 = ",\"mode\":"@ + (decimal(v.mode as nat) + r4);
    lemma_append2(",\"inode\":"@, decimal(v.inode as nat), r3, x);
    let r2 = ",\"inode\":"@ + (decimal(v.inode as nat) + r3);
    lemma_append2(",\"device\":"@, decimal(v.device as nat), r2, x);
    let r1 = ",\"device\":"@ + (decimal(v.device as nat) + r2);
    lemma_append2("{\"path\":"@, json_string(v.path), r1, x);
}

#[verifier::spinoff_prover]
proof fn lemma_residue_directory(
    a: ResidueDirectoryView,
    b: ResidueDirectoryView,
    x: Seq<char>,
    y: Seq<char>,
)
    requires
        residue_directory_text(a) + x == residue_directory_text(b) + y,
    ensures
        a == b,
        x == y,
{
    lemma_residue_directory_then(a, x);
    lemma_residue_directory_then(b, y);
    let (p7, q7) = ("}"@ + x, "}"@ + y);
    let p6 = xattrs_text(a.xattrs) + p7;
    let q6 = xattrs_text(b.xattrs) + q7;
    let p5 = decimal(a.owner_gid as nat) + (",\"xattrs\":"@ + p6);
    let q5 = decimal(b.owner_gid as nat) + (",\"xattrs\":"@ + q6);
    let p4 = decimal(a.owner_uid as nat) + (",\"ownerGid\":"@ + p5);
    let q4 = decimal(b.owner_uid as nat) + (",\"ownerGid\":"@ + q5);
    let p3 = decimal(a.mode as nat) + (",\"ownerUid\":"@ + p4);
    let q3 = decimal(b.mode as nat) + (",\"ownerUid\":"@ + q4);
    let p2 = decimal(a.inode as nat) + (",\"mode\":"@ + p3);
    let q2 = decimal(b.inode as nat) + (",\"mode\":"@ + q3);
    let p1 = decimal(a.device as nat) + (",\"inode\":"@ + p2);
    let q1 = decimal(b.device as nat) + (",\"inode\":"@ + q2);
    let p0 = json_string(a.path) + (",\"device\":"@ + p1);
    let q0 = json_string(b.path) + (",\"device\":"@ + q1);
    reveal_strlit(",\"inode\":");
    reveal_strlit(",\"mode\":");
    reveal_strlit(",\"ownerGid\":");
    reveal_strlit(",\"ownerUid\":");
    reveal_strlit(",\"xattrs\":");
    lemma_peel("{\"path\":"@, p0, q0);
    lemma_string(a.path, b.path, ",\"device\":"@ + p1, ",\"device\":"@ + q1);
    lemma_peel(",\"device\":"@, p1, q1);
    lemma_number(a.device as nat, b.device as nat, ",\"inode\":"@ + p2, ",\"inode\":"@ + q2);
    lemma_peel(",\"inode\":"@, p2, q2);
    lemma_number(a.inode as nat, b.inode as nat, ",\"mode\":"@ + p3, ",\"mode\":"@ + q3);
    lemma_peel(",\"mode\":"@, p3, q3);
    lemma_number(a.mode as nat, b.mode as nat, ",\"ownerUid\":"@ + p4, ",\"ownerUid\":"@ + q4);
    lemma_peel(",\"ownerUid\":"@, p4, q4);
    lemma_number(
        a.owner_uid as nat,
        b.owner_uid as nat,
        ",\"ownerGid\":"@ + p5,
        ",\"ownerGid\":"@ + q5,
    );
    lemma_peel(",\"ownerGid\":"@, p5, q5);
    lemma_number(
        a.owner_gid as nat,
        b.owner_gid as nat,
        ",\"xattrs\":"@ + p6,
        ",\"xattrs\":"@ + q6,
    );
    lemma_peel(",\"xattrs\":"@, p6, q6);
    lemma_xattrs(a.xattrs, b.xattrs, p7, q7);
    lemma_peel("}"@, x, y);
}

#[verifier::spinoff_prover]
proof fn lemma_residue_helper_then(v: ResidueHelperView, x: Seq<char>)
    ensures
        residue_helper_text(v) + x == residue_helper_then(v, x),
{
    let e = "}"@ + Seq::<char>::empty();
    assert(e + x =~= "}"@ + x);
    lemma_append2(",\"xattrs\":"@, xattrs_text(v.xattrs), e, x);
    let r9 = ",\"xattrs\":"@ + (xattrs_text(v.xattrs) + e);
    lemma_append2(",\"sha256\":"@, json_string(v.sha256), r9, x);
    let r8 = ",\"sha256\":"@ + (json_string(v.sha256) + r9);
    lemma_append2(",\"byteLength\":"@, decimal(v.byte_length as nat), r8, x);
    let r7 = ",\"byteLength\":"@ + (decimal(v.byte_length as nat) + r8);
    lemma_append2(",\"links\":"@, decimal(v.links as nat), r7, x);
    let r6 = ",\"links\":"@ + (decimal(v.links as nat) + r7);
    lemma_append2(",\"ownerGid\":"@, decimal(v.owner_gid as nat), r6, x);
    let r5 = ",\"ownerGid\":"@ + (decimal(v.owner_gid as nat) + r6);
    lemma_append2(",\"ownerUid\":"@, decimal(v.owner_uid as nat), r5, x);
    let r4 = ",\"ownerUid\":"@ + (decimal(v.owner_uid as nat) + r5);
    lemma_append2(",\"mode\":"@, decimal(v.mode as nat), r4, x);
    let r3 = ",\"mode\":"@ + (decimal(v.mode as nat) + r4);
    lemma_append2(",\"inode\":"@, decimal(v.inode as nat), r3, x);
    let r2 = ",\"inode\":"@ + (decimal(v.inode as nat) + r3);
    lemma_append2(",\"device\":"@, decimal(v.device as nat), r2, x);
    let r1 = ",\"device\":"@ + (decimal(v.device as nat) + r2);
    lemma_append2("{\"path\":"@, json_string(v.path), r1, x);
}

#[verifier::spinoff_prover]
proof fn lemma_residue_helper(
    a: ResidueHelperView,
    b: ResidueHelperView,
    x: Seq<char>,
    y: Seq<char>,
)
    requires
        residue_helper_text(a) + x == residue_helper_text(b) + y,
    ensures
        a == b,
        x == y,
{
    lemma_residue_helper_then(a, x);
    lemma_residue_helper_then(b, y);
    let (p10, q10) = ("}"@ + x, "}"@ + y);
    let p9 = xattrs_text(a.xattrs) + p10;
    let q9 = xattrs_text(b.xattrs) + q10;
    let p8 = json_string(a.sha256) + (",\"xattrs\":"@ + p9);
    let q8 = json_string(b.sha256) + (",\"xattrs\":"@ + q9);
    let p7 = decimal(a.byte_length as nat) + (",\"sha256\":"@ + p8);
    let q7 = decimal(b.byte_length as nat) + (",\"sha256\":"@ + q8);
    let p6 = decimal(a.links as nat) + (",\"byteLength\":"@ + p7);
    let q6 = decimal(b.links as nat) + (",\"byteLength\":"@ + q7);
    let p5 = decimal(a.owner_gid as nat) + (",\"links\":"@ + p6);
    let q5 = decimal(b.owner_gid as nat) + (",\"links\":"@ + q6);
    let p4 = decimal(a.owner_uid as nat) + (",\"ownerGid\":"@ + p5);
    let q4 = decimal(b.owner_uid as nat) + (",\"ownerGid\":"@ + q5);
    let p3 = decimal(a.mode as nat) + (",\"ownerUid\":"@ + p4);
    let q3 = decimal(b.mode as nat) + (",\"ownerUid\":"@ + q4);
    let p2 = decimal(a.inode as nat) + (",\"mode\":"@ + p3);
    let q2 = decimal(b.inode as nat) + (",\"mode\":"@ + q3);
    let p1 = decimal(a.device as nat) + (",\"inode\":"@ + p2);
    let q1 = decimal(b.device as nat) + (",\"inode\":"@ + q2);
    let p0 = json_string(a.path) + (",\"device\":"@ + p1);
    let q0 = json_string(b.path) + (",\"device\":"@ + q1);
    reveal_strlit(",\"byteLength\":");
    reveal_strlit(",\"inode\":");
    reveal_strlit(",\"links\":");
    reveal_strlit(",\"mode\":");
    reveal_strlit(",\"ownerGid\":");
    reveal_strlit(",\"ownerUid\":");
    reveal_strlit(",\"sha256\":");
    lemma_peel("{\"path\":"@, p0, q0);
    lemma_string(a.path, b.path, ",\"device\":"@ + p1, ",\"device\":"@ + q1);
    lemma_peel(",\"device\":"@, p1, q1);
    lemma_number(a.device as nat, b.device as nat, ",\"inode\":"@ + p2, ",\"inode\":"@ + q2);
    lemma_peel(",\"inode\":"@, p2, q2);
    lemma_number(a.inode as nat, b.inode as nat, ",\"mode\":"@ + p3, ",\"mode\":"@ + q3);
    lemma_peel(",\"mode\":"@, p3, q3);
    lemma_number(a.mode as nat, b.mode as nat, ",\"ownerUid\":"@ + p4, ",\"ownerUid\":"@ + q4);
    lemma_peel(",\"ownerUid\":"@, p4, q4);
    lemma_number(
        a.owner_uid as nat,
        b.owner_uid as nat,
        ",\"ownerGid\":"@ + p5,
        ",\"ownerGid\":"@ + q5,
    );
    lemma_peel(",\"ownerGid\":"@, p5, q5);
    lemma_number(a.owner_gid as nat, b.owner_gid as nat, ",\"links\":"@ + p6, ",\"links\":"@ + q6);
    lemma_peel(",\"links\":"@, p6, q6);
    lemma_number(
        a.links as nat,
        b.links as nat,
        ",\"byteLength\":"@ + p7,
        ",\"byteLength\":"@ + q7,
    );
    lemma_peel(",\"byteLength\":"@, p7, q7);
    lemma_number(
        a.byte_length as nat,
        b.byte_length as nat,
        ",\"sha256\":"@ + p8,
        ",\"sha256\":"@ + q8,
    );
    lemma_peel(",\"sha256\":"@, p8, q8);
    lemma_string(a.sha256, b.sha256, ",\"xattrs\":"@ + p9, ",\"xattrs\":"@ + q9);
    lemma_peel(",\"xattrs\":"@, p9, q9);
    lemma_xattrs(a.xattrs, b.xattrs, p10, q10);
    lemma_peel("}"@, x, y);
}

proof fn lemma_option_residue_helper(
    a: Option<ResidueHelperView>,
    b: Option<ResidueHelperView>,
    x: Seq<char>,
    y: Seq<char>,
)
    requires
        option_residue_helper_text(a) + x == option_residue_helper_text(b) + y,
    ensures
        a == b,
        x == y,
{
    reveal_strlit("{\"path\":");
    if a is None && b is None {
        lemma_peel(null(), x, y);
    } else if a is None {
        lemma_null_or(null(), residue_helper_text(b->0), x, y);
    } else if b is None {
        lemma_null_or(null(), residue_helper_text(a->0), y, x);
    } else {
        lemma_residue_helper(a->0, b->0, x, y);
    }
}

#[verifier::spinoff_prover]
proof fn lemma_bootstrap_then(v: BootstrapResidueView, x: Seq<char>)
    ensures
        bootstrap_text(v) + x == bootstrap_then(v, x),
{
    let e = "}"@ + Seq::<char>::empty();
    assert(e + x =~= "}"@ + x);
    lemma_append2(",\"helper\":"@, option_residue_helper_text(v.helper), e, x);
    let r1 = ",\"helper\":"@ + (option_residue_helper_text(v.helper) + e);
    lemma_append2("{\"directory\":"@, residue_directory_text(v.directory), r1, x);
}

#[verifier::spinoff_prover]
proof fn lemma_bootstrap(
    a: BootstrapResidueView,
    b: BootstrapResidueView,
    x: Seq<char>,
    y: Seq<char>,
)
    requires
        bootstrap_text(a) + x == bootstrap_text(b) + y,
    ensures
        a == b,
        x == y,
{
    lemma_bootstrap_then(a, x);
    lemma_bootstrap_then(b, y);
    let (p2, q2) = ("}"@ + x, "}"@ + y);
    let p1 = option_residue_helper_text(a.helper) + p2;
    let q1 = option_residue_helper_text(b.helper) + q2;
    let p0 = residue_directory_text(a.directory) + (",\"helper\":"@ + p1);
    let q0 = residue_directory_text(b.directory) + (",\"helper\":"@ + q1);
    lemma_peel("{\"directory\":"@, p0, q0);
    lemma_residue_directory(a.directory, b.directory, ",\"helper\":"@ + p1, ",\"helper\":"@ + q1);
    lemma_peel(",\"helper\":"@, p1, q1);
    lemma_option_residue_helper(a.helper, b.helper, p2, q2);
    lemma_peel("}"@, x, y);
}

proof fn lemma_bootstraps(
    s: Seq<BootstrapResidueView>,
    t: Seq<BootstrapResidueView>,
    x: Seq<char>,
    y: Seq<char>,
)
    requires
        bootstraps_text(s) + x == bootstraps_text(t) + y,
    ensures
        s == t,
        x == y,
{
    let f = |v: BootstrapResidueView| bootstrap_text(v);
    assert forall|a: BootstrapResidueView| #[trigger] f(a).len() > 0 && f(a)[0] != ']' by {
        reveal_strlit("{\"directory\":");
        assert(bootstrap_text(a)[0] == '{');
    }
    assert forall|a: BootstrapResidueView, b: BootstrapResidueView, u: Seq<char>, v: Seq<char>|
        #![trigger f(a) + u, f(b) + v]
        closing(u) && closing(v) && f(a) + u == f(b) + v implies a == b && u == v by {
        lemma_bootstrap(a, b, u, v);
    }
    assert(self_delimiting(f));
    lemma_array(s, t, f, x, y);
}

#[verifier::spinoff_prover]
proof fn lemma_residue_entry_then(v: StateResidueEntryView, x: Seq<char>)
    ensures
        residue_entry_text(v) + x == residue_entry_then(v, x),
{
    let e = "}"@ + Seq::<char>::empty();
    assert(e + x =~= "}"@ + x);
    lemma_append2(",\"digest\":"@, json_bytes(v.digest), e, x);
    let r2 = ",\"digest\":"@ + (json_bytes(v.digest) + e);
    lemma_append2(",\"byteLength\":"@, decimal(v.byte_length as nat), r2, x);
    let r1 = ",\"byteLength\":"@ + (decimal(v.byte_length as nat) + r2);
    lemma_append2("{\"path\":"@, json_string(v.path), r1, x);
}

#[verifier::spinoff_prover]
proof fn lemma_residue_entry(
    a: StateResidueEntryView,
    b: StateResidueEntryView,
    x: Seq<char>,
    y: Seq<char>,
)
    requires
        residue_entry_text(a) + x == residue_entry_text(b) + y,
    ensures
        a == b,
        x == y,
{
    lemma_residue_entry_then(a, x);
    lemma_residue_entry_then(b, y);
    let (p3, q3) = ("}"@ + x, "}"@ + y);
    let p2 = json_bytes(a.digest) + p3;
    let q2 = json_bytes(b.digest) + q3;
    let p1 = decimal(a.byte_length as nat) + (",\"digest\":"@ + p2);
    let q1 = decimal(b.byte_length as nat) + (",\"digest\":"@ + q2);
    let p0 = json_string(a.path) + (",\"byteLength\":"@ + p1);
    let q0 = json_string(b.path) + (",\"byteLength\":"@ + q1);
    reveal_strlit(",\"digest\":");
    lemma_peel("{\"path\":"@, p0, q0);
    lemma_string(a.path, b.path, ",\"byteLength\":"@ + p1, ",\"byteLength\":"@ + q1);
    lemma_peel(",\"byteLength\":"@, p1, q1);
    lemma_number(
        a.byte_length as nat,
        b.byte_length as nat,
        ",\"digest\":"@ + p2,
        ",\"digest\":"@ + q2,
    );
    lemma_peel(",\"digest\":"@, p2, q2);
    lemma_bytes(a.digest, b.digest, p3, q3);
    lemma_peel("}"@, x, y);
}

proof fn lemma_residue_entrys(
    s: Seq<StateResidueEntryView>,
    t: Seq<StateResidueEntryView>,
    x: Seq<char>,
    y: Seq<char>,
)
    requires
        residue_entrys_text(s) + x == residue_entrys_text(t) + y,
    ensures
        s == t,
        x == y,
{
    let f = |v: StateResidueEntryView| residue_entry_text(v);
    assert forall|a: StateResidueEntryView| #[trigger] f(a).len() > 0 && f(a)[0] != ']' by {
        reveal_strlit("{\"path\":");
        assert(residue_entry_text(a)[0] == '{');
    }
    assert forall|a: StateResidueEntryView, b: StateResidueEntryView, u: Seq<char>, v: Seq<char>|
        #![trigger f(a) + u, f(b) + v]
        closing(u) && closing(v) && f(a) + u == f(b) + v implies a == b && u == v by {
        lemma_residue_entry(a, b, u, v);
    }
    assert(self_delimiting(f));
    lemma_array(s, t, f, x, y);
}

#[verifier::spinoff_prover]
proof fn lemma_state_residue_then(v: StateResidueView, x: Seq<char>)
    ensures
        state_residue_text(v) + x == state_residue_then(v, x),
{
    let e = "}"@ + Seq::<char>::empty();
    assert(e + x =~= "}"@ + x);
    lemma_append2(",\"entries\":"@, residue_entrys_text(v.entries), e, x);
    let r2 = ",\"entries\":"@ + (residue_entrys_text(v.entries) + e);
    lemma_append2(",\"removeDirectory\":"@, json_bool(v.remove_directory), r2, x);
    let r1 = ",\"removeDirectory\":"@ + (json_bool(v.remove_directory) + r2);
    lemma_append2("{\"directory\":"@, json_string(v.directory), r1, x);
}

#[verifier::spinoff_prover]
proof fn lemma_state_residue(a: StateResidueView, b: StateResidueView, x: Seq<char>, y: Seq<char>)
    requires
        state_residue_text(a) + x == state_residue_text(b) + y,
    ensures
        a == b,
        x == y,
{
    lemma_state_residue_then(a, x);
    lemma_state_residue_then(b, y);
    let (p3, q3) = ("}"@ + x, "}"@ + y);
    let p2 = residue_entrys_text(a.entries) + p3;
    let q2 = residue_entrys_text(b.entries) + q3;
    let p1 = json_bool(a.remove_directory) + (",\"entries\":"@ + p2);
    let q1 = json_bool(b.remove_directory) + (",\"entries\":"@ + q2);
    let p0 = json_string(a.directory) + (",\"removeDirectory\":"@ + p1);
    let q0 = json_string(b.directory) + (",\"removeDirectory\":"@ + q1);
    lemma_peel("{\"directory\":"@, p0, q0);
    lemma_string(
        a.directory,
        b.directory,
        ",\"removeDirectory\":"@ + p1,
        ",\"removeDirectory\":"@ + q1,
    );
    lemma_peel(",\"removeDirectory\":"@, p1, q1);
    lemma_bool(
        a.remove_directory,
        b.remove_directory,
        ",\"entries\":"@ + p2,
        ",\"entries\":"@ + q2,
    );
    lemma_peel(",\"entries\":"@, p2, q2);
    lemma_residue_entrys(a.entries, b.entries, p3, q3);
    lemma_peel("}"@, x, y);
}

proof fn lemma_option_state_residue(
    a: Option<StateResidueView>,
    b: Option<StateResidueView>,
    x: Seq<char>,
    y: Seq<char>,
)
    requires
        option_state_residue_text(a) + x == option_state_residue_text(b) + y,
    ensures
        a == b,
        x == y,
{
    reveal_strlit("{\"directory\":");
    if a is None && b is None {
        lemma_peel(null(), x, y);
    } else if a is None {
        lemma_null_or(null(), state_residue_text(b->0), x, y);
    } else if b is None {
        lemma_null_or(null(), state_residue_text(a->0), y, x);
    } else {
        lemma_state_residue(a->0, b->0, x, y);
    }
}

proof fn lemma_option_record(
    a: Option<RecordView>,
    b: Option<RecordView>,
    x: Seq<char>,
    y: Seq<char>,
)
    requires
        option_record_text(a) + x == option_record_text(b) + y,
    ensures
        a == b,
        x == y,
{
    reveal_strlit("{\"phase\":");
    if a is None && b is None {
        lemma_peel(null(), x, y);
    } else if a is None {
        lemma_null_or(null(), record_text(b->0), x, y);
    } else if b is None {
        lemma_null_or(null(), record_text(a->0), y, x);
    } else {
        lemma_record(a->0, b->0, x, y);
    }
}

#[verifier::spinoff_prover]
proof fn lemma_state_then(v: SnapshotView, x: Seq<char>)
    ensures
        state_text(v) + x == state_then(v, x),
{
    let e = "}"@ + Seq::<char>::empty();
    assert(e + x =~= "}"@ + x);
    lemma_append2(",\"stateResidue\":"@, option_state_residue_text(v.state_residue), e, x);
    let r14 = ",\"stateResidue\":"@ + (option_state_residue_text(v.state_residue) + e);
    lemma_append2(",\"bootstrapResidues\":"@, bootstraps_text(v.bootstrap_residues), r14, x);
    let r13 = ",\"bootstrapResidues\":"@ + (bootstraps_text(v.bootstrap_residues) + r14);
    lemma_append2(",\"daemonPlanValid\":"@, json_bool(v.daemon_plan_valid), r13, x);
    let r12 = ",\"daemonPlanValid\":"@ + (json_bool(v.daemon_plan_valid) + r13);
    lemma_append2(",\"daemonPlanIdentity\":"@, plan_text(v.daemon_plan_identity), r12, x);
    let r11 = ",\"daemonPlanIdentity\":"@ + (plan_text(v.daemon_plan_identity) + r12);
    lemma_append2(",\"daemonPlanObserved\":"@, json_bool(v.daemon_plan_observed), r11, x);
    let r10 = ",\"daemonPlanObserved\":"@ + (json_bool(v.daemon_plan_observed) + r11);
    lemma_append2(",\"activationPhase\":"@, activation_phase_text(v.activation_phase), r10, x);
    let r9 = ",\"activationPhase\":"@ + (activation_phase_text(v.activation_phase) + r10);
    lemma_append2(
        ",\"activationRecordDigest\":"@,
        json_option_bytes(v.activation_record_digest),
        r9,
        x,
    );
    let r8 = ",\"activationRecordDigest\":"@ + (json_option_bytes(v.activation_record_digest) + r9);
    lemma_append2(",\"activationStateValid\":"@, json_bool(v.activation_state_valid), r8, x);
    let r7 = ",\"activationStateValid\":"@ + (json_bool(v.activation_state_valid) + r8);
    lemma_append2(",\"effectiveLinkDigest\":"@, json_option_bytes(v.effective_link_digest), r7, x);
    let r6 = ",\"effectiveLinkDigest\":"@ + (json_option_bytes(v.effective_link_digest) + r7);
    lemma_append2(",\"selectedLink\":"@, option_link_text(v.selected_link), r6, x);
    let r5 = ",\"selectedLink\":"@ + (option_link_text(v.selected_link) + r6);
    lemma_append2(",\"resolverEnvironment\":"@, json_string(v.resolver_environment), r5, x);
    let r4 = ",\"resolverEnvironment\":"@ + (json_string(v.resolver_environment) + r5);
    lemma_append2(",\"services\":"@, services_text(v.services), r4, x);
    let r3 = ",\"services\":"@ + (services_text(v.services) + r4);
    lemma_append2(",\"publications\":"@, path_states_text(v.publications), r3, x);
    let r2 = ",\"publications\":"@ + (path_states_text(v.publications) + r3);
    lemma_append2(",\"activeIntegrityValid\":"@, json_option_bool(v.active_integrity_valid), r2, x);
    let r1 = ",\"activeIntegrityValid\":"@ + (json_option_bool(v.active_integrity_valid) + r2);
    lemma_append2("{\"installRecord\":"@, option_record_text(v.install_record), r1, x);
}

#[verifier::spinoff_prover]
proof fn lemma_state(a: SnapshotView, b: SnapshotView, x: Seq<char>, y: Seq<char>)
    requires
        state_text(a) + x == state_text(b) + y,
    ensures
        a == b,
        x == y,
{
    lemma_state_then(a, x);
    lemma_state_then(b, y);
    let (p15, q15) = ("}"@ + x, "}"@ + y);
    let p14 = option_state_residue_text(a.state_residue) + p15;
    let q14 = option_state_residue_text(b.state_residue) + q15;
    let p13 = bootstraps_text(a.bootstrap_residues) + (",\"stateResidue\":"@ + p14);
    let q13 = bootstraps_text(b.bootstrap_residues) + (",\"stateResidue\":"@ + q14);
    let p12 = json_bool(a.daemon_plan_valid) + (",\"bootstrapResidues\":"@ + p13);
    let q12 = json_bool(b.daemon_plan_valid) + (",\"bootstrapResidues\":"@ + q13);
    let p11 = plan_text(a.daemon_plan_identity) + (",\"daemonPlanValid\":"@ + p12);
    let q11 = plan_text(b.daemon_plan_identity) + (",\"daemonPlanValid\":"@ + q12);
    let p10 = json_bool(a.daemon_plan_observed) + (",\"daemonPlanIdentity\":"@ + p11);
    let q10 = json_bool(b.daemon_plan_observed) + (",\"daemonPlanIdentity\":"@ + q11);
    let p9 = activation_phase_text(a.activation_phase) + (",\"daemonPlanObserved\":"@ + p10);
    let q9 = activation_phase_text(b.activation_phase) + (",\"daemonPlanObserved\":"@ + q10);
    let p8 = json_option_bytes(a.activation_record_digest) + (",\"activationPhase\":"@ + p9);
    let q8 = json_option_bytes(b.activation_record_digest) + (",\"activationPhase\":"@ + q9);
    let p7 = json_bool(a.activation_state_valid) + (",\"activationRecordDigest\":"@ + p8);
    let q7 = json_bool(b.activation_state_valid) + (",\"activationRecordDigest\":"@ + q8);
    let p6 = json_option_bytes(a.effective_link_digest) + (",\"activationStateValid\":"@ + p7);
    let q6 = json_option_bytes(b.effective_link_digest) + (",\"activationStateValid\":"@ + q7);
    let p5 = option_link_text(a.selected_link) + (",\"effectiveLinkDigest\":"@ + p6);
    let q5 = option_link_text(b.selected_link) + (",\"effectiveLinkDigest\":"@ + q6);
    let p4 = json_string(a.resolver_environment) + (",\"selectedLink\":"@ + p5);
    let q4 = json_string(b.resolver_environment) + (",\"selectedLink\":"@ + q5);
    let p3 = services_text(a.services) + (",\"resolverEnvironment\":"@ + p4);
    let q3 = services_text(b.services) + (",\"resolverEnvironment\":"@ + q4);
    let p2 = path_states_text(a.publications) + (",\"services\":"@ + p3);
    let q2 = path_states_text(b.publications) + (",\"services\":"@ + q3);
    let p1 = json_option_bool(a.active_integrity_valid) + (",\"publications\":"@ + p2);
    let q1 = json_option_bool(b.active_integrity_valid) + (",\"publications\":"@ + q2);
    let p0 = option_record_text(a.install_record) + (",\"activeIntegrityValid\":"@ + p1);
    let q0 = option_record_text(b.install_record) + (",\"activeIntegrityValid\":"@ + q1);
    lemma_peel("{\"installRecord\":"@, p0, q0);
    lemma_option_record(
        a.install_record,
        b.install_record,
        ",\"activeIntegrityValid\":"@ + p1,
        ",\"activeIntegrityValid\":"@ + q1,
    );
    lemma_peel(",\"activeIntegrityValid\":"@, p1, q1);
    lemma_option_bool(
        a.active_integrity_valid,
        b.active_integrity_valid,
        ",\"publications\":"@ + p2,
        ",\"publications\":"@ + q2,
    );
    lemma_peel(",\"publications\":"@, p2, q2);
    lemma_path_states(
        a.publications,
        b.publications,
        ",\"services\":"@ + p3,
        ",\"services\":"@ + q3,
    );
    lemma_peel(",\"services\":"@, p3, q3);
    lemma_services(
        a.services,
        b.services,
        ",\"resolverEnvironment\":"@ + p4,
        ",\"resolverEnvironment\":"@ + q4,
    );
    lemma_peel(",\"resolverEnvironment\":"@, p4, q4);
    lemma_string(
        a.resolver_environment,
        b.resolver_environment,
        ",\"selectedLink\":"@ + p5,
        ",\"selectedLink\":"@ + q5,
    );
    lemma_peel(",\"selectedLink\":"@, p5, q5);
    lemma_option_link(
        a.selected_link,
        b.selected_link,
        ",\"effectiveLinkDigest\":"@ + p6,
        ",\"effectiveLinkDigest\":"@ + q6,
    );
    lemma_peel(",\"effectiveLinkDigest\":"@, p6, q6);
    lemma_option_bytes(
        a.effective_link_digest,
        b.effective_link_digest,
        ",\"activationStateValid\":"@ + p7,
        ",\"activationStateValid\":"@ + q7,
    );
    lemma_peel(",\"activationStateValid\":"@, p7, q7);
    lemma_bool(
        a.activation_state_valid,
        b.activation_state_valid,
        ",\"activationRecordDigest\":"@ + p8,
        ",\"activationRecordDigest\":"@ + q8,
    );
    lemma_peel(",\"activationRecordDigest\":"@, p8, q8);
    lemma_option_bytes(
        a.activation_record_digest,
        b.activation_record_digest,
        ",\"activationPhase\":"@ + p9,
        ",\"activationPhase\":"@ + q9,
    );
    lemma_peel(",\"activationPhase\":"@, p9, q9);
    lemma_activation_phase(
        a.activation_phase,
        b.activation_phase,
        ",\"daemonPlanObserved\":"@ + p10,
        ",\"daemonPlanObserved\":"@ + q10,
    );
    lemma_peel(",\"daemonPlanObserved\":"@, p10, q10);
    lemma_bool(
        a.daemon_plan_observed,
        b.daemon_plan_observed,
        ",\"daemonPlanIdentity\":"@ + p11,
        ",\"daemonPlanIdentity\":"@ + q11,
    );
    lemma_peel(",\"daemonPlanIdentity\":"@, p11, q11);
    lemma_plan(
        a.daemon_plan_identity,
        b.daemon_plan_identity,
        ",\"daemonPlanValid\":"@ + p12,
        ",\"daemonPlanValid\":"@ + q12,
    );
    lemma_peel(",\"daemonPlanValid\":"@, p12, q12);
    lemma_bool(
        a.daemon_plan_valid,
        b.daemon_plan_valid,
        ",\"bootstrapResidues\":"@ + p13,
        ",\"bootstrapResidues\":"@ + q13,
    );
    lemma_peel(",\"bootstrapResidues\":"@, p13, q13);
    lemma_bootstraps(
        a.bootstrap_residues,
        b.bootstrap_residues,
        ",\"stateResidue\":"@ + p14,
        ",\"stateResidue\":"@ + q14,
    );
    lemma_peel(",\"stateResidue\":"@, p14, q14);
    lemma_option_state_residue(a.state_residue, b.state_residue, p15, q15);
    lemma_peel("}"@, x, y);
}

/// The state that a plan is bound to is told by its text, and by its bytes:
/// nothing that was found can differ without the bytes differing that the state's
/// digest is taken over.
pub proof fn law_state_text_tells_the_state(a: SnapshotView, b: SnapshotView)
    requires
        state_text(a) == state_text(b) || state_bytes(a) == state_bytes(b),
    ensures
        a == b,
{
    encode_utf8_decode_utf8(state_text(a));
    encode_utf8_decode_utf8(state_text(b));
    lemma_state(a, b, Seq::empty(), Seq::empty());
}

} // verus!
