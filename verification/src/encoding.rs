//! The texts that identify a generation and that record an installation.

use vstd::arithmetic::power::pow;
use vstd::prelude::*;
use vstd::string::*;
use vstd::utf8::*;

use crate::digest::{be_value, identity_text, uuid_text};
use crate::json::{
    array_text, bytes_text, chain, closing, json_array, json_bytes, json_string, json_text,
    lemma_array, lemma_bytes, lemma_number, lemma_peel, lemma_string, mapped, null,
    self_delimiting,
};
use crate::labels::{
    manager, manager_name, phase, phase_name, rollback_name, rollback_step, uninstall_name,
    uninstall_step,
};
use crate::model::{
    Artifact, ArtifactView, DirectoryIdentity,
    DirectoryProvenance, Generation, GenerationView, InstallPhase, InstallRecord, PublicDirectory,
    PublicDirectoryView, RecordView, ResolverPlanIdentity, RollbackStep, UninstallStep,
};
use crate::order::views;
use crate::text::{concat, copy, decimal, number_text};

verus! {

// ---------------------------------------------------------------------------
// Files and directories
// ---------------------------------------------------------------------------

/// A file, and what stands behind it.
pub open spec fn artifact_then(a: ArtifactView, rest: Seq<char>) -> Seq<char> {
    "{\"relative_path\":"@ + (json_string(a.relative_path) + (",\"mode\":"@ + (decimal(
        a.mode as nat,
    ) + (",\"byte_length\":"@ + (decimal(a.byte_length as nat) + (",\"digest\":"@ + (json_bytes(
        a.digest,
    ) + ("}"@ + rest))))))))
}

pub open spec fn artifact_text(a: ArtifactView) -> Seq<char> {
    artifact_then(a, Seq::empty())
}

pub open spec fn artifacts_text(s: Seq<ArtifactView>) -> Seq<char> {
    json_array(mapped(s, |a: ArtifactView| artifact_text(a)))
}

/// The name of a provenance.
pub open spec fn provenance_name(p: DirectoryProvenance) -> Seq<char> {
    match p {
        DirectoryProvenance::Preexisting => "preexisting"@,
        DirectoryProvenance::CreatedByRemap => "created_by_remap"@,
    }
}

/// A directory without its identity, and what stands behind it.
pub open spec fn place_then(d: PublicDirectoryView, rest: Seq<char>) -> Seq<char> {
    "{\"path\":"@ + (json_string(d.path) + (",\"provenance\":"@ + (json_string(
        provenance_name(d.provenance),
    ) + rest)))
}

/// A directory as a manifest names it.
pub open spec fn place_text(d: PublicDirectoryView) -> Seq<char> {
    place_then(d, "}"@)
}

pub open spec fn places_text(s: Seq<PublicDirectoryView>) -> Seq<char> {
    json_array(Seq::new(s.len(), |i: int| place_text(s[i])))
}

/// The bytes of a number, the most significant first.
pub open spec fn be_bytes(n: nat, width: nat) -> Seq<u8>
    decreases width,
{
    if width == 0 {
        Seq::empty()
    } else {
        be_bytes(n / 256, (width - 1) as nat).push((n % 256) as u8)
    }
}

/// A number that may be negative.
pub open spec fn signed_text(n: i64) -> Seq<char> {
    if n < 0 {
        seq!['-'] + decimal((-n) as nat)
    } else {
        decimal(n as nat)
    }
}

/// What tells a created directory apart.
pub open spec fn identity_json(i: Option<DirectoryIdentity>) -> Seq<char> {
    match i {
        None => null(),
        Some(i) => "{\"inode\":"@ + (decimal(i.inode as nat) + (",\"birth_seconds\":"@ + (
        signed_text(i.birth_seconds) + (",\"birth_nanoseconds\":"@ + (decimal(
            i.birth_nanoseconds as nat,
        ) + (",\"ownership_nonce\":"@ + (json_bytes(be_bytes(i.ownership_nonce as nat, 16))
            + "}"@))))))),
    }
}

/// A directory as a record holds it.
pub open spec fn directory_text(d: PublicDirectoryView) -> Seq<char> {
    place_then(d, ",\"identity\":"@ + (identity_json(d.identity) + "}"@))
}

pub open spec fn directories_text(s: Seq<PublicDirectoryView>) -> Seq<char> {
    json_array(Seq::new(s.len(), |i: int| directory_text(s[i])))
}

fn write_artifact(a: &Artifact) -> (r: String)
    ensures
        r@ == artifact_text(a@),
{
    let r = chain(",\"digest\":", bytes_text(&a.digest).as_str(), "}");
    let r = chain(",\"byte_length\":", number_text(a.byte_length).as_str(), r.as_str());
    let r = chain(",\"mode\":", number_text(a.mode as u64).as_str(), r.as_str());
    let r = chain(
        "{\"relative_path\":",
        json_text(a.relative_path.as_str()).as_str(),
        r.as_str(),
    );
    proof {
        assert("}"@ + Seq::<char>::empty() =~= "}"@);
    }
    r
}

fn write_artifacts(v: &Vec<Artifact>) -> (r: String)
    ensures
        r@ == artifacts_text(views(v@)),
{
    let ghost all = mapped(views(v@), |a: ArtifactView| artifact_text(a));
    let mut items: Vec<String> = Vec::new();
    let mut i: usize = 0;
    while i < v.len()
        invariant
            0 <= i <= v@.len(),
            all == mapped(views(v@), |a: ArtifactView| artifact_text(a)),
            all.len() == v@.len(),
            items@.len() == i,
            forall|j: int| 0 <= j < i ==> #[trigger] items@[j]@ == all[j],
        decreases v@.len() - i,
    {
        items.push(write_artifact(&v[i]));
        i += 1;
    }
    proof {
        assert(views(items@) =~= all);
    }
    array_text(&items)
}

fn write_place(d: &PublicDirectory, rest: &str) -> (r: String)
    ensures
        r@ == place_then(d@, rest@),
{
    let provenance = match d.provenance {
        DirectoryProvenance::Preexisting => "preexisting",
        DirectoryProvenance::CreatedByRemap => "created_by_remap",
    };
    let r = chain(",\"provenance\":", json_text(provenance).as_str(), rest);
    let r = chain("{\"path\":", json_text(d.path.as_str()).as_str(), r.as_str());
    r
}

fn write_places(v: &Vec<PublicDirectory>) -> (r: String)
    ensures
        r@ == places_text(views(v@)),
{
    let ghost all = Seq::new(v@.len(), |i: int| place_text(views(v@)[i]));
    let mut items: Vec<String> = Vec::new();
    let mut i: usize = 0;
    while i < v.len()
        invariant
            0 <= i <= v@.len(),
            all == Seq::new(v@.len(), |i: int| place_text(views(v@)[i])),
            items@.len() == i,
            forall|j: int| 0 <= j < i ==> #[trigger] items@[j]@ == all[j],
        decreases v@.len() - i,
    {
        items.push(write_place(&v[i], "}"));
        i += 1;
    }
    proof {
        assert(views(items@) =~= all);
        assert(views(v@).len() == v@.len());
    }
    array_text(&items)
}

fn number_bytes(n: u128) -> (r: [u8; 16])
    ensures
        r@ == be_bytes(n as nat, 16),
{
    let mut r: [u8; 16] = [0; 16];
    let mut left: u128 = n;
    let mut i: usize = 16;
    while i > 0
        invariant
            0 <= i <= 16,
            r@.len() == 16,
            be_bytes(n as nat, 16) == be_bytes(left as nat, i as nat) + r@.subrange(i as int, 16),
        decreases i,
    {
        let ghost before = r@;
        let ghost was = left as nat;
        let low: u8 = (left % 256) as u8;
        r[i - 1] = low;
        left = left / 256;
        proof {
            assert(be_bytes(was, i as nat) == be_bytes(was / 256, (i - 1) as nat).push(
                (was % 256) as u8,
            ));
            assert(be_bytes(was, i as nat) + before.subrange(i as int, 16) =~= be_bytes(
                was / 256,
                (i - 1) as nat,
            ) + r@.subrange(i as int - 1, 16));
        }
        i -= 1;
    }
    proof {
        assert(be_bytes(left as nat, 0) + r@.subrange(0, 16) =~= r@);
    }
    r
}

fn write_signed(n: i64) -> (r: String)
    ensures
        r@ == signed_text(n),
{
    if n < 0 {
        proof {
            reveal_strlit("-");
            assert("-"@ =~= seq!['-']);
        }
        let positive: u64 = (-(n as i128)) as u64;
        concat("-", number_text(positive).as_str())
    } else {
        number_text(n as u64)
    }
}

fn write_identity(i: &Option<DirectoryIdentity>) -> (r: String)
    ensures
        r@ == identity_json(*i),
{
    match i {
        None => {
            proof {
                reveal_strlit("null");
                assert("null"@ =~= null());
            }
            copy("null")
        },
        Some(i) => {
            let r = chain(
                ",\"ownership_nonce\":",
                bytes_text(&number_bytes(i.ownership_nonce)).as_str(),
                "}",
            );
            let r = chain(
                ",\"birth_nanoseconds\":",
                number_text(i.birth_nanoseconds as u64).as_str(),
                r.as_str(),
            );
            let r = chain(
                ",\"birth_seconds\":",
                write_signed(i.birth_seconds).as_str(),
                r.as_str(),
            );
            let r = chain("{\"inode\":", number_text(i.inode).as_str(), r.as_str());
            r
        },
    }
}

fn write_directories(v: &Vec<PublicDirectory>) -> (r: String)
    ensures
        r@ == directories_text(views(v@)),
{
    let ghost all = Seq::new(v@.len(), |i: int| directory_text(views(v@)[i]));
    let mut items: Vec<String> = Vec::new();
    let mut i: usize = 0;
    while i < v.len()
        invariant
            0 <= i <= v@.len(),
            all == Seq::new(v@.len(), |i: int| directory_text(views(v@)[i])),
            items@.len() == i,
            forall|j: int| 0 <= j < i ==> #[trigger] items@[j]@ == all[j],
        decreases v@.len() - i,
    {
        let rest = chain(",\"identity\":", write_identity(&v[i].identity).as_str(), "}");
        items.push(write_place(&v[i], rest.as_str()));
        i += 1;
    }
    proof {
        assert(views(items@) =~= all);
        assert(views(v@).len() == v@.len());
    }
    array_text(&items)
}

// ---------------------------------------------------------------------------
// Generations
// ---------------------------------------------------------------------------

/// The resolver contract, where it is not the first one.
pub open spec fn capability_then(g: GenerationView, rest: Seq<char>) -> Seq<char> {
    if g.resolver_rebase_capability == 1 {
        rest
    } else {
        ",\"resolver_rebase_capability\":"@ + (decimal(g.resolver_rebase_capability as nat) + rest)
    }
}

/// The manager of the link, where it is recorded.
pub open spec fn manager_then(g: GenerationView, rest: Seq<char>) -> Seq<char> {
    match g.resolver_manager {
        None => rest,
        Some(m) => ",\"resolver_manager\":"@ + (json_string(manager_name(m)) + rest),
    }
}

/// The name of the link, where it is recorded.
pub open spec fn interface_then(g: GenerationView, rest: Seq<char>) -> Seq<char> {
    match g.interface_name {
        None => rest,
        Some(name) => ",\"interface_name\":"@ + (json_string(name) + rest),
    }
}

/// The files, and what stands behind them.
pub open spec fn files_then(g: GenerationView, rest: Seq<char>) -> Seq<char> {
    ",\"artifacts\":"@ + (artifacts_text(g.artifacts) + (",\"public_directories\":"@ + rest))
}

/// What a manifest and a record say alike of a generation.
pub open spec fn body_then(g: GenerationView, rest: Seq<char>) -> Seq<char> {
    ",\"product_version\":"@ + (json_string(g.product_version) + (",\"account\":"@ + (json_string(
        g.account,
    ) + (",\"group\":"@ + (json_string(g.group) + (",\"owner_uid\":"@ + (decimal(g.owner_uid as nat)
        + (",\"daemon_uid\":"@ + (decimal(g.daemon_uid as nat) + (",\"link\":"@ + (decimal(
        g.link as nat,
    ) + interface_then(g, manager_then(g, capability_then(g, files_then(g, rest)))))))))))))))
}

/// The manifest that identifies a generation.
pub open spec fn manifest_text(g: GenerationView) -> Seq<char> {
    "{\"schema\":\"remap.linux-generation/v1\""@ + body_then(
        g,
        places_text(g.public_directories) + "}"@,
    )
}

/// The bytes of the manifest that identifies a generation.
pub open spec fn manifest_bytes(g: GenerationView) -> Seq<u8> {
    encode_utf8(manifest_text(g))
}

/// A generation as a record holds it.
pub open spec fn generation_text(g: GenerationView) -> Seq<char> {
    "{\"id\":"@ + (json_string(uuid_text(g.id)) + (",\"manifest_digest\":"@ + (json_bytes(
        g.manifest_digest,
    ) + body_then(g, directories_text(g.public_directories) + "}"@))))
}

fn write_body(g: &Generation, rest: &str) -> (r: String)
    ensures
        r@ == body_then(g@, rest@),
{
    proof {
        assert(g@.artifacts =~= views(g.artifacts@));
    }
    let r = concat(",\"public_directories\":", rest);
    let r = chain(",\"artifacts\":", write_artifacts(&g.artifacts).as_str(), r.as_str());
    let r = if g.resolver_rebase_capability == 1 {
        r
    } else {
        chain(
            ",\"resolver_rebase_capability\":",
            number_text(g.resolver_rebase_capability as u64).as_str(),
            r.as_str(),
        )
    };
    let r = match g.resolver_manager {
        None => r,
        Some(m) => chain(
            ",\"resolver_manager\":",
            json_text(manager(m)).as_str(),
            r.as_str(),
        ),
    };
    let r = match &g.interface_name {
        None => r,
        Some(name) => chain(
            ",\"interface_name\":",
            json_text(name.as_str()).as_str(),
            r.as_str(),
        ),
    };
    let r = chain(",\"link\":", number_text(g.link as u64).as_str(), r.as_str());
    let r = chain(",\"daemon_uid\":", number_text(g.daemon_uid as u64).as_str(), r.as_str());
    let r = chain(",\"owner_uid\":", number_text(g.owner_uid as u64).as_str(), r.as_str());
    let r = chain(",\"group\":", json_text(g.group.as_str()).as_str(), r.as_str());
    let r = chain(",\"account\":", json_text(g.account.as_str()).as_str(), r.as_str());
    let r = chain(
        ",\"product_version\":",
        json_text(g.product_version.as_str()).as_str(),
        r.as_str(),
    );
    r
}

/// Writes the manifest that identifies a generation.
pub fn encoded_manifest(g: &Generation) -> (r: String)
    ensures
        r@ == manifest_text(g@),
{
    proof {
        assert(g@.public_directories =~= views(g.public_directories@));
    }
    let rest = concat(write_places(&g.public_directories).as_str(), "}");
    concat(
        "{\"schema\":\"remap.linux-generation/v1\"",
        write_body(g, rest.as_str()).as_str(),
    )
}

fn write_generation(g: &Generation) -> (r: String)
    ensures
        r@ == generation_text(g@),
{
    proof {
        assert(g@.public_directories =~= views(g.public_directories@));
    }
    let rest = concat(write_directories(&g.public_directories).as_str(), "}");
    let r = chain(
        ",\"manifest_digest\":",
        bytes_text(&g.manifest_digest).as_str(),
        write_body(g, rest.as_str()).as_str(),
    );
    let r = chain("{\"id\":", json_text(identity_text(g.id).as_str()).as_str(), r.as_str());
    r
}

// ---------------------------------------------------------------------------
// Records
// ---------------------------------------------------------------------------

/// The phase of an installation.
pub open spec fn phase_text(p: InstallPhase) -> Seq<char> {
    match p {
        InstallPhase::RollingBack(step) => "{\"rolling_back\":"@ + (json_string(rollback_name(step))
            + "}"@),
        InstallPhase::Uninstalling(step) => "{\"uninstalling\":"@ + (json_string(
            uninstall_name(step),
        ) + "}"@),
        _ => json_string(phase_name(p)),
    }
}

pub open spec fn option_generation_text(g: Option<GenerationView>) -> Seq<char> {
    match g {
        None => null(),
        Some(g) => generation_text(g),
    }
}

pub open spec fn plan_text(p: Option<ResolverPlanIdentity>) -> Seq<char> {
    match p {
        None => null(),
        Some(p) => "{\"activation_id\":"@ + (json_string(uuid_text(p.activation_id)) + (
        ",\"generation\":"@ + (decimal(p.generation as nat) + "}"@))),
    }
}

/// An installation as it is recorded.
pub open spec fn record_text(r: RecordView) -> Seq<char> {
    "{\"phase\":"@ + (phase_text(r.phase) + (",\"current\":"@ + (generation_text(r.current) + (
    ",\"previous\":"@ + (option_generation_text(r.previous) + (",\"previous_previous\":"@ + (
    option_generation_text(r.previous_previous) + (",\"pending_resolver_plan\":"@ + (plan_text(
        r.pending_resolver_plan,
    ) + "}"@)))))))))
}

/// The bytes that the digest of a record is taken over.
pub open spec fn record_bytes(r: RecordView) -> Seq<u8> {
    encode_utf8(record_text(r))
}

/// A record with its schema and its digest.
pub open spec fn envelope_text(r: RecordView, schema: Seq<char>, digest: Seq<u8>) -> Seq<char> {
    "{\"schema\":"@ + (json_string(schema) + (",\"digest\":"@ + (json_bytes(digest) + (
    ",\"payload\":"@ + (record_text(r) + "}"@)))))
}

fn write_phase(p: InstallPhase) -> (r: String)
    ensures
        r@ == phase_text(p),
{
    let r = match p {
        InstallPhase::RollingBack(step) => chain(
            "{\"rolling_back\":",
            json_text(rollback_step(step)).as_str(),
            "}",
        ),
        InstallPhase::Uninstalling(step) => chain(
            "{\"uninstalling\":",
            json_text(uninstall_step(step)).as_str(),
            "}",
        ),
        _ => json_text(phase(p)),
    };
    r
}

fn write_option_generation(g: &Option<Generation>) -> (r: String)
    ensures
        r@ == option_generation_text(crate::model::option_generation(*g)),
{
    match g {
        None => {
            proof {
                reveal_strlit("null");
                assert("null"@ =~= null());
            }
            copy("null")
        },
        Some(g) => write_generation(g),
    }
}

pub(crate) fn write_plan(p: &Option<ResolverPlanIdentity>) -> (r: String)
    ensures
        r@ == plan_text(*p),
{
    match p {
        None => {
            proof {
                reveal_strlit("null");
                assert("null"@ =~= null());
            }
            copy("null")
        },
        Some(p) => {
            let r = chain(",\"generation\":", number_text(p.generation).as_str(), "}");
            let r = chain(
                "{\"activation_id\":",
                json_text(identity_text(p.activation_id).as_str()).as_str(),
                r.as_str(),
            );
            r
        },
    }
}

/// Writes an installation as it is recorded.
pub fn encoded_record(record: &InstallRecord) -> (r: String)
    ensures
        r@ == record_text(record@),
{
    let r = chain(
        ",\"pending_resolver_plan\":",
        write_plan(&record.pending_resolver_plan).as_str(),
        "}",
    );
    let r = chain(
        ",\"previous_previous\":",
        write_option_generation(&record.previous_previous).as_str(),
        r.as_str(),
    );
    let r = chain(
        ",\"previous\":",
        write_option_generation(&record.previous).as_str(),
        r.as_str(),
    );
    let r = chain(",\"current\":", write_generation(&record.current).as_str(), r.as_str());
    let r = chain("{\"phase\":", write_phase(record.phase).as_str(), r.as_str());
    r
}

/// Writes a record with its schema and its digest.
pub fn encoded_envelope(record: &InstallRecord, schema: &str, digest: &[u8; 32]) -> (r: String)
    ensures
        r@ == envelope_text(record@, schema@, digest@),
{
    let r = chain(",\"payload\":", encoded_record(record).as_str(), "}");
    let r = chain(",\"digest\":", bytes_text(digest).as_str(), r.as_str());
    let r = chain("{\"schema\":", json_text(schema).as_str(), r.as_str());
    r
}

// ---------------------------------------------------------------------------
// Laws
// ---------------------------------------------------------------------------

#[verifier::spinoff_prover]
proof fn lemma_artifact(a: ArtifactView, b: ArtifactView, x: Seq<char>, y: Seq<char>)
    requires
        artifact_text(a) + x == artifact_text(b) + y,
    ensures
        a == b,
        x == y,
{
    assert(artifact_text(a) + x =~= artifact_then(a, x));
    assert(artifact_text(b) + y =~= artifact_then(b, y));
    let (a3, b3) = (json_bytes(a.digest) + ("}"@ + x), json_bytes(b.digest) + ("}"@ + y));
    let a2 = decimal(a.byte_length as nat) + (",\"digest\":"@ + a3);
    let b2 = decimal(b.byte_length as nat) + (",\"digest\":"@ + b3);
    let a1 = decimal(a.mode as nat) + (",\"byte_length\":"@ + a2);
    let b1 = decimal(b.mode as nat) + (",\"byte_length\":"@ + b2);
    let a0 = json_string(a.relative_path) + (",\"mode\":"@ + a1);
    let b0 = json_string(b.relative_path) + (",\"mode\":"@ + b1);
    reveal_strlit(",\"digest\":");
    reveal_strlit(",\"byte_length\":");
    lemma_peel("{\"relative_path\":"@, a0, b0);
    lemma_string(a.relative_path, b.relative_path, ",\"mode\":"@ + a1, ",\"mode\":"@ + b1);
    lemma_peel(",\"mode\":"@, a1, b1);
    lemma_number(
        a.mode as nat,
        b.mode as nat,
        ",\"byte_length\":"@ + a2,
        ",\"byte_length\":"@ + b2,
    );
    lemma_peel(",\"byte_length\":"@, a2, b2);
    lemma_number(
        a.byte_length as nat,
        b.byte_length as nat,
        ",\"digest\":"@ + a3,
        ",\"digest\":"@ + b3,
    );
    lemma_peel(",\"digest\":"@, a3, b3);
    lemma_bytes(a.digest, b.digest, "}"@ + x, "}"@ + y);
    lemma_peel("}"@, x, y);
}

proof fn lemma_artifacts(s: Seq<ArtifactView>, t: Seq<ArtifactView>, x: Seq<char>, y: Seq<char>)
    requires
        artifacts_text(s) + x == artifacts_text(t) + y,
    ensures
        s == t,
        x == y,
{
    let f = |a: ArtifactView| artifact_text(a);
    assert forall|a: ArtifactView| #[trigger] f(a).len() > 0 && f(a)[0] != ']' by {
        reveal_strlit("{\"relative_path\":");
        assert(artifact_text(a)[0] == '{');
    }
    assert forall|a: ArtifactView, b: ArtifactView, u: Seq<char>, v: Seq<char>|
        #![trigger f(a) + u, f(b) + v]
        closing(u) && closing(v) && f(a) + u == f(b) + v implies a == b && u == v by {
        lemma_artifact(a, b, u, v);
    }
    assert(self_delimiting(f));
    lemma_array(s, t, f, x, y);
}

proof fn lemma_provenances(a: DirectoryProvenance, b: DirectoryProvenance)
    requires
        provenance_name(a) == provenance_name(b),
    ensures
        a == b,
{
    reveal_strlit("preexisting");
    reveal_strlit("created_by_remap");
    assert("preexisting"@.len() != "created_by_remap"@.len());
}

pub(crate) proof fn lemma_managers(a: crate::native::ResolverLinkManager, b: crate::native::ResolverLinkManager)
    requires
        manager_name(a) == manager_name(b),
    ensures
        a == b,
{
    reveal_strlit("systemd_resolved");
    reveal_strlit("systemd_networkd");
    reveal_strlit("network_manager");
    assert("systemd_resolved"@.len() == 16 && "systemd_networkd"@.len() == 16
        && "network_manager"@.len() == 15);
    assert("systemd_resolved"@[8] == 'r' && "systemd_networkd"@[8] == 'n');
}

/// A directory without its identity.
pub open spec fn place(d: PublicDirectoryView) -> PublicDirectoryView {
    PublicDirectoryView { identity: None, ..d }
}

/// Directories without their identities.
pub open spec fn places(s: Seq<PublicDirectoryView>) -> Seq<PublicDirectoryView> {
    Seq::new(s.len(), |i: int| place(s[i]))
}

proof fn lemma_place(
    a: PublicDirectoryView,
    b: PublicDirectoryView,
    x: Seq<char>,
    y: Seq<char>,
)
    requires
        place_then(a, x) == place_then(b, y),
    ensures
        a.path == b.path,
        a.provenance == b.provenance,
        x == y,
{
    let a1 = json_string(provenance_name(a.provenance)) + x;
    let b1 = json_string(provenance_name(b.provenance)) + y;
    lemma_peel(
        "{\"path\":"@,
        json_string(a.path) + (",\"provenance\":"@ + a1),
        json_string(b.path) + (",\"provenance\":"@ + b1),
    );
    lemma_string(a.path, b.path, ",\"provenance\":"@ + a1, ",\"provenance\":"@ + b1);
    lemma_peel(",\"provenance\":"@, a1, b1);
    lemma_string(provenance_name(a.provenance), provenance_name(b.provenance), x, y);
    lemma_provenances(a.provenance, b.provenance);
}

proof fn lemma_places(
    s: Seq<PublicDirectoryView>,
    t: Seq<PublicDirectoryView>,
    x: Seq<char>,
    y: Seq<char>,
)
    requires
        places_text(s) + x == places_text(t) + y,
    ensures
        places(s) == places(t),
        x == y,
{
    // Of places, told by path and provenance alone.
    let f = |p: (Seq<char>, DirectoryProvenance)|
        place_text(PublicDirectoryView { path: p.0, provenance: p.1, identity: None });
    assert forall|a: (Seq<char>, DirectoryProvenance)| #[trigger] f(a).len() > 0 && f(a)[0]
        != ']' by {
        reveal_strlit("{\"path\":");
        assert(f(a)[0] == '{');
    }
    assert forall|
        a: (Seq<char>, DirectoryProvenance),
        b: (Seq<char>, DirectoryProvenance),
        u: Seq<char>,
        v: Seq<char>,
    |
        #![trigger f(a) + u, f(b) + v]
        closing(u) && closing(v) && f(a) + u == f(b) + v implies a == b && u == v by {
        let p = PublicDirectoryView { path: a.0, provenance: a.1, identity: None };
        let q = PublicDirectoryView { path: b.0, provenance: b.1, identity: None };
        assert(f(a) + u =~= place_then(p, "}"@ + u));
        assert(f(b) + v =~= place_then(q, "}"@ + v));
        lemma_place(p, q, "}"@ + u, "}"@ + v);
        lemma_peel("}"@, u, v);
    }
    assert(self_delimiting(f));
    let sp = Seq::new(s.len(), |i: int| (s[i].path, s[i].provenance));
    let tp = Seq::new(t.len(), |i: int| (t[i].path, t[i].provenance));
    assert(mapped(sp, f) =~= Seq::new(s.len(), |i: int| place_text(s[i])));
    assert(mapped(tp, f) =~= Seq::new(t.len(), |i: int| place_text(t[i])));
    lemma_array(sp, tp, f, x, y);
    assert(sp.len() == tp.len());
    assert forall|i: int| 0 <= i < s.len() implies place(s[i]) == place(t[i]) by {
        assert(sp[i] == tp[i]);
    }
    assert(places(s) =~= places(t));
}

/// What tells the optional members of a generation apart.
proof fn lemma_keys()
    ensures
        ",\"interface_name\":"@.len() > 11 && ",\"interface_name\":"@[0] == ','
            && ",\"interface_name\":"@[2] == 'i',
        ",\"resolver_manager\":"@.len() > 11 && ",\"resolver_manager\":"@[0] == ','
            && ",\"resolver_manager\":"@[2] == 'r' && ",\"resolver_manager\":"@[11] == 'm',
        ",\"resolver_rebase_capability\":"@.len() > 11 && ",\"resolver_rebase_capability\":"@[0]
            == ',' && ",\"resolver_rebase_capability\":"@[2] == 'r'
            && ",\"resolver_rebase_capability\":"@[11] == 'r',
        ",\"artifacts\":"@.len() > 11 && ",\"artifacts\":"@[0] == ',' && ",\"artifacts\":"@[2]
            == 'a',
{
    reveal_strlit(",\"interface_name\":");
    reveal_strlit(",\"resolver_manager\":");
    reveal_strlit(",\"resolver_rebase_capability\":");
    reveal_strlit(",\"artifacts\":");
}

#[verifier::spinoff_prover]
proof fn lemma_files(g: GenerationView, h: GenerationView, x: Seq<char>, y: Seq<char>)
    requires
        files_then(g, x) == files_then(h, y),
    ensures
        g.artifacts == h.artifacts,
        x == y,
{
    let d = ",\"public_directories\":"@;
    lemma_peel(
        ",\"artifacts\":"@,
        artifacts_text(g.artifacts) + (d + x),
        artifacts_text(h.artifacts) + (d + y),
    );
    lemma_artifacts(g.artifacts, h.artifacts, d + x, d + y);
    lemma_peel(d, x, y);
}

#[verifier::spinoff_prover]
proof fn lemma_capability(g: GenerationView, h: GenerationView, x: Seq<char>, y: Seq<char>)
    requires
        capability_then(g, files_then(g, x)) == capability_then(h, files_then(h, y)),
    ensures
        g.resolver_rebase_capability == h.resolver_rebase_capability,
        files_then(g, x) == files_then(h, y),
{
    lemma_keys();
    let (p, q) = (files_then(g, x), files_then(h, y));
    let (a, b) = (capability_then(g, p), capability_then(h, q));
    let k = ",\"resolver_rebase_capability\":"@;
    assert(p[0] == ',' && q[0] == ',' && p[2] == 'a' && q[2] == 'a');
    if g.resolver_rebase_capability != 1 {
        assert(a[2] == 'r');
    }
    if h.resolver_rebase_capability != 1 {
        assert(b[2] == 'r');
    }
    if g.resolver_rebase_capability != 1 && h.resolver_rebase_capability != 1 {
        let (m, n) = (g.resolver_rebase_capability as nat, h.resolver_rebase_capability as nat);
        lemma_peel(k, decimal(m) + p, decimal(n) + q);
        lemma_number(m, n, p, q);
    }
}

#[verifier::spinoff_prover]
proof fn lemma_capability_key(g: GenerationView, x: Seq<char>)
    ensures
        ({
            let a = capability_then(g, files_then(g, x));
            &&& a.len() > 11
            &&& a[0] == ','
            &&& a[2] != 'i'
            &&& !(a[2] == 'r' && a[11] == 'm')
        }),
{
    lemma_keys();
    let p = files_then(g, x);
    let a = capability_then(g, p);
    assert(p[0] == ',' && p[2] == 'a');
    if g.resolver_rebase_capability != 1 {
        let k = ",\"resolver_rebase_capability\":"@;
        assert(a[0] == k[0] && a[2] == k[2] && a[11] == k[11]);
    }
}

#[verifier::spinoff_prover]
proof fn lemma_manager(g: GenerationView, h: GenerationView, p: Seq<char>, q: Seq<char>)
    requires
        manager_then(g, p) == manager_then(h, q),
        p.len() > 11,
        q.len() > 11,
        !(p[2] == 'r' && p[11] == 'm'),
        !(q[2] == 'r' && q[11] == 'm'),
    ensures
        g.resolver_manager == h.resolver_manager,
        p == q,
{
    lemma_keys();
    let (a, b) = (manager_then(g, p), manager_then(h, q));
    let k = ",\"resolver_manager\":"@;
    if g.resolver_manager is Some {
        assert(a[2] == k[2] && a[11] == k[11]);
    }
    if h.resolver_manager is Some {
        assert(b[2] == k[2] && b[11] == k[11]);
    }
    if g.resolver_manager is Some && h.resolver_manager is Some {
        let (m, n) = (g.resolver_manager->0, h.resolver_manager->0);
        lemma_peel(k, json_string(manager_name(m)) + p, json_string(manager_name(n)) + q);
        lemma_string(manager_name(m), manager_name(n), p, q);
        lemma_managers(m, n);
    }
}

#[verifier::spinoff_prover]
proof fn lemma_manager_key(g: GenerationView, p: Seq<char>)
    requires
        p.len() > 11,
        p[0] == ',',
        p[2] != 'i',
    ensures
        manager_then(g, p).len() > 2,
        manager_then(g, p)[0] == ',',
        manager_then(g, p)[2] != 'i',
{
    lemma_keys();
    if g.resolver_manager is Some {
        let k = ",\"resolver_manager\":"@;
        assert(manager_then(g, p)[0] == k[0] && manager_then(g, p)[2] == k[2]);
    }
}

#[verifier::spinoff_prover]
proof fn lemma_interface(g: GenerationView, h: GenerationView, p: Seq<char>, q: Seq<char>)
    requires
        interface_then(g, p) == interface_then(h, q),
        p.len() > 2,
        q.len() > 2,
        p[2] != 'i',
        q[2] != 'i',
    ensures
        g.interface_name == h.interface_name,
        p == q,
{
    lemma_keys();
    let (a, b) = (interface_then(g, p), interface_then(h, q));
    let k = ",\"interface_name\":"@;
    if g.interface_name is Some {
        assert(a[2] == k[2]);
    }
    if h.interface_name is Some {
        assert(b[2] == k[2]);
    }
    if g.interface_name is Some && h.interface_name is Some {
        lemma_peel(k, json_string(g.interface_name->0) + p, json_string(h.interface_name->0) + q);
        lemma_string(g.interface_name->0, h.interface_name->0, p, q);
    }
}

/// Whether two generations say the same where a manifest and a record say alike.
pub open spec fn same_body(g: GenerationView, h: GenerationView) -> bool {
    &&& g.product_version == h.product_version
    &&& g.account == h.account
    &&& g.group == h.group
    &&& g.owner_uid == h.owner_uid
    &&& g.daemon_uid == h.daemon_uid
    &&& g.link == h.link
    &&& g.interface_name == h.interface_name
    &&& g.resolver_manager == h.resolver_manager
    &&& g.resolver_rebase_capability == h.resolver_rebase_capability
    &&& g.artifacts == h.artifacts
}

#[verifier::spinoff_prover]
proof fn lemma_options(g: GenerationView, h: GenerationView, x: Seq<char>, y: Seq<char>)
    requires
        interface_then(g, manager_then(g, capability_then(g, files_then(g, x)))) == interface_then(
            h,
            manager_then(h, capability_then(h, files_then(h, y))),
        ),
    ensures
        g.interface_name == h.interface_name,
        g.resolver_manager == h.resolver_manager,
        g.resolver_rebase_capability == h.resolver_rebase_capability,
        g.artifacts == h.artifacts,
        x == y,
{
    let (p2, q2) = (capability_then(g, files_then(g, x)), capability_then(h, files_then(h, y)));
    lemma_capability_key(g, x);
    lemma_capability_key(h, y);
    lemma_manager_key(g, p2);
    lemma_manager_key(h, q2);
    lemma_interface(g, h, manager_then(g, p2), manager_then(h, q2));
    lemma_manager(g, h, p2, q2);
    lemma_capability(g, h, x, y);
    lemma_files(g, h, x, y);
}

#[verifier::spinoff_prover]
proof fn lemma_options_close(g: GenerationView, x: Seq<char>)
    ensures
        closing(interface_then(g, manager_then(g, capability_then(g, files_then(g, x))))),
{
    let p = capability_then(g, files_then(g, x));
    lemma_capability_key(g, x);
    lemma_manager_key(g, p);
    if g.interface_name is Some {
        lemma_keys();
        let k = ",\"interface_name\":"@;
        assert(interface_then(g, manager_then(g, p))[0] == k[0]);
    }
}

#[verifier::spinoff_prover]
proof fn lemma_numbers(
    a: Seq<nat>,
    b: Seq<nat>,
    p: Seq<char>,
    q: Seq<char>,
)
    requires
        a.len() == 3,
        b.len() == 3,
        closing(p),
        closing(q),
        decimal(a[0]) + (",\"daemon_uid\":"@ + (decimal(a[1]) + (",\"link\":"@ + (decimal(a[2]) + p))))
            == decimal(b[0]) + (",\"daemon_uid\":"@ + (decimal(b[1]) + (",\"link\":"@ + (decimal(b[2])
            + q)))),
    ensures
        a[0] == b[0],
        a[1] == b[1],
        a[2] == b[2],
        p == q,
{
    reveal_strlit(",\"daemon_uid\":");
    reveal_strlit(",\"link\":");
    let (a2, b2) = (decimal(a[2]) + p, decimal(b[2]) + q);
    let a1 = decimal(a[1]) + (",\"link\":"@ + a2);
    let b1 = decimal(b[1]) + (",\"link\":"@ + b2);
    lemma_number(a[0], b[0], ",\"daemon_uid\":"@ + a1, ",\"daemon_uid\":"@ + b1);
    lemma_peel(",\"daemon_uid\":"@, a1, b1);
    lemma_number(a[1], b[1], ",\"link\":"@ + a2, ",\"link\":"@ + b2);
    lemma_peel(",\"link\":"@, a2, b2);
    lemma_number(a[2], b[2], p, q);
}

#[verifier::spinoff_prover]
proof fn lemma_body(g: GenerationView, h: GenerationView, x: Seq<char>, y: Seq<char>)
    requires
        body_then(g, x) == body_then(h, y),
    ensures
        same_body(g, h),
        x == y,
{
    let p4 = interface_then(g, manager_then(g, capability_then(g, files_then(g, x))));
    let q4 = interface_then(h, manager_then(h, capability_then(h, files_then(h, y))));
    let (gl, hl) = (decimal(g.link as nat) + p4, decimal(h.link as nat) + q4);
    let gd = decimal(g.daemon_uid as nat) + (",\"link\":"@ + gl);
    let hd = decimal(h.daemon_uid as nat) + (",\"link\":"@ + hl);
    let p3 = decimal(g.owner_uid as nat) + (",\"daemon_uid\":"@ + gd);
    let q3 = decimal(h.owner_uid as nat) + (",\"daemon_uid\":"@ + hd);
    let p2 = json_string(g.group) + (",\"owner_uid\":"@ + p3);
    let q2 = json_string(h.group) + (",\"owner_uid\":"@ + q3);
    let p1 = json_string(g.account) + (",\"group\":"@ + p2);
    let q1 = json_string(h.account) + (",\"group\":"@ + q2);
    let p0 = json_string(g.product_version) + (",\"account\":"@ + p1);
    let q0 = json_string(h.product_version) + (",\"account\":"@ + q1);
    lemma_peel(",\"product_version\":"@, p0, q0);
    lemma_string(g.product_version, h.product_version, ",\"account\":"@ + p1, ",\"account\":"@ + q1);
    lemma_peel(",\"account\":"@, p1, q1);
    lemma_string(g.account, h.account, ",\"group\":"@ + p2, ",\"group\":"@ + q2);
    lemma_peel(",\"group\":"@, p2, q2);
    lemma_string(g.group, h.group, ",\"owner_uid\":"@ + p3, ",\"owner_uid\":"@ + q3);
    lemma_peel(",\"owner_uid\":"@, p3, q3);
    lemma_options_close(g, x);
    lemma_options_close(h, y);
    lemma_numbers(
        seq![g.owner_uid as nat, g.daemon_uid as nat, g.link as nat],
        seq![h.owner_uid as nat, h.daemon_uid as nat, h.link as nat],
        p4,
        q4,
    );
    lemma_options(g, h, x, y);
}

/// A manifest tells everything that it names of a generation: two generations
/// with the same manifest have the same version, accounts, link, resolver and
/// files, and the same directories apart from their identities.
pub proof fn law_manifest_tells_the_generation(g: GenerationView, h: GenerationView)
    requires
        manifest_text(g) == manifest_text(h),
    ensures
        same_body(g, h),
        places(g.public_directories) == places(h.public_directories),
{
    let x = places_text(g.public_directories) + "}"@;
    let y = places_text(h.public_directories) + "}"@;
    lemma_peel(
        "{\"schema\":\"remap.linux-generation/v1\""@,
        body_then(g, x),
        body_then(h, y),
    );
    lemma_body(g, h, x, y);
    lemma_places(g.public_directories, h.public_directories, "}"@, "}"@);
}

proof fn lemma_be_bytes(n: nat, width: nat)
    requires
        n < pow(256, width),
    ensures
        be_value(be_bytes(n, width)) == n,
    decreases width,
{
    reveal(pow);
    if width > 0 {
        let w = (width - 1) as nat;
        assert(pow(256, width) == 256 * pow(256, w));
        assert(n / 256 < pow(256, w)) by (nonlinear_arith)
            requires
                n < 256 * pow(256, w),
        ;
        lemma_be_bytes(n / 256, w);
        assert(be_bytes(n, width).drop_last() =~= be_bytes(n / 256, w));
    }
}

proof fn lemma_nonces(m: u128, n: u128)
    requires
        be_bytes(m as nat, 16) == be_bytes(n as nat, 16),
    ensures
        m == n,
{
    assert(pow(256, 16) == 0x1_0000_0000_0000_0000_0000_0000_0000_0000int) by {
        reveal_with_fuel(pow, 17);
    }
    lemma_be_bytes(m as nat, 16);
    lemma_be_bytes(n as nat, 16);
}

proof fn lemma_signed(m: i64, n: i64, x: Seq<char>, y: Seq<char>)
    requires
        signed_text(m) + x == signed_text(n) + y,
        closing(x),
        closing(y),
    ensures
        m == n,
        x == y,
{
    let (a, b) = (signed_text(m) + x, signed_text(n) + y);
    crate::text::lemma_decimal(m as nat);
    crate::text::lemma_decimal(n as nat);
    if m >= 0 {
        assert(a[0] == decimal(m as nat)[0]);
        assert(crate::text::is_digit(a[0]));
    } else {
        assert(a[0] == '-');
    }
    if n >= 0 {
        assert(b[0] == decimal(n as nat)[0]);
        assert(crate::text::is_digit(b[0]));
    } else {
        assert(b[0] == '-');
    }
    if m >= 0 && n >= 0 {
        lemma_number(m as nat, n as nat, x, y);
    } else {
        let (i, j) = ((-m) as nat, (-n) as nat);
        assert(a =~= seq!['-'] + (decimal(i) + x));
        assert(b =~= seq!['-'] + (decimal(j) + y));
        lemma_peel(seq!['-'], decimal(i) + x, decimal(j) + y);
        lemma_number(i, j, x, y);
    }
}

/// A null is told from an object.
pub(crate) proof fn lemma_null_or(a: Seq<char>, b: Seq<char>, x: Seq<char>, y: Seq<char>)
    requires
        a == null(),
        b.len() > 0,
        b[0] == '{',
    ensures
        a + x != b + y,
        b + y != a + x,
{
    assert((a + x)[0] == 'n');
    assert((b + y)[0] == '{');
}

#[verifier::spinoff_prover]
proof fn lemma_identity(
    a: Option<DirectoryIdentity>,
    b: Option<DirectoryIdentity>,
    x: Seq<char>,
    y: Seq<char>,
)
    requires
        identity_json(a) + x == identity_json(b) + y,
    ensures
        a == b,
        x == y,
{
    reveal_strlit("{\"inode\":");
    if a is None && b is None {
        lemma_peel(null(), x, y);
    } else if a is None {
        lemma_null_or(identity_json(a), identity_json(b), x, y);
    } else if b is None {
        lemma_null_or(identity_json(b), identity_json(a), y, x);
    } else {
        let (i, j) = (a->0, b->0);
        let e = "}"@;
        let (bi, bj) = (
            be_bytes(i.ownership_nonce as nat, 16),
            be_bytes(j.ownership_nonce as nat, 16),
        );
        let (a3, b3) = (json_bytes(bi) + (e + x), json_bytes(bj) + (e + y));
        let a2 = decimal(i.birth_nanoseconds as nat) + (",\"ownership_nonce\":"@ + a3);
        let b2 = decimal(j.birth_nanoseconds as nat) + (",\"ownership_nonce\":"@ + b3);
        let a1 = signed_text(i.birth_seconds) + (",\"birth_nanoseconds\":"@ + a2);
        let b1 = signed_text(j.birth_seconds) + (",\"birth_nanoseconds\":"@ + b2);
        let a0 = decimal(i.inode as nat) + (",\"birth_seconds\":"@ + a1);
        let b0 = decimal(j.inode as nat) + (",\"birth_seconds\":"@ + b1);
        assert(identity_json(a) + x =~= "{\"inode\":"@ + a0);
        assert(identity_json(b) + y =~= "{\"inode\":"@ + b0);
        reveal_strlit(",\"birth_seconds\":");
        reveal_strlit(",\"birth_nanoseconds\":");
        reveal_strlit(",\"ownership_nonce\":");
        lemma_peel("{\"inode\":"@, a0, b0);
        lemma_number(
            i.inode as nat,
            j.inode as nat,
            ",\"birth_seconds\":"@ + a1,
            ",\"birth_seconds\":"@ + b1,
        );
        lemma_peel(",\"birth_seconds\":"@, a1, b1);
        lemma_signed(
            i.birth_seconds,
            j.birth_seconds,
            ",\"birth_nanoseconds\":"@ + a2,
            ",\"birth_nanoseconds\":"@ + b2,
        );
        lemma_peel(",\"birth_nanoseconds\":"@, a2, b2);
        lemma_number(
            i.birth_nanoseconds as nat,
            j.birth_nanoseconds as nat,
            ",\"ownership_nonce\":"@ + a3,
            ",\"ownership_nonce\":"@ + b3,
        );
        lemma_peel(",\"ownership_nonce\":"@, a3, b3);
        lemma_bytes(bi, bj, e + x, e + y);
        lemma_nonces(i.ownership_nonce, j.ownership_nonce);
        lemma_peel(e, x, y);
    }
}

#[verifier::spinoff_prover]
proof fn lemma_directory(
    a: PublicDirectoryView,
    b: PublicDirectoryView,
    x: Seq<char>,
    y: Seq<char>,
)
    requires
        directory_text(a) + x == directory_text(b) + y,
    ensures
        a == b,
        x == y,
{
    let k = ",\"identity\":"@;
    let (p, q) = (identity_json(a.identity) + ("}"@ + x), identity_json(b.identity) + ("}"@ + y));
    assert(directory_text(a) + x =~= place_then(a, k + p));
    assert(directory_text(b) + y =~= place_then(b, k + q));
    lemma_place(a, b, k + p, k + q);
    lemma_peel(k, p, q);
    lemma_identity(a.identity, b.identity, "}"@ + x, "}"@ + y);
    lemma_peel("}"@, x, y);
}

proof fn lemma_directories(
    s: Seq<PublicDirectoryView>,
    t: Seq<PublicDirectoryView>,
    x: Seq<char>,
    y: Seq<char>,
)
    requires
        directories_text(s) + x == directories_text(t) + y,
    ensures
        s == t,
        x == y,
{
    let f = |a: PublicDirectoryView| directory_text(a);
    assert forall|a: PublicDirectoryView| #[trigger] f(a).len() > 0 && f(a)[0] != ']' by {
        reveal_strlit("{\"path\":");
        assert(directory_text(a)[0] == '{');
    }
    assert forall|a: PublicDirectoryView, b: PublicDirectoryView, u: Seq<char>, v: Seq<char>|
        #![trigger f(a) + u, f(b) + v]
        closing(u) && closing(v) && f(a) + u == f(b) + v implies a == b && u == v by {
        lemma_directory(a, b, u, v);
    }
    assert(self_delimiting(f));
    assert(mapped(s, f) =~= Seq::new(s.len(), |i: int| directory_text(s[i])));
    assert(mapped(t, f) =~= Seq::new(t.len(), |i: int| directory_text(t[i])));
    lemma_array(s, t, f, x, y);
}

#[verifier::spinoff_prover]
proof fn lemma_body_append(g: GenerationView, x: Seq<char>, y: Seq<char>)
    ensures
        body_then(g, x) + y == body_then(g, x + y),
{
    let d = ",\"public_directories\":"@;
    let t = artifacts_text(g.artifacts);
    assert(files_then(g, x) + y =~= files_then(g, x + y));
    let (f0, f1) = (files_then(g, x), files_then(g, x + y));
    assert(capability_then(g, f0) + y =~= capability_then(g, f1));
    let (c0, c1) = (capability_then(g, f0), capability_then(g, f1));
    assert(manager_then(g, c0) + y =~= manager_then(g, c1));
    let (m0, m1) = (manager_then(g, c0), manager_then(g, c1));
    assert(interface_then(g, m0) + y =~= interface_then(g, m1));
    let (i0, i1) = (interface_then(g, m0), interface_then(g, m1));
    lemma_append2(",\"link\":"@, decimal(g.link as nat), i0, y);
    let (l0, l1) = (
        ",\"link\":"@ + (decimal(g.link as nat) + i0),
        ",\"link\":"@ + (decimal(g.link as nat) + i1),
    );
    lemma_append2(",\"daemon_uid\":"@, decimal(g.daemon_uid as nat), l0, y);
    let (d0, d1) = (
        ",\"daemon_uid\":"@ + (decimal(g.daemon_uid as nat) + l0),
        ",\"daemon_uid\":"@ + (decimal(g.daemon_uid as nat) + l1),
    );
    lemma_append2(",\"owner_uid\":"@, decimal(g.owner_uid as nat), d0, y);
    let (o0, o1) = (
        ",\"owner_uid\":"@ + (decimal(g.owner_uid as nat) + d0),
        ",\"owner_uid\":"@ + (decimal(g.owner_uid as nat) + d1),
    );
    lemma_append2(",\"group\":"@, json_string(g.group), o0, y);
    let (g0, g1) = (
        ",\"group\":"@ + (json_string(g.group) + o0),
        ",\"group\":"@ + (json_string(g.group) + o1),
    );
    lemma_append2(",\"account\":"@, json_string(g.account), g0, y);
    let (a0, a1) = (
        ",\"account\":"@ + (json_string(g.account) + g0),
        ",\"account\":"@ + (json_string(g.account) + g1),
    );
    lemma_append2(",\"product_version\":"@, json_string(g.product_version), a0, y);
}

pub(crate) proof fn lemma_append2(a: Seq<char>, b: Seq<char>, c: Seq<char>, y: Seq<char>)
    ensures
        (a + (b + c)) + y == a + (b + (c + y)),
{
    assert((a + (b + c)) + y =~= a + (b + (c + y)));
}

/// A generation in a record, and what stands behind it.
#[verifier::spinoff_prover]
proof fn lemma_generation_then(g: GenerationView, x: Seq<char>)
    ensures
        generation_text(g) + x == "{\"id\":"@ + (json_string(uuid_text(g.id)) + (
        ",\"manifest_digest\":"@ + (json_bytes(g.manifest_digest) + body_then(
            g,
            directories_text(g.public_directories) + ("}"@ + x),
        )))),
{
    let e = "}"@;
    let d = directories_text(g.public_directories);
    let b = body_then(g, d + e);
    lemma_body_append(g, d + e, x);
    assert((d + e) + x =~= d + (e + x));
    let m = json_bytes(g.manifest_digest);
    let k = ",\"manifest_digest\":"@;
    lemma_append2(k, m, b, x);
    lemma_append2("{\"id\":"@, json_string(uuid_text(g.id)), k + (m + b), x);
}

#[verifier::spinoff_prover]
proof fn lemma_generation(g: GenerationView, h: GenerationView, x: Seq<char>, y: Seq<char>)
    requires
        generation_text(g) + x == generation_text(h) + y,
    ensures
        g == h,
        x == y,
{
    let e = "}"@;
    let k = ",\"manifest_digest\":"@;
    lemma_generation_then(g, x);
    lemma_generation_then(h, y);
    let p2 = directories_text(g.public_directories) + (e + x);
    let q2 = directories_text(h.public_directories) + (e + y);
    let p1 = json_bytes(g.manifest_digest) + body_then(g, p2);
    let q1 = json_bytes(h.manifest_digest) + body_then(h, q2);
    let p0 = json_string(uuid_text(g.id)) + (k + p1);
    let q0 = json_string(uuid_text(h.id)) + (k + q1);
    lemma_peel("{\"id\":"@, p0, q0);
    lemma_string(uuid_text(g.id), uuid_text(h.id), k + p1, k + q1);
    crate::digest::law_identity_text_is_injective(g.id, h.id);
    lemma_peel(k, p1, q1);
    lemma_bytes(g.manifest_digest, h.manifest_digest, body_then(g, p2), body_then(h, q2));
    lemma_body(g, h, p2, q2);
    lemma_directories(g.public_directories, h.public_directories, e + x, e + y);
    lemma_peel(e, x, y);
}

proof fn lemma_option_generation(
    g: Option<GenerationView>,
    h: Option<GenerationView>,
    x: Seq<char>,
    y: Seq<char>,
)
    requires
        option_generation_text(g) + x == option_generation_text(h) + y,
    ensures
        g == h,
        x == y,
{
    reveal_strlit("{\"id\":");
    if g is None && h is None {
        lemma_peel(null(), x, y);
    } else if g is None {
        lemma_null_or(null(), generation_text(h->0), x, y);
    } else if h is None {
        lemma_null_or(null(), generation_text(g->0), y, x);
    } else {
        lemma_generation(g->0, h->0, x, y);
    }
}

#[verifier::spinoff_prover]
pub(crate) proof fn lemma_plan(
    a: Option<ResolverPlanIdentity>,
    b: Option<ResolverPlanIdentity>,
    x: Seq<char>,
    y: Seq<char>,
)
    requires
        plan_text(a) + x == plan_text(b) + y,
    ensures
        a == b,
        x == y,
{
    reveal_strlit("{\"activation_id\":");
    if a is None && b is None {
        lemma_peel(null(), x, y);
    } else if a is None {
        lemma_null_or(null(), plan_text(b), x, y);
    } else if b is None {
        lemma_null_or(null(), plan_text(a), y, x);
    } else {
        let (p, q) = (a->0, b->0);
        let k = ",\"generation\":"@;
        reveal_strlit("}");
        let p1 = decimal(p.generation as nat) + ("}"@ + x);
        let q1 = decimal(q.generation as nat) + ("}"@ + y);
        let p0 = json_string(uuid_text(p.activation_id)) + (k + p1);
        let q0 = json_string(uuid_text(q.activation_id)) + (k + q1);
        assert(plan_text(a) + x =~= "{\"activation_id\":"@ + p0);
        assert(plan_text(b) + y =~= "{\"activation_id\":"@ + q0);
        lemma_peel("{\"activation_id\":"@, p0, q0);
        lemma_string(uuid_text(p.activation_id), uuid_text(q.activation_id), k + p1, k + q1);
        crate::digest::law_identity_text_is_injective(p.activation_id, q.activation_id);
        lemma_peel(k, p1, q1);
        assert(("}"@ + x)[0] == '}' && ("}"@ + y)[0] == '}');
        lemma_number(p.generation as nat, q.generation as nat, "}"@ + x, "}"@ + y);
        lemma_peel("}"@, x, y);
    }
}

proof fn lemma_rollback_names(a: RollbackStep, b: RollbackStep)
    requires
        rollback_name(a) == rollback_name(b),
    ensures
        a == b,
{
    reveal_strlit("stop_services");
    reveal_strlit("restore_resolver");
    reveal_strlit("restore_current");
    reveal_strlit("remove_unit_links");
    reveal_strlit("remove_public_paths");
    reveal_strlit("reload_manager");
    reveal_strlit("start_previous");
    reveal_strlit("remove_failed_generation");
    reveal_strlit("remove_generation_roots");
    reveal_strlit("finalize");
    assert("stop_services"@.len() == 13 && "restore_resolver"@.len() == 16
        && "restore_current"@.len() == 15 && "remove_unit_links"@.len() == 17
        && "remove_public_paths"@.len() == 19 && "reload_manager"@.len() == 14
        && "start_previous"@.len() == 14 && "remove_failed_generation"@.len() == 24
        && "remove_generation_roots"@.len() == 23 && "finalize"@.len() == 8);
    assert("reload_manager"@[0] == 'r' && "start_previous"@[0] == 's');
}

proof fn lemma_uninstall_names(a: UninstallStep, b: UninstallStep)
    requires
        uninstall_name(a) == uninstall_name(b),
    ensures
        a == b,
{
    reveal_strlit("restore_resolver");
    reveal_strlit("stop_services");
    reveal_strlit("remove_unit_links");
    reveal_strlit("remove_public_paths");
    reveal_strlit("remove_current");
    reveal_strlit("reload_manager");
    reveal_strlit("remove_current_generation");
    reveal_strlit("remove_previous_generation");
    reveal_strlit("remove_generation_roots");
    reveal_strlit("finalize");
    assert("restore_resolver"@.len() == 16 && "stop_services"@.len() == 13
        && "remove_unit_links"@.len() == 17 && "remove_public_paths"@.len() == 19
        && "remove_current"@.len() == 14 && "reload_manager"@.len() == 14
        && "remove_current_generation"@.len() == 25 && "remove_previous_generation"@.len() == 26
        && "remove_generation_roots"@.len() == 23 && "finalize"@.len() == 8);
    assert("remove_current"@[2] == 'm' && "reload_manager"@[2] == 'l');
}

proof fn lemma_phase_names(a: InstallPhase, b: InstallPhase)
    requires
        phase_name(a) == phase_name(b),
        !(a is RollingBack),
        !(a is Uninstalling),
        !(b is RollingBack),
        !(b is Uninstalling),
    ensures
        a == b,
{
    reveal_strlit("staging");
    reveal_strlit("staged");
    reveal_strlit("published");
    reveal_strlit("pruning");
    reveal_strlit("active");
    assert("staging"@.len() == 7 && "staged"@.len() == 6 && "published"@.len() == 9
        && "pruning"@.len() == 7 && "active"@.len() == 6);
    assert("staging"@[0] == 's' && "pruning"@[0] == 'p' && "staged"@[0] == 's' && "active"@[0]
        == 'a');
}

#[verifier::spinoff_prover]
proof fn lemma_phase(a: InstallPhase, b: InstallPhase, x: Seq<char>, y: Seq<char>)
    requires
        phase_text(a) + x == phase_text(b) + y,
    ensures
        a == b,
        x == y,
{
    let (k, l) = ("{\"rolling_back\":"@, "{\"uninstalling\":"@);
    assert(k.len() > 2 && l.len() > 2 && k[0] == '{' && l[0] == '{' && k[2] == 'r' && l[2] == 'u')
        by {
        reveal_strlit("{\"rolling_back\":");
        reveal_strlit("{\"uninstalling\":");
    }
    let (s, t) = (phase_text(a) + x, phase_text(b) + y);
    match a {
        InstallPhase::RollingBack(_) => {
            assert(s[0] == '{' && s[2] == 'r');
        },
        InstallPhase::Uninstalling(_) => {
            assert(s[0] == '{' && s[2] == 'u');
        },
        _ => {
            assert(s[0] == '"');
        },
    }
    match b {
        InstallPhase::RollingBack(_) => {
            assert(t[0] == '{' && t[2] == 'r');
        },
        InstallPhase::Uninstalling(_) => {
            assert(t[0] == '{' && t[2] == 'u');
        },
        _ => {
            assert(t[0] == '"');
        },
    }
    match (a, b) {
        (InstallPhase::RollingBack(m), InstallPhase::RollingBack(n)) => {
            let (p, q) = (
                json_string(rollback_name(m)) + ("}"@ + x),
                json_string(rollback_name(n)) + ("}"@ + y),
            );
            assert(s =~= k + p);
            assert(t =~= k + q);
            lemma_peel(k, p, q);
            lemma_string(rollback_name(m), rollback_name(n), "}"@ + x, "}"@ + y);
            lemma_rollback_names(m, n);
            lemma_peel("}"@, x, y);
        },
        (InstallPhase::Uninstalling(m), InstallPhase::Uninstalling(n)) => {
            let (p, q) = (
                json_string(uninstall_name(m)) + ("}"@ + x),
                json_string(uninstall_name(n)) + ("}"@ + y),
            );
            assert(s =~= l + p);
            assert(t =~= l + q);
            lemma_peel(l, p, q);
            lemma_string(uninstall_name(m), uninstall_name(n), "}"@ + x, "}"@ + y);
            lemma_uninstall_names(m, n);
            lemma_peel("}"@, x, y);
        },
        _ => {
            lemma_string(phase_name(a), phase_name(b), x, y);
            lemma_phase_names(a, b);
        },
    }
}

#[verifier::spinoff_prover]
proof fn lemma_record_then(r: RecordView, x: Seq<char>)
    ensures
        record_text(r) + x == "{\"phase\":"@ + (phase_text(r.phase) + (",\"current\":"@ + (
        generation_text(r.current) + (",\"previous\":"@ + (option_generation_text(r.previous) + (
        ",\"previous_previous\":"@ + (option_generation_text(r.previous_previous) + (
        ",\"pending_resolver_plan\":"@ + (plan_text(r.pending_resolver_plan) + ("}"@ + x)))))))))),
{
    let (t0, t1) = (phase_text(r.phase), generation_text(r.current));
    let (t2, t3) = (
        option_generation_text(r.previous),
        option_generation_text(r.previous_previous),
    );
    let t4 = plan_text(r.pending_resolver_plan);
    let (k1, k2) = (",\"current\":"@, ",\"previous\":"@);
    let (k3, k4) = (",\"previous_previous\":"@, ",\"pending_resolver_plan\":"@);
    let r4 = k4 + (t4 + "}"@);
    let r3 = k3 + (t3 + r4);
    let r2 = k2 + (t2 + r3);
    let r1 = k1 + (t1 + r2);
    lemma_append2(k4, t4, "}"@, x);
    lemma_append2(k3, t3, r4, x);
    lemma_append2(k2, t2, r3, x);
    lemma_append2(k1, t1, r2, x);
    lemma_append2("{\"phase\":"@, t0, r1, x);
}

/// A record is told by its text wherever it stands.
#[verifier::spinoff_prover]
pub proof fn lemma_record(r: RecordView, s: RecordView, x: Seq<char>, y: Seq<char>)
    requires
        record_text(r) + x == record_text(s) + y,
    ensures
        r == s,
        x == y,
{
    lemma_record_then(r, x);
    lemma_record_then(s, y);
    let (d, e) = ("}"@ + x, "}"@ + y);
    let (k1, k2) = (",\"current\":"@, ",\"previous\":"@);
    let (k3, k4) = (",\"previous_previous\":"@, ",\"pending_resolver_plan\":"@);
    let (r4, s4) = (plan_text(r.pending_resolver_plan) + d, plan_text(s.pending_resolver_plan) + e);
    let r3 = option_generation_text(r.previous_previous) + (k4 + r4);
    let s3 = option_generation_text(s.previous_previous) + (k4 + s4);
    let r2 = option_generation_text(r.previous) + (k3 + r3);
    let s2 = option_generation_text(s.previous) + (k3 + s3);
    let r1 = generation_text(r.current) + (k2 + r2);
    let s1 = generation_text(s.current) + (k2 + s2);
    let (r0, s0) = (phase_text(r.phase) + (k1 + r1), phase_text(s.phase) + (k1 + s1));
    lemma_peel("{\"phase\":"@, r0, s0);
    lemma_phase(r.phase, s.phase, k1 + r1, k1 + s1);
    lemma_peel(k1, r1, s1);
    lemma_generation(r.current, s.current, k2 + r2, k2 + s2);
    lemma_peel(k2, r2, s2);
    lemma_option_generation(r.previous, s.previous, k3 + r3, k3 + s3);
    lemma_peel(k3, r3, s3);
    lemma_option_generation(r.previous_previous, s.previous_previous, k4 + r4, k4 + s4);
    lemma_peel(k4, r4, s4);
    lemma_plan(r.pending_resolver_plan, s.pending_resolver_plan, d, e);
    lemma_peel("}"@, x, y);
}

/// A record is told by its text: nothing of an installation can change without
/// the bytes changing that its digest is taken over.
pub proof fn law_text_tells_the_record(r: RecordView, s: RecordView)
    requires
        record_text(r) == record_text(s),
    ensures
        r == s,
{
    lemma_record(r, s, Seq::empty(), Seq::empty());
}

/// What is written to disk tells the record, its schema and its digest.
#[verifier::spinoff_prover]
pub proof fn law_envelope_tells_the_record(
    r: RecordView,
    s: RecordView,
    schema: Seq<char>,
    other_schema: Seq<char>,
    digest: Seq<u8>,
    other_digest: Seq<u8>,
)
    requires
        envelope_text(r, schema, digest) == envelope_text(s, other_schema, other_digest),
    ensures
        r == s,
        schema == other_schema,
        digest == other_digest,
{
    let (k1, k2) = (",\"digest\":"@, ",\"payload\":"@);
    let (r2, s2) = (record_text(r) + "}"@, record_text(s) + "}"@);
    let r1 = json_bytes(digest) + (k2 + r2);
    let s1 = json_bytes(other_digest) + (k2 + s2);
    lemma_peel("{\"schema\":"@, json_string(schema) + (k1 + r1), json_string(other_schema) + (k1 + s1));
    lemma_string(schema, other_schema, k1 + r1, k1 + s1);
    lemma_peel(k1, r1, s1);
    lemma_bytes(digest, other_digest, k2 + r2, k2 + s2);
    lemma_peel(k2, r2, s2);
    lemma_record(r, s, "}"@, "}"@);
}

} // verus!
