//! What an approval token is taken over.

use vstd::prelude::*;
use vstd::string::*;
use vstd::utf8::*;

use crate::digest::{hex_bytes, option_digest, sha256_of, token_of};
use crate::effects::{operation_name, Operation, PublicationEffect, PublicationView};
use crate::json::{
    array_text, bytes_text, chain, closing, json_array, json_bytes, json_option_bytes, json_option_string,
    json_string, json_strings, json_text, lemma_array, lemma_bytes, lemma_option_bytes,
    lemma_option_string, lemma_peel, lemma_string, lemma_strings, mapped, option_digest_text,
    option_string_text, self_delimiting, strings_text,
};
use crate::order::views;

verus! {

/// A publication, and what stands behind it.
pub open spec fn publication_then(p: PublicationView, rest: Seq<char>) -> Seq<char> {
    "{\"action\":"@ + (json_string(p.action) + (",\"path\":"@ + (json_string(p.path) + (
    ",\"previousGenerationID\":"@ + (json_option_string(p.previous_generation_id) + (
    ",\"nextGenerationID\":"@ + (json_option_string(p.next_generation_id) + ("}"@ + rest))))))))
}

/// A publication as it is approved.
pub open spec fn publication_text(p: PublicationView) -> Seq<char> {
    publication_then(p, Seq::empty())
}

/// Publications as they are approved.
pub open spec fn publications_text(s: Seq<PublicationView>) -> Seq<char> {
    json_array(mapped(s, |p: PublicationView| publication_text(p)))
}

/// What a plan is approved for.
pub struct ApprovalView {
    pub operation: Operation,
    pub generation_manifest_digest: Option<Seq<u8>>,
    pub source_manifest_sha256: Option<Seq<u8>>,
    pub state_digest: Seq<u8>,
    pub effects: Seq<Seq<char>>,
    pub publications: Seq<PublicationView>,
}

/// The text that the token of a plan is the digest of.
pub open spec fn approval_text(a: ApprovalView) -> Seq<char> {
    "{\"schema\":\"remap.linux-approval/v1\",\"operation\":"@ + (json_string(
        operation_name(a.operation),
    ) + (",\"generationManifestDigest\":"@ + (json_option_bytes(a.generation_manifest_digest) + (
    ",\"sourceManifestSha256\":"@ + (json_option_bytes(a.source_manifest_sha256) + (
    ",\"stateDigest\":"@ + (json_bytes(a.state_digest) + (",\"effects\":"@ + (json_strings(
        a.effects,
    ) + (",\"publications\":"@ + (publications_text(a.publications) + "}"@)))))))))))
}

/// The text that the token of a recovery is the digest of.
pub open spec fn recovery_text(state_digest: Seq<u8>, effects: Seq<Seq<char>>) -> Seq<char> {
    "{\"schema\":\"remap.linux-approval/v1\",\"operation\":\"recover\",\"stateDigest\":"@ + (
    json_bytes(state_digest) + (",\"effects\":"@ + (json_strings(effects) + "}"@)))
}

/// The token of a plan.
pub open spec fn plan_token_of(a: ApprovalView) -> Seq<char> {
    hex_bytes(sha256_of(encode_utf8(approval_text(a))))
}

/// The token of a recovery.
pub open spec fn recovery_token_of(state_digest: Seq<u8>, effects: Seq<Seq<char>>) -> Seq<char> {
    hex_bytes(sha256_of(encode_utf8(recovery_text(state_digest, effects))))
}

fn write_publication(p: &PublicationEffect) -> (r: String)
    ensures
        r@ == publication_text(p@),
{
    let r = chain(
        ",\"nextGenerationID\":",
        option_string_text(&p.next_generation_id).as_str(),
        "}",
    );
    let r = chain(
        ",\"previousGenerationID\":",
        option_string_text(&p.previous_generation_id).as_str(),
        r.as_str(),
    );
    let r = chain(",\"path\":", json_text(p.path.as_str()).as_str(), r.as_str());
    let r = chain("{\"action\":", json_text(p.action).as_str(), r.as_str());
    proof {
        assert("}"@ + Seq::<char>::empty() =~= "}"@);
    }
    r
}

fn write_publications(v: &Vec<PublicationEffect>) -> (r: String)
    ensures
        r@ == publications_text(views(v@)),
{
    let ghost all = mapped(views(v@), |p: PublicationView| publication_text(p));
    let mut items: Vec<String> = Vec::new();
    let mut i: usize = 0;
    while i < v.len()
        invariant
            0 <= i <= v@.len(),
            all == mapped(views(v@), |p: PublicationView| publication_text(p)),
            all.len() == v@.len(),
            items@.len() == i,
            forall|j: int| 0 <= j < i ==> #[trigger] items@[j]@ == all[j],
        decreases v@.len() - i,
    {
        items.push(write_publication(&v[i]));
        i += 1;
    }
    proof {
        assert(views(items@) =~= all);
    }
    array_text(&items)
}

/// The token of a plan: it is bound to the operation, the generation, its
/// sources, the digest of the state that was found, the effects and the
/// publications.
pub fn plan_token(
    operation: Operation,
    generation_manifest_digest: &Option<[u8; 32]>,
    source_manifest_sha256: &Option<[u8; 32]>,
    state_digest: &[u8; 32],
    effects: &Vec<String>,
    publications: &Vec<PublicationEffect>,
) -> (r: String)
    ensures
        r@ == plan_token_of(
            ApprovalView {
                operation,
                generation_manifest_digest: option_digest(*generation_manifest_digest),
                source_manifest_sha256: option_digest(*source_manifest_sha256),
                state_digest: state_digest@,
                effects: views(effects@),
                publications: views(publications@),
            },
        ),
{
    let ghost a = ApprovalView {
        operation,
        generation_manifest_digest: option_digest(*generation_manifest_digest),
        source_manifest_sha256: option_digest(*source_manifest_sha256),
        state_digest: state_digest@,
        effects: views(effects@),
        publications: views(publications@),
    };
    let r = chain(",\"publications\":", write_publications(publications).as_str(), "}");
    let r = chain(",\"effects\":", strings_text(effects).as_str(), r.as_str());
    let r = chain(",\"stateDigest\":", bytes_text(state_digest).as_str(), r.as_str());
    let r = chain(
        ",\"sourceManifestSha256\":",
        option_digest_text(source_manifest_sha256).as_str(),
        r.as_str(),
    );
    let r = chain(
        ",\"generationManifestDigest\":",
        option_digest_text(generation_manifest_digest).as_str(),
        r.as_str(),
    );
    let r = chain(
        "{\"schema\":\"remap.linux-approval/v1\",\"operation\":",
        json_text(operation.as_str()).as_str(),
        r.as_str(),
    );
    token_of(r.as_str().as_bytes())
}

/// The token of a recovery: it is bound to the digest of the state that was found
/// and to the effects.
pub fn recovery_token(state_digest: &[u8; 32], effects: &Vec<String>) -> (r: String)
    ensures
        r@ == recovery_token_of(state_digest@, views(effects@)),
{
    let r = chain(",\"effects\":", strings_text(effects).as_str(), "}");
    let r = chain(
        "{\"schema\":\"remap.linux-approval/v1\",\"operation\":\"recover\",\"stateDigest\":",
        bytes_text(state_digest).as_str(),
        r.as_str(),
    );
    token_of(r.as_str().as_bytes())
}

// ---------------------------------------------------------------------------
// Laws
// ---------------------------------------------------------------------------

proof fn lemma_publication_then(p: PublicationView, rest: Seq<char>)
    ensures
        publication_text(p) + rest == publication_then(p, rest),
{
    assert(publication_text(p) + rest =~= publication_then(p, rest));
}

proof fn lemma_publication(p: PublicationView, q: PublicationView, x: Seq<char>, y: Seq<char>)
    requires
        publication_text(p) + x == publication_text(q) + y,
    ensures
        p == q,
        x == y,
{
    lemma_publication_then(p, x);
    lemma_publication_then(q, y);
    let (p4, q4) = ("}"@ + x, "}"@ + y);
    let p3 = json_option_string(p.next_generation_id) + p4;
    let q3 = json_option_string(q.next_generation_id) + q4;
    let p2 = json_option_string(p.previous_generation_id) + (",\"nextGenerationID\":"@ + p3);
    let q2 = json_option_string(q.previous_generation_id) + (",\"nextGenerationID\":"@ + q3);
    let p1 = json_string(p.path) + (",\"previousGenerationID\":"@ + p2);
    let q1 = json_string(q.path) + (",\"previousGenerationID\":"@ + q2);
    let p0 = json_string(p.action) + (",\"path\":"@ + p1);
    let q0 = json_string(q.action) + (",\"path\":"@ + q1);
    lemma_peel("{\"action\":"@, p0, q0);
    lemma_string(p.action, q.action, ",\"path\":"@ + p1, ",\"path\":"@ + q1);
    lemma_peel(",\"path\":"@, p1, q1);
    lemma_string(
        p.path,
        q.path,
        ",\"previousGenerationID\":"@ + p2,
        ",\"previousGenerationID\":"@ + q2,
    );
    lemma_peel(",\"previousGenerationID\":"@, p2, q2);
    lemma_option_string(
        p.previous_generation_id,
        q.previous_generation_id,
        ",\"nextGenerationID\":"@ + p3,
        ",\"nextGenerationID\":"@ + q3,
    );
    lemma_peel(",\"nextGenerationID\":"@, p3, q3);
    lemma_option_string(p.next_generation_id, q.next_generation_id, p4, q4);
    lemma_peel("}"@, x, y);
}

proof fn lemma_publications(
    s: Seq<PublicationView>,
    t: Seq<PublicationView>,
    x: Seq<char>,
    y: Seq<char>,
)
    requires
        publications_text(s) + x == publications_text(t) + y,
    ensures
        s == t,
        x == y,
{
    let f = |p: PublicationView| publication_text(p);
    assert forall|a: PublicationView| #[trigger] f(a).len() > 0 && f(a)[0] != ']' by {
        reveal_strlit("{\"action\":");
        assert(publication_text(a)[0] == '{');
    }
    assert forall|a: PublicationView, b: PublicationView, u: Seq<char>, v: Seq<char>|
        #![trigger f(a) + u, f(b) + v]
        closing(u) && closing(v) && f(a) + u == f(b) + v implies a == b && u == v by {
        lemma_publication(a, b, u, v);
    }
    assert(self_delimiting(f));
    lemma_array(s, t, f, x, y);
}

proof fn lemma_operations(a: Operation, b: Operation)
    requires
        operation_name(a) == operation_name(b),
    ensures
        a == b,
{
    reveal_strlit("install");
    reveal_strlit("update");
    reveal_strlit("uninstall");
    reveal_strlit("recover");
    assert("install"@.len() == 7 && "update"@.len() == 6 && "uninstall"@.len() == 9
        && "recover"@.len() == 7);
    assert("install"@[0] == 'i' && "recover"@[0] == 'r');
}

/// What a plan is approved for is bound by its token: two approvals with the
/// same text are the same in the operation, the generation, its sources, the
/// digest of the state that was found, every effect and every publication.
pub proof fn law_approval_binds_the_plan(a: ApprovalView, b: ApprovalView)
    requires
        approval_text(a) == approval_text(b),
    ensures
        a == b,
{
    let e = "}"@;
    let a5 = publications_text(a.publications) + e;
    let b5 = publications_text(b.publications) + e;
    let a4 = json_strings(a.effects) + (",\"publications\":"@ + a5);
    let b4 = json_strings(b.effects) + (",\"publications\":"@ + b5);
    let a3 = json_bytes(a.state_digest) + (",\"effects\":"@ + a4);
    let b3 = json_bytes(b.state_digest) + (",\"effects\":"@ + b4);
    let a2 = json_option_bytes(a.source_manifest_sha256) + (",\"stateDigest\":"@ + a3);
    let b2 = json_option_bytes(b.source_manifest_sha256) + (",\"stateDigest\":"@ + b3);
    let a1 = json_option_bytes(a.generation_manifest_digest) + (",\"sourceManifestSha256\":"@ + a2);
    let b1 = json_option_bytes(b.generation_manifest_digest) + (",\"sourceManifestSha256\":"@ + b2);
    let a0 = json_string(operation_name(a.operation)) + (",\"generationManifestDigest\":"@ + a1);
    let b0 = json_string(operation_name(b.operation)) + (",\"generationManifestDigest\":"@ + b1);
    lemma_peel("{\"schema\":\"remap.linux-approval/v1\",\"operation\":"@, a0, b0);
    lemma_string(
        operation_name(a.operation),
        operation_name(b.operation),
        ",\"generationManifestDigest\":"@ + a1,
        ",\"generationManifestDigest\":"@ + b1,
    );
    lemma_operations(a.operation, b.operation);
    lemma_peel(",\"generationManifestDigest\":"@, a1, b1);
    lemma_option_bytes(
        a.generation_manifest_digest,
        b.generation_manifest_digest,
        ",\"sourceManifestSha256\":"@ + a2,
        ",\"sourceManifestSha256\":"@ + b2,
    );
    lemma_peel(",\"sourceManifestSha256\":"@, a2, b2);
    lemma_option_bytes(
        a.source_manifest_sha256,
        b.source_manifest_sha256,
        ",\"stateDigest\":"@ + a3,
        ",\"stateDigest\":"@ + b3,
    );
    lemma_peel(",\"stateDigest\":"@, a3, b3);
    lemma_bytes(a.state_digest, b.state_digest, ",\"effects\":"@ + a4, ",\"effects\":"@ + b4);
    lemma_peel(",\"effects\":"@, a4, b4);
    lemma_strings(
        a.effects,
        b.effects,
        ",\"publications\":"@ + a5,
        ",\"publications\":"@ + b5,
    );
    lemma_peel(",\"publications\":"@, a5, b5);
    lemma_publications(a.publications, b.publications, e, e);
}

/// What a recovery is approved for is bound by its token: two approvals with the
/// same text are the same in the digest of the state that was found and in every
/// effect.
pub proof fn law_approval_binds_the_recovery(
    s: Seq<u8>,
    t: Seq<u8>,
    e: Seq<Seq<char>>,
    f: Seq<Seq<char>>,
)
    requires
        recovery_text(s, e) == recovery_text(t, f),
    ensures
        s == t,
        e == f,
{
    let (x, y) = (json_strings(e) + "}"@, json_strings(f) + "}"@);
    lemma_peel(
        "{\"schema\":\"remap.linux-approval/v1\",\"operation\":\"recover\",\"stateDigest\":"@,
        json_bytes(s) + (",\"effects\":"@ + x),
        json_bytes(t) + (",\"effects\":"@ + y),
    );
    lemma_bytes(s, t, ",\"effects\":"@ + x, ",\"effects\":"@ + y);
    lemma_peel(",\"effects\":"@, x, y);
    lemma_strings(e, f, "}"@, "}"@);
}

} // verus!
