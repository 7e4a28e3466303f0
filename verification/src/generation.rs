//! Generations: their sources, their manifests and their public directories.

use vstd::bytes::{spec_u32_to_le_bytes, spec_u64_to_le_bytes, u32_to_le_bytes, u64_to_le_bytes};
use vstd::prelude::*;
use vstd::string::*;
use vstd::utf8::encode_utf8;

use crate::digest::{
    be_value, blake3_digest, blake3_of, same_digest, sha256_digest, sha256_of, uuid_from_bytes,
};
use crate::encoding::{encoded_manifest, manifest_bytes};
use crate::fault::{
    conflict, conflict_of, hand_on, invalid_data, invalid_of, refused, Fault, FaultKind, FaultView,
};
use crate::files::{result_view, FileKind, Metadata};
use crate::model::{
    artifact_views, directory_views, Artifact, ArtifactView, DirectoryIdentity, DirectoryProvenance,
    Generation, GenerationView, PublicDirectory, PublicDirectoryView, RESOLVER_REBASE_CAPABILITY,
};
use crate::native::ResolverLinkManager;
use crate::order::{push_text, sort, sorted, views, SortKey};
use crate::text::{concat, copy, precedes, same, text_precedes};

verus! {

// ---------------------------------------------------------------------------
// Names
// ---------------------------------------------------------------------------

/// The product's own documentation directory.
pub open spec fn document_directory() -> Seq<char> {
    "/usr/share/doc/remap"@
}

/// The standard directories that a generation publishes into.
pub open spec fn public_paths() -> Seq<Seq<char>> {
    seq![
        "/usr/share/bash-completion"@,
        "/usr/share/bash-completion/completions"@,
        "/usr/share/doc"@,
        "/usr/share/doc/remap"@,
        "/usr/share/fish"@,
        "/usr/share/fish/vendor_completions.d"@,
        "/usr/share/man"@,
        "/usr/share/man/man1"@,
        "/usr/share/zsh"@,
        "/usr/share/zsh/site-functions"@,
    ]
}

/// The standard directories that a generation publishes into.
pub fn public_directory_paths() -> (r: Vec<String>)
    ensures
        views(r@) == public_paths(),
{
    let mut v: Vec<String> = Vec::new();
    push_text(&mut v, copy("/usr/share/bash-completion"));
    push_text(&mut v, copy("/usr/share/bash-completion/completions"));
    push_text(&mut v, copy("/usr/share/doc"));
    push_text(&mut v, copy("/usr/share/doc/remap"));
    push_text(&mut v, copy("/usr/share/fish"));
    push_text(&mut v, copy("/usr/share/fish/vendor_completions.d"));
    push_text(&mut v, copy("/usr/share/man"));
    push_text(&mut v, copy("/usr/share/man/man1"));
    push_text(&mut v, copy("/usr/share/zsh"));
    push_text(&mut v, copy("/usr/share/zsh/site-functions"));
    proof {
        assert(views(v@) =~= public_paths());
    }
    v
}

/// The manual pages of the product.
pub open spec fn manpage_names() -> Seq<Seq<char>> {
    seq![
        "remap-apply.1"@,
        "remap-completions.1"@,
        "remap-daemon.1"@,
        "remap-disable.1"@,
        "remap-doctor.1"@,
        "remap-enable.1"@,
        "remap-get.1"@,
        "remap-list.1"@,
        "remap-manpage.1"@,
        "remap-manpages.1"@,
        "remap-mcp.1"@,
        "remap-preview.1"@,
        "remap-remove.1"@,
        "remap-resolve.1"@,
        "remap-set.1"@,
        "remap-status.1"@,
        "remap-system-recover.1"@,
        "remap-system-status.1"@,
        "remap-system-uninstall.1"@,
        "remap-system.1"@,
        "remap-validate.1"@,
        "remap.1"@,
    ]
}

/// The manual pages of the product.
pub fn manpages() -> (r: Vec<String>)
    ensures
        views(r@) == manpage_names(),
{
    let mut v: Vec<String> = Vec::new();
    push_text(&mut v, copy("remap-apply.1"));
    push_text(&mut v, copy("remap-completions.1"));
    push_text(&mut v, copy("remap-daemon.1"));
    push_text(&mut v, copy("remap-disable.1"));
    push_text(&mut v, copy("remap-doctor.1"));
    push_text(&mut v, copy("remap-enable.1"));
    push_text(&mut v, copy("remap-get.1"));
    push_text(&mut v, copy("remap-list.1"));
    push_text(&mut v, copy("remap-manpage.1"));
    push_text(&mut v, copy("remap-manpages.1"));
    push_text(&mut v, copy("remap-mcp.1"));
    push_text(&mut v, copy("remap-preview.1"));
    push_text(&mut v, copy("remap-remove.1"));
    push_text(&mut v, copy("remap-resolve.1"));
    push_text(&mut v, copy("remap-set.1"));
    push_text(&mut v, copy("remap-status.1"));
    push_text(&mut v, copy("remap-system-recover.1"));
    push_text(&mut v, copy("remap-system-status.1"));
    push_text(&mut v, copy("remap-system-uninstall.1"));
    push_text(&mut v, copy("remap-system.1"));
    push_text(&mut v, copy("remap-validate.1"));
    push_text(&mut v, copy("remap.1"));
    proof {
        assert(views(v@) =~= manpage_names());
    }
    v
}

// ---------------------------------------------------------------------------
// Identity
// ---------------------------------------------------------------------------

/// The identity that a manifest digest gives: its first sixteen bytes with the
/// version and the variant of a custom identity.
pub open spec fn manifest_id(digest: Seq<u8>) -> nat {
    be_value(
        digest.subrange(0, 16).update(6, (digest[6] % 16 + 128) as u8).update(
            8,
            (digest[8] % 64 + 128) as u8,
        ),
    )
}

/// The identity that a manifest digest gives.
pub fn manifest_uuid(digest: &[u8; 32]) -> (id: u128)
    ensures
        id as nat == manifest_id(digest@),
{
    let mut bytes: [u8; 16] = [0; 16];
    let mut i: usize = 0;
    while i < 16
        invariant
            i <= 16,
            digest@.len() == 32,
            bytes@.len() == 16,
            forall|k: int| 0 <= k < i ==> bytes@[k] == digest@[k],
        decreases 16 - i,
    {
        bytes[i] = digest[i];
        i += 1;
    }
    bytes[6] = digest[6] % 16 + 128;
    bytes[8] = digest[8] % 64 + 128;
    proof {
        assert(bytes@ =~= digest@.subrange(0, 16).update(6, (digest@[6] % 16 + 128) as u8).update(
            8,
            (digest@[8] % 64 + 128) as u8,
        ));
    }
    uuid_from_bytes(&bytes)
}

/// Whether the SHA-256 digest of its manifest identifies a generation.
pub open spec fn identity_valid(g: GenerationView) -> bool {
    &&& g.manifest_digest == sha256_of(manifest_bytes(g))
    &&& g.id as nat == manifest_id(sha256_of(manifest_bytes(g)))
}

/// Whether the earlier digest of its manifest identifies a generation.
pub open spec fn legacy_identity_valid(g: GenerationView) -> bool {
    &&& g.manifest_digest == blake3_of(manifest_bytes(g))
    &&& g.id as nat == manifest_id(blake3_of(manifest_bytes(g)))
}

/// A generation with the identity that a digest of its manifest gives.
pub open spec fn identified(g: GenerationView, digest: Seq<u8>) -> GenerationView {
    GenerationView { id: manifest_id(digest) as u128, manifest_digest: digest, ..g }
}

/// A generation with the identity of its manifest.
pub open spec fn sealed_generation(g: GenerationView) -> GenerationView {
    identified(g, sha256_of(manifest_bytes(g)))
}

/// Refuses a generation that its manifest does not identify.
pub fn validate_identity(g: &Generation) -> (r: Result<(), Fault>)
    ensures
        r is Ok <==> identity_valid(g@),
        r is Err ==> refused(r, invalid_of("the generation manifest identity is invalid"@)),
{
    let digest = sha256_digest(encoded_manifest(g).as_str().as_bytes());
    if !same_digest(&digest, &g.manifest_digest) || manifest_uuid(&digest) != g.id {
        return Err(invalid_data("the generation manifest identity is invalid"));
    }
    Ok(())
}

/// Refuses a generation that its manifest does not identify by the earlier digest.
pub fn validate_legacy_identity(g: &Generation) -> (r: Result<(), Fault>)
    ensures
        r is Ok <==> legacy_identity_valid(g@),
        r is Err ==> refused(r, invalid_of("the legacy generation manifest identity is invalid"@)),
{
    let digest = blake3_digest(encoded_manifest(g).as_str().as_bytes());
    if !same_digest(&digest, &g.manifest_digest) || manifest_uuid(&digest) != g.id {
        return Err(invalid_data("the legacy generation manifest identity is invalid"));
    }
    Ok(())
}

/// Gives a generation the identity of its manifest.
pub fn seal_identity(g: &mut Generation)
    ensures
        final(g)@ == sealed_generation(old(g)@),
        identity_valid(final(g)@),
{
    let digest = sha256_digest(encoded_manifest(g).as_str().as_bytes());
    g.id = manifest_uuid(&digest);
    g.manifest_digest = digest;
    proof {
        lemma_identity_is_not_in_the_manifest(old(g)@, digest@);
    }
}

/// Gives a generation the identity of its manifest under the earlier digest.
pub fn seal_legacy_identity(g: &mut Generation)
    ensures
        final(g)@ == identified(old(g)@, blake3_of(manifest_bytes(old(g)@))),
        legacy_identity_valid(final(g)@),
{
    let digest = blake3_digest(encoded_manifest(g).as_str().as_bytes());
    g.id = manifest_uuid(&digest);
    g.manifest_digest = digest;
    proof {
        lemma_identity_is_not_in_the_manifest(old(g)@, digest@);
    }
}

/// The manifest of a generation does not name the identity that it gives.
proof fn lemma_identity_is_not_in_the_manifest(g: GenerationView, digest: Seq<u8>)
    ensures
        manifest_bytes(identified(g, digest)) == manifest_bytes(g),
{
}

// ---------------------------------------------------------------------------
// Public directories
// ---------------------------------------------------------------------------

/// Whether the directories are the standard ones, in their order.
pub open spec fn directory_paths_valid(d: Seq<PublicDirectoryView>) -> bool {
    &&& d.len() == public_paths().len()
    &&& forall|i: int| 0 <= i < d.len() ==> (#[trigger] d[i]).path == public_paths()[i]
}

/// Whether a recorded identity can be one.
pub open spec fn identity_plausible(i: DirectoryIdentity) -> bool {
    &&& i.inode != 0
    &&& i.birth_seconds > 0
    &&& i.birth_nanoseconds < 1_000_000_000
    &&& i.ownership_nonce != 0
}

/// Whether only created directories have an identity, and a plausible one.
pub open spec fn directory_identity_valid(d: PublicDirectoryView) -> bool {
    &&& d.provenance == DirectoryProvenance::Preexisting ==> d.identity is None
    &&& d.identity is Some ==> identity_plausible(d.identity->0)
}

pub open spec fn public_directories_valid(d: Seq<PublicDirectoryView>) -> bool {
    &&& directory_paths_valid(d)
    &&& forall|i: int| 0 <= i < d.len() ==> directory_identity_valid(#[trigger] d[i])
}

/// Refuses directories that are not exactly the standard ones, and then
/// identities that cannot be.
pub fn validate_public_directories(d: &Vec<PublicDirectory>) -> (r: Result<(), Fault>)
    ensures
        r is Ok <==> public_directories_valid(directory_views(d@)),
        r is Err ==> refused(
            r,
            if directory_paths_valid(directory_views(d@)) {
                invalid_of("the public directory identity manifest is invalid"@)
            } else {
                invalid_of("the public directory provenance manifest is invalid"@)
            },
        ),
{
    let ghost dv = directory_views(d@);
    let paths = public_directory_paths();
    proof {
        assert(views(paths@).len() == paths@.len());
        assert(dv.len() == d@.len());
    }
    if d.len() != paths.len() {
        return Err(invalid_data("the public directory provenance manifest is invalid"));
    }
    let mut i: usize = 0;
    while i < d.len()
        invariant
            i <= d@.len(),
            d@.len() == paths@.len(),
            dv == directory_views(d@),
            views(paths@) == public_paths(),
            forall|k: int| 0 <= k < i ==> (#[trigger] dv[k]).path == public_paths()[k],
        decreases d@.len() - i,
    {
        proof {
            assert(dv[i as int] == d@[i as int]@);
            assert(views(paths@)[i as int] == paths@[i as int]@);
        }
        if !same(d[i].path.as_str(), paths[i].as_str()) {
            return Err(invalid_data("the public directory provenance manifest is invalid"));
        }
        i += 1;
    }
    let mut j: usize = 0;
    while j < d.len()
        invariant
            j <= d@.len(),
            dv == directory_views(d@),
            directory_paths_valid(dv),
            forall|k: int| 0 <= k < j ==> directory_identity_valid(#[trigger] dv[k]),
        decreases d@.len() - j,
    {
        let directory = &d[j];
        proof {
            assert(dv[j as int] == directory@);
        }
        if let Some(identity) = directory.identity {
            if directory.provenance == DirectoryProvenance::Preexisting || identity.inode == 0
                || identity.birth_seconds <= 0 || identity.birth_nanoseconds >= 1_000_000_000
                || identity.ownership_nonce == 0 {
                return Err(invalid_data("the public directory identity manifest is invalid"));
            }
        }
        j += 1;
    }
    Ok(())
}

/// What the machine says of one standard directory. The attributes and the
/// identity are looked at only where the decision needs them.
#[derive(Debug)]
pub struct DirectoryObservation {
    pub metadata: Result<Metadata, Fault>,
    pub xattrs_safe: Result<bool, Fault>,
    pub identity: Result<DirectoryIdentity, Fault>,
}

/// A directory observation over plain values.
pub struct DirectoryObservationView {
    pub metadata: Result<Metadata, FaultView>,
    pub xattrs_safe: Result<bool, FaultView>,
    pub identity: Result<DirectoryIdentity, FaultView>,
}

impl View for DirectoryObservation {
    type V = DirectoryObservationView;

    open spec fn view(&self) -> DirectoryObservationView {
        DirectoryObservationView {
            metadata: result_view(self.metadata),
            xattrs_safe: result_view(self.xattrs_safe),
            identity: result_view(self.identity),
        }
    }
}

/// The first directory under a path.
pub open spec fn directory_at(d: Seq<PublicDirectoryView>, path: Seq<char>) -> Option<
    PublicDirectoryView,
>
    decreases d.len(),
{
    if d.len() == 0 {
        None
    } else if d[0].path == path {
        Some(d[0])
    } else {
        directory_at(d.drop_first(), path)
    }
}

/// The identity that an earlier generation recorded for a directory it created.
pub open spec fn prior_identity(previous: Option<GenerationView>, path: Seq<char>) -> Option<
    DirectoryIdentity,
> {
    match previous {
        None => None,
        Some(g) => match directory_at(g.public_directories, path) {
            None => None,
            Some(d) => if d.provenance == DirectoryProvenance::CreatedByRemap {
                d.identity
            } else {
                None
            },
        },
    }
}

/// What a new generation records of one standard directory.
pub open spec fn inspected_directory(
    path: Seq<char>,
    previous: Option<GenerationView>,
    o: DirectoryObservationView,
) -> Result<PublicDirectoryView, FaultView> {
    let prior = prior_identity(previous, path);
    match o.metadata {
        Err(e) => if e.kind != FaultKind::NotFound {
            Err(e)
        } else if prior is None {
            Ok(
                PublicDirectoryView {
                    path,
                    provenance: DirectoryProvenance::CreatedByRemap,
                    identity: None,
                },
            )
        } else {
            Err(conflict_of("a Remap-created public directory changed ownership"@))
        },
        Ok(m) => if m.kind != FileKind::Directory || m.uid != 0 || m.mode & 0o777 != 0o755 {
            Err(conflict_of("a standard Linux publication directory is unsafe"@))
        } else if prior is None && o.xattrs_safe is Err {
            Err(o.xattrs_safe->Err_0)
        } else if prior is None && !o.xattrs_safe->Ok_0 {
            Err(
                conflict_of(
                    "a standard Linux publication directory has unsafe extended attributes"@,
                ),
            )
        } else if path == document_directory() && previous is None {
            Err(conflict_of("the Remap documentation path is occupied"@))
        } else if prior is None {
            Ok(
                PublicDirectoryView {
                    path,
                    provenance: DirectoryProvenance::Preexisting,
                    identity: None,
                },
            )
        } else if o.identity is Err {
            Err(conflict_of("a Remap-created public directory lost its ownership marker"@))
        } else if o.identity->Ok_0 != prior->0 {
            Err(conflict_of("a Remap-created public directory changed identity"@))
        } else {
            Ok(
                PublicDirectoryView {
                    path,
                    provenance: DirectoryProvenance::CreatedByRemap,
                    identity: prior,
                },
            )
        },
    }
}

/// What a new generation records of the standard directories, or the failure
/// of the first that has one.
pub open spec fn inspected_directories(
    paths: Seq<Seq<char>>,
    previous: Option<GenerationView>,
    o: Seq<DirectoryObservationView>,
) -> Result<Seq<PublicDirectoryView>, FaultView>
    decreases paths.len(),
{
    if paths.len() == 0 {
        Ok(Seq::empty())
    } else {
        match inspected_directories(paths.drop_last(), previous, o) {
            Err(e) => Err(e),
            Ok(before) => match inspected_directory(
                paths.last(),
                previous,
                o[paths.len() - 1],
            ) {
                Err(e) => Err(e),
                Ok(d) => Ok(before.push(d)),
            },
        }
    }
}

pub(crate) fn find_directory(d: &Vec<PublicDirectory>, path: &str) -> (r: Option<usize>)
    ensures
        match r {
            Some(i) => i < d@.len() && directory_at(directory_views(d@), path@) == Some(d@[i as int]@),
            None => directory_at(directory_views(d@), path@) is None,
        },
{
    let ghost dv = directory_views(d@);
    let mut i: usize = 0;
    proof {
        assert(dv.subrange(0, dv.len() as int) =~= dv);
    }
    while i < d.len()
        invariant
            i <= d@.len(),
            dv == directory_views(d@),
            directory_at(dv, path@) == directory_at(dv.subrange(i as int, dv.len() as int), path@),
        decreases d@.len() - i,
    {
        let ghost rest = dv.subrange(i as int, dv.len() as int);
        proof {
            assert(rest[0] == d@[i as int]@);
            assert(rest.drop_first() =~= dv.subrange(i as int + 1, dv.len() as int));
        }
        if same(d[i].path.as_str(), path) {
            return Some(i);
        }
        i += 1;
    }
    None
}

fn find_prior_identity(previous: Option<&Generation>, path: &str) -> (r: Option<DirectoryIdentity>)
    ensures
        r == prior_identity(
            match previous {
                Some(g) => Some(g@),
                None => None,
            },
            path@,
        ),
{
    match previous {
        None => None,
        Some(g) => match find_directory(&g.public_directories, path) {
            None => None,
            Some(i) => if g.public_directories[i].provenance == DirectoryProvenance::CreatedByRemap {
                g.public_directories[i].identity
            } else {
                None
            },
        },
    }
}

pub open spec fn borrowed_generation(g: Option<&Generation>) -> Option<GenerationView> {
    match g {
        Some(g) => Some(g@),
        None => None,
    }
}

/// What a new generation records of one standard directory.
pub fn inspect_public_directory(
    path: &str,
    previous: Option<&Generation>,
    o: &DirectoryObservation,
) -> (r: Result<PublicDirectory, Fault>)
    ensures
        match r {
            Ok(d) => inspected_directory(path@, borrowed_generation(previous), o@) == Ok::<
                PublicDirectoryView,
                FaultView,
            >(d@),
            Err(e) => inspected_directory(path@, borrowed_generation(previous), o@) == Err::<
                PublicDirectoryView,
                FaultView,
            >(e@),
        },
{
    let prior = find_prior_identity(previous, path);
    match &o.metadata {
        Err(e) => {
            if e.kind != FaultKind::NotFound {
                return Err(hand_on(e));
            }
            if prior.is_some() {
                return Err(conflict("a Remap-created public directory changed ownership"));
            }
            Ok(
                PublicDirectory {
                    path: copy(path),
                    provenance: DirectoryProvenance::CreatedByRemap,
                    identity: None,
                },
            )
        },
        Ok(m) => {
            if m.kind != FileKind::Directory || m.uid != 0 || m.mode & 0o777 != 0o755 {
                return Err(conflict("a standard Linux publication directory is unsafe"));
            }
            if prior.is_none() {
                match &o.xattrs_safe {
                    Err(e) => {
                        return Err(hand_on(e));
                    },
                    Ok(safe) => if !*safe {
                        return Err(
                            conflict(
                                "a standard Linux publication directory has unsafe extended attributes",
                            ),
                        );
                    },
                }
            }
            if previous.is_none() && same(path, "/usr/share/doc/remap") {
                return Err(conflict("the Remap documentation path is occupied"));
            }
            match prior {
                None => Ok(
                    PublicDirectory {
                        path: copy(path),
                        provenance: DirectoryProvenance::Preexisting,
                        identity: None,
                    },
                ),
                Some(expected) => match &o.identity {
                    Err(_) => Err(
                        conflict("a Remap-created public directory lost its ownership marker"),
                    ),
                    Ok(observed) => if *observed == expected {
                        Ok(
                            PublicDirectory {
                                path: copy(path),
                                provenance: DirectoryProvenance::CreatedByRemap,
                                identity: Some(*observed),
                            },
                        )
                    } else {
                        Err(conflict("a Remap-created public directory changed identity"))
                    },
                },
            }
        },
    }
}

/// What a new generation records of the standard directories, of which there is
/// one observation each.
pub fn inspect_public_directories(
    previous: Option<&Generation>,
    observations: &Vec<DirectoryObservation>,
) -> (r: Result<Vec<PublicDirectory>, Fault>)
    requires
        observations@.len() == public_paths().len(),
    ensures
        match r {
            Ok(d) => inspected_directories(
                public_paths(),
                borrowed_generation(previous),
                views(observations@),
            ) == Ok::<Seq<PublicDirectoryView>, FaultView>(directory_views(d@)),
            Err(e) => inspected_directories(
                public_paths(),
                borrowed_generation(previous),
                views(observations@),
            ) == Err::<Seq<PublicDirectoryView>, FaultView>(e@),
        },
{
    let paths = public_directory_paths();
    let ghost pv = public_paths();
    let ghost ov = views(observations@);
    let ghost prev = borrowed_generation(previous);
    let mut d: Vec<PublicDirectory> = Vec::new();
    let mut i: usize = 0;
    proof {
        assert(pv.subrange(0, 0) =~= Seq::<Seq<char>>::empty());
        assert(directory_views(d@) =~= Seq::<PublicDirectoryView>::empty());
        assert(views(paths@).len() == paths@.len());
    }
    while i < paths.len()
        invariant
            i <= paths@.len(),
            paths@.len() == pv.len(),
            observations@.len() == pv.len(),
            pv == public_paths(),
            views(paths@) == pv,
            ov == views(observations@),
            prev == borrowed_generation(previous),
            inspected_directories(pv.subrange(0, i as int), prev, ov) == Ok::<
                Seq<PublicDirectoryView>,
                FaultView,
            >(directory_views(d@)),
        decreases paths@.len() - i,
    {
        let ghost next = pv.subrange(0, i as int + 1);
        proof {
            assert(next.drop_last() =~= pv.subrange(0, i as int));
            assert(next.last() == paths@[i as int]@) by {
                assert(views(paths@)[i as int] == paths@[i as int]@);
            }
            assert(ov[i as int] == observations@[i as int]@);
        }
        match inspect_public_directory(paths[i].as_str(), previous, &observations[i]) {
            Err(e) => {
                proof {
                    lemma_inspection_fails(pv, prev, ov, i as int + 1);
                }
                return Err(e);
            },
            Ok(directory) => {
                let ghost before = directory_views(d@);
                d.push(directory);
                proof {
                    assert(directory_views(d@) =~= before.push(directory@));
                }
            },
        }
        i += 1;
    }
    proof {
        assert(pv.subrange(0, pv.len() as int) =~= pv);
    }
    Ok(d)
}

/// The failure of an early directory is the failure of the whole.
proof fn lemma_inspection_fails(
    paths: Seq<Seq<char>>,
    previous: Option<GenerationView>,
    o: Seq<DirectoryObservationView>,
    n: int,
)
    requires
        0 <= n <= paths.len(),
        inspected_directories(paths.subrange(0, n), previous, o) is Err,
    ensures
        inspected_directories(paths, previous, o) == inspected_directories(
            paths.subrange(0, n),
            previous,
            o,
        ),
    decreases paths.len() - n,
{
    if n < paths.len() {
        let next = paths.subrange(0, n + 1);
        assert(next.drop_last() =~= paths.subrange(0, n));
        lemma_inspection_fails(paths, previous, o, n + 1);
    } else {
        assert(paths.subrange(0, n) =~= paths);
    }
}

// ---------------------------------------------------------------------------
// Sources
// ---------------------------------------------------------------------------

/// A file of a generation with its contents.
#[derive(Debug)]
pub struct PreparedArtifact {
    pub relative_path: String,
    pub mode: u32,
    pub bytes: Vec<u8>,
}

/// A prepared file over plain values.
pub struct PreparedView {
    pub relative_path: Seq<char>,
    pub mode: u32,
    pub bytes: Seq<u8>,
}

impl View for PreparedArtifact {
    type V = PreparedView;

    open spec fn view(&self) -> PreparedView {
        PreparedView {
            relative_path: self.relative_path@,
            mode: self.mode,
            bytes: self.bytes@,
        }
    }
}

impl SortKey for PreparedArtifact {
    open spec fn key_of(v: PreparedView) -> Seq<char> {
        v.relative_path
    }

    fn key_text(&self) -> (s: String) {
        copy(self.relative_path.as_str())
    }
}

/// One prepared file.
pub fn prepared(relative_path: String, mode: u32, bytes: Vec<u8>) -> (r: PreparedArtifact)
    ensures
        r@ == (PreparedView { relative_path: relative_path@, mode, bytes: bytes@ }),
{
    PreparedArtifact { relative_path, mode, bytes }
}

/// What a generation records of a prepared file.
pub open spec fn recorded(p: PreparedView) -> ArtifactView {
    ArtifactView {
        relative_path: p.relative_path,
        mode: p.mode,
        byte_length: p.bytes.len() as u64,
        digest: sha256_of(p.bytes),
    }
}

/// What a generation records of a prepared file.
pub fn to_artifact(p: &PreparedArtifact) -> (r: Artifact)
    ensures
        r@ == recorded(p@),
{
    Artifact {
        relative_path: copy(p.relative_path.as_str()),
        mode: p.mode,
        byte_length: p.bytes.len() as u64,
        digest: sha256_digest(p.bytes.as_slice()),
    }
}

/// The header that sets source manifests apart from other digests.
pub open spec fn source_domain() -> Seq<u8> {
    encode_utf8("remap.linux-source-manifest/v1"@).push(0)
}

/// One file in a source manifest.
pub open spec fn source_entry(p: PreparedView) -> Seq<u8> {
    let path = encode_utf8(p.relative_path);
    spec_u64_to_le_bytes(path.len() as u64) + path + spec_u32_to_le_bytes(p.mode)
        + spec_u64_to_le_bytes(p.bytes.len() as u64) + p.bytes
}

/// The files of a source manifest one behind the other.
pub open spec fn source_entries(s: Seq<PreparedView>) -> Seq<u8>
    decreases s.len(),
{
    if s.len() == 0 {
        Seq::empty()
    } else {
        source_entries(s.drop_last()) + source_entry(s.last())
    }
}

/// A source manifest in bytes: the header, the number of files and the files.
pub open spec fn source_manifest(s: Seq<PreparedView>) -> Seq<u8> {
    source_domain() + spec_u64_to_le_bytes(s.len() as u64) + source_entries(s)
}

fn extend_bytes(v: &mut Vec<u8>, b: &[u8])
    ensures
        final(v)@ == old(v)@ + b@,
{
    let ghost before = v@;
    let mut i: usize = 0;
    while i < b.len()
        invariant
            i <= b@.len(),
            v@ == before + b@.subrange(0, i as int),
        decreases b@.len() - i,
    {
        v.push(b[i]);
        proof {
            assert(b@.subrange(0, i as int + 1) =~= b@.subrange(0, i as int).push(b@[i as int]));
            assert(v@ =~= before + b@.subrange(0, i as int + 1));
        }
        i += 1;
    }
    proof {
        assert(b@.subrange(0, b@.len() as int) =~= b@);
    }
}

fn source_manifest_bytes(p: &Vec<PreparedArtifact>) -> (r: Vec<u8>)
    ensures
        r@ == source_manifest(views(p@)),
{
    let ghost pv = views(p@);
    let mut r: Vec<u8> = Vec::new();
    extend_bytes(&mut r, "remap.linux-source-manifest/v1".as_bytes());
    r.push(0);
    extend_bytes(&mut r, u64_to_le_bytes(p.len() as u64).as_slice());
    let ghost head = source_domain() + spec_u64_to_le_bytes(pv.len() as u64);
    let mut i: usize = 0;
    proof {
        assert(r@ =~= head);
        assert(pv.subrange(0, 0) =~= Seq::<PreparedView>::empty());
        assert(r@ =~= head + source_entries(pv.subrange(0, 0)));
    }
    while i < p.len()
        invariant
            i <= p@.len(),
            pv == views(p@),
            r@ == head + source_entries(pv.subrange(0, i as int)),
        decreases p@.len() - i,
    {
        let item = &p[i];
        let ghost before = r@;
        let path = item.relative_path.as_str().as_bytes();
        extend_bytes(&mut r, u64_to_le_bytes(path.len() as u64).as_slice());
        extend_bytes(&mut r, path);
        extend_bytes(&mut r, u32_to_le_bytes(item.mode).as_slice());
        extend_bytes(&mut r, u64_to_le_bytes(item.bytes.len() as u64).as_slice());
        extend_bytes(&mut r, item.bytes.as_slice());
        proof {
            let next = pv.subrange(0, i as int + 1);
            assert(next.drop_last() =~= pv.subrange(0, i as int));
            assert(next.last() == item@);
            assert(r@ =~= before + source_entry(item@));
            assert(r@ =~= head + source_entries(next));
        }
        i += 1;
    }
    proof {
        assert(pv.subrange(0, pv.len() as int) =~= pv);
    }
    r
}

/// The digest of the sources of a generation.
pub fn source_manifest_sha256(p: &Vec<PreparedArtifact>) -> (d: [u8; 32])
    ensures
        d@ == sha256_of(source_manifest(views(p@))),
{
    sha256_digest(source_manifest_bytes(p).as_slice())
}

/// Whether each path stands strictly before the next.
pub open spec fn strictly_ordered(s: Seq<PreparedView>) -> bool {
    forall|i: int|
        0 <= i < s.len() - 1 ==> precedes(
            (#[trigger] s[i]).relative_path,
            s[i + 1].relative_path,
        )
}

/// Refuses sources that are not the reviewed ones in their canonical order.
pub fn verify_source_manifest(p: &Vec<PreparedArtifact>, expected: &[u8; 32]) -> (r: Result<
    (),
    Fault,
>)
    ensures
        r is Ok <==> strictly_ordered(views(p@)) && sha256_of(source_manifest(views(p@)))
            == expected@,
        r is Err ==> refused(
            r,
            invalid_of(
                "the Linux generation sources differ from the reviewed source manifest"@,
            ),
        ),
{
    let ghost pv = views(p@);
    let mut i: usize = 0;
    let mut ordered = true;
    while i < p.len() && i + 1 < p.len()
        invariant
            i <= p@.len(),
            p@.len() > 0 ==> i < p@.len(),
            pv == views(p@),
            ordered == forall|k: int|
                0 <= k < i ==> precedes((#[trigger] pv[k]).relative_path, pv[k + 1].relative_path),
        decreases p@.len() - i,
    {
        proof {
            assert(pv[i as int] == p@[i as int]@);
            assert(pv[i as int + 1] == p@[i as int + 1]@);
        }
        if !text_precedes(p[i].relative_path.as_str(), p[i + 1].relative_path.as_str()) {
            ordered = false;
        }
        i += 1;
    }
    if ordered && same_digest(&source_manifest_sha256(p), expected) {
        Ok(())
    } else {
        Err(
            invalid_data("the Linux generation sources differ from the reviewed source manifest"),
        )
    }
}

// ---------------------------------------------------------------------------
// Preparation
// ---------------------------------------------------------------------------

/// The contents of a file that was read, or why it was refused.
#[derive(Debug)]
pub struct FileRead {
    pub result: Result<Vec<u8>, Fault>,
}

impl View for FileRead {
    type V = Result<Seq<u8>, FaultView>;

    open spec fn view(&self) -> Result<Seq<u8>, FaultView> {
        match self.result {
            Ok(bytes) => Ok(bytes@),
            Err(e) => Err(e@),
        }
    }
}

/// The generated text of one unit.
#[derive(Debug)]
pub struct UnitText {
    pub name: String,
    pub contents: Vec<u8>,
}

/// A unit text over plain values.
pub struct UnitTextView {
    pub name: Seq<char>,
    pub contents: Seq<u8>,
}

impl View for UnitText {
    type V = UnitTextView;

    open spec fn view(&self) -> UnitTextView {
        UnitTextView { name: self.name@, contents: self.contents@ }
    }
}

/// What was read and generated for a new generation.
pub struct GenerationInputs {
    /// The user and group identities of the daemon account, where both exist.
    pub account_uid: Option<u32>,
    pub group_gid: Option<u32>,
    pub remap: FileRead,
    pub remapd: FileRead,
    pub system: FileRead,
    pub manpages: Vec<FileRead>,
    pub bash: FileRead,
    pub fish: FileRead,
    pub zsh: FileRead,
    pub license: FileRead,
    pub notice: FileRead,
    pub canonical_license: Vec<u8>,
    pub canonical_notice: Vec<u8>,
    /// The daemon's unit, the supervisor's unit and the socket units.
    pub daemon_unit: FileRead,
    pub resolver_unit: Option<Vec<u8>>,
    pub socket_units: Vec<UnitText>,
    pub directories: Vec<DirectoryObservation>,
}

/// What an installation was asked for.
pub struct InstallRequest {
    pub source_manifest_sha256: [u8; 32],
    pub account: String,
    pub group: String,
    pub owner_uid: u32,
    pub link: u32,
    pub product_version: String,
}

/// The files with one more that was read.
pub open spec fn with_file(
    acc: Result<Seq<PreparedView>, FaultView>,
    path: Seq<char>,
    mode: u32,
    read: Result<Seq<u8>, FaultView>,
) -> Result<Seq<PreparedView>, FaultView> {
    match (acc, read) {
        (Err(e), _) => Err(e),
        (Ok(_), Err(e)) => Err(e),
        (Ok(s), Ok(bytes)) => Ok(s.push(PreparedView { relative_path: path, mode, bytes })),
    }
}

/// A read that holds a title macro, which every manual page has.
pub open spec fn as_manpage(read: Result<Seq<u8>, FaultView>) -> Result<Seq<u8>, FaultView> {
    match read {
        Err(e) => Err(e),
        Ok(bytes) => if has_title(bytes) {
            Ok(bytes)
        } else {
            Err(invalid_of("a generated Linux manpage is malformed"@))
        },
    }
}

/// Whether `.TH ` stands somewhere in the bytes.
pub open spec fn has_title(b: Seq<u8>) -> bool {
    exists|i: int| 0 <= i <= b.len() - 4 && title_at(b, i)
}

pub open spec fn title_at(b: Seq<u8>, i: int) -> bool {
    b[i] == 46 && b[i + 1] == 84 && b[i + 2] == 72 && b[i + 3] == 32
}

/// A read that is exactly the canonical text of the project.
pub open spec fn as_policy(read: Result<Seq<u8>, FaultView>, canonical: Seq<u8>) -> Result<
    Seq<u8>,
    FaultView,
> {
    match read {
        Err(e) => Err(e),
        Ok(bytes) => if bytes == canonical {
            Ok(bytes)
        } else {
            Err(
                invalid_of("a Linux policy document differs from the canonical project text"@),
            )
        },
    }
}

/// The files with the first `n` manual pages.
pub open spec fn with_manpages(
    acc: Result<Seq<PreparedView>, FaultView>,
    reads: Seq<Result<Seq<u8>, FaultView>>,
    n: int,
) -> Result<Seq<PreparedView>, FaultView>
    decreases n,
{
    if n <= 0 {
        acc
    } else {
        with_file(
            with_manpages(acc, reads, n - 1),
            "share/man/man1/"@ + manpage_names()[n - 1],
            0o644,
            as_manpage(reads[n - 1]),
        )
    }
}

/// The reviewed sources of a generation, or the failure of the first that has one.
pub open spec fn reviewed_sources(i: GenerationInputs) -> Result<Seq<PreparedView>, FaultView> {
    let none: Result<Seq<PreparedView>, FaultView> = Ok(Seq::empty());
    let a = with_file(none, "remap"@, 0o755, i.remap@);
    let b = with_file(a, "remapd"@, 0o755, i.remapd@);
    let c = with_file(b, "remap-linux-system"@, 0o755, i.system@);
    let d = with_manpages(c, views(i.manpages@), 22);
    let e = with_file(d, "share/completions/remap.bash"@, 0o644, i.bash@);
    let f = with_file(e, "share/completions/remap.fish"@, 0o644, i.fish@);
    let g = with_file(f, "share/completions/remap.zsh"@, 0o644, i.zsh@);
    let h = with_file(g, "LICENSE"@, 0o644, as_policy(i.license@, i.canonical_license@));
    with_file(h, "NOTICE"@, 0o644, as_policy(i.notice@, i.canonical_notice@))
}

/// The files with the socket units behind them.
pub open spec fn with_sockets(s: Seq<PreparedView>, units: Seq<UnitTextView>) -> Seq<PreparedView> {
    s + Seq::new(
        units.len(),
        |i: int|
            PreparedView {
                relative_path: "units/"@ + units[i].name,
                mode: 0o644,
                bytes: units[i].contents,
            },
    )
}

/// The daemon account or group that the request names is missing or is root.
pub open spec fn account_missing_of() -> FaultView {
    invalid_of("the declared non-root daemon account or group is unavailable"@)
}

pub open spec fn recorded_all(s: Seq<PreparedView>) -> Seq<ArtifactView> {
    Seq::new(s.len(), |i: int| recorded(s[i]))
}

/// All files of a generation in their order, or why there is none.
pub open spec fn prepared_files(i: GenerationInputs, expected: Seq<u8>) -> Result<
    Seq<PreparedView>,
    FaultView,
> {
    if i.account_uid is None || i.group_gid is None || i.account_uid == Some(0u32) || i.group_gid
        == Some(0u32) {
        Err(account_missing_of())
    } else {
        match reviewed_sources(i) {
            Err(e) => Err(e),
            Ok(sources) => {
                let ordered = sorted::<PreparedArtifact>(sources);
                if !(strictly_ordered(ordered) && sha256_of(source_manifest(ordered)) == expected) {
                    Err(
                        invalid_of(
                            "the Linux generation sources differ from the reviewed source manifest"@,
                        ),
                    )
                } else {
                    match with_file(Ok(ordered), "units/remapd.service"@, 0o644, i.daemon_unit@) {
                        Err(e) => Err(e),
                        Ok(with_daemon) => match i.resolver_unit {
                            None => Err(invalid_of("resolver unit generation failed"@)),
                            Some(unit) => Ok(
                                sorted::<PreparedArtifact>(
                                    with_sockets(
                                        with_daemon.push(
                                            PreparedView {
                                                relative_path: "units/remap-resolver.service"@,
                                                mode: 0o644,
                                                bytes: unit@,
                                            },
                                        ),
                                        views(i.socket_units@),
                                    ),
                                ),
                            ),
                        },
                    }
                }
            },
        }
    }
}

/// The sealed generation with all its files, or why there is none.
pub open spec fn prepared_generation(
    request: InstallRequest,
    i: GenerationInputs,
    previous: Option<GenerationView>,
    manager: ResolverLinkManager,
    interface_name: Seq<char>,
) -> Result<(GenerationView, Seq<PreparedView>), FaultView> {
    match prepared_files(i, request.source_manifest_sha256@) {
        Err(e) => Err(e),
        Ok(files) => match inspected_directories(public_paths(), previous, views(i.directories@)) {
            Err(e) => Err(e),
            Ok(directories) => Ok(
                (
                    sealed_generation(GenerationView {
                        id: 0,
                        manifest_digest: Seq::new(32, |k: int| 0u8),
                        product_version: request.product_version@,
                        account: request.account@,
                        group: request.group@,
                        owner_uid: request.owner_uid,
                        daemon_uid: i.account_uid->0,
                        link: request.link,
                        interface_name: Some(interface_name),
                        resolver_manager: Some(manager),
                        resolver_rebase_capability: RESOLVER_REBASE_CAPABILITY,
                        artifacts: recorded_all(files),
                        public_directories: directories,
                    }),
                    files,
                ),
            ),
        },
    }
}

/// A copy of bytes.
pub(crate) fn copy_bytes(b: &[u8]) -> (r: Vec<u8>)
    ensures
        r@ == b@,
{
    let mut r: Vec<u8> = Vec::new();
    extend_bytes(&mut r, b);
    proof {
        assert(r@ =~= b@);
    }
    r
}

fn same_bytes(a: &[u8], b: &[u8]) -> (r: bool)
    ensures
        r == (a@ == b@),
{
    if a.len() != b.len() {
        return false;
    }
    let mut i: usize = 0;
    while i < a.len()
        invariant
            i <= a@.len(),
            a@.len() == b@.len(),
            forall|k: int| 0 <= k < i ==> a@[k] == b@[k],
        decreases a@.len() - i,
    {
        if a[i] != b[i] {
            return false;
        }
        i += 1;
    }
    proof {
        assert(a@ =~= b@);
    }
    true
}

fn bytes_have_title(b: &[u8]) -> (r: bool)
    ensures
        r == has_title(b@),
{
    let count: usize = b.len();
    if count < 4 {
        return false;
    }
    let mut i: usize = 0;
    while i <= count - 4
        invariant
            count == b@.len(),
            4 <= count,
            i <= count - 3,
            forall|k: int| 0 <= k < i ==> !title_at(b@, k),
        decreases count - i,
    {
        if b[i] == 46 && b[i + 1] == 84 && b[i + 2] == 72 && b[i + 3] == 32 {
            proof {
                assert(title_at(b@, i as int));
            }
            return true;
        }
        i += 1;
    }
    false
}

pub open spec fn files_view(r: Result<Vec<PreparedArtifact>, Fault>) -> Result<
    Seq<PreparedView>,
    FaultView,
> {
    match r {
        Ok(v) => Ok(views(v@)),
        Err(e) => Err(e@),
    }
}

fn add_file(
    acc: Result<Vec<PreparedArtifact>, Fault>,
    path: &str,
    mode: u32,
    read: &FileRead,
) -> (r: Result<Vec<PreparedArtifact>, Fault>)
    ensures
        files_view(r) == with_file(files_view(acc), path@, mode, read@),
{
    match acc {
        Err(e) => Err(e),
        Ok(mut v) => match &read.result {
            Err(e) => Err(hand_on(e)),
            Ok(bytes) => {
                let ghost before = views(v@);
                v.push(prepared(copy(path), mode, copy_bytes(bytes.as_slice())));
                proof {
                    assert(views(v@) =~= before.push(
                        PreparedView { relative_path: path@, mode, bytes: bytes@ },
                    ));
                }
                Ok(v)
            },
        },
    }
}

fn checked_manpage(read: &FileRead) -> (r: FileRead)
    ensures
        r@ == as_manpage(read@),
{
    match &read.result {
        Err(e) => FileRead { result: Err(hand_on(e)) },
        Ok(bytes) => if bytes_have_title(bytes.as_slice()) {
            FileRead { result: Ok(copy_bytes(bytes.as_slice())) }
        } else {
            FileRead { result: Err(invalid_data("a generated Linux manpage is malformed")) }
        },
    }
}

fn checked_policy(read: &FileRead, canonical: &Vec<u8>) -> (r: FileRead)
    ensures
        r@ == as_policy(read@, canonical@),
{
    match &read.result {
        Err(e) => FileRead { result: Err(hand_on(e)) },
        Ok(bytes) => if same_bytes(bytes.as_slice(), canonical.as_slice()) {
            FileRead { result: Ok(copy_bytes(bytes.as_slice())) }
        } else {
            FileRead {
                result: Err(
                    invalid_data("a Linux policy document differs from the canonical project text"),
                ),
            }
        },
    }
}

/// Collects the reviewed sources of a generation.
pub fn collect_sources(inputs: &GenerationInputs) -> (r: Result<Vec<PreparedArtifact>, Fault>)
    requires
        inputs.manpages@.len() == 22,
    ensures
        files_view(r) == reviewed_sources(*inputs),
{
    let empty: Vec<PreparedArtifact> = Vec::new();
    proof {
        assert(views(empty@) =~= Seq::<PreparedView>::empty());
    }
    let a = add_file(Ok(empty), "remap", 0o755, &inputs.remap);
    let b = add_file(a, "remapd", 0o755, &inputs.remapd);
    let c = add_file(b, "remap-linux-system", 0o755, &inputs.system);
    let ghost base = files_view(c);
    let names = manpages();
    let ghost reads = views(inputs.manpages@);
    let mut acc = c;
    let mut i: usize = 0;
    proof {
        assert(views(names@).len() == names@.len());
    }
    while i < 22
        invariant
            i <= 22,
            inputs.manpages@.len() == 22,
            names@.len() == 22,
            views(names@) == manpage_names(),
            reads == views(inputs.manpages@),
            files_view(acc) == with_manpages(base, reads, i as int),
        decreases 22 - i,
    {
        let path = concat("share/man/man1/", names[i].as_str());
        let checked = checked_manpage(&inputs.manpages[i]);
        proof {
            assert(views(names@)[i as int] == names@[i as int]@);
            assert(reads[i as int] == inputs.manpages@[i as int]@);
        }
        acc = add_file(acc, path.as_str(), 0o644, &checked);
        i += 1;
    }
    let e = add_file(acc, "share/completions/remap.bash", 0o644, &inputs.bash);
    let f = add_file(e, "share/completions/remap.fish", 0o644, &inputs.fish);
    let g = add_file(f, "share/completions/remap.zsh", 0o644, &inputs.zsh);
    let license = checked_policy(&inputs.license, &inputs.canonical_license);
    let h = add_file(g, "LICENSE", 0o644, &license);
    let notice = checked_policy(&inputs.notice, &inputs.canonical_notice);
    add_file(h, "NOTICE", 0o644, &notice)
}

fn account_missing() -> (r: Fault)
    ensures
        r@ == account_missing_of(),
{
    invalid_data("the declared non-root daemon account or group is unavailable")
}

fn add_sockets(files: Vec<PreparedArtifact>, units: &Vec<UnitText>) -> (r: Vec<PreparedArtifact>)
    ensures
        views(r@) == with_sockets(views(files@), views(units@)),
{
    let mut r = files;
    let ghost base = views(r@);
    let ghost uv = views(units@);
    let ghost full = with_sockets(base, uv);
    let mut i: usize = 0;
    proof {
        assert(views(r@) =~= full.subrange(0, base.len() as int));
    }
    while i < units.len()
        invariant
            i <= units@.len(),
            uv == views(units@),
            full == with_sockets(base, uv),
            views(r@) == full.subrange(0, base.len() + i),
        decreases units@.len() - i,
    {
        let ghost before = views(r@);
        let path = concat("units/", units[i].name.as_str());
        let item = prepared(path, 0o644, copy_bytes(units[i].contents.as_slice()));
        r.push(item);
        proof {
            assert(uv[i as int] == units@[i as int]@);
            assert(full[base.len() + i] == item@);
            assert(views(r@) =~= before.push(item@));
            assert(full.subrange(0, base.len() + i + 1) =~= before.push(item@));
        }
        i += 1;
    }
    proof {
        assert(full.subrange(0, full.len() as int) =~= full);
    }
    r
}

/// Collects all files of a generation in their order.
pub fn prepare_files(inputs: &GenerationInputs, expected: &[u8; 32]) -> (r: Result<
    Vec<PreparedArtifact>,
    Fault,
>)
    requires
        inputs.manpages@.len() == 22,
    ensures
        files_view(r) == prepared_files(*inputs, expected@),
{
    match (inputs.account_uid, inputs.group_gid) {
        (Some(uid), Some(gid)) => if uid == 0 || gid == 0 {
            return Err(account_missing());
        },
        _ => {
            return Err(account_missing());
        },
    }
    let sources = match collect_sources(inputs) {
        Err(e) => {
            return Err(e);
        },
        Ok(sources) => sources,
    };
    let ordered = sort(sources);
    if let Err(e) = verify_source_manifest(&ordered, expected) {
        return Err(e);
    }
    let with_daemon = match add_file(
        Ok(ordered),
        "units/remapd.service",
        0o644,
        &inputs.daemon_unit,
    ) {
        Err(e) => {
            return Err(e);
        },
        Ok(files) => files,
    };
    match &inputs.resolver_unit {
        None => Err(invalid_data("resolver unit generation failed")),
        Some(unit) => {
            let mut files = with_daemon;
            let ghost before = views(files@);
            let item = prepared(
                copy("units/remap-resolver.service"),
                0o644,
                copy_bytes(unit.as_slice()),
            );
            files.push(item);
            proof {
                assert(views(files@) =~= before.push(item@));
            }
            let all = add_sockets(files, &inputs.socket_units);
            Ok(sort(all))
        },
    }
}

fn record_artifacts(files: &Vec<PreparedArtifact>) -> (r: Vec<Artifact>)
    ensures
        artifact_views(r@) == recorded_all(views(files@)),
{
    let mut r: Vec<Artifact> = Vec::new();
    let ghost fv = views(files@);
    let mut i: usize = 0;
    while i < files.len()
        invariant
            i <= files@.len(),
            r@.len() == i,
            fv == views(files@),
            forall|k: int| 0 <= k < i ==> (#[trigger] r@[k])@ == recorded(fv[k]),
        decreases files@.len() - i,
    {
        r.push(to_artifact(&files[i]));
        i += 1;
    }
    proof {
        assert(artifact_views(r@) =~= recorded_all(fv));
    }
    r
}

/// Assembles a generation from what was read, and seals it.
pub fn prepare(
    request: &InstallRequest,
    inputs: &GenerationInputs,
    previous: Option<&Generation>,
    resolver_manager: ResolverLinkManager,
    interface_name: &str,
) -> (r: Result<(Generation, Vec<PreparedArtifact>), Fault>)
    requires
        inputs.manpages@.len() == 22,
        inputs.directories@.len() == public_paths().len(),
    ensures
        match r {
            Ok((g, files)) => prepared_generation(
                *request,
                *inputs,
                borrowed_generation(previous),
                resolver_manager,
                interface_name@,
            ) == Ok::<(GenerationView, Seq<PreparedView>), FaultView>((g@, views(files@))),
            Err(e) => prepared_generation(
                *request,
                *inputs,
                borrowed_generation(previous),
                resolver_manager,
                interface_name@,
            ) == Err::<(GenerationView, Seq<PreparedView>), FaultView>(e@),
        },
{
    let files = match prepare_files(inputs, &request.source_manifest_sha256) {
        Err(e) => {
            return Err(e);
        },
        Ok(files) => files,
    };
    let directories = match inspect_public_directories(previous, &inputs.directories) {
        Err(e) => {
            return Err(e);
        },
        Ok(directories) => directories,
    };
    let daemon_uid: u32 = match inputs.account_uid {
        Some(uid) => uid,
        None => 0,
    };
    let mut g = Generation {
        id: 0,
        manifest_digest: [0; 32],
        product_version: copy(request.product_version.as_str()),
        account: copy(request.account.as_str()),
        group: copy(request.group.as_str()),
        owner_uid: request.owner_uid,
        daemon_uid,
        link: request.link,
        interface_name: Some(copy(interface_name)),
        resolver_manager: Some(resolver_manager),
        resolver_rebase_capability: RESOLVER_REBASE_CAPABILITY,
        artifacts: record_artifacts(&files),
        public_directories: directories,
    };
    proof {
        assert(g@.manifest_digest =~= Seq::new(32, |k: int| 0u8));
    }
    seal_identity(&mut g);
    Ok((g, files))
}

// ---------------------------------------------------------------------------
// Laws
// ---------------------------------------------------------------------------

/// What a sealed generation says cannot drift from its identity: where the
/// identity is kept and the digest of the manifest changes, it no longer holds.
pub proof fn law_sealed_identity_detects_drift(g: GenerationView, drifted: GenerationView)
    requires
        identity_valid(g),
        drifted.manifest_digest == g.manifest_digest,
        sha256_of(manifest_bytes(drifted)) != sha256_of(manifest_bytes(g)),
    ensures
        !identity_valid(drifted),
{
}

/// Whether a prepared file fits the lengths that a manifest can write.
pub open spec fn fits(p: PreparedView) -> bool {
    encode_utf8(p.relative_path).len() <= u64::MAX && p.bytes.len() <= u64::MAX
}

proof fn lemma_entries_front(s: Seq<PreparedView>)
    requires
        s.len() > 0,
    ensures
        source_entries(s) == source_entry(s[0]) + source_entries(s.drop_first()),
    decreases s.len(),
{
    let t = s.drop_last();
    if s.len() == 1 {
        assert(t =~= Seq::<PreparedView>::empty());
        assert(s.drop_first() =~= Seq::<PreparedView>::empty());
        assert(source_entries(s) =~= source_entry(s[0]) + source_entries(s.drop_first()));
    } else {
        lemma_entries_front(t);
        let f = s.drop_first();
        assert(f.drop_last() =~= t.drop_first());
        assert(f.last() == s.last());
        assert(t[0] == s[0]);
        assert(source_entries(s) =~= source_entry(s[0]) + source_entries(f));
    }
}

proof fn lemma_prefix_bytes(a: Seq<u8>, x: Seq<u8>, b: Seq<u8>, y: Seq<u8>)
    requires
        a + x == b + y,
        a.len() == b.len(),
    ensures
        a == b,
        x == y,
{
    let n = a.len() as int;
    assert((a + x).subrange(0, n) =~= a);
    assert((b + y).subrange(0, n) =~= b);
    assert((a + x).subrange(n, (a + x).len() as int) =~= x);
    assert((b + y).subrange(n, (b + y).len() as int) =~= y);
}

/// The first of two files is told by the bytes, whatever follows.
proof fn lemma_entry_prefix(a: PreparedView, x: Seq<u8>, b: PreparedView, y: Seq<u8>)
    requires
        fits(a),
        fits(b),
        source_entry(a) + x == source_entry(b) + y,
    ensures
        a == b,
        x == y,
{
    vstd::bytes::lemma_auto_spec_u64_to_from_le_bytes();
    vstd::bytes::lemma_auto_spec_u32_to_from_le_bytes();
    let pa = encode_utf8(a.relative_path);
    let pb = encode_utf8(b.relative_path);
    let la = spec_u64_to_le_bytes(pa.len() as u64);
    let lb = spec_u64_to_le_bytes(pb.len() as u64);
    let ma = spec_u32_to_le_bytes(a.mode);
    let mb = spec_u32_to_le_bytes(b.mode);
    let na = spec_u64_to_le_bytes(a.bytes.len() as u64);
    let nb = spec_u64_to_le_bytes(b.bytes.len() as u64);
    let ra = a.bytes + x;
    let rb = b.bytes + y;
    assert(source_entry(a) + x =~= la + (pa + (ma + (na + ra))));
    assert(source_entry(b) + y =~= lb + (pb + (mb + (nb + rb))));
    lemma_prefix_bytes(la, pa + (ma + (na + ra)), lb, pb + (mb + (nb + rb)));
    assert(pa.len() as u64 == pb.len() as u64);
    lemma_prefix_bytes(pa, ma + (na + ra), pb, mb + (nb + rb));
    lemma_prefix_bytes(ma, na + ra, mb, nb + rb);
    lemma_prefix_bytes(na, ra, nb, rb);
    assert(a.bytes.len() as u64 == b.bytes.len() as u64);
    lemma_prefix_bytes(a.bytes, x, b.bytes, y);
    vstd::utf8::encode_utf8_decode_utf8(a.relative_path);
    vstd::utf8::encode_utf8_decode_utf8(b.relative_path);
}

proof fn lemma_entries_injective(a: Seq<PreparedView>, b: Seq<PreparedView>)
    requires
        a.len() == b.len(),
        forall|i: int| 0 <= i < a.len() ==> fits(#[trigger] a[i]),
        forall|i: int| 0 <= i < b.len() ==> fits(#[trigger] b[i]),
        source_entries(a) == source_entries(b),
    ensures
        a == b,
    decreases a.len(),
{
    if a.len() == 0 {
        assert(a =~= b);
    } else {
        lemma_entries_front(a);
        lemma_entries_front(b);
        let x = a.drop_first();
        let y = b.drop_first();
        lemma_entry_prefix(a[0], source_entries(x), b[0], source_entries(y));
        assert forall|i: int| 0 <= i < x.len() implies fits(#[trigger] x[i]) by {
            assert(x[i] == a[i + 1]);
        }
        assert forall|i: int| 0 <= i < y.len() implies fits(#[trigger] y[i]) by {
            assert(y[i] == b[i + 1]);
        }
        lemma_entries_injective(x, y);
        assert(a =~= seq![a[0]] + x);
        assert(b =~= seq![b[0]] + y);
    }
}

/// A source manifest tells every path, mode and byte: two lists of files with
/// the same manifest are the same.
pub proof fn law_source_manifest_is_injective(a: Seq<PreparedView>, b: Seq<PreparedView>)
    requires
        a.len() <= u64::MAX,
        b.len() <= u64::MAX,
        forall|i: int| 0 <= i < a.len() ==> fits(#[trigger] a[i]),
        forall|i: int| 0 <= i < b.len() ==> fits(#[trigger] b[i]),
        source_manifest(a) == source_manifest(b),
    ensures
        a == b,
{
    vstd::bytes::lemma_auto_spec_u64_to_from_le_bytes();
    let d = source_domain();
    let la = spec_u64_to_le_bytes(a.len() as u64);
    let lb = spec_u64_to_le_bytes(b.len() as u64);
    assert(source_manifest(a) =~= d + (la + source_entries(a)));
    assert(source_manifest(b) =~= d + (lb + source_entries(b)));
    lemma_prefix_bytes(d, la + source_entries(a), d, lb + source_entries(b));
    lemma_prefix_bytes(la, source_entries(a), lb, source_entries(b));
    assert(a.len() as u64 == b.len() as u64);
    lemma_entries_injective(a, b);
}

} // verus!
