//! Immutable generations on disk: staging, verification and removal.

use vstd::prelude::*;
use vstd::string::*;

use crate::digest::{
    blake3_digest, blake3_of, identity_text, same_digest, sha256_digest, sha256_of, uuid_text,
};
use crate::fault::{
    conflict, conflict_of, hand_on, invalid_data, invalid_of, refused, Fault, FaultKind, FaultView,
};
use crate::files::{agrees, check_directory, directory_fault, FileKind, Metadata, Probe};
use crate::generation::validate_legacy_identity;
use crate::model::{
    artifact_views, uses_legacy_identity, Artifact, ArtifactView, Generation,
    LEGACY_EXPECTED_ARTIFACTS,
};
use crate::order::{contains_text, push_text, views};
use crate::paths::{
    file_name, join_path, joined, name_of_path, normal_path, normalize, order_paths, ordered_paths,
    parent, parent_of,
};
use crate::publications::Listing;
use crate::source::{MAX_ASSET_BYTES, MAX_BINARY_BYTES};
use crate::text::{concat, copy, same};

verus! {

/// The directories of a generation below its own.
pub open spec fn owned_directories() -> Seq<Seq<char>> {
    seq!["units"@, "share"@, "share/completions"@, "share/man"@, "share/man/man1"@]
}

/// The directories of a generation below its own.
pub fn owned_directory_names() -> (r: Vec<String>)
    ensures
        views(r@) == owned_directories(),
{
    let mut v: Vec<String> = Vec::new();
    push_text(&mut v, copy("units"));
    push_text(&mut v, copy("share"));
    push_text(&mut v, copy("share/completions"));
    push_text(&mut v, copy("share/man"));
    push_text(&mut v, copy("share/man/man1"));
    proof {
        assert(views(v@) =~= owned_directories());
    }
    v
}

// ---------------------------------------------------------------------------
// Staging
// ---------------------------------------------------------------------------

/// One step of staging a generation.
#[derive(Debug, PartialEq, Eq)]
pub enum StageStep {
    /// The directory must stand with its exact mode.
    RequireDirectory(String),
    /// The directory is made where it is missing, and given its mode.
    StageDirectory(String),
    /// The artifact at this position is written, renamed and made durable.
    StageArtifact(usize),
    /// The entries of the directory are made durable.
    Sync(String),
}

/// A staging step over plain values.
pub enum StageStepView {
    RequireDirectory(Seq<char>),
    StageDirectory(Seq<char>),
    StageArtifact(int),
    Sync(Seq<char>),
}

impl View for StageStep {
    type V = StageStepView;

    open spec fn view(&self) -> StageStepView {
        match self {
            StageStep::RequireDirectory(p) => StageStepView::RequireDirectory(p@),
            StageStep::StageDirectory(p) => StageStepView::StageDirectory(p@),
            StageStep::StageArtifact(i) => StageStepView::StageArtifact(*i as int),
            StageStep::Sync(p) => StageStepView::Sync(p@),
        }
    }
}

/// The steps on the roots.
pub open spec fn root_steps(product: Seq<char>, root: Seq<char>, first: bool) -> Seq<StageStepView> {
    if first {
        seq![StageStepView::StageDirectory(product), StageStepView::StageDirectory(root)]
    } else {
        seq![StageStepView::RequireDirectory(product), StageStepView::RequireDirectory(root)]
    }
}

/// The steps on the generation's own directories.
pub open spec fn directory_steps(directory: Seq<char>) -> Seq<StageStepView> {
    seq![
        StageStepView::StageDirectory(directory),
        StageStepView::StageDirectory(joined(directory, "units"@)),
        StageStepView::StageDirectory(joined(directory, "share"@)),
        StageStepView::StageDirectory(joined(directory, "share/completions"@)),
        StageStepView::StageDirectory(joined(directory, "share/man"@)),
        StageStepView::StageDirectory(joined(directory, "share/man/man1"@)),
    ]
}

/// The steps that make everything durable.
pub open spec fn sync_steps(directory: Seq<char>, root: Seq<char>) -> Seq<StageStepView> {
    seq![
        StageStepView::Sync(joined(directory, "units"@)),
        StageStepView::Sync(joined(directory, "share/completions"@)),
        StageStepView::Sync(joined(directory, "share/man/man1"@)),
        StageStepView::Sync(directory),
        StageStepView::Sync(root),
    ]
}

/// All steps of staging a generation of `count` artifacts.
pub open spec fn stage_steps(
    product: Seq<char>,
    root: Seq<char>,
    id: u128,
    count: nat,
    first: bool,
) -> Seq<StageStepView> {
    let directory = joined(root, uuid_text(id));
    root_steps(product, root, first) + directory_steps(directory) + Seq::new(
        count,
        |i: int| StageStepView::StageArtifact(i),
    ) + sync_steps(directory, root)
}

fn push_step(v: &mut Vec<StageStep>, step: StageStep)
    ensures
        views(final(v)@) == views(old(v)@).push(step@),
{
    let ghost before = views(v@);
    v.push(step);
    proof {
        assert(views(v@) =~= before.push(step@));
    }
}

/// Plans the staging of a generation below a root.
pub fn stage_generation_at(root: &str, id: u128, count: usize, first_install: bool) -> (r: Result<
    Vec<StageStep>,
    Fault,
>)
    ensures
        match r {
            Ok(steps) => parent_of(root@) is Some && views(steps@) == stage_steps(
                parent_of(root@)->0,
                root@,
                id,
                count as nat,
                first_install,
            ),
            Err(e) => parent_of(root@) is None && e@ == invalid_of(
                "the generation root has no product parent"@,
            ),
        },
{
    let product = match parent(root) {
        None => {
            return Err(invalid_data("the generation root has no product parent"));
        },
        Some(product) => product,
    };
    let mut v: Vec<StageStep> = Vec::new();
    let ghost head = root_steps(product@, root@, first_install);
    if first_install {
        push_step(&mut v, StageStep::StageDirectory(copy(product.as_str())));
        push_step(&mut v, StageStep::StageDirectory(copy(root)));
    } else {
        push_step(&mut v, StageStep::RequireDirectory(copy(product.as_str())));
        push_step(&mut v, StageStep::RequireDirectory(copy(root)));
    }
    proof {
        assert(views(v@) =~= head);
    }
    let directory = join_path(root, identity_text(id).as_str());
    let d = directory.as_str();
    push_step(&mut v, StageStep::StageDirectory(copy(d)));
    push_step(&mut v, StageStep::StageDirectory(join_path(d, "units")));
    push_step(&mut v, StageStep::StageDirectory(join_path(d, "share")));
    push_step(&mut v, StageStep::StageDirectory(join_path(d, "share/completions")));
    push_step(&mut v, StageStep::StageDirectory(join_path(d, "share/man")));
    push_step(&mut v, StageStep::StageDirectory(join_path(d, "share/man/man1")));
    let ghost base = head + directory_steps(d@);
    let ghost artifacts = Seq::new(count as nat, |i: int| StageStepView::StageArtifact(i));
    proof {
        assert(views(v@) =~= base);
        assert(views(v@) =~= base + artifacts.subrange(0, 0));
    }
    let mut i: usize = 0;
    while i < count
        invariant
            i <= count,
            artifacts == Seq::new(count as nat, |i: int| StageStepView::StageArtifact(i)),
            views(v@) == base + artifacts.subrange(0, i as int),
        decreases count - i,
    {
        push_step(&mut v, StageStep::StageArtifact(i));
        proof {
            assert(views(v@) =~= base + artifacts.subrange(0, i as int + 1));
        }
        i += 1;
    }
    proof {
        assert(artifacts.subrange(0, count as int) =~= artifacts);
    }
    push_step(&mut v, StageStep::Sync(join_path(d, "units")));
    push_step(&mut v, StageStep::Sync(join_path(d, "share/completions")));
    push_step(&mut v, StageStep::Sync(join_path(d, "share/man/man1")));
    push_step(&mut v, StageStep::Sync(copy(d)));
    push_step(&mut v, StageStep::Sync(copy(root)));
    proof {
        assert(views(v@) =~= stage_steps(product@, root@, id, count as nat, first_install));
    }
    Ok(v)
}

/// The path under which a file is written before it is renamed into place.
pub open spec fn staged_path(path: Seq<char>) -> Option<Seq<char>> {
    match (name_of_path(path), parent_of(path)) {
        (Some(name), Some(parent)) => Some(joined(parent, ".remap-stage-"@ + name)),
        _ => None,
    }
}

/// The path under which a file is written before it is renamed into place.
pub fn stage_path(path: &str) -> (r: Result<String, Fault>)
    ensures
        match r {
            Ok(p) => staged_path(path@) == Some(p@),
            Err(e) => staged_path(path@) is None && e@ == invalid_of(
                "an artifact path has no safe file name"@,
            ),
        },
{
    match (file_name(path), parent(path)) {
        (Some(name), Some(base)) => Ok(
            join_path(base.as_str(), concat(".remap-stage-", name.as_str()).as_str()),
        ),
        _ => Err(invalid_data("an artifact path has no safe file name")),
    }
}

/// What is owed to a directory of a generation that is being staged or removed.
pub open spec fn stage_directory_fault(p: crate::files::ProbeView) -> Option<FaultView> {
    directory_fault(
        p,
        0o022,
        0,
        "a staged generation directory is unsafe"@,
        "a staged generation directory has unsafe extended attributes"@,
    )
}

/// Holds a directory that is being staged or removed to its owner.
pub fn validate_owned_stage_directory(p: &Probe) -> (r: Result<(), Fault>)
    ensures
        agrees(r, stage_directory_fault(p@)),
{
    check_directory(
        p,
        0o022,
        0,
        "a staged generation directory is unsafe",
        "a staged generation directory has unsafe extended attributes",
    )
}

// ---------------------------------------------------------------------------
// Verification
// ---------------------------------------------------------------------------

/// Whether bytes are those of an artifact; the earlier digest counts only in
/// generations that were identified by it.
pub open spec fn digest_matches(bytes: Seq<u8>, a: ArtifactView, legacy: bool) -> bool {
    sha256_of(bytes) == a.digest || (legacy && blake3_of(bytes) == a.digest)
}

/// Whether bytes are those of an artifact.
pub fn artifact_digest_matches(bytes: &[u8], artifact: &Artifact, legacy_digest: bool) -> (r: bool)
    ensures
        r == digest_matches(bytes@, artifact@, legacy_digest),
{
    same_digest(&sha256_digest(bytes), &artifact.digest) || (legacy_digest && same_digest(
        &blake3_digest(bytes),
        &artifact.digest,
    ))
}

/// The largest length that a file of this mode may have.
pub fn artifact_limit(artifact: &Artifact) -> (r: u64)
    ensures
        r == if artifact@.mode == 0o755 {
            MAX_BINARY_BYTES
        } else {
            MAX_ASSET_BYTES
        },
{
    if artifact.mode == 0o755 {
        MAX_BINARY_BYTES
    } else {
        MAX_ASSET_BYTES
    }
}

/// Accepts an installed file with the recorded contents.
pub fn verify_artifact(bytes: &[u8], artifact: &Artifact, legacy_digest: bool) -> (r: Result<
    (),
    Fault,
>)
    ensures
        r is Ok <==> digest_matches(bytes@, artifact@, legacy_digest),
        r is Err ==> refused(r, conflict_of("an installed artifact digest changed"@)),
{
    if artifact_digest_matches(bytes, artifact, legacy_digest) {
        Ok(())
    } else {
        Err(conflict("an installed artifact digest changed"))
    }
}

/// Whether the files of a generation may be told by the earlier digest.
pub fn generation_uses_legacy_digests(g: &Generation) -> (r: bool)
    ensures
        r == uses_legacy_identity(g@),
{
    proof {
        assert(g@.artifacts.len() == g.artifacts@.len());
    }
    g.artifacts.len() == LEGACY_EXPECTED_ARTIFACTS && validate_legacy_identity(g).is_ok()
}

/// A file that may stand in a generation: its directory and its name.
#[derive(Debug)]
pub struct Entry {
    pub directory: String,
    pub name: String,
}

/// An entry over plain values.
pub struct EntryView {
    pub directory: Seq<char>,
    pub name: Seq<char>,
}

impl View for Entry {
    type V = EntryView;

    open spec fn view(&self) -> EntryView {
        EntryView { directory: self.directory@, name: self.name@ }
    }
}

/// The entries with the one that a relative path names, if it names one.
pub open spec fn with_entry(s: Seq<EntryView>, relative: Seq<char>) -> Seq<EntryView> {
    let path = normal_path(relative);
    match name_of_path(path) {
        None => s,
        Some(name) => s.push(
            EntryView {
                directory: match parent_of(path) {
                    Some(parent) => parent,
                    None => Seq::empty(),
                },
                name,
            },
        ),
    }
}

/// The entries of the directories among the first `n`.
pub open spec fn directory_entries(n: int) -> Seq<EntryView>
    decreases n,
{
    if n <= 0 {
        Seq::empty()
    } else {
        with_entry(directory_entries(n - 1), owned_directories()[n - 1])
    }
}

/// All entries that a generation may have; while it is being staged or removed
/// the files under their staging names too.
pub open spec fn expected_entries(a: Seq<ArtifactView>, partial: bool, n: int) -> Result<
    Seq<EntryView>,
    FaultView,
>
    decreases n,
{
    if n <= 0 {
        Ok(directory_entries(5))
    } else {
        match expected_entries(a, partial, n - 1) {
            Err(e) => Err(e),
            Ok(before) => {
                let path = a[n - 1].relative_path;
                let with_file = with_entry(before, path);
                if !partial {
                    Ok(with_file)
                } else {
                    match staged_path(path) {
                        None => Err(invalid_of("an artifact path has no safe file name"@)),
                        Some(staged) => Ok(with_entry(with_file, staged)),
                    }
                }
            },
        }
    }
}

fn add_expected(v: &mut Vec<Entry>, relative: &str)
    ensures
        views(final(v)@) == with_entry(views(old(v)@), relative@),
{
    let ghost before = views(v@);
    let path = normalize(relative);
    match file_name(path.as_str()) {
        None => {},
        Some(name) => {
            let directory = match parent(path.as_str()) {
                Some(base) => base,
                None => String::new(),
            };
            let entry = Entry { directory, name };
            v.push(entry);
            proof {
                assert(entry@.directory =~= match parent_of(path@) {
                    Some(parent) => parent,
                    None => Seq::<char>::empty(),
                });
                assert(views(v@) =~= before.push(entry@));
            }
        },
    }
}

proof fn lemma_entries_fail(a: Seq<ArtifactView>, partial: bool, n: int, m: int)
    requires
        0 <= n <= m,
        expected_entries(a, partial, n) is Err,
    ensures
        expected_entries(a, partial, m) == expected_entries(a, partial, n),
    decreases m - n,
{
    if n < m {
        lemma_entries_fail(a, partial, n, m - 1);
    }
}

/// All entries that a generation may have.
pub fn expected_namespace(g: &Generation, partial: bool) -> (r: Result<Vec<Entry>, Fault>)
    ensures
        match r {
            Ok(v) => expected_entries(g@.artifacts, partial, g@.artifacts.len() as int) == Ok::<
                Seq<EntryView>,
                FaultView,
            >(views(v@)),
            Err(e) => expected_entries(g@.artifacts, partial, g@.artifacts.len() as int) == Err::<
                Seq<EntryView>,
                FaultView,
            >(e@),
        },
{
    let mut v: Vec<Entry> = Vec::new();
    let names = owned_directory_names();
    let mut i: usize = 0;
    proof {
        assert(views(names@).len() == names@.len());
        assert(views(v@) =~= Seq::<EntryView>::empty());
    }
    while i < names.len()
        invariant
            i <= names@.len(),
            names@.len() == 5,
            views(names@) == owned_directories(),
            views(v@) == directory_entries(i as int),
        decreases names@.len() - i,
    {
        proof {
            assert(views(names@)[i as int] == names@[i as int]@);
        }
        add_expected(&mut v, names[i].as_str());
        i += 1;
    }
    let ghost av = g@.artifacts;
    let mut j: usize = 0;
    while j < g.artifacts.len()
        invariant
            j <= g.artifacts@.len(),
            av == g@.artifacts,
            av == artifact_views(g.artifacts@),
            expected_entries(av, partial, j as int) == Ok::<Seq<EntryView>, FaultView>(views(v@)),
        decreases g.artifacts@.len() - j,
    {
        let path = g.artifacts[j].relative_path.as_str();
        proof {
            assert(av[j as int] == g.artifacts@[j as int]@);
        }
        add_expected(&mut v, path);
        if partial {
            match stage_path(path) {
                Err(e) => {
                    proof {
                        lemma_entries_fail(av, partial, j as int + 1, av.len() as int);
                    }
                    return Err(e);
                },
                Ok(staged) => {
                    add_expected(&mut v, staged.as_str());
                },
            }
        }
        j += 1;
    }
    Ok(v)
}

/// The directories of entries, in order and once.
pub open spec fn entry_directories(s: Seq<EntryView>) -> Seq<Seq<char>> {
    ordered_paths(Seq::new(s.len(), |i: int| s[i].directory))
}

/// The directories of entries, in order and once.
pub fn namespace_directories(v: &Vec<Entry>) -> (r: Vec<String>)
    ensures
        views(r@) == entry_directories(views(v@)),
{
    let mut d: Vec<String> = Vec::new();
    let mut i: usize = 0;
    while i < v.len()
        invariant
            i <= v@.len(),
            d@.len() == i,
            forall|k: int| 0 <= k < i ==> (#[trigger] d@[k])@ == v@[k]@.directory,
        decreases v@.len() - i,
    {
        d.push(copy(v[i].directory.as_str()));
        i += 1;
    }
    proof {
        assert(views(d@) =~= Seq::new(v@.len(), |i: int| views(v@)[i].directory));
    }
    order_paths(d)
}

/// Whether a name may stand in a directory.
pub open spec fn is_expected(s: Seq<EntryView>, directory: Seq<char>, name: Seq<char>) -> bool {
    exists|i: int|
        0 <= i < s.len() && (#[trigger] s[i]).directory == directory && s[i].name == name
}

/// Whether the names of a directory are the expected ones: all of them, or no
/// others where the generation may be incomplete.
pub open spec fn names_valid(
    s: Seq<EntryView>,
    directory: Seq<char>,
    names: Seq<Seq<char>>,
    partial: bool,
) -> bool {
    &&& forall|k: int| 0 <= k < names.len() ==> is_expected(s, directory, #[trigger] names[k])
    &&& !partial ==> forall|i: int|
        0 <= i < s.len() && (#[trigger] s[i]).directory == directory ==> names.contains(s[i].name)
}

/// What is owed to one directory of a generation.
pub open spec fn namespace_fault(
    s: Seq<EntryView>,
    directory: Seq<char>,
    listing: Result<Seq<Seq<char>>, FaultView>,
    partial: bool,
) -> Option<FaultView> {
    match listing {
        Err(e) => if partial && e.kind == FaultKind::NotFound {
            None
        } else {
            Some(e)
        },
        Ok(names) => if names_valid(s, directory, names, partial) {
            None
        } else {
            Some(
                conflict_of("an immutable generation contains an unowned or missing entry"@),
            )
        },
    }
}

fn name_is_expected(v: &Vec<Entry>, directory: &str, name: &str) -> (r: bool)
    ensures
        r == is_expected(views(v@), directory@, name@),
{
    let ghost s = views(v@);
    let mut i: usize = 0;
    while i < v.len()
        invariant
            i <= v@.len(),
            s == views(v@),
            forall|k: int|
                0 <= k < i ==> !((#[trigger] s[k]).directory == directory@ && s[k].name == name@),
        decreases v@.len() - i,
    {
        proof {
            assert(s[i as int] == v@[i as int]@);
        }
        if same(v[i].directory.as_str(), directory) && same(v[i].name.as_str(), name) {
            return true;
        }
        i += 1;
    }
    false
}

/// Holds one directory of a generation to its expected entries.
pub fn verify_namespace_directory(
    v: &Vec<Entry>,
    directory: &str,
    listing: &Listing,
    partial: bool,
) -> (r: Result<(), Fault>)
    ensures
        agrees(r, namespace_fault(views(v@), directory@, listing@, partial)),
{
    let ghost s = views(v@);
    match &listing.result {
        Err(e) => if partial && e.kind == FaultKind::NotFound {
            Ok(())
        } else {
            Err(hand_on(e))
        },
        Ok(names) => {
            let ghost nv = views(names@);
            let mut k: usize = 0;
            while k < names.len()
                invariant
                    k <= names@.len(),
                    s == views(v@),
                    nv == views(names@),
                    listing@ == Ok::<Seq<Seq<char>>, FaultView>(nv),
                    forall|q: int| 0 <= q < k ==> is_expected(s, directory@, #[trigger] nv[q]),
                decreases names@.len() - k,
            {
                proof {
                    assert(nv[k as int] == names@[k as int]@);
                }
                if !name_is_expected(v, directory, names[k].as_str()) {
                    return Err(
                        conflict("an immutable generation contains an unowned or missing entry"),
                    );
                }
                k += 1;
            }
            if !partial {
                let mut i: usize = 0;
                while i < v.len()
                    invariant
                        i <= v@.len(),
                        s == views(v@),
                        nv == views(names@),
                        !partial,
                        listing@ == Ok::<Seq<Seq<char>>, FaultView>(nv),
                        forall|q: int|
                            0 <= q < i && (#[trigger] s[q]).directory == directory@
                                ==> nv.contains(s[q].name),
                    decreases v@.len() - i,
                {
                    proof {
                        assert(s[i as int] == v@[i as int]@);
                    }
                    if same(v[i].directory.as_str(), directory) && !contains_text(
                        names.as_slice(),
                        v[i].name.as_str(),
                    ) {
                        return Err(
                            conflict("an immutable generation contains an unowned or missing entry"),
                        );
                    }
                    i += 1;
                }
            }
            Ok(())
        },
    }
}

/// The failure of the first directory that has one.
pub open spec fn namespaces_fault(
    s: Seq<EntryView>,
    directories: Seq<Seq<char>>,
    listings: Seq<Result<Seq<Seq<char>>, FaultView>>,
    partial: bool,
    n: int,
) -> Option<FaultView>
    decreases n,
{
    if n <= 0 {
        None
    } else {
        match namespaces_fault(s, directories, listings, partial, n - 1) {
            Some(e) => Some(e),
            None => namespace_fault(s, directories[n - 1], listings[n - 1], partial),
        }
    }
}

proof fn lemma_namespaces_fail(
    s: Seq<EntryView>,
    directories: Seq<Seq<char>>,
    listings: Seq<Result<Seq<Seq<char>>, FaultView>>,
    partial: bool,
    n: int,
    m: int,
)
    requires
        0 <= n <= m,
        namespaces_fault(s, directories, listings, partial, n) is Some,
    ensures
        namespaces_fault(s, directories, listings, partial, m) == namespaces_fault(
            s,
            directories,
            listings,
            partial,
            n,
        ),
    decreases m - n,
{
    if n < m {
        lemma_namespaces_fail(s, directories, listings, partial, n, m - 1);
    }
}

/// Holds every directory of a generation to its expected entries; there is one
/// listing for each directory, in their order.
pub fn verify_namespace(v: &Vec<Entry>, listings: &Vec<Listing>, partial: bool) -> (r: Result<
    (),
    Fault,
>)
    requires
        listings@.len() == entry_directories(views(v@)).len(),
    ensures
        agrees(
            r,
            namespaces_fault(
                views(v@),
                entry_directories(views(v@)),
                views(listings@),
                partial,
                listings@.len() as int,
            ),
        ),
{
    let directories = namespace_directories(v);
    let ghost s = views(v@);
    let ghost dv = entry_directories(s);
    let ghost lv = views(listings@);
    let mut i: usize = 0;
    proof {
        assert(views(directories@).len() == directories@.len());
    }
    while i < listings.len()
        invariant
            i <= listings@.len(),
            listings@.len() == directories@.len(),
            s == views(v@),
            dv == views(directories@),
            dv == entry_directories(s),
            lv == views(listings@),
            namespaces_fault(s, dv, lv, partial, i as int) is None,
        decreases listings@.len() - i,
    {
        proof {
            assert(dv[i as int] == directories@[i as int]@);
            assert(lv[i as int] == listings@[i as int]@);
        }
        if let Err(e) = verify_namespace_directory(
            v,
            directories[i].as_str(),
            &listings[i],
            partial,
        ) {
            proof {
                lemma_namespaces_fail(s, dv, lv, partial, i as int + 1, lv.len() as int);
            }
            return Err(e);
        }
        i += 1;
    }
    Ok(())
}

/// Whether names are exactly the given ones, whatever their order.
pub open spec fn same_names(names: Seq<Seq<char>>, expected: Seq<Seq<char>>) -> bool {
    &&& forall|i: int| 0 <= i < names.len() ==> expected.contains(#[trigger] names[i])
    &&& forall|i: int| 0 <= i < expected.len() ==> names.contains(#[trigger] expected[i])
}

fn names_are(names: &Vec<String>, expected: &Vec<String>) -> (r: bool)
    ensures
        r == same_names(views(names@), views(expected@)),
{
    let ghost nv = views(names@);
    let ghost ev = views(expected@);
    let mut i: usize = 0;
    while i < names.len()
        invariant
            i <= names@.len(),
            nv == views(names@),
            ev == views(expected@),
            forall|k: int| 0 <= k < i ==> ev.contains(#[trigger] nv[k]),
        decreases names@.len() - i,
    {
        proof {
            assert(nv[i as int] == names@[i as int]@);
        }
        if !contains_text(expected.as_slice(), names[i].as_str()) {
            return false;
        }
        i += 1;
    }
    let mut j: usize = 0;
    while j < expected.len()
        invariant
            j <= expected@.len(),
            nv == views(names@),
            ev == views(expected@),
            forall|k: int| 0 <= k < nv.len() ==> ev.contains(#[trigger] nv[k]),
            forall|k: int| 0 <= k < j ==> nv.contains(#[trigger] ev[k]),
        decreases expected@.len() - j,
    {
        proof {
            assert(ev[j as int] == expected@[j as int]@);
        }
        if !contains_text(names.as_slice(), expected[j].as_str()) {
            return false;
        }
        j += 1;
    }
    true
}

/// What is owed to a directory whose names are settled.
pub open spec fn exact_names_fault(
    listing: Result<Seq<Seq<char>>, FaultView>,
    expected: Seq<Seq<char>>,
    message: Seq<char>,
) -> Option<FaultView> {
    match listing {
        Err(e) => Some(e),
        Ok(names) => if same_names(names, expected) {
            None
        } else {
            Some(conflict_of(message))
        },
    }
}

fn require_exact_names(listing: &Listing, expected: &Vec<String>, message: &str) -> (r: Result<
    (),
    Fault,
>)
    ensures
        agrees(r, exact_names_fault(listing@, views(expected@), message@)),
{
    match &listing.result {
        Err(e) => Err(hand_on(e)),
        Ok(names) => if names_are(names, expected) {
            Ok(())
        } else {
            Err(conflict(message))
        },
    }
}

/// Accepts a product root that holds the current link and the generations only.
pub fn verify_product_root(listing: &Listing) -> (r: Result<(), Fault>)
    ensures
        agrees(
            r,
            exact_names_fault(
                listing@,
                seq!["current"@, "generations"@],
                "the product root contains an unowned or missing publication"@,
            ),
        ),
{
    let mut expected: Vec<String> = Vec::new();
    push_text(&mut expected, copy("current"));
    push_text(&mut expected, copy("generations"));
    proof {
        assert(views(expected@) =~= seq!["current"@, "generations"@]);
    }
    require_exact_names(
        listing,
        &expected,
        "the product root contains an unowned or missing publication",
    )
}

pub open spec fn id_texts(ids: Seq<u128>) -> Seq<Seq<char>> {
    Seq::new(ids.len(), |i: int| uuid_text(ids[i]))
}

/// Accepts a generation root that holds the given generations only.
pub fn verify_generation_root(ids: &Vec<u128>, listing: &Listing) -> (r: Result<(), Fault>)
    ensures
        agrees(
            r,
            exact_names_fault(
                listing@,
                id_texts(ids@),
                "the generation root contains an unowned or missing generation"@,
            ),
        ),
{
    let mut expected: Vec<String> = Vec::new();
    let mut i: usize = 0;
    while i < ids.len()
        invariant
            i <= ids@.len(),
            expected@.len() == i,
            forall|k: int| 0 <= k < i ==> (#[trigger] expected@[k])@ == uuid_text(ids@[k]),
        decreases ids@.len() - i,
    {
        expected.push(identity_text(ids[i]));
        i += 1;
    }
    proof {
        assert(views(expected@) =~= id_texts(ids@));
    }
    require_exact_names(
        listing,
        &expected,
        "the generation root contains an unowned or missing generation",
    )
}

// ---------------------------------------------------------------------------
// Removal
// ---------------------------------------------------------------------------

/// Whether a file under its staging name is one that an interrupted run left.
pub open spec fn partial_file_safe(m: Metadata, a: ArtifactView) -> bool {
    &&& m.kind == FileKind::File
    &&& m.uid == 0
    &&& m.links == 1
    &&& m.mode & 0o022 == 0
    &&& m.length <= a.byte_length
}

/// What is owed to a file under its staging name before it goes.
pub open spec fn partial_file_fault(
    m: Metadata,
    xattrs_safe: Result<bool, FaultView>,
    a: ArtifactView,
) -> Option<FaultView> {
    if !partial_file_safe(m, a) {
        Some(conflict_of("a staged artifact changed ownership or metadata"@))
    } else {
        match xattrs_safe {
            Err(e) => Some(e),
            Ok(safe) => if safe {
                None
            } else {
                Some(conflict_of("a staged artifact changed ownership or metadata"@))
            },
        }
    }
}

/// Accepts the removal of a file under its staging name.
pub fn validate_partial_file(m: &Metadata, xattrs_safe: &Result<bool, Fault>, artifact: &Artifact) -> (r:
    Result<(), Fault>)
    ensures
        agrees(r, partial_file_fault(*m, crate::files::result_view(*xattrs_safe), artifact@)),
{
    if m.kind != FileKind::File || m.uid != 0 || m.links != 1 || m.mode & 0o022 != 0 || m.length
        > artifact.byte_length {
        return Err(conflict("a staged artifact changed ownership or metadata"));
    }
    match xattrs_safe {
        Err(e) => Err(hand_on(e)),
        Ok(safe) => if *safe {
            Ok(())
        } else {
            Err(conflict("a staged artifact changed ownership or metadata"))
        },
    }
}

/// The failure of a directory that should have been empty, told apart from others.
pub fn removal_fault(error: &Fault, message: &str) -> (r: Fault)
    ensures
        r@ == if error@.kind == FaultKind::DirectoryNotEmpty {
            conflict_of(message@)
        } else {
            error@
        },
{
    if error.kind == FaultKind::DirectoryNotEmpty {
        conflict(message)
    } else {
        hand_on(error)
    }
}

// ---------------------------------------------------------------------------
// Laws
// ---------------------------------------------------------------------------

/// Files that only the earlier digest tells are refused wherever the generation
/// was not identified by it.
pub proof fn law_legacy_digest_needs_a_legacy_generation(bytes: Seq<u8>, a: ArtifactView)
    requires
        sha256_of(bytes) != a.digest,
    ensures
        !digest_matches(bytes, a, false),
        digest_matches(bytes, a, true) <==> blake3_of(bytes) == a.digest,
{
}

/// A complete namespace is also an acceptable incomplete one.
pub proof fn law_complete_namespace_is_acceptable(
    s: Seq<EntryView>,
    directory: Seq<char>,
    names: Seq<Seq<char>>,
)
    requires
        names_valid(s, directory, names, false),
    ensures
        names_valid(s, directory, names, true),
{
}

/// A name that no file of the generation accounts for is always refused.
pub proof fn law_foreign_names_are_refused(
    s: Seq<EntryView>,
    directory: Seq<char>,
    names: Seq<Seq<char>>,
    partial: bool,
    k: int,
)
    requires
        0 <= k < names.len(),
        !is_expected(s, directory, names[k]),
    ensures
        namespace_fault(s, directory, Ok(names), partial) == Some(
            conflict_of("an immutable generation contains an unowned or missing entry"@),
        ),
{
}

/// A generation is staged as a whole: its roots are made by a first installation and
/// have to stand for any other, its directory and all below it come before the files,
/// every artifact is staged, and behind the last one everything is made durable, the
/// generation's root at the end.
pub proof fn law_generations_are_staged_as_a_whole(
    product: Seq<char>,
    root: Seq<char>,
    id: u128,
    count: nat,
    first: bool,
    i: int,
)
    ensures
        ({
            let s = stage_steps(product, root, id, count, first);
            let directory = joined(root, uuid_text(id));
            let n = s.len() as int;
            &&& n == 8 + count + 5
            &&& s[0] == (if first {
                StageStepView::StageDirectory(product)
            } else {
                StageStepView::RequireDirectory(product)
            })
            &&& s[1] == (if first {
                StageStepView::StageDirectory(root)
            } else {
                StageStepView::RequireDirectory(root)
            })
            &&& s[2] == StageStepView::StageDirectory(directory)
            &&& 0 <= i < owned_directories().len() ==> s[3 + i] == StageStepView::StageDirectory(
                joined(directory, owned_directories()[i]),
            )
            &&& 0 <= i < count ==> s[8 + i] == StageStepView::StageArtifact(i)
            &&& s[n - 5] == StageStepView::Sync(joined(directory, "units"@))
            &&& s[n - 4] == StageStepView::Sync(joined(directory, "share/completions"@))
            &&& s[n - 3] == StageStepView::Sync(joined(directory, "share/man/man1"@))
            &&& s[n - 2] == StageStepView::Sync(directory)
            &&& s[n - 1] == StageStepView::Sync(root)
        }),
{
}

/// A generation's namespace is accepted exactly where nothing stands in it that it
/// does not own; a complete one also lacks nothing.
pub proof fn law_namespaces_hold_what_is_owned(
    s: Seq<EntryView>,
    directory: Seq<char>,
    names: Seq<Seq<char>>,
)
    ensures
        namespace_fault(s, directory, Ok(names), true) is None <==> forall|k: int|
            0 <= k < names.len() ==> is_expected(s, directory, #[trigger] names[k]),
        namespace_fault(s, directory, Ok(names), false) is None <==> (forall|k: int|
            0 <= k < names.len() ==> is_expected(s, directory, #[trigger] names[k])) && (forall|
            i: int,
        |
            0 <= i < s.len() && (#[trigger] s[i]).directory == directory ==> names.contains(
                s[i].name,
            )),
{
}

/// What is staged of an artifact can be taken for the product's only where root alone
/// owns and writes it and it is no longer than the artifact.
pub proof fn law_partial_files_are_owned(
    m: Metadata,
    xattrs_safe: Result<bool, FaultView>,
    a: ArtifactView,
)
    ensures
        partial_file_fault(m, xattrs_safe, a) is None <==> m.kind == FileKind::File && m.uid == 0
            && m.links == 1 && m.mode & 0o022 == 0 && m.length <= a.byte_length && xattrs_safe
            == Ok::<bool, FaultView>(true),
{
}

} // verus!
