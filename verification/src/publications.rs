//! Public links and directories of a generation.

use vstd::prelude::*;
use vstd::string::*;

use crate::digest::{identity_text, uuid_text};
use crate::fault::{conflict, conflict_of, hand_on, invalid_data, invalid_of, Fault, FaultKind, FaultView};
use crate::files::{
    agrees, classify_link, directory_fault, installation_directory_fault, owned_link, result_view,
    FileKind, LinkObservation, LinkView, Metadata, OwnedLink, ProbeView,
};
use crate::generation::{directory_at, document_directory, manpage_names, manpages};
use crate::model::{
    artifact_views, directory_views, DirectoryIdentity, DirectoryProvenance, Generation,
    GenerationView, PublicDirectory, PublicDirectoryView,
};
use crate::order::{contains_text, extend_texts, push_text, views};
use crate::paths::{
    component_count, components, join_path, joined, order_paths, ordered_paths, parent, parent_of,
};
use crate::text::{concat, copy, number_text, same};
use crate::units::{
    link_paths, paths_of, unit_links, unit_publication_paths, PublishedLink, PublishedLinkView,
};

verus! {

// ---------------------------------------------------------------------------
// Links
// ---------------------------------------------------------------------------

/// The link to the current generation.
pub open spec fn current_link() -> Seq<char> {
    "/usr/libexec/remap/current"@
}

/// A public link: where it stands, and the file of the generation that it leads to.
#[derive(Debug, PartialEq, Eq)]
pub struct PublicLink {
    pub path: String,
    pub relative: String,
}

/// A public link over plain values.
pub struct PublicLinkView {
    pub path: Seq<char>,
    pub relative: Seq<char>,
}

impl View for PublicLink {
    type V = PublicLinkView;

    open spec fn view(&self) -> PublicLinkView {
        PublicLinkView { path: self.path@, relative: self.relative@ }
    }
}

fn public_link(path: String, relative: String) -> (r: PublicLink)
    ensures
        r@ == (PublicLinkView { path: path@, relative: relative@ }),
{
    PublicLink { path, relative }
}

/// The link of a manual page.
pub open spec fn manpage_link(name: Seq<char>) -> PublicLinkView {
    PublicLinkView {
        path: "/usr/share/man/man1/"@ + name,
        relative: "share/man/man1/"@ + name,
    }
}

/// The links behind those of the manual pages.
pub open spec fn trailing_links() -> Seq<PublicLinkView> {
    seq![
        PublicLinkView {
            path: "/usr/share/bash-completion/completions/remap"@,
            relative: "share/completions/remap.bash"@,
        },
        PublicLinkView {
            path: "/usr/share/fish/vendor_completions.d/remap.fish"@,
            relative: "share/completions/remap.fish"@,
        },
        PublicLinkView {
            path: "/usr/share/zsh/site-functions/_remap"@,
            relative: "share/completions/remap.zsh"@,
        },
        PublicLinkView { path: "/usr/share/doc/remap/LICENSE"@, relative: "LICENSE"@ },
        PublicLinkView { path: "/usr/share/doc/remap/NOTICE"@, relative: "NOTICE"@ },
    ]
}

/// All public links of the product.
pub open spec fn all_public_links() -> Seq<PublicLinkView> {
    seq![PublicLinkView { path: "/usr/bin/remap"@, relative: "remap"@ }] + Seq::new(
        22,
        |i: int| manpage_link(manpage_names()[i]),
    ) + trailing_links()
}

fn push_link(v: &mut Vec<PublicLink>, link: PublicLink)
    ensures
        views(final(v)@) == views(old(v)@).push(link@),
{
    let ghost before = views(v@);
    v.push(link);
    proof {
        assert(views(v@) =~= before.push(link@));
    }
}

/// All public links of the product.
pub fn public_link_specs() -> (r: Vec<PublicLink>)
    ensures
        views(r@) == all_public_links(),
        r@.len() == 28,
{
    let mut v: Vec<PublicLink> = Vec::new();
    push_link(&mut v, public_link(copy("/usr/bin/remap"), copy("remap")));
    let names = manpages();
    let ghost head = seq![PublicLinkView { path: "/usr/bin/remap"@, relative: "remap"@ }];
    let ghost pages = Seq::new(22, |i: int| manpage_link(manpage_names()[i]));
    let mut i: usize = 0;
    proof {
        assert(views(names@).len() == names@.len());
        assert(views(v@) =~= head + pages.subrange(0, 0));
    }
    while i < 22
        invariant
            i <= 22,
            names@.len() == 22,
            views(names@) == manpage_names(),
            pages == Seq::new(22, |i: int| manpage_link(manpage_names()[i])),
            views(v@) == head + pages.subrange(0, i as int),
        decreases 22 - i,
    {
        let name = names[i].as_str();
        let ghost before = views(v@);
        proof {
            assert(views(names@)[i as int] == names@[i as int]@);
        }
        push_link(
            &mut v,
            public_link(concat("/usr/share/man/man1/", name), concat("share/man/man1/", name)),
        );
        proof {
            assert(views(v@) =~= head + pages.subrange(0, i as int + 1));
        }
        i += 1;
    }
    push_link(
        &mut v,
        public_link(
            copy("/usr/share/bash-completion/completions/remap"),
            copy("share/completions/remap.bash"),
        ),
    );
    push_link(
        &mut v,
        public_link(
            copy("/usr/share/fish/vendor_completions.d/remap.fish"),
            copy("share/completions/remap.fish"),
        ),
    );
    push_link(
        &mut v,
        public_link(
            copy("/usr/share/zsh/site-functions/_remap"),
            copy("share/completions/remap.zsh"),
        ),
    );
    push_link(&mut v, public_link(copy("/usr/share/doc/remap/LICENSE"), copy("LICENSE")));
    push_link(&mut v, public_link(copy("/usr/share/doc/remap/NOTICE"), copy("NOTICE")));
    proof {
        assert(views(v@) =~= all_public_links());
        assert(views(v@).len() == v@.len());
    }
    v
}

/// The link as it stands in the file system.
pub open spec fn published(l: PublicLinkView) -> PublishedLinkView {
    PublishedLinkView {
        path: l.path,
        target: "/usr/libexec/remap/current/"@ + l.relative,
    }
}

/// Whether a generation has the file that a link leads to.
pub open spec fn declares(g: GenerationView, relative: Seq<char>) -> bool {
    exists|i: int| 0 <= i < g.artifacts.len() && (#[trigger] g.artifacts[i]).relative_path == relative
}

/// The links among the first `n` whose files a generation has.
pub open spec fn declared_links(g: GenerationView, n: int) -> Seq<PublishedLinkView>
    decreases n,
{
    if n <= 0 {
        Seq::empty()
    } else {
        let before = declared_links(g, n - 1);
        let l = all_public_links()[n - 1];
        if declares(g, l.relative) {
            before.push(published(l))
        } else {
            before
        }
    }
}

/// The public links of a generation.
pub open spec fn links_of(g: GenerationView) -> Seq<PublishedLinkView> {
    declared_links(g, 28)
}

fn declares_file(g: &Generation, relative: &str) -> (r: bool)
    ensures
        r == declares(g@, relative@),
{
    let ghost av = g@.artifacts;
    let mut i: usize = 0;
    while i < g.artifacts.len()
        invariant
            i <= g.artifacts@.len(),
            av == g@.artifacts,
            av == artifact_views(g.artifacts@),
            forall|k: int| 0 <= k < i ==> (#[trigger] av[k]).relative_path != relative@,
        decreases g.artifacts@.len() - i,
    {
        proof {
            assert(av[i as int] == g.artifacts@[i as int]@);
        }
        if same(g.artifacts[i].relative_path.as_str(), relative) {
            return true;
        }
        i += 1;
    }
    false
}

/// The public links of a generation.
pub fn public_link_specs_for_generation(g: &Generation) -> (r: Vec<PublishedLink>)
    ensures
        views(r@) == links_of(g@),
{
    let all = public_link_specs();
    let mut r: Vec<PublishedLink> = Vec::new();
    let mut i: usize = 0;
    proof {
        assert(views(r@) =~= Seq::<PublishedLinkView>::empty());
    }
    while i < 28
        invariant
            i <= 28,
            all@.len() == 28,
            views(all@) == all_public_links(),
            views(r@) == declared_links(g@, i as int),
        decreases 28 - i,
    {
        proof {
            assert(views(all@)[i as int] == all@[i as int]@);
        }
        if declares_file(g, all[i].relative.as_str()) {
            let ghost before = views(r@);
            let link = PublishedLink {
                path: copy(all[i].path.as_str()),
                target: concat("/usr/libexec/remap/current/", all[i].relative.as_str()),
            };
            r.push(link);
            proof {
                assert(views(r@) =~= before.push(link@));
            }
        }
        i += 1;
    }
    r
}

/// The links of a sequence whose paths are not among others.
pub open spec fn without_paths(s: Seq<PublishedLinkView>, paths: Seq<Seq<char>>) -> Seq<
    PublishedLinkView,
>
    decreases s.len(),
{
    if s.len() == 0 {
        Seq::empty()
    } else {
        let before = without_paths(s.drop_last(), paths);
        if paths.contains(s.last().path) {
            before
        } else {
            before.push(s.last())
        }
    }
}

/// The links of one generation that another does not have.
pub open spec fn link_difference(included: GenerationView, excluded: GenerationView) -> Seq<
    PublishedLinkView,
> {
    without_paths(links_of(included), link_paths(links_of(excluded)))
}

fn public_link_difference(included: &Generation, excluded: &Generation) -> (r: Vec<PublishedLink>)
    ensures
        views(r@) == link_difference(included@, excluded@),
{
    let all = public_link_specs_for_generation(included);
    let other = paths_of(&public_link_specs_for_generation(excluded));
    let ghost av = views(all@);
    let ghost paths = views(other@);
    let mut r: Vec<PublishedLink> = Vec::new();
    let mut i: usize = 0;
    proof {
        assert(av.subrange(0, 0) =~= Seq::<PublishedLinkView>::empty());
        assert(views(r@) =~= Seq::<PublishedLinkView>::empty());
    }
    while i < all.len()
        invariant
            i <= all@.len(),
            av == views(all@),
            paths == views(other@),
            views(r@) == without_paths(av.subrange(0, i as int), paths),
        decreases all@.len() - i,
    {
        let ghost next = av.subrange(0, i as int + 1);
        proof {
            assert(next.drop_last() =~= av.subrange(0, i as int));
            assert(next.last() == all@[i as int]@);
        }
        if !contains_text(other.as_slice(), all[i].path.as_str()) {
            let ghost before = views(r@);
            r.push(all[i].duplicate());
            proof {
                assert(views(r@) =~= before.push(next.last()));
            }
        }
        i += 1;
    }
    proof {
        assert(av.subrange(0, av.len() as int) =~= av);
    }
    r
}

/// The links that an update adds.
pub fn public_link_additions(previous: &Generation, current: &Generation) -> (r: Vec<PublishedLink>)
    ensures
        views(r@) == link_difference(current@, previous@),
{
    public_link_difference(current, previous)
}

/// The links that an update removes.
pub fn public_link_removals(previous: &Generation, current: &Generation) -> (r: Vec<PublishedLink>)
    ensures
        views(r@) == link_difference(previous@, current@),
{
    public_link_difference(previous, current)
}

/// Every path that an installation publishes, in order and once.
pub open spec fn all_publication_paths() -> Seq<Seq<char>> {
    ordered_paths(
        seq![current_link(), document_directory()] + link_paths(unit_links()) + Seq::new(
            28,
            |i: int| all_public_links()[i].path,
        ),
    )
}

/// Every path that an installation publishes, in order and once.
pub fn publication_paths() -> (r: Vec<String>)
    ensures
        views(r@) == all_publication_paths(),
{
    let mut v: Vec<String> = Vec::new();
    push_text(&mut v, copy("/usr/libexec/remap/current"));
    push_text(&mut v, copy("/usr/share/doc/remap"));
    extend_texts(&mut v, unit_publication_paths());
    let ghost base = views(v@);
    let ghost paths = Seq::new(28, |i: int| all_public_links()[i].path);
    let links = public_link_specs();
    let mut i: usize = 0;
    proof {
        assert(base =~= seq![current_link(), document_directory()] + link_paths(unit_links()));
        assert(views(v@) =~= base + paths.subrange(0, 0));
    }
    while i < 28
        invariant
            i <= 28,
            links@.len() == 28,
            views(links@) == all_public_links(),
            paths == Seq::new(28, |i: int| all_public_links()[i].path),
            views(v@) == base + paths.subrange(0, i as int),
        decreases 28 - i,
    {
        proof {
            assert(views(links@)[i as int] == links@[i as int]@);
        }
        push_text(&mut v, copy(links[i].path.as_str()));
        proof {
            assert(views(v@) =~= base + paths.subrange(0, i as int + 1));
        }
        i += 1;
    }
    proof {
        assert(paths.subrange(0, 28) =~= paths);
    }
    order_paths(v)
}

/// Whether a wanted public link still has to be made.
pub fn publication_of(o: &LinkObservation, target: &str) -> (r: Result<OwnedLink, Fault>)
    ensures
        result_view(r) == owned_link(o@, target@, "a public Remap installation path is occupied"@),
{
    classify_link(o, target, "a public Remap installation path is occupied")
}

/// Whether an owned public link stands and goes.
pub fn removal_of(o: &LinkObservation, target: &str) -> (r: Result<OwnedLink, Fault>)
    ensures
        result_view(r) == owned_link(o@, target@, "a public Remap path changed ownership"@),
{
    classify_link(o, target, "a public Remap path changed ownership")
}

/// The links among the first `n` that are missing, or the first failure.
pub open spec fn missing_links(
    links: Seq<PublishedLinkView>,
    observed: Seq<LinkView>,
    n: int,
) -> Result<Seq<PublishedLinkView>, FaultView>
    decreases n,
{
    if n <= 0 {
        Ok(Seq::empty())
    } else {
        match missing_links(links, observed, n - 1) {
            Err(e) => Err(e),
            Ok(before) => match owned_link(
                observed[n - 1],
                links[n - 1].target,
                "a public Remap path changed ownership"@,
            ) {
                Err(e) => Err(e),
                Ok(OwnedLink::Exact) => Ok(before),
                Ok(OwnedLink::Missing) => Ok(before.push(links[n - 1])),
            },
        }
    }
}

proof fn lemma_missing_fails(
    links: Seq<PublishedLinkView>,
    observed: Seq<LinkView>,
    n: int,
    m: int,
)
    requires
        0 <= n <= m,
        missing_links(links, observed, n) is Err,
    ensures
        missing_links(links, observed, m) == missing_links(links, observed, n),
    decreases m - n,
{
    if n < m {
        lemma_missing_fails(links, observed, n, m - 1);
    }
}

/// The public links of a generation that are missing; there is one observation
/// for each of its links.
pub fn missing_public_links(g: &Generation, observed: &Vec<LinkObservation>) -> (r: Result<
    Vec<PublishedLink>,
    Fault,
>)
    requires
        observed@.len() == links_of(g@).len(),
    ensures
        match r {
            Ok(v) => missing_links(links_of(g@), views(observed@), observed@.len() as int) == Ok::<
                Seq<PublishedLinkView>,
                FaultView,
            >(views(v@)),
            Err(e) => missing_links(links_of(g@), views(observed@), observed@.len() as int) == Err::<
                Seq<PublishedLinkView>,
                FaultView,
            >(e@),
        },
{
    let links = public_link_specs_for_generation(g);
    let ghost lv = links_of(g@);
    let ghost ov = views(observed@);
    let mut missing: Vec<PublishedLink> = Vec::new();
    let mut i: usize = 0;
    proof {
        assert(views(missing@) =~= Seq::<PublishedLinkView>::empty());
        assert(views(links@).len() == links@.len());
    }
    while i < links.len()
        invariant
            i <= links@.len(),
            links@.len() == observed@.len(),
            lv == views(links@),
            lv == links_of(g@),
            ov == views(observed@),
            missing_links(lv, ov, i as int) == Ok::<Seq<PublishedLinkView>, FaultView>(
                views(missing@),
            ),
        decreases links@.len() - i,
    {
        proof {
            assert(lv[i as int] == links@[i as int]@);
            assert(ov[i as int] == observed@[i as int]@);
        }
        match removal_of(&observed[i], links[i].target.as_str()) {
            Err(e) => {
                proof {
                    lemma_missing_fails(lv, ov, i as int + 1, ov.len() as int);
                }
                return Err(e);
            },
            Ok(OwnedLink::Exact) => {},
            Ok(OwnedLink::Missing) => {
                let ghost before = views(missing@);
                missing.push(links[i].duplicate());
                proof {
                    assert(views(missing@) =~= before.push(lv[i as int]));
                }
            },
        }
        i += 1;
    }
    Ok(missing)
}

/// Whether two sequences of links are the same.
pub fn same_links(a: &Vec<PublishedLink>, b: &Vec<PublishedLink>) -> (r: bool)
    ensures
        r == (views(a@) == views(b@)),
{
    if a.len() != b.len() {
        proof {
            assert(views(a@).len() != views(b@).len());
        }
        return false;
    }
    let mut i: usize = 0;
    while i < a.len()
        invariant
            i <= a@.len(),
            a@.len() == b@.len(),
            forall|k: int| 0 <= k < i ==> (#[trigger] a@[k])@ == b@[k]@,
        decreases a@.len() - i,
    {
        if !a[i].same_as(&b[i]) {
            proof {
                assert(views(a@)[i as int] != views(b@)[i as int]);
            }
            return false;
        }
        i += 1;
    }
    proof {
        assert(views(a@) =~= views(b@));
    }
    true
}

/// Accepts a repair only where exactly the approved links are missing.
pub fn require_approved_repairs(observed: &Vec<PublishedLink>, expected: &Vec<PublishedLink>) -> (r:
    Result<(), Fault>)
    ensures
        r is Ok <==> views(observed@) == views(expected@),
        r is Err ==> r->Err_0@ == conflict_of(
            "the missing public Remap paths changed after recovery approval"@,
        ),
{
    if same_links(observed, expected) {
        Ok(())
    } else {
        Err(conflict("the missing public Remap paths changed after recovery approval"))
    }
}

// ---------------------------------------------------------------------------
// Directories
// ---------------------------------------------------------------------------

/// What the machine says of a public directory. The attributes are judged once
/// as those of any installed directory and once as those of a created one,
/// which carries its ownership marker.
#[derive(Debug)]
pub struct PublicProbe {
    pub metadata: Result<Metadata, Fault>,
    pub installed_xattrs: Result<bool, Fault>,
    pub created_xattrs: Result<bool, Fault>,
    pub identity: Result<DirectoryIdentity, Fault>,
}

/// A public probe over plain values.
pub struct PublicProbeView {
    pub metadata: Result<Metadata, FaultView>,
    pub installed_xattrs: Result<bool, FaultView>,
    pub created_xattrs: Result<bool, FaultView>,
    pub identity: Result<DirectoryIdentity, FaultView>,
}

impl View for PublicProbe {
    type V = PublicProbeView;

    open spec fn view(&self) -> PublicProbeView {
        PublicProbeView {
            metadata: result_view(self.metadata),
            installed_xattrs: result_view(self.installed_xattrs),
            created_xattrs: result_view(self.created_xattrs),
            identity: result_view(self.identity),
        }
    }
}

/// What is owed to a directory that Remap created, staged or published.
pub open spec fn created_fault(p: PublicProbeView) -> Option<FaultView> {
    directory_fault(
        ProbeView { metadata: p.metadata, xattrs_safe: p.created_xattrs },
        0o022,
        0,
        "a Remap-created public directory changed ownership or metadata"@,
        "a Remap-created public directory has unsafe extended attributes"@,
    )
}

/// What is owed to a directory that Remap created and published.
pub open spec fn published_created_fault(p: PublicProbeView) -> Option<FaultView> {
    match created_fault(p) {
        Some(e) => Some(e),
        None => if p.metadata->Ok_0.mode & 0o777 == 0o755 {
            None
        } else {
            Some(
                conflict_of(
                    "a Remap-created public directory does not have its exact published mode"@,
                ),
            )
        },
    }
}

/// What is owed to a recorded identity.
pub open spec fn identity_fault(
    observed: Result<DirectoryIdentity, FaultView>,
    expected: DirectoryIdentity,
) -> Option<FaultView> {
    match observed {
        Err(e) => Some(e),
        Ok(i) => if i == expected {
            None
        } else {
            Some(conflict_of("a Remap-created public directory identity changed"@))
        },
    }
}

/// Holds a directory that Remap created to its owner, mode and attributes.
pub fn validate_created_directory(p: &PublicProbe) -> (r: Result<(), Fault>)
    ensures
        agrees(r, created_fault(p@)),
{
    match &p.metadata {
        Err(e) => Err(hand_on(e)),
        Ok(m) => {
            if m.kind != FileKind::Directory || m.uid != 0 || m.mode & 0o022 != 0 {
                return Err(
                    conflict("a Remap-created public directory changed ownership or metadata"),
                );
            }
            match &p.created_xattrs {
                Err(e) => Err(hand_on(e)),
                Ok(safe) => if *safe {
                    Ok(())
                } else {
                    Err(conflict("a Remap-created public directory has unsafe extended attributes"))
                },
            }
        },
    }
}

/// Holds a published directory that Remap created to its exact mode too.
pub fn validate_published_created_directory(p: &PublicProbe) -> (r: Result<(), Fault>)
    ensures
        agrees(r, published_created_fault(p@)),
{
    if let Err(e) = validate_created_directory(p) {
        return Err(e);
    }
    let published = match &p.metadata {
        Ok(m) => m.mode & 0o777 == 0o755,
        Err(_) => false,
    };
    if published {
        Ok(())
    } else {
        Err(conflict("a Remap-created public directory does not have its exact published mode"))
    }
}

/// Holds a directory to its recorded identity.
pub fn require_directory_identity(p: &PublicProbe, expected: DirectoryIdentity) -> (r: Result<
    (),
    Fault,
>)
    ensures
        agrees(r, identity_fault(p@.identity, expected)),
{
    match &p.identity {
        Err(e) => Err(hand_on(e)),
        Ok(i) => if *i == expected {
            Ok(())
        } else {
            Err(conflict("a Remap-created public directory identity changed"))
        },
    }
}

/// What is owed to a recorded public directory.
pub open spec fn public_directory_fault(
    d: PublicDirectoryView,
    p: PublicProbeView,
    no_identity: Seq<char>,
) -> Option<FaultView> {
    match d.provenance {
        DirectoryProvenance::Preexisting => installation_directory_fault(
            ProbeView { metadata: p.metadata, xattrs_safe: p.installed_xattrs },
            0o755,
        ),
        DirectoryProvenance::CreatedByRemap => match d.identity {
            None => Some(conflict_of(no_identity)),
            Some(identity) => match published_created_fault(p) {
                Some(e) => Some(e),
                None => identity_fault(p.identity, identity),
            },
        },
    }
}

fn validate_installed(p: &PublicProbe) -> (r: Result<(), Fault>)
    ensures
        agrees(
            r,
            installation_directory_fault(
                ProbeView { metadata: p@.metadata, xattrs_safe: p@.installed_xattrs },
                0o755,
            ),
        ),
{
    match &p.metadata {
        Err(e) => Err(hand_on(e)),
        Ok(m) => {
            if m.kind != FileKind::Directory || m.uid != 0 || m.mode & 0o777 != 0o755 {
                return Err(
                    conflict("an installation directory is not root-owned with the exact mode"),
                );
            }
            match &p.installed_xattrs {
                Err(e) => Err(hand_on(e)),
                Ok(safe) => if *safe {
                    Ok(())
                } else {
                    Err(conflict("an installation directory has unsafe extended attributes"))
                },
            }
        },
    }
}

fn check_public_directory(d: &PublicDirectory, p: &PublicProbe, no_identity: &str) -> (r: Result<
    (),
    Fault,
>)
    ensures
        agrees(r, public_directory_fault(d@, p@, no_identity@)),
{
    match d.provenance {
        DirectoryProvenance::Preexisting => validate_installed(p),
        DirectoryProvenance::CreatedByRemap => match d.identity {
            None => Err(conflict(no_identity)),
            Some(identity) => {
                if let Err(e) = validate_published_created_directory(p) {
                    return Err(e);
                }
                require_directory_identity(p, identity)
            },
        },
    }
}

/// Holds a recorded public directory to what was recorded.
pub fn verify_public_directory(d: &PublicDirectory, p: &PublicProbe) -> (r: Result<(), Fault>)
    ensures
        agrees(
            r,
            public_directory_fault(
                d@,
                p@,
                "a Remap-created public directory has no durable identity"@,
            ),
        ),
{
    check_public_directory(d, p, "a Remap-created public directory has no durable identity")
}

/// The failure of the first recorded directory that has one.
pub open spec fn directories_fault(
    d: Seq<PublicDirectoryView>,
    p: Seq<PublicProbeView>,
    n: int,
) -> Option<FaultView>
    decreases n,
{
    if n <= 0 {
        None
    } else {
        match directories_fault(d, p, n - 1) {
            Some(e) => Some(e),
            None => public_directory_fault(
                d[n - 1],
                p[n - 1],
                "a Remap-created public directory has no durable identity"@,
            ),
        }
    }
}

proof fn lemma_directories_fail(
    d: Seq<PublicDirectoryView>,
    p: Seq<PublicProbeView>,
    n: int,
    m: int,
)
    requires
        0 <= n <= m,
        directories_fault(d, p, n) is Some,
    ensures
        directories_fault(d, p, m) == directories_fault(d, p, n),
    decreases m - n,
{
    if n < m {
        lemma_directories_fail(d, p, n, m - 1);
    }
}

/// Holds every recorded directory to what was recorded; there is one probe each.
pub fn ensure_public_directories(g: &Generation, probes: &Vec<PublicProbe>) -> (r: Result<(), Fault>)
    requires
        probes@.len() == g.public_directories@.len(),
    ensures
        agrees(
            r,
            directories_fault(g@.public_directories, views(probes@), probes@.len() as int),
        ),
{
    let ghost dv = g@.public_directories;
    let ghost pv = views(probes@);
    let mut i: usize = 0;
    while i < probes.len()
        invariant
            i <= probes@.len(),
            probes@.len() == g.public_directories@.len(),
            dv == directory_views(g.public_directories@),
            pv == views(probes@),
            directories_fault(dv, pv, i as int) is None,
        decreases probes@.len() - i,
    {
        proof {
            assert(dv[i as int] == g.public_directories@[i as int]@);
            assert(pv[i as int] == probes@[i as int]@);
        }
        if let Err(e) = verify_public_directory(&g.public_directories[i], &probes[i]) {
            proof {
                lemma_directories_fail(dv, pv, i as int + 1, pv.len() as int);
            }
            return Err(e);
        }
        i += 1;
    }
    Ok(())
}

/// The last directory under the documentation path among the first `n`.
pub open spec fn document_index(d: Seq<PublicDirectoryView>, n: int) -> Option<int>
    decreases n,
{
    if n <= 0 {
        None
    } else if d[n - 1].path == document_directory() {
        Some(n - 1)
    } else {
        document_index(d, n - 1)
    }
}

/// The failure of the first directory other than the documentation one.
pub open spec fn other_directories_fault(
    d: Seq<PublicDirectoryView>,
    p: Seq<PublicProbeView>,
    n: int,
) -> Option<FaultView>
    decreases n,
{
    if n <= 0 {
        None
    } else {
        match other_directories_fault(d, p, n - 1) {
            Some(e) => Some(e),
            None => if d[n - 1].path == document_directory() {
                None
            } else {
                public_directory_fault(
                    d[n - 1],
                    p[n - 1],
                    "a Remap-created public directory has no durable identity"@,
                )
            },
        }
    }
}

/// Whether the documentation directory holds its two documents and nothing else.
pub open spec fn document_namespace_exact(names: Seq<Seq<char>>) -> bool {
    &&& names.contains("LICENSE"@)
    &&& names.contains("NOTICE"@)
    &&& forall|i: int| 0 <= i < names.len() ==> #[trigger] names[i] == "LICENSE"@ || names[i] == "NOTICE"@
}

pub open spec fn document_namespace_fault(names: Result<Seq<Seq<char>>, FaultView>) -> Option<
    FaultView,
> {
    match names {
        Err(e) => Some(e),
        Ok(names) => if document_namespace_exact(names) {
            None
        } else {
            Some(
                conflict_of(
                    "the Remap documentation directory contains an unowned or missing publication"@,
                ),
            )
        },
    }
}

/// The names in a directory, or why they could not be read.
#[derive(Debug)]
pub struct Listing {
    pub result: Result<Vec<String>, Fault>,
}

impl View for Listing {
    type V = Result<Seq<Seq<char>>, FaultView>;

    open spec fn view(&self) -> Result<Seq<Seq<char>>, FaultView> {
        match self.result {
            Ok(names) => Ok(views(names@)),
            Err(e) => Err(e@),
        }
    }
}

/// Accepts a documentation directory that holds its two documents and nothing else.
pub fn validate_document_namespace(listing: &Listing) -> (r: Result<(), Fault>)
    ensures
        agrees(r, document_namespace_fault(listing@)),
{
    match &listing.result {
        Err(e) => Err(hand_on(e)),
        Ok(names) => {
            let ghost nv = views(names@);
            let mut exact = contains_text(names.as_slice(), "LICENSE") && contains_text(
                names.as_slice(),
                "NOTICE",
            );
            let mut i: usize = 0;
            while i < names.len()
                invariant
                    i <= names@.len(),
                    nv == views(names@),
                    exact == (nv.contains("LICENSE"@) && nv.contains("NOTICE"@) && forall|k: int|
                        0 <= k < i ==> #[trigger] nv[k] == "LICENSE"@ || nv[k] == "NOTICE"@),
                decreases names@.len() - i,
            {
                proof {
                    assert(nv[i as int] == names@[i as int]@);
                }
                if !same(names[i].as_str(), "LICENSE") && !same(names[i].as_str(), "NOTICE") {
                    exact = false;
                }
                i += 1;
            }
            if exact {
                Ok(())
            } else {
                Err(
                    conflict(
                        "the Remap documentation directory contains an unowned or missing publication",
                    ),
                )
            }
        },
    }
}

/// What is owed to the public directories of an active generation.
pub open spec fn public_directories_fault(
    g: GenerationView,
    p: Seq<PublicProbeView>,
    documents: Result<Seq<Seq<char>>, FaultView>,
) -> Option<FaultView> {
    let d = g.public_directories;
    match other_directories_fault(d, p, d.len() as int) {
        Some(e) => Some(e),
        None => match document_index(d, d.len() as int) {
            None => Some(
                conflict_of(
                    "the Remap documentation directory is absent from the generation manifest"@,
                ),
            ),
            Some(i) => match public_directory_fault(
                d[i],
                p[i],
                "a Remap-created public directory has no durable identity"@,
            ) {
                Some(e) => Some(e),
                None => document_namespace_fault(documents),
            },
        },
    }
}

proof fn lemma_other_directories_fail(
    d: Seq<PublicDirectoryView>,
    p: Seq<PublicProbeView>,
    n: int,
    m: int,
)
    requires
        0 <= n <= m,
        other_directories_fault(d, p, n) is Some,
    ensures
        other_directories_fault(d, p, m) == other_directories_fault(d, p, n),
    decreases m - n,
{
    if n < m {
        lemma_other_directories_fail(d, p, n, m - 1);
    }
}

/// Holds the public directories of an active generation to what was recorded,
/// the documentation directory last and with its contents.
pub fn verify_public_directories(
    g: &Generation,
    probes: &Vec<PublicProbe>,
    documents: &Listing,
) -> (r: Result<(), Fault>)
    requires
        probes@.len() == g.public_directories@.len(),
    ensures
        agrees(r, public_directories_fault(g@, views(probes@), documents@)),
{
    let ghost dv = g@.public_directories;
    let ghost pv = views(probes@);
    let mut document: Option<usize> = None;
    let mut i: usize = 0;
    while i < probes.len()
        invariant
            i <= probes@.len(),
            probes@.len() == g.public_directories@.len(),
            dv == g@.public_directories,
            dv == directory_views(g.public_directories@),
            pv == views(probes@),
            other_directories_fault(dv, pv, i as int) is None,
            match document {
                Some(k) => k < i && document_index(dv, i as int) == Some(k as int),
                None => document_index(dv, i as int) is None,
            },
        decreases probes@.len() - i,
    {
        proof {
            assert(dv[i as int] == g.public_directories@[i as int]@);
            assert(pv[i as int] == probes@[i as int]@);
        }
        if same(g.public_directories[i].path.as_str(), "/usr/share/doc/remap") {
            document = Some(i);
        } else if let Err(e) = verify_public_directory(&g.public_directories[i], &probes[i]) {
            proof {
                lemma_other_directories_fail(dv, pv, i as int + 1, pv.len() as int);
            }
            return Err(e);
        }
        i += 1;
    }
    match document {
        None => Err(
            conflict("the Remap documentation directory is absent from the generation manifest"),
        ),
        Some(k) => {
            proof {
                assert(dv[k as int] == g.public_directories@[k as int]@);
                assert(pv[k as int] == probes@[k as int]@);
            }
            if let Err(e) = verify_public_directory(&g.public_directories[k], &probes[k]) {
                return Err(e);
            }
            validate_document_namespace(documents)
        },
    }
}

// ---------------------------------------------------------------------------
// Created directories
// ---------------------------------------------------------------------------

/// What becomes of a directory that Remap creates.
#[derive(Debug, Clone, Copy, PartialEq, Eq, Structural)]
pub enum CreatedAction {
    /// Stage the temporary, mark it and record its identity; then decide again.
    Stage,
    /// It is published already: make its entry durable.
    AcceptPublished,
    /// Rename the staged temporary into place.
    Publish,
}

/// What becomes of a directory that Remap creates; `empty` says whether the
/// temporary holds nothing.
pub open spec fn created_action(
    identity: Option<DirectoryIdentity>,
    path: PublicProbeView,
    temporary: PublicProbeView,
    empty: Result<bool, FaultView>,
) -> Result<CreatedAction, FaultView> {
    match identity {
        None => match crate::files::absence_fault(
            path.metadata,
            "a planned Remap publication path became occupied"@,
        ) {
            Some(e) => Err(e),
            None => Ok(CreatedAction::Stage),
        },
        Some(identity) => match path.metadata {
            Ok(_) => match published_created_fault(path) {
                Some(e) => Err(e),
                None => match identity_fault(path.identity, identity) {
                    Some(e) => Err(e),
                    None => match crate::files::absence_fault(
                        temporary.metadata,
                        "a planned Remap publication path became occupied"@,
                    ) {
                        Some(e) => Err(e),
                        None => Ok(CreatedAction::AcceptPublished),
                    },
                },
            },
            Err(e) => if e.kind != FaultKind::NotFound {
                Err(e)
            } else {
                match created_fault(temporary) {
                    Some(e) => Err(e),
                    None => match identity_fault(temporary.identity, identity) {
                        Some(e) => Err(e),
                        None => match empty {
                            Err(e) => Err(e),
                            Ok(empty) => if empty {
                                Ok(CreatedAction::Publish)
                            } else {
                                Err(
                                    conflict_of("a Remap directory staging path is not empty"@),
                                )
                            },
                        },
                    },
                }
            },
        },
    }
}

/// Decides what becomes of a directory that Remap creates.
pub fn publish_created_directory(
    identity: Option<DirectoryIdentity>,
    path: &PublicProbe,
    temporary: &PublicProbe,
    empty: &Result<bool, Fault>,
) -> (r: Result<CreatedAction, Fault>)
    ensures
        result_view(r) == created_action(identity, path@, temporary@, result_view(*empty)),
{
    match identity {
        None => match crate::files::require_absent(
            &path.metadata,
            "a planned Remap publication path became occupied",
        ) {
            Err(e) => Err(e),
            Ok(_) => Ok(CreatedAction::Stage),
        },
        Some(identity) => match &path.metadata {
            Ok(_) => {
                if let Err(e) = validate_published_created_directory(path) {
                    return Err(e);
                }
                if let Err(e) = require_directory_identity(path, identity) {
                    return Err(e);
                }
                match crate::files::require_absent(
                    &temporary.metadata,
                    "a planned Remap publication path became occupied",
                ) {
                    Err(e) => Err(e),
                    Ok(_) => Ok(CreatedAction::AcceptPublished),
                }
            },
            Err(e) => {
                if e.kind != FaultKind::NotFound {
                    return Err(hand_on(e));
                }
                if let Err(e) = validate_created_directory(temporary) {
                    return Err(e);
                }
                if let Err(e) = require_directory_identity(temporary, identity) {
                    return Err(e);
                }
                match empty {
                    Err(e) => Err(hand_on(e)),
                    Ok(empty) => if *empty {
                        Ok(CreatedAction::Publish)
                    } else {
                        Err(conflict("a Remap directory staging path is not empty"))
                    },
                }
            },
        },
    }
}

/// The staging path of the directory at `index`.
pub open spec fn temporary_path(g: GenerationView, index: int) -> Option<Seq<char>> {
    match parent_of(g.public_directories[index].path) {
        None => None,
        Some(parent) => Some(
            joined(
                parent,
                ".remap-directory-"@ + uuid_text(g.id) + "-"@ + crate::text::decimal(index as nat),
            ),
        ),
    }
}

/// The staging path of the directory at `index`.
pub fn directory_temporary(g: &Generation, index: usize) -> (r: Result<String, Fault>)
    requires
        index < g.public_directories@.len(),
    ensures
        match r {
            Ok(path) => temporary_path(g@, index as int) == Some(path@),
            Err(e) => temporary_path(g@, index as int) is None && e@ == invalid_of(
                "a public directory has no parent"@,
            ),
        },
{
    proof {
        assert(g@.public_directories[index as int] == g.public_directories@[index as int]@);
    }
    match parent(g.public_directories[index].path.as_str()) {
        None => Err(invalid_data("a public directory has no parent")),
        Some(base) => {
            let mut name = copy(".remap-directory-");
            name.append(identity_text(g.id).as_str());
            name.append("-");
            name.append(number_text(index as u64).as_str());
            Ok(join_path(base.as_str(), name.as_str()))
        },
    }
}

/// What is owed to the parent of a staged directory: what the generation
/// records of it, and else an installed directory.
pub open spec fn publication_parent_fault(
    g: GenerationView,
    parent: Seq<char>,
    p: PublicProbeView,
) -> Option<FaultView> {
    match directory_at(g.public_directories, parent) {
        None => installation_directory_fault(
            ProbeView { metadata: p.metadata, xattrs_safe: p.installed_xattrs },
            0o755,
        ),
        Some(d) => public_directory_fault(
            d,
            p,
            "a Remap-created parent directory has no durable identity"@,
        ),
    }
}

/// Holds the parent of a staged directory to what the generation records of it.
pub fn validate_publication_parent(g: &Generation, parent: &str, p: &PublicProbe) -> (r: Result<
    (),
    Fault,
>)
    ensures
        agrees(r, publication_parent_fault(g@, parent@, p@)),
{
    match crate::generation::find_directory(&g.public_directories, parent) {
        None => validate_installed(p),
        Some(i) => check_public_directory(
            &g.public_directories[i],
            p,
            "a Remap-created parent directory has no durable identity",
        ),
    }
}

/// What is owed to a staging path before its directory goes: it is Remap's,
/// holds nothing and has the recorded identity, if one was recorded.
pub open spec fn temporary_removal_fault(
    recorded: Option<DirectoryIdentity>,
    p: PublicProbeView,
    empty: Result<bool, FaultView>,
) -> Option<FaultView> {
    match created_fault(p) {
        Some(e) => Some(e),
        None => match empty {
            Err(e) => Some(e),
            Ok(empty) => if !empty {
                Some(conflict_of("a Remap directory staging path is not empty"@))
            } else {
                match recorded {
                    None => None,
                    Some(identity) => identity_fault(p.identity, identity),
                }
            },
        },
    }
}

/// Accepts the removal of a staged directory; whether one stands at all is told
/// apart before.
pub fn remove_directory_temporary(
    recorded: Option<DirectoryIdentity>,
    p: &PublicProbe,
    empty: &Result<bool, Fault>,
) -> (r: Result<(), Fault>)
    ensures
        agrees(r, temporary_removal_fault(recorded, p@, result_view(*empty))),
{
    if let Err(e) = validate_created_directory(p) {
        return Err(e);
    }
    match empty {
        Err(e) => Err(hand_on(e)),
        Ok(empty) => {
            if !*empty {
                return Err(conflict("a Remap directory staging path is not empty"));
            }
            match recorded {
                None => Ok(()),
                Some(identity) => require_directory_identity(p, identity),
            }
        },
    }
}

// ---------------------------------------------------------------------------
// Removable directories
// ---------------------------------------------------------------------------

/// The positions of the created directories among the first `n`.
pub open spec fn created_indices(d: Seq<PublicDirectoryView>, n: int) -> Seq<int>
    decreases n,
{
    if n <= 0 {
        Seq::empty()
    } else if d[n - 1].provenance == DirectoryProvenance::CreatedByRemap {
        created_indices(d, n - 1).push(n - 1)
    } else {
        created_indices(d, n - 1)
    }
}

/// A position put behind all whose directories are not less deep.
pub open spec fn insert_deep(d: Seq<PublicDirectoryView>, s: Seq<int>, x: int) -> Seq<int>
    decreases s.len(),
{
    if s.len() > 0 && component_count(d[x].path) > component_count(d[s.last()].path) {
        insert_deep(d, s.drop_last(), x).push(s.last())
    } else {
        s.push(x)
    }
}

/// Positions in order of depth, the deepest directories first.
pub open spec fn deepest_first(d: Seq<PublicDirectoryView>, s: Seq<int>) -> Seq<int>
    decreases s.len(),
{
    if s.len() == 0 {
        Seq::empty()
    } else {
        insert_deep(d, deepest_first(d, s.drop_last()), s.last())
    }
}

/// The created directories of a generation, the deepest first.
pub open spec fn created_order(g: GenerationView) -> Seq<int> {
    deepest_first(
        g.public_directories,
        created_indices(g.public_directories, g.public_directories.len() as int),
    )
}

pub open spec fn as_ints(s: Seq<usize>) -> Seq<int> {
    Seq::new(s.len(), |i: int| s[i] as int)
}

proof fn lemma_insert_deep(d: Seq<PublicDirectoryView>, s: Seq<int>, x: int, k: int)
    requires
        0 <= k <= s.len(),
        k > 0 ==> !(component_count(d[x].path) > component_count(d[s[k - 1]].path)),
        forall|i: int|
            k <= i < s.len() ==> component_count(d[x].path) > component_count(
                d[#[trigger] s[i]].path,
            ),
    ensures
        insert_deep(d, s, x) == s.insert(k, x),
    decreases s.len(),
{
    if k < s.len() {
        let t = s.drop_last();
        assert(s.last() == s[s.len() - 1]);
        assert forall|i: int| k <= i < t.len() implies component_count(d[x].path)
            > component_count(d[#[trigger] t[i]].path) by {
            assert(t[i] == s[i]);
        }
        lemma_insert_deep(d, t, x, k);
        assert(t.insert(k, x).push(s.last()) =~= s.insert(k, x));
    } else {
        if s.len() > 0 {
            assert(s.last() == s[k - 1]);
        }
        assert(s.insert(k, x) =~= s.push(x));
    }
}

/// The created directories of a generation, the deepest first.
pub fn created_directories(g: &Generation) -> (r: Vec<usize>)
    ensures
        as_ints(r@) == created_order(g@),
        forall|i: int| 0 <= i < r@.len() ==> #[trigger] r@[i] < g.public_directories@.len(),
{
    let ghost d = g@.public_directories;
    let mut r: Vec<usize> = Vec::new();
    let mut n: usize = 0;
    proof {
        assert(as_ints(r@) =~= Seq::<int>::empty());
    }
    while n < g.public_directories.len()
        invariant
            n <= g.public_directories@.len(),
            d == directory_views(g.public_directories@),
            as_ints(r@) == deepest_first(d, created_indices(d, n as int)),
            forall|i: int| 0 <= i < r@.len() ==> #[trigger] r@[i] < g.public_directories@.len(),
        decreases g.public_directories@.len() - n,
    {
        proof {
            assert(d[n as int] == g.public_directories@[n as int]@);
        }
        if g.public_directories[n].provenance == DirectoryProvenance::CreatedByRemap {
            let depth = components(g.public_directories[n].path.as_str());
            let ghost before = as_ints(r@);
            let mut k: usize = r.len();
            while k > 0 && depth > components(g.public_directories[r[k - 1]].path.as_str())
                invariant
                    k <= r@.len(),
                    n < g.public_directories@.len(),
                    d == directory_views(g.public_directories@),
                    depth == component_count(d[n as int].path),
                    before == as_ints(r@),
                    forall|i: int|
                        0 <= i < r@.len() ==> #[trigger] r@[i] < g.public_directories@.len(),
                    forall|i: int|
                        k <= i < r@.len() ==> component_count(d[n as int].path) > component_count(
                            d[#[trigger] before[i]].path,
                        ),
                decreases k,
            {
                proof {
                    assert(before[k - 1] == r@[k - 1]);
                    assert(d[r@[k - 1] as int] == g.public_directories@[r@[k - 1] as int]@);
                }
                k -= 1;
            }
            proof {
                if k > 0 {
                    assert(before[k - 1] == r@[k - 1]);
                    assert(d[r@[k - 1] as int] == g.public_directories@[r@[k - 1] as int]@);
                }
                lemma_insert_deep(d, before, n as int, k as int);
            }
            let ghost old_r = r@;
            r.insert(k, n);
            proof {
                assert(as_ints(r@) =~= before.insert(k as int, n as int));
                let c = created_indices(d, n as int + 1);
                assert(c.drop_last() =~= created_indices(d, n as int));
                assert(c.last() == n);
                assert forall|i: int| 0 <= i < r@.len() implies #[trigger] r@[i]
                    < g.public_directories@.len() by {
                    if i < k {
                        assert(r@[i] == old_r[i]);
                    } else if i > k {
                        assert(r@[i] == old_r[i - 1]);
                    }
                }
            }
        }
        n += 1;
    }
    r
}

/// What the machine says of a created directory that may go. The names are
/// those that were read before the listing ended, by itself or by a failure.
#[derive(Debug)]
pub struct RemovalProbe {
    pub directory: PublicProbe,
    pub opened: Result<(), Fault>,
    pub children: Vec<String>,
    pub interrupted: Option<Fault>,
}

/// A removal probe over plain values.
pub struct RemovalProbeView {
    pub directory: PublicProbeView,
    pub opened: Result<(), FaultView>,
    pub children: Seq<Seq<char>>,
    pub interrupted: Option<FaultView>,
}

pub open spec fn option_fault(e: Option<Fault>) -> Option<FaultView> {
    match e {
        Some(e) => Some(e@),
        None => None,
    }
}

impl View for RemovalProbe {
    type V = RemovalProbeView;

    open spec fn view(&self) -> RemovalProbeView {
        RemovalProbeView {
            directory: self.directory@,
            opened: result_view(self.opened),
            children: views(self.children@),
            interrupted: option_fault(self.interrupted),
        }
    }
}

/// Whether a path is one of the public links.
pub open spec fn is_known_link(path: Seq<char>) -> bool {
    exists|i: int| 0 <= i < 28 && #[trigger] all_public_links()[i].path == path
}

/// Whether an entry of a created directory is Remap's own.
pub open spec fn owned_child(child: Seq<char>, removable: Seq<Seq<char>>) -> bool {
    is_known_link(child) || child == document_directory() || removable.contains(child)
}

pub open spec fn only_owned(children: Seq<Seq<char>>, removable: Seq<Seq<char>>) -> bool {
    forall|i: int| 0 <= i < children.len() ==> owned_child(#[trigger] children[i], removable)
}

/// The removable directories with one more that may be.
pub open spec fn with_removable(
    g: GenerationView,
    path: Seq<char>,
    p: RemovalProbeView,
    removable: Seq<Seq<char>>,
) -> Result<Seq<Seq<char>>, FaultView> {
    let recorded = match directory_at(g.public_directories, path) {
        Some(d) => d.identity,
        None => None,
    };
    match p.directory.metadata {
        Err(e) => if e.kind == FaultKind::NotFound {
            Ok(removable)
        } else {
            Err(e)
        },
        Ok(_) => match published_created_fault(p.directory) {
            Some(e) => Err(e),
            None => if recorded is None {
                Ok(removable)
            } else if p.directory.identity is Err {
                Err(p.directory.identity->Err_0)
            } else if p.directory.identity->Ok_0 != recorded->0 {
                Ok(removable)
            } else if p.opened is Err {
                Err(p.opened->Err_0)
            } else if !only_owned(p.children, removable) {
                Ok(removable)
            } else if p.interrupted is Some {
                Err(p.interrupted->0)
            } else {
                Ok(removable.push(path))
            },
        },
    }
}

/// The removable directories among the first `n` created ones, or the first failure.
pub open spec fn removable_directories(
    g: GenerationView,
    order: Seq<int>,
    p: Seq<RemovalProbeView>,
    n: int,
) -> Result<Seq<Seq<char>>, FaultView>
    decreases n,
{
    if n <= 0 {
        Ok(Seq::empty())
    } else {
        match removable_directories(g, order, p, n - 1) {
            Err(e) => Err(e),
            Ok(removable) => with_removable(
                g,
                g.public_directories[order[n - 1]].path,
                p[n - 1],
                removable,
            ),
        }
    }
}

proof fn lemma_removable_fails(
    g: GenerationView,
    order: Seq<int>,
    p: Seq<RemovalProbeView>,
    n: int,
    m: int,
)
    requires
        0 <= n <= m,
        removable_directories(g, order, p, n) is Err,
    ensures
        removable_directories(g, order, p, m) == removable_directories(g, order, p, n),
    decreases m - n,
{
    if n < m {
        lemma_removable_fails(g, order, p, n, m - 1);
    }
}

fn known_link(links: &Vec<PublicLink>, path: &str) -> (r: bool)
    requires
        views(links@) == all_public_links(),
        links@.len() == 28,
    ensures
        r == is_known_link(path@),
{
    let mut i: usize = 0;
    while i < 28
        invariant
            i <= 28,
            links@.len() == 28,
            views(links@) == all_public_links(),
            forall|k: int| 0 <= k < i ==> #[trigger] all_public_links()[k].path != path@,
        decreases 28 - i,
    {
        proof {
            assert(views(links@)[i as int] == links@[i as int]@);
        }
        if same(links[i].path.as_str(), path) {
            proof {
                assert(all_public_links()[i as int].path == path@);
            }
            return true;
        }
        i += 1;
    }
    false
}

fn children_owned(children: &Vec<String>, links: &Vec<PublicLink>, removable: &Vec<String>) -> (r:
    bool)
    requires
        views(links@) == all_public_links(),
        links@.len() == 28,
    ensures
        r == only_owned(views(children@), views(removable@)),
{
    let ghost cv = views(children@);
    let ghost rv = views(removable@);
    let mut i: usize = 0;
    while i < children.len()
        invariant
            i <= children@.len(),
            cv == views(children@),
            rv == views(removable@),
            views(links@) == all_public_links(),
            links@.len() == 28,
            forall|k: int| 0 <= k < i ==> owned_child(#[trigger] cv[k], rv),
        decreases children@.len() - i,
    {
        let child = children[i].as_str();
        proof {
            assert(cv[i as int] == children@[i as int]@);
        }
        if !known_link(links, child) && !same(child, "/usr/share/doc/remap") && !contains_text(
            removable.as_slice(),
            child,
        ) {
            return false;
        }
        i += 1;
    }
    true
}

fn directory_is_removable(
    g: &Generation,
    path: &str,
    p: &RemovalProbe,
    links: &Vec<PublicLink>,
    removable: &Vec<String>,
) -> (r: Result<bool, Fault>)
    requires
        views(links@) == all_public_links(),
        links@.len() == 28,
    ensures
        match r {
            Err(e) => with_removable(g@, path@, p@, views(removable@)) == Err::<
                Seq<Seq<char>>,
                FaultView,
            >(e@),
            Ok(b) => with_removable(g@, path@, p@, views(removable@)) == Ok::<
                Seq<Seq<char>>,
                FaultView,
            >(
                if b {
                    views(removable@).push(path@)
                } else {
                    views(removable@)
                },
            ),
        },
{
    match &p.directory.metadata {
        Err(e) => if e.kind == FaultKind::NotFound {
            Ok(false)
        } else {
            Err(hand_on(e))
        },
        Ok(_) => {
            if let Err(e) = validate_published_created_directory(&p.directory) {
                return Err(e);
            }
            let recorded = match crate::generation::find_directory(&g.public_directories, path) {
                Some(i) => g.public_directories[i].identity,
                None => None,
            };
            let expected = match recorded {
                None => {
                    return Ok(false);
                },
                Some(identity) => identity,
            };
            match &p.directory.identity {
                Err(e) => {
                    return Err(hand_on(e));
                },
                Ok(observed) => if *observed != expected {
                    return Ok(false);
                },
            }
            if let Err(e) = &p.opened {
                return Err(hand_on(e));
            }
            if !children_owned(&p.children, links, removable) {
                return Ok(false);
            }
            match &p.interrupted {
                Some(e) => Err(hand_on(e)),
                None => Ok(true),
            }
        },
    }
}

/// The created directories that hold nothing but what Remap owns; there is one
/// probe for each created directory, the deepest first.
pub fn removable_public_directories(g: &Generation, probes: &Vec<RemovalProbe>) -> (r: Result<
    Vec<String>,
    Fault,
>)
    requires
        probes@.len() == created_order(g@).len(),
    ensures
        match r {
            Ok(v) => removable_directories(
                g@,
                created_order(g@),
                views(probes@),
                probes@.len() as int,
            ) == Ok::<Seq<Seq<char>>, FaultView>(views(v@)),
            Err(e) => removable_directories(
                g@,
                created_order(g@),
                views(probes@),
                probes@.len() as int,
            ) == Err::<Seq<Seq<char>>, FaultView>(e@),
        },
{
    let created = created_directories(g);
    let ghost order = created_order(g@);
    let ghost pv = views(probes@);
    let links = public_link_specs();
    let mut removable: Vec<String> = Vec::new();
    let mut i: usize = 0;
    proof {
        assert(views(removable@) =~= Seq::<Seq<char>>::empty());
        assert(as_ints(created@).len() == created@.len());
    }
    while i < created.len()
        invariant
            i <= created@.len(),
            created@.len() == probes@.len(),
            as_ints(created@) == order,
            order == created_order(g@),
            pv == views(probes@),
            views(links@) == all_public_links(),
            links@.len() == 28,
            forall|k: int|
                0 <= k < created@.len() ==> #[trigger] created@[k] < g.public_directories@.len(),
            removable_directories(g@, order, pv, i as int) == Ok::<Seq<Seq<char>>, FaultView>(
                views(removable@),
            ),
        decreases created@.len() - i,
    {
        let at: usize = created[i];
        let path = g.public_directories[at].path.as_str();
        proof {
            assert(as_ints(created@)[i as int] == at as int);
            assert(g@.public_directories[at as int] == g.public_directories@[at as int]@);
            assert(pv[i as int] == probes@[i as int]@);
        }
        match directory_is_removable(g, path, &probes[i], &links, &removable) {
            Err(e) => {
                proof {
                    lemma_removable_fails(g@, order, pv, i as int + 1, pv.len() as int);
                }
                return Err(e);
            },
            Ok(true) => {
                push_text(&mut removable, copy(path));
            },
            Ok(false) => {},
        }
        i += 1;
    }
    Ok(removable)
}

/// What becomes of the created directories once their temporaries are gone.
#[derive(Debug, Clone, Copy, PartialEq, Eq, Structural)]
pub struct DirectoryRemoval {
    pub index: usize,
    pub remove: bool,
}

/// The created directories in their order, and which of them go.
pub open spec fn removal_plan(g: GenerationView, removable: Seq<Seq<char>>) -> Seq<(int, bool)> {
    Seq::new(
        created_order(g).len(),
        |i: int|
            (
                created_order(g)[i],
                removable.contains(g.public_directories[created_order(g)[i]].path),
            ),
    )
}

pub open spec fn removal_pairs(s: Seq<DirectoryRemoval>) -> Seq<(int, bool)> {
    Seq::new(s.len(), |i: int| (s[i].index as int, s[i].remove))
}

/// The created directories, the deepest first, and which of them go.
pub fn remove_created_public_directories(g: &Generation, removable: &Vec<String>) -> (r: Vec<
    DirectoryRemoval,
>)
    ensures
        removal_pairs(r@) == removal_plan(g@, views(removable@)),
{
    let created = created_directories(g);
    let ghost order = created_order(g@);
    let ghost plan = removal_plan(g@, views(removable@));
    let mut r: Vec<DirectoryRemoval> = Vec::new();
    let mut i: usize = 0;
    proof {
        assert(as_ints(created@).len() == created@.len());
    }
    while i < created.len()
        invariant
            i <= created@.len(),
            as_ints(created@) == order,
            order == created_order(g@),
            plan == removal_plan(g@, views(removable@)),
            r@.len() == i,
            forall|k: int|
                0 <= k < created@.len() ==> #[trigger] created@[k] < g.public_directories@.len(),
            forall|k: int|
                0 <= k < i ==> ((#[trigger] r@[k]).index as int, r@[k].remove) == plan[k],
        decreases created@.len() - i,
    {
        let at: usize = created[i];
        proof {
            assert(as_ints(created@)[i as int] == at as int);
            assert(g@.public_directories[at as int] == g.public_directories@[at as int]@);
        }
        let remove = contains_text(removable.as_slice(), g.public_directories[at].path.as_str());
        r.push(DirectoryRemoval { index: at, remove });
        i += 1;
    }
    proof {
        assert(plan.len() == created@.len());
        assert(removal_pairs(r@) =~= plan);
    }
    r
}

// ---------------------------------------------------------------------------
// Laws
// ---------------------------------------------------------------------------

proof fn lemma_without_paths(s: Seq<PublishedLinkView>, paths: Seq<Seq<char>>, l: PublishedLinkView)
    ensures
        without_paths(s, paths).contains(l) <==> s.contains(l) && !paths.contains(l.path),
    decreases s.len(),
{
    if s.len() > 0 {
        let t = s.drop_last();
        lemma_without_paths(t, paths, l);
        let before = without_paths(t, paths);
        let r = without_paths(s, paths);
        assert(s.contains(l) <==> t.contains(l) || l == s.last()) by {
            if t.contains(l) {
                let i = choose|i: int| 0 <= i < t.len() && t[i] == l;
                assert(s[i] == l);
            }
            if l == s.last() {
                assert(s[s.len() - 1] == l);
            }
            if s.contains(l) && l != s.last() {
                let i = choose|i: int| 0 <= i < s.len() && s[i] == l;
                assert(t[i] == l);
            }
        }
        if !paths.contains(s.last().path) {
            assert(r.contains(l) <==> before.contains(l) || l == s.last()) by {
                if before.contains(l) {
                    let i = choose|i: int| 0 <= i < before.len() && before[i] == l;
                    assert(r[i] == l);
                }
                if l == s.last() {
                    assert(r[r.len() - 1] == l);
                }
                if r.contains(l) && l != s.last() {
                    let i = choose|i: int| 0 <= i < r.len() && r[i] == l;
                    assert(before[i] == l);
                }
            }
        }
    }
}

/// An update announces a link as added exactly where the new generation has it
/// and the old one has no link at its path; as removed the other way round.
pub proof fn law_link_changes_are_exact(
    previous: GenerationView,
    current: GenerationView,
    l: PublishedLinkView,
)
    ensures
        link_difference(current, previous).contains(l) <==> links_of(current).contains(l)
            && !link_paths(links_of(previous)).contains(l.path),
        link_difference(previous, current).contains(l) <==> links_of(previous).contains(l)
            && !link_paths(links_of(current)).contains(l.path),
{
    lemma_without_paths(links_of(current), link_paths(links_of(previous)), l);
    lemma_without_paths(links_of(previous), link_paths(links_of(current)), l);
}

/// Between equal file lists nothing changes.
pub proof fn law_same_files_change_no_link(previous: GenerationView, current: GenerationView)
    requires
        previous.artifacts == current.artifacts,
    ensures
        link_difference(current, previous).len() == 0,
        link_difference(previous, current).len() == 0,
{
    lemma_same_declared(previous, current, 28);
    let s = links_of(current);
    lemma_nothing_left(s, s.len() as int);
    assert(s.subrange(0, s.len() as int) =~= s);
}

proof fn lemma_same_declared(a: GenerationView, b: GenerationView, n: int)
    requires
        a.artifacts == b.artifacts,
    ensures
        declared_links(a, n) == declared_links(b, n),
    decreases n,
{
    if n > 0 {
        lemma_same_declared(a, b, n - 1);
        let relative = all_public_links()[n - 1].relative;
        assert(declares(a, relative) == declares(b, relative));
    }
}

proof fn lemma_nothing_left(s: Seq<PublishedLinkView>, n: int)
    requires
        0 <= n <= s.len(),
    ensures
        without_paths(s.subrange(0, n), link_paths(s)).len() == 0,
    decreases n,
{
    if n > 0 {
        lemma_nothing_left(s, n - 1);
        let t = s.subrange(0, n);
        assert(t.drop_last() =~= s.subrange(0, n - 1));
        assert(link_paths(s)[n - 1] == t.last().path);
        assert(link_paths(s).contains(t.last().path));
    }
}

/// A directory is never removable while it holds anything that Remap does not own.
pub proof fn law_foreign_entries_keep_a_directory(
    g: GenerationView,
    path: Seq<char>,
    p: RemovalProbeView,
    removable: Seq<Seq<char>>,
)
    requires
        !only_owned(p.children, removable),
    ensures
        with_removable(g, path, p, removable) is Err || with_removable(g, path, p, removable)
            == Ok::<Seq<Seq<char>>, FaultView>(removable),
{
}

} // verus!
