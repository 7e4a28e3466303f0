//! Whether an installation is exactly what its record says.

use vstd::prelude::*;
use vstd::string::*;

use crate::fault::{conflict, conflict_of, hand_on, Fault, FaultKind, FaultView};
use crate::files::{
    agrees, installation_directory_fault, installed_link_fault, result_view, validate_directory,
    verify_symlink, LinkObservation, LinkView, Probe, ProbeView,
};
use crate::model::{Generation, GenerationView, InstallPhase, InstallRecord, RecordView};
use crate::order::views;
use crate::publications::{
    link_difference, links_of, public_link_additions, public_link_removals,
    public_link_specs_for_generation,
};
use crate::units::{
    generation_path, link_paths, unit_link_specs, unit_links, verify_current_link, PublishedLink,
    PublishedLinkView,
};

verus! {

// ---------------------------------------------------------------------------
// Checks one behind the other
// ---------------------------------------------------------------------------

/// What came of one check.
#[derive(Debug)]
pub struct Outcome {
    pub result: Result<(), Fault>,
}

impl View for Outcome {
    type V = Result<(), FaultView>;

    open spec fn view(&self) -> Result<(), FaultView> {
        result_view(self.result)
    }
}

pub open spec fn outcome_fault(r: Result<(), FaultView>) -> Option<FaultView> {
    match r {
        Ok(_) => None,
        Err(e) => Some(e),
    }
}

/// The first failure among the first `n` checks.
pub open spec fn first_fault(s: Seq<Result<(), FaultView>>, n: int) -> Option<FaultView>
    decreases n,
{
    if n <= 0 {
        None
    } else {
        match first_fault(s, n - 1) {
            Some(e) => Some(e),
            None => outcome_fault(s[n - 1]),
        }
    }
}

proof fn lemma_first_fault(s: Seq<Result<(), FaultView>>, n: int, m: int)
    requires
        0 <= n <= m,
        first_fault(s, n) is Some,
    ensures
        first_fault(s, m) == first_fault(s, n),
    decreases m - n,
{
    if n < m {
        lemma_first_fault(s, n, m - 1);
    }
}

/// The first failure of checks that stand one behind the other.
pub fn first_failure(checks: &Vec<Outcome>) -> (r: Result<(), Fault>)
    ensures
        agrees(r, first_fault(views(checks@), checks@.len() as int)),
{
    let ghost cv = views(checks@);
    let mut i: usize = 0;
    while i < checks.len()
        invariant
            i <= checks@.len(),
            cv == views(checks@),
            first_fault(cv, i as int) is None,
        decreases checks@.len() - i,
    {
        proof {
            assert(cv[i as int] == checks@[i as int]@);
        }
        if let Err(e) = &checks[i].result {
            proof {
                lemma_first_fault(cv, i as int + 1, cv.len() as int);
            }
            return Err(hand_on(e));
        }
        i += 1;
    }
    Ok(())
}

fn hand_on_result(r: &Result<(), Fault>) -> (s: Result<(), Fault>)
    ensures
        result_view(s) == result_view(*r),
{
    match r {
        Ok(_) => Ok(()),
        Err(e) => Err(hand_on(e)),
    }
}

/// The first of some directories that is not one of the installation's.
pub open spec fn directories_fault(s: Seq<ProbeView>, n: int) -> Option<FaultView>
    decreases n,
{
    if n <= 0 {
        None
    } else {
        match directories_fault(s, n - 1) {
            Some(e) => Some(e),
            None => installation_directory_fault(s[n - 1], 0o755),
        }
    }
}

proof fn lemma_directories_fault(s: Seq<ProbeView>, n: int, m: int)
    requires
        0 <= n <= m,
        directories_fault(s, n) is Some,
    ensures
        directories_fault(s, m) == directories_fault(s, n),
    decreases m - n,
{
    if n < m {
        lemma_directories_fault(s, n, m - 1);
    }
}

/// Holds directories to the metadata of the installation's.
pub fn validate_directories(probes: &Vec<Probe>) -> (r: Result<(), Fault>)
    ensures
        agrees(r, directories_fault(views(probes@), probes@.len() as int)),
{
    let ghost pv = views(probes@);
    let mut i: usize = 0;
    while i < probes.len()
        invariant
            i <= probes@.len(),
            pv == views(probes@),
            directories_fault(pv, i as int) is None,
        decreases probes@.len() - i,
    {
        proof {
            assert(pv[i as int] == probes@[i as int]@);
        }
        if let Err(e) = validate_directory(&probes[i], 0o755) {
            proof {
                lemma_directories_fault(pv, i as int + 1, pv.len() as int);
            }
            return Err(e);
        }
        i += 1;
    }
    Ok(())
}

/// The first of some links that is not where and what it should be.
pub open spec fn links_fault(
    links: Seq<PublishedLinkView>,
    observed: Seq<LinkView>,
    n: int,
) -> Option<FaultView>
    decreases n,
{
    if n <= 0 {
        None
    } else {
        match links_fault(links, observed, n - 1) {
            Some(e) => Some(e),
            None => installed_link_fault(observed[n - 1], links[n - 1].target),
        }
    }
}

proof fn lemma_links_fault(links: Seq<PublishedLinkView>, observed: Seq<LinkView>, n: int, m: int)
    requires
        0 <= n <= m,
        links_fault(links, observed, n) is Some,
    ensures
        links_fault(links, observed, m) == links_fault(links, observed, n),
    decreases m - n,
{
    if n < m {
        lemma_links_fault(links, observed, n, m - 1);
    }
}

/// Holds links to their targets; there is one observation for each link.
pub fn verify_links(links: &Vec<PublishedLink>, observed: &Vec<LinkObservation>) -> (r: Result<
    (),
    Fault,
>)
    requires
        links@.len() == observed@.len(),
    ensures
        agrees(r, links_fault(views(links@), views(observed@), links@.len() as int)),
{
    let ghost lv = views(links@);
    let ghost ov = views(observed@);
    let mut i: usize = 0;
    while i < links.len()
        invariant
            i <= links@.len(),
            links@.len() == observed@.len(),
            lv == views(links@),
            ov == views(observed@),
            links_fault(lv, ov, i as int) is None,
        decreases links@.len() - i,
    {
        proof {
            assert(lv[i as int] == links@[i as int]@);
            assert(ov[i as int] == observed@[i as int]@);
        }
        if let Err(e) = verify_symlink(&observed[i], links[i].target.as_str()) {
            proof {
                lemma_links_fault(lv, ov, i as int + 1, lv.len() as int);
            }
            return Err(e);
        }
        i += 1;
    }
    Ok(())
}

// ---------------------------------------------------------------------------
// The parts of an installation
// ---------------------------------------------------------------------------

/// What is owed to the unit directories and the unit links.
pub open spec fn unit_links_fault(directories: Seq<ProbeView>, observed: Seq<LinkView>) -> Option<
    FaultView,
> {
    match directories_fault(directories, directories.len() as int) {
        Some(e) => Some(e),
        None => links_fault(unit_links(), observed, unit_links().len() as int),
    }
}

/// Holds the unit directories and the unit links to what was published.
pub fn verify_unit_links(directories: &Vec<Probe>, observed: &Vec<LinkObservation>) -> (r: Result<
    (),
    Fault,
>)
    requires
        observed@.len() == unit_links().len(),
    ensures
        agrees(r, unit_links_fault(views(directories@), views(observed@))),
{
    proof {
        assert(views(directories@).len() == directories@.len());
    }
    if let Err(e) = validate_directories(directories) {
        return Err(e);
    }
    let links = unit_link_specs();
    proof {
        assert(views(links@).len() == links@.len());
    }
    verify_links(&links, observed)
}

/// What is owed to the files of a generation: its directories, then each file,
/// then that there is nothing else.
pub open spec fn generation_fault(
    directories: Seq<ProbeView>,
    artifacts: Seq<Result<(), FaultView>>,
    namespace: Result<(), FaultView>,
) -> Option<FaultView> {
    match directories_fault(directories, directories.len() as int) {
        Some(e) => Some(e),
        None => match first_fault(artifacts, artifacts.len() as int) {
            Some(e) => Some(e),
            None => outcome_fault(namespace),
        },
    }
}

/// What was found of the files of a generation.
#[derive(Debug)]
pub struct GenerationFiles {
    pub directories: Vec<Probe>,
    pub artifacts: Vec<Outcome>,
    pub namespace: Outcome,
}

pub open spec fn files_fault(f: GenerationFiles) -> Option<FaultView> {
    generation_fault(views(f.directories@), views(f.artifacts@), f.namespace@)
}

/// Holds the files of a generation to its manifest.
pub fn verify_generation(files: &GenerationFiles) -> (r: Result<(), Fault>)
    ensures
        agrees(r, files_fault(*files)),
{
    proof {
        assert(views(files.directories@).len() == files.directories@.len());
        assert(views(files.artifacts@).len() == files.artifacts@.len());
    }
    if let Err(e) = validate_directories(&files.directories) {
        return Err(e);
    }
    if let Err(e) = first_failure(&files.artifacts) {
        return Err(e);
    }
    hand_on_result(&files.namespace.result)
}

/// What is owed to the public links of a generation.
pub open spec fn public_links_fault(
    parent: ProbeView,
    g: GenerationView,
    observed: Seq<LinkView>,
) -> Option<FaultView> {
    match installation_directory_fault(parent, 0o755) {
        Some(e) => Some(e),
        None => links_fault(links_of(g), observed, links_of(g).len() as int),
    }
}

/// Holds the public links of a generation to its manifest.
pub fn verify_public_links(parent: &Probe, g: &Generation, observed: &Vec<LinkObservation>) -> (r:
    Result<(), Fault>)
    requires
        observed@.len() == links_of(g@).len(),
    ensures
        agrees(r, public_links_fault(parent@, g@, views(observed@))),
{
    if let Err(e) = validate_directory(parent, 0o755) {
        return Err(e);
    }
    let links = public_link_specs_for_generation(g);
    proof {
        assert(views(links@).len() == links@.len());
    }
    verify_links(&links, observed)
}

// ---------------------------------------------------------------------------
// The installation
// ---------------------------------------------------------------------------

/// What was found of an installation. The outcome for the public directories,
/// for the files of the previous generation and for the generation root are
/// those of their own checks.
#[derive(Debug)]
pub struct ActiveObservation {
    pub current_link: LinkObservation,
    pub unit_directories: Vec<Probe>,
    pub unit_links: Vec<LinkObservation>,
    pub public_directories: Outcome,
    pub current_files: GenerationFiles,
    pub previous_files: Option<GenerationFiles>,
    pub generation_root: Outcome,
    pub public_parent: Probe,
    pub public_links: Vec<LinkObservation>,
}

pub open spec fn previous_fault(files: Option<GenerationFiles>) -> Option<FaultView> {
    match files {
        Some(f) => files_fault(f),
        None => None,
    }
}

/// What an active installation lacks, its public links aside.
pub open spec fn installation_fault(r: RecordView, o: ActiveObservation) -> Option<FaultView> {
    if r.phase != InstallPhase::Active {
        Some(conflict_of("the Linux installation requires recovery"@))
    } else {
        match installed_link_fault(o.current_link@, generation_path(r.current.id)) {
            Some(e) => Some(e),
            None => match unit_links_fault(views(o.unit_directories@), views(o.unit_links@)) {
                Some(e) => Some(e),
                None => match outcome_fault(o.public_directories@) {
                    Some(e) => Some(e),
                    None => match files_fault(o.current_files) {
                        Some(e) => Some(e),
                        None => match previous_fault(o.previous_files) {
                            Some(e) => Some(e),
                            None => outcome_fault(o.generation_root@),
                        },
                    },
                },
            },
        }
    }
}

/// What an active installation lacks.
pub open spec fn active_fault(r: RecordView, o: ActiveObservation) -> Option<FaultView> {
    match installation_fault(r, o) {
        Some(e) => Some(e),
        None => public_links_fault(o.public_parent@, r.current, views(o.public_links@)),
    }
}

/// Holds an installation to its record, its public links aside.
pub fn verify_active_without_public_links(record: &InstallRecord, o: &ActiveObservation) -> (r:
    Result<(), Fault>)
    requires
        o.unit_links@.len() == unit_links().len(),
    ensures
        agrees(r, installation_fault(record@, *o)),
{
    if record.phase != InstallPhase::Active {
        return Err(conflict("the Linux installation requires recovery"));
    }
    if let Err(e) = verify_current_link(&o.current_link, record.current.id) {
        return Err(e);
    }
    if let Err(e) = verify_unit_links(&o.unit_directories, &o.unit_links) {
        return Err(e);
    }
    if let Err(e) = hand_on_result(&o.public_directories.result) {
        return Err(e);
    }
    if let Err(e) = verify_generation(&o.current_files) {
        return Err(e);
    }
    if let Some(files) = &o.previous_files {
        if let Err(e) = verify_generation(files) {
            return Err(e);
        }
    }
    hand_on_result(&o.generation_root.result)
}

/// Holds an installation to its record.
pub fn verify_active(record: &InstallRecord, o: &ActiveObservation) -> (r: Result<(), Fault>)
    requires
        o.unit_links@.len() == unit_links().len(),
        o.public_links@.len() == links_of(record@.current).len(),
    ensures
        agrees(r, active_fault(record@, *o)),
{
    if let Err(e) = verify_active_without_public_links(record, o) {
        return Err(e);
    }
    verify_public_links(&o.public_parent, &record.current, &o.public_links)
}

/// The generations that the generation root of an installation holds.
pub open spec fn retained_ids(r: RecordView) -> Seq<u128> {
    match r.previous {
        Some(previous) => seq![r.current.id, previous.id],
        None => seq![r.current.id],
    }
}

/// The generations that the generation root of an installation holds.
pub fn retained_generations(record: &InstallRecord) -> (r: Vec<u128>)
    ensures
        r@ == retained_ids(record@),
{
    let mut v: Vec<u128> = Vec::new();
    v.push(record.current.id);
    if let Some(previous) = &record.previous {
        v.push(previous.id);
    }
    proof {
        assert(v@ =~= retained_ids(record@));
    }
    v
}

// ---------------------------------------------------------------------------
// Changes of the public links
// ---------------------------------------------------------------------------

/// A link that is published or taken away.
#[derive(Debug)]
pub struct LinkChange {
    pub link: PublishedLink,
    pub publish: bool,
}

/// A link change over plain values.
pub struct LinkChangeView {
    pub link: PublishedLinkView,
    pub publish: bool,
}

impl View for LinkChange {
    type V = LinkChangeView;

    open spec fn view(&self) -> LinkChangeView {
        LinkChangeView { link: self.link@, publish: self.publish }
    }
}

pub open spec fn changes(s: Seq<PublishedLinkView>, publish: bool) -> Seq<LinkChangeView> {
    Seq::new(s.len(), |i: int| LinkChangeView { link: s[i], publish })
}

/// What leads from the links of one generation to those of another.
pub open spec fn link_changes(before: GenerationView, after: GenerationView) -> Seq<LinkChangeView> {
    changes(link_difference(after, before), true) + changes(link_difference(before, after), false)
}

fn as_changes(links: &Vec<PublishedLink>, publish: bool) -> (r: Vec<LinkChange>)
    ensures
        views(r@) == changes(views(links@), publish),
{
    let mut r: Vec<LinkChange> = Vec::new();
    let mut i: usize = 0;
    while i < links.len()
        invariant
            i <= links@.len(),
            r@.len() == i,
            forall|k: int|
                0 <= k < i ==> (#[trigger] r@[k])@ == (LinkChangeView { link: links@[k]@, publish }),
        decreases links@.len() - i,
    {
        r.push(LinkChange { link: links[i].duplicate(), publish });
        i += 1;
    }
    proof {
        assert(views(r@) =~= changes(views(links@), publish));
    }
    r
}

/// What an update does to the public links: first what is new, then what goes.
pub fn public_link_changes(previous: &Generation, current: &Generation) -> (r: Vec<LinkChange>)
    ensures
        views(r@) == link_changes(previous@, current@),
{
    let mut r = as_changes(&public_link_additions(previous, current), true);
    let mut removals = as_changes(&public_link_removals(previous, current), false);
    let ghost added = views(r@);
    let ghost removed = views(removals@);
    r.append(&mut removals);
    proof {
        assert(views(r@) =~= added + removed);
    }
    r
}

/// What the rollback of an update does to the public links.
pub fn reverted_link_changes(previous: &Generation, failed: &Generation) -> (r: Vec<LinkChange>)
    ensures
        views(r@) == link_changes(failed@, previous@),
{
    let mut r = as_changes(&public_link_removals(previous, failed), true);
    let mut additions = as_changes(&public_link_additions(previous, failed), false);
    let ghost restored = views(r@);
    let ghost withdrawn = views(additions@);
    r.append(&mut additions);
    proof {
        assert(views(r@) =~= restored + withdrawn);
    }
    r
}

/// The failure of a link that could not be published.
pub fn publication_failure(error: &Fault) -> (r: Fault)
    ensures
        r@ == if error@.kind == FaultKind::AlreadyExists {
            conflict_of("an installation publication path became occupied"@)
        } else {
            error@
        },
{
    if error.kind == FaultKind::AlreadyExists {
        conflict("an installation publication path became occupied")
    } else {
        hand_on(error)
    }
}

// ---------------------------------------------------------------------------
// Laws
// ---------------------------------------------------------------------------

/// The paths at which links stand after some changes.
pub open spec fn changed(paths: Set<Seq<char>>, s: Seq<LinkChangeView>) -> Set<Seq<char>>
    decreases s.len(),
{
    if s.len() == 0 {
        paths
    } else {
        let before = changed(paths, s.drop_last());
        if s.last().publish {
            before.insert(s.last().link.path)
        } else {
            before.remove(s.last().link.path)
        }
    }
}

/// The paths of the links of a generation.
pub open spec fn paths_in(g: GenerationView) -> Set<Seq<char>> {
    link_paths(links_of(g)).to_set()
}

proof fn lemma_published(paths: Set<Seq<char>>, s: Seq<PublishedLinkView>)
    ensures
        changed(paths, changes(s, true)) == paths.union(link_paths(s).to_set()),
    decreases s.len(),
{
    let all = changes(s, true);
    if s.len() == 0 {
        assert(link_paths(s).to_set() =~= Set::<Seq<char>>::empty());
        assert(paths.union(link_paths(s).to_set()) =~= paths);
    } else {
        let t = s.drop_last();
        lemma_published(paths, t);
        assert(all.drop_last() =~= changes(t, true));
        assert(link_paths(s) =~= link_paths(t).push(s.last().path));
        assert(link_paths(s).to_set() =~= link_paths(t).to_set().insert(s.last().path)) by {
            broadcast use vstd::seq_lib::group_seq_properties;

        }
        assert(changed(paths, all) =~= paths.union(link_paths(s).to_set()));
    }
}

proof fn lemma_withdrawn(paths: Set<Seq<char>>, s: Seq<PublishedLinkView>)
    ensures
        changed(paths, changes(s, false)) == paths.difference(link_paths(s).to_set()),
    decreases s.len(),
{
    let all = changes(s, false);
    if s.len() == 0 {
        assert(link_paths(s).to_set() =~= Set::<Seq<char>>::empty());
        assert(paths.difference(link_paths(s).to_set()) =~= paths);
    } else {
        let t = s.drop_last();
        lemma_withdrawn(paths, t);
        assert(all.drop_last() =~= changes(t, false));
        assert(link_paths(s) =~= link_paths(t).push(s.last().path));
        assert(link_paths(s).to_set() =~= link_paths(t).to_set().insert(s.last().path)) by {
            broadcast use vstd::seq_lib::group_seq_properties;

        }
        assert(changed(paths, all) =~= paths.difference(link_paths(s).to_set()));
    }
}

proof fn lemma_changed_append(
    paths: Set<Seq<char>>,
    a: Seq<LinkChangeView>,
    b: Seq<LinkChangeView>,
)
    ensures
        changed(paths, a + b) == changed(changed(paths, a), b),
    decreases b.len(),
{
    if b.len() == 0 {
        assert(a + b =~= a);
    } else {
        lemma_changed_append(paths, a, b.drop_last());
        assert((a + b).drop_last() =~= a + b.drop_last());
        assert((a + b).last() == b.last());
    }
}

proof fn lemma_difference_paths(included: GenerationView, excluded: GenerationView)
    ensures
        link_paths(link_difference(included, excluded)).to_set() == paths_in(included).difference(
            paths_in(excluded),
        ),
{
    let d = link_difference(included, excluded);
    let left = link_paths(d).to_set();
    let right = paths_in(included).difference(paths_in(excluded));
    assert forall|p: Seq<char>| left.contains(p) <==> right.contains(p) by {
        if left.contains(p) {
            let i = choose|i: int| 0 <= i < link_paths(d).len() && link_paths(d)[i] == p;
            let l = d[i];
            assert(d.contains(l));
            crate::publications::law_link_changes_are_exact(excluded, included, l);
            let k = choose|k: int| 0 <= k < links_of(included).len() && links_of(included)[k] == l;
            assert(link_paths(links_of(included))[k] == p);
            assert(link_paths(links_of(included)).contains(p));
        }
        if right.contains(p) {
            let k = choose|k: int|
                0 <= k < link_paths(links_of(included)).len() && link_paths(links_of(included))[k]
                    == p;
            let l = links_of(included)[k];
            assert(links_of(included).contains(l));
            assert(l.path == p);
            assert(!link_paths(links_of(excluded)).contains(p));
            crate::publications::law_link_changes_are_exact(excluded, included, l);
            let i = choose|i: int| 0 <= i < d.len() && d[i] == l;
            assert(link_paths(d)[i] == p);
            assert(link_paths(d).contains(p));
        }
    }
    assert(left =~= right);
}

/// An update leads from the paths of the previous generation to those of the
/// current one.
pub proof fn law_changes_lead_to_the_other_generation(
    before: GenerationView,
    after: GenerationView,
)
    ensures
        changed(paths_in(before), link_changes(before, after)) == paths_in(after),
{
    let added = link_difference(after, before);
    let gone = link_difference(before, after);
    lemma_changed_append(paths_in(before), changes(added, true), changes(gone, false));
    lemma_published(paths_in(before), added);
    lemma_withdrawn(paths_in(before).union(link_paths(added).to_set()), gone);
    lemma_difference_paths(after, before);
    lemma_difference_paths(before, after);
    assert(changed(paths_in(before), link_changes(before, after)) =~= paths_in(after));
}

/// A rollback leaves links at exactly the paths at which they stood before the
/// update.
pub proof fn law_rollback_restores_the_links(previous: GenerationView, failed: GenerationView)
    ensures
        changed(
            changed(paths_in(previous), link_changes(previous, failed)),
            link_changes(failed, previous),
        ) == paths_in(previous),
{
    law_changes_lead_to_the_other_generation(previous, failed);
    law_changes_lead_to_the_other_generation(failed, previous);
}

/// An installation whose phase is not active never passes.
pub proof fn law_only_active_installations_pass(r: RecordView, o: ActiveObservation)
    requires
        active_fault(r, o) is None,
    ensures
        r.phase == InstallPhase::Active,
        installed_link_fault(o.current_link@, generation_path(r.current.id)) is None,
{
}

/// Whether every probe is that of a directory that root owns with the mode of an
/// installation.
pub open spec fn all_directories(s: Seq<ProbeView>) -> bool {
    forall|i: int| 0 <= i < s.len() ==> installation_directory_fault(#[trigger] s[i], 0o755) is None
}

/// Whether every check passed.
pub open spec fn all_passed(s: Seq<Result<(), FaultView>>) -> bool {
    forall|i: int| 0 <= i < s.len() ==> (#[trigger] s[i]) is Ok
}

/// Whether every link leads where it should.
pub open spec fn all_lead(links: Seq<PublishedLinkView>, observed: Seq<LinkView>) -> bool {
    forall|i: int|
        0 <= i < links.len() ==> (#[trigger] observed[i]) == LinkView::Link(links[i].target)
}

proof fn lemma_all_directories(s: Seq<ProbeView>, n: int)
    requires
        0 <= n <= s.len(),
    ensures
        directories_fault(s, n) is None <==> forall|i: int|
            0 <= i < n ==> installation_directory_fault(#[trigger] s[i], 0o755) is None,
    decreases n,
{
    if n > 0 {
        lemma_all_directories(s, n - 1);
        if directories_fault(s, n) is None {
            assert forall|i: int| 0 <= i < n implies installation_directory_fault(
                #[trigger] s[i],
                0o755,
            ) is None by {
                if i < n - 1 {
                    assert(installation_directory_fault(s[i], 0o755) is None);
                }
            }
        }
    }
}

proof fn lemma_all_passed(s: Seq<Result<(), FaultView>>, n: int)
    requires
        0 <= n <= s.len(),
    ensures
        first_fault(s, n) is None <==> forall|i: int| 0 <= i < n ==> (#[trigger] s[i]) is Ok,
    decreases n,
{
    if n > 0 {
        lemma_all_passed(s, n - 1);
        if first_fault(s, n) is None {
            assert forall|i: int| 0 <= i < n implies (#[trigger] s[i]) is Ok by {
                if i < n - 1 {
                    assert(s[i] is Ok);
                }
            }
        }
    }
}

proof fn lemma_all_lead(links: Seq<PublishedLinkView>, observed: Seq<LinkView>, n: int)
    requires
        0 <= n <= links.len(),
    ensures
        links_fault(links, observed, n) is None <==> forall|i: int|
            0 <= i < n ==> (#[trigger] observed[i]) == LinkView::Link(links[i].target),
    decreases n,
{
    if n > 0 {
        lemma_all_lead(links, observed, n - 1);
        if links_fault(links, observed, n) is None {
            assert forall|i: int| 0 <= i < n implies (#[trigger] observed[i]) == LinkView::Link(
                links[i].target,
            ) by {
                if i < n - 1 {
                    assert(observed[i] == LinkView::Link(links[i].target));
                }
            }
        } else if forall|i: int|
            0 <= i < n ==> (#[trigger] observed[i]) == LinkView::Link(links[i].target) {
            assert(observed[n - 1] == LinkView::Link(links[n - 1].target));
        }
    }
}

/// Whether the files of a generation are what they should be.
pub open spec fn files_exact(f: GenerationFiles) -> bool {
    all_directories(views(f.directories@)) && all_passed(views(f.artifacts@)) && f.namespace@ is Ok
}

proof fn lemma_files_exact(f: GenerationFiles)
    ensures
        files_fault(f) is None <==> files_exact(f),
{
    lemma_all_directories(views(f.directories@), views(f.directories@).len() as int);
    lemma_all_passed(views(f.artifacts@), views(f.artifacts@).len() as int);
}

/// An installation passes exactly where everything about it is what its record says:
/// the record is active, the current link leads to its generation, every link to a
/// unit and every public link leads where it should, the directories are root's, and
/// the files of both generations are those of their manifests.
pub proof fn law_exact_installations_pass(r: RecordView, o: ActiveObservation)
    ensures
        active_fault(r, o) is None <==> {
            &&& r.phase is Active
            &&& o.current_link@ == LinkView::Link(generation_path(r.current.id))
            &&& all_directories(views(o.unit_directories@))
            &&& all_lead(unit_links(), views(o.unit_links@))
            &&& o.public_directories@ is Ok
            &&& files_exact(o.current_files)
            &&& o.previous_files is Some ==> files_exact(o.previous_files->0)
            &&& o.generation_root@ is Ok
            &&& installation_directory_fault(o.public_parent@, 0o755) is None
            &&& all_lead(links_of(r.current), views(o.public_links@))
        },
{
    lemma_all_directories(views(o.unit_directories@), views(o.unit_directories@).len() as int);
    lemma_all_lead(unit_links(), views(o.unit_links@), unit_links().len() as int);
    lemma_all_lead(links_of(r.current), views(o.public_links@), links_of(r.current).len() as int);
    lemma_files_exact(o.current_files);
    if o.previous_files is Some {
        lemma_files_exact(o.previous_files->0);
    }
}

} // verus!
