//! The order in which links are published and taken away: every path is seen to
//! be free before the first link of an installation is made, and the directories
//! are made durable behind the last.

use vstd::prelude::*;
use vstd::string::*;

use crate::digest::uuid_text;
use crate::generation::{manpage_names, public_paths};
use crate::integrity::{
    link_changes, public_link_changes, reverted_link_changes, LinkChange, LinkChangeView,
};
use crate::model::{Generation, GenerationView};
use crate::order::views;
use crate::publications::{
    all_public_links, current_link, declared_links, links_of, manpage_link,
    public_link_specs_for_generation, trailing_links,
};
use crate::text::copy;
use crate::units::{
    all_units, generation_path, unit_link_specs, unit_links, PublishedLink, PublishedLinkView,
};

verus! {

/// One step with links.
#[derive(Debug)]
pub enum LinkStep {
    /// The directory is root's, with the mode of public directories.
    ValidateDirectory(String),
    /// The public directories are those of the generation.
    EnsureDirectories,
    /// Nothing stands at the path; else the sentence is reported.
    RequireAbsent(String, String),
    /// A new link, where nothing stands.
    Publish(PublishedLink),
    /// The same, unless the link stands already.
    PublishExpected(PublishedLink),
    /// The link goes, where it stands.
    RemoveExpected(PublishedLink),
    /// The same, of a link to a unit.
    RemoveUnit(PublishedLink),
    /// The entries of the directory are made durable.
    Sync(String),
    /// The same, where the directory stands.
    SyncIfPresent(String),
}

/// One step with links over plain values.
pub enum LinkStepView {
    ValidateDirectory(Seq<char>),
    EnsureDirectories,
    RequireAbsent(Seq<char>, Seq<char>),
    Publish(PublishedLinkView),
    PublishExpected(PublishedLinkView),
    RemoveExpected(PublishedLinkView),
    RemoveUnit(PublishedLinkView),
    Sync(Seq<char>),
    SyncIfPresent(Seq<char>),
}

impl View for LinkStep {
    type V = LinkStepView;

    open spec fn view(&self) -> LinkStepView {
        match self {
            LinkStep::ValidateDirectory(p) => LinkStepView::ValidateDirectory(p@),
            LinkStep::EnsureDirectories => LinkStepView::EnsureDirectories,
            LinkStep::RequireAbsent(p, m) => LinkStepView::RequireAbsent(p@, m@),
            LinkStep::Publish(l) => LinkStepView::Publish(l@),
            LinkStep::PublishExpected(l) => LinkStepView::PublishExpected(l@),
            LinkStep::RemoveExpected(l) => LinkStepView::RemoveExpected(l@),
            LinkStep::RemoveUnit(l) => LinkStepView::RemoveUnit(l@),
            LinkStep::Sync(p) => LinkStepView::Sync(p@),
            LinkStep::SyncIfPresent(p) => LinkStepView::SyncIfPresent(p@),
        }
    }
}

fn add_link_step(v: &mut Vec<LinkStep>, step: LinkStep)
    ensures
        views(final(v)@) == views(old(v)@).push(step@),
{
    let ghost before = views(v@);
    v.push(step);
    proof {
        assert(views(v@) =~= before.push(step@));
    }
}

// ---------------------------------------------------------------------------
// Directories
// ---------------------------------------------------------------------------

/// The directories that links to units stand in.
pub open spec fn unit_directories() -> Seq<Seq<char>> {
    seq![
        "/etc/systemd/system"@,
        "/etc/systemd/system/multi-user.target.wants"@,
        "/etc/systemd/system/sockets.target.wants"@,
    ]
}

/// The directories that links to units stand in.
pub fn unit_directory_paths() -> (r: Vec<String>)
    ensures
        views(r@) == unit_directories(),
{
    let mut r: Vec<String> = Vec::new();
    r.push(copy("/etc/systemd/system"));
    r.push(copy("/etc/systemd/system/multi-user.target.wants"));
    r.push(copy("/etc/systemd/system/sockets.target.wants"));
    proof {
        assert(views(r@) =~= unit_directories());
    }
    r
}

/// The unit directories are held to their owner.
pub open spec fn unit_checks() -> Seq<LinkStepView> {
    Seq::new(3, |i: int| LinkStepView::ValidateDirectory(unit_directories()[i]))
}

/// The unit directories are made durable.
pub open spec fn unit_syncs() -> Seq<LinkStepView> {
    Seq::new(3, |i: int| LinkStepView::Sync(unit_directories()[i]))
}

/// The public directories are made durable; all but the documents' may be missing.
pub open spec fn public_syncs() -> Seq<LinkStepView> {
    seq![
        LinkStepView::SyncIfPresent("/usr/bin"@),
        LinkStepView::SyncIfPresent("/usr/share/man/man1"@),
        LinkStepView::SyncIfPresent("/usr/share/bash-completion/completions"@),
        LinkStepView::SyncIfPresent("/usr/share/fish/vendor_completions.d"@),
        LinkStepView::SyncIfPresent("/usr/share/zsh/site-functions"@),
        LinkStepView::Sync("/usr/share/doc"@),
    ]
}

fn check_unit_directories() -> (v: Vec<LinkStep>)
    ensures
        views(v@) == unit_checks(),
{
    let mut v: Vec<LinkStep> = Vec::new();
    v.push(LinkStep::ValidateDirectory(copy("/etc/systemd/system")));
    v.push(LinkStep::ValidateDirectory(copy("/etc/systemd/system/multi-user.target.wants")));
    v.push(LinkStep::ValidateDirectory(copy("/etc/systemd/system/sockets.target.wants")));
    proof {
        assert(views(v@) =~= unit_checks());
    }
    v
}

fn sync_unit_directories(v: &mut Vec<LinkStep>)
    ensures
        views(final(v)@) == views(old(v)@) + unit_syncs(),
{
    let ghost before = views(v@);
    add_link_step(v, LinkStep::Sync(copy("/etc/systemd/system")));
    add_link_step(v, LinkStep::Sync(copy("/etc/systemd/system/multi-user.target.wants")));
    add_link_step(v, LinkStep::Sync(copy("/etc/systemd/system/sockets.target.wants")));
    proof {
        assert(views(v@) =~= before + unit_syncs());
    }
}

fn sync_public_directories(v: &mut Vec<LinkStep>)
    ensures
        views(final(v)@) == views(old(v)@) + public_syncs(),
{
    let ghost before = views(v@);
    add_link_step(v, LinkStep::SyncIfPresent(copy("/usr/bin")));
    add_link_step(v, LinkStep::SyncIfPresent(copy("/usr/share/man/man1")));
    add_link_step(v, LinkStep::SyncIfPresent(copy("/usr/share/bash-completion/completions")));
    add_link_step(v, LinkStep::SyncIfPresent(copy("/usr/share/fish/vendor_completions.d")));
    add_link_step(v, LinkStep::SyncIfPresent(copy("/usr/share/zsh/site-functions")));
    add_link_step(v, LinkStep::Sync(copy("/usr/share/doc")));
    proof {
        assert(views(v@) =~= before + public_syncs());
    }
}

/// What comes before links of a generation are made: their parents are held to
/// their owner.
pub open spec fn public_checks() -> Seq<LinkStepView> {
    seq![LinkStepView::ValidateDirectory("/usr/bin"@), LinkStepView::EnsureDirectories]
}

fn check_public_directories() -> (v: Vec<LinkStep>)
    ensures
        views(v@) == public_checks(),
{
    let mut v: Vec<LinkStep> = Vec::new();
    v.push(LinkStep::ValidateDirectory(copy("/usr/bin")));
    v.push(LinkStep::EnsureDirectories);
    proof {
        assert(views(v@) =~= public_checks());
    }
    v
}

// ---------------------------------------------------------------------------
// Installation
// ---------------------------------------------------------------------------

/// Every path is seen to be free.
pub open spec fn absences(links: Seq<PublishedLinkView>, occupied: Seq<char>) -> Seq<LinkStepView> {
    Seq::new(links.len(), |i: int| LinkStepView::RequireAbsent(links[i].path, occupied))
}

/// Every link is made.
pub open spec fn publications(links: Seq<PublishedLinkView>) -> Seq<LinkStepView> {
    Seq::new(links.len(), |i: int| LinkStepView::Publish(links[i]))
}

fn add_new_links(v: &mut Vec<LinkStep>, links: &Vec<PublishedLink>, occupied: &str)
    ensures
        views(final(v)@) == views(old(v)@) + (absences(views(links@), occupied@) + publications(
            views(links@),
        )),
{
    let ghost before = views(v@);
    let ghost lv = views(links@);
    let mut i: usize = 0;
    proof {
        assert(before =~= before + absences(lv, occupied@).subrange(0, 0));
    }
    while i < links.len()
        invariant
            i <= links@.len(),
            lv == views(links@),
            views(v@) == before + absences(lv, occupied@).subrange(0, i as int),
        decreases links@.len() - i,
    {
        proof {
            assert(lv[i as int] == links@[i as int]@);
        }
        add_link_step(v, LinkStep::RequireAbsent(copy(links[i].path.as_str()), copy(occupied)));
        i += 1;
        proof {
            assert(views(v@) =~= before + absences(lv, occupied@).subrange(0, i as int));
        }
    }
    let ghost checked = before + absences(lv, occupied@);
    let mut j: usize = 0;
    proof {
        assert(views(v@) =~= checked + publications(lv).subrange(0, 0));
    }
    while j < links.len()
        invariant
            j <= links@.len(),
            lv == views(links@),
            views(v@) == checked + publications(lv).subrange(0, j as int),
        decreases links@.len() - j,
    {
        proof {
            assert(lv[j as int] == links@[j as int]@);
        }
        add_link_step(v, LinkStep::Publish(links[j].duplicate()));
        j += 1;
        proof {
            assert(views(v@) =~= checked + publications(lv).subrange(0, j as int));
        }
    }
    proof {
        assert(views(v@) =~= before + (absences(lv, occupied@) + publications(lv)));
    }
}

/// The links to the units are made.
pub open spec fn unit_installation() -> Seq<LinkStepView> {
    unit_checks() + (absences(
        unit_links(),
        "a transaction publication path is already occupied"@,
    ) + publications(unit_links())) + unit_syncs()
}

/// Publishes the links to the units.
pub fn install_unit_links() -> (v: Vec<LinkStep>)
    ensures
        views(v@) == unit_installation(),
{
    let mut v = check_unit_directories();
    let links = unit_link_specs();
    add_new_links(&mut v, &links, "a transaction publication path is already occupied");
    sync_unit_directories(&mut v);
    v
}

/// The links of a first generation are made.
pub open spec fn public_installation(g: GenerationView) -> Seq<LinkStepView> {
    public_checks() + (absences(links_of(g), "a public Remap installation path is occupied"@)
        + publications(links_of(g))) + public_syncs()
}

/// Publishes the links of a first generation.
pub fn install_public_links(g: &Generation) -> (v: Vec<LinkStep>)
    ensures
        views(v@) == public_installation(g@),
{
    let mut v = check_public_directories();
    let links = public_link_specs_for_generation(g);
    add_new_links(&mut v, &links, "a public Remap installation path is occupied");
    sync_public_directories(&mut v);
    v
}

/// The approved missing links are made.
pub open spec fn repairs(links: Seq<PublishedLinkView>) -> Seq<LinkStepView> {
    Seq::new(links.len(), |i: int| LinkStepView::PublishExpected(links[i])) + public_syncs()
}

/// Publishes links that were found missing and approved.
pub fn install_missing_public_links(links: &Vec<PublishedLink>) -> (v: Vec<LinkStep>)
    ensures
        views(v@) == repairs(views(links@)),
{
    let mut v: Vec<LinkStep> = Vec::new();
    let ghost lv = views(links@);
    let ghost all = Seq::new(lv.len(), |i: int| LinkStepView::PublishExpected(lv[i]));
    let mut i: usize = 0;
    proof {
        assert(views(v@) =~= all.subrange(0, 0));
    }
    while i < links.len()
        invariant
            i <= links@.len(),
            lv == views(links@),
            all == Seq::new(lv.len(), |i: int| LinkStepView::PublishExpected(lv[i])),
            views(v@) == all.subrange(0, i as int),
        decreases links@.len() - i,
    {
        proof {
            assert(lv[i as int] == links@[i as int]@);
        }
        add_link_step(&mut v, LinkStep::PublishExpected(links[i].duplicate()));
        i += 1;
        proof {
            assert(views(v@) =~= all.subrange(0, i as int));
        }
    }
    proof {
        assert(all.subrange(0, all.len() as int) =~= all);
    }
    sync_public_directories(&mut v);
    v
}

// ---------------------------------------------------------------------------
// Change
// ---------------------------------------------------------------------------

/// What a change of a link comes to.
pub open spec fn change_step(c: LinkChangeView) -> LinkStepView {
    if c.publish {
        LinkStepView::PublishExpected(c.link)
    } else {
        LinkStepView::RemoveExpected(c.link)
    }
}

/// The links are changed, in the order of the changes.
pub open spec fn changed_links(changes: Seq<LinkChangeView>) -> Seq<LinkStepView> {
    public_checks() + Seq::new(changes.len(), |i: int| change_step(changes[i])) + public_syncs()
}

fn change_links(changes: &Vec<LinkChange>) -> (v: Vec<LinkStep>)
    ensures
        views(v@) == changed_links(views(changes@)),
{
    let mut v = check_public_directories();
    let ghost cv = views(changes@);
    let ghost all = Seq::new(cv.len(), |i: int| change_step(cv[i]));
    let mut i: usize = 0;
    proof {
        assert(views(v@) =~= public_checks() + all.subrange(0, 0));
    }
    while i < changes.len()
        invariant
            i <= changes@.len(),
            cv == views(changes@),
            all == Seq::new(cv.len(), |i: int| change_step(cv[i])),
            views(v@) == public_checks() + all.subrange(0, i as int),
        decreases changes@.len() - i,
    {
        proof {
            assert(cv[i as int] == changes@[i as int]@);
        }
        let link = changes[i].link.duplicate();
        if changes[i].publish {
            add_link_step(&mut v, LinkStep::PublishExpected(link));
        } else {
            add_link_step(&mut v, LinkStep::RemoveExpected(link));
        }
        i += 1;
        proof {
            assert(views(v@) =~= public_checks() + all.subrange(0, i as int));
        }
    }
    proof {
        assert(all.subrange(0, all.len() as int) =~= all);
    }
    sync_public_directories(&mut v);
    v
}

/// Leads the public links from one generation to the next.
pub fn install_public_link_changes(previous: &Generation, current: &Generation) -> (v: Vec<
    LinkStep,
>)
    ensures
        views(v@) == changed_links(link_changes(previous@, current@)),
{
    change_links(&public_link_changes(previous, current))
}

/// Leads the public links back to the previous generation.
pub fn revert_public_link_changes(previous: &Generation, failed: &Generation) -> (v: Vec<LinkStep>)
    ensures
        views(v@) == changed_links(link_changes(failed@, previous@)),
{
    change_links(&reverted_link_changes(previous, failed))
}

// ---------------------------------------------------------------------------
// Removal
// ---------------------------------------------------------------------------

/// The links to the units go, the last one first.
pub open spec fn unit_removal() -> Seq<LinkStepView> {
    unit_checks() + Seq::new(10, |i: int| LinkStepView::RemoveUnit(unit_links()[9 - i]))
        + unit_syncs()
}

/// Takes the links to the units away.
pub fn remove_owned_unit_links() -> (v: Vec<LinkStep>)
    ensures
        views(v@) == unit_removal(),
{
    let mut v = check_unit_directories();
    let links = unit_link_specs();
    let ghost all = Seq::new(10, |i: int| LinkStepView::RemoveUnit(unit_links()[9 - i]));
    let mut left: usize = links.len();
    proof {
        assert(views(v@) =~= unit_checks() + all.subrange(0, 0));
    }
    while left > 0
        invariant
            left <= 10,
            links@.len() == 10,
            views(links@) == unit_links(),
            all == Seq::new(10, |i: int| LinkStepView::RemoveUnit(unit_links()[9 - i])),
            views(v@) == unit_checks() + all.subrange(0, 10 - left),
        decreases left,
    {
        left -= 1;
        proof {
            assert(views(links@)[left as int] == links@[left as int]@);
        }
        add_link_step(&mut v, LinkStep::RemoveUnit(links[left].duplicate()));
        proof {
            assert(views(v@) =~= unit_checks() + all.subrange(0, 10 - left));
        }
    }
    proof {
        assert(all.subrange(0, 10) =~= all);
    }
    sync_unit_directories(&mut v);
    v
}

/// The links of a generation go.
pub open spec fn public_removal(g: GenerationView) -> Seq<LinkStepView> {
    seq![LinkStepView::ValidateDirectory("/usr/bin"@)] + Seq::new(
        links_of(g).len(),
        |i: int| LinkStepView::RemoveExpected(links_of(g)[i]),
    ) + public_syncs()
}

/// Takes the links of a generation away.
pub fn remove_owned_public_links(g: &Generation) -> (v: Vec<LinkStep>)
    ensures
        views(v@) == public_removal(g@),
{
    let mut v: Vec<LinkStep> = Vec::new();
    v.push(LinkStep::ValidateDirectory(copy("/usr/bin")));
    let links = public_link_specs_for_generation(g);
    let ghost head = seq![LinkStepView::ValidateDirectory("/usr/bin"@)];
    let ghost lv = links_of(g@);
    let ghost all = Seq::new(lv.len(), |i: int| LinkStepView::RemoveExpected(lv[i]));
    let mut i: usize = 0;
    proof {
        assert(views(v@) =~= head + all.subrange(0, 0));
        assert(lv.len() == links@.len());
    }
    while i < links.len()
        invariant
            i <= links@.len(),
            lv == views(links@),
            all == Seq::new(lv.len(), |i: int| LinkStepView::RemoveExpected(lv[i])),
            views(v@) == head + all.subrange(0, i as int),
        decreases links@.len() - i,
    {
        proof {
            assert(lv[i as int] == links@[i as int]@);
        }
        add_link_step(&mut v, LinkStep::RemoveExpected(links[i].duplicate()));
        i += 1;
        proof {
            assert(views(v@) =~= head + all.subrange(0, i as int));
        }
    }
    proof {
        assert(all.subrange(0, all.len() as int) =~= all);
        assert(all =~= Seq::new(
            links_of(g@).len(),
            |i: int| LinkStepView::RemoveExpected(links_of(g@)[i]),
        ));
    }
    sync_public_directories(&mut v);
    v
}

// ---------------------------------------------------------------------------
// Laws
// ---------------------------------------------------------------------------

/// A plan makes a link only behind the check that its path is free, and no link
/// before the last of these checks.
pub open spec fn checks_first(s: Seq<LinkStepView>) -> bool {
    forall|i: int, j: int|
        0 <= i < s.len() && 0 <= j < s.len() && (#[trigger] s[i]) is Publish && (
        #[trigger] s[j]) is RequireAbsent ==> j < i
}

/// The path of every link that a plan makes is checked by it.
pub open spec fn checks_all(s: Seq<LinkStepView>) -> bool {
    forall|i: int|
        0 <= i < s.len() && (#[trigger] s[i]) is Publish ==> exists|j: int|
            0 <= j < i && (#[trigger] s[j]) is RequireAbsent && s[j]->RequireAbsent_0
                == s[i]->Publish_0.path
}

proof fn lemma_checks(
    head: Seq<LinkStepView>,
    links: Seq<PublishedLinkView>,
    occupied: Seq<char>,
    tail: Seq<LinkStepView>,
)
    requires
        forall|i: int|
            0 <= i < head.len() ==> !((#[trigger] head[i]) is Publish) && !(head[i] is RequireAbsent),
        forall|i: int|
            0 <= i < tail.len() ==> !((#[trigger] tail[i]) is Publish) && !(tail[i] is RequireAbsent),
    ensures
        checks_first(head + (absences(links, occupied) + publications(links)) + tail),
        checks_all(head + (absences(links, occupied) + publications(links)) + tail),
{
    let s = head + (absences(links, occupied) + publications(links)) + tail;
    let n = links.len() as int;
    let h = head.len() as int;
    assert forall|i: int| 0 <= i < s.len() && (#[trigger] s[i]) is Publish implies h + n <= i < h + 2
        * n && s[i] == LinkStepView::Publish(links[i - h - n]) by {
        if i < h {
            assert(s[i] == head[i]);
        } else if i < h + n {
            assert(s[i] == absences(links, occupied)[i - h]);
        } else if i >= h + 2 * n {
            assert(s[i] == tail[i - h - 2 * n]);
        } else {
            assert(s[i] == publications(links)[i - h - n]);
        }
    }
    assert forall|j: int| 0 <= j < s.len() && (#[trigger] s[j]) is RequireAbsent implies j < h + n by {
        if j >= h + 2 * n {
            assert(s[j] == tail[j - h - 2 * n]);
        } else if j >= h + n {
            assert(s[j] == publications(links)[j - h - n]);
        }
    }
    assert forall|i: int| 0 <= i < s.len() && (#[trigger] s[i]) is Publish implies exists|j: int|
        0 <= j < i && (#[trigger] s[j]) is RequireAbsent && s[j]->RequireAbsent_0
            == s[i]->Publish_0.path by {
        let j = i - n;
        assert(s[j] == absences(links, occupied)[j - h]);
        assert(s[j] is RequireAbsent && s[j]->RequireAbsent_0 == s[i]->Publish_0.path);
    }
}

/// A first installation replaces nothing: it makes no link before every path was
/// seen to be free, and none whose path was not.
pub proof fn law_installation_replaces_nothing(g: GenerationView)
    ensures
        checks_first(unit_installation()),
        checks_all(unit_installation()),
        checks_first(public_installation(g)),
        checks_all(public_installation(g)),
{
    lemma_checks(
        unit_checks(),
        unit_links(),
        "a transaction publication path is already occupied"@,
        unit_syncs(),
    );
    lemma_checks(
        public_checks(),
        links_of(g),
        "a public Remap installation path is occupied"@,
        public_syncs(),
    );
}

/// What is published is taken away again, and nothing else: the removals name
/// exactly the links that the installation makes.
pub proof fn law_removal_names_what_was_published(g: GenerationView, l: PublishedLinkView)
    ensures
        unit_installation().contains(LinkStepView::Publish(l)) <==> unit_removal().contains(
            LinkStepView::RemoveUnit(l),
        ),
        public_installation(g).contains(LinkStepView::Publish(l)) <==> public_removal(g).contains(
            LinkStepView::RemoveExpected(l),
        ),
{
    lemma_published(
        unit_checks(),
        unit_links(),
        "a transaction publication path is already occupied"@,
        unit_syncs(),
        l,
    );
    lemma_published(
        public_checks(),
        links_of(g),
        "a public Remap installation path is occupied"@,
        public_syncs(),
        l,
    );
    let removals = unit_removal();
    let step = LinkStepView::RemoveUnit(l);
    if unit_links().contains(l) {
        let k = choose|k: int| 0 <= k < 10 && unit_links()[k] == l;
        assert(removals[3 + (9 - k)] == step);
    }
    if removals.contains(step) {
        let i = choose|i: int| 0 <= i < removals.len() && removals[i] == step;
        assert(3 <= i < 13);
        assert(unit_links()[9 - (i - 3)] == l);
    }
    let removals = public_removal(g);
    let step = LinkStepView::RemoveExpected(l);
    let n = links_of(g).len() as int;
    if links_of(g).contains(l) {
        let k = choose|k: int| 0 <= k < n && links_of(g)[k] == l;
        assert(removals[1 + k] == step);
    }
    if removals.contains(step) {
        let i = choose|i: int| 0 <= i < removals.len() && removals[i] == step;
        assert(1 <= i < 1 + n);
        assert(links_of(g)[i - 1] == l);
    }
}

proof fn lemma_published(
    head: Seq<LinkStepView>,
    links: Seq<PublishedLinkView>,
    occupied: Seq<char>,
    tail: Seq<LinkStepView>,
    l: PublishedLinkView,
)
    requires
        forall|i: int|
            0 <= i < head.len() ==> !((#[trigger] head[i]) is Publish) && !(head[i] is RequireAbsent),
        forall|i: int|
            0 <= i < tail.len() ==> !((#[trigger] tail[i]) is Publish) && !(tail[i] is RequireAbsent),
    ensures
        (head + (absences(links, occupied) + publications(links)) + tail).contains(
            LinkStepView::Publish(l),
        ) <==> links.contains(l),
{
    let s = head + (absences(links, occupied) + publications(links)) + tail;
    let n = links.len() as int;
    let h = head.len() as int;
    let step = LinkStepView::Publish(l);
    if links.contains(l) {
        let k = choose|k: int| 0 <= k < n && links[k] == l;
        assert(s[h + n + k] == publications(links)[k]);
        assert(s[h + n + k] == step);
    }
    if s.contains(step) {
        let i = choose|i: int| 0 <= i < s.len() && s[i] == step;
        if i < h {
            assert(s[i] == head[i]);
        } else if i < h + n {
            assert(s[i] == absences(links, occupied)[i - h]);
        } else if i >= h + 2 * n {
            assert(s[i] == tail[i - h - 2 * n]);
        } else {
            assert(s[i] == publications(links)[i - h - n]);
            assert(links[i - h - n] == l);
        }
    }
}

/// A path lies with the system's programs or its configuration, and so not with
/// the mappings, which are kept below `/var`.
pub open spec fn with_the_product(path: Seq<char>) -> bool {
    path.len() >= 5 && (path.subrange(0, 5) == "/usr/"@ || path.subrange(0, 5) == "/etc/"@)
}

proof fn lemma_under_usr(prefix: Seq<char>, rest: Seq<char>)
    requires
        prefix.len() >= 5,
        prefix[0] == '/',
        prefix[1] == 'u',
        prefix[2] == 's',
        prefix[3] == 'r',
        prefix[4] == '/',
    ensures
        with_the_product(prefix),
        with_the_product(prefix + rest),
{
    reveal_strlit("/usr/");
    assert(prefix.subrange(0, 5) =~= "/usr/"@);
    assert((prefix + rest).subrange(0, 5) =~= "/usr/"@);
}

proof fn lemma_under_etc(prefix: Seq<char>, rest: Seq<char>)
    requires
        prefix.len() >= 5,
        prefix[0] == '/',
        prefix[1] == 'e',
        prefix[2] == 't',
        prefix[3] == 'c',
        prefix[4] == '/',
    ensures
        with_the_product(prefix + rest),
{
    reveal_strlit("/etc/");
    assert((prefix + rest).subrange(0, 5) =~= "/etc/"@);
}

proof fn lemma_public_paths(k: int)
    requires
        0 <= k < 28,
    ensures
        with_the_product(all_public_links()[k].path),
{
    reveal_strlit("/usr/bin/remap");
    reveal_strlit("/usr/share/man/man1/");
    reveal_strlit("/usr/share/bash-completion/completions/remap");
    reveal_strlit("/usr/share/fish/vendor_completions.d/remap.fish");
    reveal_strlit("/usr/share/zsh/site-functions/_remap");
    reveal_strlit("/usr/share/doc/remap/LICENSE");
    reveal_strlit("/usr/share/doc/remap/NOTICE");
    let none = Seq::<char>::empty();
    if k == 0 {
        lemma_under_usr("/usr/bin/remap"@, none);
    } else if k < 23 {
        lemma_under_usr("/usr/share/man/man1/"@, manpage_names()[k - 1]);
        assert(all_public_links()[k] == manpage_link(manpage_names()[k - 1]));
    } else {
        assert(all_public_links()[k] == trailing_links()[k - 23]);
        lemma_under_usr("/usr/share/bash-completion/completions/remap"@, none);
        lemma_under_usr("/usr/share/fish/vendor_completions.d/remap.fish"@, none);
        lemma_under_usr("/usr/share/zsh/site-functions/_remap"@, none);
        lemma_under_usr("/usr/share/doc/remap/LICENSE"@, none);
        lemma_under_usr("/usr/share/doc/remap/NOTICE"@, none);
    }
}

proof fn lemma_declared_paths(g: GenerationView, n: int, i: int)
    requires
        0 <= n <= 28,
        0 <= i < declared_links(g, n).len(),
    ensures
        with_the_product(declared_links(g, n)[i].path),
    decreases n,
{
    if n > 0 {
        if i < declared_links(g, n - 1).len() {
            lemma_declared_paths(g, n - 1, i);
        } else {
            lemma_public_paths(n - 1);
        }
    }
}

/// The mappings stay: no link that is published or taken away, and no directory
/// of a generation, lies where they are kept.
pub proof fn law_mappings_are_left_alone(g: GenerationView, id: u128, i: int)
    ensures
        0 <= i < unit_links().len() ==> with_the_product(unit_links()[i].path),
        0 <= i < links_of(g).len() ==> with_the_product(links_of(g)[i].path),
        0 <= i < public_paths().len() ==> with_the_product(public_paths()[i]),
        with_the_product(current_link()),
        with_the_product(generation_path(id)),
        !with_the_product("/var/lib/remap"@),
{
    let none = Seq::<char>::empty();
    reveal_strlit("/etc/systemd/system/");
    reveal_strlit("/etc/systemd/system/sockets.target.wants/");
    reveal_strlit("/etc/systemd/system/multi-user.target.wants/");
    if 0 <= i < unit_links().len() {
        let unit = all_units()[if i < 5 {
            i
        } else {
            i - 5
        }];
        lemma_under_etc("/etc/systemd/system/"@, unit);
        lemma_under_etc("/etc/systemd/system/sockets.target.wants/"@, unit);
        lemma_under_etc("/etc/systemd/system/multi-user.target.wants/"@, unit);
    }
    if 0 <= i < links_of(g).len() {
        lemma_declared_paths(g, 28, i);
    }
    reveal_strlit("/usr/share/bash-completion");
    reveal_strlit("/usr/share/bash-completion/completions");
    reveal_strlit("/usr/share/doc");
    reveal_strlit("/usr/share/doc/remap");
    reveal_strlit("/usr/share/fish");
    reveal_strlit("/usr/share/fish/vendor_completions.d");
    reveal_strlit("/usr/share/man");
    reveal_strlit("/usr/share/man/man1");
    reveal_strlit("/usr/share/zsh");
    reveal_strlit("/usr/share/zsh/site-functions");
    if 0 <= i < public_paths().len() {
        lemma_under_usr(public_paths()[i], none);
    }
    reveal_strlit("/usr/libexec/remap/current");
    lemma_under_usr(current_link(), none);
    reveal_strlit("/usr/libexec/remap/generations/");
    lemma_under_usr("/usr/libexec/remap/generations/"@, uuid_text(id));
    reveal_strlit("/var/lib/remap");
    reveal_strlit("/usr/");
    reveal_strlit("/etc/");
    assert("/var/lib/remap"@.subrange(0, 5)[1] == 'v');
}

/// An installation makes every link that belongs to it and no other, whatever stands
/// before and behind; a repair makes exactly those that were approved; a change makes
/// and takes away exactly what differs; and a removal takes every link away.
pub proof fn law_every_link_is_dealt_with(
    g: GenerationView,
    previous: GenerationView,
    approved: Seq<PublishedLinkView>,
    l: PublishedLinkView,
)
    ensures
        unit_installation().contains(LinkStepView::Publish(l)) <==> unit_links().contains(l),
        public_installation(g).contains(LinkStepView::Publish(l)) <==> links_of(g).contains(l),
        repairs(approved).contains(LinkStepView::PublishExpected(l)) <==> approved.contains(l),
        changed_links(link_changes(previous, g)).contains(LinkStepView::PublishExpected(l))
            <==> link_changes(previous, g).contains(LinkChangeView { link: l, publish: true }),
        changed_links(link_changes(previous, g)).contains(LinkStepView::RemoveExpected(l))
            <==> link_changes(previous, g).contains(LinkChangeView { link: l, publish: false }),
{
    lemma_published(
        unit_checks(),
        unit_links(),
        "a transaction publication path is already occupied"@,
        unit_syncs(),
        l,
    );
    lemma_published(
        public_checks(),
        links_of(g),
        "a public Remap installation path is occupied"@,
        public_syncs(),
        l,
    );
    let repaired = repairs(approved);
    let made = LinkStepView::PublishExpected(l);
    if approved.contains(l) {
        let k = choose|k: int| 0 <= k < approved.len() && approved[k] == l;
        assert(repaired[k] == made);
    }
    if repaired.contains(made) {
        let k = choose|k: int| 0 <= k < repaired.len() && repaired[k] == made;
        assert(k < approved.len());
        assert(approved[k] == l);
    }
    let changes = link_changes(previous, g);
    let steps = changed_links(changes);
    let n = changes.len() as int;
    assert forall|publish: bool|
        steps.contains(
            #[trigger] change_step(LinkChangeView { link: l, publish }),
        ) <==> changes.contains(LinkChangeView { link: l, publish }) by {
        let c = LinkChangeView { link: l, publish };
        if changes.contains(c) {
            let k = choose|k: int| 0 <= k < n && changes[k] == c;
            assert(steps[2 + k] == change_step(c));
        }
        if steps.contains(change_step(c)) {
            let k = choose|k: int| 0 <= k < steps.len() && steps[k] == change_step(c);
            assert(2 <= k < 2 + n);
            assert(changes[k - 2] == c);
        }
    }
    assert(change_step(LinkChangeView { link: l, publish: true }) == made);
    assert(change_step(LinkChangeView { link: l, publish: false }) == LinkStepView::RemoveExpected(
        l,
    ));
}

/// Each unit has a link to its definition in the current generation, and one by which
/// its target wants it: the sockets' or that of all services.
pub proof fn law_every_unit_is_linked(k: int)
    requires
        0 <= k < 5,
    ensures
        ({
            let unit = all_units()[k];
            let target = if k < 3 {
                "/etc/systemd/system/sockets.target.wants/"@
            } else {
                "/etc/systemd/system/multi-user.target.wants/"@
            };
            &&& unit_links().contains(
                PublishedLinkView {
                    path: "/etc/systemd/system/"@ + unit,
                    target: "/usr/libexec/remap/current/units/"@ + unit,
                },
            )
            &&& unit_links().contains(
                PublishedLinkView { path: target + unit, target: "/etc/systemd/system/"@ + unit },
            )
            &&& unit_links().len() == 10
        }),
{
    let unit = all_units()[k];
    assert(unit_links()[k] == crate::units::definition_link(unit));
    assert(unit_links()[k + 5] == crate::units::wants_link(unit));
    reveal_strlit(".socket");
    reveal_strlit("remapd-dns-udp.socket");
    reveal_strlit("remapd-dns-tcp.socket");
    reveal_strlit("remapd-http.socket");
    reveal_strlit("remapd.service");
    reveal_strlit("remap-resolver.service");
    assert(crate::units::is_socket_unit(unit) == (k < 3)) by {
        let e = ".socket"@;
        let n = unit.len() as int;
        if k < 3 {
            assert(unit.subrange(n - e.len(), n) =~= e);
        } else {
            assert(unit.last() == 'e' && e.last() == 't');
            assert(unit.subrange(n - e.len(), n)[e.len() - 1] == unit[n - 1]);
        }
    }
}

/// Links are made durable behind the last one: every directory that they stand in is,
/// and nothing is published or taken away behind that.
pub proof fn law_links_are_made_durable(g: GenerationView, approved: Seq<PublishedLinkView>)
    ensures
        ({
            let units = seq![
                LinkStepView::Sync("/etc/systemd/system"@),
                LinkStepView::Sync("/etc/systemd/system/multi-user.target.wants"@),
                LinkStepView::Sync("/etc/systemd/system/sockets.target.wants"@),
            ];
            let public = seq![
                LinkStepView::SyncIfPresent("/usr/bin"@),
                LinkStepView::SyncIfPresent("/usr/share/man/man1"@),
                LinkStepView::SyncIfPresent("/usr/share/bash-completion/completions"@),
                LinkStepView::SyncIfPresent("/usr/share/fish/vendor_completions.d"@),
                LinkStepView::SyncIfPresent("/usr/share/zsh/site-functions"@),
                LinkStepView::Sync("/usr/share/doc"@),
            ];
            &&& ends_in(unit_installation(), units)
            &&& ends_in(unit_removal(), units)
            &&& ends_in(public_installation(g), public)
            &&& ends_in(public_removal(g), public)
            &&& ends_in(repairs(approved), public)
        }),
{
    let units = seq![
        LinkStepView::Sync("/etc/systemd/system"@),
        LinkStepView::Sync("/etc/systemd/system/multi-user.target.wants"@),
        LinkStepView::Sync("/etc/systemd/system/sockets.target.wants"@),
    ];
    let public = public_syncs();
    assert(unit_syncs() =~= units);
    lemma_ends_in(
        unit_checks() + (absences(
            unit_links(),
            "a transaction publication path is already occupied"@,
        ) + publications(unit_links())),
        units,
    );
    lemma_ends_in(
        unit_checks() + Seq::new(10, |i: int| LinkStepView::RemoveUnit(unit_links()[9 - i])),
        units,
    );
    lemma_ends_in(
        public_checks() + (absences(links_of(g), "a public Remap installation path is occupied"@)
            + publications(links_of(g))),
        public,
    );
    lemma_ends_in(
        seq![LinkStepView::ValidateDirectory("/usr/bin"@)] + Seq::new(
            links_of(g).len(),
            |i: int| LinkStepView::RemoveExpected(links_of(g)[i]),
        ),
        public,
    );
    lemma_ends_in(
        Seq::new(approved.len(), |i: int| LinkStepView::PublishExpected(approved[i])),
        public,
    );
}

/// Whether some steps end with others.
pub open spec fn ends_in(s: Seq<LinkStepView>, end: Seq<LinkStepView>) -> bool {
    s.len() >= end.len() && s.subrange(s.len() - end.len(), s.len() as int) == end
}

proof fn lemma_ends_in(s: Seq<LinkStepView>, end: Seq<LinkStepView>)
    ensures
        ends_in(s + end, end),
{
    let all = s + end;
    assert(all.subrange(all.len() - end.len(), all.len() as int) =~= end);
}

} // verus!
