//! The effects that a lifecycle plan announces.

use vstd::prelude::*;
use vstd::string::*;

use crate::bootstrap::{BootstrapResidue, BootstrapResidueView};
use crate::cleanup::needs_quiescence;
use crate::digest::{identity_text, uuid_text};
use crate::labels::{phase, phase_name, rollback_name, rollback_step, uninstall_name, uninstall_step};
use crate::model::{
    copy_option, option_record, option_text, DirectoryProvenance, Generation, GenerationView,
    InstallPhase, InstallRecord, PublicDirectoryView, RecordView,
};
use crate::order::{extend_texts, law_sorted, push_text, sort, sorted, views, SortKey};
use crate::paths::{component_count, components, sort_paths, PathText};
use crate::publications::{
    all_publication_paths, current_link, link_difference, public_link_additions,
    public_link_removals, publication_paths,
};
use crate::recovery::{active_runtime_broken, active_runtime_requires_recovery};
use crate::snapshot::{SnapshotView, StateSnapshot};
use crate::text::{concat, concat3, copy, decimal, number_text, same};
use crate::units::{PublishedLink, PublishedLinkView};

verus! {

/// What a plan is to do.
#[derive(Debug, Clone, Copy, PartialEq, Eq, Structural)]
pub enum Operation {
    Install,
    Update,
    Uninstall,
    Recover,
}

/// The name of an operation.
pub open spec fn operation_name(o: Operation) -> Seq<char> {
    match o {
        Operation::Install => "install"@,
        Operation::Update => "update"@,
        Operation::Uninstall => "uninstall"@,
        Operation::Recover => "recover"@,
    }
}

impl Operation {
    /// The name of the operation.
    pub fn as_str(self) -> (s: &'static str)
        ensures
            s@ == operation_name(self),
    {
        match self {
            Operation::Install => "install",
            Operation::Update => "update",
            Operation::Uninstall => "uninstall",
            Operation::Recover => "recover",
        }
    }
}

/// What happens to the running units.
pub open spec fn runtime_sentence(o: Operation) -> Seq<char> {
    match o {
        Operation::Install => {
            "publish and start three socket units, remapd, and the resolver supervisor"@
        },
        Operation::Update => {
            "quiesce the owned runtime, stop and reserve three listeners, then start the updated socket units, remapd, and resolver supervisor"@
        },
        Operation::Uninstall | Operation::Recover => {
            "reject an invalid install lifecycle effect operation"@
        },
    }
}

/// What happens to the running units.
pub fn runtime_effect(o: Operation) -> (s: &'static str)
    ensures
        s@ == runtime_sentence(o),
{
    match o {
        Operation::Install => {
            "publish and start three socket units, remapd, and the resolver supervisor"
        },
        Operation::Update => {
            "quiesce the owned runtime, stop and reserve three listeners, then start the updated socket units, remapd, and resolver supervisor"
        },
        Operation::Uninstall | Operation::Recover => {
            "reject an invalid install lifecycle effect operation"
        },
    }
}

// ---------------------------------------------------------------------------
// Sentences over paths
// ---------------------------------------------------------------------------

/// Each text behind the same words.
pub open spec fn prefixed(words: Seq<char>, s: Seq<Seq<char>>) -> Seq<Seq<char>> {
    Seq::new(s.len(), |i: int| words + s[i])
}

fn prefix_all(words: &str, v: &Vec<String>) -> (r: Vec<String>)
    ensures
        views(r@) == prefixed(words@, views(v@)),
{
    let ghost all = prefixed(words@, views(v@));
    let mut r: Vec<String> = Vec::new();
    let mut i: usize = 0;
    proof {
        assert(views(r@) =~= all.subrange(0, 0));
    }
    while i < v.len()
        invariant
            i <= v@.len(),
            all == prefixed(words@, views(v@)),
            views(r@) == all.subrange(0, i as int),
        decreases v@.len() - i,
    {
        push_text(&mut r, concat(words, v[i].as_str()));
        proof {
            assert(all[i as int] == words@ + v@[i as int]@);
            assert(all.subrange(0, i as int + 1) =~= all.subrange(0, i as int).push(
                all[i as int],
            ));
        }
        i += 1;
    }
    proof {
        assert(all.subrange(0, i as int) =~= all);
    }
    r
}

/// An ordering by depth with one more path behind all that are not deeper.
pub open spec fn insert_shallow(s: Seq<Seq<char>>, x: Seq<char>) -> Seq<Seq<char>>
    decreases s.len(),
{
    if s.len() > 0 && component_count(x) < component_count(s.last()) {
        insert_shallow(s.drop_last(), x).push(s.last())
    } else {
        s.push(x)
    }
}

/// The stable order of paths by their depth.
pub open spec fn shallow_first(s: Seq<Seq<char>>) -> Seq<Seq<char>>
    decreases s.len(),
{
    if s.len() == 0 {
        Seq::empty()
    } else {
        insert_shallow(shallow_first(s.drop_last()), s.last())
    }
}

proof fn lemma_insert_shallow(s: Seq<Seq<char>>, x: Seq<char>, k: int)
    requires
        0 <= k <= s.len(),
        k > 0 ==> component_count(x) >= component_count(s[k - 1]),
        forall|i: int| k <= i < s.len() ==> component_count(x) < component_count(#[trigger] s[i]),
    ensures
        insert_shallow(s, x) == s.insert(k, x),
    decreases s.len(),
{
    if k < s.len() {
        let t = s.drop_last();
        assert(s.last() == s[s.len() - 1]);
        assert forall|i: int| k <= i < t.len() implies component_count(x) < component_count(
            #[trigger] t[i],
        ) by {
            assert(t[i] == s[i]);
        }
        lemma_insert_shallow(t, x, k);
        assert(t.insert(k, x).push(s.last()) =~= s.insert(k, x));
    } else {
        if s.len() > 0 {
            assert(s.last() == s[k - 1]);
        }
        assert(s.insert(k, x) =~= s.push(x));
    }
}

fn order_by_depth(v: Vec<String>) -> (r: Vec<String>)
    ensures
        views(r@) == shallow_first(views(v@)),
{
    let ghost vv = views(v@);
    let mut r: Vec<String> = Vec::new();
    let mut i: usize = 0;
    proof {
        assert(vv.subrange(0, 0) =~= Seq::<Seq<char>>::empty());
        assert(views(r@) =~= Seq::<Seq<char>>::empty());
    }
    while i < v.len()
        invariant
            i <= v@.len(),
            vv == views(v@),
            views(r@) == shallow_first(vv.subrange(0, i as int)),
        decreases v@.len() - i,
    {
        let x = copy(v[i].as_str());
        let depth: usize = components(x.as_str());
        let ghost rv = views(r@);
        let mut k: usize = r.len();
        while k > 0 && depth < components(r[k - 1].as_str())
            invariant
                k <= r@.len(),
                rv == views(r@),
                depth == component_count(x@),
                forall|j: int|
                    k <= j < rv.len() ==> component_count(x@) < component_count(#[trigger] rv[j]),
            decreases k,
        {
            proof {
                assert(rv[k - 1] == r@[k - 1]@);
            }
            k -= 1;
        }
        proof {
            if k > 0 {
                assert(rv[k - 1] == r@[k - 1]@);
            }
            lemma_insert_shallow(rv, x@, k as int);
            let upto = vv.subrange(0, i as int + 1);
            assert(upto.drop_last() =~= vv.subrange(0, i as int));
            assert(upto.last() == v@[i as int]@);
        }
        let ghost xv = x@;
        r.insert(k, x);
        proof {
            assert(views(r@) =~= rv.insert(k as int, xv));
        }
        i += 1;
    }
    proof {
        assert(vv.subrange(0, i as int) =~= vv);
    }
    r
}

/// The directories among the first `n` that the product creates.
pub open spec fn created_paths(d: Seq<PublicDirectoryView>, n: int) -> Seq<Seq<char>>
    decreases n,
{
    if n <= 0 {
        Seq::empty()
    } else if d[n - 1].provenance == DirectoryProvenance::CreatedByRemap {
        created_paths(d, n - 1).push(d[n - 1].path)
    } else {
        created_paths(d, n - 1)
    }
}

/// The directories that a generation creates, in the order in which it lists them.
pub open spec fn created_of(g: GenerationView) -> Seq<Seq<char>> {
    created_paths(g.public_directories, g.public_directories.len() as int)
}

fn created(g: &Generation) -> (r: Vec<String>)
    ensures
        views(r@) == created_of(g@),
{
    let ghost dv = g@.public_directories;
    let d = &g.public_directories;
    let mut r: Vec<String> = Vec::new();
    let mut i: usize = 0;
    proof {
        assert(views(r@) =~= Seq::<Seq<char>>::empty());
    }
    while i < d.len()
        invariant
            i <= d@.len(),
            dv == crate::model::directory_views(d@),
            views(r@) == created_paths(dv, i as int),
        decreases d@.len() - i,
    {
        proof {
            assert(dv[i as int] == d@[i as int]@);
        }
        if d[i].provenance == DirectoryProvenance::CreatedByRemap {
            push_text(&mut r, copy(d[i].path.as_str()));
        }
        i += 1;
    }
    r
}

// ---------------------------------------------------------------------------
// Installation, update, uninstallation
// ---------------------------------------------------------------------------

/// The effects of an installation or an update.
pub open spec fn install_sentences(
    o: Operation,
    g: GenerationView,
    previous: Option<RecordView>,
    publications: nat,
) -> Seq<Seq<char>> {
    let always = seq![
        "stage "@ + decimal(g.artifacts.len()) + " immutable root-owned artifacts"@,
        operation_name(o) + " "@ + decimal(publications) + " owned publication paths"@,
        runtime_sentence(o),
        "activate resolver link "@ + decimal(g.link as nat) + " with exact reversible state"@,
        "publish a root-authenticated private upstream plan to remapd"@,
    ];
    let directories = if o == Operation::Install {
        prefixed("create owned public directory "@, shallow_first(sorted::<PathText>(created_of(g))))
    } else {
        Seq::empty()
    };
    let pruned = if previous is Some && previous->0.previous is Some {
        seq!["prune the oldest verified immutable generation"@]
    } else {
        Seq::empty()
    };
    always + directories + pruned
}

fn counted(before: &str, n: u64, after: &str) -> (s: String)
    ensures
        s@ == before@ + decimal(n as nat) + after@,
{
    concat3(before, number_text(n).as_str(), after)
}

/// The effects of an installation or an update.
pub fn install(
    operation: Operation,
    generation: &Generation,
    previous: &Option<InstallRecord>,
    publication_count: usize,
) -> (r: Vec<String>)
    ensures
        views(r@) == install_sentences(
            operation,
            generation@,
            option_record(*previous),
            publication_count as nat,
        ),
{
    let mut r: Vec<String> = Vec::new();
    proof {
        assert(generation@.artifacts.len() == generation.artifacts@.len());
        assert(views(r@) =~= Seq::<Seq<char>>::empty());
    }
    push_text(
        &mut r,
        counted("stage ", generation.artifacts.len() as u64, " immutable root-owned artifacts"),
    );
    let verb = concat(operation.as_str(), " ");
    push_text(
        &mut r,
        counted(verb.as_str(), publication_count as u64, " owned publication paths"),
    );
    push_text(&mut r, copy(runtime_effect(operation)));
    push_text(
        &mut r,
        counted("activate resolver link ", generation.link as u64, " with exact reversible state"),
    );
    push_text(&mut r, copy("publish a root-authenticated private upstream plan to remapd"));
    let ghost always = views(r@);
    proof {
        assert(always =~= seq![
            "stage "@ + decimal(generation@.artifacts.len()) + " immutable root-owned artifacts"@,
            operation_name(operation) + " "@ + decimal(publication_count as nat)
                + " owned publication paths"@,
            runtime_sentence(operation),
            "activate resolver link "@ + decimal(generation@.link as nat)
                + " with exact reversible state"@,
            "publish a root-authenticated private upstream plan to remapd"@,
        ]);
        assert(always + Seq::<Seq<char>>::empty() =~= always);
    }
    if operation == Operation::Install {
        let directories = order_by_depth(sort_paths(created(generation)));
        extend_texts(&mut r, prefix_all("create owned public directory ", &directories));
    }
    let ghost so_far = views(r@);
    proof {
        assert(so_far + Seq::<Seq<char>>::empty() =~= so_far);
    }
    let prunes = match previous {
        Some(record) => match record.previous {
            Some(_) => true,
            None => false,
        },
        None => false,
    };
    if prunes {
        push_text(&mut r, copy("prune the oldest verified immutable generation"));
        proof {
            assert(views(r@) =~= so_far + seq!["prune the oldest verified immutable generation"@]);
        }
    }
    r
}

/// The effects of an uninstallation.
pub open spec fn uninstall_sentences(
    r: RecordView,
    publications: nat,
    removable: Seq<Seq<char>>,
) -> Seq<Seq<char>> {
    seq![
        "restore exact prior resolver state for link "@ + decimal(r.current.link as nat),
        "stop the owned runtime and remove five unit definitions and five target-wants links"@,
        "remove "@ + decimal(publications) + " exact owned publication paths"@,
        "remove "@ + decimal(
            if r.previous is Some {
                2
            } else {
                1
            },
        ) + " verified immutable generations"@,
        "remove empty root-owned Remap state directories"@,
    ] + prefixed("remove owned public directory "@, removable)
}

/// The effects of an uninstallation, where the given directories can go.
pub fn uninstall(record: &InstallRecord, publication_count: usize, removable: &Vec<String>) -> (r: Vec<
    String,
>)
    ensures
        views(r@) == uninstall_sentences(record@, publication_count as nat, views(removable@)),
{
    let generations: u64 = match record.previous {
        Some(_) => 2,
        None => 1,
    };
    let mut r: Vec<String> = Vec::new();
    proof {
        assert(views(r@) =~= Seq::<Seq<char>>::empty());
    }
    push_text(
        &mut r,
        concat(
            "restore exact prior resolver state for link ",
            number_text(record.current.link as u64).as_str(),
        ),
    );
    push_text(
        &mut r,
        copy("stop the owned runtime and remove five unit definitions and five target-wants links"),
    );
    push_text(
        &mut r,
        counted("remove ", publication_count as u64, " exact owned publication paths"),
    );
    push_text(&mut r, counted("remove ", generations, " verified immutable generations"));
    push_text(&mut r, copy("remove empty root-owned Remap state directories"));
    extend_texts(&mut r, prefix_all("remove owned public directory ", removable));
    proof {
        assert(views(r@) =~= uninstall_sentences(
            record@,
            publication_count as nat,
            views(removable@),
        ));
    }
    r
}

// ---------------------------------------------------------------------------
// Recovery
// ---------------------------------------------------------------------------

/// What recovery does about an interrupted transaction.
pub open spec fn transaction_sentences(record: Option<RecordView>, s: SnapshotView) -> Seq<
    Seq<char>,
> {
    match record {
        None => if s.activation_phase is Some {
            seq![
                "restore orphaned exact prior resolver state"@,
                "remove the verified orphaned activation record"@,
            ]
        } else {
            Seq::empty()
        },
        Some(r) => match r.phase {
            InstallPhase::Staging | InstallPhase::Staged | InstallPhase::Published => seq![
                "roll back interrupted "@ + phase_name(r.phase) + " generation "@ + uuid_text(
                    r.current.id,
                ),
            ],
            InstallPhase::RollingBack(step) => seq![
                "resume verified rollback at next effect "@ + rollback_name(step),
            ],
            InstallPhase::Pruning => seq![
                "finish pruning and activate accepted generation "@ + uuid_text(r.current.id),
            ],
            InstallPhase::Uninstalling(step) => seq![
                "resume verified uninstall at next effect "@ + uninstall_name(step),
            ],
            InstallPhase::Active => if active_runtime_broken(s) {
                seq![
                    "recover exact resolver ownership for link "@ + decimal(r.current.link as nat),
                    "restart and verify only the owned daemon, socket, and resolver units"@,
                ]
            } else {
                Seq::empty()
            },
        },
    }
}

fn one(s: String) -> (r: Vec<String>)
    ensures
        views(r@) == seq![s@],
{
    let mut r: Vec<String> = Vec::new();
    r.push(s);
    proof {
        assert(views(r@) =~= seq![s@]);
    }
    r
}

fn two(a: String, b: String) -> (r: Vec<String>)
    ensures
        views(r@) == seq![a@, b@],
{
    let mut r: Vec<String> = Vec::new();
    r.push(a);
    r.push(b);
    proof {
        assert(views(r@) =~= seq![a@, b@]);
    }
    r
}

fn nothing() -> (r: Vec<String>)
    ensures
        views(r@) == Seq::<Seq<char>>::empty(),
{
    let r: Vec<String> = Vec::new();
    proof {
        assert(views(r@) =~= Seq::<Seq<char>>::empty());
    }
    r
}

/// What recovery does about an interrupted transaction.
pub fn transaction_recovery(record: &Option<InstallRecord>, s: &StateSnapshot) -> (r: Vec<String>)
    ensures
        views(r@) == transaction_sentences(option_record(*record), s@),
{
    let value = match record {
        None => {
            return match s.activation_phase {
                Some(_) => two(
                    copy("restore orphaned exact prior resolver state"),
                    copy("remove the verified orphaned activation record"),
                ),
                None => nothing(),
            };
        },
        Some(value) => value,
    };
    match value.phase {
        InstallPhase::Staging | InstallPhase::Staged | InstallPhase::Published => {
            let begun = concat3("roll back interrupted ", phase(value.phase), " generation ");
            one(concat(begun.as_str(), identity_text(value.current.id).as_str()))
        },
        InstallPhase::RollingBack(step) => one(
            concat("resume verified rollback at next effect ", rollback_step(step)),
        ),
        InstallPhase::Pruning => one(
            concat(
                "finish pruning and activate accepted generation ",
                identity_text(value.current.id).as_str(),
            ),
        ),
        InstallPhase::Uninstalling(step) => one(
            concat("resume verified uninstall at next effect ", uninstall_step(step)),
        ),
        InstallPhase::Active => if active_runtime_requires_recovery(s) {
            two(
                concat(
                    "recover exact resolver ownership for link ",
                    number_text(value.current.link as u64).as_str(),
                ),
                copy("restart and verify only the owned daemon, socket, and resolver units"),
            )
        } else {
            nothing()
        },
    }
}

/// What recovery does about the first `n` bootstrap residues.
pub open spec fn bootstrap_sentences(s: Seq<BootstrapResidueView>, n: int) -> Seq<Seq<char>>
    decreases n,
{
    if n <= 0 {
        Seq::empty()
    } else {
        let before = bootstrap_sentences(s, n - 1);
        let helper = match s[n - 1].helper {
            Some(h) => before.push("remove verified bootstrap helper "@ + h.path),
            None => before,
        };
        helper.push("remove verified bootstrap directory "@ + s[n - 1].directory.path)
    }
}

fn bootstrap_recovery(residues: &Vec<BootstrapResidue>) -> (r: Vec<String>)
    ensures
        views(r@) == bootstrap_sentences(views(residues@), residues@.len() as int),
{
    let ghost rv = views(residues@);
    let mut r = nothing();
    let mut i: usize = 0;
    while i < residues.len()
        invariant
            i <= residues@.len(),
            rv == views(residues@),
            views(r@) == bootstrap_sentences(rv, i as int),
        decreases residues@.len() - i,
    {
        proof {
            assert(rv[i as int] == residues@[i as int]@);
        }
        match &residues[i].helper {
            Some(helper) => {
                push_text(
                    &mut r,
                    concat("remove verified bootstrap helper ", helper.path.as_str()),
                );
            },
            None => {},
        }
        push_text(
            &mut r,
            concat(
                "remove verified bootstrap directory ",
                residues[i].directory.path.as_str(),
            ),
        );
        i += 1;
    }
    r
}

/// What recovery does about the state directory.
pub open spec fn residue_sentences(installed: bool, s: SnapshotView) -> Seq<Seq<char>> {
    match s.state_residue {
        None => Seq::empty(),
        Some(residue) => {
            let removal = seq![
                "remove verified interrupted lifecycle state from "@ + residue.directory,
            ];
            if installed && needs_quiescence(residue) {
                seq![
                    "stop the owned resolver unit while removing resolver state"@,
                    "restart and verify the owned resolver unit"@,
                ] + removal
            } else {
                removal
            }
        },
    }
}

/// The effects of a recovery.
pub open spec fn recovery_sentences(record: Option<RecordView>, s: SnapshotView) -> Seq<Seq<char>> {
    transaction_sentences(record, s) + bootstrap_sentences(
        s.bootstrap_residues,
        s.bootstrap_residues.len() as int,
    ) + residue_sentences(record is Some, s)
}

/// The effects of a recovery.
pub fn recovery(record: &Option<InstallRecord>, s: &StateSnapshot) -> (r: Vec<String>)
    ensures
        views(r@) == recovery_sentences(option_record(*record), s@),
{
    let mut r = transaction_recovery(record, s);
    proof {
        assert(s@.bootstrap_residues.len() == s.bootstrap_residues@.len());
    }
    extend_texts(&mut r, bootstrap_recovery(&s.bootstrap_residues));
    let installed = match record {
        Some(_) => true,
        None => false,
    };
    let ghost so_far = views(r@);
    proof {
        assert(so_far + Seq::<Seq<char>>::empty() =~= so_far);
    }
    match &s.state_residue {
        None => {},
        Some(residue) => {
            if installed && residue.requires_resolver_quiescence() {
                push_text(
                    &mut r,
                    copy("stop the owned resolver unit while removing resolver state"),
                );
                push_text(&mut r, copy("restart and verify the owned resolver unit"));
            }
            push_text(
                &mut r,
                concat(
                    "remove verified interrupted lifecycle state from ",
                    residue.directory.as_str(),
                ),
            );
            proof {
                assert(views(r@) =~= so_far + residue_sentences(installed, s@));
            }
        },
    }
    r
}

/// The sentences for links that recovery puts back.
pub open spec fn repair_sentences(repairs: Seq<PublishedLinkView>) -> Seq<Seq<char>> {
    Seq::new(
        repairs.len(),
        |i: int| "create missing owned publication path "@ + repairs[i].path,
    )
}

/// The sentences for links that recovery puts back.
pub fn repairs_announced(repairs: &Vec<PublishedLink>) -> (r: Vec<String>)
    ensures
        views(r@) == repair_sentences(views(repairs@)),
{
    let paths = crate::units::paths_of(repairs);
    let r = prefix_all("create missing owned publication path ", &paths);
    proof {
        assert(views(r@) =~= repair_sentences(views(repairs@)));
    }
    r
}

// ---------------------------------------------------------------------------
// Publications
// ---------------------------------------------------------------------------

/// What a plan does to one published path.
#[derive(Debug, PartialEq, Eq)]
pub struct PublicationEffect {
    pub action: &'static str,
    pub path: String,
    pub previous_generation_id: Option<String>,
    pub next_generation_id: Option<String>,
}

/// A publication effect over plain values.
pub struct PublicationView {
    pub action: Seq<char>,
    pub path: Seq<char>,
    pub previous_generation_id: Option<Seq<char>>,
    pub next_generation_id: Option<Seq<char>>,
}

impl View for PublicationEffect {
    type V = PublicationView;

    open spec fn view(&self) -> PublicationView {
        PublicationView {
            action: self.action@,
            path: self.path@,
            previous_generation_id: option_text(self.previous_generation_id),
            next_generation_id: option_text(self.next_generation_id),
        }
    }
}

impl SortKey for PublicationEffect {
    open spec fn key_of(v: PublicationView) -> Seq<char> {
        v.path
    }

    fn key_text(&self) -> (s: String) {
        copy(self.path.as_str())
    }
}

/// One action on each of some paths.
pub open spec fn actions_on(
    action: Seq<char>,
    paths: Seq<Seq<char>>,
    previous: Option<Seq<char>>,
    next: Option<Seq<char>>,
) -> Seq<PublicationView> {
    Seq::new(
        paths.len(),
        |i: int|
            PublicationView {
                action,
                path: paths[i],
                previous_generation_id: previous,
                next_generation_id: next,
            },
    )
}

fn act_on(
    action: &'static str,
    paths: &Vec<String>,
    previous: &Option<String>,
    next: &Option<String>,
) -> (r: Vec<PublicationEffect>)
    ensures
        views(r@) == actions_on(action@, views(paths@), option_text(*previous), option_text(*next)),
{
    let ghost all = actions_on(action@, views(paths@), option_text(*previous), option_text(*next));
    let mut r: Vec<PublicationEffect> = Vec::new();
    let mut i: usize = 0;
    while i < paths.len()
        invariant
            i <= paths@.len(),
            r@.len() == i,
            all == actions_on(action@, views(paths@), option_text(*previous), option_text(*next)),
            forall|k: int| 0 <= k < i ==> (#[trigger] r@[k])@ == all[k],
        decreases paths@.len() - i,
    {
        r.push(
            PublicationEffect {
                action,
                path: copy(paths[i].as_str()),
                previous_generation_id: copy_option(previous),
                next_generation_id: copy_option(next),
            },
        );
        i += 1;
    }
    proof {
        assert(views(r@) =~= all);
    }
    r
}

fn append_effects(a: Vec<PublicationEffect>, b: Vec<PublicationEffect>) -> (r: Vec<
    PublicationEffect,
>)
    ensures
        views(r@) == views(a@) + views(b@),
{
    let mut r = a;
    let mut rest = b;
    r.append(&mut rest);
    proof {
        assert(views(r@) =~= views(a@) + views(b@));
    }
    r
}

/// What an operation does to the links.
pub open spec fn publication_action(o: Operation) -> Seq<char> {
    match o {
        Operation::Install => "create"@,
        Operation::Update => "repoint"@,
        Operation::Uninstall => "remove"@,
        Operation::Recover => "restore"@,
    }
}

/// What an operation does to the published paths: an update moves the current
/// link alone.
pub open spec fn operation_publications(
    o: Operation,
    previous: Option<Seq<char>>,
    next: Option<Seq<char>>,
) -> Seq<PublicationView> {
    let paths = if o == Operation::Update {
        all_publication_paths().filter(|p: Seq<char>| p == current_link())
    } else {
        all_publication_paths()
    };
    actions_on(publication_action(o), paths, previous, next)
}

/// What an operation does to the published paths.
pub fn publication_effects(o: Operation, previous: &Option<String>, next: &Option<String>) -> (r: Vec<
    PublicationEffect,
>)
    ensures
        views(r@) == operation_publications(o, option_text(*previous), option_text(*next)),
{
    let action: &'static str = match o {
        Operation::Install => "create",
        Operation::Update => "repoint",
        Operation::Uninstall => "remove",
        Operation::Recover => "restore",
    };
    let paths = publication_paths();
    if o != Operation::Update {
        return act_on(action, &paths, previous, next);
    }
    let ghost pv = views(paths@);
    let ghost wanted = |p: Seq<char>| p == current_link();
    let mut kept: Vec<String> = Vec::new();
    let mut i: usize = 0;
    proof {
        assert(pv.subrange(0, 0) =~= Seq::<Seq<char>>::empty());
        pv.subrange(0, 0).lemma_filter_len(wanted);
        assert(views(kept@) =~= Seq::<Seq<char>>::empty());
        assert(views(kept@) =~= pv.subrange(0, 0).filter(wanted));
    }
    while i < paths.len()
        invariant
            i <= paths@.len(),
            pv == views(paths@),
            wanted == (|p: Seq<char>| p == current_link()),
            views(kept@) == pv.subrange(0, i as int).filter(wanted),
        decreases paths@.len() - i,
    {
        proof {
            let upto = pv.subrange(0, i as int + 1);
            reveal(Seq::filter);
            assert(upto.drop_last() =~= pv.subrange(0, i as int));
            assert(upto.last() == paths@[i as int]@);
        }
        if same(paths[i].as_str(), "/usr/libexec/remap/current") {
            push_text(&mut kept, copy(paths[i].as_str()));
        }
        i += 1;
    }
    proof {
        assert(pv.subrange(0, i as int) =~= pv);
    }
    act_on(action, &kept, previous, next)
}

/// The directories that an installation creates, or those that can go.
pub open spec fn directories_in_question(
    g: GenerationView,
    action: Seq<char>,
    removable: Seq<Seq<char>>,
) -> Seq<Seq<char>> {
    if action == "create"@ {
        created_of(g)
    } else {
        removable
    }
}

/// What an installation or an uninstallation does to directories.
pub fn directory_publication_effects(
    g: &Generation,
    action: &'static str,
    removable: &Vec<String>,
    previous: &Option<String>,
    next: &Option<String>,
) -> (r: Vec<PublicationEffect>)
    ensures
        views(r@) == actions_on(
            action@,
            directories_in_question(g@, action@, views(removable@)),
            option_text(*previous),
            option_text(*next),
        ),
{
    if same(action, "create") {
        act_on(action, &created(g), previous, next)
    } else {
        act_on(action, removable, previous, next)
    }
}

/// What an update does to the links that only one of the generations declares.
pub open spec fn changed_publications(
    previous: GenerationView,
    current: GenerationView,
    previous_id: Option<Seq<char>>,
    current_id: Seq<char>,
) -> Seq<PublicationView> {
    let created = crate::units::link_paths(link_difference(current, previous));
    let removed = crate::units::link_paths(link_difference(previous, current));
    sorted::<PublicationEffect>(
        actions_on("create"@, created, previous_id, Some(current_id)) + actions_on(
            "remove"@,
            removed,
            previous_id,
            Some(current_id),
        ),
    )
}

/// What an update does to the links that only one of the generations declares.
pub fn update_publications(
    previous: &Generation,
    current: &Generation,
    previous_id: &Option<String>,
    current_id: &str,
) -> (r: Vec<PublicationEffect>)
    ensures
        views(r@) == changed_publications(
            previous@,
            current@,
            option_text(*previous_id),
            current_id@,
        ),
{
    let next = Some(copy(current_id));
    let created = crate::units::paths_of(&public_link_additions(previous, current));
    let removed = crate::units::paths_of(&public_link_removals(previous, current));
    sort(
        append_effects(
            act_on("create", &created, previous_id, &next),
            act_on("remove", &removed, previous_id, &next),
        ),
    )
}

/// The effects without those that repeat the one before them.
pub open spec fn without_repeats(s: Seq<PublicationView>) -> Seq<PublicationView>
    decreases s.len(),
{
    if s.len() == 0 {
        Seq::empty()
    } else {
        let before = without_repeats(s.drop_last());
        if before.len() > 0 && before.last().path == s.last().path && before.last().action
            == s.last().action {
            before
        } else {
            before.push(s.last())
        }
    }
}

/// The order in which publications are announced.
pub open spec fn announced(s: Seq<PublicationView>) -> Seq<PublicationView> {
    without_repeats(sorted::<PublicationEffect>(s))
}

fn copy_effect(e: &PublicationEffect) -> (r: PublicationEffect)
    ensures
        r@ == e@,
{
    PublicationEffect {
        action: e.action,
        path: copy(e.path.as_str()),
        previous_generation_id: copy_option(&e.previous_generation_id),
        next_generation_id: copy_option(&e.next_generation_id),
    }
}

/// Puts publications into the order in which they are announced.
pub fn sort_publications(v: Vec<PublicationEffect>) -> (r: Vec<PublicationEffect>)
    ensures
        views(r@) == announced(views(v@)),
{
    let ordered = sort(v);
    let ghost ov = views(ordered@);
    let mut r: Vec<PublicationEffect> = Vec::new();
    let mut i: usize = 0;
    proof {
        assert(ov.subrange(0, 0) =~= Seq::<PublicationView>::empty());
        assert(views(r@) =~= Seq::<PublicationView>::empty());
    }
    while i < ordered.len()
        invariant
            i <= ordered@.len(),
            ov == views(ordered@),
            views(r@) == without_repeats(ov.subrange(0, i as int)),
        decreases ordered@.len() - i,
    {
        let ghost before = views(r@);
        let count: usize = r.len();
        let repeats = count > 0 && same(r[count - 1].path.as_str(), ordered[i].path.as_str())
            && same(r[count - 1].action, ordered[i].action);
        proof {
            let upto = ov.subrange(0, i as int + 1);
            assert(upto.drop_last() =~= ov.subrange(0, i as int));
            assert(upto.last() == ordered@[i as int]@);
            assert(before.len() == r@.len());
            if count > 0 {
                assert(before.last() == r@[count - 1]@);
            }
        }
        if !repeats {
            let e = copy_effect(&ordered[i]);
            let ghost ev = e@;
            r.push(e);
            proof {
                assert(views(r@) =~= before.push(ev));
            }
        }
        i += 1;
    }
    proof {
        assert(ov.subrange(0, i as int) =~= ov);
    }
    r
}

/// The publications that an installation or an update announces, and how many
/// of them are links.
pub open spec fn install_announcement(
    o: Operation,
    no_op: bool,
    record: Option<RecordView>,
    g: GenerationView,
    previous: Option<Seq<char>>,
    next: Seq<char>,
) -> (Seq<PublicationView>, nat) {
    let moved = if no_op {
        Seq::empty()
    } else {
        operation_publications(o, previous, Some(next))
    };
    let links = if o == Operation::Update && record is Some {
        moved + changed_publications(record->0.current, g, previous, next)
    } else {
        moved
    };
    (
        if o == Operation::Install {
            announced(links + actions_on("create"@, created_of(g), None, Some(next)))
        } else {
            links
        },
        links.len(),
    )
}

/// The publications that an installation or an update announces, and how many
/// of them are links.
pub fn install_publications(
    operation: Operation,
    no_op: bool,
    record: &Option<InstallRecord>,
    generation: &Generation,
    previous: &Option<String>,
    next: &str,
) -> (r: (Vec<PublicationEffect>, usize))
    ensures
        ({
            let owed = install_announcement(
                operation,
                no_op,
                option_record(*record),
                generation@,
                option_text(*previous),
                next@,
            );
            views(r.0@) == owed.0 && r.1 == owed.1
        }),
{
    let next_id = Some(copy(next));
    let mut publications: Vec<PublicationEffect> = Vec::new();
    proof {
        assert(views(publications@) =~= Seq::<PublicationView>::empty());
    }
    if !no_op {
        publications = publication_effects(operation, previous, &next_id);
    }
    if operation == Operation::Update {
        if let Some(installed) = record {
            publications = append_effects(
                publications,
                update_publications(&installed.current, generation, previous, next),
            );
        }
    }
    let count: usize = publications.len();
    proof {
        assert(views(publications@).len() == count);
    }
    if operation == Operation::Install {
        publications = append_effects(
            publications,
            directory_publication_effects(generation, "create", &nothing(), &None, &next_id),
        );
        publications = sort_publications(publications);
    }
    (publications, count)
}

/// What an uninstallation announces, where the given directories can go.
pub open spec fn uninstall_announcement(
    previous: Seq<char>,
    removable: Seq<Seq<char>>,
) -> Seq<PublicationView> {
    announced(
        operation_publications(Operation::Uninstall, Some(previous), None) + actions_on(
            "remove"@,
            removable,
            Some(previous),
            None,
        ),
    )
}

/// What an uninstallation announces, where the given directories can go.
pub fn uninstall_publications(g: &Generation, previous: &str, removable: &Vec<String>) -> (r: Vec<
    PublicationEffect,
>)
    ensures
        views(r@) == uninstall_announcement(previous@, views(removable@)),
{
    proof {
        reveal_strlit("create");
        reveal_strlit("remove");
        assert("create"@[0] != "remove"@[0]);
    }
    let previous_id = Some(copy(previous));
    let links = publication_effects(Operation::Uninstall, &previous_id, &None);
    sort_publications(
        append_effects(
            links,
            directory_publication_effects(g, "remove", removable, &previous_id, &None),
        ),
    )
}

// ---------------------------------------------------------------------------
// Laws
// ---------------------------------------------------------------------------

/// An installation and an update announce different effects on the runtime.
pub proof fn law_runtime_effects_differ()
    ensures
        runtime_sentence(Operation::Install) != runtime_sentence(Operation::Update),
{
    reveal_strlit("publish and start three socket units, remapd, and the resolver supervisor");
    reveal_strlit(
        "quiesce the owned runtime, stop and reserve three listeners, then start the updated socket units, remapd, and resolver supervisor",
    );
    assert(runtime_sentence(Operation::Install)[0] == 'p');
    assert(runtime_sentence(Operation::Update)[0] == 'q');
}

/// An update that changes no file announces the move of the current link alone.
pub proof fn law_unchanged_files_move_only_the_current_link(
    record: RecordView,
    g: GenerationView,
    previous: Option<Seq<char>>,
    next: Seq<char>,
)
    requires
        record.current.artifacts == g.artifacts,
    ensures
        install_announcement(Operation::Update, false, Some(record), g, previous, next).0
            == operation_publications(Operation::Update, previous, Some(next)),
{
    crate::publications::law_same_files_change_no_link(record.current, g);
    crate::publications::law_same_files_change_no_link(g, record.current);
    let none = actions_on(
        "create"@,
        crate::units::link_paths(link_difference(g, record.current)),
        previous,
        Some(next),
    ) + actions_on(
        "remove"@,
        crate::units::link_paths(link_difference(record.current, g)),
        previous,
        Some(next),
    );
    assert(none =~= Seq::<PublicationView>::empty());
    assert(changed_publications(record.current, g, previous, next) =~= Seq::<
        PublicationView,
    >::empty());
    let moved = operation_publications(Operation::Update, previous, Some(next));
    assert(moved + Seq::<PublicationView>::empty() =~= moved);
}

proof fn lemma_without_repeats(s: Seq<PublicationView>, i: int)
    ensures
        0 <= i < s.len() ==> exists|j: int|
            0 <= j < without_repeats(s).len() && (#[trigger] without_repeats(s)[j]).path == s[i].path
                && without_repeats(s)[j].action == s[i].action,
        0 <= i < without_repeats(s).len() ==> s.contains(without_repeats(s)[i]),
    decreases s.len(),
{
    if s.len() > 0 {
        let t = s.drop_last();
        let before = without_repeats(t);
        let all = without_repeats(s);
        lemma_without_repeats(t, i);
        if 0 <= i < t.len() {
            let j = choose|j: int|
                0 <= j < before.len() && (#[trigger] before[j]).path == t[i].path && before[j].action
                    == t[i].action;
            assert(all[j] == before[j]);
            assert(t[i] == s[i]);
        } else if i == s.len() - 1 {
            let k = all.len() - 1;
            assert(all[k].path == s[i].path && all[k].action == s[i].action);
        }
        if 0 <= i < all.len() {
            if i < before.len() {
                assert(all[i] == before[i]);
                let k = choose|k: int| 0 <= k < t.len() && t[k] == before[i];
                assert(s[k] == all[i]);
            } else {
                assert(s[s.len() - 1] == all[i]);
            }
        }
    }
}

/// What is announced is what was found to be done: no action on a path is left out,
/// and none is added.
pub proof fn law_announcements_lose_nothing(s: Seq<PublicationView>, x: PublicationView)
    ensures
        s.contains(x) ==> exists|j: int|
            0 <= j < announced(s).len() && (#[trigger] announced(s)[j]).path == x.path && announced(
                s,
            )[j].action == x.action,
        announced(s).contains(x) ==> s.contains(x),
{
    broadcast use vstd::seq_lib::group_to_multiset_ensures;

    law_sorted::<PublicationEffect>(s);
    let t = sorted::<PublicationEffect>(s);
    if s.contains(x) {
        assert(s.to_multiset().contains(x));
        assert(t.to_multiset().contains(x));
        let i = choose|i: int| 0 <= i < t.len() && t[i] == x;
        lemma_without_repeats(t, i);
    }
    if announced(s).contains(x) {
        let i = choose|i: int| 0 <= i < announced(s).len() && announced(s)[i] == x;
        lemma_without_repeats(t, i);
        assert(t.contains(x));
        assert(t.to_multiset().contains(x));
        assert(s.to_multiset().contains(x));
    }
}

/// Whether an action on a path is announced.
pub open spec fn announces(s: Seq<PublicationView>, path: Seq<char>, action: Seq<char>) -> bool {
    exists|j: int| 0 <= j < s.len() && (#[trigger] s[j]).path == path && s[j].action == action
}

/// An uninstallation announces that every path of the product goes, and every
/// directory that can; an installation announces that every path is made, and every
/// directory that it creates.
pub proof fn law_every_path_is_announced(
    g: GenerationView,
    record: Option<RecordView>,
    previous: Option<Seq<char>>,
    id: Seq<char>,
    removable: Seq<Seq<char>>,
    path: Seq<char>,
)
    ensures
        all_publication_paths().contains(path) || removable.contains(path) ==> announces(
            uninstall_announcement(id, removable),
            path,
            "remove"@,
        ),
        all_publication_paths().contains(path) || created_of(g).contains(path) ==> announces(
            install_announcement(Operation::Install, false, record, g, previous, id).0,
            path,
            "create"@,
        ),
        install_announcement(Operation::Install, false, record, g, previous, id).1
            == all_publication_paths().len(),
{
    let all = all_publication_paths();
    let gone = operation_publications(Operation::Uninstall, Some(id), None);
    let directories = actions_on("remove"@, removable, Some(id), None);
    if all.contains(path) {
        let k = choose|k: int| 0 <= k < all.len() && all[k] == path;
        assert((gone + directories)[k] == gone[k]);
        law_announcements_lose_nothing(gone + directories, gone[k]);
    }
    if removable.contains(path) {
        let k = choose|k: int| 0 <= k < removable.len() && removable[k] == path;
        assert((gone + directories)[gone.len() + k] == directories[k]);
        law_announcements_lose_nothing(gone + directories, directories[k]);
    }
    let made = operation_publications(Operation::Install, previous, Some(id));
    let created = actions_on("create"@, created_of(g), None, Some(id));
    if all.contains(path) {
        let k = choose|k: int| 0 <= k < all.len() && all[k] == path;
        assert((made + created)[k] == made[k]);
        law_announcements_lose_nothing(made + created, made[k]);
    }
    if created_of(g).contains(path) {
        let k = choose|k: int| 0 <= k < created_of(g).len() && created_of(g)[k] == path;
        assert((made + created)[made.len() + k] == created[k]);
        law_announcements_lose_nothing(made + created, created[k]);
    }
}

/// A recovery announces what its record calls for: an interrupted transaction is
/// rolled back or gone on with at the step that its journal stands at, an active
/// installation whose runtime is broken is restarted and a sound one left alone, and
/// what is left of the state directory and every missing link are named.
pub proof fn law_recoveries_announce_what_they_do(
    record: Option<RecordView>,
    s: SnapshotView,
    repairs: Seq<PublishedLinkView>,
    i: int,
)
    ensures
        record is Some && !(record->0.phase is Active) ==> transaction_sentences(record, s).len()
            == 1,
        record matches Some(r) ==> match r.phase {
            InstallPhase::RollingBack(step) => transaction_sentences(record, s)[0]
                == "resume verified rollback at next effect "@ + rollback_name(step),
            InstallPhase::Uninstalling(step) => transaction_sentences(record, s)[0]
                == "resume verified uninstall at next effect "@ + uninstall_name(step),
            InstallPhase::Pruning => transaction_sentences(record, s)[0]
                == "finish pruning and activate accepted generation "@ + uuid_text(r.current.id),
            InstallPhase::Active => transaction_sentences(record, s).contains(
                "restart and verify only the owned daemon, socket, and resolver units"@,
            ) <==> active_runtime_broken(s),
            _ => transaction_sentences(record, s)[0] == "roll back interrupted "@ + phase_name(
                r.phase,
            ) + " generation "@ + uuid_text(r.current.id),
        },
        s.state_residue is Some ==> residue_sentences(record is Some, s).contains(
            "remove verified interrupted lifecycle state from "@ + s.state_residue->0.directory,
        ),
        s.state_residue is Some && record is Some && needs_quiescence(s.state_residue->0)
            ==> residue_sentences(true, s).contains(
            "stop the owned resolver unit while removing resolver state"@,
        ) && residue_sentences(true, s).contains("restart and verify the owned resolver unit"@),
        0 <= i < repairs.len() ==> repair_sentences(repairs).contains(
            "create missing owned publication path "@ + repairs[i].path,
        ),
        repair_sentences(repairs).len() == repairs.len(),
{
    if record is Some && record->0.phase is Active && active_runtime_broken(s) {
        assert(transaction_sentences(record, s)[1]
            == "restart and verify only the owned daemon, socket, and resolver units"@);
    }
    if s.state_residue is Some {
        let quiet = record is Some && needs_quiescence(s.state_residue->0);
        let k: int = if quiet {
            2
        } else {
            0
        };
        assert(residue_sentences(record is Some, s)[k]
            == "remove verified interrupted lifecycle state from "@
            + s.state_residue->0.directory);
        if quiet {
            assert(residue_sentences(true, s)[0]
                == "stop the owned resolver unit while removing resolver state"@);
            assert(residue_sentences(true, s)[1]
                == "restart and verify the owned resolver unit"@);
        }
    }
    if 0 <= i < repairs.len() {
        assert(repair_sentences(repairs)[i] == "create missing owned publication path "@
            + repairs[i].path);
    }
}

} // verus!
