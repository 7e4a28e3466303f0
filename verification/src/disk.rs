//! The order of what is done on disk: files that appear complete or not at all,
//! directories that are made and removed, and the link to the current generation.

use vstd::prelude::*;
use vstd::string::*;

use crate::bootstrap::{BootstrapResidue, BootstrapResidueView};
use crate::cleanup::{StateResidue, StateResidueView};
use crate::course::{lemma_passed, lemma_passes, on_course};
use crate::fault::{conflict, conflict_of, hand_on, invalid_data, invalid_of, Fault, FaultKind, FaultView};
use crate::files::{result_view, Metadata};
use crate::order::views;
use crate::paths::{join_path, joined, parent, parent_of};
use crate::publications::option_fault;
use crate::storage::{owned_directories, owned_directory_names, stage_path, staged_path};
use crate::text::copy;
use crate::units::PathProbe;

verus! {

/// One step on disk.
#[derive(Debug)]
pub enum DiskStep {
    /// Nothing stands at the path; else the sentence is reported.
    RequireAbsent(String, String),
    /// A new file that only root may read or write.
    CreateFile(String),
    WriteFile(String),
    SetMode(String, u32),
    SyncFile(String),
    /// The file takes its place, whatever stood there.
    Rename(String, String),
    /// The file takes its place where nothing stands.
    RenameNew(String, String),
    RemoveFile(String),
    /// A new directory that only root may enter.
    CreateDirectory(String),
    RemoveDirectory(String),
    /// The same; where it is not empty, the sentence is reported.
    RemoveEmptyDirectory(String, String),
    /// The entries of the directory are made durable.
    SyncDirectory(String),
    /// The same, where the directory stands.
    SyncIfPresent(String),
    ValidateAncestor(String),
    ValidatePrivate(String),
    ValidateStaged(String),
    ValidateExact(String, u32),
    VerifyNamespace(String),
    /// The file is the artifact at this position.
    VerifyArtifact(String, usize),
    /// The file can be a part of the artifact at this position.
    ValidatePartial(String, usize),
    /// The artifact at this position goes, with its staging file.
    RemoveArtifact(usize),
    /// An owned directory goes, where it stands.
    RemoveOwnedDirectory(String),
    /// The directory can hold a public directory of the generation.
    ValidateParent(String),
    /// The directory is one that was created here, published or not.
    ValidateCreated(String),
    /// The same, with the mode of a published one.
    ValidatePublished(String),
    /// The directory has no entries.
    RequireEmpty(String),
    /// The directory is marked with a new owner's number.
    MarkDirectory(String),
    Refuse(Fault),
}

/// One step on disk over plain values.
pub enum DiskStepView {
    RequireAbsent(Seq<char>, Seq<char>),
    CreateFile(Seq<char>),
    WriteFile(Seq<char>),
    SetMode(Seq<char>, u32),
    SyncFile(Seq<char>),
    Rename(Seq<char>, Seq<char>),
    RenameNew(Seq<char>, Seq<char>),
    RemoveFile(Seq<char>),
    CreateDirectory(Seq<char>),
    RemoveDirectory(Seq<char>),
    RemoveEmptyDirectory(Seq<char>, Seq<char>),
    SyncDirectory(Seq<char>),
    SyncIfPresent(Seq<char>),
    ValidateAncestor(Seq<char>),
    ValidatePrivate(Seq<char>),
    ValidateStaged(Seq<char>),
    ValidateExact(Seq<char>, u32),
    VerifyNamespace(Seq<char>),
    VerifyArtifact(Seq<char>, int),
    ValidatePartial(Seq<char>, int),
    RemoveArtifact(int),
    RemoveOwnedDirectory(Seq<char>),
    ValidateParent(Seq<char>),
    ValidateCreated(Seq<char>),
    ValidatePublished(Seq<char>),
    RequireEmpty(Seq<char>),
    MarkDirectory(Seq<char>),
    Refuse(FaultView),
}

impl View for DiskStep {
    type V = DiskStepView;

    open spec fn view(&self) -> DiskStepView {
        match self {
            DiskStep::RequireAbsent(p, m) => DiskStepView::RequireAbsent(p@, m@),
            DiskStep::CreateFile(p) => DiskStepView::CreateFile(p@),
            DiskStep::WriteFile(p) => DiskStepView::WriteFile(p@),
            DiskStep::SetMode(p, mode) => DiskStepView::SetMode(p@, *mode),
            DiskStep::SyncFile(p) => DiskStepView::SyncFile(p@),
            DiskStep::Rename(a, b) => DiskStepView::Rename(a@, b@),
            DiskStep::RenameNew(a, b) => DiskStepView::RenameNew(a@, b@),
            DiskStep::RemoveFile(p) => DiskStepView::RemoveFile(p@),
            DiskStep::CreateDirectory(p) => DiskStepView::CreateDirectory(p@),
            DiskStep::RemoveDirectory(p) => DiskStepView::RemoveDirectory(p@),
            DiskStep::RemoveEmptyDirectory(p, m) => DiskStepView::RemoveEmptyDirectory(p@, m@),
            DiskStep::SyncDirectory(p) => DiskStepView::SyncDirectory(p@),
            DiskStep::SyncIfPresent(p) => DiskStepView::SyncIfPresent(p@),
            DiskStep::ValidateAncestor(p) => DiskStepView::ValidateAncestor(p@),
            DiskStep::ValidatePrivate(p) => DiskStepView::ValidatePrivate(p@),
            DiskStep::ValidateStaged(p) => DiskStepView::ValidateStaged(p@),
            DiskStep::ValidateExact(p, mode) => DiskStepView::ValidateExact(p@, *mode),
            DiskStep::VerifyNamespace(p) => DiskStepView::VerifyNamespace(p@),
            DiskStep::VerifyArtifact(p, i) => DiskStepView::VerifyArtifact(p@, *i as int),
            DiskStep::ValidatePartial(p, i) => DiskStepView::ValidatePartial(p@, *i as int),
            DiskStep::RemoveArtifact(i) => DiskStepView::RemoveArtifact(*i as int),
            DiskStep::RemoveOwnedDirectory(p) => DiskStepView::RemoveOwnedDirectory(p@),
            DiskStep::ValidateParent(p) => DiskStepView::ValidateParent(p@),
            DiskStep::ValidateCreated(p) => DiskStepView::ValidateCreated(p@),
            DiskStep::ValidatePublished(p) => DiskStepView::ValidatePublished(p@),
            DiskStep::RequireEmpty(p) => DiskStepView::RequireEmpty(p@),
            DiskStep::MarkDirectory(p) => DiskStepView::MarkDirectory(p@),
            DiskStep::Refuse(e) => DiskStepView::Refuse(e@),
        }
    }
}

fn add_step(v: &mut Vec<DiskStep>, step: DiskStep)
    ensures
        views(final(v)@) == views(old(v)@).push(step@),
{
    let ghost before = views(v@);
    v.push(step);
    proof {
        assert(views(v@) =~= before.push(step@));
    }
}

fn no_steps() -> (v: Vec<DiskStep>)
    ensures
        views(v@) == Seq::<DiskStepView>::empty(),
{
    let v: Vec<DiskStep> = Vec::new();
    proof {
        assert(views(v@) =~= Seq::<DiskStepView>::empty());
    }
    v
}

/// Whether something stands at a path; a path that cannot be looked at is refused.
pub open spec fn presence_of(m: Result<Metadata, FaultView>) -> Result<bool, FaultView> {
    match m {
        Ok(_) => Ok(true),
        Err(e) => if e.kind == FaultKind::NotFound {
            Ok(false)
        } else {
            Err(e)
        },
    }
}

/// Whether something stands at a path.
pub fn presence(m: &Result<Metadata, Fault>) -> (r: Result<bool, Fault>)
    ensures
        result_view(r) == presence_of(result_view(*m)),
{
    match m {
        Ok(_) => Ok(true),
        Err(e) => if e.kind == FaultKind::NotFound {
            Ok(false)
        } else {
            Err(hand_on(e))
        },
    }
}

// ---------------------------------------------------------------------------
// Files
// ---------------------------------------------------------------------------

/// The steps that write an artifact of a generation.
pub open spec fn artifact_steps(path: Seq<char>, staged: Seq<char>, mode: u32, parent: Seq<char>) -> Seq<
    DiskStepView,
> {
    seq![
        DiskStepView::RequireAbsent(path, "a staged generation path is already occupied"@),
        DiskStepView::RequireAbsent(staged, "a staged generation path is already occupied"@),
        DiskStepView::CreateFile(staged),
        DiskStepView::WriteFile(staged),
        DiskStepView::SetMode(staged, mode),
        DiskStepView::SyncFile(staged),
        DiskStepView::RenameNew(staged, path),
        DiskStepView::SyncDirectory(parent),
    ]
}

/// Plans the writing of an artifact of a generation.
pub fn stage_artifact(root: &str, relative_path: &str, mode: u32) -> (r: Result<
    Vec<DiskStep>,
    Fault,
>)
    ensures
        ({
            let path = joined(root@, relative_path@);
            match r {
                Ok(v) => staged_path(path) is Some && views(v@) == artifact_steps(
                    path,
                    staged_path(path)->0,
                    mode,
                    parent_of(path)->0,
                ),
                Err(e) => staged_path(path) is None && e@ == invalid_of(
                    "an artifact path has no safe file name"@,
                ),
            }
        }),
{
    let path = join_path(root, relative_path);
    let staged = match stage_path(path.as_str()) {
        Ok(p) => p,
        Err(e) => {
            return Err(e);
        },
    };
    let directory = match parent(path.as_str()) {
        Some(p) => p,
        None => {
            return Err(invalid_data("an artifact path has no safe file name"));
        },
    };
    let mut v = no_steps();
    let occupied = "a staged generation path is already occupied";
    add_step(&mut v, DiskStep::RequireAbsent(copy(path.as_str()), copy(occupied)));
    add_step(&mut v, DiskStep::RequireAbsent(copy(staged.as_str()), copy(occupied)));
    add_step(&mut v, DiskStep::CreateFile(copy(staged.as_str())));
    add_step(&mut v, DiskStep::WriteFile(copy(staged.as_str())));
    add_step(&mut v, DiskStep::SetMode(copy(staged.as_str()), mode));
    add_step(&mut v, DiskStep::SyncFile(copy(staged.as_str())));
    add_step(&mut v, DiskStep::RenameNew(copy(staged.as_str()), copy(path.as_str())));
    add_step(&mut v, DiskStep::SyncDirectory(directory));
    proof {
        assert(views(v@) =~= artifact_steps(path@, staged@, mode, directory@));
    }
    Ok(v)
}

/// The steps that write the installation record.
pub open spec fn record_steps(directory: Seq<char>) -> Seq<DiskStepView> {
    let staged = joined(directory, ".installation.new"@);
    seq![
        DiskStepView::RequireAbsent(
            staged,
            "an interrupted installation record publication requires recovery"@,
        ),
        DiskStepView::CreateFile(staged),
        DiskStepView::WriteFile(staged),
        DiskStepView::SetMode(staged, 0o600),
        DiskStepView::SyncFile(staged),
        DiskStepView::Rename(staged, joined(directory, "installation.json"@)),
        DiskStepView::SyncDirectory(directory),
    ]
}

/// Plans the writing of the installation record. Where its staging file stands,
/// an earlier writing was interrupted.
pub fn save_record(directory: &str) -> (v: Vec<DiskStep>)
    ensures
        views(v@) == record_steps(directory@),
{
    let staged = join_path(directory, ".installation.new");
    let mut v = no_steps();
    let interrupted = "an interrupted installation record publication requires recovery";
    add_step(&mut v, DiskStep::RequireAbsent(copy(staged.as_str()), copy(interrupted)));
    add_step(&mut v, DiskStep::CreateFile(copy(staged.as_str())));
    add_step(&mut v, DiskStep::WriteFile(copy(staged.as_str())));
    add_step(&mut v, DiskStep::SetMode(copy(staged.as_str()), 0o600));
    add_step(&mut v, DiskStep::SyncFile(copy(staged.as_str())));
    let record = join_path(directory, "installation.json");
    add_step(&mut v, DiskStep::Rename(copy(staged.as_str()), record));
    add_step(&mut v, DiskStep::SyncDirectory(copy(directory)));
    proof {
        assert(views(v@) =~= record_steps(directory@));
    }
    v
}

/// Where the installation record is read from, where its directory stands.
pub fn record_path(directory: &str) -> (s: String)
    ensures
        s@ == joined(directory@, "installation.json"@),
{
    join_path(directory, "installation.json")
}

// ---------------------------------------------------------------------------
// Directories
// ---------------------------------------------------------------------------

pub open spec fn parent_or_refused(
    before: Seq<DiskStepView>,
    parent: Option<Seq<char>>,
    present_only: bool,
    message: Seq<char>,
    behind: Seq<DiskStepView>,
) -> Seq<DiskStepView> {
    match parent {
        None => before.push(DiskStepView::Refuse(invalid_of(message))),
        Some(p) => before.push(
            if present_only {
                DiskStepView::SyncIfPresent(p)
            } else {
                DiskStepView::SyncDirectory(p)
            },
        ) + behind,
    }
}

/// The steps that make a directory of a generation.
pub open spec fn directory_staging(path: Seq<char>, present: bool) -> Seq<DiskStepView> {
    let made = if present {
        Seq::empty()
    } else {
        seq![DiskStepView::CreateDirectory(path)]
    };
    parent_or_refused(
        made + seq![DiskStepView::ValidateStaged(path), DiskStepView::SetMode(path, 0o755)],
        parent_of(path),
        false,
        "a generation directory has no parent"@,
        seq![DiskStepView::ValidateExact(path, 0o755)],
    )
}

/// Plans the making of a directory of a generation.
pub fn stage_directory(path: &str, present: bool) -> (v: Vec<DiskStep>)
    ensures
        views(v@) == directory_staging(path@, present),
{
    let mut v = no_steps();
    if !present {
        add_step(&mut v, DiskStep::CreateDirectory(copy(path)));
    }
    add_step(&mut v, DiskStep::ValidateStaged(copy(path)));
    add_step(&mut v, DiskStep::SetMode(copy(path), 0o755));
    match parent(path) {
        None => {
            add_step(
                &mut v,
                DiskStep::Refuse(invalid_data("a generation directory has no parent")),
            );
        },
        Some(p) => {
            add_step(&mut v, DiskStep::SyncDirectory(p));
            add_step(&mut v, DiskStep::ValidateExact(copy(path), 0o755));
        },
    }
    proof {
        assert(views(v@) =~= directory_staging(path@, present));
    }
    v
}

/// The steps that make a directory which only root may enter.
pub open spec fn private_directory(path: Seq<char>, mode: u32, present: bool) -> Result<
    Seq<DiskStepView>,
    FaultView,
> {
    if mode != 0o700 {
        Err(invalid_of("a private installation directory mode is invalid"@))
    } else if !present && parent_of(path) is None {
        Err(invalid_of("installation directory has no parent"@))
    } else {
        let made = if present {
            Seq::empty()
        } else {
            seq![
                DiskStepView::ValidateAncestor(parent_of(path)->0),
                DiskStepView::CreateDirectory(path),
            ]
        };
        let synced = match parent_of(path) {
            None => Seq::empty(),
            Some(p) => seq![DiskStepView::SyncDirectory(p)],
        };
        Ok(
            made + seq![DiskStepView::ValidatePrivate(path), DiskStepView::SetMode(path, mode)]
                + synced + seq![DiskStepView::ValidateExact(path, mode)],
        )
    }
}

/// What a `Result` of steps says.
pub open spec fn steps_view(r: Result<Vec<DiskStep>, Fault>) -> Result<
    Seq<DiskStepView>,
    FaultView,
> {
    match r {
        Ok(v) => Ok(views(v@)),
        Err(e) => Err(e@),
    }
}

/// Plans the making of a directory which only root may enter.
pub fn create_private_directory(path: &str, mode: u32, present: bool) -> (r: Result<
    Vec<DiskStep>,
    Fault,
>)
    ensures
        steps_view(r) == private_directory(path@, mode, present),
{
    if mode != 0o700 {
        return Err(invalid_data("a private installation directory mode is invalid"));
    }
    let above = parent(path);
    let mut v = no_steps();
    if !present {
        match &above {
            None => {
                return Err(invalid_data("installation directory has no parent"));
            },
            Some(p) => {
                add_step(&mut v, DiskStep::ValidateAncestor(copy(p.as_str())));
                add_step(&mut v, DiskStep::CreateDirectory(copy(path)));
            },
        }
    }
    add_step(&mut v, DiskStep::ValidatePrivate(copy(path)));
    add_step(&mut v, DiskStep::SetMode(copy(path), mode));
    match above {
        None => {},
        Some(p) => {
            add_step(&mut v, DiskStep::SyncDirectory(p));
        },
    }
    add_step(&mut v, DiskStep::ValidateExact(copy(path), mode));
    proof {
        assert(views(v@) =~= private_directory(path@, mode, present)->Ok_0);
    }
    Ok(v)
}

/// The steps that remove a directory of a generation.
pub open spec fn directory_removal(path: Seq<char>, present: bool) -> Seq<DiskStepView> {
    let removed = if present {
        seq![
            DiskStepView::ValidateStaged(path),
            DiskStepView::RemoveEmptyDirectory(path, "an immutable generation contains an unowned entry"@),
        ]
    } else {
        Seq::empty()
    };
    parent_or_refused(
        removed,
        parent_of(path),
        !present,
        "a generation directory has no parent"@,
        Seq::empty(),
    )
}

/// Plans the removal of a directory of a generation.
pub fn remove_owned_directory(path: &str, present: bool) -> (v: Vec<DiskStep>)
    ensures
        views(v@) == directory_removal(path@, present),
{
    let mut v = no_steps();
    if present {
        add_step(&mut v, DiskStep::ValidateStaged(copy(path)));
        add_step(
            &mut v,
            DiskStep::RemoveEmptyDirectory(copy(path), copy("an immutable generation contains an unowned entry")),
        );
    }
    match parent(path) {
        None => {
            add_step(
                &mut v,
                DiskStep::Refuse(invalid_data("a generation directory has no parent")),
            );
        },
        Some(p) => {
            if present {
                add_step(&mut v, DiskStep::SyncDirectory(p));
            } else {
                add_step(&mut v, DiskStep::SyncIfPresent(p));
            }
        },
    }
    proof {
        assert(views(v@) =~= directory_removal(path@, present));
    }
    v
}

/// The steps that remove a root that was only staged.
pub open spec fn staging_removal(path: Seq<char>, present: bool) -> Seq<DiskStepView> {
    let removed = if present {
        seq![
            DiskStepView::ValidateStaged(path),
            DiskStepView::RemoveEmptyDirectory(path, "a staging directory contains an unowned entry"@),
        ]
    } else {
        Seq::empty()
    };
    parent_or_refused(
        removed,
        parent_of(path),
        true,
        "a staging directory has no parent"@,
        Seq::empty(),
    )
}

/// Plans the removal of a root that was only staged.
pub fn remove_empty_staging_directory(path: &str, present: bool) -> (v: Vec<DiskStep>)
    ensures
        views(v@) == staging_removal(path@, present),
{
    let mut v = no_steps();
    if present {
        add_step(&mut v, DiskStep::ValidateStaged(copy(path)));
        add_step(
            &mut v,
            DiskStep::RemoveEmptyDirectory(copy(path), copy("a staging directory contains an unowned entry")),
        );
    }
    match parent(path) {
        None => {
            add_step(&mut v, DiskStep::Refuse(invalid_data("a staging directory has no parent")));
        },
        Some(p) => {
            add_step(&mut v, DiskStep::SyncIfPresent(p));
        },
    }
    proof {
        assert(views(v@) =~= staging_removal(path@, present));
    }
    v
}

/// The steps that remove an artifact of a generation.
pub open spec fn artifact_removal(
    index: int,
    path: Seq<char>,
    staged: Seq<char>,
    parent: Seq<char>,
    present: bool,
    staged_present: bool,
) -> Seq<DiskStepView> {
    let file = if present {
        seq![
            DiskStepView::VerifyArtifact(path, index),
            DiskStepView::RemoveFile(path),
            DiskStepView::SyncDirectory(parent),
        ]
    } else {
        seq![DiskStepView::SyncIfPresent(parent)]
    };
    let part = if staged_present {
        seq![
            DiskStepView::ValidatePartial(staged, index),
            DiskStepView::RemoveFile(staged),
            DiskStepView::SyncDirectory(parent),
        ]
    } else {
        seq![DiskStepView::SyncIfPresent(parent)]
    };
    file + part
}

/// Plans the removal of an artifact of a generation, complete or in part.
pub fn remove_partial_artifact(
    root: &str,
    relative_path: &str,
    index: usize,
    present: bool,
    staged_present: bool,
) -> (r: Result<Vec<DiskStep>, Fault>)
    ensures
        ({
            let path = joined(root@, relative_path@);
            match r {
                Ok(v) => staged_path(path) is Some && views(v@) == artifact_removal(
                    index as int,
                    path,
                    staged_path(path)->0,
                    parent_of(path)->0,
                    present,
                    staged_present,
                ),
                Err(e) => staged_path(path) is None && e@ == invalid_of(
                    "an artifact path has no safe file name"@,
                ),
            }
        }),
{
    let path = join_path(root, relative_path);
    let staged = match stage_path(path.as_str()) {
        Ok(p) => p,
        Err(e) => {
            return Err(e);
        },
    };
    let directory = match parent(path.as_str()) {
        Some(p) => p,
        None => {
            return Err(invalid_data("an artifact path has no safe file name"));
        },
    };
    let mut v = no_steps();
    if present {
        add_step(&mut v, DiskStep::VerifyArtifact(copy(path.as_str()), index));
        add_step(&mut v, DiskStep::RemoveFile(copy(path.as_str())));
        add_step(&mut v, DiskStep::SyncDirectory(copy(directory.as_str())));
    } else {
        add_step(&mut v, DiskStep::SyncIfPresent(copy(directory.as_str())));
    }
    if staged_present {
        add_step(&mut v, DiskStep::ValidatePartial(copy(staged.as_str()), index));
        add_step(&mut v, DiskStep::RemoveFile(copy(staged.as_str())));
        add_step(&mut v, DiskStep::SyncDirectory(copy(directory.as_str())));
    } else {
        add_step(&mut v, DiskStep::SyncIfPresent(copy(directory.as_str())));
    }
    proof {
        assert(views(v@) =~= artifact_removal(
            index as int,
            path@,
            staged@,
            directory@,
            present,
            staged_present,
        ));
    }
    Ok(v)
}

/// The owned directories of a generation, the last first, as steps.
pub open spec fn owned_removals(directory: Seq<char>) -> Seq<DiskStepView> {
    Seq::new(
        owned_directories().len(),
        |i: int|
            DiskStepView::RemoveOwnedDirectory(
                joined(directory, owned_directories()[owned_directories().len() - 1 - i]),
            ),
    )
}

/// The steps that remove a generation of `count` artifacts, complete or in part.
pub open spec fn generation_removal(
    root: Seq<char>,
    directory: Seq<char>,
    count: nat,
    present: bool,
) -> Seq<DiskStepView> {
    if !present {
        seq![DiskStepView::SyncIfPresent(root)]
    } else {
        seq![DiskStepView::ValidateStaged(directory), DiskStepView::VerifyNamespace(directory)]
            + Seq::new(count, |i: int| DiskStepView::RemoveArtifact(i)) + owned_removals(directory)
            + seq![
            DiskStepView::ValidateStaged(directory),
            DiskStepView::RemoveDirectory(directory),
            DiskStepView::SyncDirectory(root),
        ]
    }
}

/// Plans the removal of a generation, complete or in part.
pub fn remove_generation_partial(root: &str, directory: &str, count: usize, present: bool) -> (v:
    Vec<DiskStep>)
    ensures
        views(v@) == generation_removal(root@, directory@, count as nat, present),
{
    let mut v = no_steps();
    if !present {
        add_step(&mut v, DiskStep::SyncIfPresent(copy(root)));
        proof {
            assert(views(v@) =~= generation_removal(root@, directory@, count as nat, present));
        }
        return v;
    }
    add_step(&mut v, DiskStep::ValidateStaged(copy(directory)));
    add_step(&mut v, DiskStep::VerifyNamespace(copy(directory)));
    let ghost head = seq![
        DiskStepView::ValidateStaged(directory@),
        DiskStepView::VerifyNamespace(directory@),
    ];
    let ghost artifacts = Seq::new(count as nat, |i: int| DiskStepView::RemoveArtifact(i));
    proof {
        assert(views(v@) =~= head + artifacts.subrange(0, 0));
    }
    let mut i: usize = 0;
    while i < count
        invariant
            i <= count,
            artifacts == Seq::new(count as nat, |i: int| DiskStepView::RemoveArtifact(i)),
            views(v@) == head + artifacts.subrange(0, i as int),
        decreases count - i,
    {
        add_step(&mut v, DiskStep::RemoveArtifact(i));
        proof {
            assert(views(v@) =~= head + artifacts.subrange(0, i as int + 1));
        }
        i += 1;
    }
    proof {
        assert(artifacts.subrange(0, count as int) =~= artifacts);
    }
    let names = owned_directory_names();
    let ghost before = head + artifacts;
    let ghost owned = owned_removals(directory@);
    let ghost all = owned_directories();
    let total: usize = names.len();
    proof {
        assert(views(names@).len() == total);
        assert(views(v@) =~= before + owned.subrange(0, 0));
    }
    let mut k: usize = 0;
    while k < total
        invariant
            k <= total,
            total == names@.len(),
            views(names@) == all,
            all == owned_directories(),
            owned == owned_removals(directory@),
            owned.len() == total,
            views(v@) == before + owned.subrange(0, k as int),
        decreases total - k,
    {
        let at: usize = total - 1 - k;
        proof {
            assert(views(names@)[at as int] == names@[at as int]@);
        }
        add_step(
            &mut v,
            DiskStep::RemoveOwnedDirectory(join_path(directory, names[at].as_str())),
        );
        proof {
            assert(views(v@) =~= before + owned.subrange(0, k as int + 1));
        }
        k += 1;
    }
    proof {
        assert(owned.subrange(0, total as int) =~= owned);
    }
    add_step(&mut v, DiskStep::ValidateStaged(copy(directory)));
    add_step(&mut v, DiskStep::RemoveDirectory(copy(directory)));
    add_step(&mut v, DiskStep::SyncDirectory(copy(root)));
    proof {
        assert(views(v@) =~= generation_removal(root@, directory@, count as nat, present));
    }
    v
}

// ---------------------------------------------------------------------------
// Residues
// ---------------------------------------------------------------------------

/// The steps that remove a directory of the product which has to be empty.
pub open spec fn exact_removal(path: Seq<char>, message: Seq<char>, present: bool) -> Seq<
    DiskStepView,
> {
    let removed = if present {
        seq![
            DiskStepView::ValidateExact(path, 0o755),
            DiskStepView::RemoveEmptyDirectory(path, message),
        ]
    } else {
        Seq::empty()
    };
    parent_or_refused(
        removed,
        parent_of(path),
        !present,
        "a Linux product path has no parent"@,
        Seq::empty(),
    )
}

/// Plans the removal of a directory of the product which has to be empty.
pub fn remove_exact_empty_directory(path: &str, message: &str, present: bool) -> (v: Vec<DiskStep>)
    ensures
        views(v@) == exact_removal(path@, message@, present),
{
    let mut v = no_steps();
    if present {
        add_step(&mut v, DiskStep::ValidateExact(copy(path), 0o755));
        add_step(&mut v, DiskStep::RemoveEmptyDirectory(copy(path), copy(message)));
    }
    match parent(path) {
        None => {
            add_step(&mut v, DiskStep::Refuse(invalid_data("a Linux product path has no parent")));
        },
        Some(p) => {
            if present {
                add_step(&mut v, DiskStep::SyncDirectory(p));
            } else {
                add_step(&mut v, DiskStep::SyncIfPresent(p));
            }
        },
    }
    proof {
        assert(views(v@) =~= exact_removal(path@, message@, present));
    }
    v
}

/// The steps that remove the files of a residue.
pub open spec fn residue_files(r: StateResidueView) -> Seq<DiskStepView> {
    Seq::new(r.entries.len(), |i: int| DiskStepView::RemoveFile(r.entries[i].path)).push(
        DiskStepView::SyncDirectory(r.directory),
    )
}

/// The steps that remove the directory of a residue.
pub open spec fn residue_directory(directory: Seq<char>) -> Seq<DiskStepView> {
    parent_or_refused(
        seq![
            DiskStepView::ValidateExact(directory, 0o700),
            DiskStepView::RequireAbsent(
                joined(directory, "installation.json"@),
                "a Linux state record remains active"@,
            ),
            DiskStepView::RequireAbsent(
                joined(directory, "resolver-activation.json"@),
                "a Linux state record remains active"@,
            ),
            DiskStepView::RemoveEmptyDirectory(
                directory,
                "the Linux state directory contains data Remap does not own"@,
            ),
        ],
        parent_of(directory),
        false,
        "a Linux product path has no parent"@,
        Seq::empty(),
    )
}

/// The steps that remove a residue.
pub open spec fn residue_removal(r: StateResidueView) -> Seq<DiskStepView> {
    if r.remove_directory {
        residue_files(r) + residue_directory(r.directory)
    } else {
        residue_files(r)
    }
}

/// Plans the removal of an approved residue.
pub fn remove_state_residue(r: &StateResidue) -> (v: Vec<DiskStep>)
    ensures
        views(v@) == residue_removal(r@),
{
    let mut v = no_steps();
    let ghost files = Seq::new(
        r@.entries.len(),
        |i: int| DiskStepView::RemoveFile(r@.entries[i].path),
    );
    proof {
        assert(views(v@) =~= files.subrange(0, 0));
    }
    let mut i: usize = 0;
    while i < r.entries.len()
        invariant
            i <= r.entries@.len(),
            files == Seq::new(
                r@.entries.len(),
                |i: int| DiskStepView::RemoveFile(r@.entries[i].path),
            ),
            r@.entries == views(r.entries@),
            views(v@) == files.subrange(0, i as int),
        decreases r.entries@.len() - i,
    {
        proof {
            assert(views(r.entries@)[i as int] == r.entries@[i as int]@);
        }
        add_step(&mut v, DiskStep::RemoveFile(copy(r.entries[i].path.as_str())));
        proof {
            assert(views(v@) =~= files.subrange(0, i as int + 1));
        }
        i += 1;
    }
    proof {
        assert(files.subrange(0, files.len() as int) =~= files);
    }
    let directory = r.directory.as_str();
    add_step(&mut v, DiskStep::SyncDirectory(copy(directory)));
    if !r.remove_directory {
        return v;
    }
    let active = "a Linux state record remains active";
    add_step(&mut v, DiskStep::ValidateExact(copy(directory), 0o700));
    let record = join_path(directory, "installation.json");
    add_step(&mut v, DiskStep::RequireAbsent(record, copy(active)));
    let activation = join_path(directory, "resolver-activation.json");
    add_step(&mut v, DiskStep::RequireAbsent(activation, copy(active)));
    let foreign = copy("the Linux state directory contains data Remap does not own");
    add_step(&mut v, DiskStep::RemoveEmptyDirectory(copy(directory), foreign));
    match parent(directory) {
        None => {
            add_step(&mut v, DiskStep::Refuse(invalid_data("a Linux product path has no parent")));
        },
        Some(p) => {
            add_step(&mut v, DiskStep::SyncDirectory(p));
        },
    }
    proof {
        assert(views(v@) =~= residue_removal(r@));
    }
    v
}

/// A public directory is made under a temporary name, empty and with its mode,
/// and marked in the end.
pub open spec fn public_staging(path: Seq<char>, present: bool) -> Seq<DiskStepView> {
    match parent_of(path) {
        None => seq![DiskStepView::Refuse(invalid_of("a public directory has no parent"@))],
        Some(p) => seq![
            DiskStepView::ValidateParent(p),
            if present {
                DiskStepView::ValidateCreated(path)
            } else {
                DiskStepView::CreateDirectory(path)
            },
            DiskStepView::SetMode(path, 0o755),
            DiskStepView::SyncDirectory(p),
            DiskStepView::ValidateCreated(path),
            DiskStepView::RequireEmpty(path),
            DiskStepView::MarkDirectory(path),
        ],
    }
}

/// Makes a public directory under its temporary name, or takes the one that an
/// interrupted run left there.
pub fn stage_directory_temporary(path: &str, present: bool) -> (v: Vec<DiskStep>)
    ensures
        views(v@) == public_staging(path@, present),
{
    let mut v = no_steps();
    match parent(path) {
        None => {
            add_step(&mut v, DiskStep::Refuse(invalid_data("a public directory has no parent")));
        },
        Some(p) => {
            add_step(&mut v, DiskStep::ValidateParent(copy(p.as_str())));
            if present {
                add_step(&mut v, DiskStep::ValidateCreated(copy(path)));
            } else {
                add_step(&mut v, DiskStep::CreateDirectory(copy(path)));
            }
            add_step(&mut v, DiskStep::SetMode(copy(path), 0o755));
            add_step(&mut v, DiskStep::SyncDirectory(p));
            add_step(&mut v, DiskStep::ValidateCreated(copy(path)));
            add_step(&mut v, DiskStep::RequireEmpty(copy(path)));
            add_step(&mut v, DiskStep::MarkDirectory(copy(path)));
        },
    }
    proof {
        assert(views(v@) =~= public_staging(path@, present));
    }
    v
}

/// A public directory that was created here goes.
pub open spec fn public_directory_removal(path: Seq<char>) -> Seq<DiskStepView> {
    let removed = seq![
        DiskStepView::ValidatePublished(path),
        DiskStepView::RemoveEmptyDirectory(
            path,
            "a public directory changed after lifecycle authorization"@,
        ),
    ];
    parent_or_refused(
        removed,
        parent_of(path),
        false,
        "a public directory parent is unavailable"@,
        Seq::empty(),
    )
}

/// Removes a public directory that was created here.
pub fn remove_public_directory(path: &str) -> (v: Vec<DiskStep>)
    ensures
        views(v@) == public_directory_removal(path@),
{
    let mut v = no_steps();
    add_step(&mut v, DiskStep::ValidatePublished(copy(path)));
    let changed = copy("a public directory changed after lifecycle authorization");
    add_step(&mut v, DiskStep::RemoveEmptyDirectory(copy(path), changed));
    match parent(path) {
        None => {
            add_step(
                &mut v,
                DiskStep::Refuse(invalid_data("a public directory parent is unavailable")),
            );
        },
        Some(p) => {
            add_step(&mut v, DiskStep::SyncDirectory(p));
        },
    }
    proof {
        assert(views(v@) =~= public_directory_removal(path@));
    }
    v
}

/// The steps that remove what an interrupted start of an installer left.
pub open spec fn bootstrap_removal(r: BootstrapResidueView) -> Seq<DiskStepView> {
    match r.helper {
        None => Seq::empty(),
        Some(h) => seq![DiskStepView::RemoveFile(h.path)],
    }.push(
        DiskStepView::RemoveEmptyDirectory(
            r.directory.path,
            "a Linux bootstrap residue changed while being removed"@,
        ),
    )
}

/// Plans the removal of what an interrupted start of an installer left.
pub fn remove_bootstrap_residue(r: &BootstrapResidue) -> (v: Vec<DiskStep>)
    ensures
        views(v@) == bootstrap_removal(r@),
{
    let mut v = no_steps();
    match &r.helper {
        None => {},
        Some(h) => {
            add_step(&mut v, DiskStep::RemoveFile(copy(h.path.as_str())));
        },
    }
    let changed = copy("a Linux bootstrap residue changed while being removed");
    add_step(
        &mut v,
        DiskStep::RemoveEmptyDirectory(copy(r.directory.path.as_str()), changed),
    );
    proof {
        assert(views(v@) =~= bootstrap_removal(r@));
    }
    v
}

// ---------------------------------------------------------------------------
// The nearest directory that stands
// ---------------------------------------------------------------------------

/// What is done to make the removal or the making of a public directory durable.
pub enum AncestorView {
    /// The directory is held to its owner and made durable.
    Sync(Seq<char>),
    /// The directory above is looked at.
    Look(Seq<char>),
    Refused(FaultView),
}

/// What is done to make the removal or the making of a public directory durable.
#[derive(Debug)]
pub enum Ancestor {
    Sync(String),
    Look(String),
    Refused(Fault),
}

impl View for Ancestor {
    type V = AncestorView;

    open spec fn view(&self) -> AncestorView {
        match self {
            Ancestor::Sync(p) => AncestorView::Sync(p@),
            Ancestor::Look(p) => AncestorView::Look(p@),
            Ancestor::Refused(e) => AncestorView::Refused(e@),
        }
    }
}

/// Where the walk to the nearest directory begins.
pub fn public_parent(path: &str) -> (r: Ancestor)
    ensures
        r@ == match parent_of(path@) {
            Some(p) => AncestorView::Look(p),
            None => AncestorView::Refused(invalid_of("a public directory parent is unavailable"@)),
        },
{
    match parent(path) {
        Some(p) => Ancestor::Look(p),
        None => Ancestor::Refused(invalid_data("a public directory parent is unavailable")),
    }
}

/// Where the walk to the nearest directory goes from one that was looked at.
pub fn sync_public_parent(candidate: &str, found: &PathProbe) -> (r: Ancestor)
    ensures
        r@ == match presence_of(found@) {
            Ok(true) => AncestorView::Sync(candidate@),
            Ok(false) => match parent_of(candidate@) {
                Some(p) => AncestorView::Look(p),
                None => AncestorView::Refused(
                    invalid_of("a public directory durable ancestor is unavailable"@),
                ),
            },
            Err(e) => AncestorView::Refused(e),
        },
{
    match presence(&found.result) {
        Ok(true) => Ancestor::Sync(copy(candidate)),
        Ok(false) => match parent(candidate) {
            Some(p) => Ancestor::Look(p),
            None => Ancestor::Refused(
                invalid_data("a public directory durable ancestor is unavailable"),
            ),
        },
        Err(e) => Ancestor::Refused(e),
    }
}

// ---------------------------------------------------------------------------
// The link to the current generation
// ---------------------------------------------------------------------------

/// What the replacement of the current link does next.
#[derive(Debug, Clone, Copy, PartialEq, Eq, Structural)]
pub enum ReplaceStage {
    /// Nothing stands at the temporary path.
    RequireAbsent,
    /// Make the temporary link, to the new generation.
    MakeTemporary,
    Sync,
    /// Exchange the two links.
    Exchange,
    /// The temporary link leads to the expected generation.
    VerifyTemporary,
    /// Exchange the links back.
    ExchangeBack,
    SyncBack,
    /// Remove the temporary link, which has to lead to the new generation.
    GiveUp,
    /// The current link leads to the new generation.
    VerifyCurrent,
    RemoveTemporary,
    SyncRemoval,
    Finished,
}

/// What came of what was to be done.
#[derive(Debug)]
pub enum ReplaceEvent {
    Done,
    Failed(Fault),
}

/// An event over plain values.
pub enum ReplaceEventView {
    Done,
    Failed(FaultView),
}

impl View for ReplaceEvent {
    type V = ReplaceEventView;

    open spec fn view(&self) -> ReplaceEventView {
        match self {
            ReplaceEvent::Done => ReplaceEventView::Done,
            ReplaceEvent::Failed(e) => ReplaceEventView::Failed(e@),
        }
    }
}

/// How far the replacement of the current link has come.
#[derive(Debug)]
pub struct ReplaceFlow {
    pub stage: ReplaceStage,
    pub error: Option<Fault>,
}

/// A replacement over plain values.
pub struct ReplaceView {
    pub stage: ReplaceStage,
    pub error: Option<FaultView>,
}

impl View for ReplaceFlow {
    type V = ReplaceView;

    open spec fn view(&self) -> ReplaceView {
        ReplaceView { stage: self.stage, error: option_fault(self.error) }
    }
}

pub open spec fn replaced_conflict() -> FaultView {
    conflict_of("the current generation changed during atomic replacement"@)
}

pub open spec fn replace_at(f: ReplaceView, stage: ReplaceStage) -> ReplaceView {
    ReplaceView { stage, ..f }
}

/// Where a replacement goes from an event.
pub open spec fn replace_step(f: ReplaceView, e: ReplaceEventView) -> ReplaceView {
    match e {
        ReplaceEventView::Done => replace_at(
            f,
            match f.stage {
                ReplaceStage::RequireAbsent => ReplaceStage::MakeTemporary,
                ReplaceStage::MakeTemporary => ReplaceStage::Sync,
                ReplaceStage::Sync => ReplaceStage::Exchange,
                ReplaceStage::Exchange => ReplaceStage::VerifyTemporary,
                ReplaceStage::VerifyTemporary => ReplaceStage::VerifyCurrent,
                ReplaceStage::ExchangeBack => ReplaceStage::SyncBack,
                ReplaceStage::SyncBack => ReplaceStage::GiveUp,
                ReplaceStage::GiveUp => ReplaceStage::Finished,
                ReplaceStage::VerifyCurrent => ReplaceStage::RemoveTemporary,
                ReplaceStage::RemoveTemporary => ReplaceStage::SyncRemoval,
                ReplaceStage::SyncRemoval => ReplaceStage::Finished,
                ReplaceStage::Finished => ReplaceStage::Finished,
            },
        ),
        ReplaceEventView::Failed(x) => match f.stage {
            ReplaceStage::Exchange => ReplaceView {
                stage: ReplaceStage::GiveUp,
                error: Some(x),
            },
            ReplaceStage::VerifyTemporary => ReplaceView {
                stage: ReplaceStage::ExchangeBack,
                error: Some(replaced_conflict()),
            },
            ReplaceStage::Finished => f,
            _ => ReplaceView { stage: ReplaceStage::Finished, error: Some(x) },
        },
    }
}

pub open spec fn replace_begun() -> ReplaceView {
    ReplaceView { stage: ReplaceStage::RequireAbsent, error: None }
}

impl ReplaceFlow {
    /// Begins the replacement of the current link.
    pub fn begin() -> (r: ReplaceFlow)
        ensures
            r@ == replace_begun(),
    {
        ReplaceFlow { stage: ReplaceStage::RequireAbsent, error: None }
    }

    /// Goes on from what came of the last action.
    pub fn step(self, event: ReplaceEvent) -> (r: ReplaceFlow)
        ensures
            r@ == replace_step(self@, event@),
    {
        match event {
            ReplaceEvent::Done => {
                let stage = match self.stage {
                    ReplaceStage::RequireAbsent => ReplaceStage::MakeTemporary,
                    ReplaceStage::MakeTemporary => ReplaceStage::Sync,
                    ReplaceStage::Sync => ReplaceStage::Exchange,
                    ReplaceStage::Exchange => ReplaceStage::VerifyTemporary,
                    ReplaceStage::VerifyTemporary => ReplaceStage::VerifyCurrent,
                    ReplaceStage::ExchangeBack => ReplaceStage::SyncBack,
                    ReplaceStage::SyncBack => ReplaceStage::GiveUp,
                    ReplaceStage::GiveUp => ReplaceStage::Finished,
                    ReplaceStage::VerifyCurrent => ReplaceStage::RemoveTemporary,
                    ReplaceStage::RemoveTemporary => ReplaceStage::SyncRemoval,
                    ReplaceStage::SyncRemoval => ReplaceStage::Finished,
                    ReplaceStage::Finished => ReplaceStage::Finished,
                };
                ReplaceFlow { stage, ..self }
            },
            ReplaceEvent::Failed(e) => match self.stage {
                ReplaceStage::Exchange => ReplaceFlow {
                    stage: ReplaceStage::GiveUp,
                    error: Some(e),
                },
                ReplaceStage::VerifyTemporary => ReplaceFlow {
                    stage: ReplaceStage::ExchangeBack,
                    error: Some(
                        conflict("the current generation changed during atomic replacement"),
                    ),
                },
                ReplaceStage::Finished => self,
                _ => ReplaceFlow { stage: ReplaceStage::Finished, error: Some(e) },
            },
        }
    }
}

// ---------------------------------------------------------------------------
// Laws
// ---------------------------------------------------------------------------

/// A file of a generation takes its name only behind its contents, its mode and
/// their durability, and so does the installation record.
pub proof fn law_files_are_durable_before_they_are_named(
    path: Seq<char>,
    staged: Seq<char>,
    mode: u32,
    parent: Seq<char>,
    directory: Seq<char>,
    i: int,
)
    ensures
        ({
            let s = artifact_steps(path, staged, mode, parent);
            0 <= i < s.len() && s[i] is RenameNew ==> i == 6 && s[3] == DiskStepView::WriteFile(
                staged,
            ) && s[4] == DiskStepView::SetMode(staged, mode) && s[5] == DiskStepView::SyncFile(
                staged,
            )
        }),
        ({
            let s = record_steps(directory);
            0 <= i < s.len() && s[i] is Rename ==> i == 5 && s[2] is WriteFile && s[3] is SetMode
                && s[4] is SyncFile
        }),
{
}

/// A public directory is marked as owned only once it is empty and durable in its
/// parent, whatever stood at its temporary name.
pub proof fn law_directories_are_marked_when_they_are_complete(path: Seq<char>, present: bool, i: int)
    ensures
        ({
            let s = public_staging(path, present);
            0 <= i < s.len() && s[i] is MarkDirectory ==> i == 6 && s[2] == DiskStepView::SetMode(
                path,
                0o755,
            ) && s[3] is SyncDirectory && s[4] == DiskStepView::ValidateCreated(path) && s[5]
                == DiskStepView::RequireEmpty(path)
        }),
{
}

/// The links on disk: where the current and the temporary one lead, if they stand.
pub struct Links {
    pub current: Option<u128>,
    pub temporary: Option<u128>,
}

/// What an action does to the links where nothing else touches them, and what
/// comes of it.
pub open spec fn act(l: Links, stage: ReplaceStage, new: u128, expected: u128, e: FaultView) -> (
    Links,
    ReplaceEventView,
) {
    let failed = ReplaceEventView::Failed(e);
    let done = ReplaceEventView::Done;
    match stage {
        ReplaceStage::RequireAbsent => (
            l,
            if l.temporary is None {
                done
            } else {
                failed
            },
        ),
        ReplaceStage::MakeTemporary => if l.temporary is None {
            (Links { temporary: Some(new), ..l }, done)
        } else {
            (l, failed)
        },
        ReplaceStage::Exchange | ReplaceStage::ExchangeBack => if l.current is Some
            && l.temporary is Some {
            (Links { current: l.temporary, temporary: l.current }, done)
        } else {
            (l, failed)
        },
        ReplaceStage::VerifyTemporary => (
            l,
            if l.temporary == Some(expected) {
                done
            } else {
                failed
            },
        ),
        ReplaceStage::VerifyCurrent => (
            l,
            if l.current == Some(new) {
                done
            } else {
                failed
            },
        ),
        ReplaceStage::GiveUp => if l.temporary == Some(new) {
            (Links { temporary: None, ..l }, done)
        } else {
            (l, failed)
        },
        ReplaceStage::RemoveTemporary => if l.temporary is Some {
            (Links { temporary: None, ..l }, done)
        } else {
            (l, failed)
        },
        ReplaceStage::Sync | ReplaceStage::SyncBack | ReplaceStage::SyncRemoval
        | ReplaceStage::Finished => (l, done),
    }
}

/// Where the links and the replacement come to after `n` actions.
pub open spec fn replace_run(l: Links, new: u128, expected: u128, e: FaultView, n: nat) -> (
    Links,
    ReplaceView,
)
    decreases n,
{
    if n == 0 {
        (l, replace_begun())
    } else {
        let (links, flow) = replace_run(l, new, expected, e, (n - 1) as nat);
        let (after, event) = act(links, flow.stage, new, expected, e);
        (after, replace_step(flow, event))
    }
}

/// The installation record and the resolver activation are never removed with a
/// residue: where its directory goes, neither may stand.
pub proof fn law_records_outlive_residues(r: StateResidueView)
    requires
        r.remove_directory,
    ensures
        residue_removal(r).contains(
            DiskStepView::RequireAbsent(
                joined(r.directory, "installation.json"@),
                "a Linux state record remains active"@,
            ),
        ),
        residue_removal(r).contains(
            DiskStepView::RequireAbsent(
                joined(r.directory, "resolver-activation.json"@),
                "a Linux state record remains active"@,
            ),
        ),
{
    let n = residue_files(r).len() as int;
    let s = residue_removal(r);
    assert(s[n + 1] == residue_directory(r.directory)[1]);
    assert(s[n + 2] == residue_directory(r.directory)[2]);
}

/// The replacement of the current link is all or nothing: it leads to the new
/// generation exactly where it led to the expected one before; where it led
/// elsewhere, it leads there again and the replacement is refused. Either way no
/// temporary link is left.
pub proof fn law_replacement_is_all_or_nothing(current: u128, new: u128, expected: u128, e: FaultView)
    ensures
        ({
            let (links, flow) = replace_run(
                Links { current: Some(current), temporary: None },
                new,
                expected,
                e,
                8,
            );
            &&& flow.stage == ReplaceStage::Finished
            &&& links.temporary is None
            &&& current == expected ==> flow.error is None && links.current == Some(new)
            &&& current != expected ==> flow.error == Some(replaced_conflict()) && links.current
                == Some(current)
        }),
{
    let l = Links { current: Some(current), temporary: None };
    assert(replace_run(l, new, expected, e, 0) == (l, replace_begun()));
    assert(replace_run(l, new, expected, e, 1).1.stage == ReplaceStage::MakeTemporary);
    assert(replace_run(l, new, expected, e, 2).1.stage == ReplaceStage::Sync);
    assert(replace_run(l, new, expected, e, 3).1.stage == ReplaceStage::Exchange);
    assert(replace_run(l, new, expected, e, 4).1.stage == ReplaceStage::VerifyTemporary);
    assert(replace_run(l, new, expected, e, 5).1.stage == if current == expected {
        ReplaceStage::VerifyCurrent
    } else {
        ReplaceStage::ExchangeBack
    });
    assert(replace_run(l, new, expected, e, 6).1.stage == if current == expected {
        ReplaceStage::RemoveTemporary
    } else {
        ReplaceStage::SyncBack
    });
    assert(replace_run(l, new, expected, e, 7).1.stage == if current == expected {
        ReplaceStage::SyncRemoval
    } else {
        ReplaceStage::GiveUp
    });
}

/// What staging makes below a generation's directory, its removal takes away in
/// the opposite order.
pub proof fn law_removal_reverses_staging(directory: Seq<char>, i: int)
    requires
        0 <= i < owned_directories().len(),
    ensures
        owned_removals(directory)[i] == DiskStepView::RemoveOwnedDirectory(
            match crate::storage::directory_steps(directory)[owned_directories().len() - i] {
                crate::storage::StageStepView::StageDirectory(p) => p,
                _ => Seq::empty(),
            },
        ),
{
}

/// Where a replacement comes to after some events.
pub open spec fn replacement(f: ReplaceView, events: Seq<ReplaceEventView>) -> ReplaceView
    decreases events.len(),
{
    if events.len() == 0 {
        f
    } else {
        replace_step(replacement(f, events.drop_last()), events.last())
    }
}

/// The stages that a replacement has passed, in their order.
pub open spec fn replace_passed(f: ReplaceView, events: Seq<ReplaceEventView>) -> Seq<ReplaceStage>
    decreases events.len(),
{
    if events.len() == 0 {
        Seq::empty()
    } else {
        let before = replace_passed(f, events.drop_last());
        let stage = replacement(f, events.drop_last()).stage;
        if events.last() is Done && stage != ReplaceStage::Finished {
            before.push(stage)
        } else {
            before
        }
    }
}

/// What a replacement goes through where nothing fails.
pub open spec fn replace_course() -> Seq<ReplaceStage> {
    seq![
        ReplaceStage::RequireAbsent,
        ReplaceStage::MakeTemporary,
        ReplaceStage::Sync,
        ReplaceStage::Exchange,
        ReplaceStage::VerifyTemporary,
        ReplaceStage::VerifyCurrent,
        ReplaceStage::RemoveTemporary,
        ReplaceStage::SyncRemoval,
    ]
}

/// A replacement goes through the stages of its course one behind the other. So one
/// that ends without a failure has made the new link durable before it exchanged the
/// two, seen both lead where they should, and removed the old one for good. A
/// failure is never lost, and behind a wrong exchange the links are exchanged back
/// before the temporary one goes.
#[verifier::spinoff_prover]
#[verifier::rlimit(60)]
pub proof fn law_replacement_follows_its_course(events: Seq<ReplaceEventView>)
    ensures
        ({
            let f = replacement(replace_begun(), events);
            let passed = replace_passed(replace_begun(), events);
            let course = replace_course();
            &&& f.error is None ==> on_course(course, passed, f.stage, ReplaceStage::Finished)
            &&& f.error is None && f.stage == ReplaceStage::Finished ==> passed == course
            &&& f.error is Some ==> f.stage == ReplaceStage::ExchangeBack || f.stage
                == ReplaceStage::SyncBack || f.stage == ReplaceStage::GiveUp || f.stage
                == ReplaceStage::Finished
            &&& f.stage == ReplaceStage::ExchangeBack ==> f.error is Some && passed
                == course.subrange(0, 4)
            &&& f.stage == ReplaceStage::SyncBack ==> passed == course.subrange(0, 4).push(
                ReplaceStage::ExchangeBack,
            )
            &&& f.stage == ReplaceStage::GiveUp ==> passed == course.subrange(0, 3) || passed
                == course.subrange(0, 4).push(ReplaceStage::ExchangeBack).push(
                ReplaceStage::SyncBack,
            )
            &&& (forall|i: int| 0 <= i < events.len() ==> (#[trigger] events[i]) is Done)
                ==> f.error is None
        }),
    decreases events.len(),
{
    let begun = replace_begun();
    let course = replace_course();
    let passed = replace_passed(begun, events);
    if events.len() == 0 {
        assert(passed =~= course.subrange(0, 0));
    } else {
        let before = events.drop_last();
        law_replacement_follows_its_course(before);
        let g = replacement(begun, before);
        let f = replacement(begun, events);
        if forall|i: int| 0 <= i < events.len() ==> (#[trigger] events[i]) is Done {
            assert forall|i: int| 0 <= i < before.len() implies (#[trigger] before[i]) is Done by {
                assert(before[i] == events[i]);
            }
            assert(events[events.len() - 1] is Done);
        }
        if g.error is None && events.last() is Done && g.stage != ReplaceStage::Finished {
            lemma_passes(
                course,
                replace_passed(begun, before),
                g.stage,
                f.stage,
                ReplaceStage::Finished,
            );
        }
        if f.error is None && f.stage == ReplaceStage::Finished {
            assert(!course.contains(ReplaceStage::Finished));
            lemma_passed(course, passed, ReplaceStage::Finished);
        }
    }
}

/// A file is made only where nothing stands, under the name that it is staged by, and
/// takes its own name once, behind which its directory is made durable. The record is
/// written in the same way, readable by root alone, over the one that it replaces.
pub proof fn law_files_are_made_once(
    path: Seq<char>,
    staged: Seq<char>,
    mode: u32,
    parent: Seq<char>,
    directory: Seq<char>,
    i: int,
)
    ensures
        ({
            let s = artifact_steps(path, staged, mode, parent);
            &&& s.len() > 2 && s[0] is RequireAbsent && s[0]->RequireAbsent_0 == path
            &&& s[1] is RequireAbsent && s[1]->RequireAbsent_0 == staged
            &&& 0 <= i < s.len() && s[i] is CreateFile ==> s[i] == DiskStepView::CreateFile(staged)
            &&& s.contains(DiskStepView::CreateFile(staged))
            &&& s.contains(DiskStepView::RenameNew(staged, path))
            &&& s.last() == DiskStepView::SyncDirectory(parent)
            &&& 0 <= i < s.len() ==> !(s[i] is RemoveFile) && !(s[i] is Rename)
        }),
        ({
            let s = record_steps(directory);
            let named = joined(directory, ".installation.new"@);
            &&& s.len() > 1 && s[0] is RequireAbsent && s[0]->RequireAbsent_0 == named
            &&& s.contains(DiskStepView::SetMode(named, 0o600))
            &&& s.contains(DiskStepView::Rename(named, joined(directory, "installation.json"@)))
            &&& s.last() == DiskStepView::SyncDirectory(directory)
            &&& 0 <= i < s.len() ==> !(s[i] is RemoveFile)
        }),
{
    let s = artifact_steps(path, staged, mode, parent);
    assert(s[2] == DiskStepView::CreateFile(staged));
    assert(s[6] == DiskStepView::RenameNew(staged, path));
    let r = record_steps(directory);
    let named = joined(directory, ".installation.new"@);
    assert(r[3] == DiskStepView::SetMode(named, 0o600));
    assert(r[5] == DiskStepView::Rename(named, joined(directory, "installation.json"@)));
}

/// A file of a generation goes exactly where it stands, right behind the check that it
/// is the product's, and its directory is made durable right behind that. So does the
/// file that it was staged by.
pub proof fn law_files_are_held_to_their_owner_before_they_go(
    index: int,
    path: Seq<char>,
    staged: Seq<char>,
    parent: Seq<char>,
    present: bool,
    staged_present: bool,
    i: int,
)
    requires
        path != staged,
    ensures
        ({
            let s = artifact_removal(index, path, staged, parent, present, staged_present);
            &&& s.contains(DiskStepView::RemoveFile(path)) <==> present
            &&& s.contains(DiskStepView::RemoveFile(staged)) <==> staged_present
            &&& 0 <= i < s.len() && s[i] is RemoveFile ==> {
                &&& 0 < i && i + 1 < s.len()
                &&& s[i + 1] == DiskStepView::SyncDirectory(parent)
                &&& s[i] == DiskStepView::RemoveFile(path) && s[i - 1]
                    == DiskStepView::VerifyArtifact(path, index) || s[i]
                    == DiskStepView::RemoveFile(staged) && s[i - 1]
                    == DiskStepView::ValidatePartial(staged, index)
            }
        }),
{
    let s = artifact_removal(index, path, staged, parent, present, staged_present);
    let n: int = if present {
        3
    } else {
        1
    };
    assert(present ==> s[1] == DiskStepView::RemoveFile(path));
    assert(staged_present ==> s[n + 1] == DiskStepView::RemoveFile(staged));
    if s.contains(DiskStepView::RemoveFile(path)) {
        let k = choose|k: int| 0 <= k < s.len() && s[k] == DiskStepView::RemoveFile(path);
        assert(0 <= k < s.len());
    }
    if s.contains(DiskStepView::RemoveFile(staged)) {
        let k = choose|k: int| 0 <= k < s.len() && s[k] == DiskStepView::RemoveFile(staged);
        assert(0 <= k < s.len());
    }
}

/// A generation that stands goes as a whole: it is held to its owner and its contents
/// to its manifest first, then every artifact goes, then every directory of its own,
/// and the generation itself last, made durable. One that does not stand is only made
/// durable.
pub proof fn law_generations_go_as_a_whole(
    root: Seq<char>,
    directory: Seq<char>,
    count: nat,
    i: int,
)
    ensures
        generation_removal(root, directory, count, false) == seq![DiskStepView::SyncIfPresent(root)],
        ({
            let s = generation_removal(root, directory, count, true);
            let n = owned_directories().len() as int;
            &&& s.len() == 2 + count + n + 3
            &&& s[0] == DiskStepView::ValidateStaged(directory)
            &&& s[1] == DiskStepView::VerifyNamespace(directory)
            &&& 0 <= i < count ==> s[2 + i] == DiskStepView::RemoveArtifact(i)
            &&& 0 <= i < n ==> s.contains(
                DiskStepView::RemoveOwnedDirectory(joined(directory, owned_directories()[i])),
            )
            &&& s[s.len() - 3] == DiskStepView::ValidateStaged(directory)
            &&& s[s.len() - 2] == DiskStepView::RemoveDirectory(directory)
            &&& s[s.len() - 1] == DiskStepView::SyncDirectory(root)
            &&& 0 <= i < s.len() && s[i] is RemoveDirectory ==> i == s.len() - 2
        }),
{
    let s = generation_removal(root, directory, count, true);
    let n = owned_directories().len() as int;
    if 0 <= i < n {
        assert(owned_removals(directory)[n - 1 - i] == DiskStepView::RemoveOwnedDirectory(
            joined(directory, owned_directories()[i]),
        ));
        assert(s[2 + count + (n - 1 - i)] == DiskStepView::RemoveOwnedDirectory(
            joined(directory, owned_directories()[i]),
        ));
    }
}

/// No directory goes that was not held to its owner right before, and only an empty
/// one does; where nothing stands, nothing is removed.
pub proof fn law_only_own_empty_directories_go(
    path: Seq<char>,
    message: Seq<char>,
    present: bool,
    i: int,
)
    ensures
        ({
            let guarded = |s: Seq<DiskStepView>, check: DiskStepView, expected: bool|
                {
                    &&& 0 <= i < s.len() && s[i] is RemoveEmptyDirectory ==> i > 0 && s[i - 1]
                        == check && s[i]->RemoveEmptyDirectory_0 == path && expected
                    &&& 0 <= i < s.len() ==> !(s[i] is RemoveDirectory) && !(s[i] is RemoveFile)
                    &&& expected ==> s.len() > 1 && s[1] is RemoveEmptyDirectory
                };
            &&& guarded(directory_removal(path, present), DiskStepView::ValidateStaged(path), present)
            &&& guarded(staging_removal(path, present), DiskStepView::ValidateStaged(path), present)
            &&& guarded(
                exact_removal(path, message, present),
                DiskStepView::ValidateExact(path, 0o755),
                present,
            )
            &&& guarded(
                public_directory_removal(path),
                DiskStepView::ValidatePublished(path),
                true,
            )
        }),
{
}

/// Every file of a residue goes, and no other; its directory goes only where that was
/// approved, behind the last file, and only while no record is in it.
pub proof fn law_residues_go_entirely(r: StateResidueView, i: int)
    ensures
        ({
            let s = residue_removal(r);
            let n = r.entries.len() as int;
            &&& 0 <= i < n ==> s[i] == DiskStepView::RemoveFile(r.entries[i].path)
            &&& s[n] == DiskStepView::SyncDirectory(r.directory)
            &&& 0 <= i < s.len() && s[i] is RemoveFile ==> i < n
            &&& !r.remove_directory ==> s.len() == n + 1
            &&& 0 <= i < s.len() && s[i] is RemoveEmptyDirectory ==> i == n + 4
                && r.remove_directory && s[i]->RemoveEmptyDirectory_0 == r.directory
            &&& r.remove_directory ==> s.len() > n + 4 && s[n + 4] is RemoveEmptyDirectory && s[n
                + 2] is RequireAbsent && s[n + 3] is RequireAbsent
        }),
{
}

} // verus!
