//! What the file system says of a path, and what is accepted of it.

use vstd::prelude::*;
use vstd::string::*;

use crate::fault::{conflict, conflict_of, hand_on, Fault, FaultKind, FaultView};

verus! {

/// What a path leads to, symbolic links not followed.
#[derive(Debug, Clone, Copy, PartialEq, Eq, Structural)]
pub enum FileKind {
    Symlink,
    File,
    Directory,
    Socket,
    Other,
}

/// The metadata of a path.
#[derive(Debug, Clone, Copy, PartialEq, Eq, Structural)]
pub struct Metadata {
    pub kind: FileKind,
    pub uid: u32,
    pub gid: u32,
    pub mode: u32,
    pub links: u64,
    pub length: u64,
    pub device: u64,
    pub inode: u64,
}

/// A result of an observation over plain values.
pub open spec fn result_view<T>(r: Result<T, Fault>) -> Result<T, FaultView> {
    match r {
        Ok(v) => Ok(v),
        Err(e) => Err(e@),
    }
}

/// A directory or file with its metadata and whether its extended attributes
/// are acceptable.
#[derive(Debug)]
pub struct Probe {
    pub metadata: Result<Metadata, Fault>,
    pub xattrs_safe: Result<bool, Fault>,
}

/// A probe over plain values.
pub struct ProbeView {
    pub metadata: Result<Metadata, FaultView>,
    pub xattrs_safe: Result<bool, FaultView>,
}

impl View for Probe {
    type V = ProbeView;

    open spec fn view(&self) -> ProbeView {
        ProbeView {
            metadata: result_view(self.metadata),
            xattrs_safe: result_view(self.xattrs_safe),
        }
    }
}

/// Whether nothing stands at a path.
pub open spec fn is_missing(p: ProbeView) -> bool {
    p.metadata is Err && p.metadata->Err_0.kind == FaultKind::NotFound
}

/// What is wrong with a root-owned directory whose masked mode must be `mode`.
pub open spec fn directory_fault(
    p: ProbeView,
    mask: u32,
    mode: u32,
    unsafe_metadata: Seq<char>,
    unsafe_xattrs: Seq<char>,
) -> Option<FaultView> {
    match p.metadata {
        Err(e) => Some(e),
        Ok(m) => if m.kind != FileKind::Directory || m.uid != 0 || m.mode & mask != mode {
            Some(conflict_of(unsafe_metadata))
        } else {
            match p.xattrs_safe {
                Err(e) => Some(e),
                Ok(safe) => if safe {
                    None
                } else {
                    Some(conflict_of(unsafe_xattrs))
                },
            }
        },
    }
}

/// Whether a result agrees with the failure that is owed, if one is.
pub open spec fn agrees<T>(r: Result<T, Fault>, owed: Option<FaultView>) -> bool {
    match owed {
        None => r is Ok,
        Some(e) => r is Err && r->Err_0@ == e,
    }
}

/// Holds a directory to its owner, its mode and its attributes.
pub fn check_directory(
    p: &Probe,
    mask: u32,
    mode: u32,
    unsafe_metadata: &str,
    unsafe_xattrs: &str,
) -> (r: Result<(), Fault>)
    ensures
        agrees(r, directory_fault(p@, mask, mode, unsafe_metadata@, unsafe_xattrs@)),
{
    match &p.metadata {
        Err(e) => Err(hand_on(e)),
        Ok(m) => {
            if m.kind != FileKind::Directory || m.uid != 0 || m.mode & mask != mode {
                return Err(conflict(unsafe_metadata));
            }
            match &p.xattrs_safe {
                Err(e) => Err(hand_on(e)),
                Ok(safe) => if *safe {
                    Ok(())
                } else {
                    Err(conflict(unsafe_xattrs))
                },
            }
        },
    }
}

/// What is owed to an installation directory with an exact mode.
pub open spec fn installation_directory_fault(p: ProbeView, mode: u32) -> Option<FaultView> {
    directory_fault(
        p,
        0o777,
        mode,
        "an installation directory is not root-owned with the exact mode"@,
        "an installation directory has unsafe extended attributes"@,
    )
}

/// Holds an installation directory to its exact mode.
pub fn validate_directory(p: &Probe, mode: u32) -> (r: Result<(), Fault>)
    ensures
        agrees(r, installation_directory_fault(p@, mode)),
{
    check_directory(
        p,
        0o777,
        mode,
        "an installation directory is not root-owned with the exact mode",
        "an installation directory has unsafe extended attributes",
    )
}

/// What is owed to a private directory that an interrupted run may have left.
pub open spec fn recoverable_private_fault(p: ProbeView) -> Option<FaultView> {
    directory_fault(
        p,
        0o077,
        0,
        "a private installation directory changed ownership or metadata"@,
        "a private installation directory has unsafe extended attributes"@,
    )
}

pub fn validate_recoverable_private_directory(p: &Probe) -> (r: Result<(), Fault>)
    ensures
        agrees(r, recoverable_private_fault(p@)),
{
    check_directory(
        p,
        0o077,
        0,
        "a private installation directory changed ownership or metadata",
        "a private installation directory has unsafe extended attributes",
    )
}

/// What is owed to the parent of a private directory.
pub open spec fn ancestor_fault(m: Result<Metadata, FaultView>) -> Option<FaultView> {
    match m {
        Err(e) => Some(e),
        Ok(m) => if m.kind != FileKind::Directory || m.uid != 0 || m.mode & 0o022 != 0 {
            Some(conflict_of("an installation directory ancestor is unsafe"@))
        } else {
            None
        },
    }
}

pub fn validate_ancestor(m: &Result<Metadata, Fault>) -> (r: Result<(), Fault>)
    ensures
        agrees(r, ancestor_fault(result_view(*m))),
{
    match m {
        Err(e) => Err(hand_on(e)),
        Ok(m) => if m.kind != FileKind::Directory || m.uid != 0 || m.mode & 0o022 != 0 {
            Err(conflict("an installation directory ancestor is unsafe"))
        } else {
            Ok(())
        },
    }
}

/// What is owed to a path that must be free.
pub open spec fn absence_fault(m: Result<Metadata, FaultView>, occupied: Seq<char>) -> Option<
    FaultView,
> {
    match m {
        Ok(_) => Some(conflict_of(occupied)),
        Err(e) => if e.kind == FaultKind::NotFound {
            None
        } else {
            Some(e)
        },
    }
}

/// Accepts a path at which nothing stands.
pub fn require_absent(m: &Result<Metadata, Fault>, occupied: &str) -> (r: Result<(), Fault>)
    ensures
        agrees(r, absence_fault(result_view(*m), occupied@)),
{
    match m {
        Ok(_) => Err(conflict(occupied)),
        Err(e) => if e.kind == FaultKind::NotFound {
            Ok(())
        } else {
            Err(hand_on(e))
        },
    }
}

/// What a symbolic link at a path says.
#[derive(Debug)]
pub enum LinkObservation {
    /// A symbolic link with this target.
    Link(String),
    /// Something else stands there.
    Foreign,
    /// The path could not be looked at, or nothing stands there.
    Failed(Fault),
}

/// A link observation over plain values.
pub enum LinkView {
    Link(Seq<char>),
    Foreign,
    Failed(FaultView),
}

impl View for LinkObservation {
    type V = LinkView;

    open spec fn view(&self) -> LinkView {
        match self {
            LinkObservation::Link(t) => LinkView::Link(t@),
            LinkObservation::Foreign => LinkView::Foreign,
            LinkObservation::Failed(e) => LinkView::Failed(e@),
        }
    }
}

/// What an owned link is found as: itself, nothing, or a failure.
#[derive(Debug, PartialEq, Eq)]
pub enum OwnedLink {
    Exact,
    Missing,
}

/// How an observation stands to the link that is expected there.
pub open spec fn owned_link(o: LinkView, expected: Seq<char>, foreign: Seq<char>) -> Result<
    OwnedLink,
    FaultView,
> {
    match o {
        LinkView::Link(t) => if t == expected {
            Ok(OwnedLink::Exact)
        } else {
            Err(conflict_of(foreign))
        },
        LinkView::Foreign => Err(conflict_of(foreign)),
        LinkView::Failed(e) => if e.kind == FaultKind::NotFound {
            Ok(OwnedLink::Missing)
        } else {
            Err(e)
        },
    }
}

/// Tells the owned link, a free path and anything else apart.
pub fn classify_link(o: &LinkObservation, expected: &str, foreign: &str) -> (r: Result<
    OwnedLink,
    Fault,
>)
    ensures
        result_view(r) == owned_link(o@, expected@, foreign@),
{
    match o {
        LinkObservation::Link(t) => if crate::text::same(t.as_str(), expected) {
            Ok(OwnedLink::Exact)
        } else {
            Err(conflict(foreign))
        },
        LinkObservation::Foreign => Err(conflict(foreign)),
        LinkObservation::Failed(e) => if e.kind == FaultKind::NotFound {
            Ok(OwnedLink::Missing)
        } else {
            Err(hand_on(e))
        },
    }
}

/// What is owed to an installed link.
pub open spec fn installed_link_fault(o: LinkView, expected: Seq<char>) -> Option<FaultView> {
    match o {
        LinkView::Link(t) => if t == expected {
            None
        } else {
            Some(conflict_of("an installed publication link changed ownership"@))
        },
        LinkView::Foreign => Some(conflict_of("an installed publication link changed ownership"@)),
        LinkView::Failed(e) => Some(e),
    }
}

/// Accepts exactly the link that leads to the expected target.
pub fn verify_symlink(o: &LinkObservation, expected: &str) -> (r: Result<(), Fault>)
    ensures
        agrees(r, installed_link_fault(o@, expected@)),
{
    match o {
        LinkObservation::Link(t) => if crate::text::same(t.as_str(), expected) {
            Ok(())
        } else {
            Err(conflict("an installed publication link changed ownership"))
        },
        LinkObservation::Foreign => Err(
            conflict("an installed publication link changed ownership"),
        ),
        LinkObservation::Failed(e) => Err(hand_on(e)),
    }
}

} // verus!
