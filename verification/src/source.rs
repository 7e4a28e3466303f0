//! What is accepted of files that are installed, and of files that were.

use vstd::prelude::*;
use vstd::string::*;
use vstd::utf8::valid_utf8;

use crate::fault::{conflict, conflict_of, hand_on, invalid_data, invalid_of, refused, Fault, FaultView};
use crate::files::{result_view, FileKind, Metadata};
use crate::order::{push_text, views};
use crate::paths::{path_pieces, pieces};
use crate::text::{begins, copy, same, starts_with};

verus! {

/// The largest executable in bytes.
pub const MAX_BINARY_BYTES: u64 = 134217728;

/// The largest other file in bytes.
pub const MAX_ASSET_BYTES: u64 = 1048576;

/// The largest platform attribute in bytes.
pub const MAX_PLATFORM_XATTR_BYTES: u64 = 4096;

/// The length of an ownership marker in bytes.
pub const OWNERSHIP_NONCE_BYTES: u64 = 16;

/// An extended attribute: its name, where it is text, and the length of its value.
#[derive(Debug)]
pub struct XattrObservation {
    pub name: Option<String>,
    pub length: Result<Option<u64>, Fault>,
}

/// An attribute over plain values.
pub struct XattrView {
    pub name: Option<Seq<char>>,
    pub length: Result<Option<u64>, FaultView>,
}

impl View for XattrObservation {
    type V = XattrView;

    open spec fn view(&self) -> XattrView {
        XattrView {
            name: crate::model::option_text(self.name),
            length: result_view(self.length),
        }
    }
}

/// What the attributes of a file come to.
#[derive(Debug, Clone, Copy, PartialEq, Eq, Structural)]
pub struct XattrStatus {
    pub empty: bool,
    pub installed_safe: bool,
}

/// Whether an attribute is one that the platform sets.
pub open spec fn is_platform_xattr(name: Seq<char>) -> bool {
    name == "security.evm"@ || name == "security.ima"@ || name == "security.selinux"@
}

/// Whether an attribute of this length may stand on an installed file.
pub open spec fn xattr_acceptable(name: Seq<char>, length: u64, allow_marker: bool) -> bool {
    (is_platform_xattr(name) && length <= MAX_PLATFORM_XATTR_BYTES) || (allow_marker && name
        == "user.remap.owner"@ && length == OWNERSHIP_NONCE_BYTES)
}

/// Whether the first `n` attributes are acceptable, or the first failure.
pub open spec fn xattrs_safe(a: Seq<XattrView>, allow_marker: bool, n: int) -> Result<
    bool,
    FaultView,
>
    decreases n,
{
    if n <= 0 {
        Ok(true)
    } else {
        match xattrs_safe(a, allow_marker, n - 1) {
            Err(e) => Err(e),
            Ok(before) => match a[n - 1].name {
                None => Ok(false),
                Some(name) => match a[n - 1].length {
                    Err(e) => Err(e),
                    Ok(None) => Err(
                        conflict_of(
                            "an installation file extended attribute changed during inspection"@,
                        ),
                    ),
                    Ok(Some(length)) => Ok(before && xattr_acceptable(name, length, allow_marker)),
                },
            },
        }
    }
}

proof fn lemma_xattrs_fail(a: Seq<XattrView>, allow_marker: bool, n: int, m: int)
    requires
        0 <= n <= m,
        xattrs_safe(a, allow_marker, n) is Err,
    ensures
        xattrs_safe(a, allow_marker, m) == xattrs_safe(a, allow_marker, n),
    decreases m - n,
{
    if n < m {
        lemma_xattrs_fail(a, allow_marker, n, m - 1);
    }
}

/// Judges the attributes of a file.
pub fn inspect_xattrs(attributes: &Vec<XattrObservation>, allow_marker: bool) -> (r: Result<
    XattrStatus,
    Fault,
>)
    ensures
        match r {
            Ok(status) => status.empty == (attributes@.len() == 0) && xattrs_safe(
                views(attributes@),
                allow_marker,
                attributes@.len() as int,
            ) == Ok::<bool, FaultView>(status.installed_safe),
            Err(e) => xattrs_safe(views(attributes@), allow_marker, attributes@.len() as int)
                == Err::<bool, FaultView>(e@),
        },
{
    let ghost av = views(attributes@);
    let mut safe = true;
    let mut i: usize = 0;
    while i < attributes.len()
        invariant
            i <= attributes@.len(),
            av == views(attributes@),
            xattrs_safe(av, allow_marker, i as int) == Ok::<bool, FaultView>(safe),
        decreases attributes@.len() - i,
    {
        let attribute = &attributes[i];
        proof {
            assert(av[i as int] == attribute@);
        }
        match &attribute.name {
            None => {
                safe = false;
            },
            Some(name) => {
                let length: u64 = match &attribute.length {
                    Err(e) => {
                        proof {
                            lemma_xattrs_fail(av, allow_marker, i as int + 1, av.len() as int);
                        }
                        return Err(hand_on(e));
                    },
                    Ok(None) => {
                        proof {
                            lemma_xattrs_fail(av, allow_marker, i as int + 1, av.len() as int);
                        }
                        return Err(
                            conflict(
                                "an installation file extended attribute changed during inspection",
                            ),
                        );
                    },
                    Ok(Some(length)) => *length,
                };
                let n = name.as_str();
                let platform = (same(n, "security.evm") || same(n, "security.ima") || same(
                    n,
                    "security.selinux",
                )) && length <= MAX_PLATFORM_XATTR_BYTES;
                let owner = allow_marker && same(n, "user.remap.owner") && length
                    == OWNERSHIP_NONCE_BYTES;
                safe = safe && (platform || owner);
            },
        }
        i += 1;
    }
    Ok(XattrStatus { empty: attributes.len() == 0, installed_safe: safe })
}

// ---------------------------------------------------------------------------
// Bounded reads
// ---------------------------------------------------------------------------

/// Accepts the length of a file that is about to be read.
pub fn require_bounded_length(length: u64, maximum: u64) -> (r: Result<(), Fault>)
    ensures
        r is Ok <==> 0 < length <= maximum,
        r is Err ==> refused(r, invalid_of("an installation file exceeds its bound"@)),
{
    if length == 0 || length > maximum {
        Err(invalid_data("an installation file exceeds its bound"))
    } else {
        Ok(())
    }
}

/// Accepts what was read only at the length that was announced.
pub fn require_stable_length(bytes: &[u8], length: u64) -> (r: Result<(), Fault>)
    ensures
        r is Ok <==> bytes@.len() == length,
        r is Err ==> refused(r, invalid_of("an installation file changed while it was read"@)),
{
    if bytes.len() as u64 != length {
        Err(invalid_data("an installation file changed while it was read"))
    } else {
        Ok(())
    }
}

/// A regular file with one name, of root or the owner, that no one else may
/// write and that has no extended attributes.
pub open spec fn source_metadata_safe(m: Metadata, xattrs: XattrStatus, owner_uid: u32) -> bool {
    &&& m.kind == FileKind::File
    &&& m.links == 1
    &&& (m.uid == 0 || m.uid == owner_uid)
    &&& m.mode & 0o022 == 0
    &&& xattrs.empty
}

/// Whether bytes begin as an executable does.
pub open spec fn is_elf(b: Seq<u8>) -> bool {
    b.len() >= 4 && b[0] == 0x7f && b[1] == 69 && b[2] == 76 && b[3] == 70
}

fn source_metadata_is_safe(m: &Metadata, xattrs: &XattrStatus, owner_uid: u32) -> (r: bool)
    ensures
        r == source_metadata_safe(*m, *xattrs, owner_uid),
{
    m.kind == FileKind::File && m.links == 1 && (m.uid == 0 || m.uid == owner_uid) && m.mode & 0o022
        == 0 && xattrs.empty
}

/// Accepts an executable that is to be installed.
pub fn accept_source(m: &Metadata, xattrs: &XattrStatus, bytes: &[u8], owner_uid: u32) -> (r: Result<
    (),
    Fault,
>)
    ensures
        r is Ok <==> source_metadata_safe(*m, *xattrs, owner_uid) && is_elf(bytes@),
        r is Err ==> refused(r, conflict_of("an installation source binary is unsafe"@)),
{
    if source_metadata_is_safe(m, xattrs, owner_uid) && bytes.len() >= 4 && bytes[0] == 0x7f
        && bytes[1] == 69 && bytes[2] == 76 && bytes[3] == 70 {
        Ok(())
    } else {
        Err(conflict("an installation source binary is unsafe"))
    }
}

fn has_zero(bytes: &[u8]) -> (r: bool)
    ensures
        r == bytes@.contains(0u8),
{
    let mut i: usize = 0;
    while i < bytes.len()
        invariant
            i <= bytes@.len(),
            forall|k: int| 0 <= k < i ==> bytes@[k] != 0,
        decreases bytes@.len() - i,
    {
        if bytes[i] == 0 {
            proof {
                assert(bytes@[i as int] == 0u8);
            }
            return true;
        }
        i += 1;
    }
    false
}

/// Accepts a text that is to be installed: UTF-8 without zero bytes.
pub fn accept_asset(m: &Metadata, xattrs: &XattrStatus, bytes: &[u8], owner_uid: u32) -> (r: Result<
    (),
    Fault,
>)
    ensures
        r is Ok <==> source_metadata_safe(*m, *xattrs, owner_uid) && !bytes@.contains(0u8)
            && valid_utf8(bytes@),
        r is Err ==> refused(r, conflict_of("a Linux documentation asset is unsafe"@)),
{
    if source_metadata_is_safe(m, xattrs, owner_uid) && !has_zero(bytes) && crate::text::decode_text(
        crate::generation::copy_bytes(bytes),
    ).is_some() {
        Ok(())
    } else {
        Err(conflict("a Linux documentation asset is unsafe"))
    }
}

/// An installed file that is still root's own with its mode and length.
pub open spec fn owned_file_safe(m: Metadata, xattrs: XattrStatus, mode: u32, length: u64) -> bool {
    &&& m.kind == FileKind::File
    &&& m.uid == 0
    &&& m.links == 1
    &&& m.mode & 0o777 == mode
    &&& m.length == length
    &&& xattrs.installed_safe
}

/// Accepts an installed file that is still root's own with its mode and length.
pub fn accept_owned_file(m: &Metadata, xattrs: &XattrStatus, mode: u32, length: u64) -> (r: Result<
    (),
    Fault,
>)
    ensures
        r is Ok <==> owned_file_safe(*m, *xattrs, mode, length),
        r is Err ==> refused(
            r,
            conflict_of("an installed artifact changed ownership or metadata"@),
        ),
{
    if m.kind == FileKind::File && m.uid == 0 && m.links == 1 && m.mode & 0o777 == mode && m.length
        == length && xattrs.installed_safe {
        Ok(())
    } else {
        Err(conflict("an installed artifact changed ownership or metadata"))
    }
}

/// What is owed to a root-owned private state file of a given form.
pub open spec fn state_file_safe(m: Metadata, maximum: Option<u64>) -> bool {
    &&& m.kind == FileKind::File
    &&& m.uid == 0
    &&& m.links == 1
    &&& m.mode & 0o777 == 0o600
    &&& maximum is Some ==> 0 < m.length <= maximum->0
}

/// Accepts the file of the installation record, and gives its length.
pub fn accept_record_file(m: &Metadata, xattrs_safe: &Result<bool, Fault>, maximum: Option<u64>) -> (r:
    Result<u64, Fault>)
    ensures
        match r {
            Ok(length) => state_file_safe(*m, maximum) && result_view(*xattrs_safe) == Ok::<
                bool,
                FaultView,
            >(true) && length == m.length,
            Err(e) => if !state_file_safe(*m, maximum) {
                e@ == conflict_of("a Linux installation state file is unsafe"@)
            } else {
                match result_view(*xattrs_safe) {
                    Err(f) => e@ == f,
                    Ok(safe) => !safe && e@ == conflict_of(
                        "a Linux installation state file has unsafe extended attributes"@,
                    ),
                }
            },
        },
{
    let bounded = match maximum {
        None => true,
        Some(bound) => m.length > 0 && m.length <= bound,
    };
    if m.kind != FileKind::File || m.uid != 0 || m.links != 1 || m.mode & 0o777 != 0o600 || !bounded {
        return Err(conflict("a Linux installation state file is unsafe"));
    }
    match xattrs_safe {
        Err(e) => Err(hand_on(e)),
        Ok(safe) => if *safe {
            Ok(m.length)
        } else {
            Err(conflict("a Linux installation state file has unsafe extended attributes"))
        },
    }
}

/// Accepts the lock that lets one lifecycle run at a time.
pub fn accept_lock_file(m: &Metadata, owner_uid: u32) -> (r: Result<(), Fault>)
    ensures
        r is Ok <==> m.kind == FileKind::File && m.uid == owner_uid && m.links == 1 && m.mode & 0o777
            == 0o600 && m.length == 0,
        r is Err ==> refused(r, conflict_of("the Linux lifecycle authority lock is unsafe"@)),
{
    if m.kind == FileKind::File && m.uid == owner_uid && m.links == 1 && m.mode & 0o777 == 0o600
        && m.length == 0 {
        Ok(())
    } else {
        Err(conflict("the Linux lifecycle authority lock is unsafe"))
    }
}

// ---------------------------------------------------------------------------
// Rooted paths
// ---------------------------------------------------------------------------

/// How a path is opened from the root: through directories, down to a file or
/// to a failure.
#[derive(Debug)]
pub struct RootedPath {
    pub directories: Vec<String>,
    pub file: Result<String, Fault>,
}

/// How a path is opened from the root, over plain values.
pub struct RootedPathView {
    pub directories: Seq<Seq<char>>,
    pub file: Result<Seq<char>, FaultView>,
}

impl View for RootedPath {
    type V = RootedPathView;

    open spec fn view(&self) -> RootedPathView {
        RootedPathView {
            directories: views(self.directories@),
            file: match self.file {
                Ok(name) => Ok(name@),
                Err(e) => Err(e@),
            },
        }
    }
}

/// The walk along components: every one but the last is a directory; one that
/// leads upwards ends the walk.
pub open spec fn rooted_walk(pieces: Seq<Seq<char>>) -> RootedPathView
    decreases pieces.len(),
{
    if pieces.len() == 0 {
        RootedPathView {
            directories: Seq::empty(),
            file: Err(invalid_of("an installation source path has no file name"@)),
        }
    } else if pieces[0] == seq!['.', '.'] {
        RootedPathView {
            directories: Seq::empty(),
            file: Err(invalid_of("an installation source path contains an unsafe component"@)),
        }
    } else if pieces.len() == 1 {
        RootedPathView { directories: Seq::empty(), file: Ok(pieces[0]) }
    } else {
        let rest = rooted_walk(pieces.drop_first());
        RootedPathView { directories: seq![pieces[0]] + rest.directories, file: rest.file }
    }
}

/// The walk to a path from the root; only an absolute path has one.
pub open spec fn rooted_path(s: Seq<char>) -> RootedPathView {
    if begins(s, seq!['/']) {
        rooted_walk(path_pieces(s))
    } else {
        RootedPathView {
            directories: Seq::empty(),
            file: Err(invalid_of("an installation source path must be absolute"@)),
        }
    }
}

/// The walk to a path from the root.
pub fn rooted(path: &str) -> (r: RootedPath)
    ensures
        r@ == rooted_path(path@),
{
    proof {
        reveal_strlit("/");
        reveal_strlit("..");
        assert("/"@ =~= seq!['/']);
        assert(".."@ =~= seq!['.', '.']);
    }
    let mut directories: Vec<String> = Vec::new();
    if !starts_with(path, "/") {
        proof {
            assert(views(directories@) =~= Seq::<Seq<char>>::empty());
        }
        return RootedPath {
            directories,
            file: Err(invalid_data("an installation source path must be absolute")),
        };
    }
    let parts = pieces(path);
    let ghost pv = path_pieces(path@);
    let ghost whole = rooted_walk(pv);
    let mut i: usize = 0;
    proof {
        assert(views(parts@).len() == parts@.len());
        assert(pv.subrange(0, pv.len() as int) =~= pv);
        assert(views(directories@) + whole.directories =~= whole.directories);
    }
    loop
        invariant
            i <= parts@.len(),
            views(parts@) == pv,
            ".."@ == seq!['.', '.'],
            whole == rooted_walk(pv),
            whole == rooted_path(path@),
            whole.file == rooted_walk(pv.subrange(i as int, pv.len() as int)).file,
            whole.directories == views(directories@) + rooted_walk(
                pv.subrange(i as int, pv.len() as int),
            ).directories,
        decreases parts@.len() - i,
    {
        let ghost rest = pv.subrange(i as int, pv.len() as int);
        let ghost before = views(directories@);
        if i == parts.len() {
            proof {
                assert(before + Seq::<Seq<char>>::empty() =~= before);
            }
            return RootedPath {
                directories,
                file: Err(invalid_data("an installation source path has no file name")),
            };
        }
        proof {
            assert(rest[0] == parts@[i as int]@) by {
                assert(views(parts@)[i as int] == parts@[i as int]@);
            }
        }
        if same(parts[i].as_str(), "..") {
            proof {
                assert(before + Seq::<Seq<char>>::empty() =~= before);
            }
            return RootedPath {
                directories,
                file: Err(
                    invalid_data("an installation source path contains an unsafe component"),
                ),
            };
        }
        if i + 1 == parts.len() {
            proof {
                assert(before + Seq::<Seq<char>>::empty() =~= before);
            }
            return RootedPath { directories, file: Ok(copy(parts[i].as_str())) };
        }
        push_text(&mut directories, copy(parts[i].as_str()));
        proof {
            assert(rest.drop_first() =~= pv.subrange(i as int + 1, pv.len() as int));
            let tail = rooted_walk(rest.drop_first()).directories;
            assert(before + (seq![rest[0]] + tail) =~= views(directories@) + tail);
        }
        i += 1;
    }
}

/// The walk to a path never leads upwards.
pub proof fn law_rooted_walk_never_climbs(pieces: Seq<Seq<char>>)
    ensures
        forall|i: int|
            0 <= i < rooted_walk(pieces).directories.len() ==> #[trigger] rooted_walk(
                pieces,
            ).directories[i] != seq!['.', '.'],
        rooted_walk(pieces).file is Ok ==> rooted_walk(pieces).file->Ok_0 != seq!['.', '.'],
    decreases pieces.len(),
{
    if pieces.len() > 1 && pieces[0] != seq!['.', '.'] {
        law_rooted_walk_never_climbs(pieces.drop_first());
        let rest = rooted_walk(pieces.drop_first());
        let all = rooted_walk(pieces);
        assert forall|i: int| 0 <= i < all.directories.len() implies #[trigger] all.directories[i]
            != seq!['.', '.'] by {
            if i > 0 {
                assert(all.directories[i] == rest.directories[i - 1]);
            }
        }
    }
}

} // verus!
