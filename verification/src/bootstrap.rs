//! Residues of the bootstrap helper in the runtime directory.

use vstd::prelude::*;
use vstd::string::*;

use crate::digest::{hex, hex_bytes, same_digest, sha256_digest, sha256_of};
use crate::fault::{conflict, conflict_of, hand_on, Fault, FaultView};
use crate::files::{agrees, result_view, FileKind, Metadata};
use crate::generation::FileRead;
use crate::model::option_text;
use crate::order::{sort, sorted, views, SortKey};
use crate::paths::{sort_paths, PathText};
use crate::text::{begins, chars, copy, from, is_lower_hex, same, without_prefix};

verus! {

/// The largest number of residues that one recovery takes on.
pub const MAX_RESIDUES: usize = 32;

/// The largest helper in bytes.
pub const MAX_HELPER_BYTES: u64 = 134217728;

/// The largest attribute of a residue in bytes.
pub const MAX_XATTR_BYTES: usize = 65536;

/// An attribute of a residue as it was found.
#[derive(Debug, PartialEq, Eq)]
pub struct XattrIdentity {
    pub name: String,
    pub byte_length: u32,
    pub digest: [u8; 32],
}

/// A residue attribute over plain values.
pub struct XattrIdentityView {
    pub name: Seq<char>,
    pub byte_length: u32,
    pub digest: Seq<u8>,
}

impl View for XattrIdentity {
    type V = XattrIdentityView;

    open spec fn view(&self) -> XattrIdentityView {
        XattrIdentityView {
            name: self.name@,
            byte_length: self.byte_length,
            digest: self.digest@,
        }
    }
}

impl SortKey for XattrIdentity {
    open spec fn key_of(v: XattrIdentityView) -> Seq<char> {
        v.name
    }

    fn key_text(&self) -> (s: String) {
        copy(self.name.as_str())
    }
}

/// The directory of a residue as it was found.
#[derive(Debug, PartialEq, Eq)]
pub struct ResidueDirectory {
    pub path: String,
    pub device: u64,
    pub inode: u64,
    pub mode: u32,
    pub owner_uid: u32,
    pub owner_gid: u32,
    pub xattrs: Vec<XattrIdentity>,
}

/// A residue directory over plain values.
pub struct ResidueDirectoryView {
    pub path: Seq<char>,
    pub device: u64,
    pub inode: u64,
    pub mode: u32,
    pub owner_uid: u32,
    pub owner_gid: u32,
    pub xattrs: Seq<XattrIdentityView>,
}

impl View for ResidueDirectory {
    type V = ResidueDirectoryView;

    open spec fn view(&self) -> ResidueDirectoryView {
        ResidueDirectoryView {
            path: self.path@,
            device: self.device,
            inode: self.inode,
            mode: self.mode,
            owner_uid: self.owner_uid,
            owner_gid: self.owner_gid,
            xattrs: views(self.xattrs@),
        }
    }
}

/// The helper of a residue as it was found.
#[derive(Debug, PartialEq, Eq)]
pub struct ResidueHelper {
    pub path: String,
    pub device: u64,
    pub inode: u64,
    pub mode: u32,
    pub owner_uid: u32,
    pub owner_gid: u32,
    pub links: u64,
    pub byte_length: u64,
    pub sha256: String,
    pub xattrs: Vec<XattrIdentity>,
}

/// A residue helper over plain values.
pub struct ResidueHelperView {
    pub path: Seq<char>,
    pub device: u64,
    pub inode: u64,
    pub mode: u32,
    pub owner_uid: u32,
    pub owner_gid: u32,
    pub links: u64,
    pub byte_length: u64,
    pub sha256: Seq<char>,
    pub xattrs: Seq<XattrIdentityView>,
}

impl View for ResidueHelper {
    type V = ResidueHelperView;

    open spec fn view(&self) -> ResidueHelperView {
        ResidueHelperView {
            path: self.path@,
            device: self.device,
            inode: self.inode,
            mode: self.mode,
            owner_uid: self.owner_uid,
            owner_gid: self.owner_gid,
            links: self.links,
            byte_length: self.byte_length,
            sha256: self.sha256@,
            xattrs: views(self.xattrs@),
        }
    }
}

/// What a bootstrap left behind.
#[derive(Debug, PartialEq, Eq)]
pub struct BootstrapResidue {
    pub directory: ResidueDirectory,
    pub helper: Option<ResidueHelper>,
}

/// A residue over plain values.
pub struct BootstrapResidueView {
    pub directory: ResidueDirectoryView,
    pub helper: Option<ResidueHelperView>,
}

pub open spec fn option_helper(h: Option<ResidueHelper>) -> Option<ResidueHelperView> {
    match h {
        Some(h) => Some(h@),
        None => None,
    }
}

impl View for BootstrapResidue {
    type V = BootstrapResidueView;

    open spec fn view(&self) -> BootstrapResidueView {
        BootstrapResidueView { directory: self.directory@, helper: option_helper(self.helper) }
    }
}

/// Whether a name is one that the bootstrap gives its directories.
pub open spec fn residue_name(name: Seq<char>) -> bool {
    let suffix = from(name, 16);
    &&& begins(name, "remap-bootstrap-"@)
    &&& suffix.len() == 32
    &&& forall|i: int| 0 <= i < suffix.len() ==> is_lower_hex(#[trigger] suffix[i])
}

/// Whether a name is one that the bootstrap gives its directories.
pub fn is_residue_name(name: &str) -> (r: bool)
    ensures
        r == residue_name(name@),
{
    proof {
        reveal_strlit("remap-bootstrap-");
        assert("remap-bootstrap-"@.len() == 16);
    }
    match without_prefix(name, "remap-bootstrap-") {
        None => false,
        Some(suffix) => {
            let v = chars(suffix.as_str());
            v.len() == 32 && crate::digest::all_lower_hex(&v)
        },
    }
}

/// The residue paths among the first `n` entries of the runtime directory.
pub open spec fn residue_entries(
    names: Seq<Option<Seq<char>>>,
    paths: Seq<Seq<char>>,
    n: int,
) -> Seq<Seq<char>>
    decreases n,
{
    if n <= 0 {
        Seq::empty()
    } else {
        let before = residue_entries(names, paths, n - 1);
        if names[n - 1] is Some && residue_name(names[n - 1]->0) {
            before.push(paths[n - 1])
        } else {
            before
        }
    }
}

/// An entry of the runtime directory.
#[derive(Debug)]
pub struct RuntimeEntry {
    pub name: Option<String>,
    pub path: String,
}

pub open spec fn entry_names(s: Seq<RuntimeEntry>) -> Seq<Option<Seq<char>>> {
    Seq::new(s.len(), |i: int| option_text(s[i].name))
}

pub open spec fn entry_paths(s: Seq<RuntimeEntry>) -> Seq<Seq<char>> {
    Seq::new(s.len(), |i: int| s[i].path@)
}

proof fn lemma_residues_grow(
    names: Seq<Option<Seq<char>>>,
    paths: Seq<Seq<char>>,
    n: int,
    m: int,
)
    requires
        0 <= n <= m,
    ensures
        residue_entries(names, paths, n).len() <= residue_entries(names, paths, m).len(),
    decreases m - n,
{
    if n < m {
        lemma_residues_grow(names, paths, n, m - 1);
    }
}

/// The residue paths of the runtime directory in order.
pub fn residue_paths(entries: &Vec<RuntimeEntry>) -> (r: Result<Vec<String>, Fault>)
    ensures
        ({
            let found = residue_entries(
                entry_names(entries@),
                entry_paths(entries@),
                entries@.len() as int,
            );
            match r {
                Ok(v) => found.len() <= MAX_RESIDUES && views(v@) == sorted::<PathText>(found),
                Err(e) => found.len() > MAX_RESIDUES && e@ == conflict_of(
                    "too many Linux bootstrap residues require recovery"@,
                ),
            }
        }),
{
    let ghost names = entry_names(entries@);
    let ghost paths = entry_paths(entries@);
    let mut found: Vec<String> = Vec::new();
    let mut i: usize = 0;
    proof {
        assert(views(found@) =~= Seq::<Seq<char>>::empty());
    }
    while i < entries.len()
        invariant
            i <= entries@.len(),
            names == entry_names(entries@),
            paths == entry_paths(entries@),
            views(found@) == residue_entries(names, paths, i as int),
            found@.len() <= MAX_RESIDUES,
        decreases entries@.len() - i,
    {
        let is_residue = match &entries[i].name {
            None => false,
            Some(name) => is_residue_name(name.as_str()),
        };
        proof {
            assert(names[i as int] == option_text(entries@[i as int].name));
            assert(paths[i as int] == entries@[i as int].path@);
            assert(views(found@).len() == found@.len());
        }
        if is_residue {
            if found.len() == MAX_RESIDUES {
                proof {
                    lemma_residues_grow(names, paths, i as int + 1, names.len() as int);
                }
                return Err(conflict("too many Linux bootstrap residues require recovery"));
            }
            crate::order::push_text(&mut found, copy(entries[i].path.as_str()));
            proof {
                assert(views(found@).len() == found@.len());
            }
        }
        i += 1;
    }
    proof {
        assert(views(found@).len() == found@.len());
    }
    Ok(sort_paths(found))
}

// ---------------------------------------------------------------------------
// One residue
// ---------------------------------------------------------------------------

/// An attribute of a residue: its name where it is text, and its value.
#[derive(Debug)]
pub struct ResidueXattr {
    pub name: Option<String>,
    pub value: Result<Option<Vec<u8>>, Fault>,
}

/// A residue attribute as it was found, over plain values.
pub struct ResidueXattrView {
    pub name: Option<Seq<char>>,
    pub value: Result<Option<Seq<u8>>, FaultView>,
}

impl View for ResidueXattr {
    type V = ResidueXattrView;

    open spec fn view(&self) -> ResidueXattrView {
        ResidueXattrView {
            name: option_text(self.name),
            value: match self.value {
                Ok(Some(v)) => Ok(Some(v@)),
                Ok(None) => Ok(None),
                Err(e) => Err(e@),
            },
        }
    }
}

/// Whether a residue may carry an attribute.
pub open spec fn residue_xattr_allowed(name: Seq<char>) -> bool {
    name == "security.evm"@ || name == "security.ima"@ || name == "security.selinux"@
}

/// One attribute as it is recorded, or why the residue is refused.
pub open spec fn recorded_xattr(a: ResidueXattrView) -> Result<XattrIdentityView, FaultView> {
    match a.name {
        None => Err(conflict_of("a Linux bootstrap residue has an invalid xattr name"@)),
        Some(name) => if !residue_xattr_allowed(name) {
            Err(conflict_of("a Linux bootstrap residue has an unapproved extended attribute"@))
        } else {
            match a.value {
                Err(e) => Err(e),
                Ok(None) => Err(
                    conflict_of("a Linux bootstrap residue xattr changed during review"@),
                ),
                Ok(Some(value)) => if value.len() > MAX_XATTR_BYTES {
                    Err(conflict_of("a Linux bootstrap residue xattr exceeds its bound"@))
                } else {
                    Ok(
                        XattrIdentityView {
                            name,
                            byte_length: value.len() as u32,
                            digest: sha256_of(value),
                        },
                    )
                },
            }
        },
    }
}

/// The first `n` attributes as they are recorded, or the first failure.
pub open spec fn recorded_xattrs(a: Seq<ResidueXattrView>, n: int) -> Result<
    Seq<XattrIdentityView>,
    FaultView,
>
    decreases n,
{
    if n <= 0 {
        Ok(Seq::empty())
    } else {
        match recorded_xattrs(a, n - 1) {
            Err(e) => Err(e),
            Ok(before) => match recorded_xattr(a[n - 1]) {
                Err(e) => Err(e),
                Ok(x) => Ok(before.push(x)),
            },
        }
    }
}

proof fn lemma_xattrs_fail(a: Seq<ResidueXattrView>, n: int, m: int)
    requires
        0 <= n <= m,
        recorded_xattrs(a, n) is Err,
    ensures
        recorded_xattrs(a, m) == recorded_xattrs(a, n),
    decreases m - n,
{
    if n < m {
        lemma_xattrs_fail(a, n, m - 1);
    }
}

fn record_xattr(a: &ResidueXattr) -> (r: Result<XattrIdentity, Fault>)
    ensures
        match r {
            Ok(x) => recorded_xattr(a@) == Ok::<XattrIdentityView, FaultView>(x@),
            Err(e) => recorded_xattr(a@) == Err::<XattrIdentityView, FaultView>(e@),
        },
{
    let name = match &a.name {
        None => {
            return Err(conflict("a Linux bootstrap residue has an invalid xattr name"));
        },
        Some(name) => name.as_str(),
    };
    if !same(name, "security.evm") && !same(name, "security.ima") && !same(
        name,
        "security.selinux",
    ) {
        return Err(conflict("a Linux bootstrap residue has an unapproved extended attribute"));
    }
    match &a.value {
        Err(e) => Err(hand_on(e)),
        Ok(None) => Err(conflict("a Linux bootstrap residue xattr changed during review")),
        Ok(Some(value)) => {
            if value.len() > MAX_XATTR_BYTES {
                return Err(conflict("a Linux bootstrap residue xattr exceeds its bound"));
            }
            Ok(
                XattrIdentity {
                    name: copy(name),
                    byte_length: value.len() as u32,
                    digest: sha256_digest(value.as_slice()),
                },
            )
        },
    }
}

/// The attributes of a residue in the order of their names.
pub fn xattr_identity(attributes: &Vec<ResidueXattr>) -> (r: Result<Vec<XattrIdentity>, Fault>)
    ensures
        match r {
            Ok(v) => recorded_xattrs(views(attributes@), attributes@.len() as int) is Ok && views(
                v@,
            ) == sorted::<XattrIdentity>(
                recorded_xattrs(views(attributes@), attributes@.len() as int)->Ok_0,
            ),
            Err(e) => recorded_xattrs(views(attributes@), attributes@.len() as int) == Err::<
                Seq<XattrIdentityView>,
                FaultView,
            >(e@),
        },
{
    let ghost av = views(attributes@);
    let mut v: Vec<XattrIdentity> = Vec::new();
    let mut i: usize = 0;
    proof {
        assert(views(v@) =~= Seq::<XattrIdentityView>::empty());
    }
    while i < attributes.len()
        invariant
            i <= attributes@.len(),
            av == views(attributes@),
            recorded_xattrs(av, i as int) == Ok::<Seq<XattrIdentityView>, FaultView>(views(v@)),
        decreases attributes@.len() - i,
    {
        proof {
            assert(av[i as int] == attributes@[i as int]@);
        }
        match record_xattr(&attributes[i]) {
            Err(e) => {
                proof {
                    lemma_xattrs_fail(av, i as int + 1, av.len() as int);
                }
                return Err(e);
            },
            Ok(x) => {
                let ghost before = views(v@);
                v.push(x);
                proof {
                    assert(views(v@) =~= before.push(x@));
                }
            },
        }
        i += 1;
    }
    Ok(sort(v))
}

/// The attributes of a residue as it records them, or the first failure.
pub open spec fn ordered_xattrs(a: Seq<ResidueXattrView>) -> Result<
    Seq<XattrIdentityView>,
    FaultView,
> {
    match recorded_xattrs(a, a.len() as int) {
        Err(e) => Err(e),
        Ok(v) => Ok(sorted::<XattrIdentity>(v)),
    }
}

/// The directory of a residue as it is recorded, or why it is refused.
pub open spec fn recorded_directory(
    path: Seq<char>,
    m: Metadata,
    a: Seq<ResidueXattrView>,
) -> Result<ResidueDirectoryView, FaultView> {
    if m.kind != FileKind::Directory || m.uid != 0 || m.gid != 0 || m.mode & 0o7777 != 0o711 {
        Err(conflict_of("a Linux bootstrap residue directory has unsafe metadata"@))
    } else {
        match ordered_xattrs(a) {
            Err(e) => Err(e),
            Ok(xattrs) => Ok(
                ResidueDirectoryView {
                    path,
                    device: m.device,
                    inode: m.inode,
                    mode: m.mode & 0o7777,
                    owner_uid: m.uid,
                    owner_gid: m.gid,
                    xattrs,
                },
            ),
        }
    }
}

/// Records the directory of a residue.
pub fn directory_identity(path: &str, m: &Metadata, attributes: &Vec<ResidueXattr>) -> (r: Result<
    ResidueDirectory,
    Fault,
>)
    ensures
        match r {
            Ok(d) => recorded_directory(path@, *m, views(attributes@)) == Ok::<
                ResidueDirectoryView,
                FaultView,
            >(d@),
            Err(e) => recorded_directory(path@, *m, views(attributes@)) == Err::<
                ResidueDirectoryView,
                FaultView,
            >(e@),
        },
{
    if m.kind != FileKind::Directory || m.uid != 0 || m.gid != 0 || m.mode & 0o7777 != 0o711 {
        return Err(conflict("a Linux bootstrap residue directory has unsafe metadata"));
    }
    proof {
        assert(views(attributes@).len() == attributes@.len());
    }
    match xattr_identity(attributes) {
        Err(e) => Err(e),
        Ok(xattrs) => Ok(
            ResidueDirectory {
                path: copy(path),
                device: m.device,
                inode: m.inode,
                mode: m.mode & 0o7777,
                owner_uid: m.uid,
                owner_gid: m.gid,
                xattrs,
            },
        ),
    }
}

pub open spec fn helper_metadata_safe(m: Metadata) -> bool {
    &&& m.kind == FileKind::File
    &&& m.uid == 0
    &&& m.gid == 0
    &&& m.mode & 0o7777 == 0o555
    &&& m.links == 1
    &&& 0 < m.length <= MAX_HELPER_BYTES
}

/// The helper of a residue as it is recorded, or why it is refused.
pub open spec fn recorded_helper(
    path: Seq<char>,
    m: Metadata,
    contents: Result<Seq<u8>, FaultView>,
    a: Seq<ResidueXattrView>,
) -> Result<ResidueHelperView, FaultView> {
    if !helper_metadata_safe(m) {
        Err(conflict_of("a Linux bootstrap residue helper has unsafe metadata"@))
    } else {
        match contents {
            Err(e) => Err(e),
            Ok(bytes) => match ordered_xattrs(a) {
                Err(e) => Err(e),
                Ok(xattrs) => Ok(
                    ResidueHelperView {
                        path,
                        device: m.device,
                        inode: m.inode,
                        mode: m.mode & 0o7777,
                        owner_uid: m.uid,
                        owner_gid: m.gid,
                        links: m.links,
                        byte_length: m.length,
                        sha256: hex_bytes(sha256_of(bytes)),
                        xattrs,
                    },
                ),
            },
        }
    }
}

/// Records the helper of a residue.
pub fn helper_identity(
    path: &str,
    m: &Metadata,
    contents: &FileRead,
    attributes: &Vec<ResidueXattr>,
) -> (r: Result<ResidueHelper, Fault>)
    ensures
        match r {
            Ok(h) => recorded_helper(path@, *m, contents@, views(attributes@)) == Ok::<
                ResidueHelperView,
                FaultView,
            >(h@),
            Err(e) => recorded_helper(path@, *m, contents@, views(attributes@)) == Err::<
                ResidueHelperView,
                FaultView,
            >(e@),
        },
{
    if m.kind != FileKind::File || m.uid != 0 || m.gid != 0 || m.mode & 0o7777 != 0o555 || m.links
        != 1 || m.length == 0 || m.length > MAX_HELPER_BYTES {
        return Err(conflict("a Linux bootstrap residue helper has unsafe metadata"));
    }
    proof {
        assert(views(attributes@).len() == attributes@.len());
    }
    match &contents.result {
        Err(e) => Err(hand_on(e)),
        Ok(bytes) => {
            let sha256 = hex(&sha256_digest(bytes.as_slice()));
            match xattr_identity(attributes) {
                Err(e) => Err(e),
                Ok(xattrs) => Ok(
                    ResidueHelper {
                        path: copy(path),
                        device: m.device,
                        inode: m.inode,
                        mode: m.mode & 0o7777,
                        owner_uid: m.uid,
                        owner_gid: m.gid,
                        links: m.links,
                        byte_length: m.length,
                        sha256,
                        xattrs,
                    },
                ),
            }
        },
    }
}

/// What came of taking the lock of a residue.
#[derive(Debug)]
pub enum LockOutcome {
    Held,
    Busy,
    Failed(Fault),
}

/// A lock outcome over plain values.
pub enum LockView {
    Held,
    Busy,
    Failed(FaultView),
}

impl View for LockOutcome {
    type V = LockView;

    open spec fn view(&self) -> LockView {
        match self {
            LockOutcome::Held => LockView::Held,
            LockOutcome::Busy => LockView::Busy,
            LockOutcome::Failed(e) => LockView::Failed(e@),
        }
    }
}

/// Whether the helper is among the entries of a residue, or the failure of an
/// entry that is not it.
pub open spec fn helper_present(names: Seq<Option<Seq<char>>>) -> Result<bool, FaultView> {
    if names.len() == 0 {
        Ok(false)
    } else if names.len() == 1 && names[0] == Some("remap-linux-system"@) {
        Ok(true)
    } else {
        Err(conflict_of("a Linux bootstrap residue contains an unowned entry"@))
    }
}

/// Whether the helper is the one entry of a residue.
pub fn inspect_residue_entries(names: &Vec<Option<String>>) -> (r: Result<bool, Fault>)
    ensures
        result_view(r) == helper_present(
            Seq::new(names@.len(), |i: int| option_text(names@[i])),
        ),
{
    if names.len() == 0 {
        return Ok(false);
    }
    let is_helper = match &names[0] {
        Some(name) => same(name.as_str(), "remap-linux-system"),
        None => false,
    };
    if names.len() == 1 && is_helper {
        Ok(true)
    } else {
        Err(conflict("a Linux bootstrap residue contains an unowned entry"))
    }
}

/// What was found where a residue stands. Everything behind the directory's
/// lock counts only where that lock is held, and so for the helper's.
#[derive(Debug)]
pub struct ResidueObservation {
    pub path: String,
    pub helper_path: String,
    pub directory_lock: LockOutcome,
    pub directory: Metadata,
    pub directory_xattrs: Vec<ResidueXattr>,
    pub names: Vec<Option<String>>,
    pub helper_lock: LockOutcome,
    pub helper: Metadata,
    pub helper_contents: FileRead,
    pub helper_xattrs: Vec<ResidueXattr>,
}

/// What a residue is recorded as: nothing while another run holds it.
pub open spec fn recorded_residue(o: ResidueObservation) -> Result<
    Option<BootstrapResidueView>,
    FaultView,
> {
    match o.directory_lock@ {
        LockView::Busy => Ok(None),
        LockView::Failed(e) => Err(e),
        LockView::Held => match recorded_directory(
            o.path@,
            o.directory,
            views(o.directory_xattrs@),
        ) {
            Err(e) => Err(e),
            Ok(directory) => match helper_present(
                Seq::new(o.names@.len(), |i: int| option_text(o.names@[i])),
            ) {
                Err(e) => Err(e),
                Ok(false) => Ok(Some(BootstrapResidueView { directory, helper: None })),
                Ok(true) => match o.helper_lock@ {
                    LockView::Busy => Ok(None),
                    LockView::Failed(e) => Err(e),
                    LockView::Held => match recorded_helper(
                        o.helper_path@,
                        o.helper,
                        o.helper_contents@,
                        views(o.helper_xattrs@),
                    ) {
                        Err(e) => Err(e),
                        Ok(helper) => Ok(
                            Some(BootstrapResidueView { directory, helper: Some(helper) }),
                        ),
                    },
                },
            },
        },
    }
}

pub open spec fn residue_result(r: Result<Option<BootstrapResidue>, Fault>) -> Result<
    Option<BootstrapResidueView>,
    FaultView,
> {
    match r {
        Ok(Some(v)) => Ok(Some(v@)),
        Ok(None) => Ok(None),
        Err(e) => Err(e@),
    }
}

/// Records a residue whose locks are held.
pub fn lock_residue(o: &ResidueObservation) -> (r: Result<Option<BootstrapResidue>, Fault>)
    ensures
        residue_result(r) == recorded_residue(*o),
{
    match &o.directory_lock {
        LockOutcome::Busy => {
            return Ok(None);
        },
        LockOutcome::Failed(e) => {
            return Err(hand_on(e));
        },
        LockOutcome::Held => {},
    }
    let directory = match directory_identity(o.path.as_str(), &o.directory, &o.directory_xattrs) {
        Err(e) => {
            return Err(e);
        },
        Ok(directory) => directory,
    };
    let present = match inspect_residue_entries(&o.names) {
        Err(e) => {
            return Err(e);
        },
        Ok(present) => present,
    };
    if !present {
        return Ok(Some(BootstrapResidue { directory, helper: None }));
    }
    match &o.helper_lock {
        LockOutcome::Busy => Ok(None),
        LockOutcome::Failed(e) => Err(hand_on(e)),
        LockOutcome::Held => match helper_identity(
            o.helper_path.as_str(),
            &o.helper,
            &o.helper_contents,
            &o.helper_xattrs,
        ) {
            Err(e) => Err(e),
            Ok(helper) => Ok(Some(BootstrapResidue { directory, helper: Some(helper) })),
        },
    }
}

/// What is owed to the runtime directory.
pub fn validate_runtime(m: &Metadata, attributes: &Vec<ResidueXattr>) -> (r: Result<(), Fault>)
    ensures
        agrees(
            r,
            if m.kind != FileKind::Directory || m.uid != 0 || m.gid != 0 || m.mode & 0o022 != 0 {
                Some(conflict_of("the Linux runtime directory has unsafe metadata"@))
            } else {
                match ordered_xattrs(views(attributes@)) {
                    Err(e) => Some(e),
                    Ok(_) => None,
                }
            },
        ),
{
    if m.kind != FileKind::Directory || m.uid != 0 || m.gid != 0 || m.mode & 0o022 != 0 {
        return Err(conflict("the Linux runtime directory has unsafe metadata"));
    }
    proof {
        assert(views(attributes@).len() == attributes@.len());
    }
    match xattr_identity(attributes) {
        Err(e) => Err(e),
        Ok(_) => Ok(()),
    }
}

// ---------------------------------------------------------------------------
// Approved cleanup
// ---------------------------------------------------------------------------

fn same_xattrs(a: &Vec<XattrIdentity>, b: &Vec<XattrIdentity>) -> (r: bool)
    ensures
        r == (views(a@) == views(b@)),
{
    if a.len() != b.len() {
        proof {
            assert(views(a@).len() != views(b@).len());
        }
        return false;
    }
    let mut i: usize = 0;
    while i < a.len()
        invariant
            i <= a@.len(),
            a@.len() == b@.len(),
            forall|k: int| 0 <= k < i ==> (#[trigger] a@[k])@ == b@[k]@,
        decreases a@.len() - i,
    {
        if !same(a[i].name.as_str(), b[i].name.as_str()) || a[i].byte_length != b[i].byte_length
            || !same_digest(&a[i].digest, &b[i].digest) {
            proof {
                assert(views(a@)[i as int] != views(b@)[i as int]);
            }
            return false;
        }
        i += 1;
    }
    proof {
        assert(views(a@) =~= views(b@));
    }
    true
}

fn copy_xattrs(v: &Vec<XattrIdentity>) -> (r: Vec<XattrIdentity>)
    ensures
        views(r@) == views(v@),
{
    let mut r: Vec<XattrIdentity> = Vec::new();
    let mut i: usize = 0;
    while i < v.len()
        invariant
            i <= v@.len(),
            r@.len() == i,
            forall|k: int| 0 <= k < i ==> (#[trigger] r@[k])@ == v@[k]@,
        decreases v@.len() - i,
    {
        let x = &v[i];
        r.push(
            XattrIdentity {
                name: copy(x.name.as_str()),
                byte_length: x.byte_length,
                digest: x.digest,
            },
        );
        i += 1;
    }
    proof {
        assert(views(r@) =~= views(v@));
    }
    r
}

/// A copy of residues.
pub fn copy_residues(v: &Vec<BootstrapResidue>) -> (r: Vec<BootstrapResidue>)
    ensures
        views(r@) == views(v@),
{
    let mut r: Vec<BootstrapResidue> = Vec::new();
    let mut i: usize = 0;
    while i < v.len()
        invariant
            i <= v@.len(),
            r@.len() == i,
            forall|k: int| 0 <= k < i ==> (#[trigger] r@[k])@ == v@[k]@,
        decreases v@.len() - i,
    {
        r.push(v[i].duplicate());
        i += 1;
    }
    proof {
        assert(views(r@) =~= views(v@));
    }
    r
}

impl BootstrapResidue {
    /// A copy of the residue.
    pub fn duplicate(&self) -> (r: BootstrapResidue)
        ensures
            r@ == self@,
    {
        let d = &self.directory;
        let helper = match &self.helper {
            None => None,
            Some(h) => Some(
                ResidueHelper {
                    path: copy(h.path.as_str()),
                    device: h.device,
                    inode: h.inode,
                    mode: h.mode,
                    owner_uid: h.owner_uid,
                    owner_gid: h.owner_gid,
                    links: h.links,
                    byte_length: h.byte_length,
                    sha256: copy(h.sha256.as_str()),
                    xattrs: copy_xattrs(&h.xattrs),
                },
            ),
        };
        BootstrapResidue {
            directory: ResidueDirectory {
                path: copy(d.path.as_str()),
                device: d.device,
                inode: d.inode,
                mode: d.mode,
                owner_uid: d.owner_uid,
                owner_gid: d.owner_gid,
                xattrs: copy_xattrs(&d.xattrs),
            },
            helper,
        }
    }

    /// Whether two residues are the same.
    pub fn same_as(&self, other: &BootstrapResidue) -> (r: bool)
        ensures
            r == (self@ == other@),
    {
        let d = &self.directory;
        let e = &other.directory;
        if !(same(d.path.as_str(), e.path.as_str()) && d.device == e.device && d.inode == e.inode
            && d.mode == e.mode && d.owner_uid == e.owner_uid && d.owner_gid == e.owner_gid
            && same_xattrs(&d.xattrs, &e.xattrs)) {
            return false;
        }
        match (&self.helper, &other.helper) {
            (None, None) => true,
            (Some(a), Some(b)) => same(a.path.as_str(), b.path.as_str()) && a.device == b.device
                && a.inode == b.inode && a.mode == b.mode && a.owner_uid == b.owner_uid
                && a.owner_gid == b.owner_gid && a.links == b.links && a.byte_length
                == b.byte_length && same(a.sha256.as_str(), b.sha256.as_str()) && same_xattrs(
                &a.xattrs,
                &b.xattrs,
            ),
            _ => false,
        }
    }
}

/// Accepts the removal of residues only where they are still the approved ones.
pub fn require_approved_residues(
    actual: &Vec<BootstrapResidue>,
    expected: &Vec<BootstrapResidue>,
) -> (r: Result<(), Fault>)
    ensures
        r is Ok <==> views(actual@) == views(expected@),
        r is Err ==> r->Err_0@ == conflict_of(
            "the verified Linux bootstrap residue changed after approval"@,
        ),
{
    let ghost av = views(actual@);
    let ghost ev = views(expected@);
    if actual.len() != expected.len() {
        proof {
            assert(av.len() != ev.len());
        }
        return Err(conflict("the verified Linux bootstrap residue changed after approval"));
    }
    let mut i: usize = 0;
    while i < actual.len()
        invariant
            i <= actual@.len(),
            actual@.len() == expected@.len(),
            av == views(actual@),
            ev == views(expected@),
            forall|k: int| 0 <= k < i ==> (#[trigger] actual@[k])@ == expected@[k]@,
        decreases actual@.len() - i,
    {
        if !actual[i].same_as(&expected[i]) {
            proof {
                assert(av[i as int] != ev[i as int]);
            }
            return Err(conflict("the verified Linux bootstrap residue changed after approval"));
        }
        i += 1;
    }
    proof {
        assert(av =~= ev);
    }
    Ok(())
}

} // verus!
