//! The state directory: what may stand in it, and what an interrupted run left.

use vstd::prelude::*;
use vstd::string::*;

use crate::digest::{same_digest, sha256_digest, sha256_of};
use crate::fault::{conflict, conflict_of, hand_on, Fault, FaultKind, FaultView};
use crate::files::{agrees, check_directory, directory_fault, result_view, FileKind, Metadata, Probe, ProbeView};
use crate::generation::FileRead;
use crate::model::option_text;
use crate::order::{push_text, sort, sorted, views, SortKey};
use crate::text::{copy, ends, ends_with, same};

verus! {

/// The largest state file in bytes.
pub const MAX_STATE_FILE_BYTES: u64 = 65536;

/// The files that may stand in the state directory.
pub open spec fn allowed_state_files() -> Seq<Seq<char>> {
    seq![
        ".installation.lock"@,
        "installation.json"@,
        ".installation.new"@,
        ".resolver-activation.lock"@,
        "resolver-activation.json"@,
        ".resolver-activation.new"@,
    ]
}

/// The files that may stand in the state directory.
pub fn allowed_state_file_names() -> (r: Vec<String>)
    ensures
        views(r@) == allowed_state_files(),
{
    let mut v: Vec<String> = Vec::new();
    push_text(&mut v, copy(".installation.lock"));
    push_text(&mut v, copy("installation.json"));
    push_text(&mut v, copy(".installation.new"));
    push_text(&mut v, copy(".resolver-activation.lock"));
    push_text(&mut v, copy("resolver-activation.json"));
    push_text(&mut v, copy(".resolver-activation.new"));
    proof {
        assert(views(v@) =~= allowed_state_files());
    }
    v
}

/// What a file of the state directory is for.
#[derive(Debug, Clone, Copy, PartialEq, Eq, Structural)]
pub enum StateFile {
    Lock,
    Record,
    Temporary,
}

/// What a file of the state directory is for, if it may stand there.
pub open spec fn state_file_of(name: Seq<char>) -> Option<StateFile> {
    if name == ".installation.lock"@ || name == ".resolver-activation.lock"@ {
        Some(StateFile::Lock)
    } else if name == "installation.json"@ || name == "resolver-activation.json"@ {
        Some(StateFile::Record)
    } else if name == ".installation.new"@ || name == ".resolver-activation.new"@ {
        Some(StateFile::Temporary)
    } else {
        None
    }
}

/// What a file of the state directory is for, if it may stand there.
pub fn classify_state_file(name: &str) -> (r: Option<StateFile>)
    ensures
        r == state_file_of(name@),
{
    if same(name, ".installation.lock") || same(name, ".resolver-activation.lock") {
        Some(StateFile::Lock)
    } else if same(name, "installation.json") || same(name, "resolver-activation.json") {
        Some(StateFile::Record)
    } else if same(name, ".installation.new") || same(name, ".resolver-activation.new") {
        Some(StateFile::Temporary)
    } else {
        None
    }
}

/// A left over file as it was found.
#[derive(Debug, PartialEq, Eq)]
pub struct StateResidueEntry {
    pub path: String,
    pub byte_length: u64,
    pub digest: [u8; 32],
}

/// A left over file over plain values.
pub struct StateResidueEntryView {
    pub path: Seq<char>,
    pub byte_length: u64,
    pub digest: Seq<u8>,
}

impl View for StateResidueEntry {
    type V = StateResidueEntryView;

    open spec fn view(&self) -> StateResidueEntryView {
        StateResidueEntryView {
            path: self.path@,
            byte_length: self.byte_length,
            digest: self.digest@,
        }
    }
}

impl SortKey for StateResidueEntry {
    open spec fn key_of(v: StateResidueEntryView) -> Seq<char> {
        v.path
    }

    fn key_text(&self) -> (s: String) {
        copy(self.path.as_str())
    }
}

/// What an interrupted run left in the state directory.
#[derive(Debug, PartialEq, Eq)]
pub struct StateResidue {
    pub directory: String,
    pub remove_directory: bool,
    pub entries: Vec<StateResidueEntry>,
}

/// A residue over plain values.
pub struct StateResidueView {
    pub directory: Seq<char>,
    pub remove_directory: bool,
    pub entries: Seq<StateResidueEntryView>,
}

impl View for StateResidue {
    type V = StateResidueView;

    open spec fn view(&self) -> StateResidueView {
        StateResidueView {
            directory: self.directory@,
            remove_directory: self.remove_directory,
            entries: views(self.entries@),
        }
    }
}

/// Whether a residue is nothing but the directory itself.
pub open spec fn is_empty_residue(r: StateResidueView) -> bool {
    r.remove_directory && r.entries.len() == 0
}

/// Whether removing a residue needs the supervisor stopped.
pub open spec fn needs_quiescence(r: StateResidueView) -> bool {
    exists|i: int|
        0 <= i < r.entries.len() && ends((#[trigger] r.entries[i]).path, ".resolver-activation.new"@)
}

impl StateResidue {
    /// Whether the residue is nothing but the directory itself.
    pub fn is_empty_directory(&self) -> (r: bool)
        ensures
            r == is_empty_residue(self@),
    {
        self.remove_directory && self.entries.len() == 0
    }

    /// Whether removing the residue needs the supervisor stopped.
    pub fn requires_resolver_quiescence(&self) -> (r: bool)
        ensures
            r == needs_quiescence(self@),
    {
        let ghost ev = self@.entries;
        let mut i: usize = 0;
        while i < self.entries.len()
            invariant
                i <= self.entries@.len(),
                ev == views(self.entries@),
                ev == self@.entries,
                forall|k: int|
                    0 <= k < i ==> !ends((#[trigger] ev[k]).path, ".resolver-activation.new"@),
            decreases self.entries@.len() - i,
        {
            proof {
                assert(ev[i as int] == self.entries@[i as int]@);
            }
            if ends_with(self.entries[i].path.as_str(), ".resolver-activation.new") {
                return true;
            }
            i += 1;
        }
        false
    }

    /// Whether two residues are the same.
    pub fn same_as(&self, other: &StateResidue) -> (r: bool)
        ensures
            r == (self@ == other@),
    {
        if !same(self.directory.as_str(), other.directory.as_str()) || self.remove_directory
            != other.remove_directory || self.entries.len() != other.entries.len() {
            proof {
                assert(self@.entries.len() == self.entries@.len());
                assert(other@.entries.len() == other.entries@.len());
            }
            return false;
        }
        let mut i: usize = 0;
        while i < self.entries.len()
            invariant
                i <= self.entries@.len(),
                self.entries@.len() == other.entries@.len(),
                forall|k: int| 0 <= k < i ==> (#[trigger] self.entries@[k])@ == other.entries@[k]@,
            decreases self.entries@.len() - i,
        {
            let a = &self.entries[i];
            let b = &other.entries[i];
            if !same(a.path.as_str(), b.path.as_str()) || a.byte_length != b.byte_length
                || !same_digest(&a.digest, &b.digest) {
                proof {
                    assert(self@.entries[i as int] != other@.entries[i as int]);
                }
                return false;
            }
            i += 1;
        }
        proof {
            assert(self@.entries =~= other@.entries);
        }
        true
    }

    /// A copy of the residue.
    pub fn duplicate(&self) -> (r: StateResidue)
        ensures
            r@ == self@,
    {
        let mut entries: Vec<StateResidueEntry> = Vec::new();
        let mut i: usize = 0;
        while i < self.entries.len()
            invariant
                i <= self.entries@.len(),
                entries@.len() == i,
                forall|k: int| 0 <= k < i ==> (#[trigger] entries@[k])@ == self.entries@[k]@,
            decreases self.entries@.len() - i,
        {
            let e = &self.entries[i];
            entries.push(
                StateResidueEntry {
                    path: copy(e.path.as_str()),
                    byte_length: e.byte_length,
                    digest: e.digest,
                },
            );
            i += 1;
        }
        proof {
            assert(views(entries@) =~= views(self.entries@));
        }
        StateResidue {
            directory: copy(self.directory.as_str()),
            remove_directory: self.remove_directory,
            entries,
        }
    }
}

// ---------------------------------------------------------------------------
// Checks
// ---------------------------------------------------------------------------

/// What is owed to a directory of the product.
pub open spec fn product_directory_fault(p: ProbeView, mode: u32) -> Option<FaultView> {
    directory_fault(
        p,
        0o777,
        mode,
        "a Linux product directory changed ownership or metadata"@,
        "a Linux product directory has unsafe extended attributes"@,
    )
}

/// Holds a directory of the product to its owner, mode and attributes.
pub fn validate_product_directory(p: &Probe, mode: u32) -> (r: Result<(), Fault>)
    ensures
        agrees(r, product_directory_fault(p@, mode)),
{
    check_directory(
        p,
        0o777,
        mode,
        "a Linux product directory changed ownership or metadata",
        "a Linux product directory has unsafe extended attributes",
    )
}

/// What is owed to a state file; a lock is empty.
pub open spec fn state_file_fault(
    m: Result<Metadata, FaultView>,
    xattrs_safe: Result<bool, FaultView>,
    empty: bool,
) -> Option<FaultView> {
    match m {
        Err(e) => Some(e),
        Ok(m) => if m.kind != FileKind::File || m.uid != 0 || m.links != 1 || m.mode & 0o777 != 0o600
            || (empty && m.length != 0) {
            Some(conflict_of("a Linux state file changed ownership or metadata"@))
        } else {
            match xattrs_safe {
                Err(e) => Some(e),
                Ok(safe) => if safe {
                    None
                } else {
                    Some(conflict_of("a Linux state file has unsafe extended attributes"@))
                },
            }
        },
    }
}

/// An entry of the state directory as it was found: its name where it is text,
/// its path, and the opened file.
#[derive(Debug)]
pub struct StateEntry {
    pub name: Option<String>,
    pub path: String,
    pub metadata: Result<Metadata, Fault>,
    pub xattrs_safe: Result<bool, Fault>,
    pub contents: FileRead,
}

/// A state entry over plain values.
pub struct StateEntryView {
    pub name: Option<Seq<char>>,
    pub path: Seq<char>,
    pub metadata: Result<Metadata, FaultView>,
    pub xattrs_safe: Result<bool, FaultView>,
    pub contents: Result<Seq<u8>, FaultView>,
}

impl View for StateEntry {
    type V = StateEntryView;

    open spec fn view(&self) -> StateEntryView {
        StateEntryView {
            name: option_text(self.name),
            path: self.path@,
            metadata: result_view(self.metadata),
            xattrs_safe: result_view(self.xattrs_safe),
            contents: self.contents@,
        }
    }
}

fn validate_state_file(e: &StateEntry, empty: bool) -> (r: Result<(), Fault>)
    ensures
        agrees(r, state_file_fault(e@.metadata, e@.xattrs_safe, empty)),
{
    match &e.metadata {
        Err(f) => Err(hand_on(f)),
        Ok(m) => {
            if m.kind != FileKind::File || m.uid != 0 || m.links != 1 || m.mode & 0o777 != 0o600 || (
            empty && m.length != 0) {
                return Err(conflict("a Linux state file changed ownership or metadata"));
            }
            match &e.xattrs_safe {
                Err(f) => Err(hand_on(f)),
                Ok(safe) => if *safe {
                    Ok(())
                } else {
                    Err(conflict("a Linux state file has unsafe extended attributes"))
                },
            }
        },
    }
}

/// What stands in the state directory under a name that may not.
pub open spec fn entry_name_fault(e: StateEntryView) -> Option<FaultView> {
    match e.name {
        None => Some(conflict_of("the Linux state directory contains an invalid name"@)),
        Some(name) => if state_file_of(name) is None {
            Some(conflict_of("the Linux state directory contains an unowned entry"@))
        } else {
            None
        },
    }
}

fn classify_entry(e: &StateEntry) -> (r: Result<StateFile, Fault>)
    ensures
        match r {
            Ok(kind) => entry_name_fault(e@) is None && state_file_of(e@.name->0) == Some(kind),
            Err(f) => entry_name_fault(e@) == Some(f@),
        },
{
    match &e.name {
        None => Err(conflict("the Linux state directory contains an invalid name")),
        Some(name) => match classify_state_file(name.as_str()) {
            None => Err(conflict("the Linux state directory contains an unowned entry")),
            Some(kind) => Ok(kind),
        },
    }
}

/// The failure of the first entry that an uninstallation may not go past.
pub open spec fn preflight_fault(s: Seq<StateEntryView>, n: int) -> Option<FaultView>
    decreases n,
{
    if n <= 0 {
        None
    } else {
        match preflight_fault(s, n - 1) {
            Some(e) => Some(e),
            None => match entry_name_fault(s[n - 1]) {
                Some(e) => Some(e),
                None => state_file_fault(
                    s[n - 1].metadata,
                    s[n - 1].xattrs_safe,
                    state_file_of(s[n - 1].name->0) == Some(StateFile::Lock),
                ),
            },
        }
    }
}

proof fn lemma_preflight_fails(s: Seq<StateEntryView>, n: int, m: int)
    requires
        0 <= n <= m,
        preflight_fault(s, n) is Some,
    ensures
        preflight_fault(s, m) == preflight_fault(s, n),
    decreases m - n,
{
    if n < m {
        lemma_preflight_fails(s, n, m - 1);
    }
}

/// Accepts a state directory that holds only what Remap owns.
pub fn preflight_state_directory(p: &Probe, entries: &Vec<StateEntry>) -> (r: Result<(), Fault>)
    ensures
        agrees(
            r,
            match product_directory_fault(p@, 0o700) {
                Some(e) => Some(e),
                None => preflight_fault(views(entries@), entries@.len() as int),
            },
        ),
{
    if let Err(e) = validate_product_directory(p, 0o700) {
        return Err(e);
    }
    let ghost ev = views(entries@);
    let mut i: usize = 0;
    while i < entries.len()
        invariant
            i <= entries@.len(),
            ev == views(entries@),
            product_directory_fault(p@, 0o700) is None,
            preflight_fault(ev, i as int) is None,
        decreases entries@.len() - i,
    {
        proof {
            assert(ev[i as int] == entries@[i as int]@);
        }
        let kind = match classify_entry(&entries[i]) {
            Err(e) => {
                proof {
                    lemma_preflight_fails(ev, i as int + 1, ev.len() as int);
                }
                return Err(e);
            },
            Ok(kind) => kind,
        };
        if let Err(e) = validate_state_file(&entries[i], kind == StateFile::Lock) {
            proof {
                lemma_preflight_fails(ev, i as int + 1, ev.len() as int);
            }
            return Err(e);
        }
        i += 1;
    }
    Ok(())
}

// ---------------------------------------------------------------------------
// Residues
// ---------------------------------------------------------------------------

/// A left over file as it is recorded, or why it may not go.
pub open spec fn recorded_residue(e: StateEntryView, empty: bool) -> Result<
    StateResidueEntryView,
    FaultView,
> {
    match state_file_fault(e.metadata, e.xattrs_safe, empty) {
        Some(f) => Err(f),
        None => if e.metadata->Ok_0.length > MAX_STATE_FILE_BYTES {
            Err(conflict_of("a Linux state residue exceeds its bound"@))
        } else {
            match e.contents {
                Err(f) => Err(f),
                Ok(bytes) => Ok(
                    StateResidueEntryView {
                        path: e.path,
                        byte_length: e.metadata->Ok_0.length,
                        digest: sha256_of(bytes),
                    },
                ),
            }
        },
    }
}

/// Whether an entry is left over: a temporary always, anything but a record
/// where no record stands.
pub open spec fn is_left_over(kind: StateFile, recorded: bool) -> bool {
    kind == StateFile::Temporary || (!recorded && kind != StateFile::Record)
}

/// The left over files among the first `n` entries, or the first failure.
pub open spec fn left_over(s: Seq<StateEntryView>, recorded: bool, n: int) -> Result<
    Seq<StateResidueEntryView>,
    FaultView,
>
    decreases n,
{
    if n <= 0 {
        Ok(Seq::empty())
    } else {
        match left_over(s, recorded, n - 1) {
            Err(e) => Err(e),
            Ok(before) => match entry_name_fault(s[n - 1]) {
                Some(e) => Err(e),
                None => {
                    let kind = state_file_of(s[n - 1].name->0)->0;
                    if is_left_over(kind, recorded) {
                        match recorded_residue(s[n - 1], kind != StateFile::Temporary) {
                            Err(e) => Err(e),
                            Ok(r) => Ok(before.push(r)),
                        }
                    } else {
                        Ok(before)
                    }
                },
            },
        }
    }
}

proof fn lemma_left_over_fails(s: Seq<StateEntryView>, recorded: bool, n: int, m: int)
    requires
        0 <= n <= m,
        left_over(s, recorded, n) is Err,
    ensures
        left_over(s, recorded, m) == left_over(s, recorded, n),
    decreases m - n,
{
    if n < m {
        lemma_left_over_fails(s, recorded, n, m - 1);
    }
}

fn record_residue(e: &StateEntry, empty: bool) -> (r: Result<StateResidueEntry, Fault>)
    ensures
        match r {
            Ok(v) => recorded_residue(e@, empty) == Ok::<StateResidueEntryView, FaultView>(v@),
            Err(f) => recorded_residue(e@, empty) == Err::<StateResidueEntryView, FaultView>(f@),
        },
{
    if let Err(f) = validate_state_file(e, empty) {
        return Err(f);
    }
    let length: u64 = match &e.metadata {
        Ok(m) => m.length,
        Err(f) => {
            return Err(hand_on(f));
        },
    };
    if length > MAX_STATE_FILE_BYTES {
        return Err(conflict("a Linux state residue exceeds its bound"));
    }
    match &e.contents.result {
        Err(f) => Err(hand_on(f)),
        Ok(bytes) => Ok(
            StateResidueEntry {
                path: copy(e.path.as_str()),
                byte_length: length,
                digest: sha256_digest(bytes.as_slice()),
            },
        ),
    }
}

/// What the machine says of the state directory.
#[derive(Debug)]
pub struct StateDirectory {
    pub directory: String,
    pub probe: Probe,
    pub install_present: Result<bool, Fault>,
    pub resolver_present: Result<bool, Fault>,
    pub entries: Vec<StateEntry>,
}

pub open spec fn option_residue(r: Option<StateResidue>) -> Option<StateResidueView> {
    match r {
        Some(r) => Some(r@),
        None => None,
    }
}

/// What an interrupted run left in the state directory, or why that cannot be said.
pub open spec fn residue_of(s: StateDirectory) -> Result<Option<StateResidueView>, FaultView> {
    if crate::files::is_missing(s.probe@) {
        Ok(None)
    } else {
        match product_directory_fault(s.probe@, 0o700) {
            Some(e) => Err(e),
            None => match (result_view(s.install_present), result_view(s.resolver_present)) {
                (Err(e), _) => Err(e),
                (Ok(_), Err(e)) => Err(e),
                (Ok(install), Ok(resolver)) => {
                    let recorded = install || resolver;
                    match left_over(views(s.entries@), recorded, s.entries@.len() as int) {
                        Err(e) => Err(e),
                        Ok(entries) => if !recorded || entries.len() > 0 {
                            Ok(
                                Some(
                                    StateResidueView {
                                        directory: s.directory@,
                                        remove_directory: !recorded,
                                        entries: sorted::<StateResidueEntry>(entries),
                                    },
                                ),
                            )
                        } else {
                            Ok(None)
                        },
                    }
                },
            },
        }
    }
}

/// What an interrupted run left in the state directory.
pub fn inspect_state_residue(s: &StateDirectory) -> (r: Result<Option<StateResidue>, Fault>)
    ensures
        match r {
            Ok(v) => residue_of(*s) == Ok::<Option<StateResidueView>, FaultView>(option_residue(v)),
            Err(e) => residue_of(*s) == Err::<Option<StateResidueView>, FaultView>(e@),
        },
{
    if let Err(e) = &s.probe.metadata {
        if e.kind == FaultKind::NotFound {
            return Ok(None);
        }
    }
    if let Err(e) = validate_product_directory(&s.probe, 0o700) {
        return Err(e);
    }
    let install = match &s.install_present {
        Err(e) => {
            return Err(hand_on(e));
        },
        Ok(b) => *b,
    };
    let resolver = match &s.resolver_present {
        Err(e) => {
            return Err(hand_on(e));
        },
        Ok(b) => *b,
    };
    let recorded = install || resolver;
    let ghost ev = views(s.entries@);
    let mut entries: Vec<StateResidueEntry> = Vec::new();
    let mut i: usize = 0;
    proof {
        assert(views(entries@) =~= Seq::<StateResidueEntryView>::empty());
    }
    while i < s.entries.len()
        invariant
            i <= s.entries@.len(),
            ev == views(s.entries@),
            !crate::files::is_missing(s.probe@),
            product_directory_fault(s.probe@, 0o700) is None,
            result_view(s.install_present) == Ok::<bool, FaultView>(install),
            result_view(s.resolver_present) == Ok::<bool, FaultView>(resolver),
            recorded == (install || resolver),
            left_over(ev, recorded, i as int) == Ok::<Seq<StateResidueEntryView>, FaultView>(
                views(entries@),
            ),
        decreases s.entries@.len() - i,
    {
        proof {
            assert(ev[i as int] == s.entries@[i as int]@);
        }
        let kind = match classify_entry(&s.entries[i]) {
            Err(e) => {
                proof {
                    lemma_left_over_fails(ev, recorded, i as int + 1, ev.len() as int);
                }
                return Err(e);
            },
            Ok(kind) => kind,
        };
        if kind == StateFile::Temporary || (!recorded && kind != StateFile::Record) {
            match record_residue(&s.entries[i], kind != StateFile::Temporary) {
                Err(e) => {
                    proof {
                        lemma_left_over_fails(ev, recorded, i as int + 1, ev.len() as int);
                    }
                    return Err(e);
                },
                Ok(entry) => {
                    let ghost before = views(entries@);
                    entries.push(entry);
                    proof {
                        assert(views(entries@) =~= before.push(entry@));
                    }
                },
            }
        }
        i += 1;
    }
    if !recorded || entries.len() > 0 {
        proof {
            assert(views(entries@).len() == entries@.len());
        }
        Ok(
            Some(
                StateResidue {
                    directory: copy(s.directory.as_str()),
                    remove_directory: !recorded,
                    entries: sort(entries),
                },
            ),
        )
    } else {
        Ok(None)
    }
}

/// Accepts the cleanup of a residue only where it is still the approved one.
pub fn cleanup_state_residue(expected: &StateResidue, observed: &Option<StateResidue>) -> (r: Result<
    (),
    Fault,
>)
    ensures
        r is Ok <==> option_residue(*observed) == Some(expected@),
        r is Err ==> r->Err_0@ == conflict_of("the Linux state residue changed before recovery"@),
{
    match observed {
        Some(found) => if found.same_as(expected) {
            Ok(())
        } else {
            Err(conflict("the Linux state residue changed before recovery"))
        },
        None => Err(conflict("the Linux state residue changed before recovery")),
    }
}

// ---------------------------------------------------------------------------
// Laws
// ---------------------------------------------------------------------------

/// A file may stand in the state directory exactly where it is on the list.
pub proof fn law_allowlist_is_exact(name: Seq<char>)
    ensures
        allowed_state_files().contains(name) <==> state_file_of(name) is Some,
{
    let s = allowed_state_files();
    if state_file_of(name) is Some {
        assert(s[0] == ".installation.lock"@);
        assert(s[1] == "installation.json"@);
        assert(s[2] == ".installation.new"@);
        assert(s[3] == ".resolver-activation.lock"@);
        assert(s[4] == "resolver-activation.json"@);
        assert(s[5] == ".resolver-activation.new"@);
        assert(name == s[0] || name == s[1] || name == s[2] || name == s[3] || name == s[4] || name
            == s[5]);
        assert(s.contains(s[0]) && s.contains(s[1]) && s.contains(s[2]) && s.contains(s[3])
            && s.contains(s[4]) && s.contains(s[5]));
    }
}

/// A state directory with a foreign file in it is never cleaned up: the
/// inspection that every cleanup rests on fails.
pub proof fn law_foreign_state_files_block_inspection(
    s: Seq<StateEntryView>,
    recorded: bool,
    k: int,
)
    requires
        0 <= k < s.len(),
        entry_name_fault(s[k]) is Some,
    ensures
        left_over(s, recorded, s.len() as int) is Err,
{
    lemma_foreign(s, recorded, k, s.len() as int);
}

proof fn lemma_foreign(s: Seq<StateEntryView>, recorded: bool, k: int, n: int)
    requires
        0 <= k < n <= s.len(),
        entry_name_fault(s[k]) is Some,
    ensures
        left_over(s, recorded, n) is Err,
    decreases n,
{
    if k < n - 1 {
        lemma_foreign(s, recorded, k, n - 1);
    }
}

proof fn lemma_left_over_from(s: Seq<StateEntryView>, recorded: bool, n: int, k: int)
    requires
        0 <= n <= s.len(),
        left_over(s, recorded, n) is Ok,
    ensures
        0 <= k < n ==> s[k].name is Some && state_file_of(s[k].name->0) is Some,
        0 <= k < n && is_left_over(state_file_of(s[k].name->0)->0, recorded) ==> exists|j: int|
            0 <= j < left_over(s, recorded, n)->Ok_0.len() && (#[trigger] left_over(
                s,
                recorded,
                n,
            )->Ok_0[j]).path == s[k].path,
        0 <= k < left_over(s, recorded, n)->Ok_0.len() ==> exists|j: int|
            0 <= j < n && (#[trigger] s[j]).path == left_over(s, recorded, n)->Ok_0[k].path
                && is_left_over(state_file_of(s[j].name->0)->0, recorded),
    decreases n,
{
    if n > 0 {
        let before = left_over(s, recorded, n - 1)->Ok_0;
        let all = left_over(s, recorded, n)->Ok_0;
        lemma_left_over_from(s, recorded, n - 1, k);
        if 0 <= k < n - 1 && is_left_over(state_file_of(s[k].name->0)->0, recorded) {
            let j = choose|j: int|
                0 <= j < before.len() && (#[trigger] before[j]).path == s[k].path;
            assert(all[j] == before[j]);
        } else if k == n - 1 && is_left_over(state_file_of(s[k].name->0)->0, recorded) {
            assert(all[all.len() - 1].path == s[k].path);
        }
        if 0 <= k < all.len() {
            if k < before.len() {
                assert(all[k] == before[k]);
                let j = choose|j: int|
                    0 <= j < n - 1 && (#[trigger] s[j]).path == before[k].path && is_left_over(
                        state_file_of(s[j].name->0)->0,
                        recorded,
                    );
                assert(s[j].path == all[k].path);
            } else {
                assert(s[n - 1].path == all[k].path);
            }
        }
    }
}

/// What is left over of the state directory is every interrupted write, and where no
/// record stands every lock; a record itself never is. The directory goes with them
/// exactly where no record stands.
pub proof fn law_records_are_never_left_over(s: StateDirectory, k: int)
    requires
        residue_of(s) is Ok,
        residue_of(s)->Ok_0 is Some,
    ensures
        ({
            let r = residue_of(s)->Ok_0->0;
            let entries = views(s.entries@);
            let recorded = s.install_present == Ok::<bool, Fault>(true) || s.resolver_present == Ok::<
                bool,
                Fault,
            >(true);
            &&& r.directory == s.directory@
            &&& r.remove_directory <==> !recorded
            &&& 0 <= k < entries.len() ==> entries[k].name is Some
            &&& 0 <= k < entries.len() && (entries[k].name == Some(".installation.new"@)
                || entries[k].name == Some(".resolver-activation.new"@)) ==> left_over(
                entries,
                recorded,
                entries.len() as int,
            )->Ok_0.len() > 0
            &&& r.entries.to_multiset() == left_over(
                entries,
                recorded,
                entries.len() as int,
            )->Ok_0.to_multiset()
        }),
        !is_left_over(StateFile::Record, true),
        !is_left_over(StateFile::Record, false),
        is_left_over(StateFile::Temporary, true) && is_left_over(StateFile::Temporary, false),
        is_left_over(StateFile::Lock, false) && !is_left_over(StateFile::Lock, true),
{
    let entries = views(s.entries@);
    let recorded = s.install_present == Ok::<bool, Fault>(true) || s.resolver_present == Ok::<
        bool,
        Fault,
    >(true);
    lemma_left_over_from(entries, recorded, entries.len() as int, k);
    law_state_files_are_told_apart();
    crate::order::law_sorted::<StateResidueEntry>(
        left_over(entries, recorded, entries.len() as int)->Ok_0,
    );
}

/// The names of the state directory are told apart: two are of locks, two of records
/// and two of interrupted writes.
pub proof fn law_state_files_are_told_apart()
    ensures
        state_file_of(".installation.lock"@) == Some(StateFile::Lock),
        state_file_of(".resolver-activation.lock"@) == Some(StateFile::Lock),
        state_file_of("installation.json"@) == Some(StateFile::Record),
        state_file_of("resolver-activation.json"@) == Some(StateFile::Record),
        state_file_of(".installation.new"@) == Some(StateFile::Temporary),
        state_file_of(".resolver-activation.new"@) == Some(StateFile::Temporary),
{
    reveal_strlit(".installation.lock");
    reveal_strlit(".resolver-activation.lock");
    reveal_strlit("installation.json");
    reveal_strlit("resolver-activation.json");
    reveal_strlit(".installation.new");
    reveal_strlit(".resolver-activation.new");
    assert(".installation.lock"@.len() == 18 && ".resolver-activation.lock"@.len() == 25
        && "installation.json"@.len() == 17 && "resolver-activation.json"@.len() == 24
        && ".installation.new"@.len() == 17 && ".resolver-activation.new"@.len() == 24);
    assert("installation.json"@[0] == 'i' && ".installation.new"@[0] == '.');
    assert("resolver-activation.json"@[0] == 'r' && ".resolver-activation.new"@[0] == '.');
}

/// Whatever a state directory holds, what is left over of it comes from a file of its
/// own that is left over, and every such file is in it.
pub proof fn law_left_over_files_are_all_named(
    s: Seq<StateEntryView>,
    recorded: bool,
    k: int,
)
    requires
        left_over(s, recorded, s.len() as int) is Ok,
    ensures
        ({
            let v = left_over(s, recorded, s.len() as int)->Ok_0;
            &&& 0 <= k < s.len() && is_left_over(state_file_of(s[k].name->0)->0, recorded)
                ==> exists|j: int| 0 <= j < v.len() && (#[trigger] v[j]).path == s[k].path
            &&& 0 <= k < v.len() ==> exists|j: int|
                0 <= j < s.len() && (#[trigger] s[j]).path == v[k].path && is_left_over(
                    state_file_of(s[j].name->0)->0,
                    recorded,
                )
        }),
{
    lemma_left_over_from(s, recorded, s.len() as int, k);
}

} // verus!
