//! Generations, installation records and their journalled phases.

use vstd::prelude::*;
use vstd::string::*;
use vstd::utf8::{encode_utf8, encode_utf8_decode_utf8};

use crate::digest::{blake3_digest, blake3_of, same_digest, sha256_digest, sha256_of};
use crate::encoding::{
    encoded_envelope, encoded_record, envelope_text, law_envelope_tells_the_record,
    law_text_tells_the_record, record_bytes, record_text,
};
use crate::fault::{invalid_data, invalid_of, refused, Fault, FaultView};
use crate::generation::{
    copy_bytes, identity_valid, legacy_identity_valid, public_directories_valid, validate_identity,
    validate_legacy_identity, validate_public_directories,
};
use crate::native::ResolverLinkManager;
use crate::text::{byte_length, chars, copy, find_text, is_alphanumeric, occurs, same};

verus! {

/// The largest encoded record in bytes.
pub const MAX_INSTALL_RECORD_BYTES: usize = 32768;

/// The artifact count of generations identified by the earlier digest.
pub const LEGACY_EXPECTED_ARTIFACTS: usize = 31;

/// The artifact count of a complete generation.
pub const EXPECTED_ARTIFACTS: usize = 35;

/// The resolver contract of a generation that can be updated in place.
pub const RESOLVER_REBASE_CAPABILITY: u16 = 3;

/// Where a rollback stands: the effect that is applied next.
#[derive(Debug, Clone, Copy, PartialEq, Eq, Structural)]
pub enum RollbackStep {
    StopServices,
    RestoreResolver,
    RestoreCurrent,
    RemoveUnitLinks,
    RemovePublicPaths,
    ReloadManager,
    RemoveFailedGeneration,
    RemoveGenerationRoots,
    StartPrevious,
    Finalize,
}

/// The position of a step in its journal.
pub open spec fn rollback_index(step: RollbackStep) -> int {
    match step {
        RollbackStep::StopServices => 0,
        RollbackStep::RestoreResolver => 1,
        RollbackStep::RestoreCurrent => 2,
        RollbackStep::RemoveUnitLinks => 3,
        RollbackStep::RemovePublicPaths => 4,
        RollbackStep::ReloadManager => 5,
        RollbackStep::RemoveFailedGeneration => 6,
        RollbackStep::RemoveGenerationRoots => 7,
        RollbackStep::StartPrevious => 8,
        RollbackStep::Finalize => 9,
    }
}

impl RollbackStep {
    /// Every step, in the order of the journal.
    pub fn all() -> (r: [RollbackStep; 10])
        ensures
            forall|i: int| 0 <= i < 10 ==> rollback_index(#[trigger] r@[i]) == i,
    {
        [
            RollbackStep::StopServices,
            RollbackStep::RestoreResolver,
            RollbackStep::RestoreCurrent,
            RollbackStep::RemoveUnitLinks,
            RollbackStep::RemovePublicPaths,
            RollbackStep::ReloadManager,
            RollbackStep::RemoveFailedGeneration,
            RollbackStep::RemoveGenerationRoots,
            RollbackStep::StartPrevious,
            RollbackStep::Finalize,
        ]
    }

    /// The step behind this one, or none behind the last.
    pub fn successor(self) -> (r: Option<RollbackStep>)
        ensures
            r is None <==> self == RollbackStep::Finalize,
            r is Some ==> rollback_index(r->0) == rollback_index(self) + 1,
    {
        match self {
            RollbackStep::StopServices => Some(RollbackStep::RestoreResolver),
            RollbackStep::RestoreResolver => Some(RollbackStep::RestoreCurrent),
            RollbackStep::RestoreCurrent => Some(RollbackStep::RemoveUnitLinks),
            RollbackStep::RemoveUnitLinks => Some(RollbackStep::RemovePublicPaths),
            RollbackStep::RemovePublicPaths => Some(RollbackStep::ReloadManager),
            RollbackStep::ReloadManager => Some(RollbackStep::RemoveFailedGeneration),
            RollbackStep::RemoveFailedGeneration => Some(RollbackStep::RemoveGenerationRoots),
            RollbackStep::RemoveGenerationRoots => Some(RollbackStep::StartPrevious),
            RollbackStep::StartPrevious => Some(RollbackStep::Finalize),
            RollbackStep::Finalize => None,
        }
    }

    /// The position of the step in its journal.
    pub fn index(self) -> (r: u8)
        ensures
            r == rollback_index(self),
            r < 10,
    {
        match self {
            RollbackStep::StopServices => 0,
            RollbackStep::RestoreResolver => 1,
            RollbackStep::RestoreCurrent => 2,
            RollbackStep::RemoveUnitLinks => 3,
            RollbackStep::RemovePublicPaths => 4,
            RollbackStep::ReloadManager => 5,
            RollbackStep::RemoveFailedGeneration => 6,
            RollbackStep::RemoveGenerationRoots => 7,
            RollbackStep::StartPrevious => 8,
            RollbackStep::Finalize => 9,
        }
    }
}

/// Where an uninstallation stands: the effect that is applied next.
#[derive(Debug, Clone, Copy, PartialEq, Eq, Structural)]
pub enum UninstallStep {
    RestoreResolver,
    StopServices,
    RemoveUnitLinks,
    RemovePublicPaths,
    RemoveCurrent,
    ReloadManager,
    RemoveCurrentGeneration,
    RemovePreviousGeneration,
    RemoveGenerationRoots,
    Finalize,
}

/// The position of a step in its journal.
pub open spec fn uninstall_index(step: UninstallStep) -> int {
    match step {
        UninstallStep::RestoreResolver => 0,
        UninstallStep::StopServices => 1,
        UninstallStep::RemoveUnitLinks => 2,
        UninstallStep::RemovePublicPaths => 3,
        UninstallStep::RemoveCurrent => 4,
        UninstallStep::ReloadManager => 5,
        UninstallStep::RemoveCurrentGeneration => 6,
        UninstallStep::RemovePreviousGeneration => 7,
        UninstallStep::RemoveGenerationRoots => 8,
        UninstallStep::Finalize => 9,
    }
}

impl UninstallStep {
    /// Every step, in the order of the journal.
    pub fn all() -> (r: [UninstallStep; 10])
        ensures
            forall|i: int| 0 <= i < 10 ==> uninstall_index(#[trigger] r@[i]) == i,
    {
        [
            UninstallStep::RestoreResolver,
            UninstallStep::StopServices,
            UninstallStep::RemoveUnitLinks,
            UninstallStep::RemovePublicPaths,
            UninstallStep::RemoveCurrent,
            UninstallStep::ReloadManager,
            UninstallStep::RemoveCurrentGeneration,
            UninstallStep::RemovePreviousGeneration,
            UninstallStep::RemoveGenerationRoots,
            UninstallStep::Finalize,
        ]
    }

    /// The step behind this one, or none behind the last.
    pub fn successor(self) -> (r: Option<UninstallStep>)
        ensures
            r is None <==> self == UninstallStep::Finalize,
            r is Some ==> uninstall_index(r->0) == uninstall_index(self) + 1,
    {
        match self {
            UninstallStep::RestoreResolver => Some(UninstallStep::StopServices),
            UninstallStep::StopServices => Some(UninstallStep::RemoveUnitLinks),
            UninstallStep::RemoveUnitLinks => Some(UninstallStep::RemovePublicPaths),
            UninstallStep::RemovePublicPaths => Some(UninstallStep::RemoveCurrent),
            UninstallStep::RemoveCurrent => Some(UninstallStep::ReloadManager),
            UninstallStep::ReloadManager => Some(UninstallStep::RemoveCurrentGeneration),
            UninstallStep::RemoveCurrentGeneration => Some(UninstallStep::RemovePreviousGeneration),
            UninstallStep::RemovePreviousGeneration => Some(UninstallStep::RemoveGenerationRoots),
            UninstallStep::RemoveGenerationRoots => Some(UninstallStep::Finalize),
            UninstallStep::Finalize => None,
        }
    }
}

/// The phase of an installation.
#[derive(Debug, Clone, Copy, PartialEq, Eq, Structural)]
pub enum InstallPhase {
    Staging,
    Staged,
    Published,
    RollingBack(RollbackStep),
    Pruning,
    Active,
    Uninstalling(UninstallStep),
}

/// One immutable file of a generation.
#[derive(Debug, Clone, PartialEq, Eq)]
pub struct Artifact {
    pub relative_path: String,
    pub mode: u32,
    pub byte_length: u64,
    pub digest: [u8; 32],
}

/// An artifact over plain values.
pub struct ArtifactView {
    pub relative_path: Seq<char>,
    pub mode: u32,
    pub byte_length: u64,
    pub digest: Seq<u8>,
}

impl View for Artifact {
    type V = ArtifactView;

    open spec fn view(&self) -> ArtifactView {
        ArtifactView {
            relative_path: self.relative_path@,
            mode: self.mode,
            byte_length: self.byte_length,
            digest: self.digest@,
        }
    }
}

impl Artifact {
    /// A copy of the artifact.
    pub fn duplicate(&self) -> (r: Artifact)
        ensures
            r@ == self@,
    {
        Artifact {
            relative_path: copy(self.relative_path.as_str()),
            mode: self.mode,
            byte_length: self.byte_length,
            digest: self.digest,
        }
    }

    /// Whether two artifacts are the same.
    pub fn same_as(&self, other: &Artifact) -> (r: bool)
        ensures
            r == (self@ == other@),
    {
        same(self.relative_path.as_str(), other.relative_path.as_str()) && self.mode == other.mode
            && self.byte_length == other.byte_length && same_digest(&self.digest, &other.digest)
    }
}

/// Who brought a public directory into being.
#[derive(Debug, Clone, Copy, PartialEq, Eq, Structural)]
pub enum DirectoryProvenance {
    Preexisting,
    CreatedByRemap,
}

/// What tells one created directory from any other under the same path.
#[derive(Debug, Clone, Copy, PartialEq, Eq, Structural)]
pub struct DirectoryIdentity {
    pub inode: u64,
    pub birth_seconds: i64,
    pub birth_nanoseconds: u32,
    pub ownership_nonce: u128,
}

/// A standard directory that a generation publishes into.
#[derive(Debug, Clone, PartialEq, Eq)]
pub struct PublicDirectory {
    pub path: String,
    pub provenance: DirectoryProvenance,
    pub identity: Option<DirectoryIdentity>,
}

/// A public directory over plain values.
pub struct PublicDirectoryView {
    pub path: Seq<char>,
    pub provenance: DirectoryProvenance,
    pub identity: Option<DirectoryIdentity>,
}

impl View for PublicDirectory {
    type V = PublicDirectoryView;

    open spec fn view(&self) -> PublicDirectoryView {
        PublicDirectoryView {
            path: self.path@,
            provenance: self.provenance,
            identity: self.identity,
        }
    }
}

/// Whether two recorded identities are the same.
pub fn same_directory_identity(
    a: &Option<DirectoryIdentity>,
    b: &Option<DirectoryIdentity>,
) -> (r: bool)
    ensures
        r == (*a == *b),
{
    match (a, b) {
        (Some(x), Some(y)) => *x == *y,
        (None, None) => true,
        _ => false,
    }
}

impl PublicDirectory {
    /// A copy of the directory entry.
    pub fn duplicate(&self) -> (r: PublicDirectory)
        ensures
            r@ == self@,
    {
        PublicDirectory {
            path: copy(self.path.as_str()),
            provenance: self.provenance,
            identity: self.identity,
        }
    }

    /// Whether two directory entries are the same.
    pub fn same_as(&self, other: &PublicDirectory) -> (r: bool)
        ensures
            r == (self@ == other@),
    {
        same(self.path.as_str(), other.path.as_str()) && self.provenance == other.provenance
            && same_directory_identity(&self.identity, &other.identity)
    }
}

/// The resolver plan that a daemon serves.
#[derive(Debug, Clone, Copy, PartialEq, Eq, Structural)]
pub struct ResolverPlanIdentity {
    pub activation_id: u128,
    pub generation: u64,
}

/// Whether two plan identities that may be absent are the same.
pub fn same_plan(a: &Option<ResolverPlanIdentity>, b: &Option<ResolverPlanIdentity>) -> (r: bool)
    ensures
        r == (*a == *b),
{
    match (a, b) {
        (Some(x), Some(y)) => *x == *y,
        (None, None) => true,
        _ => false,
    }
}

/// One installed generation.
#[derive(Debug, Clone, PartialEq, Eq)]
pub struct Generation {
    pub id: u128,
    pub manifest_digest: [u8; 32],
    pub product_version: String,
    pub account: String,
    pub group: String,
    pub owner_uid: u32,
    pub daemon_uid: u32,
    pub link: u32,
    pub interface_name: Option<String>,
    pub resolver_manager: Option<ResolverLinkManager>,
    pub resolver_rebase_capability: u16,
    pub artifacts: Vec<Artifact>,
    pub public_directories: Vec<PublicDirectory>,
}

/// A generation over plain values.
pub struct GenerationView {
    pub id: u128,
    pub manifest_digest: Seq<u8>,
    pub product_version: Seq<char>,
    pub account: Seq<char>,
    pub group: Seq<char>,
    pub owner_uid: u32,
    pub daemon_uid: u32,
    pub link: u32,
    pub interface_name: Option<Seq<char>>,
    pub resolver_manager: Option<ResolverLinkManager>,
    pub resolver_rebase_capability: u16,
    pub artifacts: Seq<ArtifactView>,
    pub public_directories: Seq<PublicDirectoryView>,
}

pub open spec fn option_text(s: Option<String>) -> Option<Seq<char>> {
    match s {
        Some(s) => Some(s@),
        None => None,
    }
}

pub open spec fn artifact_views(a: Seq<Artifact>) -> Seq<ArtifactView> {
    Seq::new(a.len(), |i: int| a[i]@)
}

pub open spec fn directory_views(d: Seq<PublicDirectory>) -> Seq<PublicDirectoryView> {
    Seq::new(d.len(), |i: int| d[i]@)
}

impl View for Generation {
    type V = GenerationView;

    open spec fn view(&self) -> GenerationView {
        GenerationView {
            id: self.id,
            manifest_digest: self.manifest_digest@,
            product_version: self.product_version@,
            account: self.account@,
            group: self.group@,
            owner_uid: self.owner_uid,
            daemon_uid: self.daemon_uid,
            link: self.link,
            interface_name: option_text(self.interface_name),
            resolver_manager: self.resolver_manager,
            resolver_rebase_capability: self.resolver_rebase_capability,
            artifacts: artifact_views(self.artifacts@),
            public_directories: directory_views(self.public_directories@),
        }
    }
}

/// A copy of a text that may be absent.
pub fn copy_option(s: &Option<String>) -> (r: Option<String>)
    ensures
        option_text(r) == option_text(*s),
{
    match s {
        Some(s) => Some(copy(s.as_str())),
        None => None,
    }
}

/// Whether two texts that may be absent are the same.
pub fn same_option(a: &Option<String>, b: &Option<String>) -> (r: bool)
    ensures
        r == (option_text(*a) == option_text(*b)),
{
    match (a, b) {
        (Some(x), Some(y)) => same(x.as_str(), y.as_str()),
        (None, None) => true,
        _ => false,
    }
}

/// Whether two managers that may be absent are the same.
pub fn same_manager(a: &Option<ResolverLinkManager>, b: &Option<ResolverLinkManager>) -> (r: bool)
    ensures
        r == (*a == *b),
{
    match (a, b) {
        (Some(x), Some(y)) => *x == *y,
        (None, None) => true,
        _ => false,
    }
}

pub(crate) fn copy_artifacts(v: &Vec<Artifact>) -> (r: Vec<Artifact>)
    ensures
        artifact_views(r@) == artifact_views(v@),
{
    let mut r: Vec<Artifact> = Vec::new();
    let mut i: usize = 0;
    while i < v.len()
        invariant
            i <= v@.len(),
            r@.len() == i,
            forall|k: int| 0 <= k < i ==> (#[trigger] r@[k])@ == v@[k]@,
        decreases v@.len() - i,
    {
        r.push(v[i].duplicate());
        i += 1;
    }
    proof {
        assert(artifact_views(r@) =~= artifact_views(v@));
    }
    r
}

pub(crate) fn copy_directories(v: &Vec<PublicDirectory>) -> (r: Vec<PublicDirectory>)
    ensures
        directory_views(r@) == directory_views(v@),
{
    let mut r: Vec<PublicDirectory> = Vec::new();
    let mut i: usize = 0;
    while i < v.len()
        invariant
            i <= v@.len(),
            r@.len() == i,
            forall|k: int| 0 <= k < i ==> (#[trigger] r@[k])@ == v@[k]@,
        decreases v@.len() - i,
    {
        r.push(v[i].duplicate());
        i += 1;
    }
    proof {
        assert(directory_views(r@) =~= directory_views(v@));
    }
    r
}

fn same_artifacts(a: &Vec<Artifact>, b: &Vec<Artifact>) -> (r: bool)
    ensures
        r == (artifact_views(a@) == artifact_views(b@)),
{
    if a.len() != b.len() {
        proof {
            assert(artifact_views(a@).len() != artifact_views(b@).len());
        }
        return false;
    }
    let mut i: usize = 0;
    while i < a.len()
        invariant
            i <= a@.len(),
            a@.len() == b@.len(),
            forall|k: int| 0 <= k < i ==> (#[trigger] a@[k])@ == b@[k]@,
        decreases a@.len() - i,
    {
        if !a[i].same_as(&b[i]) {
            proof {
                assert(artifact_views(a@)[i as int] != artifact_views(b@)[i as int]);
            }
            return false;
        }
        i += 1;
    }
    proof {
        assert(artifact_views(a@) =~= artifact_views(b@));
    }
    true
}

fn same_directories(a: &Vec<PublicDirectory>, b: &Vec<PublicDirectory>) -> (r: bool)
    ensures
        r == (directory_views(a@) == directory_views(b@)),
{
    if a.len() != b.len() {
        proof {
            assert(directory_views(a@).len() != directory_views(b@).len());
        }
        return false;
    }
    let mut i: usize = 0;
    while i < a.len()
        invariant
            i <= a@.len(),
            a@.len() == b@.len(),
            forall|k: int| 0 <= k < i ==> (#[trigger] a@[k])@ == b@[k]@,
        decreases a@.len() - i,
    {
        if !a[i].same_as(&b[i]) {
            proof {
                assert(directory_views(a@)[i as int] != directory_views(b@)[i as int]);
            }
            return false;
        }
        i += 1;
    }
    proof {
        assert(directory_views(a@) =~= directory_views(b@));
    }
    true
}

impl Generation {
    /// A copy of the generation.
    pub fn duplicate(&self) -> (r: Generation)
        ensures
            r@ == self@,
    {
        Generation {
            id: self.id,
            manifest_digest: self.manifest_digest,
            product_version: copy(self.product_version.as_str()),
            account: copy(self.account.as_str()),
            group: copy(self.group.as_str()),
            owner_uid: self.owner_uid,
            daemon_uid: self.daemon_uid,
            link: self.link,
            interface_name: copy_option(&self.interface_name),
            resolver_manager: self.resolver_manager,
            resolver_rebase_capability: self.resolver_rebase_capability,
            artifacts: copy_artifacts(&self.artifacts),
            public_directories: copy_directories(&self.public_directories),
        }
    }

    /// Whether two generations are the same.
    pub fn same_as(&self, other: &Generation) -> (r: bool)
        ensures
            r == (self@ == other@),
    {
        self.id == other.id && same_digest(&self.manifest_digest, &other.manifest_digest) && same(
            self.product_version.as_str(),
            other.product_version.as_str(),
        ) && same(self.account.as_str(), other.account.as_str()) && same(
            self.group.as_str(),
            other.group.as_str(),
        ) && self.owner_uid == other.owner_uid && self.daemon_uid == other.daemon_uid && self.link
            == other.link && same_option(&self.interface_name, &other.interface_name)
            && same_manager(&self.resolver_manager, &other.resolver_manager)
            && self.resolver_rebase_capability == other.resolver_rebase_capability
            && same_artifacts(&self.artifacts, &other.artifacts) && same_directories(
            &self.public_directories,
            &other.public_directories,
        )
    }
}

pub open spec fn option_generation(g: Option<Generation>) -> Option<GenerationView> {
    match g {
        Some(g) => Some(g@),
        None => None,
    }
}

/// A copy of a generation that may be absent.
pub fn copy_generation(g: &Option<Generation>) -> (r: Option<Generation>)
    ensures
        option_generation(r) == option_generation(*g),
{
    match g {
        Some(g) => Some(g.duplicate()),
        None => None,
    }
}

/// Whether two generations that may be absent are the same.
pub fn same_generation(a: &Option<Generation>, b: &Option<Generation>) -> (r: bool)
    ensures
        r == (option_generation(*a) == option_generation(*b)),
{
    match (a, b) {
        (Some(x), Some(y)) => x.same_as(y),
        (None, None) => true,
        _ => false,
    }
}

/// The durable record of an installation.
#[derive(Debug, Clone, PartialEq, Eq)]
pub struct InstallRecord {
    pub phase: InstallPhase,
    pub current: Generation,
    pub previous: Option<Generation>,
    pub previous_previous: Option<Generation>,
    pub pending_resolver_plan: Option<ResolverPlanIdentity>,
}

/// A record over plain values.
pub struct RecordView {
    pub phase: InstallPhase,
    pub current: GenerationView,
    pub previous: Option<GenerationView>,
    pub previous_previous: Option<GenerationView>,
    pub pending_resolver_plan: Option<ResolverPlanIdentity>,
}

impl View for InstallRecord {
    type V = RecordView;

    open spec fn view(&self) -> RecordView {
        RecordView {
            phase: self.phase,
            current: self.current@,
            previous: option_generation(self.previous),
            previous_previous: option_generation(self.previous_previous),
            pending_resolver_plan: self.pending_resolver_plan,
        }
    }
}

pub open spec fn option_record(r: Option<InstallRecord>) -> Option<RecordView> {
    match r {
        Some(r) => Some(r@),
        None => None,
    }
}

/// The failure of everything that breaks the record's own rules.
pub open spec fn invalid_record_of() -> FaultView {
    invalid_of("the Linux installation record is invalid"@)
}

fn invalid_record() -> (r: Fault)
    ensures
        r@ == invalid_record_of(),
{
    invalid_data("the Linux installation record is invalid")
}

/// The record that a new generation begins with.
pub open spec fn staging_record(current: GenerationView, previous: Option<RecordView>) -> RecordView {
    RecordView {
        phase: InstallPhase::Staging,
        current,
        previous: match previous {
            Some(record) => Some(record.current),
            None => None,
        },
        previous_previous: match previous {
            Some(record) => record.previous,
            None => None,
        },
        pending_resolver_plan: None,
    }
}

/// The record that a rollback leads back to.
pub open spec fn rolled_back(record: RecordView) -> Option<RecordView> {
    match record.previous {
        Some(current) => Some(
            RecordView {
                phase: InstallPhase::Active,
                current,
                previous: record.previous_previous,
                previous_previous: None,
                pending_resolver_plan: None,
            },
        ),
        None => None,
    }
}

impl InstallRecord {
    /// A copy of the record.
    pub fn duplicate(&self) -> (r: InstallRecord)
        ensures
            r@ == self@,
    {
        InstallRecord {
            phase: self.phase,
            current: self.current.duplicate(),
            previous: copy_generation(&self.previous),
            previous_previous: copy_generation(&self.previous_previous),
            pending_resolver_plan: self.pending_resolver_plan,
        }
    }

    /// The record of a generation whose files are about to be written, over the
    /// installed one where there is one.
    pub fn staging(current: Generation, previous: Option<&InstallRecord>) -> (r: InstallRecord)
        ensures
            r@ == staging_record(
                current@,
                match previous {
                    Some(record) => Some(record@),
                    None => None,
                },
            ),
    {
        match previous {
            Some(record) => InstallRecord {
                phase: InstallPhase::Staging,
                current,
                previous: Some(record.current.duplicate()),
                previous_previous: copy_generation(&record.previous),
                pending_resolver_plan: None,
            },
            None => InstallRecord {
                phase: InstallPhase::Staging,
                current,
                previous: None,
                previous_previous: None,
                pending_resolver_plan: None,
            },
        }
    }

    /// All files of the generation stand.
    pub fn stage(&mut self) -> (r: Result<(), Fault>)
        ensures
            r is Ok <==> old(self).phase == InstallPhase::Staging,
            r is Ok ==> *final(self) == (InstallRecord {
                phase: InstallPhase::Staged,
                ..*old(self)
            }),
            r is Err ==> *final(self) == *old(self) && refused(r, invalid_record_of()),
    {
        if self.phase != InstallPhase::Staging {
            return Err(invalid_record());
        }
        self.phase = InstallPhase::Staged;
        Ok(())
    }

    /// The generation is the published one.
    pub fn publish(&mut self) -> (r: Result<(), Fault>)
        ensures
            r is Ok <==> old(self).phase == InstallPhase::Staged,
            r is Ok ==> *final(self) == (InstallRecord {
                phase: InstallPhase::Published,
                ..*old(self)
            }),
            r is Err ==> *final(self) == *old(self) && refused(r, invalid_record_of()),
    {
        if self.phase != InstallPhase::Staged {
            return Err(invalid_record());
        }
        self.phase = InstallPhase::Published;
        Ok(())
    }

    /// The generation is accepted. A published one may be accepted only where
    /// no stale generation is left to prune.
    pub fn activate(&mut self) -> (r: Result<(), Fault>)
        ensures
            r is Ok <==> old(self).phase == InstallPhase::Pruning || (old(self).phase
                == InstallPhase::Published && old(self).previous_previous is None),
            r is Ok ==> *final(self) == (InstallRecord {
                phase: InstallPhase::Active,
                previous_previous: None,
                pending_resolver_plan: None,
                ..*old(self)
            }),
            r is Err ==> *final(self) == *old(self) && refused(r, invalid_record_of()),
    {
        let pruning = self.phase == InstallPhase::Pruning;
        let published = self.phase == InstallPhase::Published;
        if !(pruning || published) || (published && self.previous_previous.is_some()) {
            return Err(invalid_record());
        }
        self.phase = InstallPhase::Active;
        self.previous_previous = None;
        self.pending_resolver_plan = None;
        Ok(())
    }

    /// The stale generation is about to be removed.
    pub fn begin_prune(&mut self) -> (r: Result<(), Fault>)
        ensures
            r is Ok <==> old(self).phase == InstallPhase::Published
                && old(self).previous_previous is Some,
            r is Ok ==> *final(self) == (InstallRecord {
                phase: InstallPhase::Pruning,
                ..*old(self)
            }),
            r is Err ==> *final(self) == *old(self) && refused(r, invalid_record_of()),
    {
        if self.phase != InstallPhase::Published || self.previous_previous.is_none() {
            return Err(invalid_record());
        }
        self.phase = InstallPhase::Pruning;
        Ok(())
    }

    /// The generation is given up.
    pub fn begin_rollback(&mut self, pending_resolver_plan: Option<ResolverPlanIdentity>) -> (r:
        Result<(), Fault>)
        ensures
            r is Ok <==> (old(self).phase == InstallPhase::Staging || old(self).phase
                == InstallPhase::Staged || old(self).phase == InstallPhase::Published),
            r is Ok ==> *final(self) == (InstallRecord {
                phase: InstallPhase::RollingBack(RollbackStep::StopServices),
                pending_resolver_plan,
                ..*old(self)
            }),
            r is Err ==> *final(self) == *old(self) && refused(r, invalid_record_of()),
    {
        match self.phase {
            InstallPhase::Staging | InstallPhase::Staged | InstallPhase::Published => {},
            _ => {
                return Err(invalid_record());
            },
        }
        self.pending_resolver_plan = pending_resolver_plan;
        self.phase = InstallPhase::RollingBack(RollbackStep::StopServices);
        Ok(())
    }

    /// One rollback step is behind.
    pub fn advance_rollback(&mut self, expected: RollbackStep, next: RollbackStep) -> (r: Result<
        (),
        Fault,
    >)
        ensures
            r is Ok <==> old(self).phase == InstallPhase::RollingBack(expected),
            r is Ok ==> *final(self) == (InstallRecord {
                phase: InstallPhase::RollingBack(next),
                ..*old(self)
            }),
            r is Err ==> *final(self) == *old(self) && refused(r, invalid_record_of()),
    {
        if self.phase != InstallPhase::RollingBack(expected) {
            return Err(invalid_record());
        }
        self.phase = InstallPhase::RollingBack(next);
        Ok(())
    }

    /// The record that a rollback leads back to, where there was one.
    pub fn rollback_record(&self) -> (r: Option<InstallRecord>)
        ensures
            option_record(r) == rolled_back(self@),
    {
        match &self.previous {
            Some(current) => Some(
                InstallRecord {
                    phase: InstallPhase::Active,
                    current: current.duplicate(),
                    previous: copy_generation(&self.previous_previous),
                    previous_previous: None,
                    pending_resolver_plan: None,
                },
            ),
            None => None,
        }
    }

    /// The installation is given up.
    pub fn begin_uninstall(&mut self, pending_resolver_plan: ResolverPlanIdentity) -> (r: Result<
        (),
        Fault,
    >)
        ensures
            r is Ok <==> old(self).phase == InstallPhase::Active,
            r is Ok ==> *final(self) == (InstallRecord {
                phase: InstallPhase::Uninstalling(UninstallStep::RestoreResolver),
                pending_resolver_plan: Some(pending_resolver_plan),
                ..*old(self)
            }),
            r is Err ==> *final(self) == *old(self) && refused(r, invalid_record_of()),
    {
        if self.phase != InstallPhase::Active {
            return Err(invalid_record());
        }
        self.pending_resolver_plan = Some(pending_resolver_plan);
        self.phase = InstallPhase::Uninstalling(UninstallStep::RestoreResolver);
        Ok(())
    }

    /// One uninstallation step is behind.
    pub fn advance_uninstall(&mut self, expected: UninstallStep, next: UninstallStep) -> (r: Result<
        (),
        Fault,
    >)
        ensures
            r is Ok <==> old(self).phase == InstallPhase::Uninstalling(expected),
            r is Ok ==> *final(self) == (InstallRecord {
                phase: InstallPhase::Uninstalling(next),
                ..*old(self)
            }),
            r is Err ==> *final(self) == *old(self) && refused(r, invalid_record_of()),
    {
        if self.phase != InstallPhase::Uninstalling(expected) {
            return Err(invalid_record());
        }
        self.phase = InstallPhase::Uninstalling(next);
        Ok(())
    }
}

// ---------------------------------------------------------------------------
// Validity
// ---------------------------------------------------------------------------

/// Whether some directory that Remap created has no recorded identity.
pub open spec fn lacks_identity(g: GenerationView) -> bool {
    exists|i: int|
        0 <= i < g.public_directories.len() && (#[trigger] g.public_directories[i]).provenance
            == DirectoryProvenance::CreatedByRemap && g.public_directories[i].identity is None
}

pub open spec fn plan_valid(plan: ResolverPlanIdentity) -> bool {
    plan.activation_id != 0 && plan.generation != 0
}

/// What each phase owes.
pub open spec fn transaction_state_valid(r: RecordView) -> bool {
    &&& (r.phase is Active || r.phase is Uninstalling) ==> r.previous_previous is None
    &&& r.phase is Pruning ==> r.previous_previous is Some
    &&& !(r.phase is RollingBack || r.phase is Uninstalling) ==> r.pending_resolver_plan is None
    &&& r.pending_resolver_plan is Some ==> plan_valid(r.pending_resolver_plan->0)
    &&& !(r.phase is Staging || r.phase is RollingBack) ==> !lacks_identity(r.current)
}

pub open spec fn interface_char(c: char) -> bool {
    is_alphanumeric(c) || c == '.' || c == '_' || c == ':' || c == '-'
}

/// A kernel interface name: one to fifteen bytes of letters, digits and `._:-`.
pub open spec fn interface_name_valid(s: Seq<char>) -> bool {
    &&& 1 <= s.len() <= 15
    &&& forall|i: int| 0 <= i < s.len() ==> interface_char(#[trigger] s[i])
}

pub open spec fn header_valid(g: GenerationView) -> bool {
    &&& g.id != 0
    &&& g.product_version.len() > 0
    &&& g.account.len() > 0
    &&& g.group.len() > 0
    &&& g.owner_uid != 0
    &&& g.daemon_uid != 0
    &&& g.link != 0
    &&& 1 <= g.resolver_rebase_capability <= RESOLVER_REBASE_CAPABILITY
}

/// A generation of the current contract names its manager and its interface.
pub open spec fn resolver_identity_valid(g: GenerationView) -> bool {
    g.resolver_rebase_capability == RESOLVER_REBASE_CAPABILITY ==> {
        &&& g.resolver_manager is Some
        &&& g.interface_name is Some
        &&& interface_name_valid(g.interface_name->0)
    }
}

pub open spec fn artifact_valid(a: ArtifactView) -> bool {
    &&& a.relative_path.len() > 0
    &&& a.relative_path[0] != '/'
    &&& !occurs(a.relative_path, seq!['.', '.'])
    &&& (a.mode == 0o644 || a.mode == 0o755)
    &&& a.byte_length != 0
}

/// Whether the earlier digest identifies the generation.
pub open spec fn uses_legacy_identity(g: GenerationView) -> bool {
    g.artifacts.len() == LEGACY_EXPECTED_ARTIFACTS && legacy_identity_valid(g)
}

/// A generation that its manifest identifies and that keeps its rules.
pub open spec fn generation_valid(g: GenerationView) -> bool {
    &&& header_valid(g)
    &&& resolver_identity_valid(g)
    &&& (g.artifacts.len() == LEGACY_EXPECTED_ARTIFACTS || g.artifacts.len() == EXPECTED_ARTIFACTS)
    &&& (identity_valid(g) || uses_legacy_identity(g))
    &&& public_directories_valid(g.public_directories)
    &&& forall|i: int| 0 <= i < g.artifacts.len() ==> artifact_valid(#[trigger] g.artifacts[i])
}

/// Whether no two generations of a record have the same identity.
pub open spec fn identities_distinct(r: RecordView) -> bool {
    &&& r.previous is Some ==> r.previous->0.id != r.current.id
    &&& r.previous_previous is Some ==> r.previous_previous->0.id != r.current.id
    &&& r.previous is Some && r.previous_previous is Some ==> r.previous->0.id
        != r.previous_previous->0.id
}

/// A record that keeps all its rules.
pub open spec fn record_valid(r: RecordView) -> bool {
    &&& generation_valid(r.current)
    &&& r.previous is Some ==> generation_valid(r.previous->0)
    &&& r.previous_previous is Some ==> generation_valid(r.previous_previous->0)
    &&& transaction_state_valid(r)
    &&& identities_distinct(r)
}

fn lacks_recorded_identity(g: &Generation) -> (r: bool)
    ensures
        r == lacks_identity(g@),
{
    let ghost d = g@.public_directories;
    let mut i: usize = 0;
    while i < g.public_directories.len()
        invariant
            i <= g.public_directories@.len(),
            d == directory_views(g.public_directories@),
            d == g@.public_directories,
            forall|k: int|
                0 <= k < i ==> !((#[trigger] d[k]).provenance == DirectoryProvenance::CreatedByRemap
                    && d[k].identity is None),
        decreases g.public_directories@.len() - i,
    {
        let directory = &g.public_directories[i];
        proof {
            assert(d[i as int] == directory@);
        }
        if directory.provenance == DirectoryProvenance::CreatedByRemap
            && directory.identity.is_none() {
            return true;
        }
        i += 1;
    }
    false
}

fn interface_name_is_valid(s: &str) -> (r: bool)
    ensures
        r == interface_name_valid(s@),
{
    let v = chars(s);
    if v.len() == 0 || v.len() > 15 {
        return false;
    }
    let mut i: usize = 0;
    while i < v.len()
        invariant
            v@ == s@,
            i <= v@.len(),
            forall|k: int| 0 <= k < i ==> interface_char(#[trigger] s@[k]),
        decreases v@.len() - i,
    {
        let c = v[i];
        let fine = ('a' <= c && c <= 'z') || ('A' <= c && c <= 'Z') || ('0' <= c && c <= '9') || c
            == '.' || c == '_' || c == ':' || c == '-';
        if !fine {
            proof {
                assert(!interface_char(s@[i as int]));
            }
            return false;
        }
        i += 1;
    }
    true
}

fn header_is_valid(g: &Generation) -> (r: bool)
    ensures
        r == header_valid(g@),
{
    g.id != 0 && !g.product_version.as_str().is_empty() && !g.account.as_str().is_empty()
        && !g.group.as_str().is_empty() && g.owner_uid != 0 && g.daemon_uid != 0 && g.link != 0
        && 1 <= g.resolver_rebase_capability && g.resolver_rebase_capability
        <= RESOLVER_REBASE_CAPABILITY
}

fn resolver_identity_is_valid(g: &Generation) -> (r: bool)
    ensures
        r == resolver_identity_valid(g@),
{
    if g.resolver_rebase_capability != RESOLVER_REBASE_CAPABILITY {
        return true;
    }
    match (&g.resolver_manager, &g.interface_name) {
        (Some(_), Some(name)) => interface_name_is_valid(name.as_str()),
        _ => false,
    }
}

fn artifact_is_valid(a: &Artifact) -> (r: bool)
    ensures
        r == artifact_valid(a@),
{
    let v = chars(a.relative_path.as_str());
    let dots = ['.', '.'];
    proof {
        assert(dots@ =~= seq!['.', '.']);
    }
    v.len() > 0 && v[0] != '/' && find_text(&v, &dots).is_none() && (a.mode == 0o644 || a.mode
        == 0o755) && a.byte_length != 0
}

/// Refuses a generation that breaks its rules.
pub fn validate_generation(g: &Generation) -> (r: Result<(), Fault>)
    ensures
        r is Ok <==> generation_valid(g@),
        r is Err ==> refused(r, invalid_record_of()),
{
    proof {
        assert(g@.artifacts.len() == g.artifacts@.len());
    }
    if !header_is_valid(g) || !resolver_identity_is_valid(g) || (g.artifacts.len()
        != LEGACY_EXPECTED_ARTIFACTS && g.artifacts.len() != EXPECTED_ARTIFACTS) {
        return Err(invalid_record());
    }
    if validate_identity(g).is_err() && !(g.artifacts.len() == LEGACY_EXPECTED_ARTIFACTS
        && validate_legacy_identity(g).is_ok()) {
        return Err(invalid_record());
    }
    if validate_public_directories(&g.public_directories).is_err() {
        return Err(invalid_record());
    }
    let ghost views = g@.artifacts;
    let mut i: usize = 0;
    while i < g.artifacts.len()
        invariant
            i <= g.artifacts@.len(),
            views == artifact_views(g.artifacts@),
            views == g@.artifacts,
            forall|k: int| 0 <= k < i ==> artifact_valid(#[trigger] views[k]),
        decreases g.artifacts@.len() - i,
    {
        proof {
            assert(views[i as int] == g.artifacts@[i as int]@);
        }
        if !artifact_is_valid(&g.artifacts[i]) {
            return Err(invalid_record());
        }
        i += 1;
    }
    Ok(())
}

impl InstallRecord {
    /// Refuses a record that breaks a rule.
    pub fn validate(&self) -> (r: Result<(), Fault>)
        ensures
            r is Ok <==> record_valid(self@),
            r is Err ==> refused(r, invalid_record_of()),
    {
        if validate_generation(&self.current).is_err() {
            return Err(invalid_record());
        }
        if let Some(previous) = &self.previous {
            if validate_generation(previous).is_err() {
                return Err(invalid_record());
            }
        }
        if let Some(previous) = &self.previous_previous {
            if validate_generation(previous).is_err() {
                return Err(invalid_record());
            }
        }
        if self.validate_transaction_state().is_err() {
            return Err(invalid_record());
        }
        let mut distinct = true;
        if let Some(previous) = &self.previous {
            if previous.id == self.current.id {
                distinct = false;
            }
            if let Some(oldest) = &self.previous_previous {
                if oldest.id == previous.id {
                    distinct = false;
                }
            }
        }
        if let Some(oldest) = &self.previous_previous {
            if oldest.id == self.current.id {
                distinct = false;
            }
        }
        if distinct {
            Ok(())
        } else {
            Err(invalid_record())
        }
    }

    /// Refuses a record that does not keep what its phase owes.
    pub fn validate_transaction_state(&self) -> (r: Result<(), Fault>)
        ensures
            r is Ok <==> transaction_state_valid(self@),
            r is Err ==> refused(r, invalid_record_of()),
    {
        let durable = match self.phase {
            InstallPhase::Active | InstallPhase::Uninstalling(_) => true,
            _ => false,
        };
        if durable && self.previous_previous.is_some() {
            return Err(invalid_record());
        }
        if self.phase == InstallPhase::Pruning && self.previous_previous.is_none() {
            return Err(invalid_record());
        }
        let journalled = match self.phase {
            InstallPhase::RollingBack(_) | InstallPhase::Uninstalling(_) => true,
            _ => false,
        };
        if !journalled && self.pending_resolver_plan.is_some() {
            return Err(invalid_record());
        }
        if let Some(plan) = self.pending_resolver_plan {
            if plan.activation_id == 0 || plan.generation == 0 {
                return Err(invalid_record());
            }
        }
        let settled = match self.phase {
            InstallPhase::Staging | InstallPhase::RollingBack(_) => false,
            _ => true,
        };
        if settled && lacks_recorded_identity(&self.current) {
            return Err(invalid_record());
        }
        Ok(())
    }
}

// ---------------------------------------------------------------------------
// Encoded records
// ---------------------------------------------------------------------------

pub open spec fn install_schema() -> Seq<char> {
    "remap.linux-install/v5"@
}

/// The schema under which records are written.
pub fn install_schema_text() -> (s: &'static str)
    ensures
        s@ == install_schema(),
{
    "remap.linux-install/v5"
}

/// A decoded envelope: what it says of itself, and the record in it.
pub struct Envelope {
    pub schema: String,
    pub digest: [u8; 32],
    pub payload: InstallRecord,
}

/// Whether every generation of a record is identified by the earlier digest.
pub open spec fn record_uses_legacy_identity(r: RecordView) -> bool {
    &&& uses_legacy_identity(r.current)
    &&& r.previous is Some ==> uses_legacy_identity(r.previous->0)
    &&& r.previous_previous is Some ==> uses_legacy_identity(r.previous_previous->0)
}

fn generation_is_legacy(g: &Generation) -> (r: bool)
    ensures
        r == uses_legacy_identity(g@),
{
    proof {
        assert(g@.artifacts.len() == g.artifacts@.len());
    }
    g.artifacts.len() == LEGACY_EXPECTED_ARTIFACTS && validate_legacy_identity(g).is_ok()
}

/// The bytes of a record with its schema and the digest that seals it.
pub open spec fn sealed_bytes(r: RecordView) -> Seq<u8> {
    encode_utf8(envelope_text(r, install_schema(), sha256_of(record_bytes(r))))
}

/// Seals and writes a valid record, where it is not larger than a record may be.
pub fn encode(record: &InstallRecord) -> (r: Result<Vec<u8>, Fault>)
    ensures
        match r {
            Ok(bytes) => record_valid(record@) && bytes@ == sealed_bytes(record@) && 0
                < bytes@.len() <= MAX_INSTALL_RECORD_BYTES,
            Err(e) => e@ == invalid_record_of() && (!record_valid(record@) || sealed_bytes(
                record@,
            ).len() > MAX_INSTALL_RECORD_BYTES),
        },
{
    match record.validate() {
        Ok(_) => {},
        Err(error) => {
            return Err(error);
        },
    }
    let digest = sha256_digest(encoded_record(record).as_str().as_bytes());
    let text = encoded_envelope(record, install_schema_text(), &digest);
    let encoded = copy_bytes(text.as_str().as_bytes());
    if encoded.len() > MAX_INSTALL_RECORD_BYTES {
        Err(invalid_record())
    } else {
        proof {
            law_written_record_reads_back(record@, install_schema(), digest@, record@);
        }
        Ok(encoded)
    }
}

/// Whether an encoded record has a length that may be decoded at all.
pub fn encoded_length_valid(encoded: &[u8]) -> (r: bool)
    ensures
        r == (0 < encoded@.len() <= MAX_INSTALL_RECORD_BYTES),
{
    encoded.len() > 0 && encoded.len() <= MAX_INSTALL_RECORD_BYTES
}

/// Whether an envelope is accepted that was read from so many bytes.
pub open spec fn envelope_accepted(
    encoded: Seq<u8>,
    schema: Seq<char>,
    digest: Seq<u8>,
    record: RecordView,
) -> bool {
    &&& 0 < encoded.len() <= MAX_INSTALL_RECORD_BYTES
    &&& schema == install_schema()
    &&& record_valid(record)
    &&& (digest == sha256_of(record_bytes(record)) || (record_uses_legacy_identity(record)
        && digest == blake3_of(record_bytes(record))))
}

/// The record of an accepted envelope.
pub fn decode(encoded: &[u8], envelope: Envelope) -> (r: Result<InstallRecord, Fault>)
    ensures
        r is Ok <==> envelope_accepted(
            encoded@,
            envelope.schema@,
            envelope.digest@,
            envelope.payload@,
        ),
        r is Ok ==> r->Ok_0@ == envelope.payload@,
        r is Err ==> refused(r, invalid_record_of()),
{
    if !encoded_length_valid(encoded) {
        return Err(invalid_record());
    }
    if !same(envelope.schema.as_str(), install_schema_text()) {
        return Err(invalid_record());
    }
    if envelope.payload.validate().is_err() {
        return Err(invalid_record());
    }
    let text = encoded_record(&envelope.payload);
    let payload = text.as_str().as_bytes();
    let current = same_digest(&sha256_digest(payload), &envelope.digest);
    let mut legacy = generation_is_legacy(&envelope.payload.current);
    if let Some(previous) = &envelope.payload.previous {
        legacy = legacy && generation_is_legacy(previous);
    }
    if let Some(previous) = &envelope.payload.previous_previous {
        legacy = legacy && generation_is_legacy(previous);
    }
    let earlier = legacy && same_digest(&blake3_digest(payload), &envelope.digest);
    if !current && !earlier {
        return Err(invalid_record());
    }
    Ok(envelope.payload)
}

// ---------------------------------------------------------------------------
// Laws
// ---------------------------------------------------------------------------

/// What was written is accepted: the envelope of a valid record that is not
/// larger than a record may be is read.
pub proof fn law_sealed_record_is_accepted(r: RecordView)
    requires
        record_valid(r),
        0 < sealed_bytes(r).len() <= MAX_INSTALL_RECORD_BYTES,
    ensures
        envelope_accepted(sealed_bytes(r), install_schema(), sha256_of(record_bytes(r)), r),
{
}

/// What was written is read back: whatever envelope stands for the bytes that a
/// record was written as is accepted, and it holds that record. The bytes are
/// never empty and never more than a record may have.
pub proof fn law_written_record_reads_back(
    r: RecordView,
    schema: Seq<char>,
    digest: Seq<u8>,
    read: RecordView,
)
    requires
        record_valid(r),
        sealed_bytes(r).len() <= MAX_INSTALL_RECORD_BYTES,
        encode_utf8(envelope_text(read, schema, digest)) == sealed_bytes(r),
    ensures
        read == r,
        envelope_accepted(sealed_bytes(r), schema, digest, read),
        0 < sealed_bytes(r).len() <= 32 * 1024,
{
    let text = envelope_text(r, install_schema(), sha256_of(record_bytes(r)));
    encode_utf8_decode_utf8(text);
    encode_utf8_decode_utf8(envelope_text(read, schema, digest));
    law_envelope_tells_the_record(
        read,
        r,
        schema,
        install_schema(),
        digest,
        sha256_of(record_bytes(r)),
    );
    if sealed_bytes(r).len() == 0 {
        assert(sealed_bytes(r) =~= encode_utf8(Seq::<char>::empty()));
        encode_utf8_decode_utf8(Seq::<char>::empty());
        reveal_strlit("{\"schema\":");
        assert(text.len() > 0);
        assert(false);
    }
}

/// A digest of other bytes seals nothing, unless the record is of the earlier
/// kind throughout.
pub proof fn law_foreign_digest_is_refused(
    encoded: Seq<u8>,
    schema: Seq<char>,
    digest: Seq<u8>,
    record: RecordView,
)
    ensures
        digest != sha256_of(record_bytes(record)) && !record_uses_legacy_identity(record)
            ==> !envelope_accepted(encoded, schema, digest, record),
{
}

/// The bytes that the digest of a record is taken over tell the record: nothing
/// of it can change without them.
pub proof fn law_bytes_tell_the_record(record: RecordView, other: RecordView)
    requires
        record_bytes(record) == record_bytes(other),
    ensures
        record == other,
{
    encode_utf8_decode_utf8(record_text(record));
    encode_utf8_decode_utf8(record_text(other));
    law_text_tells_the_record(record, other);
}

/// Rolling back a generation that was staged over an active record gives that
/// record back exactly.
pub proof fn law_rollback_restores_the_prior_record(current: GenerationView, active: RecordView)
    requires
        active.phase is Active,
        active.previous_previous is None,
        active.pending_resolver_plan is None,
    ensures
        rolled_back(staging_record(current, Some(active))) == Some(active),
{
}

/// Without an installed record there is nothing to roll back to.
pub proof fn law_first_installation_rolls_back_to_nothing(current: GenerationView)
    ensures
        rolled_back(staging_record(current, None)) is None,
{
}

/// A record keeps what its phase owes when it goes from phase to phase.
pub proof fn law_transitions_keep_the_transaction_state(r: RecordView, plan: ResolverPlanIdentity)
    requires
        transaction_state_valid(r),
    ensures
        r.phase is Staging && !lacks_identity(r.current) ==> transaction_state_valid(
            RecordView { phase: InstallPhase::Staged, ..r },
        ),
        r.phase is Staged ==> transaction_state_valid(
            RecordView { phase: InstallPhase::Published, ..r },
        ),
        r.phase is Published && r.previous_previous is Some ==> transaction_state_valid(
            RecordView { phase: InstallPhase::Pruning, ..r },
        ),
        r.phase is Pruning || (r.phase is Published && r.previous_previous is None)
            ==> transaction_state_valid(
            RecordView {
                phase: InstallPhase::Active,
                previous_previous: None,
                pending_resolver_plan: None,
                ..r
            },
        ),
        r.phase is Staging || r.phase is Staged || r.phase is Published
            ==> transaction_state_valid(
            RecordView {
                phase: InstallPhase::RollingBack(RollbackStep::StopServices),
                pending_resolver_plan: None,
                ..r
            },
        ),
        r.phase is Active && plan_valid(plan) ==> transaction_state_valid(
            RecordView {
                phase: InstallPhase::Uninstalling(UninstallStep::RestoreResolver),
                pending_resolver_plan: Some(plan),
                ..r
            },
        ),
{
}

/// Going on to any further step keeps what the phase owes.
pub proof fn law_steps_keep_the_transaction_state(
    r: RecordView,
    rollback: RollbackStep,
    uninstall: UninstallStep,
)
    requires
        transaction_state_valid(r),
    ensures
        r.phase is RollingBack ==> transaction_state_valid(
            RecordView { phase: InstallPhase::RollingBack(rollback), ..r },
        ),
        r.phase is Uninstalling ==> transaction_state_valid(
            RecordView { phase: InstallPhase::Uninstalling(uninstall), ..r },
        ),
{
}

/// The steps of a rollback are told apart by their positions, so that a journal
/// that goes from each to its successor passes every one of them once.
pub proof fn law_rollback_positions_are_unique(a: RollbackStep, b: RollbackStep)
    requires
        rollback_index(a) == rollback_index(b),
    ensures
        a == b,
        0 <= rollback_index(a) <= rollback_index(RollbackStep::Finalize),
{
}

/// The steps of an uninstallation are told apart by their positions.
pub proof fn law_uninstall_positions_are_unique(a: UninstallStep, b: UninstallStep)
    requires
        uninstall_index(a) == uninstall_index(b),
    ensures
        a == b,
        0 <= uninstall_index(a) <= uninstall_index(UninstallStep::Finalize),
{
}

/// A record that is accepted keeps what its phase owes: a stale generation is there
/// while it is pruned and not once that is over, a plan to withdraw is there only while
/// something is undone, and names an activation, every directory that was created is
/// identified once the files are staged, and no two generations are the same.
pub proof fn law_valid_records_keep_their_phase(r: RecordView)
    requires
        record_valid(r),
    ensures
        r.phase is Active || r.phase is Uninstalling ==> r.previous_previous is None,
        r.phase is Pruning ==> r.previous_previous is Some,
        r.pending_resolver_plan is Some ==> (r.phase is RollingBack || r.phase is Uninstalling)
            && r.pending_resolver_plan->0.activation_id != 0 && r.pending_resolver_plan->0.generation
            != 0,
        r.phase is Staged || r.phase is Published || r.phase is Pruning || r.phase is Active
            || r.phase is Uninstalling ==> forall|i: int|
            0 <= i < r.current.public_directories.len() && (
            #[trigger] r.current.public_directories[i]).provenance
                == DirectoryProvenance::CreatedByRemap
                ==> r.current.public_directories[i].identity is Some,
        r.previous is Some ==> r.previous->0.id != r.current.id,
        r.previous_previous is Some ==> r.previous_previous->0.id != r.current.id,
        r.previous is Some && r.previous_previous is Some ==> r.previous->0.id
            != r.previous_previous->0.id,
        generation_valid(r.current),
        r.previous is Some ==> generation_valid(r.previous->0),
        r.previous_previous is Some ==> generation_valid(r.previous_previous->0),
{
    if !(r.phase is Staging || r.phase is RollingBack) {
        assert forall|i: int|
            0 <= i < r.current.public_directories.len() && (
            #[trigger] r.current.public_directories[i]).provenance
                == DirectoryProvenance::CreatedByRemap implies r.current.public_directories[i].identity
            is Some by {
            assert(!lacks_identity(r.current));
        }
    }
}

/// A generation that is accepted is identified by its manifest, belongs to users other
/// than root and to a link, and holds only files that stay below its own directory and
/// that nobody but root may write.
pub proof fn law_valid_generations_stay_in_their_bounds(g: GenerationView, i: int)
    requires
        generation_valid(g),
    ensures
        g.id != 0,
        g.owner_uid != 0 && g.daemon_uid != 0,
        g.link != 0,
        g.product_version.len() > 0 && g.account.len() > 0 && g.group.len() > 0,
        identity_valid(g) || (legacy_identity_valid(g) && g.artifacts.len()
            == LEGACY_EXPECTED_ARTIFACTS),
        g.artifacts.len() == LEGACY_EXPECTED_ARTIFACTS || g.artifacts.len() == EXPECTED_ARTIFACTS,
        g.resolver_rebase_capability == RESOLVER_REBASE_CAPABILITY ==> g.resolver_manager is Some
            && g.interface_name is Some && 1 <= g.interface_name->0.len() <= 15,
        0 <= i < g.artifacts.len() ==> {
            let a = g.artifacts[i];
            &&& a.relative_path.len() > 0 && a.relative_path[0] != '/'
            &&& !occurs(a.relative_path, seq!['.', '.'])
            &&& a.mode == 0o644 || a.mode == 0o755
            &&& a.byte_length > 0
        },
        public_directories_valid(g.public_directories),
{
}

} // verus!
