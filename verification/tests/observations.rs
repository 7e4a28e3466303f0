//! What is found on the host, and what is made of it.

use remap::bootstrap::{
    directory_identity, inspect_residue_entries, lock_residue, residue_paths, BootstrapResidue,
    LockOutcome, ResidueObservation, ResidueXattr, RuntimeEntry,
};
use remap::cleanup::{
    cleanup_state_residue, inspect_state_residue, StateDirectory, StateEntry,
};
use remap::exchange::{
    accept_response, current_plan_identity, validate_peer, validate_socket, SocketMetadata,
    SystemResponse, SystemResult,
};
use remap::fault::{fault, Fault, FaultKind};
use remap::files::{
    classify_link, validate_directory, verify_symlink, FileKind, LinkObservation, Metadata,
    OwnedLink, Probe,
};
use remap::generation::{
    inspect_public_directory, prepared, public_directory_paths, source_manifest_sha256,
    verify_source_manifest, DirectoryObservation, FileRead, PreparedArtifact,
};
use remap::digest::hex;
use remap::integrity::{public_link_changes, retained_generations, reverted_link_changes};
use remap::model::{
    Artifact, DirectoryIdentity, DirectoryProvenance, Generation, InstallPhase, InstallRecord,
    PublicDirectory, RESOLVER_REBASE_CAPABILITY,
};
use remap::native::{
    Activation, ActivationPhase, ResolverBackendKind, ResolverEnvironment, ResolverLinkManager,
    ResolverLinkSelectionState, ResolverSupport,
};
use remap::observation::{directory_entries, path_state, Distribution, EntryName, PathObservation, RawListing};
use remap::paths::{components, file_name, join_path, normalize, parent, sort_paths};
use remap::publications::{
    created_directories, directory_temporary, publish_created_directory, removable_public_directories,
    removal_of, remove_directory_temporary, validate_document_namespace,
    validate_publication_parent, verify_public_directory, CreatedAction, Listing, PublicProbe,
    RemovalProbe,
};
use remap::snapshot::{
    service_units, snapshot, LinkInspection, ServiceObservation, SnapshotInputs,
    SnapshotNormalization,
};
use remap::source::{accept_asset, accept_source, inspect_xattrs, rooted, XattrObservation, XattrStatus};
use remap::status::{status, StatusInputs};
use remap::storage::{
    expected_namespace, namespace_directories, verify_generation_root, verify_namespace,
    verify_product_root,
};
use remap::units::{
    current_is, exchange_accepted, generation_directory, restore_current_for_rollback,
    CurrentRestoration,
};

fn missing() -> Fault {
    fault(FaultKind::NotFound, "no such file")
}

fn metadata(kind: FileKind, mode: u32) -> Metadata {
    Metadata { kind, uid: 0, gid: 0, mode, links: 1, length: 5, device: 1, inode: 7 }
}

fn directory(mode: u32) -> Probe {
    Probe { metadata: Ok(metadata(FileKind::Directory, mode)), xattrs_safe: Ok(true) }
}

fn generation(id: u128) -> Generation {
    Generation {
        id,
        manifest_digest: [1; 32],
        product_version: "0.1.1".to_owned(),
        account: "remap".to_owned(),
        group: "remap".to_owned(),
        owner_uid: 1000,
        daemon_uid: 1001,
        link: 7,
        interface_name: Some("eth0".to_owned()),
        resolver_manager: Some(ResolverLinkManager::SystemdNetworkd),
        resolver_rebase_capability: RESOLVER_REBASE_CAPABILITY,
        artifacts: vec![artifact("remap"), artifact("share/man/man1/remap.1")],
        public_directories: vec![],
    }
}

fn artifact(path: &str) -> Artifact {
    Artifact { relative_path: path.to_owned(), mode: 0o644, byte_length: 1, digest: [1; 32] }
}

fn record() -> InstallRecord {
    InstallRecord {
        phase: InstallPhase::Active,
        current: generation(2),
        previous: Some(generation(1)),
        previous_previous: None,
        pending_resolver_plan: None,
    }
}

fn state(entries: Vec<StateEntry>, present: bool) -> StateDirectory {
    StateDirectory {
        directory: "/var/lib/remap-system".to_owned(),
        probe: directory(0o40700),
        install_present: Ok(present),
        resolver_present: Ok(false),
        entries,
    }
}

fn state_file(name: &str, contents: &[u8]) -> StateEntry {
    let mut m = metadata(FileKind::File, 0o100600);
    m.length = contents.len() as u64;
    StateEntry {
        name: Some(name.to_owned()),
        path: format!("/var/lib/remap-system/{name}"),
        metadata: Ok(m),
        xattrs_safe: Ok(true),
        contents: FileRead { result: Ok(contents.to_vec()) },
    }
}

#[test]
fn empty_or_partial_state_is_exactly_recoverable() -> Result<(), Fault> {
    let empty = inspect_state_residue(&state(vec![], false))?;
    let residue = empty.as_ref().map(|r| (r.remove_directory, r.entries.len()));
    assert_eq!(residue, Some((true, 0)));
    if let Some(expected) = &empty {
        cleanup_state_residue(expected, &inspect_state_residue(&state(vec![], false))?)?;
    }
    let partial = || state(vec![state_file(".installation.new", b"partial")], false);
    let found = inspect_state_residue(&partial())?;
    assert_eq!(found.as_ref().map(|r| r.entries.len()), Some(1));
    if let Some(expected) = &found {
        cleanup_state_residue(expected, &inspect_state_residue(&partial())?)?;
    }
    assert!(inspect_state_residue(&state(vec![state_file("installation.json", b"{}")], true))?
        .is_none());
    Ok(())
}

#[test]
fn state_recovery_refuses_content_or_namespace_substitution() -> Result<(), Fault> {
    let first = inspect_state_residue(&state(vec![state_file(".installation.new", b"first")], false))?;
    let other = inspect_state_residue(&state(vec![state_file(".installation.new", b"other")], false))?;
    let Some(expected) = first else {
        panic!("temporary state residue was not detected");
    };
    assert!(cleanup_state_residue(&expected, &other).is_err());
    assert!(cleanup_state_residue(&expected, &None).is_err());
    assert!(inspect_state_residue(&state(vec![state_file("foreign", b"foreign")], false)).is_err());
    Ok(())
}

fn residue(helper: bool, mode: u32) -> ResidueObservation {
    let names = if helper { vec![Some("remap-linux-system".to_owned())] } else { vec![] };
    let mut file = metadata(FileKind::File, 0o100755);
    file.length = 3;
    ResidueObservation {
        path: "/run/remap-bootstrap-0123456789abcdef0123456789abcdef".to_owned(),
        helper_path: "/run/remap-bootstrap-0123456789abcdef0123456789abcdef/remap-linux-system".to_owned(),
        directory_lock: LockOutcome::Held,
        directory: metadata(FileKind::Directory, mode),
        directory_xattrs: vec![],
        names,
        helper_lock: LockOutcome::Held,
        helper: file,
        helper_contents: FileRead { result: Ok(b"elf".to_vec()) },
        helper_xattrs: vec![],
    }
}

#[test]
fn bootstrap_residues_are_taken_only_where_they_are_owned() -> Result<(), Fault> {
    let bare: Option<BootstrapResidue> = lock_residue(&residue(false, 0o40711))?;
    assert_eq!(bare.map(|r| r.helper.is_some()), Some(false));
    assert!(lock_residue(&residue(false, 0o40755)).is_err());
    let mut busy = residue(false, 0o40711);
    busy.directory_lock = LockOutcome::Busy;
    assert!(lock_residue(&busy)?.is_none());
    assert!(inspect_residue_entries(&vec![Some("other".to_owned())]).is_err());
    let entries = vec![
        RuntimeEntry { name: Some("x".to_owned()), path: "/run/x".to_owned() },
        RuntimeEntry {
            name: Some("remap-bootstrap-0123456789abcdef0123456789abcdef".to_owned()),
            path: "/run/remap-bootstrap-0123456789abcdef0123456789abcdef".to_owned(),
        },
    ];
    assert_eq!(residue_paths(&entries)?.len(), 1);
    let xattrs = vec![ResidueXattr {
        name: Some("security.selinux".to_owned()),
        value: Ok(Some(b"v".to_vec())),
    }];
    let d = directory_identity("/run/x", &metadata(FileKind::Directory, 0o40711), &xattrs)?;
    assert_eq!((d.mode, d.xattrs.len()), (0o711, 1));
    Ok(())
}

#[test]
fn source_manifest_rejects_each_substitutable_source_class() {
    let sources =
        [("remap", 0o755), ("remapd", 0o755), ("remap-linux-system", 0o755), ("share/man/man1/remap.1", 0o644)];
    let mut files: Vec<PreparedArtifact> = sources
        .iter()
        .map(|(path, mode)| {
            prepared((*path).to_owned(), *mode, format!("reviewed-{path}").into_bytes())
        })
        .collect();
    files.sort_by(|left, right| left.relative_path.cmp(&right.relative_path));
    let expected = source_manifest_sha256(&files);
    assert!(verify_source_manifest(&files, &expected).is_ok());
    for index in 0..files.len() {
        files[index].bytes.push(b'!');
        assert!(verify_source_manifest(&files, &expected).is_err());
        files[index].bytes.pop();
    }
    files.swap(0, 1);
    let unsorted = source_manifest_sha256(&files);
    assert!(verify_source_manifest(&files, &unsorted).is_err());
}

#[test]
fn source_manifest_has_its_exact_digest() {
    let files = vec![
        prepared("a".to_owned(), 0o644, b"x".to_vec()),
        prepared("b".to_owned(), 0o755, b"yz".to_vec()),
    ];
    assert_eq!(
        hex(&source_manifest_sha256(&files)),
        "c71e7c072a3c99915dc2e699e9eb0fb9fbb38d76f2cb95f0d141dcb043ebf15f"
    );
}

#[test]
fn preexisting_publication_directory_rejects_foreign_user_xattrs() -> Result<(), Fault> {
    let attribute = |name: &str, length: u64| XattrObservation {
        name: Some(name.to_owned()),
        length: Ok(Some(length)),
    };
    assert!(inspect_xattrs(&vec![], false)?.installed_safe);
    assert!(!inspect_xattrs(&vec![attribute("user.remap-test", 7)], false)?.installed_safe);
    assert!(inspect_xattrs(&vec![attribute("user.remap.owner", 16)], true)?.installed_safe);
    let observation = |safe| DirectoryObservation {
        metadata: Ok(metadata(FileKind::Directory, 0o40755)),
        xattrs_safe: Ok(safe),
        identity: Err(missing()),
    };
    let path = &public_directory_paths()[0];
    let accepted = inspect_public_directory(path, None, &observation(true))?;
    assert_eq!(accepted.provenance, DirectoryProvenance::Preexisting);
    assert_eq!(
        inspect_public_directory(path, None, &observation(false)).err().map(|e| e.kind),
        Some(FaultKind::AlreadyExists)
    );
    Ok(())
}

const IDENTITY: DirectoryIdentity =
    DirectoryIdentity { inode: 7, birth_seconds: 5, birth_nanoseconds: 3, ownership_nonce: 0x5a };

fn public(mode: u32, identity: DirectoryIdentity) -> PublicProbe {
    PublicProbe {
        metadata: Ok(metadata(FileKind::Directory, mode)),
        installed_xattrs: Ok(false),
        created_xattrs: Ok(true),
        identity: Ok(identity),
    }
}

fn absent() -> PublicProbe {
    PublicProbe {
        metadata: Err(missing()),
        installed_xattrs: Err(missing()),
        created_xattrs: Err(missing()),
        identity: Err(missing()),
    }
}

#[test]
fn documentation_namespace_rejects_foreign_entries_before_removal() {
    let listing = |names: &[&str]| Listing {
        result: Ok(names.iter().map(|n| (*n).to_owned()).collect()),
    };
    assert!(validate_document_namespace(&listing(&["NOTICE", "LICENSE"])).is_ok());
    assert!(validate_document_namespace(&listing(&["NOTICE", "LICENSE", "foreign"])).is_err());
    assert!(validate_document_namespace(&listing(&["NOTICE"])).is_err());
}

#[test]
fn created_document_directory_accepts_its_recorded_ownership_marker() {
    let d = PublicDirectory {
        path: "/usr/share/doc/remap".to_owned(),
        provenance: DirectoryProvenance::CreatedByRemap,
        identity: Some(IDENTITY),
    };
    assert!(verify_public_directory(&d, &public(0o40700, IDENTITY)).is_err());
    assert!(verify_public_directory(&d, &public(0o40750, IDENTITY)).is_err());
    assert!(verify_public_directory(&d, &public(0o40755, IDENTITY)).is_ok());
    let other = DirectoryIdentity { ownership_nonce: 1, ..IDENTITY };
    assert!(verify_public_directory(&d, &public(0o40755, other)).is_err());
}

#[test]
fn nested_temporary_is_removed_before_parent_removability() -> Result<(), Fault> {
    let mut g = generation(29);
    let created = |path: &str| PublicDirectory {
        path: path.to_owned(),
        provenance: DirectoryProvenance::CreatedByRemap,
        identity: Some(IDENTITY),
    };
    g.public_directories =
        vec![created("/r/share/fish"), created("/r/share/fish/vendor_completions.d")];
    assert_eq!(created_directories(&g), vec![1, 0]);
    assert_eq!(
        directory_temporary(&g, 1)?,
        "/r/share/fish/.remap-directory-00000000-0000-0000-0000-00000000001d-1"
    );
    assert!(remove_directory_temporary(Some(IDENTITY), &public(0o40755, IDENTITY), &Ok(true)).is_ok());
    assert!(remove_directory_temporary(Some(IDENTITY), &public(0o40755, IDENTITY), &Ok(false)).is_err());
    let gone = RemovalProbe {
        directory: absent(),
        opened: Err(missing()),
        children: vec![],
        interrupted: None,
    };
    let held = |children: Vec<String>| RemovalProbe {
        directory: public(0o40755, IDENTITY),
        opened: Ok(()),
        children,
        interrupted: None,
    };
    let probes = vec![gone, held(vec![])];
    assert_eq!(removable_public_directories(&g, &probes)?, vec!["/r/share/fish"]);
    let kept = vec![
        RemovalProbe { directory: absent(), opened: Err(missing()), children: vec![], interrupted: None },
        held(vec!["/r/share/fish/foreign".to_owned()]),
    ];
    assert!(removable_public_directories(&g, &kept)?.is_empty());
    Ok(())
}

#[test]
fn nested_staging_accepts_only_the_recorded_created_parent() {
    let mut g = generation(31);
    g.public_directories = vec![PublicDirectory {
        path: "/r/fish".to_owned(),
        provenance: DirectoryProvenance::CreatedByRemap,
        identity: Some(IDENTITY),
    }];
    assert!(validate_publication_parent(&g, "/r/fish", &public(0o40755, IDENTITY)).is_ok());
    g.public_directories[0].identity = None;
    assert!(validate_publication_parent(&g, "/r/fish", &public(0o40755, IDENTITY)).is_err());
}

#[test]
fn created_directories_are_published_once() {
    let action = |identity, path: &PublicProbe, temporary: &PublicProbe, empty| {
        publish_created_directory(identity, path, temporary, &Ok(empty)).ok()
    };
    let staged = public(0o40755, IDENTITY);
    assert!(matches!(action(None, &absent(), &absent(), true), Some(CreatedAction::Stage)));
    assert!(matches!(action(Some(IDENTITY), &absent(), &staged, true), Some(CreatedAction::Publish)));
    assert!(matches!(
        action(Some(IDENTITY), &staged, &absent(), true),
        Some(CreatedAction::AcceptPublished)
    ));
    assert!(action(Some(IDENTITY), &absent(), &staged, false).is_none());
}

#[test]
fn updates_and_rollbacks_change_the_same_links() {
    let mut previous = generation(1);
    previous.artifacts = vec![artifact("remap")];
    let current = generation(2);
    let forth = public_link_changes(&previous, &current);
    let back = reverted_link_changes(&previous, &current);
    assert_eq!(forth.len(), 1);
    assert_eq!(back.len(), 1);
    assert!(forth[0].publish && !back[0].publish);
    assert_eq!(forth[0].link, back[0].link);
    assert_eq!(retained_generations(&record()), vec![2, 1]);
}

#[test]
fn links_are_told_apart() {
    let link = |t: &str| LinkObservation::Link(t.to_owned());
    let foreign = || LinkObservation::Foreign;
    assert_eq!(classify_link(&link("a"), "a", "x").ok(), Some(OwnedLink::Exact));
    assert_eq!(
        classify_link(&LinkObservation::Failed(missing()), "a", "x").ok(),
        Some(OwnedLink::Missing)
    );
    assert!(classify_link(&link("b"), "a", "x").is_err());
    assert!(verify_symlink(&foreign(), "a").is_err());
    assert!(verify_symlink(&link("a"), "a").is_ok());
    assert_eq!(removal_of(&link("t"), "t").ok(), Some(OwnedLink::Exact));
    let to = |id| link(&generation_directory(id));
    assert!(current_is(&to(2), 2) && !current_is(&to(2), 1));
    assert!(exchange_accepted(&to(1), 1).is_ok());
    assert!(exchange_accepted(&to(3), 1).is_err());
    let r = record();
    assert!(matches!(
        restore_current_for_rollback(&r, &to(1), &foreign()),
        Ok(CurrentRestoration::KeepPrevious)
    ));
    assert!(matches!(
        restore_current_for_rollback(&r, &to(2), &to(1)),
        Ok(CurrentRestoration::Exchange)
    ));
    assert!(matches!(
        restore_current_for_rollback(&r, &to(2), &LinkObservation::Failed(missing())),
        Ok(CurrentRestoration::Replace)
    ));
    assert!(restore_current_for_rollback(&r, &to(9), &foreign()).is_err());
}

#[test]
fn namespaces_hold_nothing_foreign() -> Result<(), Fault> {
    let g = generation(1);
    let entries = expected_namespace(&g, false)?;
    let directories = namespace_directories(&entries);
    let listing = |names: &[&str]| Listing {
        result: Ok(names.iter().map(|n| (*n).to_owned()).collect()),
    };
    let complete = |foreign: bool| -> Vec<Listing> {
        directories
            .iter()
            .map(|d| match d.as_str() {
                "" if foreign => listing(&["remap", "units", "share", "foreign"]),
                "" => listing(&["remap", "units", "share"]),
                "share" => listing(&["completions", "man"]),
                "share/man" => listing(&["man1"]),
                "share/man/man1" => listing(&["remap.1"]),
                _ => listing(&[]),
            })
            .collect()
    };
    verify_namespace(&entries, &complete(false), false)?;
    assert!(verify_namespace(&entries, &complete(true), false).is_err());
    verify_product_root(&listing(&["generations", "current"]))?;
    assert!(verify_product_root(&listing(&["current"])).is_err());
    let id = "00000000-0000-0000-0000-000000000005";
    verify_generation_root(&vec![5], &listing(&[id]))?;
    assert!(verify_generation_root(&vec![5], &listing(&[id, "x"])).is_err());
    Ok(())
}

#[test]
fn sources_are_accepted_from_their_owner() {
    let m = |uid, mode| Metadata { uid, ..metadata(FileKind::File, mode) };
    let clean = XattrStatus { empty: true, installed_safe: true };
    let elf = b"\x7fELF1";
    assert!(accept_source(&m(1000, 0o100755), &clean, elf, 1000).is_ok());
    assert!(accept_source(&m(1001, 0o100755), &clean, elf, 1000).is_err());
    assert!(accept_source(&m(1000, 0o100755), &clean, b"#!/sh", 1000).is_err());
    assert!(accept_asset(&m(1000, 0o100644), &clean, b"text\n", 1000).is_ok());
    assert!(accept_asset(&m(1000, 0o100644), &clean, b"te\0xt", 1000).is_err());
    let walk = rooted("/a/b/c");
    assert_eq!(walk.directories, vec!["a", "b"]);
    assert_eq!(walk.file.ok().as_deref(), Some("c"));
    assert!(rooted("/a/../c").file.is_err());
    assert!(rooted("a").file.is_err());
}

#[test]
fn paths_are_taken_apart() {
    assert_eq!(file_name("/a/b").as_deref(), Some("b"));
    assert_eq!(file_name("/"), None);
    assert_eq!(parent("/a/b").as_deref(), Some("/a"));
    assert_eq!(parent("/"), None);
    assert_eq!(join_path("/a", "b"), "/a/b");
    assert_eq!(join_path("/a", "/b"), "/b");
    assert_eq!(components("/a/b"), 3);
    assert_eq!(normalize("/a//b/./c"), "/a/b/c");
    let sorted = sort_paths(vec!["/a-b".to_owned(), "/a/c".to_owned()]);
    assert_eq!(sorted, vec!["/a/c", "/a-b"]);
}

#[test]
fn paths_are_recorded_as_they_are_found() -> Result<(), Fault> {
    let none = || RawListing { result: Ok(vec![]) };
    let gone = path_state(
        "/x",
        PathObservation { metadata: Err(missing()), target: Err(missing()), entries: none() },
    )?;
    assert!(gone.is_absent());
    let listed = path_state(
        "/x",
        PathObservation {
            metadata: Ok(metadata(FileKind::Directory, 0o40755)),
            target: Err(missing()),
            entries: RawListing { result: Ok(vec![EntryName { bytes: b"a".to_vec() }]) },
        },
    )?;
    assert_eq!((listed.kind, listed.entry_count), ("directory", Some(1)));
    let (one, first) = directory_entries(vec![
        EntryName { bytes: b"b".to_vec() },
        EntryName { bytes: b"a".to_vec() },
    ])?;
    let (two, second) = directory_entries(vec![
        EntryName { bytes: b"a".to_vec() },
        EntryName { bytes: b"b".to_vec() },
    ])?;
    assert_eq!((one, first), (two, second));
    assert!(validate_directory(&directory(0o40755), 0o755).is_ok());
    assert!(validate_directory(&directory(0o40775), 0o755).is_err());
    Ok(())
}

fn services(state: &str) -> Vec<ServiceObservation> {
    service_units()
        .into_iter()
        .map(|unit| ServiceObservation { unit, state: Ok(state.to_owned()) })
        .collect()
}

fn resolved() -> ResolverEnvironment {
    ResolverEnvironment {
        backend: ResolverBackendKind::SystemdResolved,
        support: ResolverSupport::Supported,
    }
}

fn status_inputs() -> StatusInputs {
    StatusInputs {
        record: None,
        activation: None,
        selected: None,
        inspection: None,
        candidates: Ok(vec![LinkInspection {
            index: 2,
            interface_name: "eth0".to_owned(),
            manager: ResolverLinkManager::SystemdNetworkd,
            selection_state: ResolverLinkSelectionState::SupportedPrimary,
        }]),
        services: services("not_found"),
        daemon_plan: Ok(None),
        bootstrap_residues: Ok(vec![]),
        state_residue: Ok(None),
        publications: vec![],
        integrity: Ok(()),
        activation_link_owned: Ok(true),
        current_link: LinkObservation::Failed(missing()),
        distribution: Ok(Distribution { id: "ubuntu".to_owned(), version_id: "24.04".to_owned() }),
        environment: resolved(),
    }
}

#[test]
fn an_untouched_host_has_nothing_to_recover() -> Result<(), Fault> {
    let data = status(status_inputs())?;
    assert!(!data.recovery_required);
    assert_eq!(data.active_generation_id, None);
    assert_eq!(data.link_candidates.len(), 1);
    assert_eq!(
        data.hint,
        Some("the only supported primary interface will be selected automatically")
    );
    Ok(())
}

#[test]
fn an_installation_without_its_activation_is_not_active() -> Result<(), Fault> {
    let mut inputs = status_inputs();
    inputs.record = Some(record());
    inputs.services = services("active");
    inputs.current_link = LinkObservation::Link(generation_directory(2));
    let data = status(inputs)?;
    assert!(data.recovery_required);
    assert_ne!(data.installation_state, "active");
    Ok(())
}

#[test]
fn snapshots_record_what_was_found() -> Result<(), Fault> {
    let inputs = SnapshotInputs {
        services: services("not_found"),
        selected_link: None,
        effective_link: None,
        activation: Ok(None),
        publications: vec![],
        bootstrap_residues: Ok(vec![]),
        state_residue: Ok(None),
        daemon_plan: Ok(None),
        integrity: Ok(()),
        environment: resolved(),
    };
    let s = snapshot(None, SnapshotNormalization::none(), inputs)?;
    assert!(s.install_record.is_none());
    assert_eq!(s.services.len(), service_units().len());
    assert_eq!(s.active_integrity_valid, None);
    Ok(())
}

#[test]
fn the_channel_is_the_daemons_own() {
    let socket = |uid, mode| SocketMetadata { is_socket: true, uid, mode };
    assert!(validate_socket(socket(1001, 0o140600), 1001).is_ok());
    assert!(validate_socket(socket(1001, 0o140660), 1001).is_err());
    assert!(validate_socket(socket(0, 0o140600), 1001).is_err());
    assert!(validate_peer(1001, 1001).is_ok());
    assert_eq!(validate_peer(0, 1001).err().map(|e| e.kind), Some(FaultKind::PermissionDenied));
    let result = SystemResult { activation_id: Some(3), active_generation: Some(4) };
    let answer = |protocol: &str, request_id| SystemResponse {
        protocol: protocol.to_owned(),
        request_id,
        result: Some(result),
        error: false,
    };
    assert_eq!(accept_response(&answer("p", 9), "p", 9).ok(), Some(result));
    assert!(accept_response(&answer("q", 9), "p", 9).is_err());
    assert!(accept_response(&answer("p", 8), "p", 9).is_err());
    assert!(current_plan_identity(&SystemResult { activation_id: Some(3), active_generation: None })
        .is_err());
    let activation = Activation {
        phase: ActivationPhase::Active,
        activation_id: 3,
        generation: 4,
        owner_uid: 1000,
        link: 7,
    };
    assert_eq!(
        current_plan_identity(&result).ok().flatten().map(|p| (p.activation_id, p.generation)),
        Some((activation.activation_id, activation.generation))
    );
}
