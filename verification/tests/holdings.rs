//! What an installation holds on disk, and how it is taken and given up.

use remap::bootstrap::{
    helper_identity, require_approved_residues, validate_runtime, xattr_identity, BootstrapResidue,
    ResidueDirectory, ResidueXattr,
};
use remap::cleanup::{
    inspect_state_residue, preflight_state_directory, validate_product_directory, StateDirectory,
    StateEntry, StateResidue,
};
use remap::digest::{hex, sha256};
use remap::disk::{
    create_private_directory, presence, public_parent, record_path, remove_bootstrap_residue,
    remove_empty_staging_directory, remove_exact_empty_directory, remove_owned_directory,
    remove_partial_artifact, remove_public_directory, stage_directory_temporary,
    sync_public_parent, Ancestor, DiskStep,
};
use remap::fault::{
    conflict, fault, hand_on, invalid_data, require_all, require_json, require_root, Fault,
    FaultKind,
};
use remap::files::{
    check_directory, require_absent, validate_ancestor, validate_recoverable_private_directory,
    FileKind, LinkObservation, Metadata, OwnedLink, Probe,
};
use remap::generation::FileRead;
use remap::integrity::{
    first_failure, publication_failure, validate_directories, verify_active,
    verify_active_without_public_links, verify_generation, verify_links, verify_public_links,
    verify_unit_links, ActiveObservation, GenerationFiles, Outcome,
};
use remap::linking::{
    install_missing_public_links, install_public_link_changes, install_public_links,
    install_unit_links, remove_owned_public_links, remove_owned_unit_links,
    revert_public_link_changes, unit_directory_paths, LinkStep,
};
use remap::model::{
    Artifact, DirectoryIdentity, DirectoryProvenance, Generation, InstallPhase, InstallRecord,
    PublicDirectory, RESOLVER_REBASE_CAPABILITY,
};
use remap::native::ResolverLinkManager;
use remap::observation::require_distribution_file;
use remap::publications::{
    ensure_public_directories, missing_public_links, public_link_specs,
    public_link_specs_for_generation, publication_of, publication_paths,
    remove_created_public_directories, require_approved_repairs, require_directory_identity,
    same_links, validate_created_directory, validate_published_created_directory,
    verify_public_directories, Listing, PublicProbe,
};
use remap::source::{
    accept_lock_file, accept_owned_file, accept_record_file, require_bounded_length,
    require_stable_length, XattrStatus,
};
use remap::status::publication_namespace_occupied;
use remap::storage::{
    artifact_limit, generation_uses_legacy_digests, owned_directory_names, removal_fault,
    validate_owned_stage_directory, validate_partial_file, verify_artifact,
};
use remap::units::{
    current_link_removal, generation_directory, paths_of, require_all_absent,
    temporary_link_removal, unit_link_removal, unit_link_specs, unit_publication_paths,
    verify_current_link, PathProbe, PublishedLink,
};

const IDENTITY: DirectoryIdentity = DirectoryIdentity {
    inode: 9,
    birth_seconds: 5,
    birth_nanoseconds: 6,
    ownership_nonce: 7,
};

fn missing() -> Fault {
    fault(FaultKind::NotFound, "no such file")
}

fn metadata(kind: FileKind, mode: u32) -> Metadata {
    Metadata { kind, uid: 0, gid: 0, mode, links: 1, length: 5, device: 1, inode: 7 }
}

fn probe(mode: u32) -> Probe {
    Probe { metadata: Ok(metadata(FileKind::Directory, mode)), xattrs_safe: Ok(true) }
}

fn message<T>(outcome: Result<T, Fault>) -> Option<String> {
    outcome.err().map(|error| error.message)
}

fn generation() -> Generation {
    Generation {
        id: 2,
        manifest_digest: [1; 32],
        product_version: "0.1.1".to_owned(),
        account: "remap".to_owned(),
        group: "remap".to_owned(),
        owner_uid: 1000,
        daemon_uid: 1001,
        link: 7,
        interface_name: Some("eth0".to_owned()),
        resolver_manager: Some(ResolverLinkManager::SystemdNetworkd),
        resolver_rebase_capability: RESOLVER_REBASE_CAPABILITY,
        artifacts: vec![Artifact {
            relative_path: "remap".to_owned(),
            mode: 0o755,
            byte_length: 3,
            digest: sha256(b"elf"),
        }],
        public_directories: vec![
            PublicDirectory {
                path: "/usr/share/doc".to_owned(),
                provenance: DirectoryProvenance::CreatedByRemap,
                identity: Some(IDENTITY),
            },
            PublicDirectory {
                path: "/usr/share/doc/remap".to_owned(),
                provenance: DirectoryProvenance::CreatedByRemap,
                identity: Some(IDENTITY),
            },
        ],
    }
}

fn created(mode: u32) -> PublicProbe {
    PublicProbe {
        metadata: Ok(metadata(FileKind::Directory, mode)),
        installed_xattrs: Ok(false),
        created_xattrs: Ok(true),
        identity: Ok(IDENTITY),
    }
}

fn record() -> InstallRecord {
    InstallRecord {
        phase: InstallPhase::Active,
        current: generation(),
        previous: None,
        previous_previous: None,
        pending_resolver_plan: None,
    }
}

fn leads(links: &[PublishedLink]) -> Vec<LinkObservation> {
    links.iter().map(|link| LinkObservation::Link(link.target.clone())).collect()
}

fn files() -> GenerationFiles {
    GenerationFiles {
        directories: vec![probe(0o40755)],
        artifacts: vec![Outcome { result: Ok(()) }],
        namespace: Outcome { result: Ok(()) },
    }
}

fn active() -> ActiveObservation {
    ActiveObservation {
        current_link: LinkObservation::Link(generation_directory(2)),
        unit_directories: vec![probe(0o40755), probe(0o40755), probe(0o40755)],
        unit_links: leads(&unit_link_specs()),
        public_directories: Outcome { result: Ok(()) },
        current_files: files(),
        previous_files: None,
        generation_root: Outcome { result: Ok(()) },
        public_parent: probe(0o40755),
        public_links: leads(&public_link_specs_for_generation(&generation())),
    }
}

#[test]
fn an_active_installation_is_held_to_its_record() -> Result<(), Fault> {
    verify_active(&record(), &active())?;
    let mut staged = record();
    staged.phase = InstallPhase::Staged;
    assert_eq!(
        message(verify_active(&staged, &active())).as_deref(),
        Some("the Linux installation requires recovery")
    );
    let mut moved = active();
    moved.current_link = LinkObservation::Link(generation_directory(3));
    assert_eq!(
        message(verify_active(&record(), &moved)).as_deref(),
        Some("an installed publication link changed ownership")
    );
    let mut unlinked = active();
    unlinked.public_links[0] = LinkObservation::Failed(missing());
    verify_active_without_public_links(&record(), &unlinked)?;
    assert_eq!(verify_active(&record(), &unlinked).err(), Some(missing()));
    let mut changed = active();
    changed.current_files.artifacts[0].result = Err(conflict("changed"));
    assert_eq!(message(verify_active(&record(), &changed)).as_deref(), Some("changed"));
    let mut foreign = active();
    foreign.unit_links[9] = LinkObservation::Foreign;
    assert!(verify_active(&record(), &foreign).is_err());
    let mut crowded = active();
    crowded.generation_root.result = Err(conflict("crowded"));
    assert_eq!(message(verify_active(&record(), &crowded)).as_deref(), Some("crowded"));
    Ok(())
}

#[test]
fn parts_of_an_installation_are_held_to_theirs() -> Result<(), Fault> {
    verify_generation(&files())?;
    let mut unsafe_directory = files();
    unsafe_directory.directories[0] = probe(0o40775);
    assert!(verify_generation(&unsafe_directory).is_err());
    let links = public_link_specs_for_generation(&generation());
    assert_eq!(links.len(), 1);
    verify_links(&links, &leads(&links))?;
    assert!(verify_links(&links, &vec![LinkObservation::Foreign]).is_err());
    verify_public_links(&probe(0o40755), &generation(), &leads(&links))?;
    assert!(verify_public_links(&probe(0o40700), &generation(), &leads(&links)).is_err());
    verify_unit_links(&vec![probe(0o40755)], &leads(&unit_link_specs()))?;
    validate_directories(&vec![])?;
    assert!(validate_directories(&vec![probe(0o40755), probe(0o40750)]).is_err());
    first_failure(&vec![])?;
    let outcomes =
        vec![Outcome { result: Err(conflict("first")) }, Outcome { result: Err(conflict("second")) }];
    assert_eq!(message(first_failure(&outcomes)).as_deref(), Some("first"));
    assert_eq!(
        publication_failure(&conflict("exists")).message,
        "an installation publication path became occupied"
    );
    assert_eq!(publication_failure(&missing()), missing());
    Ok(())
}

#[test]
fn links_are_published_removed_and_repaired_by_their_owner() -> Result<(), Fault> {
    let generation = generation();
    let links = public_link_specs_for_generation(&generation);
    let target = links[0].target.clone();
    assert_eq!(
        publication_of(&LinkObservation::Failed(missing()), &target)?,
        OwnedLink::Missing
    );
    assert_eq!(
        message(publication_of(&LinkObservation::Foreign, &target)).as_deref(),
        Some("a public Remap installation path is occupied")
    );
    let gone = missing_public_links(&generation, &vec![LinkObservation::Failed(missing())])?;
    assert!(same_links(&gone, &links));
    assert!(missing_public_links(&generation, &leads(&links))?.is_empty());
    require_approved_repairs(&gone, &links)?;
    assert!(require_approved_repairs(&gone, &vec![]).is_err());
    let unit = &unit_link_specs()[0];
    assert_eq!(
        unit_link_removal(&LinkObservation::Link(unit.target.clone()), &unit.target)?,
        OwnedLink::Exact
    );
    assert_eq!(
        message(unit_link_removal(&LinkObservation::Foreign, &unit.target)).as_deref(),
        Some("a systemd unit path changed ownership")
    );
    let current = LinkObservation::Link(generation_directory(2));
    verify_current_link(&current, 2)?;
    assert!(verify_current_link(&current, 3).is_err());
    assert_eq!(current_link_removal(&current, 2)?, OwnedLink::Exact);
    assert!(current_link_removal(&current, 3).is_err());
    assert_eq!(
        temporary_link_removal(&LinkObservation::Failed(missing()), 2)?,
        OwnedLink::Missing
    );
    assert_eq!(public_link_specs().len(), 28);
    assert_eq!(unit_publication_paths(), paths_of(&unit_link_specs()));
    assert_eq!(publication_paths().len(), 40);
    let absent = vec![PathProbe { result: Err(missing()) }];
    require_all_absent(&absent, "occupied")?;
    assert!(!publication_namespace_occupied(&absent)?);
    let present = vec![PathProbe { result: Ok(metadata(FileKind::File, 0o100644)) }];
    assert_eq!(message(require_all_absent(&present, "occupied")).as_deref(), Some("occupied"));
    assert!(publication_namespace_occupied(&present)?);
    Ok(())
}

#[test]
fn created_directories_are_known_by_their_marker() -> Result<(), Fault> {
    validate_created_directory(&created(0o40700))?;
    assert!(validate_created_directory(&created(0o40722)).is_err());
    validate_published_created_directory(&created(0o40755))?;
    assert_eq!(
        message(validate_published_created_directory(&created(0o40700))).as_deref(),
        Some("a Remap-created public directory does not have its exact published mode")
    );
    require_directory_identity(&created(0o40755), IDENTITY)?;
    let other = DirectoryIdentity { ownership_nonce: 8, ..IDENTITY };
    assert!(require_directory_identity(&created(0o40755), other).is_err());
    let generation = generation();
    let probes = || vec![created(0o40755), created(0o40755)];
    ensure_public_directories(&generation, &probes())?;
    let documents = |names: &[&str]| Listing {
        result: Ok(names.iter().map(|name| (*name).to_owned()).collect()),
    };
    verify_public_directories(&generation, &probes(), &documents(&["NOTICE", "LICENSE"]))?;
    assert!(verify_public_directories(&generation, &probes(), &documents(&["LICENSE"])).is_err());
    let removable = vec!["/usr/share/doc/remap".to_owned()];
    let removals = remove_created_public_directories(&generation, &removable)
        .iter()
        .map(|removal| (removal.index, removal.remove))
        .collect::<Vec<_>>();
    assert_eq!(removals, vec![(1, true), (0, false)]);
    Ok(())
}

#[test]
fn directories_are_held_to_owner_and_mode() -> Result<(), Fault> {
    check_directory(&probe(0o40755), 0o777, 0o755, "metadata", "attributes")?;
    assert_eq!(
        message(check_directory(&probe(0o40700), 0o777, 0o755, "metadata", "attributes")).as_deref(),
        Some("metadata")
    );
    let mut marked = probe(0o40755);
    marked.xattrs_safe = Ok(false);
    assert_eq!(
        message(check_directory(&marked, 0o777, 0o755, "metadata", "attributes")).as_deref(),
        Some("attributes")
    );
    validate_recoverable_private_directory(&probe(0o40500))?;
    assert!(validate_recoverable_private_directory(&probe(0o40710)).is_err());
    validate_ancestor(&Ok(metadata(FileKind::Directory, 0o40755)))?;
    assert!(validate_ancestor(&Ok(metadata(FileKind::Directory, 0o40775))).is_err());
    assert!(validate_ancestor(&Ok(metadata(FileKind::Symlink, 0o40755))).is_err());
    require_absent(&Err(missing()), "occupied")?;
    assert_eq!(
        message(require_absent(&Ok(metadata(FileKind::File, 0)), "occupied")).as_deref(),
        Some("occupied")
    );
    validate_owned_stage_directory(&probe(0o40700))?;
    assert!(validate_owned_stage_directory(&probe(0o40722)).is_err());
    validate_product_directory(&probe(0o40755), 0o755)?;
    assert!(validate_product_directory(&probe(0o40700), 0o755).is_err());
    assert!(presence(&Ok(metadata(FileKind::File, 0)))?);
    assert!(!presence(&Err(missing()))?);
    assert!(presence(&Err(conflict("else"))).is_err());
    require_distribution_file(&metadata(FileKind::File, 0o100644))?;
    assert!(require_distribution_file(&metadata(FileKind::Symlink, 0o100644)).is_err());
    Ok(())
}

#[test]
fn files_are_held_to_owner_mode_and_length() -> Result<(), Fault> {
    let clean = XattrStatus { empty: true, installed_safe: true };
    accept_owned_file(&metadata(FileKind::File, 0o100644), &clean, 0o644, 5)?;
    assert!(accept_owned_file(&metadata(FileKind::File, 0o100644), &clean, 0o644, 6).is_err());
    assert!(accept_owned_file(&metadata(FileKind::File, 0o100755), &clean, 0o644, 5).is_err());
    assert_eq!(accept_record_file(&metadata(FileKind::File, 0o100600), &Ok(true), Some(5))?, 5);
    assert!(accept_record_file(&metadata(FileKind::File, 0o100600), &Ok(true), Some(4)).is_err());
    assert!(accept_record_file(&metadata(FileKind::File, 0o100600), &Ok(false), None).is_err());
    let mut lock = metadata(FileKind::File, 0o100600);
    lock.length = 0;
    accept_lock_file(&lock, 0)?;
    assert!(accept_lock_file(&lock, 1).is_err());
    require_bounded_length(5, 5)?;
    assert!(require_bounded_length(0, 5).is_err());
    assert!(require_bounded_length(6, 5).is_err());
    require_stable_length(b"abc", 3)?;
    assert!(require_stable_length(b"abc", 4).is_err());
    let artifact = &generation().artifacts[0];
    assert_eq!(artifact_limit(artifact), 134_217_728);
    verify_artifact(b"elf", artifact, false)?;
    assert!(verify_artifact(b"fle", artifact, false).is_err());
    verify_artifact(b"elf", artifact, true)?;
    assert!(!generation_uses_legacy_digests(&generation()));
    let mut part = metadata(FileKind::File, 0o100600);
    part.length = 2;
    validate_partial_file(&part, &Ok(true), artifact)?;
    part.length = 4;
    assert!(validate_partial_file(&part, &Ok(true), artifact).is_err());
    let full = fault(FaultKind::DirectoryNotEmpty, "full");
    assert_eq!(removal_fault(&full, "foreign").message, "foreign");
    assert_eq!(removal_fault(&missing(), "foreign"), missing());
    assert_eq!(owned_directory_names().len(), 5);
    Ok(())
}

#[test]
fn directories_are_made_and_removed_step_by_step() -> Result<(), Fault> {
    let made = create_private_directory("/run/remap", 0o700, false)?;
    assert!(matches!(&made[0], DiskStep::ValidateAncestor(path) if path == "/run"));
    assert!(matches!(&made[1], DiskStep::CreateDirectory(path) if path == "/run/remap"));
    let kept = create_private_directory("/run/remap", 0o700, true)?;
    assert!(matches!(&kept[0], DiskStep::ValidatePrivate(path) if path == "/run/remap"));
    assert_eq!(made.len(), kept.len() + 2);
    assert!(create_private_directory("/run/remap", 0o755, true).is_err());
    let removed = remove_owned_directory("/a/b", true);
    assert!(removed
        .iter()
        .any(|step| matches!(step, DiskStep::RemoveEmptyDirectory(path, _) if path == "/a/b")));
    assert!(remove_owned_directory("/a/b", false)
        .iter()
        .all(|step| !matches!(step, DiskStep::RemoveEmptyDirectory(_, _))));
    assert!(remove_empty_staging_directory("/a/b", true)
        .iter()
        .all(|step| !matches!(step, DiskStep::CreateDirectory(_))));
    let exact = remove_exact_empty_directory("/a/b", "foreign", true);
    assert!(exact.iter().any(
        |step| matches!(step, DiskStep::RemoveEmptyDirectory(_, text) if text == "foreign")
    ));
    let partial = remove_partial_artifact("/g", "remap", 0, true, false)?;
    assert!(matches!(&partial[0], DiskStep::VerifyArtifact(path, 0) if path == "/g/remap"));
    assert!(matches!(&partial[1], DiskStep::RemoveFile(path) if path == "/g/remap"));
    assert_eq!(record_path("/var/lib/remap-system"), "/var/lib/remap-system/installation.json");
    match public_parent("/usr/share/doc/remap") {
        Ancestor::Look(path) => assert_eq!(path, "/usr/share/doc"),
        ancestor => panic!("{ancestor:?}"),
    }
    match sync_public_parent("/usr/share/doc", &PathProbe { result: Err(missing()) }) {
        Ancestor::Look(path) => assert_eq!(path, "/usr/share"),
        ancestor => panic!("{ancestor:?}"),
    }
    assert!(matches!(
        sync_public_parent("/", &PathProbe { result: Err(missing()) }),
        Ancestor::Refused(_)
    ));
    Ok(())
}

fn residue(path: &str) -> BootstrapResidue {
    BootstrapResidue {
        directory: ResidueDirectory {
            path: path.to_owned(),
            device: 1,
            inode: 2,
            mode: 0o711,
            owner_uid: 0,
            owner_gid: 0,
            xattrs: vec![],
        },
        helper: None,
    }
}

#[test]
fn bootstrap_residues_go_only_as_they_were_approved() -> Result<(), Fault> {
    require_approved_residues(&vec![residue("/run/a")], &vec![residue("/run/a")])?;
    assert!(require_approved_residues(&vec![residue("/run/a")], &vec![residue("/run/b")]).is_err());
    assert!(require_approved_residues(&vec![], &vec![residue("/run/a")]).is_err());
    assert!(residue("/run/a").same_as(&residue("/run/a")));
    assert!(remove_bootstrap_residue(&residue("/run/a"))
        .iter()
        .any(|step| matches!(step, DiskStep::RemoveEmptyDirectory(path, _) if path == "/run/a")));
    let attribute = |name: &str| ResidueXattr {
        name: Some(name.to_owned()),
        value: Ok(Some(b"label".to_vec())),
    };
    let identities = xattr_identity(&vec![attribute("security.selinux"), attribute("security.evm")])?;
    assert_eq!(identities[0].name, "security.evm");
    assert_eq!(identities[0].byte_length, 5);
    assert_eq!(identities[0].digest, sha256(b"label"));
    assert!(xattr_identity(&vec![attribute("user.other")]).is_err());
    let mut file = metadata(FileKind::File, 0o100555);
    file.length = 3;
    let read = FileRead { result: Ok(b"elf".to_vec()) };
    let helper = helper_identity("/run/a/remap-linux-system", &file, &read, &vec![])?;
    assert_eq!(helper.sha256, hex(&sha256(b"elf")));
    file.mode = 0o100755;
    assert!(helper_identity("/run/a/remap-linux-system", &file, &read, &vec![]).is_err());
    validate_runtime(&metadata(FileKind::Directory, 0o40755), &vec![])?;
    assert!(validate_runtime(&metadata(FileKind::File, 0o40755), &vec![]).is_err());
    Ok(())
}

#[test]
fn a_state_directory_holds_only_its_own_files() -> Result<(), Fault> {
    let entry = |name: &str| StateEntry {
        name: Some(name.to_owned()),
        path: format!("/var/lib/remap-system/{name}"),
        metadata: Ok(metadata(FileKind::File, 0o100600)),
        xattrs_safe: Ok(true),
        contents: FileRead { result: Ok(b"bytes".to_vec()) },
    };
    preflight_state_directory(&probe(0o40700), &vec![entry("installation.json")])?;
    assert!(preflight_state_directory(&probe(0o40700), &vec![entry("foreign")]).is_err());
    assert!(preflight_state_directory(&probe(0o40755), &vec![]).is_err());
    let found = |entries| {
        inspect_state_residue(&StateDirectory {
            directory: "/var/lib/remap-system".to_owned(),
            probe: probe(0o40700),
            install_present: Ok(false),
            resolver_present: Ok(false),
            entries,
        })
    };
    let empty: Option<StateResidue> = found(vec![])?;
    assert_eq!(empty.as_ref().map(StateResidue::is_empty_directory), Some(true));
    let temporary = found(vec![entry(".installation.new")])?;
    assert_eq!(temporary.as_ref().map(StateResidue::is_empty_directory), Some(false));
    if let (Some(first), Some(second)) = (&empty, &temporary) {
        assert!(!first.same_as(second));
        assert!(first.same_as(&first.duplicate()));
        assert!(!first.requires_resolver_quiescence());
    }
    Ok(())
}

#[test]
fn refusals_keep_their_kind_and_words() {
    assert_eq!(require_json(false).err().map(|e| e.kind), Some(FaultKind::InvalidInput));
    assert!(require_json(true).is_ok());
    assert_eq!(
        message(require_all(false)).as_deref(),
        Some("recovery requires the explicit --all scope")
    );
    assert!(require_root(0, "root").is_ok());
    assert_eq!(
        require_root(5, "root").err(),
        Some(fault(FaultKind::PermissionDenied, "root"))
    );
    assert_eq!(hand_on(&invalid_data("x")), fault(FaultKind::InvalidData, "x"));
    assert_eq!(conflict("x").kind, FaultKind::AlreadyExists);
}

fn place(steps: &[LinkStep], wanted: fn(&LinkStep) -> bool) -> Vec<usize> {
    steps.iter().enumerate().filter(|(_, step)| wanted(step)).map(|(index, _)| index).collect()
}

#[test]
fn an_installation_replaces_nothing() {
    for (steps, count) in
        [(install_unit_links(), 10), (install_public_links(&generation()), 1)]
    {
        let checked = place(&steps, |step| matches!(step, LinkStep::RequireAbsent(_, _)));
        let published = place(&steps, |step| matches!(step, LinkStep::Publish(_)));
        assert_eq!(checked.len(), count);
        assert_eq!(published.len(), count);
        assert!(checked.iter().all(|index| *index < published[0]));
        for (check, link) in checked.iter().zip(&published) {
            match (&steps[*check], &steps[*link]) {
                (LinkStep::RequireAbsent(path, _), LinkStep::Publish(link)) => {
                    assert_eq!(*path, link.path);
                }
                steps => panic!("{steps:?}"),
            }
        }
    }
    assert_eq!(unit_directory_paths().len(), 3);
}

#[test]
fn a_removal_names_what_was_published() {
    let published = install_unit_links()
        .into_iter()
        .filter_map(|step| match step {
            LinkStep::Publish(link) => Some(link),
            _ => None,
        })
        .collect::<Vec<_>>();
    let mut removed = remove_owned_unit_links()
        .into_iter()
        .filter_map(|step| match step {
            LinkStep::RemoveUnit(link) => Some(link),
            _ => None,
        })
        .collect::<Vec<_>>();
    removed.reverse();
    assert_eq!(published, removed);
    let public = remove_owned_public_links(&generation());
    assert!(matches!(&public[0], LinkStep::ValidateDirectory(path) if path == "/usr/bin"));
    assert!(matches!(&public[1], LinkStep::RemoveExpected(link) if link.path == "/usr/bin/remap"));
    assert!(matches!(public.last(), Some(LinkStep::Sync(path)) if path == "/usr/share/doc"));
    let repaired = install_missing_public_links(&public_link_specs_for_generation(&generation()));
    assert!(matches!(&repaired[0], LinkStep::PublishExpected(_)));
}

#[test]
fn changes_of_links_are_undone_by_their_reversal() {
    let previous = generation();
    let mut current = generation();
    current.artifacts[0].relative_path = "LICENSE".to_owned();
    let paths = |steps: Vec<LinkStep>| {
        let mut made = Vec::new();
        let mut gone = Vec::new();
        for step in steps {
            match step {
                LinkStep::PublishExpected(link) => made.push(link.path),
                LinkStep::RemoveExpected(link) => gone.push(link.path),
                _ => {}
            }
        }
        (made, gone)
    };
    let forward = paths(install_public_link_changes(&previous, &current));
    assert_eq!(
        forward,
        (vec!["/usr/share/doc/remap/LICENSE".to_owned()], vec!["/usr/bin/remap".to_owned()])
    );
    let back = paths(revert_public_link_changes(&previous, &current));
    assert_eq!((back.1, back.0), forward);
}

#[test]
fn public_directories_are_marked_when_they_are_complete() {
    let steps = stage_directory_temporary("/usr/share/.remap-directory", false);
    assert!(matches!(&steps[0], DiskStep::ValidateParent(path) if path == "/usr/share"));
    assert!(matches!(&steps[1], DiskStep::CreateDirectory(_)));
    assert!(matches!(&steps[2], DiskStep::SetMode(_, 0o755)));
    assert!(matches!(&steps[5], DiskStep::RequireEmpty(_)));
    assert!(matches!(&steps[6], DiskStep::MarkDirectory(_)));
    assert_eq!(steps.len(), 7);
    let left = stage_directory_temporary("/usr/share/.remap-directory", true);
    assert!(matches!(&left[1], DiskStep::ValidateCreated(_)));
    assert!(matches!(&stage_directory_temporary("/", true)[..], [DiskStep::Refuse(_)]));
    let removed = remove_public_directory("/usr/share/fish");
    assert!(matches!(&removed[0], DiskStep::ValidatePublished(path) if path == "/usr/share/fish"));
    assert!(matches!(&removed[2], DiskStep::SyncDirectory(path) if path == "/usr/share"));
}

#[test]
fn the_mappings_are_left_alone() {
    let outside = |path: &String| path.starts_with("/usr/") || path.starts_with("/etc/");
    assert!(publication_paths().iter().all(outside));
    assert!(paths_of(&unit_link_specs()).iter().all(outside));
    assert!(outside(&generation_directory(7)));
    assert!(generation().public_directories.iter().all(|entry| outside(&entry.path)));
}
