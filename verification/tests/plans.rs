//! Plans from the observations they are made of.

use remap::bootstrap::{BootstrapResidue, ResidueDirectory, ResidueHelper, XattrIdentity};
use remap::cleanup::StateResidue;
use remap::digest::hex;
use remap::effects::Operation;
use remap::fault::{fault, Fault, FaultKind};
use remap::files::{FileKind, Metadata, Probe};
use remap::generation::{
    collect_sources, manpages, prepare, prepare_files, public_directory_paths,
    source_manifest_sha256, to_artifact, validate_identity, validate_public_directories,
    DirectoryObservation, FileRead, GenerationInputs, InstallRequest, UnitText,
};
use remap::model::{
    encode, DirectoryIdentity, DirectoryProvenance, Generation, InstallPhase, InstallRecord,
    ResolverPlanIdentity, EXPECTED_ARTIFACTS,
};
use remap::native::{
    Activation, ActivationPhase, ResolverBackendKind, ResolverEnvironment, ResolverLinkManager,
    ResolverLinkSelectionState, ResolverSupport,
};
use remap::observation::PathState;
use remap::plan::{
    approved_link, prepare_authority, require_installed, require_mode, AuthorityInputs,
    InspectionResult, Listeners, MissingLinks, PreparedPlan, RemovableDirectories,
};
use remap::preparing::{
    prepare_install, prepare_recovery, prepare_uninstall, InstallInputs, RecoveryInputs,
    StateResult,
};
use remap::publications::{public_link_specs_for_generation, publication_paths};
use remap::snapshot::{
    service_units, snapshot, ActivationObservation, LinkInspection, ServiceObservation,
    SnapshotInputs, SnapshotNormalization, StateSnapshot,
};
use remap::state::encoded_state;
use remap::units::PathProbe;

const IDENTITY: DirectoryIdentity = DirectoryIdentity {
    inode: 9,
    birth_seconds: 5,
    birth_nanoseconds: 6,
    ownership_nonce: 7,
};
const PLAN: ResolverPlanIdentity = ResolverPlanIdentity { activation_id: 3, generation: 4 };

fn missing() -> Fault {
    fault(FaultKind::NotFound, "no such file")
}

fn directory() -> Metadata {
    Metadata {
        kind: FileKind::Directory,
        uid: 0,
        gid: 0,
        mode: 0o40755,
        links: 2,
        length: 0,
        device: 1,
        inode: 9,
    }
}

fn read(bytes: &[u8]) -> FileRead {
    FileRead { result: Ok(bytes.to_vec()) }
}

fn sources(installed: bool) -> GenerationInputs {
    GenerationInputs {
        account_uid: Some(1001),
        group_gid: Some(1002),
        remap: read(b"\x7fELF remap"),
        remapd: read(b"\x7fELF remapd"),
        system: read(b"\x7fELF system"),
        manpages: manpages().iter().map(|name| read(format!(".TH {name}").as_bytes())).collect(),
        bash: read(b"bash"),
        fish: read(b"fish"),
        zsh: read(b"zsh"),
        license: read(b"license"),
        notice: read(b"notice"),
        canonical_license: b"license".to_vec(),
        canonical_notice: b"notice".to_vec(),
        daemon_unit: read(b"[Service]"),
        resolver_unit: Some(b"[Service]".to_vec()),
        socket_units: ["remapd-dns-udp.socket", "remapd-dns-tcp.socket", "remapd-http.socket"]
            .iter()
            .map(|name| UnitText { name: (*name).to_owned(), contents: b"[Socket]".to_vec() })
            .collect(),
        directories: public_directory_paths()
            .iter()
            .map(|path| DirectoryObservation {
                metadata: if path == "/usr/share/doc/remap" && !installed {
                    Err(missing())
                } else {
                    Ok(directory())
                },
                xattrs_safe: Ok(true),
                identity: Ok(IDENTITY),
            })
            .collect(),
    }
}

fn digest() -> [u8; 32] {
    let Ok(mut files) = collect_sources(&sources(false)) else {
        panic!("the sources are complete");
    };
    files.sort_by(|left, right| left.relative_path.cmp(&right.relative_path));
    source_manifest_sha256(&files)
}

fn request() -> InstallRequest {
    InstallRequest {
        source_manifest_sha256: digest(),
        account: "remap".to_owned(),
        group: "remap".to_owned(),
        owner_uid: 1000,
        link: 7,
        product_version: "0.1.0".to_owned(),
    }
}

fn inspection() -> LinkInspection {
    LinkInspection {
        index: 7,
        interface_name: "eth0".to_owned(),
        manager: ResolverLinkManager::SystemdResolved,
        selection_state: ResolverLinkSelectionState::SupportedPrimary,
    }
}

fn authority(record: Option<InstallRecord>) -> AuthorityInputs {
    let absent = |count: usize| {
        (0..count).map(|_| PathProbe { result: Err(missing()) }).collect::<Vec<_>>()
    };
    AuthorityInputs {
        effective_uid: 0,
        record: Ok(record),
        reservation_held: false,
        integrity: Ok(()),
        publications: absent(publication_paths().len()),
        generation_roots: absent(2),
        unit_directories: (0..3)
            .map(|_| Probe { metadata: Ok(directory()), xattrs_safe: Ok(true) })
            .collect(),
    }
}

fn state(record: Option<InstallRecord>) -> Result<StateSnapshot, Fault> {
    let installed = record.is_some();
    let unit_state = if installed { "active" } else { "not_found" };
    let summary = Activation {
        phase: ActivationPhase::Active,
        activation_id: PLAN.activation_id,
        generation: PLAN.generation,
        owner_uid: 1000,
        link: 7,
    };
    snapshot(
        record,
        SnapshotNormalization::none(),
        SnapshotInputs {
            services: service_units()
                .into_iter()
                .map(|unit| ServiceObservation { unit, state: Ok(unit_state.to_owned()) })
                .collect(),
            selected_link: Some(Ok(inspection())),
            effective_link: Some(Ok(b"link".to_vec())),
            activation: Ok(installed.then_some(ActivationObservation {
                summary,
                encoded: b"activation".to_vec(),
                owned_link: b"link".to_vec(),
            })),
            publications: vec![],
            bootstrap_residues: Ok(vec![]),
            state_residue: Ok(None),
            daemon_plan: Ok(installed.then_some(PLAN)),
            integrity: Ok(()),
            environment: ResolverEnvironment {
                backend: ResolverBackendKind::SystemdResolved,
                support: ResolverSupport::Supported,
            },
        },
    )
}

fn taken(record: Option<InstallRecord>) -> StateResult {
    StateResult { result: state(record) }
}

fn inputs(record: Option<&InstallRecord>) -> InstallInputs {
    InstallInputs {
        authority: authority(record.map(InstallRecord::duplicate)),
        reserved: Ok(()),
        inspection: InspectionResult { result: Ok(inspection()) },
        sources: sources(record.is_some()),
        state: taken(record.map(InstallRecord::duplicate)),
    }
}

fn fresh() -> PreparedPlan {
    match prepare_install(Operation::Install, &request(), &inputs(None)) {
        Ok((plan, _files)) => plan,
        Err(error) => panic!("{}", error.message),
    }
}

/// The record of the fresh plan's generation, once its directory was made.
fn installed() -> InstallRecord {
    let Some(mut current) = fresh().draft.generation else {
        panic!("a plan of an installation has a generation");
    };
    for entry in &mut current.public_directories {
        if entry.provenance == DirectoryProvenance::CreatedByRemap {
            entry.identity = Some(IDENTITY);
        }
    }
    InstallRecord {
        phase: InstallPhase::Active,
        current,
        previous: None,
        previous_previous: None,
        pending_resolver_plan: None,
    }
}

fn message<T>(outcome: Result<T, Fault>) -> Option<String> {
    outcome.err().map(|error| error.message)
}

#[test]
fn a_first_installation_is_planned_exactly() -> Result<(), Fault> {
    let (plan, files) = prepare_install(Operation::Install, &request(), &inputs(None))?;
    assert_eq!(files.len(), EXPECTED_ARTIFACTS);
    let draft = &plan.draft;
    assert_eq!(draft.operation, Operation::Install);
    assert_eq!(draft.previous_generation_id, None);
    assert_eq!(draft.link_index, Some(7));
    assert_eq!(draft.interface_name.as_deref(), Some("eth0"));
    assert_eq!(draft.backend.as_deref(), Some("systemd_resolved"));
    assert_eq!(draft.source_manifest_sha256, Some(hex(&digest())));
    assert!(draft.has_effects);
    assert!(!draft.effects.is_empty());
    assert_eq!(plan.approval_token.len(), 64);
    let Some(generation) = &draft.generation else {
        panic!("a plan of an installation has a generation");
    };
    validate_identity(generation)?;
    validate_public_directories(&generation.public_directories)?;
    assert_eq!(generation.daemon_uid, 1001);
    let created = generation
        .public_directories
        .iter()
        .filter(|entry| entry.provenance == DirectoryProvenance::CreatedByRemap)
        .map(|entry| entry.path.as_str())
        .collect::<Vec<_>>();
    assert_eq!(created, vec!["/usr/share/doc/remap"]);
    assert_eq!(public_link_specs_for_generation(generation).len(), 28);
    // Every fixed path is announced once; the documents' directory is one of them.
    assert_eq!(draft.publications.len(), publication_paths().len());
    assert!(draft.publications.iter().all(|effect| effect.action == "create"));
    Ok(())
}

#[test]
fn the_sources_are_held_to_the_approved_digest() -> Result<(), Fault> {
    let mut other = request();
    other.source_manifest_sha256 = [0; 32];
    assert_eq!(
        message(prepare_install(Operation::Install, &other, &inputs(None))).as_deref(),
        Some("the Linux generation sources differ from the reviewed source manifest")
    );
    let mut swapped = inputs(None);
    swapped.sources.remapd = read(b"\x7fELF other");
    assert!(prepare_install(Operation::Install, &request(), &swapped).is_err());
    let mut changed = sources(false);
    changed.notice = read(b"other");
    assert_eq!(
        message(collect_sources(&changed)).as_deref(),
        Some("a Linux policy document differs from the canonical project text")
    );
    let mut plain = sources(false);
    plain.manpages[0] = read(b"no heading");
    assert_eq!(
        message(collect_sources(&plain)).as_deref(),
        Some("a generated Linux manpage is malformed")
    );
    let mut rootless = sources(false);
    rootless.account_uid = Some(0);
    assert_eq!(
        message(prepare_files(&rootless, &digest())).as_deref(),
        Some("the declared non-root daemon account or group is unavailable")
    );
    let mut unitless = sources(false);
    unitless.resolver_unit = None;
    assert_eq!(
        message(prepare_files(&unitless, &digest())).as_deref(),
        Some("resolver unit generation failed")
    );
    Ok(())
}

#[test]
fn prepared_files_are_what_the_generation_records() -> Result<(), Fault> {
    let (generation, files) = prepare(
        &request(),
        &sources(false),
        None,
        ResolverLinkManager::SystemdResolved,
        "eth0",
    )?;
    assert_eq!(generation.artifacts.len(), files.len());
    for (recorded, file) in generation.artifacts.iter().zip(&files) {
        assert!(recorded.same_as(&to_artifact(file)));
        assert_eq!(recorded.byte_length, file.bytes.len() as u64);
    }
    assert!(files.windows(2).all(|pair| pair[0].relative_path < pair[1].relative_path));
    Ok(())
}

#[test]
fn an_equal_generation_changes_nothing() -> Result<(), Fault> {
    let record = installed();
    let (plan, _files) =
        prepare_install(Operation::Update, &request(), &inputs(Some(&record)))?;
    assert!(!plan.has_effects());
    assert!(plan.draft.effects.is_empty());
    assert!(plan.draft.publications.is_empty());
    let mut newer = request();
    newer.product_version = "0.2.0".to_owned();
    let (plan, _files) = prepare_install(Operation::Update, &newer, &inputs(Some(&record)))?;
    assert!(plan.has_effects());
    assert_eq!(plan.draft.publications.len(), 1);
    assert_eq!(plan.draft.publications[0].action, "repoint");
    assert_eq!(plan.draft.publications[0].path, "/usr/libexec/remap/current");
    Ok(())
}

#[test]
fn refusals_come_in_their_order() {
    let record = installed();
    let mut user = inputs(None);
    user.authority.effective_uid = 1000;
    user.authority.record = Err(fault(FaultKind::Other, "unreadable"));
    assert_eq!(
        message(prepare_install(Operation::Install, &request(), &user)).as_deref(),
        Some("the Linux lifecycle authority requires root")
    );
    assert_eq!(
        message(prepare_install(Operation::Install, &request(), &inputs(Some(&record)))).as_deref(),
        Some("Remap is already installed")
    );
    assert_eq!(
        message(prepare_install(Operation::Update, &request(), &inputs(None))).as_deref(),
        Some("Remap is not installed")
    );
    let mut taken_listener = inputs(None);
    taken_listener.reserved = Err(fault(FaultKind::AddrInUse, "taken"));
    taken_listener.inspection.result = Err(fault(FaultKind::Other, "unseen"));
    assert_eq!(
        message(prepare_install(Operation::Install, &request(), &taken_listener)).as_deref(),
        Some("taken")
    );
    let mut kept = taken_listener;
    kept.authority.reservation_held = true;
    assert_eq!(
        message(prepare_install(Operation::Install, &request(), &kept)).as_deref(),
        Some("the native Linux resolver state could not be inspected safely")
    );
    let mut legacy = installed();
    legacy.current.resolver_rebase_capability = 1;
    assert_eq!(
        prepare_install(Operation::Update, &request(), &inputs(Some(&legacy)))
            .err()
            .map(|error| error.kind),
        Some(FaultKind::Unsupported)
    );
    let mut moved = inputs(Some(&record));
    if let Ok(link) = &mut moved.inspection.result {
        link.interface_name = "eth1".to_owned();
    }
    assert_eq!(
        message(prepare_install(Operation::Update, &request(), &moved)).as_deref(),
        Some("the installed resolver link changed its approved native identity")
    );
    let mut elsewhere = inputs(None);
    if let Ok(link) = &mut elsewhere.inspection.result {
        link.interface_name = "eth1".to_owned();
    }
    assert_eq!(
        message(prepare_install(Operation::Install, &request(), &elsewhere)).as_deref(),
        Some("the selected resolver link changed native managers during preview")
    );
    let mut unseen = inputs(None);
    unseen.state.result = Err(fault(FaultKind::Other, "unseen state"));
    assert_eq!(
        message(prepare_install(Operation::Install, &request(), &unseen)).as_deref(),
        Some("unseen state")
    );
    let mut retained = record.duplicate();
    let mut newer = request();
    newer.product_version = "0.2.0".to_owned();
    if let Ok((plan, _files)) = prepare_install(Operation::Update, &newer, &inputs(Some(&record))) {
        retained.previous = plan.draft.generation;
    }
    assert_eq!(
        message(prepare_install(Operation::Update, &newer, &inputs(Some(&retained)))).as_deref(),
        Some("the requested generation is already retained as the rollback generation")
    );
}

#[test]
fn the_authority_decides_about_the_listeners() {
    let record = installed();
    let course = |i: &AuthorityInputs, o| prepare_authority(o, i).ok();
    assert_eq!(course(&authority(None), Operation::Install), Some(Listeners::Reserve));
    let mut held = authority(None);
    held.reservation_held = true;
    assert_eq!(course(&held, Operation::Install), Some(Listeners::Keep));
    assert_eq!(course(&authority(Some(record)), Operation::Update), Some(Listeners::Installed));
    let mut occupied = authority(None);
    occupied.publications[0] = PathProbe { result: Ok(directory()) };
    assert_eq!(
        message(prepare_authority(Operation::Install, &occupied)).as_deref(),
        Some("a public Remap installation path is occupied")
    );
    let mut rooted = authority(None);
    rooted.generation_roots[1] = PathProbe { result: Ok(directory()) };
    assert_eq!(
        message(prepare_authority(Operation::Install, &rooted)).as_deref(),
        Some("the reserved Remap generation directory is already occupied")
    );
    assert!(require_mode(&None, Operation::Recover).is_err());
    assert!(approved_link(&InspectionResult { result: Ok(inspection()) }, &None).is_ok());
}

#[test]
fn an_approval_binds_the_state_it_was_given_for() -> Result<(), Fault> {
    let first = fresh();
    let second = fresh();
    assert!(first.same_authority(&second));
    first.require_token(&second.approval_token)?;
    let mut moved = inputs(None);
    if let Ok(found) = &mut moved.state.result {
        found.effective_link_digest = Some([7; 32]);
    }
    let (other, _files) = prepare_install(Operation::Install, &request(), &moved)?;
    assert!(!first.same_authority(&other));
    assert_ne!(first.approval_token, other.approval_token);
    assert_eq!(
        other.require_token(&first.approval_token).err().map(|error| error.kind),
        Some(FaultKind::PermissionDenied)
    );
    Ok(())
}

#[test]
fn an_uninstallation_announces_what_goes() -> Result<(), Fault> {
    let record = installed();
    let removable =
        RemovableDirectories { result: Ok(vec!["/usr/share/doc/remap".to_owned()]) };
    let plan = prepare_uninstall(
        0,
        Ok(Some(record.duplicate())),
        &Ok(()),
        &taken(Some(record.duplicate())),
        &removable,
    )?;
    assert_eq!(plan.draft.operation, Operation::Uninstall);
    assert_eq!(plan.draft.generation_id, None);
    assert!(plan.draft.generation.is_none());
    assert_eq!(plan.draft.source_manifest_sha256, None);
    assert!(plan.draft.publications.iter().all(|effect| effect.action == "remove"));
    assert_eq!(plan.draft.publications.len(), publication_paths().len());
    assert_eq!(plan.draft.daemon_plan_identity, Some(PLAN));
    assert!(plan.draft.daemon_plan_observed);
    assert_eq!(
        message(prepare_uninstall(0, Ok(None), &Ok(()), &taken(None), &removable)).as_deref(),
        Some("Remap is not installed")
    );
    assert_eq!(
        message(prepare_uninstall(
            0,
            Ok(Some(record.duplicate())),
            &Err(fault(FaultKind::AlreadyExists, "changed")),
            &taken(Some(record.duplicate())),
            &removable,
        ))
        .as_deref(),
        Some("changed")
    );
    assert_eq!(
        require_installed(5, Ok(Some(record)), &Ok(())).err().map(|error| error.kind),
        Some(FaultKind::PermissionDenied)
    );
    Ok(())
}

fn recovery(record: Option<InstallRecord>, state: StateResult, activated: bool) -> RecoveryInputs {
    RecoveryInputs {
        effective_uid: 0,
        record: Ok(record),
        activated: Ok(activated),
        state,
        integrity: Ok(()),
        installation: Ok(()),
        missing: MissingLinks { result: Ok(vec![]) },
    }
}

#[test]
fn a_recovery_is_prepared_only_where_one_is_due() -> Result<(), Fault> {
    let record = installed();
    let healthy = recovery(Some(record.duplicate()), taken(Some(record.duplicate())), true);
    assert_eq!(
        message(prepare_recovery(healthy)).as_deref(),
        Some("the Linux installation does not require recovery")
    );
    let mut interrupted = record.duplicate();
    interrupted.phase = InstallPhase::Staged;
    let due = || {
        recovery(Some(interrupted.duplicate()), taken(Some(interrupted.duplicate())), true)
    };
    let plan = prepare_recovery(due())?;
    assert_eq!(plan.draft.installation_phase, Some("staged"));
    assert!(!plan.draft.effects.is_empty());
    assert!(plan.requires_resolver_authority());
    assert!(plan.same_authority(&prepare_recovery(due())?));
    plan.require_token(&plan.approval_token)?;
    let mut user = due();
    user.effective_uid = 1;
    assert_eq!(
        message(prepare_recovery(user)).as_deref(),
        Some("the Linux lifecycle authority requires root")
    );
    let mut unseen = due();
    unseen.activated = Err(fault(FaultKind::Other, "unseen"));
    assert_eq!(message(prepare_recovery(unseen)).as_deref(), Some("unseen"));
    Ok(())
}

#[test]
fn a_planned_generation_makes_a_record_that_is_accepted() -> Result<(), Fault> {
    let record = installed();
    record.validate()?;
    assert!(!encode(&record)?.is_empty());
    let staging = InstallRecord::staging(Generation::duplicate(&record.current), Some(&record));
    assert!(staging.validate().is_err());
    Ok(())
}

#[test]
fn a_state_is_written_in_full() -> Result<(), Fault> {
    let bare = String::from_utf8(encoded_state(&state(None)?)).unwrap_or_default();
    assert!(bare.starts_with(
        "{\"installRecord\":null,\"activeIntegrityValid\":null,\"publications\":[],\"services\":[{\"unit\":\"remap-resolver.service\",\"state\":\"not_found\"},"
    ));
    assert!(bare.contains(
        "\"selectedLink\":{\"index\":7,\"interface_name\":\"eth0\",\"manager\":\"systemd_resolved\",\"selection_state\":\"supported_primary\"},"
    ));
    assert!(bare.ends_with(
        "\"activationPhase\":null,\"daemonPlanObserved\":true,\"daemonPlanIdentity\":null,\"daemonPlanValid\":true,\"bootstrapResidues\":[],\"stateResidue\":null}"
    ));
    let mut full = state(Some(installed()))?;
    full.publications = vec![PathState {
        path: "/usr/bin/\"remap\"".to_owned(),
        kind: "symlink",
        target: Some("/x".to_owned()),
        uid: Some(0),
        mode: None,
        link_count: Some(1),
        entry_count: None,
        entry_digest: Some([9; 32]),
    }];
    full.bootstrap_residues = vec![residue(1)];
    full.state_residue = Some(StateResidue {
        directory: "/var/lib/remap-system".to_owned(),
        remove_directory: true,
        entries: vec![],
    });
    let value: serde_json::Value =
        serde_json::from_slice(&encoded_state(&full)).unwrap_or_default();
    assert_eq!(value["installRecord"]["phase"], "active");
    assert_eq!(value["publications"][0]["path"], "/usr/bin/\"remap\"");
    assert_eq!(value["publications"][0]["linkCount"], 1);
    assert!(value["publications"][0]["mode"].is_null());
    assert_eq!(value["activationPhase"], "active");
    assert_eq!(value["daemonPlanIdentity"]["generation"], 4);
    assert_eq!(value["bootstrapResidues"][0]["directory"]["inode"], 1);
    assert_eq!(value["bootstrapResidues"][0]["helper"]["sha256"], "ab");
    assert_eq!(value["stateResidue"]["removeDirectory"], true);
    Ok(())
}

fn residue(inode: u64) -> BootstrapResidue {
    BootstrapResidue {
        directory: ResidueDirectory {
            path: "/run/remap-bootstrap".to_owned(),
            device: 1,
            inode,
            mode: 0o711,
            owner_uid: 0,
            owner_gid: 0,
            xattrs: vec![],
        },
        helper: Some(ResidueHelper {
            path: "/run/remap-bootstrap/remap-linux-system".to_owned(),
            device: 1,
            inode: 3,
            mode: 0o555,
            owner_uid: 0,
            owner_gid: 0,
            links: 1,
            byte_length: 3,
            sha256: "ab".to_owned(),
            xattrs: vec![XattrIdentity {
                name: "security.selinux".to_owned(),
                byte_length: 5,
                digest: [4; 32],
            }],
        }),
    }
}

#[test]
fn a_recovery_is_bound_to_the_residues_that_were_found() -> Result<(), Fault> {
    let with = |found: Vec<BootstrapResidue>| {
        let mut state = taken(None);
        if let Ok(snapshot) = &mut state.result {
            snapshot.bootstrap_residues = found;
        }
        prepare_recovery(recovery(None, state, false))
    };
    let first = with(vec![residue(1)])?;
    let second = with(vec![residue(2)])?;
    assert_eq!(first.draft.effects, second.draft.effects);
    assert_ne!(first.state_digest, second.state_digest);
    assert_ne!(first.approval_token, second.approval_token);
    assert!(!first.same_authority(&second));
    let mut changed = residue(1);
    if let Some(helper) = &mut changed.helper {
        helper.sha256 = "cd".to_owned();
    }
    assert_ne!(first.approval_token, with(vec![changed])?.approval_token);
    assert_eq!(first.approval_token, with(vec![residue(1)])?.approval_token);
    Ok(())
}
