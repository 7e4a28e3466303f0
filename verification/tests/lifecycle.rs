//! Status, plans, effects, recovery and the entry points of the lifecycle.

use remap::approval::{plan_token, recovery_token};
use remap::bootstrap::is_residue_name;
use remap::cleanup::{allowed_state_file_names, classify_state_file, StateFile};
use remap::commands::{
    parse_validate, portal, wants_json, Action, LifecycleCommand, LifecycleOptions, LifecycleWork,
};
use remap::digest::{
    hex, identity_text, legacy_digest, parse_sha256, require_token, sha256, token_of,
};
use remap::effects::{
    directory_publication_effects, install, publication_effects, runtime_effect,
    sort_publications, Operation, PublicationEffect,
};
use remap::fault::{
    bounded_response, fault, legacy_update_message, plan_timeout_message,
    stability_timeout_message, Fault, FaultKind, MAX_OUTPUT_BYTES,
};
use remap::files::{FileKind, Metadata};
use remap::generation::public_directory_paths;
use remap::labels;
use remap::model::{
    Artifact, DirectoryProvenance, Generation, InstallPhase, InstallRecord, PublicDirectory,
    RollbackStep, UninstallStep, RESOLVER_REBASE_CAPABILITY,
};
use remap::native::{
    ResolverBackendKind, ResolverEnvironment, ResolverLinkManager, ResolverSupport,
};
use remap::observation::{distribution, os_release_value};
use remap::plan::require_update_capability;
use remap::publications::{
    public_link_additions, public_link_removals, public_link_specs_for_generation,
};
use remap::recovery::{
    active_integrity_conflict, integrity_conflict_from_detail, missing_activation_blocks,
    permits_missing_activation, MAX_INTEGRITY_DETAIL_BYTES,
};
use remap::runtime::{
    activation_creation_generation, lease_text, read_identity, requires_existing_activation,
    selected_generation, validate,
};
use remap::status::{
    accepted_generation, classify_status_observation, link_selection_hint, LinkCandidate,
};
use remap::storage::artifact_digest_matches;
use remap::target::HostHeaderPolicy;
use remap::units::unit_link_specs;

fn artifact(path: &str, digest: u8) -> Artifact {
    Artifact { relative_path: path.to_owned(), mode: 0o644, byte_length: 1, digest: [digest; 32] }
}

fn generation(id: u128) -> Generation {
    Generation {
        id,
        manifest_digest: [u8::try_from(id).unwrap_or_default(); 32],
        product_version: "0.1.1".to_owned(),
        account: "remap".to_owned(),
        group: "remap".to_owned(),
        owner_uid: 1000,
        daemon_uid: 1001,
        link: 7,
        interface_name: Some("eth0".to_owned()),
        resolver_manager: Some(ResolverLinkManager::SystemdNetworkd),
        resolver_rebase_capability: RESOLVER_REBASE_CAPABILITY,
        artifacts: (0_u8..35).map(|i| artifact(&format!("artifact-{i}"), i)).collect(),
        public_directories: public_directory_paths()
            .into_iter()
            .map(|path| PublicDirectory {
                path,
                provenance: DirectoryProvenance::Preexisting,
                identity: None,
            })
            .collect(),
    }
}

fn sample_record() -> InstallRecord {
    InstallRecord {
        phase: InstallPhase::Active,
        current: generation(2),
        previous: Some(generation(1)),
        previous_previous: None,
        pending_resolver_plan: None,
    }
}

#[test]
fn residue_names_require_the_exact_random_namespace() {
    assert!(is_residue_name("remap-bootstrap-0123456789abcdef0123456789abcdef"));
    assert!(!is_residue_name("remap-bootstrap-0123456789ABCDEF0123456789ABCDEF"));
    assert!(!is_residue_name("remap-bootstrap-short"));
    assert!(!is_residue_name("other-bootstrap-0123456789abcdef0123456789abcdef"));
}

#[test]
fn cleanup_allowlist_is_exact_and_duplicate_free() {
    let names = allowed_state_file_names();
    assert_eq!(names.len(), 6);
    for (index, name) in names.iter().enumerate() {
        assert!(name.is_ascii());
        assert!(!name.contains('/'));
        assert!(!names[..index].contains(name));
        assert!(classify_state_file(name).is_some());
    }
    assert_eq!(classify_state_file(".installation.new"), Some(StateFile::Temporary));
    assert_eq!(classify_state_file("other"), None);
}

#[test]
fn status_reports_only_health_accepted_generations_as_active() {
    let mut record = sample_record();
    for phase in [InstallPhase::Active, InstallPhase::Pruning] {
        record.phase = phase;
        assert_eq!(accepted_generation(Some(&record), true), Some(&record.current));
        assert_eq!(accepted_generation(Some(&record), false), None);
    }
    for phase in [
        InstallPhase::Staging,
        InstallPhase::Staged,
        InstallPhase::Published,
        InstallPhase::RollingBack(RollbackStep::StartPrevious),
        InstallPhase::RollingBack(RollbackStep::Finalize),
        InstallPhase::Uninstalling(UninstallStep::Finalize),
    ] {
        record.phase = phase;
        assert_eq!(accepted_generation(Some(&record), true), None);
    }
    assert_eq!(accepted_generation(None, true), None);
}

#[test]
fn link_guidance_matches_supported_primary_cardinality() {
    let candidate = |index: u32, state: &'static str| LinkCandidate {
        link_index: index,
        interface_name: format!("eth{index}"),
        backend: "systemd_networkd".to_owned(),
        selection_state: state.to_owned(),
    };
    let secondary = || candidate(1, "supported_secondary");
    let primary = || candidate(2, "supported_primary");
    assert_eq!(
        link_selection_hint(false, false, &vec![secondary()]),
        Some("no supported primary interface is available; inspect link candidates and resolver ownership")
    );
    assert_eq!(
        link_selection_hint(false, false, &vec![primary()]),
        Some("the only supported primary interface will be selected automatically")
    );
    assert_eq!(
        link_selection_hint(false, false, &vec![primary(), candidate(3, "supported_primary")]),
        Some("select one supported primary interface with REMAP_LINUX_LINK=<index> make install")
    );
    assert_eq!(link_selection_hint(true, false, &vec![primary()]), None);
    assert_eq!(link_selection_hint(false, true, &vec![primary()]), None);
}

#[test]
fn status_uses_one_active_integrity_observation() {
    let invalid = classify_status_observation(true, false, false);
    assert!(invalid.0);
    assert_eq!(
        invalid.1,
        Some("run make recover to inspect the exact blocked integrity invariant without mutation")
    );
    let valid = classify_status_observation(false, false, false);
    assert_eq!(valid, (false, None));
    let recoverable = classify_status_observation(false, true, false);
    assert!(recoverable.0);
    assert_eq!(
        recoverable.1,
        Some("run make recover to preview and approve exact recovery effects")
    );
}

#[test]
fn update_requires_the_current_resolver_rebase_capability() {
    let mut record = sample_record();
    let kind = |o: Operation, r: &InstallRecord| {
        require_update_capability(o, &Some(r.duplicate())).err().map(|e| e.kind)
    };
    assert_eq!(kind(Operation::Update, &record), None);
    record.current.resolver_rebase_capability = 2;
    assert_eq!(kind(Operation::Update, &record), Some(FaultKind::Unsupported));
    record.current.resolver_rebase_capability = 1;
    assert_eq!(kind(Operation::Update, &record), Some(FaultKind::Unsupported));
    assert_eq!(kind(Operation::Uninstall, &record), None);
}

#[test]
fn approval_tokens_are_canonical_and_strict() -> Result<(), Fault> {
    let token = hex(&[0xab; 32]);
    assert_eq!(token, "ab".repeat(32));
    require_token(&token, &token)?;
    assert!(require_token(&token, &token.to_uppercase()).is_err());
    assert!(require_token(&token, &token[..63]).is_err());
    Ok(())
}

#[test]
fn os_release_parser_accepts_only_exact_keys() {
    let text = "ID=ubuntu\nVERSION_ID=\"24.04\"\nBUILD_ID=x\n";
    assert_eq!(os_release_value(text, "ID").as_deref(), Some("ubuntu"));
    assert_eq!(os_release_value(text, "VERSION_ID").as_deref(), Some("24.04"));
    assert_eq!(os_release_value(text, "VERSION"), None);
    let d = distribution(text);
    assert_eq!(d.id, "ubuntu");
}

#[test]
fn approval_token_binds_state_generation_effects_and_publications() {
    let publications = publication_effects(
        Operation::Update,
        &Some("old".to_owned()),
        &Some("new".to_owned()),
    );
    assert!(publications.iter().all(|effect| {
        effect.action == "repoint"
            && effect.previous_generation_id.as_deref() == Some("old")
            && effect.next_generation_id.as_deref() == Some("new")
    }));
    let effects = vec!["replace one generation".to_owned()];
    let g = generation(3);
    let record = Some(sample_record());
    let install_effects = install(Operation::Install, &g, &None, publications.len());
    let update_effects = install(Operation::Update, &g, &record, publications.len());
    assert_ne!(install_effects, update_effects);
    let token = |manifest: u8, source: u8, state: u8, effects: &Vec<String>| {
        plan_token(
            Operation::Update,
            &Some([manifest; 32]),
            &Some([source; 32]),
            &[state; 32],
            effects,
            &publications,
        )
    };
    let base = token(1, 5, 2, &effects);
    assert_ne!(base, token(1, 5, 3, &effects));
    assert_ne!(base, token(4, 5, 2, &effects));
    assert_ne!(base, token(1, 6, 2, &effects));
    assert_ne!(base, token(1, 5, 2, &update_effects));
    assert_eq!(base, token(1, 5, 2, &effects));
    assert_ne!(
        base,
        plan_token(
            Operation::Install,
            &Some([1; 32]),
            &Some([5; 32]),
            &[2; 32],
            &effects,
            &publications
        )
    );
}

#[test]
fn approval_tokens_are_taken_over_an_exact_text() {
    let digest = |n: &str| vec![n; 32].join(",");
    let publication = vec![PublicationEffect {
        action: "create",
        path: "/usr/bin/remap".to_owned(),
        previous_generation_id: None,
        next_generation_id: Some("new".to_owned()),
    }];
    let effects = vec!["a \"quoted\" effect".to_owned()];
    let text = format!(
        "{{\"schema\":\"remap.linux-approval/v1\",\"operation\":\"install\",\
         \"generationManifestDigest\":[{}],\"sourceManifestSha256\":null,\"stateDigest\":[{}],\
         \"effects\":[\"a \\\"quoted\\\" effect\"],\"publications\":[{{\"action\":\"create\",\
         \"path\":\"/usr/bin/remap\",\"previousGenerationID\":null,\
         \"nextGenerationID\":\"new\"}}]}}",
        digest("1"),
        digest("2")
    );
    assert_eq!(
        plan_token(Operation::Install, &Some([1; 32]), &None, &[2; 32], &effects, &publication),
        token_of(text.as_bytes())
    );
    let recovery = format!(
        "{{\"schema\":\"remap.linux-approval/v1\",\"operation\":\"recover\",\
         \"stateDigest\":[{}],\"effects\":[]}}",
        digest("2")
    );
    assert_eq!(recovery_token(&[2; 32], &vec![]), token_of(recovery.as_bytes()));
}

#[test]
fn created_public_directories_are_exact_typed_publications() {
    let mut g = generation(1);
    let directory = |path: &str, provenance| PublicDirectory {
        path: path.to_owned(),
        provenance,
        identity: None,
    };
    g.public_directories = vec![
        directory("/usr/share/zsh/site-functions", DirectoryProvenance::CreatedByRemap),
        directory("/usr/share/fish", DirectoryProvenance::CreatedByRemap),
        directory("/usr/share/zsh", DirectoryProvenance::Preexisting),
    ];
    let id = identity_text(1);
    assert_eq!(id, "00000000-0000-0000-0000-000000000001");
    let effects = sort_publications(directory_publication_effects(
        &g,
        "create",
        &vec![],
        &None,
        &Some(id.clone()),
    ));
    assert_eq!(effects.len(), 2);
    assert_eq!(effects[0].action, "create");
    assert_eq!(effects[0].path, "/usr/share/fish");
    assert_eq!(effects[0].previous_generation_id, None);
    assert_eq!(effects[0].next_generation_id.as_deref(), Some(id.as_str()));
    assert_eq!(effects[1].path, "/usr/share/zsh/site-functions");
}

#[test]
fn install_and_update_disclose_distinct_runtime_effects() {
    assert_ne!(runtime_effect(Operation::Install), runtime_effect(Operation::Update));
    assert!(runtime_effect(Operation::Update).contains("stop and reserve three"));
}

#[test]
fn active_integrity_diagnostic_is_specific_and_bounded() {
    let exact = integrity_conflict_from_detail(Some(
        "a Remap-created public directory has unsafe extended attributes",
    ));
    assert_eq!(exact.kind, FaultKind::AlreadyExists);
    assert!(exact.message.contains("unsafe extended attributes"));
    let oversized = "x".repeat(MAX_INTEGRITY_DETAIL_BYTES + 1);
    let bounded = integrity_conflict_from_detail(Some(&oversized));
    assert!(!bounded.message.contains(&oversized));
    assert!(bounded.message.len() < 128);
    let missing = active_integrity_conflict(None);
    assert_eq!(missing.kind, FaultKind::AlreadyExists);
    assert!(missing.message.contains("changed during exact integrity"));
}

#[test]
fn only_replayable_phases_permit_missing_activation() {
    let mut first = sample_record();
    first.previous = None;
    for phase in [InstallPhase::Staging, InstallPhase::Staged, InstallPhase::Published] {
        first.phase = phase;
        assert!(permits_missing_activation(&first));
        assert!(!missing_activation_blocks(&first, false));
    }
    for step in RollbackStep::all() {
        first.phase = InstallPhase::RollingBack(step);
        assert!(permits_missing_activation(&first));
        assert!(!missing_activation_blocks(&first, false));
    }
    for step in UninstallStep::all() {
        first.phase = InstallPhase::Uninstalling(step);
        assert!(permits_missing_activation(&first));
        assert!(!missing_activation_blocks(&first, false));
    }
    first.phase = InstallPhase::Active;
    assert!(!permits_missing_activation(&first));
    assert!(missing_activation_blocks(&first, false));
    first.phase = InstallPhase::Pruning;
    assert!(!permits_missing_activation(&first));
    assert!(missing_activation_blocks(&first, false));
    assert!(!missing_activation_blocks(&first, true));

    let mut update = sample_record();
    for step in RollbackStep::all() {
        update.phase = InstallPhase::RollingBack(step);
        assert!(!permits_missing_activation(&update));
    }
    for step in UninstallStep::all() {
        update.phase = InstallPhase::Uninstalling(step);
        assert!(permits_missing_activation(&update));
    }
}

#[test]
fn source_manifest_digest_is_canonical_lowercase_hex() -> Result<(), Fault> {
    assert_eq!(parse_sha256(&"ab".repeat(32))?, [0xab; 32]);
    assert!(parse_sha256(&"AB".repeat(32)).is_err());
    assert!(parse_sha256(&"a".repeat(63)).is_err());
    Ok(())
}

#[test]
fn legacy_update_error_has_an_exact_reinstall_action() {
    let error = fault(FaultKind::Unsupported, legacy_update_message());
    assert_eq!(
        error.hint(),
        "run make uninstall, then make install to replace the legacy Linux resolver generation"
    );
}

#[test]
fn resolver_stability_timeout_has_an_exact_manager_action() {
    let error = fault(FaultKind::TimedOut, stability_timeout_message());
    assert_eq!(
        error.hint(),
        "inspect the selected link's native manager state and retry only after it is stably configured"
    );
}

#[test]
fn resolver_plan_timeout_has_an_exact_service_action() {
    let error = fault(FaultKind::TimedOut, plan_timeout_message());
    assert_eq!(
        error.hint(),
        "inspect remapd and remap-resolver.service, then use separately approved recovery if typed status requires it"
    );
}

#[test]
fn every_failure_has_its_category() {
    let category = |kind| fault(kind, "x").category();
    assert_eq!(category(FaultKind::PermissionDenied), "permission_denied");
    assert_eq!(category(FaultKind::AlreadyExists), "state_conflict");
    assert_eq!(category(FaultKind::AddrInUse), "state_conflict");
    assert_eq!(category(FaultKind::InvalidData), "invalid_request");
    assert_eq!(category(FaultKind::InvalidInput), "invalid_request");
    assert_eq!(category(FaultKind::Unsupported), "unsupported_platform");
    assert_eq!(category(FaultKind::TimedOut), "timeout");
    assert_eq!(category(FaultKind::Other), "system_error");
}

#[test]
fn responses_are_bounded_utf8() {
    assert_eq!(bounded_response(b"{}".to_vec()).ok().as_deref(), Some("{}"));
    assert!(bounded_response(vec![b'x'; MAX_OUTPUT_BYTES]).is_ok());
    assert!(bounded_response(vec![b'x'; MAX_OUTPUT_BYTES + 1]).is_err());
    assert!(bounded_response(vec![0xff]).is_err());
    assert_eq!(bounded_response("\u{e9}".as_bytes().to_vec()).ok().as_deref(), Some("\u{e9}"));
}

#[test]
fn publication_verification_uses_only_manifest_declared_assets() {
    let mut g = generation(41);
    g.artifacts = vec![artifact("remap", 1), artifact("share/man/man1/remap.1", 1)];
    let legacy = public_link_specs_for_generation(&g);
    assert_eq!(legacy.len(), 2);
    assert!(legacy.iter().all(|l| {
        l.path == "/usr/bin/remap" || l.path == "/usr/share/man/man1/remap.1"
    }));
    g.artifacts.push(artifact("share/man/man1/remap-system.1", 2));
    assert_eq!(public_link_specs_for_generation(&g).len(), 3);
}

#[test]
fn generation_update_declares_only_added_and_removed_public_links() {
    let mut previous = generation(51);
    previous.artifacts = vec![artifact("remap", 1), artifact("share/man/man1/remap.1", 1)];
    let mut current = previous.duplicate();
    current.artifacts.push(artifact("share/man/man1/remap-system.1", 2));
    let added = public_link_additions(&previous, &current);
    assert_eq!(added.len(), 1);
    assert_eq!(added[0].path, "/usr/share/man/man1/remap-system.1");
    assert!(public_link_removals(&previous, &current).is_empty());
    assert_eq!(public_link_removals(&current, &previous), added);
}

#[test]
fn legacy_artifact_digest_requires_an_explicit_legacy_generation() {
    let bytes = b"legacy artifact";
    let a = Artifact {
        relative_path: "legacy".to_owned(),
        mode: 0o644,
        byte_length: bytes.len() as u64,
        digest: *blake3::hash(bytes).as_bytes(),
    };
    assert!(!artifact_digest_matches(bytes, &a, false));
    assert!(artifact_digest_matches(bytes, &a, true));
    assert!(!artifact_digest_matches(b"changed", &a, true));
}

#[test]
fn digests_are_the_named_ones() {
    assert_eq!(
        hex(&sha256(b"abc")),
        "ba7816bf8f01cfea414140de5dae2223b00361a396177a9cb410ff61f20015ad"
    );
    assert_eq!(
        hex(&legacy_digest(b"")),
        "af1349b9f5f9a1a6a0404dea36dcc9499bcb25c9adc112b7cc9a93cae41f3262"
    );
    assert_eq!(
        token_of(b""),
        "e3b0c44298fc1c149afbf4c8996fb92427ae41e4649b934ca495991b7852b855"
    );
}

#[test]
fn unit_and_enablement_links_are_one_exact_publication_set() {
    let specifications = unit_link_specs();
    assert_eq!(specifications.len(), 10);
    for (index, link) in specifications.iter().enumerate() {
        assert!(!specifications[..index].iter().any(|l| l.path == link.path));
    }
    let below = |directory: &str| {
        specifications
            .iter()
            .filter(|l| {
                std::path::Path::new(&l.path)
                    .parent()
                    .is_some_and(|parent| parent.ends_with(directory))
            })
            .count()
    };
    assert_eq!(below("multi-user.target.wants"), 2);
    assert_eq!(below("sockets.target.wants"), 3);
}

#[test]
fn durable_and_transactional_phases_have_distinct_boot_authority() -> Result<(), Fault> {
    let mut record = InstallRecord {
        phase: InstallPhase::Active,
        current: generation(1),
        previous: Some(generation(2)),
        previous_previous: None,
        pending_resolver_plan: None,
    };
    assert_eq!(selected_generation(&record, None)?, 1);
    assert!(requires_existing_activation(record.phase));
    assert_eq!(activation_creation_generation(&record, None)?, None);
    record.phase = InstallPhase::Published;
    assert!(!requires_existing_activation(record.phase));
    assert!(selected_generation(&record, None).is_err());
    assert_eq!(selected_generation(&record, Some(1))?, 1);
    assert_eq!(activation_creation_generation(&record, Some(1))?, Some(1));
    record.phase = InstallPhase::RollingBack(RollbackStep::StartPrevious);
    assert_eq!(selected_generation(&record, Some(2))?, 2);
    record.phase = InstallPhase::Staged;
    assert!(selected_generation(&record, Some(1)).is_err());
    Ok(())
}

#[test]
fn lease_payload_is_exact_and_bounded() -> Result<(), Fault> {
    let id = 0x0123_4567_89ab_4def_8123_4567_89ab_cdef_u128;
    let text = lease_text(id);
    assert_eq!(text, "01234567-89ab-4def-8123-456789abcdef\n");
    assert_eq!(read_identity(text.as_bytes())?, id);
    assert!(read_identity(text.trim_end().as_bytes()).is_err());
    assert_eq!(read_identity(text.to_uppercase().as_bytes())?, id);
    assert!(read_identity(b"").is_err());
    assert!(read_identity(&[b'x'; 37]).is_err());
    assert!(read_identity("x1234567-89ab-4def-8123-456789abcdef\n".as_bytes()).is_err());
    let file = |uid, mode, length| Metadata {
        kind: FileKind::File,
        uid,
        gid: 0,
        mode,
        links: 1,
        length,
        device: 1,
        inode: 2,
    };
    validate(&file(0, 0o100600, 37), false, &Ok(true))?;
    assert!(validate(&file(1, 0o100600, 37), false, &Ok(true)).is_err());
    assert!(validate(&file(0, 0o100644, 37), false, &Ok(true)).is_err());
    assert!(validate(&file(0, 0o100600, 0), false, &Ok(true)).is_err());
    validate(&file(0, 0o100600, 0), true, &Ok(true))?;
    assert!(validate(&file(0, 0o100600, 37), false, &Ok(false)).is_err());
    Ok(())
}

#[test]
fn parses_explicit_host_policy() {
    let action = parse_validate(
        Some("atlas".to_owned()),
        Some("https://example.com".to_owned()),
        Some("use-upstream".to_owned()),
    );
    assert!(matches!(action, Ok(Action::Validate(_, _, HostHeaderPolicy::UseUpstream))));
    let kept = parse_validate(
        Some("atlas".to_owned()),
        Some("https://example.com".to_owned()),
        Some("preserve-client".to_owned()),
    );
    assert!(matches!(kept, Ok(Action::Validate(_, _, HostHeaderPolicy::PreserveClient))));
    assert_eq!(
        parse_validate(None, None, None).err().as_deref(),
        Some("the command parser did not provide required value 'name-pattern'")
    );
    assert_eq!(
        parse_validate(Some("a".to_owned()), Some("b".to_owned()), Some("c".to_owned()))
            .err()
            .as_deref(),
        Some("the parsed host-header policy 'c' is not implemented")
    );
}

#[test]
fn preserves_json_intent_for_usage_errors() {
    let line = |v: &[&str]| v.iter().map(|s| (*s).to_owned()).collect::<Vec<String>>();
    assert!(wants_json(&line(&["portal", "--json", "not-a-command"])));
    assert!(!wants_json(&line(&["portal", "not-a-command"])));
}

#[test]
fn command_lines_are_answered() {
    let answer = |v: &[&str]| portal(&v.iter().map(|s| (*s).to_owned()).collect());
    assert_eq!(answer(&["validate", "Atlas.", "NAS.home"]), Ok("atlas -> nas.home".to_owned()));
    assert_eq!(
        answer(&["validate", "a"]),
        Err("validate requires <name-pattern> <target>".to_owned())
    );
    assert_eq!(
        answer(&["validate", "a", "b", "c"]),
        Err("validate accepts exactly <name-pattern> <target>".to_owned())
    );
    assert_eq!(answer(&["other"]), Err("unknown command 'other'".to_owned()));
    assert_eq!(
        answer(&[]),
        Ok("Portal\n\nUsage:\n  portal validate <name-pattern> <target>".to_owned())
    );
    assert_eq!(answer(&["-h"]), answer(&[]));
    assert_eq!(
        answer(&["validate", "127.0.0.1", "b"]),
        Err("'127.0.0.1' is an address literal, not a DNS name that Remap can override".to_owned())
    );
}

#[test]
fn commands_are_refused_before_anything_is_done() {
    let options = |json, all, link| LifecycleOptions {
        json,
        all,
        link,
        source_manifest_sha256: None,
    };
    let refused = |c: LifecycleCommand, o: LifecycleOptions| c.begin(&o).err().map(|e| e.message);
    assert_eq!(
        refused(LifecycleCommand::Status, options(false, false, None)).as_deref(),
        Some("the Linux lifecycle contract requires --json")
    );
    assert_eq!(
        refused(LifecycleCommand::Recover, options(true, false, None)).as_deref(),
        Some("recovery requires the explicit --all scope")
    );
    assert_eq!(
        refused(LifecycleCommand::Inspect, options(true, false, Some(0))).as_deref(),
        Some("the explicit Linux link index is invalid")
    );
    let mut o = options(true, false, Some(0));
    o.source_manifest_sha256 = Some("AB".repeat(32));
    assert_eq!(
        refused(LifecycleCommand::Update, o).as_deref(),
        Some("the reviewed source manifest SHA-256 must be 64 lowercase hexadecimal characters")
    );
    assert_eq!(
        LifecycleCommand::Update.begin(&options(true, false, Some(2))).ok(),
        Some(LifecycleWork::Install(true))
    );
    assert_eq!(
        LifecycleCommand::Serve.begin(&options(false, false, Some(2))).ok(),
        Some(LifecycleWork::Serve)
    );
    assert_eq!(LifecycleCommand::PreviewRecover.label(), "preview-recovery");
}

#[test]
fn labels_are_stable() {
    assert_eq!(labels::manager(ResolverLinkManager::NetworkManager), "network_manager");
    assert_eq!(labels::phase(InstallPhase::Pruning), "pruning");
    assert_eq!(labels::rollback_step(RollbackStep::Finalize), "finalize");
    assert_eq!(labels::uninstall_step(UninstallStep::RemoveCurrent), "remove_current");
    assert_eq!(
        labels::environment(ResolverEnvironment {
            backend: ResolverBackendKind::SystemdResolved,
            support: ResolverSupport::Unsupported,
        }),
        "systemd_resolved_unavailable"
    );
}

#[test]
fn the_documented_mappings_are_accepted() {
    let shown = |name: &str, target: &str| {
        portal(&vec!["validate".to_owned(), name.to_owned(), target.to_owned()])
    };
    assert_eq!(
        shown("atlas", "http://127.0.0.1:5173").as_deref(),
        Ok("atlas -> http://127.0.0.1:5173/")
    );
    assert_eq!(
        shown("builds.lab", "https://10.0.0.12:9443").as_deref(),
        Ok("builds.lab -> https://10.0.0.12:9443/")
    );
    assert_eq!(shown("database", "192.168.1.40").as_deref(), Ok("database -> 192.168.1.40"));
    assert_eq!(
        shown("google.com", "http://127.0.0.1:9000").as_deref(),
        Ok("google.com -> http://127.0.0.1:9000/")
    );
    assert_eq!(
        shown("agenxy.remap", "http://localhost:4399/").as_deref(),
        Ok("agenxy.remap -> http://localhost:4399/")
    );
}
