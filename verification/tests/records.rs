//! The installation record, its journals and its encoding.

use remap::encoding::{encoded_envelope, encoded_manifest, encoded_record};
use remap::fault::{Fault, FaultKind};
use remap::generation::{
    manifest_uuid, public_directory_paths, seal_identity, seal_legacy_identity, validate_identity,
    validate_legacy_identity,
};
use remap::labels;
use remap::model::{
    decode as open_envelope, encode, install_schema_text, Artifact, DirectoryIdentity,
    DirectoryProvenance, Envelope, Generation, InstallPhase, InstallRecord, PublicDirectory,
    ResolverPlanIdentity, RollbackStep, UninstallStep, EXPECTED_ARTIFACTS,
    LEGACY_EXPECTED_ARTIFACTS, MAX_INSTALL_RECORD_BYTES, RESOLVER_REBASE_CAPABILITY,
};
use remap::native::ResolverLinkManager;
use serde_json::Value;

// Reading the JSON form of a record.

fn bytes(v: &Value) -> Option<Vec<u8>> {
    v.as_array()?.iter().map(|b| u8::try_from(b.as_u64()?).ok()).collect()
}

fn digest(v: &Value) -> Option<[u8; 32]> {
    bytes(v)?.try_into().ok()
}

fn text(v: &Value, key: &str) -> Option<String> {
    v.get(key)?.as_str().map(str::to_owned)
}

fn number(v: &Value, key: &str) -> Option<u64> {
    v.get(key)?.as_u64()
}

fn identity(v: &Value, key: &str) -> Option<u128> {
    uuid::Uuid::parse_str(v.get(key)?.as_str()?).ok().map(|id| id.as_u128())
}

fn manager_of(s: &str) -> Option<ResolverLinkManager> {
    [
        ResolverLinkManager::SystemdResolved,
        ResolverLinkManager::SystemdNetworkd,
        ResolverLinkManager::NetworkManager,
    ]
    .into_iter()
    .find(|m| labels::manager(*m) == s)
}

fn artifact_of(v: &Value) -> Option<Artifact> {
    Some(Artifact {
        relative_path: text(v, "relative_path")?,
        mode: u32::try_from(number(v, "mode")?).ok()?,
        byte_length: number(v, "byte_length")?,
        digest: digest(v.get("digest")?)?,
    })
}

fn directory_of(v: &Value) -> Option<PublicDirectory> {
    let identity = match v.get("identity")? {
        Value::Null => None,
        i => Some(DirectoryIdentity {
            inode: number(i, "inode")?,
            birth_seconds: i.get("birth_seconds")?.as_i64()?,
            birth_nanoseconds: u32::try_from(number(i, "birth_nanoseconds")?).ok()?,
            ownership_nonce: u128::from_be_bytes(
                bytes(i.get("ownership_nonce")?)?.try_into().ok()?,
            ),
        }),
    };
    Some(PublicDirectory {
        path: text(v, "path")?,
        provenance: match text(v, "provenance")?.as_str() {
            "preexisting" => DirectoryProvenance::Preexisting,
            "created_by_remap" => DirectoryProvenance::CreatedByRemap,
            _ => return None,
        },
        identity,
    })
}

fn generation_of(v: &Value) -> Option<Generation> {
    let artifacts: Option<Vec<Artifact>> =
        v.get("artifacts")?.as_array()?.iter().map(artifact_of).collect();
    let directories: Option<Vec<PublicDirectory>> =
        v.get("public_directories")?.as_array()?.iter().map(directory_of).collect();
    Some(Generation {
        id: identity(v, "id")?,
        manifest_digest: digest(v.get("manifest_digest")?)?,
        product_version: text(v, "product_version")?,
        account: text(v, "account")?,
        group: text(v, "group")?,
        owner_uid: u32::try_from(number(v, "owner_uid")?).ok()?,
        daemon_uid: u32::try_from(number(v, "daemon_uid")?).ok()?,
        link: u32::try_from(number(v, "link")?).ok()?,
        interface_name: text(v, "interface_name"),
        resolver_manager: text(v, "resolver_manager").and_then(|m| manager_of(&m)),
        resolver_rebase_capability: match number(v, "resolver_rebase_capability") {
            Some(n) => u16::try_from(n).ok()?,
            None => 1,
        },
        artifacts: artifacts?,
        public_directories: directories?,
    })
}

fn phase_of(v: &Value) -> Option<InstallPhase> {
    if let Some(step) = v.get("rolling_back") {
        let name = step.as_str()?;
        let found = RollbackStep::all().into_iter().find(|s| labels::rollback_step(*s) == name);
        return found.map(InstallPhase::RollingBack);
    }
    if let Some(step) = v.get("uninstalling") {
        let name = step.as_str()?;
        let found = UninstallStep::all().into_iter().find(|s| labels::uninstall_step(*s) == name);
        return found.map(InstallPhase::Uninstalling);
    }
    [
        InstallPhase::Staging,
        InstallPhase::Staged,
        InstallPhase::Published,
        InstallPhase::Pruning,
        InstallPhase::Active,
    ]
    .into_iter()
    .find(|p| Some(labels::phase(*p)) == v.as_str())
}

fn record_of(v: &Value) -> Option<InstallRecord> {
    let optional = |key: &str| match v.get(key)? {
        Value::Null => Some(None),
        g => generation_of(g).map(Some),
    };
    let pending_resolver_plan = match v.get("pending_resolver_plan")? {
        Value::Null => None,
        p => Some(ResolverPlanIdentity {
            activation_id: identity(p, "activation_id")?,
            generation: number(p, "generation")?,
        }),
    };
    Some(InstallRecord {
        phase: phase_of(v.get("phase")?)?,
        current: generation_of(v.get("current")?)?,
        previous: optional("previous")?,
        previous_previous: optional("previous_previous")?,
        pending_resolver_plan,
    })
}

fn broken() -> Fault {
    Fault {
        kind: FaultKind::InvalidData,
        message: "the Linux installation record is invalid".to_owned(),
    }
}

fn decode(encoded: &[u8]) -> Result<InstallRecord, Fault> {
    let value: Value = serde_json::from_slice(encoded).map_err(|_| broken())?;
    let e = Envelope {
        schema: text(&value, "schema").ok_or_else(broken)?,
        digest: value.get("digest").and_then(digest).ok_or_else(broken)?,
        payload: value.get("payload").and_then(record_of).ok_or_else(broken)?,
    };
    open_envelope(encoded, e)
}

fn sealed(mut g: Generation) -> Generation {
    seal_identity(&mut g);
    g
}

fn generation(id: u128) -> Generation {
    let salt = u8::try_from(id).unwrap_or_default();
    sealed(Generation {
        id,
        manifest_digest: [0; 32],
        product_version: "0.1.1".to_owned(),
        account: "remap".to_owned(),
        group: "remap".to_owned(),
        owner_uid: 1000,
        daemon_uid: 1001,
        link: 7,
        interface_name: Some("eth0".to_owned()),
        resolver_manager: Some(ResolverLinkManager::SystemdNetworkd),
        resolver_rebase_capability: RESOLVER_REBASE_CAPABILITY,
        artifacts: (0..EXPECTED_ARTIFACTS)
            .map(|index| Artifact {
                relative_path: format!("artifact-{index}"),
                mode: 0o644,
                byte_length: 1,
                digest: [u8::try_from(index).unwrap_or_default().wrapping_add(salt); 32],
            })
            .collect(),
        public_directories: public_directory_paths()
            .into_iter()
            .map(|path| PublicDirectory {
                path,
                provenance: DirectoryProvenance::Preexisting,
                identity: None,
            })
            .collect(),
    })
}

fn active(current: u128, previous: u128) -> InstallRecord {
    InstallRecord {
        phase: InstallPhase::Active,
        current: generation(current),
        previous: Some(generation(previous)),
        previous_previous: None,
        pending_resolver_plan: None,
    }
}

#[test]
fn record_round_trip_and_rollback_preserve_exact_prior_generation() -> Result<(), Fault> {
    let active = active(1, 2);
    let mut staged = InstallRecord::staging(generation(3), Some(&active));
    staged.stage()?;
    staged.publish()?;
    assert_eq!(staged.rollback_record(), Some(active));
    let encoded = encode(&staged)?;
    assert_eq!(decode(&encoded)?, staged);
    Ok(())
}

#[test]
fn legacy_generation_omits_and_recovers_the_update_capability() -> Result<(), Fault> {
    let mut legacy = generation(1);
    legacy.interface_name = None;
    legacy.resolver_manager = None;
    legacy.resolver_rebase_capability = 1;
    let legacy = sealed(legacy);
    let record = InstallRecord::staging(legacy, None);
    let encoded = encode(&record)?;
    for absent in ["resolver_rebase_capability", "interface_name", "resolver_manager"] {
        assert!(!encoded.windows(absent.len()).any(|window| window == absent.as_bytes()));
    }
    let decoded = decode(&encoded)?;
    assert_eq!(decoded.current.resolver_rebase_capability, 1);
    Ok(())
}

#[test]
fn blake3_generation_and_record_identity_remain_readable() -> Result<(), Fault> {
    let earlier = |id: u128| {
        let mut g = generation(id);
        g.artifacts.truncate(LEGACY_EXPECTED_ARTIFACTS);
        seal_legacy_identity(&mut g);
        g
    };
    let record = InstallRecord {
        phase: InstallPhase::Active,
        current: earlier(2),
        previous: Some(earlier(1)),
        previous_previous: None,
        pending_resolver_plan: None,
    };
    let digest = *blake3::hash(encoded_record(&record).as_bytes()).as_bytes();
    let encoded = encoded_envelope(&record, install_schema_text(), &digest);
    assert_eq!(decode(encoded.as_bytes())?, record);
    assert_eq!(decode(&encode(&record)?)?, record);
    Ok(())
}

#[test]
fn current_capability_requires_exact_interface_and_manager_identity() {
    let mut record = active(2, 1);
    record.current.interface_name = None;
    record.current = sealed(record.current);
    assert!(encode(&record).is_err());
    record.current.interface_name = Some("eth0".to_owned());
    record.current.resolver_manager = None;
    record.current = sealed(record.current);
    assert!(encode(&record).is_err());
}

#[test]
fn record_rejects_tampering() -> Result<(), Fault> {
    let encoded = encode(&InstallRecord::staging(generation(3), None))?;
    let mut tampered = encoded;
    let middle = tampered.len() / 2;
    tampered[middle] ^= 1;
    assert!(decode(&tampered).is_err());
    Ok(())
}

#[test]
fn pruning_is_durable_before_old_generation_removal() -> Result<(), Fault> {
    let active = active(2, 1);
    let mut update = InstallRecord::staging(generation(3), Some(&active));
    update.stage()?;
    update.publish()?;
    update.begin_prune()?;
    assert_eq!(decode(&encode(&update)?)?.phase, InstallPhase::Pruning);
    update.activate()?;
    assert_eq!(update.phase, InstallPhase::Active);
    assert_eq!(update.previous_previous, None);
    Ok(())
}

#[test]
fn rollback_next_effect_journal_replays_every_crash_boundary() -> Result<(), Fault> {
    for crash_boundary in 0..(RollbackStep::all().len() * 2) {
        let mut record = InstallRecord::staging(generation(3), Some(&active(2, 1)));
        record.stage()?;
        record.publish()?;
        record.begin_rollback(None)?;
        let mut applied: Vec<RollbackStep> = Vec::new();
        let mut boundary = 0;
        loop {
            let InstallPhase::RollingBack(step) = record.phase else {
                panic!("rollback journal left its transaction phase");
            };
            if boundary == crash_boundary {
                record = decode(&encode(&record)?)?;
            }
            boundary += 1;
            if !applied.contains(&step) {
                applied.push(step);
            }
            if boundary == crash_boundary {
                record = decode(&encode(&record)?)?;
                assert_eq!(record.phase, InstallPhase::RollingBack(step));
            }
            boundary += 1;
            let Some(next) = step.successor() else {
                break;
            };
            record.advance_rollback(step, next)?;
        }
        assert_eq!(applied, RollbackStep::all().to_vec());
    }
    Ok(())
}

#[test]
fn rollback_removes_failed_generation_before_previous_health_acceptance() {
    assert_eq!(
        RollbackStep::ReloadManager.successor(),
        Some(RollbackStep::RemoveFailedGeneration)
    );
    assert_eq!(
        RollbackStep::RemoveGenerationRoots.successor(),
        Some(RollbackStep::StartPrevious)
    );
    assert_eq!(RollbackStep::StartPrevious.successor(), Some(RollbackStep::Finalize));
}

#[test]
fn record_rejects_a_retained_generation_identity_collision() {
    let record = InstallRecord {
        phase: InstallPhase::Staging,
        current: generation(1),
        previous: Some(generation(2)),
        previous_previous: Some(generation(1)),
        pending_resolver_plan: None,
    };
    assert!(encode(&record).is_err());
}

#[test]
fn uninstall_next_effect_journal_replays_every_crash_boundary() -> Result<(), Fault> {
    for crash_boundary in 0..(UninstallStep::all().len() * 2) {
        let mut record = active(2, 1);
        record.begin_uninstall(ResolverPlanIdentity { activation_id: 9, generation: 1 })?;
        let mut applied: Vec<UninstallStep> = Vec::new();
        let mut boundary = 0;
        loop {
            let InstallPhase::Uninstalling(step) = record.phase else {
                panic!("uninstall journal left its transaction phase");
            };
            if boundary == crash_boundary {
                record = decode(&encode(&record)?)?;
            }
            boundary += 1;
            if !applied.contains(&step) {
                applied.push(step);
            }
            if boundary == crash_boundary {
                record = decode(&encode(&record)?)?;
                assert_eq!(record.phase, InstallPhase::Uninstalling(step));
            }
            boundary += 1;
            let Some(next) = step.successor() else {
                break;
            };
            record.advance_uninstall(step, next)?;
        }
        assert_eq!(applied, UninstallStep::all().to_vec());
    }
    Ok(())
}

#[test]
fn manifest_uuid_is_stable_and_rfc_variant() {
    let digest = [0xa5; 32];
    let first = manifest_uuid(&digest);
    assert_eq!(first, manifest_uuid(&digest));
    assert_eq!(first.to_be_bytes()[6] >> 4, 8);
    assert_eq!(first.to_be_bytes()[8] >> 6, 2);
    assert_eq!(first, 0xa5a5a5a5_a5a5_85a5_a5a5_a5a5a5a5a5a5);
}

#[test]
fn sealed_generation_identity_detects_manifest_drift() -> Result<(), Fault> {
    let mut g = generation(1);
    g.link = 2;
    g.artifacts = vec![Artifact {
        relative_path: "remap".to_owned(),
        mode: 0o755,
        byte_length: 4,
        digest: [7; 32],
    }];
    let mut g = sealed(g);
    validate_identity(&g)?;
    g.link = 3;
    assert!(validate_identity(&g).is_err());
    assert!(validate_legacy_identity(&g).is_err());
    Ok(())
}

#[test]
fn records_out_of_their_phase_do_not_move() {
    let mut record = active(2, 1);
    assert!(record.stage().is_err());
    assert!(record.publish().is_err());
    assert!(record.activate().is_err());
    assert!(record.begin_prune().is_err());
    assert!(record.begin_rollback(None).is_err());
    assert!(record
        .advance_rollback(RollbackStep::StopServices, RollbackStep::RestoreResolver)
        .is_err());
    assert!(record
        .advance_uninstall(UninstallStep::RestoreResolver, UninstallStep::StopServices)
        .is_err());
    assert_eq!(record, active(2, 1));
}

#[test]
fn rollback_journal_goes_on_from_its_own_step() -> Result<(), Fault> {
    let mut record = InstallRecord::staging(generation(3), Some(&active(2, 1)));
    record.stage()?;
    record.publish()?;
    record.begin_rollback(None)?;
    assert!(record
        .advance_rollback(RollbackStep::RestoreResolver, RollbackStep::RestoreCurrent)
        .is_err());
    record.advance_rollback(RollbackStep::StopServices, RollbackStep::RestoreResolver)?;
    assert_eq!(record.phase, InstallPhase::RollingBack(RollbackStep::RestoreResolver));
    Ok(())
}

#[test]
fn oversized_records_are_refused() {
    assert_eq!(MAX_INSTALL_RECORD_BYTES, 32768);
    let mut record = active(2, 1);
    record.current.product_version = "1".repeat(MAX_INSTALL_RECORD_BYTES);
    record.current = sealed(record.current);
    assert!(encode(&record).is_err());
    assert!(decode(b"").is_err());
}

#[test]
fn manifests_have_their_exact_text() {
    let mut g = generation(1);
    g.account = "a\"b\\\n\u{1}".to_owned();
    g.artifacts = vec![Artifact {
        relative_path: "remap".to_owned(),
        mode: 0o755,
        byte_length: 4,
        digest: [7; 32],
    }];
    g.public_directories.truncate(1);
    let directory = g.public_directories[0].path.clone();
    let digest = vec!["7"; 32].join(",");
    assert_eq!(
        encoded_manifest(&g),
        format!(
            "{{\"schema\":\"remap.linux-generation/v1\",\"product_version\":\"0.1.1\",\
             \"account\":\"a\\\"b\\\\\\n\\u0001\",\"group\":\"remap\",\"owner_uid\":1000,\
             \"daemon_uid\":1001,\"link\":7,\"interface_name\":\"eth0\",\
             \"resolver_manager\":\"systemd_networkd\",\"resolver_rebase_capability\":3,\
             \"artifacts\":[{{\"relative_path\":\"remap\",\"mode\":493,\"byte_length\":4,\
             \"digest\":[{digest}]}}],\"public_directories\":[{{\"path\":\"{directory}\",\
             \"provenance\":\"preexisting\"}}]}}"
        )
    );
    let parsed: Result<Value, serde_json::Error> = serde_json::from_str(&encoded_manifest(&g));
    assert_eq!(parsed.ok().and_then(|v| text(&v, "account")), Some(g.account));
}

#[test]
fn created_directories_keep_their_identity_in_a_record() -> Result<(), Fault> {
    let mut record = active(2, 1);
    let d = &mut record.current.public_directories[0];
    d.provenance = DirectoryProvenance::CreatedByRemap;
    d.identity = Some(DirectoryIdentity {
        inode: 7,
        birth_seconds: 1_700_000_000,
        birth_nanoseconds: 5,
        ownership_nonce: 0x0102_0304_0506_0708_090a_0b0c_0d0e_0f10,
    });
    record.current = sealed(record.current);
    let encoded = encode(&record)?;
    let nonce = b"\"ownership_nonce\":[1,2,3,4,5,6,7,8,9,10,11,12,13,14,15,16]";
    assert!(encoded.windows(nonce.len()).any(|w| w == nonce));
    assert_eq!(decode(&encoded)?, record);
    Ok(())
}
