//! The names under which states and steps are reported.

use vstd::prelude::*;
use vstd::string::*;

use crate::model::{InstallPhase, RollbackStep, UninstallStep};
use crate::native::{
    ResolverBackendKind, ResolverEnvironment, ResolverLinkManager, ResolverLinkSelectionState,
    ResolverSupport,
};

verus! {

/// The name of a link's selection state.
pub open spec fn selection_name(v: ResolverLinkSelectionState) -> Seq<char> {
    match v {
        ResolverLinkSelectionState::SupportedPrimary => "supported_primary"@,
        ResolverLinkSelectionState::SupportedSecondary => "supported_secondary"@,
        ResolverLinkSelectionState::Inactive => "inactive"@,
        ResolverLinkSelectionState::Unsupported => "unsupported"@,
    }
}

/// The name of a link's selection state.
pub fn selection_state(v: ResolverLinkSelectionState) -> (s: &'static str)
    ensures
        s@ == selection_name(v),
{
    match v {
        ResolverLinkSelectionState::SupportedPrimary => "supported_primary",
        ResolverLinkSelectionState::SupportedSecondary => "supported_secondary",
        ResolverLinkSelectionState::Inactive => "inactive",
        ResolverLinkSelectionState::Unsupported => "unsupported",
    }
}

/// The name of the host's resolver.
pub open spec fn environment_name(v: ResolverEnvironment) -> Seq<char> {
    match v.backend {
        ResolverBackendKind::SystemdResolved => if v.support == ResolverSupport::Supported {
            "systemd_resolved_supported"@
        } else {
            "systemd_resolved_unavailable"@
        },
        ResolverBackendKind::NetworkManager => "network_manager_without_resolved"@,
        ResolverBackendKind::ResolvConf => "resolv_conf_unknown_owner"@,
        ResolverBackendKind::Unknown => "resolver_manager_unknown"@,
    }
}

/// The name of the host's resolver.
pub fn environment(v: ResolverEnvironment) -> (s: &'static str)
    ensures
        s@ == environment_name(v),
{
    match (v.backend, v.support) {
        (ResolverBackendKind::SystemdResolved, ResolverSupport::Supported) => {
            "systemd_resolved_supported"
        },
        (ResolverBackendKind::NetworkManager, _) => "network_manager_without_resolved",
        (ResolverBackendKind::ResolvConf, _) => "resolv_conf_unknown_owner",
        (ResolverBackendKind::SystemdResolved, _) => "systemd_resolved_unavailable",
        (ResolverBackendKind::Unknown, _) => "resolver_manager_unknown",
    }
}

/// The name of a link's manager.
pub open spec fn manager_name(v: ResolverLinkManager) -> Seq<char> {
    match v {
        ResolverLinkManager::SystemdResolved => "systemd_resolved"@,
        ResolverLinkManager::SystemdNetworkd => "systemd_networkd"@,
        ResolverLinkManager::NetworkManager => "network_manager"@,
    }
}

/// The name of a link's manager.
pub fn manager(v: ResolverLinkManager) -> (s: &'static str)
    ensures
        s@ == manager_name(v),
{
    match v {
        ResolverLinkManager::SystemdResolved => "systemd_resolved",
        ResolverLinkManager::SystemdNetworkd => "systemd_networkd",
        ResolverLinkManager::NetworkManager => "network_manager",
    }
}

/// The name of an installation phase.
pub open spec fn phase_name(v: InstallPhase) -> Seq<char> {
    match v {
        InstallPhase::Staging => "staging"@,
        InstallPhase::Staged => "staged"@,
        InstallPhase::Published => "published"@,
        InstallPhase::RollingBack(_) => "rolling_back"@,
        InstallPhase::Pruning => "pruning"@,
        InstallPhase::Active => "active"@,
        InstallPhase::Uninstalling(_) => "uninstalling"@,
    }
}

/// The name of an installation phase.
pub fn phase(v: InstallPhase) -> (s: &'static str)
    ensures
        s@ == phase_name(v),
{
    match v {
        InstallPhase::Staging => "staging",
        InstallPhase::Staged => "staged",
        InstallPhase::Published => "published",
        InstallPhase::RollingBack(_) => "rolling_back",
        InstallPhase::Pruning => "pruning",
        InstallPhase::Active => "active",
        InstallPhase::Uninstalling(_) => "uninstalling",
    }
}

/// The name of an uninstall step.
pub open spec fn uninstall_name(v: UninstallStep) -> Seq<char> {
    match v {
        UninstallStep::RestoreResolver => "restore_resolver"@,
        UninstallStep::StopServices => "stop_services"@,
        UninstallStep::RemoveUnitLinks => "remove_unit_links"@,
        UninstallStep::RemovePublicPaths => "remove_public_paths"@,
        UninstallStep::RemoveCurrent => "remove_current"@,
        UninstallStep::ReloadManager => "reload_manager"@,
        UninstallStep::RemoveCurrentGeneration => "remove_current_generation"@,
        UninstallStep::RemovePreviousGeneration => "remove_previous_generation"@,
        UninstallStep::RemoveGenerationRoots => "remove_generation_roots"@,
        UninstallStep::Finalize => "finalize"@,
    }
}

/// The name of an uninstall step.
pub fn uninstall_step(v: UninstallStep) -> (s: &'static str)
    ensures
        s@ == uninstall_name(v),
{
    match v {
        UninstallStep::RestoreResolver => "restore_resolver",
        UninstallStep::StopServices => "stop_services",
        UninstallStep::RemoveUnitLinks => "remove_unit_links",
        UninstallStep::RemovePublicPaths => "remove_public_paths",
        UninstallStep::RemoveCurrent => "remove_current",
        UninstallStep::ReloadManager => "reload_manager",
        UninstallStep::RemoveCurrentGeneration => "remove_current_generation",
        UninstallStep::RemovePreviousGeneration => "remove_previous_generation",
        UninstallStep::RemoveGenerationRoots => "remove_generation_roots",
        UninstallStep::Finalize => "finalize",
    }
}

/// The name of a rollback step.
pub open spec fn rollback_name(v: RollbackStep) -> Seq<char> {
    match v {
        RollbackStep::StopServices => "stop_services"@,
        RollbackStep::RestoreResolver => "restore_resolver"@,
        RollbackStep::RestoreCurrent => "restore_current"@,
        RollbackStep::RemoveUnitLinks => "remove_unit_links"@,
        RollbackStep::RemovePublicPaths => "remove_public_paths"@,
        RollbackStep::ReloadManager => "reload_manager"@,
        RollbackStep::StartPrevious => "start_previous"@,
        RollbackStep::RemoveFailedGeneration => "remove_failed_generation"@,
        RollbackStep::RemoveGenerationRoots => "remove_generation_roots"@,
        RollbackStep::Finalize => "finalize"@,
    }
}

/// The name of a rollback step.
pub fn rollback_step(v: RollbackStep) -> (s: &'static str)
    ensures
        s@ == rollback_name(v),
{
    match v {
        RollbackStep::StopServices => "stop_services",
        RollbackStep::RestoreResolver => "restore_resolver",
        RollbackStep::RestoreCurrent => "restore_current",
        RollbackStep::RemoveUnitLinks => "remove_unit_links",
        RollbackStep::RemovePublicPaths => "remove_public_paths",
        RollbackStep::ReloadManager => "reload_manager",
        RollbackStep::StartPrevious => "start_previous",
        RollbackStep::RemoveFailedGeneration => "remove_failed_generation",
        RollbackStep::RemoveGenerationRoots => "remove_generation_roots",
        RollbackStep::Finalize => "finalize",
    }
}

} // verus!
