//! The native resolver of the host as the lifecycle sees it.

use vstd::prelude::*;

verus! {

/// The service that owns the resolver settings of a link.
#[derive(Debug, Clone, Copy, PartialEq, Eq, Structural)]
pub enum ResolverLinkManager {
    SystemdResolved,
    SystemdNetworkd,
    NetworkManager,
}

/// Whether a link can be selected.
#[derive(Debug, Clone, Copy, PartialEq, Eq, Structural)]
pub enum ResolverLinkSelectionState {
    SupportedPrimary,
    SupportedSecondary,
    Inactive,
    Unsupported,
}

/// What answers the host's resolver requests.
#[derive(Debug, Clone, Copy, PartialEq, Eq, Structural)]
pub enum ResolverBackendKind {
    SystemdResolved,
    NetworkManager,
    ResolvConf,
    Unknown,
}

/// Whether the host's resolver can be driven.
#[derive(Debug, Clone, Copy, PartialEq, Eq, Structural)]
pub enum ResolverSupport {
    Supported,
    Unsupported,
}

/// The resolver of the host.
#[derive(Debug, Clone, Copy, PartialEq, Eq, Structural)]
pub struct ResolverEnvironment {
    pub backend: ResolverBackendKind,
    pub support: ResolverSupport,
}

/// Whether a resolver activation is in force or on its way there or back.
#[derive(Debug, Clone, Copy, PartialEq, Eq, Structural)]
pub enum ActivationPhase {
    Active,
    Transitional,
}

/// What a reversible resolver activation says of the manager it was made under.
#[derive(Debug, Clone, Copy, PartialEq, Eq, Structural)]
pub enum ResolverManagerRecord {
    /// An activation that was recorded before managers were told apart.
    Systemd,
    SystemdResolved,
    SystemdNetworkd,
    NetworkManager,
}

/// The manager of an activation, where it is recorded.
pub open spec fn recorded_manager(m: ResolverManagerRecord) -> Option<ResolverLinkManager> {
    match m {
        ResolverManagerRecord::Systemd => None,
        ResolverManagerRecord::SystemdResolved => Some(ResolverLinkManager::SystemdResolved),
        ResolverManagerRecord::SystemdNetworkd => Some(ResolverLinkManager::SystemdNetworkd),
        ResolverManagerRecord::NetworkManager => Some(ResolverLinkManager::NetworkManager),
    }
}

/// The manager of an activation, where it is recorded.
pub fn activation_manager(m: ResolverManagerRecord) -> (r: Option<ResolverLinkManager>)
    ensures
        r == recorded_manager(m),
{
    match m {
        ResolverManagerRecord::Systemd => None,
        ResolverManagerRecord::SystemdResolved => Some(ResolverLinkManager::SystemdResolved),
        ResolverManagerRecord::SystemdNetworkd => Some(ResolverLinkManager::SystemdNetworkd),
        ResolverManagerRecord::NetworkManager => Some(ResolverLinkManager::NetworkManager),
    }
}

/// What a reversible resolver activation says of itself.
#[derive(Debug, Clone, Copy, PartialEq, Eq, Structural)]
pub struct Activation {
    pub phase: ActivationPhase,
    pub activation_id: u128,
    pub generation: u64,
    pub owner_uid: u32,
    pub link: u32,
}

} // verus!
