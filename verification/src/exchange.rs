//! The private channel to the daemon: what is accepted of it, and what its
//! answers mean.

use vstd::prelude::*;
use vstd::string::*;

use crate::digest::{option_digest, same_option_digest};
use crate::fault::{
    conflict, conflict_of, fault, invalid_data, invalid_of, plan_timeout, plan_timeout_message, Fault,
    FaultKind, FaultView,
};
use crate::files::{agrees, result_view};
use crate::model::ResolverPlanIdentity;
use crate::native::{Activation, ActivationPhase};
use crate::text::same;

verus! {

/// What stands where the channel's socket should.
#[derive(Debug, Clone, Copy, PartialEq, Eq, Structural)]
pub struct SocketMetadata {
    pub is_socket: bool,
    pub uid: u32,
    pub mode: u32,
}

pub open spec fn denied_of(message: Seq<char>) -> FaultView {
    FaultView { kind: FaultKind::PermissionDenied, message }
}

/// Accepts a socket that only the daemon's user can reach.
pub fn validate_socket(m: SocketMetadata, daemon_uid: u32) -> (r: Result<(), Fault>)
    ensures
        agrees(
            r,
            if m.is_socket && m.uid == daemon_uid && m.mode & 0o777 == 0o600 {
                None
            } else {
                Some(denied_of("system-control socket metadata is unsafe"@))
            },
        ),
{
    if !m.is_socket || m.uid != daemon_uid || m.mode & 0o777 != 0o600 {
        return Err(
            fault(FaultKind::PermissionDenied, "system-control socket metadata is unsafe"),
        );
    }
    Ok(())
}

/// Accepts the daemon's user at the other end.
pub fn validate_peer(peer_uid: u32, daemon_uid: u32) -> (r: Result<(), Fault>)
    ensures
        agrees(
            r,
            if peer_uid == daemon_uid {
                None
            } else {
                Some(denied_of("system-control peer identity changed"@))
            },
        ),
{
    if peer_uid != daemon_uid {
        return Err(fault(FaultKind::PermissionDenied, "system-control peer identity changed"));
    }
    Ok(())
}

/// The part of an exchange that ran out of time.
#[derive(Debug, Clone, Copy, PartialEq, Eq, Structural)]
pub enum ExchangePart {
    Connection,
    Write,
    Response,
}

pub open spec fn timeout_of(part: ExchangePart) -> FaultView {
    FaultView {
        kind: FaultKind::TimedOut,
        message: match part {
            ExchangePart::Connection => "system-control connection timed out"@,
            ExchangePart::Write => "system-control write timed out"@,
            ExchangePart::Response => "system-control response timed out"@,
        },
    }
}

/// The failure of an exchange that ran out of time.
pub fn exchange_timeout(part: ExchangePart) -> (r: Fault)
    ensures
        r@ == timeout_of(part),
{
    let message = match part {
        ExchangePart::Connection => "system-control connection timed out",
        ExchangePart::Write => "system-control write timed out",
        ExchangePart::Response => "system-control response timed out",
    };
    fault(FaultKind::TimedOut, message)
}

/// What the daemon says of the plan that it serves.
#[derive(Debug, Clone, Copy, PartialEq, Eq, Structural)]
pub struct SystemResult {
    pub activation_id: Option<u128>,
    pub active_generation: Option<u64>,
}

/// A response of the daemon.
#[derive(Debug)]
pub struct SystemResponse {
    pub protocol: String,
    pub request_id: u128,
    pub result: Option<SystemResult>,
    /// Whether it reports an error.
    pub error: bool,
}

/// The result that a response carries, or why it is refused.
pub open spec fn accepted_result(
    r: SystemResponse,
    protocol: Seq<char>,
    request_id: u128,
) -> Result<SystemResult, FaultView> {
    if r.protocol@ != protocol || r.request_id != request_id {
        Err(invalid_of("system-control response identity is invalid"@))
    } else {
        match r.result {
            Some(result) => if r.error {
                Err(invalid_of("system-control response shape is invalid"@))
            } else {
                Ok(result)
            },
            None => if r.error {
                Err(invalid_of("system-control request was rejected"@))
            } else {
                Err(invalid_of("system-control response shape is invalid"@))
            },
        }
    }
}

/// The result that a response to a request carries.
pub fn accept_response(response: &SystemResponse, protocol: &str, request_id: u128) -> (r: Result<
    SystemResult,
    Fault,
>)
    ensures
        result_view(r) == accepted_result(*response, protocol@, request_id),
{
    if !same(response.protocol.as_str(), protocol) || response.request_id != request_id {
        return Err(invalid_data("system-control response identity is invalid"));
    }
    match response.result {
        Some(result) => if response.error {
            Err(invalid_data("system-control response shape is invalid"))
        } else {
            Ok(result)
        },
        None => if response.error {
            Err(invalid_data("system-control request was rejected"))
        } else {
            Err(invalid_data("system-control response shape is invalid"))
        },
    }
}

// ---------------------------------------------------------------------------
// Plans
// ---------------------------------------------------------------------------

/// Whether the daemon serves exactly one plan.
pub open spec fn serves(expected: ResolverPlanIdentity, r: SystemResult) -> bool {
    r.activation_id == Some(expected.activation_id) && r.active_generation == Some(
        expected.generation,
    )
}

/// Whether the daemon serves exactly one plan.
pub fn health_matches(expected: ResolverPlanIdentity, result: &SystemResult) -> (r: bool)
    ensures
        r == serves(expected, *result),
{
    match (result.activation_id, result.active_generation) {
        (Some(id), Some(generation)) => id == expected.activation_id && generation
            == expected.generation,
        _ => false,
    }
}

/// The plan that the daemon serves, where it serves one.
pub open spec fn served_plan(r: SystemResult) -> Result<Option<ResolverPlanIdentity>, FaultView> {
    match (r.activation_id, r.active_generation) {
        (Some(activation_id), Some(generation)) => Ok(
            Some(ResolverPlanIdentity { activation_id, generation }),
        ),
        (None, None) => Ok(None),
        _ => Err(invalid_of("the daemon reported a partial resolver plan identity"@)),
    }
}

/// The plan that the daemon serves, where it serves one.
pub fn current_plan_identity(result: &SystemResult) -> (r: Result<
    Option<ResolverPlanIdentity>,
    Fault,
>)
    ensures
        result_view(r) == served_plan(*result),
{
    match (result.activation_id, result.active_generation) {
        (Some(activation_id), Some(generation)) => Ok(
            Some(ResolverPlanIdentity { activation_id, generation }),
        ),
        (None, None) => Ok(None),
        _ => Err(invalid_data("the daemon reported a partial resolver plan identity")),
    }
}

/// A daemon whose plan was withdrawn serves none.
pub fn require_invalidated(result: &SystemResult) -> (r: Result<(), Fault>)
    ensures
        agrees(
            r,
            if result.activation_id is None && result.active_generation is None {
                None
            } else {
                Some(conflict_of("the daemon did not invalidate the previous resolver plan"@))
            },
        ),
{
    match (result.activation_id, result.active_generation) {
        (None, None) => Ok(()),
        _ => Err(conflict("the daemon did not invalidate the previous resolver plan")),
    }
}

/// A daemon that was given a plan serves it.
pub fn require_served(expected: ResolverPlanIdentity, result: &SystemResult, message: &str) -> (r:
    Result<(), Fault>)
    ensures
        agrees(
            r,
            if serves(expected, *result) {
                None
            } else {
                Some(invalid_of(message@))
            },
        ),
{
    if health_matches(expected, result) {
        Ok(())
    } else {
        Err(invalid_data(message))
    }
}

/// The activation that a plan was bound to still stands.
pub fn require_activation_digest(observed: &Option<[u8; 32]>, expected: &Option<[u8; 32]>) -> (r:
    Result<(), Fault>)
    ensures
        agrees(
            r,
            if option_digest(*observed) == option_digest(*expected) {
                None
            } else {
                Some(
                    conflict_of("the resolver activation changed after lifecycle authorization"@),
                )
            },
        ),
{
    if same_option_digest(observed, expected) {
        Ok(())
    } else {
        Err(conflict("the resolver activation changed after lifecycle authorization"))
    }
}

// ---------------------------------------------------------------------------
// Waiting
// ---------------------------------------------------------------------------

/// What a wait does next.
#[derive(Debug, PartialEq, Eq)]
pub enum Wait {
    Ready,
    Again,
    TimedOut(Fault),
}

/// A wait over plain values.
pub enum WaitView {
    Ready,
    Again,
    TimedOut(FaultView),
}

impl View for Wait {
    type V = WaitView;

    open spec fn view(&self) -> WaitView {
        match self {
            Wait::Ready => WaitView::Ready,
            Wait::Again => WaitView::Again,
            Wait::TimedOut(e) => WaitView::TimedOut(e@),
        }
    }
}

/// Whether the daemon serves the plan of the activation that is in force.
pub open spec fn healthy(activation: Option<Activation>, answer: Option<SystemResult>) -> bool {
    activation is Some && activation->0.phase == ActivationPhase::Active && answer is Some
        && serves(
        ResolverPlanIdentity {
            activation_id: activation->0.activation_id,
            generation: activation->0.generation,
        },
        answer->0,
    )
}

/// What a wait for a served plan does next; there is no answer where the daemon
/// could not be reached.
pub fn wait_for_health(
    activation: &Option<Activation>,
    answer: &Option<SystemResult>,
    now: u64,
    deadline: u64,
) -> (r: Wait)
    ensures
        r@ == if healthy(*activation, *answer) {
            WaitView::Ready
        } else if now >= deadline {
            WaitView::TimedOut(FaultView { kind: FaultKind::TimedOut, message: plan_timeout() })
        } else {
            WaitView::Again
        },
{
    let ready = match (activation, answer) {
        (Some(a), Some(result)) => a.phase == ActivationPhase::Active && health_matches(
            ResolverPlanIdentity { activation_id: a.activation_id, generation: a.generation },
            result,
        ),
        _ => false,
    };
    if ready {
        Wait::Ready
    } else if now >= deadline {
        Wait::TimedOut(fault(FaultKind::TimedOut, plan_timeout_message()))
    } else {
        Wait::Again
    }
}

/// What a wait for the daemon does next.
pub fn wait_for_daemon(reached: bool, now: u64, deadline: u64) -> (r: Wait)
    ensures
        r@ == if reached {
            WaitView::Ready
        } else if now >= deadline {
            WaitView::TimedOut(
                FaultView {
                    kind: FaultKind::TimedOut,
                    message: "the private daemon control channel did not become ready"@,
                },
            )
        } else {
            WaitView::Again
        },
{
    if reached {
        Wait::Ready
    } else if now >= deadline {
        Wait::TimedOut(
            fault(
                FaultKind::TimedOut,
                "the private daemon control channel did not become ready",
            ),
        )
    } else {
        Wait::Again
    }
}

// ---------------------------------------------------------------------------
// Laws
// ---------------------------------------------------------------------------

/// A daemon that serves a plan is seen to serve that plan and no other, and one
/// whose plan was withdrawn is seen to serve none.
pub proof fn law_served_plans_are_exact(expected: ResolverPlanIdentity, r: SystemResult)
    ensures
        serves(expected, r) <==> served_plan(r) == Ok::<Option<ResolverPlanIdentity>, FaultView>(
            Some(expected),
        ),
        r.activation_id is None && r.active_generation is None <==> served_plan(r) == Ok::<
            Option<ResolverPlanIdentity>,
            FaultView,
        >(None),
{
}

/// An answer of the daemon counts exactly where it is one to this request, in this
/// protocol, with a result and without an error; and the daemon is in health exactly
/// where it serves the plan of the activation in force.
pub proof fn law_answers_belong_to_their_request(
    r: SystemResponse,
    protocol: Seq<char>,
    request_id: u128,
    activation: Option<Activation>,
    answer: Option<SystemResult>,
)
    ensures
        accepted_result(r, protocol, request_id) is Ok <==> r.protocol@ == protocol && r.request_id
            == request_id && r.result is Some && !r.error,
        accepted_result(r, protocol, request_id) is Ok ==> Some(
            accepted_result(r, protocol, request_id)->Ok_0,
        ) == r.result,
        healthy(activation, answer) <==> activation is Some && activation->0.phase
            == ActivationPhase::Active && answer is Some && answer->0.activation_id == Some(
            activation->0.activation_id,
        ) && answer->0.active_generation == Some(activation->0.generation),
{
}

} // verus!
