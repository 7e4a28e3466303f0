//! Failures of lifecycle operations, their categories and their hints.

use vstd::prelude::*;
use vstd::string::*;

use crate::text::{copy, same};

verus! {

/// The class of a failure.
#[derive(Debug, Clone, Copy, PartialEq, Eq, Structural)]
pub enum FaultKind {
    NotFound,
    PermissionDenied,
    AlreadyExists,
    AddrInUse,
    InvalidInput,
    InvalidData,
    TimedOut,
    Interrupted,
    Unsupported,
    DirectoryNotEmpty,
    Other,
}

/// A failed operation with the sentence that describes it.
#[derive(Debug, PartialEq, Eq)]
pub struct Fault {
    pub kind: FaultKind,
    pub message: String,
}

/// A failure over plain values.
pub struct FaultView {
    pub kind: FaultKind,
    pub message: Seq<char>,
}

impl View for Fault {
    type V = FaultView;

    open spec fn view(&self) -> FaultView {
        FaultView { kind: self.kind, message: self.message@ }
    }
}

/// A failure with a fixed sentence.
pub fn fault(kind: FaultKind, message: &str) -> (r: Fault)
    ensures
        r@ == (FaultView { kind, message: message@ }),
{
    Fault { kind, message: copy(message) }
}

/// A state that the operation may not overwrite.
pub open spec fn conflict_of(message: Seq<char>) -> FaultView {
    FaultView { kind: FaultKind::AlreadyExists, message }
}

pub fn conflict(message: &str) -> (r: Fault)
    ensures
        r@ == conflict_of(message@),
{
    fault(FaultKind::AlreadyExists, message)
}

/// A value that breaks its own format.
pub open spec fn invalid_of(message: Seq<char>) -> FaultView {
    FaultView { kind: FaultKind::InvalidData, message }
}

pub fn invalid_data(message: &str) -> (r: Fault)
    ensures
        r@ == invalid_of(message@),
{
    fault(FaultKind::InvalidData, message)
}

/// Whether a result is exactly this failure.
pub open spec fn refused<T>(r: Result<T, Fault>, e: FaultView) -> bool {
    r is Err && r->Err_0@ == e
}

/// A failure that an observation of the machine gave, handed on unchanged.
pub fn hand_on(f: &Fault) -> (r: Fault)
    ensures
        r@ == f@,
{
    Fault { kind: f.kind, message: copy(f.message.as_str()) }
}

pub open spec fn legacy_update_error() -> Seq<char> {
    "the installed Linux resolver generation predates safe transactional updates; uninstall and reinstall Remap"@
}

pub open spec fn stability_timeout() -> Seq<char> {
    "the native resolver manager did not reach stable configured state"@
}

pub open spec fn plan_timeout() -> Seq<char> {
    "the resolver supervisor did not publish a private upstream plan"@
}

/// The sentence of a refused update over a generation that cannot be updated.
pub fn legacy_update_message() -> (s: &'static str)
    ensures
        s@ == legacy_update_error(),
{
    "the installed Linux resolver generation predates safe transactional updates; uninstall and reinstall Remap"
}

/// The sentence of a manager that did not come to rest in time.
pub fn stability_timeout_message() -> (s: &'static str)
    ensures
        s@ == stability_timeout(),
{
    "the native resolver manager did not reach stable configured state"
}

/// The sentence of a supervisor that published no plan in time.
pub fn plan_timeout_message() -> (s: &'static str)
    ensures
        s@ == plan_timeout(),
{
    "the resolver supervisor did not publish a private upstream plan"
}

/// The stable category of a failure.
pub open spec fn category_of(kind: FaultKind) -> Seq<char> {
    match kind {
        FaultKind::PermissionDenied => "permission_denied"@,
        FaultKind::AlreadyExists | FaultKind::AddrInUse => "state_conflict"@,
        FaultKind::InvalidData | FaultKind::InvalidInput => "invalid_request"@,
        FaultKind::Unsupported => "unsupported_platform"@,
        FaultKind::TimedOut => "timeout"@,
        _ => "system_error"@,
    }
}

/// What to do about a failure.
pub open spec fn hint_of(e: FaultView) -> Seq<char> {
    match e.kind {
        FaultKind::PermissionDenied => {
            "run the native lifecycle command as root with the required Linux capability and policy authorization"@
        },
        FaultKind::AddrInUse => {
            "free the reported loopback listener or choose which existing local service should own it"@
        },
        FaultKind::AlreadyExists => {
            "inspect status and use separately approved recovery when required"@
        },
        FaultKind::Unsupported => if e.message == legacy_update_error() {
            "run make uninstall, then make install to replace the legacy Linux resolver generation"@
        } else {
            "inspect resolver candidates and select one supported exact link"@
        },
        FaultKind::TimedOut => if e.message == stability_timeout() {
            "inspect the selected link's native manager state and retry only after it is stably configured"@
        } else if e.message == plan_timeout() {
            "inspect remapd and remap-resolver.service, then use separately approved recovery if typed status requires it"@
        } else {
            "inspect the typed status response before retrying"@
        },
        _ => "inspect the typed status response before retrying"@,
    }
}

impl Fault {
    /// The stable category under which the failure is reported.
    pub fn category(&self) -> (s: &'static str)
        ensures
            s@ == category_of(self@.kind),
    {
        match self.kind {
            FaultKind::PermissionDenied => "permission_denied",
            FaultKind::AlreadyExists | FaultKind::AddrInUse => "state_conflict",
            FaultKind::InvalidData | FaultKind::InvalidInput => "invalid_request",
            FaultKind::Unsupported => "unsupported_platform",
            FaultKind::TimedOut => "timeout",
            _ => "system_error",
        }
    }

    /// The advice that goes with the failure.
    pub fn hint(&self) -> (s: &'static str)
        ensures
            s@ == hint_of(self@),
    {
        match self.kind {
            FaultKind::PermissionDenied => {
                "run the native lifecycle command as root with the required Linux capability and policy authorization"
            },
            FaultKind::AddrInUse => {
                "free the reported loopback listener or choose which existing local service should own it"
            },
            FaultKind::AlreadyExists => {
                "inspect status and use separately approved recovery when required"
            },
            FaultKind::Unsupported => if same(self.message.as_str(), legacy_update_message()) {
                "run make uninstall, then make install to replace the legacy Linux resolver generation"
            } else {
                "inspect resolver candidates and select one supported exact link"
            },
            FaultKind::TimedOut => if same(self.message.as_str(), stability_timeout_message()) {
                "inspect the selected link's native manager state and retry only after it is stably configured"
            } else if same(self.message.as_str(), plan_timeout_message()) {
                "inspect remapd and remap-resolver.service, then use separately approved recovery if typed status requires it"
            } else {
                "inspect the typed status response before retrying"
            },
            _ => "inspect the typed status response before retrying",
        }
    }
}

/// The lifecycle contract speaks JSON only.
pub fn require_json(enabled: bool) -> (r: Result<(), Fault>)
    ensures
        enabled <==> r is Ok,
        !enabled ==> refused(
            r,
            FaultView {
                kind: FaultKind::InvalidInput,
                message: "the Linux lifecycle contract requires --json"@,
            },
        ),
{
    if enabled {
        Ok(())
    } else {
        Err(fault(FaultKind::InvalidInput, "the Linux lifecycle contract requires --json"))
    }
}

/// Recovery names its whole scope.
pub fn require_all(enabled: bool) -> (r: Result<(), Fault>)
    ensures
        enabled <==> r is Ok,
        !enabled ==> refused(
            r,
            FaultView {
                kind: FaultKind::InvalidInput,
                message: "recovery requires the explicit --all scope"@,
            },
        ),
{
    if enabled {
        Ok(())
    } else {
        Err(fault(FaultKind::InvalidInput, "recovery requires the explicit --all scope"))
    }
}

/// An effective user that is not root is refused with the given sentence.
pub fn require_root(effective_uid: u32, message: &str) -> (r: Result<(), Fault>)
    ensures
        effective_uid == 0 <==> r is Ok,
        effective_uid != 0 ==> refused(
            r,
            FaultView { kind: FaultKind::PermissionDenied, message: message@ },
        ),
{
    if effective_uid == 0 {
        Ok(())
    } else {
        Err(fault(FaultKind::PermissionDenied, message))
    }
}

/// The largest response of the lifecycle contract in bytes.
pub const MAX_OUTPUT_BYTES: usize = 65536;

/// An encoded response as text, where it stays within its bound and is UTF-8.
pub fn bounded_response(encoded: Vec<u8>) -> (r: Result<String, Fault>)
    ensures
        match r {
            Ok(text) => encoded@.len() <= MAX_OUTPUT_BYTES && vstd::utf8::valid_utf8(encoded@)
                && text@ == vstd::utf8::decode_utf8(encoded@),
            Err(e) => if encoded@.len() > MAX_OUTPUT_BYTES {
                e@ == invalid_of("the Linux lifecycle response exceeds its bound"@)
            } else {
                !vstd::utf8::valid_utf8(encoded@) && e@ == invalid_of(
                    "the Linux lifecycle response is invalid UTF-8"@,
                )
            },
        },
{
    if encoded.len() > MAX_OUTPUT_BYTES {
        return Err(invalid_data("the Linux lifecycle response exceeds its bound"));
    }
    match crate::text::decode_text(encoded) {
        Some(text) => Ok(text),
        None => Err(invalid_data("the Linux lifecycle response is invalid UTF-8")),
    }
}

} // verus!
