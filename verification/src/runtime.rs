//! The permission to start a generation, and its lease.

use vstd::prelude::*;
use vstd::string::*;
use vstd::utf8::{
    decode_utf8, decode_utf8_encode_utf8, encode_utf8, encode_utf8_decode_utf8,
    encode_utf8_valid_utf8, is_ascii_chars, is_ascii_chars_encode_utf8, valid_utf8,
};

use crate::address::hex_number;
use crate::digest::{identity_text, is_hyphenated, uuid_digits, uuid_parse, uuid_text};
use crate::fault::{conflict, conflict_of, fault, hand_on, Fault, FaultKind, FaultView};
use crate::files::{agrees, result_view, FileKind, Metadata};
use crate::generation::copy_bytes;
use crate::model::{InstallPhase, InstallRecord, RecordView};
use crate::text::{concat, decode_text, is_lower_hex};

verus! {

/// The length of a lease in bytes.
pub const LEASE_LENGTH: u64 = 37;

/// Whether the phase needs a durable activation to start.
pub open spec fn needs_activation(phase: InstallPhase) -> bool {
    phase is Active || phase is Pruning
}

/// Whether the phase needs a durable activation to start.
pub fn requires_existing_activation(phase: InstallPhase) -> (r: bool)
    ensures
        r == needs_activation(phase),
{
    match phase {
        InstallPhase::Active | InstallPhase::Pruning => true,
        _ => false,
    }
}

/// The generation that may start, or why none may.
pub open spec fn startable(r: RecordView, leased: Option<u128>) -> Result<u128, FaultView> {
    match r.phase {
        InstallPhase::Active | InstallPhase::Pruning => Ok(r.current.id),
        InstallPhase::Published | InstallPhase::Uninstalling(_) => match leased {
            None => Err(conflict_of("the runtime-start transaction lease is absent"@)),
            Some(id) => if id != r.current.id {
                Err(conflict_of("the runtime-start lease is for another generation"@))
            } else {
                Ok(id)
            },
        },
        InstallPhase::RollingBack(_) => match leased {
            None => Err(conflict_of("the rollback runtime-start lease is absent"@)),
            Some(id) => if id != r.current.id && !(r.previous is Some && r.previous->0.id == id) {
                Err(conflict_of("the rollback runtime-start lease is not owned"@))
            } else {
                Ok(id)
            },
        },
        _ => Err(conflict_of("the installation journal does not authorize runtime startup"@)),
    }
}

/// The generation that may start.
pub fn selected_generation(record: &InstallRecord, leased: Option<u128>) -> (r: Result<u128, Fault>)
    ensures
        result_view(r) == startable(record@, leased),
{
    match record.phase {
        InstallPhase::Active | InstallPhase::Pruning => Ok(record.current.id),
        InstallPhase::Published | InstallPhase::Uninstalling(_) => match leased {
            None => Err(conflict("the runtime-start transaction lease is absent")),
            Some(id) => if id != record.current.id {
                Err(conflict("the runtime-start lease is for another generation"))
            } else {
                Ok(id)
            },
        },
        InstallPhase::RollingBack(_) => match leased {
            None => Err(conflict("the rollback runtime-start lease is absent")),
            Some(id) => {
                let is_previous = match &record.previous {
                    Some(previous) => previous.id == id,
                    None => false,
                };
                if id != record.current.id && !is_previous {
                    return Err(conflict("the rollback runtime-start lease is not owned"));
                }
                Ok(id)
            },
        },
        _ => Err(conflict("the installation journal does not authorize runtime startup")),
    }
}

/// The generation that may make an activation, where one may.
pub open spec fn activating(r: RecordView, leased: Option<u128>) -> Result<
    Option<u128>,
    FaultView,
> {
    if !(r.phase is Published) {
        Ok(None)
    } else {
        match startable(r, leased) {
            Ok(id) => Ok(Some(id)),
            Err(e) => Err(e),
        }
    }
}

/// The generation that may make an activation, where one may.
pub fn activation_creation_generation(record: &InstallRecord, leased: Option<u128>) -> (r: Result<
    Option<u128>,
    Fault,
>)
    ensures
        result_view(r) == activating(record@, leased),
{
    if record.phase != InstallPhase::Published {
        return Ok(None);
    }
    match selected_generation(record, leased) {
        Ok(id) => Ok(Some(id)),
        Err(e) => Err(e),
    }
}

/// Whether a start needs a lease.
pub fn lease_wanted(record: &InstallRecord) -> (r: bool)
    ensures
        r == !needs_activation(record@.phase),
{
    !requires_existing_activation(record.phase)
}

/// Why a start is not authorized; the current link is still to be looked at.
pub open spec fn start_fault(
    effective_uid: u32,
    record: Result<Option<RecordView>, FaultView>,
    lease: Result<u128, FaultView>,
    activation: Result<bool, FaultView>,
) -> Result<u128, FaultView> {
    if effective_uid != 0 {
        Err(
            FaultView {
                kind: FaultKind::PermissionDenied,
                message: "runtime authorization requires root"@,
            },
        )
    } else {
        match record {
            Err(e) => Err(e),
            Ok(None) => Err(conflict_of("the Remap runtime has no installation authority"@)),
            Ok(Some(r)) => if needs_activation(r.phase) {
                match activation {
                    Err(e) => Err(e),
                    Ok(false) => Err(
                        conflict_of("the active runtime has no durable resolver authority"@),
                    ),
                    Ok(true) => Ok(r.current.id),
                }
            } else {
                match lease {
                    Err(e) => Err(e),
                    Ok(id) => startable(r, Some(id)),
                }
            },
        }
    }
}

/// The generation to which the current link has to lead for a start. The lease
/// counts where one is wanted, the activation where it is needed.
pub fn authorize(
    effective_uid: u32,
    record: &Result<Option<InstallRecord>, Fault>,
    lease: &Result<u128, Fault>,
    activation_present: &Result<bool, Fault>,
) -> (r: Result<u128, Fault>)
    ensures
        result_view(r) == start_fault(
            effective_uid,
            crate::plan::record_result(*record),
            result_view(*lease),
            result_view(*activation_present),
        ),
{
    if effective_uid != 0 {
        return Err(fault(FaultKind::PermissionDenied, "runtime authorization requires root"));
    }
    let record = match record {
        Err(e) => {
            return Err(hand_on(e));
        },
        Ok(None) => {
            return Err(conflict("the Remap runtime has no installation authority"));
        },
        Ok(Some(record)) => record,
    };
    if requires_existing_activation(record.phase) {
        let id = match selected_generation(record, None) {
            Err(e) => {
                return Err(e);
            },
            Ok(id) => id,
        };
        match activation_present {
            Err(e) => Err(hand_on(e)),
            Ok(present) => if *present {
                Ok(id)
            } else {
                Err(conflict("the active runtime has no durable resolver authority"))
            },
        }
    } else {
        match lease {
            Err(e) => Err(hand_on(e)),
            Ok(id) => selected_generation(record, Some(*id)),
        }
    }
}

// ---------------------------------------------------------------------------
// The lease
// ---------------------------------------------------------------------------

/// The text of a lease.
pub open spec fn lease_of(id: u128) -> Seq<char> {
    uuid_text(id) + "\n"@
}

/// The text of a lease.
pub fn lease_text(id: u128) -> (s: String)
    ensures
        s@ == lease_of(id),
{
    concat(identity_text(id).as_str(), "\n")
}

pub open spec fn lease_payload_of() -> FaultView {
    conflict_of("the runtime-start lease payload is invalid"@)
}

/// The generation that the bytes of a lease name, or why they are none.
pub open spec fn lease_identity(bytes: Seq<u8>) -> Result<u128, FaultView> {
    let body = bytes.subrange(0, 36);
    if bytes.len() != LEASE_LENGTH || bytes[36] != 10 || !valid_utf8(body) {
        Err(lease_payload_of())
    } else if !is_hyphenated(decode_utf8(body)) {
        Err(conflict_of("the runtime-start lease identity is invalid"@))
    } else {
        Ok(hex_number(uuid_digits(decode_utf8(body))) as u128)
    }
}

/// Reads the bytes of a lease: the hyphenated identity and a line feed.
pub fn read_identity(bytes: &[u8]) -> (r: Result<u128, Fault>)
    ensures
        result_view(r) == lease_identity(bytes@),
{
    if bytes.len() != 37 || bytes[36] != 10 {
        return Err(conflict("the runtime-start lease payload is invalid"));
    }
    let mut body = copy_bytes(bytes);
    body.truncate(36);
    proof {
        assert(body@ =~= bytes@.subrange(0, 36));
    }
    let ghost bv = body@;
    let text = match decode_text(body) {
        None => {
            return Err(conflict("the runtime-start lease payload is invalid"));
        },
        Some(text) => text,
    };
    proof {
        decode_utf8_encode_utf8(bv);
    }
    match uuid_parse(text.as_str()) {
        Some(id) => Ok(id),
        None => Err(conflict("the runtime-start lease identity is invalid")),
    }
}

pub open spec fn lease_fault(
    m: Metadata,
    allow_empty: bool,
    xattrs_safe: Result<bool, FaultView>,
) -> Option<FaultView> {
    let wrong = conflict_of("the runtime-start lease metadata is unsafe"@);
    if m.kind != FileKind::File || m.uid != 0 || m.links != 1 || m.mode & 0o777 != 0o600 || !(
    m.length == LEASE_LENGTH || (allow_empty && m.length == 0)) {
        Some(wrong)
    } else {
        match xattrs_safe {
            Err(e) => Some(e),
            Ok(safe) => if safe {
                None
            } else {
                Some(wrong)
            },
        }
    }
}

/// Holds a lease to its owner, its mode and its length; one that is about to be
/// written may still be empty.
pub fn validate(m: &Metadata, allow_empty: bool, xattrs_safe: &Result<bool, Fault>) -> (r: Result<
    (),
    Fault,
>)
    ensures
        agrees(r, lease_fault(*m, allow_empty, result_view(*xattrs_safe))),
{
    if m.kind != FileKind::File || m.uid != 0 || m.links != 1 || m.mode & 0o777 != 0o600 || !(
    m.length == LEASE_LENGTH || (allow_empty && m.length == 0)) {
        return Err(conflict("the runtime-start lease metadata is unsafe"));
    }
    match xattrs_safe {
        Err(e) => Err(hand_on(e)),
        Ok(safe) => if *safe {
            Ok(())
        } else {
            Err(conflict("the runtime-start lease metadata is unsafe"))
        },
    }
}

/// What came of trying the lock of a lease.
#[derive(Debug, Clone, Copy, PartialEq, Eq, Structural)]
pub enum LeaseLock {
    /// Nobody held it.
    Free,
    /// Somebody holds it.
    Held,
    Failed,
}

/// The generation that a held lease is for: it reads the same before and behind
/// the attempt to take its lock.
pub open spec fn leased(
    first: Result<u128, FaultView>,
    lock: LeaseLock,
    second: Result<u128, FaultView>,
) -> Result<u128, FaultView> {
    match first {
        Err(e) => Err(e),
        Ok(a) => match lock {
            LeaseLock::Free => Err(conflict_of("the runtime-start lease is not held"@)),
            LeaseLock::Failed => Err(
                conflict_of("the runtime-start lease could not be verified"@),
            ),
            LeaseLock::Held => match second {
                Err(e) => Err(e),
                Ok(b) => if a != b {
                    Err(conflict_of("the runtime-start lease changed identity"@))
                } else {
                    Ok(a)
                },
            },
        },
    }
}

/// The generation that a held lease is for.
pub fn require_lease(first: &Result<u128, Fault>, lock: LeaseLock, second: &Result<u128, Fault>) -> (r:
    Result<u128, Fault>)
    ensures
        result_view(r) == leased(result_view(*first), lock, result_view(*second)),
{
    let a = match first {
        Err(e) => {
            return Err(hand_on(e));
        },
        Ok(a) => *a,
    };
    match lock {
        LeaseLock::Free => Err(conflict("the runtime-start lease is not held")),
        LeaseLock::Failed => Err(conflict("the runtime-start lease could not be verified")),
        LeaseLock::Held => match second {
            Err(e) => Err(hand_on(e)),
            Ok(b) => if a != *b {
                Err(conflict("the runtime-start lease changed identity"))
            } else {
                Ok(a)
            },
        },
    }
}

// ---------------------------------------------------------------------------
// Laws
// ---------------------------------------------------------------------------

/// What a lease was written for is what is read from it.
pub proof fn law_lease_reads_back(id: u128)
    ensures
        lease_identity(encode_utf8(lease_of(id))) == Ok::<u128, FaultView>(id),
{
    crate::digest::law_identity_text_reads_back(id);
    let text = uuid_text(id);
    let whole = lease_of(id);
    reveal_strlit("\n");
    assert(whole =~= text.push('\n'));
    assert forall|i: int| 0 <= i < text.len() implies '\0' <= #[trigger] text[i] <= '\u{7f}' by {
        assert(is_lower_hex(text[i]) || text[i] == '-');
    }
    assert(is_ascii_chars(text));
    assert forall|i: int| 0 <= i < whole.len() implies '\0' <= #[trigger] whole[i] <= '\u{7f}' by {
        if i < text.len() {
            assert(whole[i] == text[i]);
        }
    }
    assert(is_ascii_chars(whole));
    is_ascii_chars_encode_utf8(text);
    is_ascii_chars_encode_utf8(whole);
    let bytes = encode_utf8(whole);
    assert(bytes.subrange(0, 36) =~= encode_utf8(text));
    encode_utf8_valid_utf8(text);
    encode_utf8_decode_utf8(text);
    assert(bytes[36] == 10);
}

/// Whatever a lease is for, only a generation of the record may start.
pub proof fn law_only_recorded_generations_start(r: RecordView, lease: Option<u128>)
    requires
        startable(r, lease) is Ok,
    ensures
        ({
            let id = startable(r, lease)->Ok_0;
            id == r.current.id || (r.phase is RollingBack && r.previous is Some && r.previous->0.id
                == id)
        }),
        !needs_activation(r.phase) ==> lease == Some(startable(r, lease)->Ok_0),
{
}

/// An activation is made for a published generation under its lease and under
/// no other circumstances.
pub proof fn law_activations_are_made_under_a_lease(r: RecordView, lease: Option<u128>)
    ensures
        activating(r, lease) matches Ok(Some(id)) ==> r.phase is Published && lease == Some(
            r.current.id,
        ) && id == r.current.id,
{
}

/// A generation may start exactly where its record allows it: an accepted one always,
/// a published one or one that is taken away under its own lease, and during a
/// rollback either generation of the record under its lease; before that none may.
pub proof fn law_records_decide_what_starts(r: RecordView, lease: Option<u128>, id: u128)
    ensures
        startable(r, lease) == Ok::<u128, FaultView>(id) <==> {
            ||| (r.phase is Active || r.phase is Pruning) && id == r.current.id
            ||| (r.phase is Published || r.phase is Uninstalling) && lease == Some(id) && id
                == r.current.id
            ||| r.phase is RollingBack && lease == Some(id) && (id == r.current.id || (r.previous
                is Some && r.previous->0.id == id))
        },
        activating(r, lease) == Ok::<Option<u128>, FaultView>(None) <==> !(r.phase is Published),
{
}

/// The runtime starts exactly for root under a record: an accepted generation with
/// its activation, any other under a lease that its record allows.
pub proof fn law_runtimes_start_with_authority(
    effective_uid: u32,
    record: Result<Option<RecordView>, FaultView>,
    lease: Result<u128, FaultView>,
    activation: Result<bool, FaultView>,
    id: u128,
)
    ensures
        start_fault(effective_uid, record, lease, activation) == Ok::<u128, FaultView>(id) <==> {
            &&& effective_uid == 0
            &&& record matches Ok(Some(r)) && {
                ||| (r.phase is Active || r.phase is Pruning) && activation == Ok::<
                    bool,
                    FaultView,
                >(true) && id == r.current.id
                ||| (r.phase is Published || r.phase is Uninstalling) && lease == Ok::<
                    u128,
                    FaultView,
                >(id) && id == r.current.id
                ||| r.phase is RollingBack && lease == Ok::<u128, FaultView>(id) && (id
                    == r.current.id || (r.previous is Some && r.previous->0.id == id))
            }
        },
{
}

/// A lease counts exactly where it is held and names the same generation before and
/// behind that look.
pub proof fn law_only_held_leases_count(
    first: Result<u128, FaultView>,
    lock: LeaseLock,
    second: Result<u128, FaultView>,
    id: u128,
)
    ensures
        leased(first, lock, second) == Ok::<u128, FaultView>(id) <==> first == Ok::<
            u128,
            FaultView,
        >(id) && second == Ok::<u128, FaultView>(id) && lock is Held,
{
}

} // verus!
