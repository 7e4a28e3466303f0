//! Reserved listeners of the daemon's sockets.

use vstd::prelude::*;
use vstd::string::*;

use crate::fault::{fault, invalid_data, invalid_of, refused, Fault, FaultKind, FaultView};
use crate::order::{contains_text, push_text, views};
use crate::text::{begins, chars, copy, ends, ends_with, same, slice, starts_with};

verus! {

/// The descriptor that a socket unit hands to the daemon.
pub open spec fn descriptor_of(unit: Seq<char>) -> Option<Seq<char>> {
    if begins(unit, "remapd-"@) && ends(
        unit.subrange("remapd-"@.len() as int, unit.len() as int),
        ".socket"@,
    ) {
        Some(unit.subrange("remapd-"@.len() as int, unit.len() - ".socket"@.len()))
    } else {
        None
    }
}

pub open spec fn invalid_unit_of() -> FaultView {
    invalid_of("the reserved listener has an invalid systemd unit identity"@)
}

/// The descriptor that a socket unit hands to the daemon.
pub fn descriptor_name(unit: &str) -> (r: Result<String, Fault>)
    ensures
        match r {
            Ok(name) => descriptor_of(unit@) == Some(name@),
            Err(e) => descriptor_of(unit@) is None && e@ == invalid_unit_of(),
        },
{
    let v = chars(unit);
    proof {
        reveal_strlit("remapd-");
        reveal_strlit(".socket");
    }
    if !starts_with(unit, "remapd-") {
        return Err(invalid_data("the reserved listener has an invalid systemd unit identity"));
    }
    let rest = slice(&v, 7, v.len());
    if !ends_with(rest.as_str(), ".socket") {
        return Err(invalid_data("the reserved listener has an invalid systemd unit identity"));
    }
    Ok(slice(&v, 7, v.len() - 7))
}

/// The descriptors that are held, each once.
#[derive(Debug)]
pub struct SocketReservation {
    held: Vec<String>,
}

impl View for SocketReservation {
    type V = Set<Seq<char>>;

    closed spec fn view(&self) -> Set<Seq<char>> {
        views(self.held@).to_set()
    }
}

impl SocketReservation {
    #[verifier::type_invariant]
    spec fn holds_each_once(self) -> bool {
        views(self.held@).no_duplicates()
    }

    /// A reservation of the given descriptors, none of which may occur twice.
    pub fn of(names: Vec<String>) -> (r: Result<SocketReservation, Fault>)
        ensures
            match r {
                Ok(v) => views(names@).no_duplicates() && v@ == views(names@).to_set(),
                Err(e) => !views(names@).no_duplicates() && e@ == invalid_of(
                    "the listener reservation contract contains a duplicate descriptor"@,
                ),
            },
    {
        let ghost nv = views(names@);
        let mut i: usize = 0;
        while i < names.len()
            invariant
                i <= names@.len(),
                nv == views(names@),
                forall|a: int, b: int| 0 <= a < b < i ==> nv[a] != nv[b],
            decreases names@.len() - i,
        {
            let mut j: usize = 0;
            while j < i
                invariant
                    j <= i < names@.len(),
                    nv == views(names@),
                    forall|a: int| 0 <= a < j ==> nv[a] != nv[i as int],
                decreases i - j,
            {
                proof {
                    assert(nv[j as int] == names@[j as int]@);
                    assert(nv[i as int] == names@[i as int]@);
                }
                if same(names[j].as_str(), names[i].as_str()) {
                    proof {
                        assert(nv[j as int] == nv[i as int]);
                    }
                    return Err(
                        invalid_data(
                            "the listener reservation contract contains a duplicate descriptor",
                        ),
                    );
                }
                j += 1;
            }
            i += 1;
        }
        Ok(SocketReservation { held: names })
    }

    /// Whether the descriptor of a unit is held.
    pub fn covers_unit(&self, unit: &str) -> (r: Result<bool, Fault>)
        ensures
            match r {
                Ok(b) => descriptor_of(unit@) is Some && b == self@.contains(
                    descriptor_of(unit@)->0,
                ),
                Err(e) => descriptor_of(unit@) is None && e@ == invalid_unit_of(),
            },
    {
        match descriptor_name(unit) {
            Err(e) => Err(e),
            Ok(name) => Ok(contains_text(self.held.as_slice(), name.as_str())),
        }
    }

    /// Gives up the descriptor of a unit.
    pub fn release_unit(&mut self, unit: &str) -> (r: Result<(), Fault>)
        ensures
            match r {
                Ok(_) => descriptor_of(unit@) is Some && old(self)@.contains(
                    descriptor_of(unit@)->0,
                ) && final(self)@ == old(self)@.remove(descriptor_of(unit@)->0),
                Err(e) => final(self)@ == old(self)@ && if descriptor_of(unit@) is None {
                    e@ == invalid_unit_of()
                } else {
                    !old(self)@.contains(descriptor_of(unit@)->0) && e@ == (FaultView {
                        kind: FaultKind::NotFound,
                        message: "the exact listener reservation is unavailable for handoff"@,
                    })
                },
            },
    {
        let name = match descriptor_name(unit) {
            Err(e) => {
                return Err(e);
            },
            Ok(name) => name,
        };
        proof {
            use_type_invariant(&*self);
        }
        let ghost before = views(self.held@);
        let mut kept: Vec<String> = Vec::new();
        let mut found = false;
        let mut i: usize = 0;
        proof {
            assert(views(kept@) =~= Seq::<Seq<char>>::empty());
        }
        while i < self.held.len()
            invariant
                i <= self.held@.len(),
                before == views(self.held@),
                before.no_duplicates(),
                found == (exists|k: int| 0 <= k < i && #[trigger] before[k] == name@),
                views(kept@).no_duplicates(),
                forall|s: Seq<char>|
                    #![trigger views(kept@).contains(s)]
                    views(kept@).contains(s) <==> s != name@ && exists|k: int|
                        0 <= k < i && #[trigger] before[k] == s,
            decreases self.held@.len() - i,
        {
            let ghost kv = views(kept@);
            proof {
                assert(before[i as int] == self.held@[i as int]@);
            }
            if same(self.held[i].as_str(), name.as_str()) {
                found = true;
                proof {
                    assert(before[i as int] == name@);
                }
            } else {
                push_text(&mut kept, copy(self.held[i].as_str()));
                proof {
                    let x = before[i as int];
                    let nk = views(kept@);
                    assert(nk == kv.push(x));
                    assert(!kv.contains(x)) by {
                        if kv.contains(x) {
                            let k = choose|k: int| 0 <= k < i && #[trigger] before[k] == x;
                            assert(before[k] == before[i as int]);
                        }
                    }
                    assert(nk.no_duplicates()) by {
                        assert forall|a: int, b: int|
                            0 <= a < nk.len() && 0 <= b < nk.len() && a != b implies nk[a] != nk[b] by {
                            if a == kv.len() {
                                assert(kv.contains(nk[b]));
                            } else if b == kv.len() {
                                assert(kv.contains(nk[a]));
                            }
                        }
                    }
                    assert forall|s: Seq<char>|
                        #![trigger nk.contains(s)]
                        nk.contains(s) <==> s != name@ && exists|k: int|
                            0 <= k < i + 1 && #[trigger] before[k] == s by {
                        if nk.contains(s) {
                            let q = choose|q: int| 0 <= q < nk.len() && nk[q] == s;
                            if q < kv.len() {
                                assert(kv[q] == s);
                                assert(kv.contains(s));
                            } else {
                                assert(before[i as int] == s);
                            }
                        }
                        if s != name@ && exists|k: int| 0 <= k < i + 1 && #[trigger] before[k] == s {
                            let k = choose|k: int| 0 <= k < i + 1 && #[trigger] before[k] == s;
                            if k < i {
                                assert(kv.contains(s));
                                let q = choose|q: int| 0 <= q < kv.len() && kv[q] == s;
                                assert(nk[q] == s);
                            } else {
                                assert(nk[kv.len() as int] == s);
                            }
                        }
                    }
                }
            }
            i += 1;
        }
        if !found {
            proof {
                assert(!before.contains(name@));
            }
            return Err(
                fault(
                    FaultKind::NotFound,
                    "the exact listener reservation is unavailable for handoff",
                ),
            );
        }
        proof {
            let k = choose|k: int| 0 <= k < before.len() && #[trigger] before[k] == name@;
            assert(before.contains(name@));
            assert(views(kept@).to_set() =~= before.to_set().remove(name@)) by {
                assert forall|s: Seq<char>| views(kept@).to_set().contains(s)
                    <==> before.to_set().remove(name@).contains(s) by {
                    assert(views(kept@).to_set().contains(s) <==> views(kept@).contains(s));
                    assert(before.to_set().contains(s) <==> before.contains(s));
                    if before.contains(s) {
                        let q = choose|q: int| 0 <= q < before.len() && before[q] == s;
                        assert(before[q] == s);
                    }
                }
            }
        }
        *self = SocketReservation { held: kept };
        Ok(())
    }

    /// Takes over another reservation that shares no descriptor with this one.
    pub fn merge(&mut self, other: SocketReservation) -> (r: Result<(), Fault>)
        ensures
            match r {
                Ok(_) => old(self)@.disjoint(other@) && final(self)@ == old(self)@.union(other@),
                Err(e) => !old(self)@.disjoint(other@) && final(self)@ == old(self)@ && e@ == (
                FaultView {
                    kind: FaultKind::AlreadyExists,
                    message: "the listener handoff attempted to duplicate a reservation"@,
                }),
            },
    {
        proof {
            use_type_invariant(&*self);
            use_type_invariant(&other);
        }
        let ghost mine = views(self.held@);
        let ghost theirs = views(other.held@);
        let mut i: usize = 0;
        while i < other.held.len()
            invariant
                i <= other.held@.len(),
                mine == views(self.held@),
                theirs == views(other.held@),
                forall|k: int| 0 <= k < i ==> !mine.contains(#[trigger] theirs[k]),
            decreases other.held@.len() - i,
        {
            proof {
                assert(theirs[i as int] == other.held@[i as int]@);
            }
            if contains_text(self.held.as_slice(), other.held[i].as_str()) {
                proof {
                    let s = theirs[i as int];
                    assert(theirs.contains(s));
                    assert(mine.to_set().contains(s));
                    assert(theirs.to_set().contains(s));
                    assert(!mine.to_set().disjoint(theirs.to_set()));
                }
                return Err(
                    fault(
                        FaultKind::AlreadyExists,
                        "the listener handoff attempted to duplicate a reservation",
                    ),
                );
            }
            i += 1;
        }
        let mut all = crate::order::copy_texts(&self.held);
        crate::order::extend_texts(&mut all, other.held);
        proof {
            let av = views(all@);
            assert(av == mine + theirs);
            assert forall|s: Seq<char>| mine.to_set().contains(s) implies !theirs.to_set().contains(
                s,
            ) by {
                if theirs.contains(s) {
                    let k = choose|k: int| 0 <= k < theirs.len() && theirs[k] == s;
                    assert(!mine.contains(theirs[k]));
                }
            }
            assert(mine.to_set().disjoint(theirs.to_set()));
            assert(av.no_duplicates()) by {
                assert forall|a: int, b: int|
                    0 <= a < av.len() && 0 <= b < av.len() && a != b implies av[a] != av[b] by {
                    let n = mine.len() as int;
                    if a < n && b >= n {
                        assert(av[a] == mine[a]);
                        assert(av[b] == theirs[b - n]);
                        assert(mine.contains(mine[a]));
                    } else if a >= n && b < n {
                        assert(av[b] == mine[b]);
                        assert(av[a] == theirs[a - n]);
                        assert(mine.contains(mine[b]));
                    } else if a >= n && b >= n {
                        assert(av[a] == theirs[a - n]);
                        assert(av[b] == theirs[b - n]);
                    } else {
                        assert(av[a] == mine[a]);
                        assert(av[b] == mine[b]);
                    }
                }
            }
            assert(av.to_set() =~= mine.to_set().union(theirs.to_set())) by {
                assert forall|s: Seq<char>| av.to_set().contains(s)
                    <==> mine.to_set().union(theirs.to_set()).contains(s) by {
                    if av.contains(s) {
                        let k = choose|k: int| 0 <= k < av.len() && av[k] == s;
                        if k < mine.len() {
                            assert(mine[k] == s);
                            assert(mine.contains(s));
                        } else {
                            assert(theirs[k - mine.len()] == s);
                            assert(theirs.contains(s));
                        }
                    }
                    if mine.contains(s) {
                        let k = choose|k: int| 0 <= k < mine.len() && mine[k] == s;
                        assert(av[k] == s);
                        assert(av.contains(s));
                    }
                    if theirs.contains(s) {
                        let k = choose|k: int| 0 <= k < theirs.len() && theirs[k] == s;
                        assert(av[mine.len() + k] == s);
                        assert(av.contains(s));
                    }
                }
            }
        }
        *self = SocketReservation { held: all };
        Ok(())
    }
}

pub open spec fn held_by(r: Option<SocketReservation>) -> Set<Seq<char>> {
    match r {
        Some(r) => r@,
        None => Set::empty(),
    }
}

/// Whether the descriptor of a unit has to be reserved first.
pub fn reservation_missing(reservation: &Option<SocketReservation>, unit: &str) -> (r: Result<
    bool,
    Fault,
>)
    ensures
        match r {
            Ok(b) => match *reservation {
                Some(held) => descriptor_of(unit@) is Some && b == !held@.contains(
                    descriptor_of(unit@)->0,
                ),
                None => b,
            },
            Err(e) => *reservation is Some && descriptor_of(unit@) is None && e@
                == invalid_unit_of(),
        },
{
    match reservation {
        None => Ok(true),
        Some(held) => match held.covers_unit(unit) {
            Err(e) => Err(e),
            Ok(covered) => Ok(!covered),
        },
    }
}

/// Adds a fresh reservation to what is held.
pub fn add_reservation(reservation: &mut Option<SocketReservation>, replacement: SocketReservation) -> (r:
    Result<(), Fault>)
    ensures
        match r {
            Ok(_) => held_by(*old(reservation)).disjoint(replacement@) && held_by(
                *final(reservation),
            ) == held_by(*old(reservation)).union(replacement@),
            Err(e) => !held_by(*old(reservation)).disjoint(replacement@) && held_by(
                *final(reservation),
            ) == held_by(*old(reservation)) && e@ == (FaultView {
                kind: FaultKind::AlreadyExists,
                message: "the listener handoff attempted to duplicate a reservation"@,
            }),
        },
{
    let ghost before = held_by(*reservation);
    match reservation.take() {
        None => {
            proof {
                assert(before.disjoint(replacement@));
                assert(before.union(replacement@) =~= replacement@);
            }
            *reservation = Some(replacement);
            Ok(())
        },
        Some(held) => {
            let mut current = held;
            let outcome = current.merge(replacement);
            *reservation = Some(current);
            outcome
        },
    }
}

/// Where a descriptor stands in the socket contract.
pub open spec fn contract_index(contract: Seq<Seq<char>>, name: Seq<char>, n: int) -> Option<int>
    decreases n,
{
    if n <= 0 {
        None
    } else {
        match contract_index(contract, name, n - 1) {
            Some(i) => Some(i),
            None => if contract[n - 1] == name {
                Some(n - 1)
            } else {
                None
            },
        }
    }
}

proof fn lemma_contract_index(contract: Seq<Seq<char>>, name: Seq<char>, n: int, m: int)
    requires
        0 <= n <= m,
        contract_index(contract, name, n) is Some,
    ensures
        contract_index(contract, name, m) == contract_index(contract, name, n),
    decreases m - n,
{
    if n < m {
        lemma_contract_index(contract, name, n, m - 1);
    }
}

/// The position in the socket contract of the descriptor that a unit hands over.
pub fn contract_descriptor(contract: &Vec<String>, unit: &str) -> (r: Result<usize, Fault>)
    ensures
        match descriptor_of(unit@) {
            None => refused(r, invalid_unit_of()),
            Some(name) => match contract_index(views(contract@), name, contract@.len() as int) {
                Some(i) => r is Ok && r->Ok_0 == i,
                None => refused(
                    r,
                    invalid_of("the reserved listener unit is outside the socket contract"@),
                ),
            },
        },
{
    let name = match descriptor_name(unit) {
        Err(e) => {
            return Err(e);
        },
        Ok(name) => name,
    };
    let ghost cv = views(contract@);
    let mut i: usize = 0;
    while i < contract.len()
        invariant
            i <= contract@.len(),
            cv == views(contract@),
            descriptor_of(unit@) == Some(name@),
            contract_index(cv, name@, i as int) is None,
        decreases contract@.len() - i,
    {
        proof {
            assert(cv[i as int] == contract@[i as int]@);
        }
        if same(contract[i].as_str(), name.as_str()) {
            proof {
                lemma_contract_index(cv, name@, i as int + 1, cv.len() as int);
            }
            return Ok(i);
        }
        i += 1;
    }
    Err(invalid_data("the reserved listener unit is outside the socket contract"))
}

/// The failure of a listener that could not be bound.
pub fn bind_fault(kind: FaultKind, name: &str, address: &str, reason: &str) -> (r: Fault)
    ensures
        r@ == (FaultView {
            kind,
            message: "the required "@ + name@ + " loopback listener at "@ + address@
                + " is unavailable: "@ + reason@,
        }),
{
    let mut message = copy("the required ");
    message.append(name);
    message.append(" loopback listener at ");
    message.append(address);
    message.append(" is unavailable: ");
    message.append(reason);
    Fault { kind, message }
}

// ---------------------------------------------------------------------------
// Laws
// ---------------------------------------------------------------------------

/// What was released and reserved again is held again, and nothing else changed.
pub proof fn law_handoff_keeps_the_other_reservations(held: Set<Seq<char>>, name: Seq<char>)
    requires
        held.contains(name),
    ensures
        !held.remove(name).contains(name),
        held.remove(name).disjoint(set![name]),
        held.remove(name).union(set![name]) == held,
{
    assert(held.remove(name).union(set![name]) =~= held);
}

} // verus!
