//! The units of the product, their links, and the link to the current generation.

use vstd::prelude::*;
use vstd::string::*;

use crate::digest::{identity_text, uuid_text};
use crate::fault::{conflict, conflict_of, Fault, FaultView};
use crate::files::{
    agrees, classify_link, owned_link, require_absent, result_view, LinkObservation, LinkView, Metadata,
    OwnedLink,
};
use crate::model::{InstallRecord, RecordView};
use crate::order::{push_text, views};
use crate::text::{concat, copy, ends, ends_with, same};

verus! {

/// The daemon's unit.
pub open spec fn daemon_unit() -> Seq<char> {
    "remapd.service"@
}

/// The supervisor's unit.
pub open spec fn resolver_unit() -> Seq<char> {
    "remap-resolver.service"@
}

/// The socket units of the daemon.
pub open spec fn socket_units() -> Seq<Seq<char>> {
    seq!["remapd-dns-udp.socket"@, "remapd-dns-tcp.socket"@, "remapd-http.socket"@]
}

/// All units: the sockets, the daemon and the supervisor.
pub open spec fn all_units() -> Seq<Seq<char>> {
    seq![
        "remapd-dns-udp.socket"@,
        "remapd-dns-tcp.socket"@,
        "remapd-http.socket"@,
        "remapd.service"@,
        "remap-resolver.service"@,
    ]
}

/// The socket units of the daemon.
pub fn socket_unit_names() -> (r: Vec<String>)
    ensures
        views(r@) == socket_units(),
{
    let mut v: Vec<String> = Vec::new();
    push_text(&mut v, copy("remapd-dns-udp.socket"));
    push_text(&mut v, copy("remapd-dns-tcp.socket"));
    push_text(&mut v, copy("remapd-http.socket"));
    proof {
        assert(views(v@) =~= socket_units());
    }
    v
}

/// All units of the product.
pub fn unit_names() -> (r: Vec<String>)
    ensures
        views(r@) == all_units(),
{
    let mut v: Vec<String> = Vec::new();
    push_text(&mut v, copy("remapd-dns-udp.socket"));
    push_text(&mut v, copy("remapd-dns-tcp.socket"));
    push_text(&mut v, copy("remapd-http.socket"));
    push_text(&mut v, copy("remapd.service"));
    push_text(&mut v, copy("remap-resolver.service"));
    proof {
        assert(views(v@) =~= all_units());
    }
    v
}

/// A symbolic link and where it leads.
#[derive(Debug, PartialEq, Eq)]
pub struct PublishedLink {
    pub path: String,
    pub target: String,
}

/// A link over plain values.
pub struct PublishedLinkView {
    pub path: Seq<char>,
    pub target: Seq<char>,
}

impl View for PublishedLink {
    type V = PublishedLinkView;

    open spec fn view(&self) -> PublishedLinkView {
        PublishedLinkView { path: self.path@, target: self.target@ }
    }
}

impl PublishedLink {
    /// A copy of the link.
    pub fn duplicate(&self) -> (r: PublishedLink)
        ensures
            r@ == self@,
    {
        PublishedLink { path: copy(self.path.as_str()), target: copy(self.target.as_str()) }
    }

    /// Whether two links are the same.
    pub fn same_as(&self, other: &PublishedLink) -> (r: bool)
        ensures
            r == (self@ == other@),
    {
        same(self.path.as_str(), other.path.as_str()) && same(
            self.target.as_str(),
            other.target.as_str(),
        )
    }
}

/// Whether a unit is a socket.
pub open spec fn is_socket_unit(unit: Seq<char>) -> bool {
    ends(unit, ".socket"@)
}

/// The link that makes a unit known.
pub open spec fn definition_link(unit: Seq<char>) -> PublishedLinkView {
    PublishedLinkView {
        path: "/etc/systemd/system/"@ + unit,
        target: "/usr/libexec/remap/current/units/"@ + unit,
    }
}

/// The link that has a unit started.
pub open spec fn wants_link(unit: Seq<char>) -> PublishedLinkView {
    PublishedLinkView {
        path: if is_socket_unit(unit) {
            "/etc/systemd/system/sockets.target.wants/"@ + unit
        } else {
            "/etc/systemd/system/multi-user.target.wants/"@ + unit
        },
        target: "/etc/systemd/system/"@ + unit,
    }
}

/// All unit links: the definitions, then what has them started.
pub open spec fn unit_links() -> Seq<PublishedLinkView> {
    Seq::new(
        10,
        |i: int|
            if i < 5 {
                definition_link(all_units()[i])
            } else {
                wants_link(all_units()[i - 5])
            },
    )
}

/// All unit links.
pub fn unit_link_specs() -> (r: Vec<PublishedLink>)
    ensures
        views(r@) == unit_links(),
        r@.len() == 10,
{
    let units = unit_names();
    let mut links: Vec<PublishedLink> = Vec::new();
    let mut i: usize = 0;
    proof {
        assert(views(units@).len() == units@.len());
    }
    while i < 5
        invariant
            i <= 5,
            units@.len() == 5,
            views(units@) == all_units(),
            links@.len() == i,
            forall|k: int| 0 <= k < i ==> (#[trigger] links@[k])@ == unit_links()[k],
        decreases 5 - i,
    {
        let unit = units[i].as_str();
        proof {
            assert(views(units@)[i as int] == units@[i as int]@);
        }
        links.push(
            PublishedLink {
                path: concat("/etc/systemd/system/", unit),
                target: concat("/usr/libexec/remap/current/units/", unit),
            },
        );
        i += 1;
    }
    let mut j: usize = 0;
    while j < 5
        invariant
            j <= 5,
            units@.len() == 5,
            views(units@) == all_units(),
            links@.len() == 5 + j,
            forall|k: int| 0 <= k < 5 + j ==> (#[trigger] links@[k])@ == unit_links()[k],
        decreases 5 - j,
    {
        let unit = units[j].as_str();
        proof {
            assert(views(units@)[j as int] == units@[j as int]@);
        }
        let path = if ends_with(unit, ".socket") {
            concat("/etc/systemd/system/sockets.target.wants/", unit)
        } else {
            concat("/etc/systemd/system/multi-user.target.wants/", unit)
        };
        links.push(PublishedLink { path, target: concat("/etc/systemd/system/", unit) });
        j += 1;
    }
    proof {
        assert(views(links@) =~= unit_links());
    }
    links
}

/// The paths of links.
pub open spec fn link_paths(s: Seq<PublishedLinkView>) -> Seq<Seq<char>> {
    Seq::new(s.len(), |i: int| s[i].path)
}

/// The paths of links.
pub fn paths_of(links: &Vec<PublishedLink>) -> (r: Vec<String>)
    ensures
        views(r@) == link_paths(views(links@)),
{
    let mut r: Vec<String> = Vec::new();
    let mut i: usize = 0;
    while i < links.len()
        invariant
            i <= links@.len(),
            r@.len() == i,
            forall|k: int| 0 <= k < i ==> (#[trigger] r@[k])@ == links@[k]@.path,
        decreases links@.len() - i,
    {
        r.push(copy(links[i].path.as_str()));
        i += 1;
    }
    proof {
        assert(views(r@) =~= link_paths(views(links@)));
    }
    r
}

/// The paths of all unit links.
pub fn unit_publication_paths() -> (r: Vec<String>)
    ensures
        views(r@) == link_paths(unit_links()),
{
    paths_of(&unit_link_specs())
}

// ---------------------------------------------------------------------------
// Publishing and removing links
// ---------------------------------------------------------------------------

/// The failure of the first path that is not free.
pub open spec fn first_occupied(
    observed: Seq<Result<Metadata, FaultView>>,
    n: int,
    occupied: Seq<char>,
) -> Option<FaultView>
    decreases n,
{
    if n <= 0 {
        None
    } else {
        match first_occupied(observed, n - 1, occupied) {
            Some(e) => Some(e),
            None => crate::files::absence_fault(observed[n - 1], occupied),
        }
    }
}

/// What a path was found to be, or why it could not be looked at.
#[derive(Debug)]
pub struct PathProbe {
    pub result: Result<Metadata, Fault>,
}

impl View for PathProbe {
    type V = Result<Metadata, FaultView>;

    open spec fn view(&self) -> Result<Metadata, FaultView> {
        result_view(self.result)
    }
}

/// Accepts paths that are all free.
pub fn require_all_absent(observed: &Vec<PathProbe>, occupied: &str) -> (r: Result<(), Fault>)
    ensures
        agrees(r, first_occupied(views(observed@), observed@.len() as int, occupied@)),
{
    let ghost ov = views(observed@);
    let mut i: usize = 0;
    while i < observed.len()
        invariant
            i <= observed@.len(),
            ov == views(observed@),
            first_occupied(ov, i as int, occupied@) is None,
        decreases observed@.len() - i,
    {
        proof {
            assert(ov[i as int] == observed@[i as int]@);
        }
        if let Err(e) = require_absent(&observed[i].result, occupied) {
            proof {
                lemma_first_occupied(ov, i as int + 1, ov.len() as int, occupied@);
            }
            return Err(e);
        }
        i += 1;
    }
    Ok(())
}

proof fn lemma_first_occupied(
    observed: Seq<Result<Metadata, FaultView>>,
    n: int,
    m: int,
    occupied: Seq<char>,
)
    requires
        0 <= n <= m,
        first_occupied(observed, n, occupied) is Some,
    ensures
        first_occupied(observed, m, occupied) == first_occupied(observed, n, occupied),
    decreases m - n,
{
    if n < m {
        lemma_first_occupied(observed, n, m - 1, occupied);
    }
}

/// Whether an owned unit link stands and goes.
pub fn unit_link_removal(o: &LinkObservation, target: &str) -> (r: Result<OwnedLink, Fault>)
    ensures
        result_view(r) == owned_link(o@, target@, "a systemd unit path changed ownership"@),
{
    classify_link(o, target, "a systemd unit path changed ownership")
}

// ---------------------------------------------------------------------------
// The current generation
// ---------------------------------------------------------------------------

/// The directory of a generation.
pub open spec fn generation_path(id: u128) -> Seq<char> {
    "/usr/libexec/remap/generations/"@ + uuid_text(id)
}

/// The directory of a generation.
pub fn generation_directory(id: u128) -> (s: String)
    ensures
        s@ == generation_path(id),
{
    concat("/usr/libexec/remap/generations/", identity_text(id).as_str())
}

/// Whether the current link leads to a generation.
pub open spec fn leads_to(o: LinkView, id: u128) -> bool {
    o == LinkView::Link(generation_path(id))
}

/// Whether the current link leads to a generation.
pub fn current_is(o: &LinkObservation, id: u128) -> (r: bool)
    ensures
        r == leads_to(o@, id),
{
    match o {
        LinkObservation::Link(t) => same(t.as_str(), generation_directory(id).as_str()),
        _ => false,
    }
}

/// Accepts a current link that leads to the expected generation.
pub fn verify_current_link(o: &LinkObservation, expected: u128) -> (r: Result<(), Fault>)
    ensures
        agrees(r, crate::files::installed_link_fault(o@, generation_path(expected))),
{
    crate::files::verify_symlink(o, generation_directory(expected).as_str())
}

/// What brings the current link back in a rollback.
#[derive(Debug, Clone, Copy, PartialEq, Eq, Structural)]
pub enum CurrentRestoration {
    /// A first installation: the link and its temporary go.
    Remove,
    /// The link is back already: only its temporary goes.
    KeepPrevious,
    /// The temporary already leads to the previous generation: exchange them.
    Exchange,
    /// The link is replaced through a fresh temporary.
    Replace,
}

/// What brings the current link back in a rollback.
pub open spec fn current_restoration(
    r: RecordView,
    current: LinkView,
    temporary: LinkView,
) -> Result<CurrentRestoration, FaultView> {
    match r.previous {
        None => Ok(CurrentRestoration::Remove),
        Some(previous) => if leads_to(current, previous.id) {
            Ok(CurrentRestoration::KeepPrevious)
        } else if !leads_to(current, r.current.id) {
            Err(conflict_of("the current generation changed during rollback recovery"@))
        } else {
            match owned_link(
                temporary,
                generation_path(previous.id),
                "the rollback publication temporary changed ownership"@,
            ) {
                Ok(OwnedLink::Exact) => Ok(CurrentRestoration::Exchange),
                Ok(OwnedLink::Missing) => Ok(CurrentRestoration::Replace),
                Err(e) => Err(e),
            }
        },
    }
}

/// Decides how the current link comes back in a rollback.
pub fn restore_current_for_rollback(
    record: &InstallRecord,
    current: &LinkObservation,
    temporary: &LinkObservation,
) -> (r: Result<CurrentRestoration, Fault>)
    ensures
        result_view(r) == current_restoration(record@, current@, temporary@),
{
    match &record.previous {
        None => Ok(CurrentRestoration::Remove),
        Some(previous) => {
            if current_is(current, previous.id) {
                return Ok(CurrentRestoration::KeepPrevious);
            }
            if !current_is(current, record.current.id) {
                return Err(conflict("the current generation changed during rollback recovery"));
            }
            match classify_link(
                temporary,
                generation_directory(previous.id).as_str(),
                "the rollback publication temporary changed ownership",
            ) {
                Ok(OwnedLink::Exact) => Ok(CurrentRestoration::Exchange),
                Ok(OwnedLink::Missing) => Ok(CurrentRestoration::Replace),
                Err(e) => Err(e),
            }
        },
    }
}

/// Whether the current link of a removed generation stands and goes.
pub fn current_link_removal(o: &LinkObservation, expected: u128) -> (r: Result<OwnedLink, Fault>)
    ensures
        result_view(r) == owned_link(
            o@,
            generation_path(expected),
            "the Remap publication path changed ownership"@,
        ),
{
    classify_link(
        o,
        generation_directory(expected).as_str(),
        "the Remap publication path changed ownership",
    )
}

/// Whether the temporary of a given up publication stands and goes.
pub fn temporary_link_removal(o: &LinkObservation, expected: u128) -> (r: Result<OwnedLink, Fault>)
    ensures
        result_view(r) == owned_link(
            o@,
            generation_path(expected),
            "the rollback publication temporary changed ownership"@,
        ),
{
    classify_link(
        o,
        generation_directory(expected).as_str(),
        "the rollback publication temporary changed ownership",
    )
}

/// After the exchange the temporary must lead where the current link led; else
/// the exchange is undone and the replacement refused.
pub fn exchange_accepted(temporary: &LinkObservation, expected: u128) -> (r: Result<(), Fault>)
    ensures
        r is Ok <==> leads_to(temporary@, expected),
        r is Err ==> r->Err_0@ == conflict_of(
            "the current generation changed during atomic replacement"@,
        ),
{
    if current_is(temporary, expected) {
        Ok(())
    } else {
        Err(conflict("the current generation changed during atomic replacement"))
    }
}

// ---------------------------------------------------------------------------
// Laws
// ---------------------------------------------------------------------------

/// A link that leads to one generation leads to no other.
pub proof fn law_current_link_names_one_generation(o: LinkView, a: u128, b: u128)
    requires
        leads_to(o, a),
        leads_to(o, b),
    ensures
        a == b,
{
    let p = "/usr/libexec/remap/generations/"@;
    assert(p + uuid_text(a) == p + uuid_text(b));
    let n = p.len() as int;
    assert((p + uuid_text(a)).subrange(n, (p + uuid_text(a)).len() as int) =~= uuid_text(a));
    assert((p + uuid_text(b)).subrange(n, (p + uuid_text(b)).len() as int) =~= uuid_text(b));
    crate::digest::law_identity_text_is_injective(a, b);
}

/// A rollback restores the link of the previous generation or refuses: it never
/// replaces a link that leads to neither of the record's generations.
pub proof fn law_restoration_touches_only_owned_links(
    r: RecordView,
    current: LinkView,
    temporary: LinkView,
)
    requires
        current_restoration(r, current, temporary) matches Ok(plan) && (plan
            == CurrentRestoration::Exchange || plan == CurrentRestoration::Replace),
    ensures
        leads_to(current, r.current.id),
        r.previous is Some,
{
}

/// What leads the current link back is decided by where it leads: a first
/// installation has none left, one that leads to the previous generation is kept, one
/// that leads to the failed generation is exchanged with the link that is prepared
/// for the previous one or replaced where none is, and any other is refused.
pub proof fn law_current_link_is_led_back(r: RecordView, current: LinkView, temporary: LinkView)
    ensures
        ({
            let plan = current_restoration(r, current, temporary);
            &&& r.previous is None <==> plan == Ok::<CurrentRestoration, FaultView>(
                CurrentRestoration::Remove,
            )
            &&& r.previous is Some ==> {
                let previous = r.previous->0.id;
                &&& leads_to(current, previous) <==> plan == Ok::<CurrentRestoration, FaultView>(
                    CurrentRestoration::KeepPrevious,
                )
                &&& !leads_to(current, previous) && leads_to(current, r.current.id) && leads_to(
                    temporary,
                    previous,
                ) <==> plan == Ok::<CurrentRestoration, FaultView>(CurrentRestoration::Exchange)
                &&& !leads_to(current, previous) && leads_to(current, r.current.id) && (temporary
                    matches LinkView::Failed(e) && e.kind == crate::fault::FaultKind::NotFound)
                    <==> plan == Ok::<CurrentRestoration, FaultView>(CurrentRestoration::Replace)
                &&& !leads_to(current, previous) && !leads_to(current, r.current.id) ==> plan is Err
            }
        }),
{
}

} // verus!
