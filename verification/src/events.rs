//! Which signals of the bus report a change of the resolver, and how often such
//! reports are acted on.

use vstd::prelude::*;
use vstd::string::*;

use crate::fault::{invalid_data, invalid_of, Fault};
use crate::native::ResolverLinkManager;
use crate::order::{push_text, views};
use crate::text::{concat, decimal, number_text};

verus! {

/// How long a change is waited out, in milliseconds.
pub const EVENT_DEBOUNCE: u64 = 10;

/// How long two scans are apart at least, in milliseconds.
pub const EVENT_MIN_INTERVAL: u64 = 250;

/// How many signals are taken for one change at most.
pub const MAX_COALESCED_SIGNALS: usize = 64;

/// What a stream of signals reports.
#[derive(Debug, Clone, Copy, PartialEq, Eq, Structural)]
pub enum ResolverEvent {
    Changed,
    StreamUnavailable,
}

// ---------------------------------------------------------------------------
// The throttle
// ---------------------------------------------------------------------------

/// When a change was acted on last.
#[derive(Debug, Clone, Copy, PartialEq, Eq, Structural)]
pub struct EventThrottle {
    pub last_change: Option<u64>,
}

/// When a change that comes now is acted on.
pub open spec fn acted_on(t: EventThrottle, now: int) -> int {
    let debounced = now + EVENT_DEBOUNCE;
    match t.last_change {
        None => debounced,
        Some(last) => if last + EVENT_MIN_INTERVAL > debounced {
            last + EVENT_MIN_INTERVAL
        } else {
            debounced
        },
    }
}

impl EventThrottle {
    /// No change was acted on yet.
    pub fn unused() -> (r: EventThrottle)
        ensures
            r.last_change is None,
    {
        EventThrottle { last_change: None }
    }

    /// When a change that comes now is acted on.
    pub fn deadline(&self, now: u64) -> (r: u64)
        requires
            now + EVENT_DEBOUNCE <= u64::MAX,
            self.last_change is Some ==> self.last_change->0 + EVENT_MIN_INTERVAL <= u64::MAX,
        ensures
            r == acted_on(*self, now as int),
    {
        let debounced: u64 = now + EVENT_DEBOUNCE;
        match self.last_change {
            None => debounced,
            Some(last) => {
                let spaced: u64 = last + EVENT_MIN_INTERVAL;
                if spaced > debounced {
                    spaced
                } else {
                    debounced
                }
            },
        }
    }

    /// A change was acted on.
    pub fn record(&mut self, observed: u64)
        ensures
            final(self).last_change == Some(observed),
    {
        self.last_change = Some(observed);
    }
}

// ---------------------------------------------------------------------------
// Streams
// ---------------------------------------------------------------------------

/// What a stream of signals gives when it is asked.
#[derive(Debug, Clone, Copy, PartialEq, Eq, Structural)]
pub enum Polled {
    Message,
    Failed,
    Ended,
    /// Nothing for now.
    Quiet,
}

/// Taking signals in for one report.
#[derive(Debug, Clone, Copy, PartialEq, Eq, Structural)]
pub enum Coalescing {
    /// So many messages were taken in; the stream is asked again.
    Taken(usize),
    /// The report is made. After one that the stream is unavailable it is not
    /// asked again.
    Report(ResolverEvent),
}

/// What becomes of a report with what the stream gave next; the first is waited
/// for, and so is never quiet.
pub open spec fn coalesced(taken: int, p: Polled) -> Coalescing {
    match p {
        Polled::Message => if taken + 1 >= MAX_COALESCED_SIGNALS {
            Coalescing::Report(ResolverEvent::Changed)
        } else {
            Coalescing::Taken((taken + 1) as usize)
        },
        Polled::Quiet => if taken == 0 {
            Coalescing::Taken(0)
        } else {
            Coalescing::Report(ResolverEvent::Changed)
        },
        Polled::Failed | Polled::Ended => Coalescing::Report(ResolverEvent::StreamUnavailable),
    }
}

/// Takes in what the stream gave next, where so many messages were taken already.
pub fn coalesce(taken: usize, p: Polled) -> (r: Coalescing)
    requires
        taken < MAX_COALESCED_SIGNALS,
    ensures
        r == coalesced(taken as int, p),
{
    match p {
        Polled::Message => if taken + 1 >= MAX_COALESCED_SIGNALS {
            Coalescing::Report(ResolverEvent::Changed)
        } else {
            Coalescing::Taken(taken + 1)
        },
        Polled::Quiet => if taken == 0 {
            Coalescing::Taken(0)
        } else {
            Coalescing::Report(ResolverEvent::Changed)
        },
        Polled::Failed | Polled::Ended => Coalescing::Report(ResolverEvent::StreamUnavailable),
    }
}

/// The first report that a stream makes with what it gives, and how much of it
/// was taken in; there is none where more would have to come first.
pub open spec fn first_report(s: Seq<Polled>, taken: int, n: int) -> Option<(ResolverEvent, int)>
    decreases s.len() - n,
{
    if n < 0 || n >= s.len() {
        None
    } else {
        match coalesced(taken, s[n]) {
            Coalescing::Report(e) => Some((e, n + 1)),
            Coalescing::Taken(t) => first_report(s, t as int, n + 1),
        }
    }
}

/// How much of what a stream gives its first report takes in.
pub open spec fn taken_in(s: Seq<Polled>, taken: int, n: int) -> int {
    match first_report(s, taken, n) {
        Some((_, end)) => end,
        None => n,
    }
}

/// The first report that a stream makes with what it gives, and how much of it
/// was taken in.
pub fn forward(polled: &[Polled]) -> (r: Option<(ResolverEvent, usize)>)
    ensures
        match r {
            None => first_report(polled@, 0, 0) is None,
            Some((e, n)) => first_report(polled@, 0, 0) == Some((e, n as int)),
        },
{
    let count: usize = polled.len();
    let mut taken: usize = 0;
    let mut i: usize = 0;
    while i < count
        invariant
            i <= count,
            count == polled@.len(),
            taken < MAX_COALESCED_SIGNALS,
            first_report(polled@, 0, 0) == first_report(polled@, taken as int, i as int),
        decreases count - i,
    {
        match coalesce(taken, polled[i]) {
            Coalescing::Report(e) => {
                return Some((e, i + 1));
            },
            Coalescing::Taken(t) => {
                taken = t;
            },
        }
        i += 1;
    }
    None
}

// ---------------------------------------------------------------------------
// Rules
// ---------------------------------------------------------------------------

pub open spec fn resolved_service() -> Seq<char> {
    "org.freedesktop.resolve1"@
}

pub open spec fn networkd_service() -> Seq<char> {
    "org.freedesktop.network1"@
}

pub open spec fn network_manager_service() -> Seq<char> {
    "org.freedesktop.NetworkManager"@
}

pub open spec fn service_of(manager: Option<ResolverLinkManager>) -> Option<Seq<char>> {
    match manager {
        Some(ResolverLinkManager::SystemdResolved) => Some(resolved_service()),
        Some(ResolverLinkManager::SystemdNetworkd) => Some(networkd_service()),
        Some(ResolverLinkManager::NetworkManager) => Some(network_manager_service()),
        None => None,
    }
}

/// The bus name of a link's manager.
pub fn manager_service(manager: Option<ResolverLinkManager>) -> (r: Option<&'static str>)
    ensures
        crate::status::option_str(r) == service_of(manager),
{
    match manager {
        Some(ResolverLinkManager::SystemdResolved) => Some("org.freedesktop.resolve1"),
        Some(ResolverLinkManager::SystemdNetworkd) => Some("org.freedesktop.network1"),
        Some(ResolverLinkManager::NetworkManager) => Some("org.freedesktop.NetworkManager"),
        None => None,
    }
}

/// Whether the bus library takes these for a sender, an interface, a member and
/// an object path.
pub uninterp spec fn path_rule_accepted(
    sender: Seq<char>,
    interface: Seq<char>,
    member: Seq<char>,
    path: Seq<char>,
) -> bool;

/// Whether the bus library takes these for a sender, an interface, a member and
/// a first argument.
pub uninterp spec fn argument_rule_accepted(
    sender: Seq<char>,
    interface: Seq<char>,
    member: Seq<char>,
    argument: Seq<char>,
) -> bool;

/// The text that signal rules begin with.
pub open spec fn signal_rule(sender: Seq<char>, interface: Seq<char>, member: Seq<char>) -> Seq<
    char,
> {
    "type='signal',sender='"@ + sender + "',interface='"@ + interface + "',member='"@ + member
        + "'"@
}

/// Calls `zbus::MatchRule::builder` for signals of a sender's interface member
/// from one object path, and writes the rule that it builds. The builder checks
/// each name and the path; the text gives them in that order, each in quotes
/// behind its key.
#[verifier::external_body]
fn path_rule(sender: &str, interface: &str, member: &str, path: &str) -> (r: Option<String>)
    ensures
        r is Some <==> path_rule_accepted(sender@, interface@, member@, path@),
        r is Some ==> r->0@ == signal_rule(sender@, interface@, member@) + ",path='"@ + path@
            + "'"@,
{
    let builder = zbus::MatchRule::builder()
        .msg_type(zbus::message::Type::Signal)
        .sender(sender).ok()?
        .interface(interface).ok()?
        .member(member).ok()?
        .path(path).ok()?;
    Some(builder.build().to_string())
}

/// Calls `zbus::MatchRule::builder` for signals of a sender's interface member
/// with one first argument, and writes the rule that it builds. The builder
/// checks each name; the text gives them in that order, each in quotes behind
/// its key.
#[verifier::external_body]
fn argument_rule(sender: &str, interface: &str, member: &str, argument: &str) -> (r: Option<String>)
    ensures
        r is Some <==> argument_rule_accepted(sender@, interface@, member@, argument@),
        r is Some ==> r->0@ == signal_rule(sender@, interface@, member@) + ",arg0='"@ + argument@
            + "'"@,
{
    let builder = zbus::MatchRule::builder()
        .msg_type(zbus::message::Type::Signal)
        .sender(sender).ok()?
        .interface(interface).ok()?
        .member(member).ok()?
        .add_arg(argument).ok()?;
    Some(builder.build().to_string())
}

/// The object path of a link.
pub open spec fn link_path(link: u32) -> Seq<char> {
    "/org/freedesktop/resolve1/link/_"@ + decimal(link as nat)
}

pub open spec fn link_rule_accepted(link: u32) -> bool {
    path_rule_accepted(
        resolved_service(),
        "org.freedesktop.DBus.Properties"@,
        "PropertiesChanged"@,
        link_path(link),
    )
}

/// The rule for changes of a link's properties.
pub open spec fn link_rule_text(link: u32) -> Seq<char> {
    signal_rule(resolved_service(), "org.freedesktop.DBus.Properties"@, "PropertiesChanged"@)
        + ",path='"@ + link_path(link) + "'"@
}

pub open spec fn owner_rule_accepted(service: Seq<char>) -> bool {
    argument_rule_accepted(
        "org.freedesktop.DBus"@,
        "org.freedesktop.DBus"@,
        "NameOwnerChanged"@,
        service,
    )
}

/// The rule for changes of a service's owner.
pub open spec fn owner_rule_text(service: Seq<char>) -> Seq<char> {
    signal_rule("org.freedesktop.DBus"@, "org.freedesktop.DBus"@, "NameOwnerChanged"@) + ",arg0='"@
        + service + "'"@
}

fn owner_rule(service: &str) -> (r: Option<String>)
    ensures
        r is Some <==> owner_rule_accepted(service@),
        r is Some ==> r->0@ == owner_rule_text(service@),
{
    argument_rule("org.freedesktop.DBus", "org.freedesktop.DBus", "NameOwnerChanged", service)
}

/// Whether the manager of a link is another service than the resolver.
pub open spec fn has_other_manager(manager: Option<ResolverLinkManager>) -> bool {
    manager is Some && manager->0 != ResolverLinkManager::SystemdResolved
}

/// The rules that the changes of a link are watched with: its own properties,
/// the owner of the resolver's name, and that of its manager's where it is
/// another.
pub open spec fn rule_texts(link: u32, manager: Option<ResolverLinkManager>) -> Seq<Seq<char>> {
    let always = seq![link_rule_text(link), owner_rule_text(resolved_service())];
    if has_other_manager(manager) {
        always.push(owner_rule_text(service_of(manager)->0))
    } else {
        always
    }
}

pub open spec fn rules_accepted(link: u32, manager: Option<ResolverLinkManager>) -> bool {
    &&& link_rule_accepted(link)
    &&& owner_rule_accepted(resolved_service())
    &&& has_other_manager(manager) ==> owner_rule_accepted(service_of(manager)->0)
}

/// The rules that the changes of a link are watched with.
pub fn event_rules(link: u32, manager: Option<ResolverLinkManager>) -> (r: Result<
    Vec<String>,
    Fault,
>)
    ensures
        match r {
            Ok(v) => rules_accepted(link, manager) && views(v@) == rule_texts(link, manager),
            Err(e) => !rules_accepted(link, manager) && e@ == invalid_of(
                "the native resolver event rules are invalid"@,
            ),
        },
{
    let path = concat("/org/freedesktop/resolve1/link/_", number_text(link as u64).as_str());
    let first = match path_rule(
        "org.freedesktop.resolve1",
        "org.freedesktop.DBus.Properties",
        "PropertiesChanged",
        path.as_str(),
    ) {
        None => {
            return Err(invalid_data("the native resolver event rules are invalid"));
        },
        Some(rule) => rule,
    };
    let second = match owner_rule("org.freedesktop.resolve1") {
        None => {
            return Err(invalid_data("the native resolver event rules are invalid"));
        },
        Some(rule) => rule,
    };
    let mut rules: Vec<String> = Vec::new();
    rules.push(first);
    rules.push(second);
    proof {
        assert(views(rules@) =~= seq![
            link_rule_text(link),
            owner_rule_text(resolved_service()),
        ]);
    }
    let other = match manager {
        Some(ResolverLinkManager::SystemdResolved) => None,
        _ => manager_service(manager),
    };
    if let Some(service) = other {
        match owner_rule(service) {
            None => {
                return Err(invalid_data("the native resolver event rules are invalid"));
            },
            Some(rule) => {
                push_text(&mut rules, rule);
            },
        }
    }
    Ok(rules)
}

// ---------------------------------------------------------------------------
// Laws
// ---------------------------------------------------------------------------

/// However often changes come, two that are acted on are apart by the minimum,
/// and none is acted on before it was waited out.
pub proof fn law_scans_are_spaced(t: EventThrottle, now: int)
    requires
        t.last_change is Some,
    ensures
        acted_on(t, now) >= t.last_change->0 + EVENT_MIN_INTERVAL,
        acted_on(t, now) >= now + EVENT_DEBOUNCE,
{
}

proof fn lemma_report_bound(s: Seq<Polled>, taken: int, n: int)
    requires
        0 <= taken < MAX_COALESCED_SIGNALS,
        0 <= n <= s.len(),
        taken > 0 || n == 0 || s[0] != Polled::Quiet,
    ensures
        taken > 0 && first_report(s, taken, n) is Some ==> taken_in(s, taken, n) - n
            <= MAX_COALESCED_SIGNALS - taken,
        taken > 0 && s.len() - n >= MAX_COALESCED_SIGNALS - taken ==> first_report(s, taken, n)
            is Some,
    decreases s.len() - n,
{
    if taken > 0 && n < s.len() {
        match coalesced(taken, s[n]) {
            Coalescing::Report(_) => {},
            Coalescing::Taken(t) => {
                lemma_report_bound(s, t as int, n + 1);
            },
        }
    }
}

/// A stream that is always ready makes a report after a bounded number of
/// signals, and no report takes in more than that.
pub proof fn law_reports_are_bounded(s: Seq<Polled>)
    requires
        s.len() >= MAX_COALESCED_SIGNALS,
        s[0] == Polled::Message,
    ensures
        first_report(s, 0, 0) is Some,
        taken_in(s, 0, 0) <= MAX_COALESCED_SIGNALS,
{
    lemma_report_bound(s, 1, 1);
    assert(first_report(s, 0, 0) == first_report(s, 1, 1));
}

/// The end or the failure of a stream is always reported.
pub proof fn law_closure_is_reported(s: Seq<Polled>)
    requires
        s.len() > 0,
        s[0] == Polled::Ended || s[0] == Polled::Failed,
    ensures
        first_report(s, 0, 0) == Some((ResolverEvent::StreamUnavailable, 1int)),
{
}

} // verus!
