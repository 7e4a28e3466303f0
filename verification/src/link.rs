//! What is configured on a link, to be compared with what is configured later.

use vstd::prelude::*;
use vstd::string::*;

use crate::order::views;
use crate::stability::Observed;
use crate::text::{copy, same};
use crate::upstreams::{copy_address, DnsServer, DnsServerView};

verus! {

/// A domain of a link.
#[derive(Debug)]
pub struct LinkDomain {
    pub name: String,
    pub route_only: bool,
}

impl View for LinkDomain {
    type V = (Seq<char>, bool);

    open spec fn view(&self) -> (Seq<char>, bool) {
        (self.name@, self.route_only)
    }
}

/// What is configured on a link.
#[derive(Debug)]
pub struct LinkState {
    pub link: u32,
    pub dns: Vec<DnsServer>,
    pub domains: Vec<LinkDomain>,
    pub default_route: bool,
}

/// What is configured on a link, over plain values.
pub struct LinkStateView {
    pub link: u32,
    pub dns: Seq<DnsServerView>,
    pub domains: Seq<(Seq<char>, bool)>,
    pub default_route: bool,
}

impl View for LinkState {
    type V = LinkStateView;

    open spec fn view(&self) -> LinkStateView {
        LinkStateView {
            link: self.link,
            dns: views(self.dns@),
            domains: views(self.domains@),
            default_route: self.default_route,
        }
    }
}

impl Observed for LinkDomain {
    fn same_as(&self, other: &LinkDomain) -> (r: bool) {
        same(self.name.as_str(), other.name.as_str()) && self.route_only == other.route_only
    }

    fn duplicate(&self) -> (r: LinkDomain) {
        LinkDomain { name: copy(self.name.as_str()), route_only: self.route_only }
    }
}

impl Observed for DnsServer {
    fn same_as(&self, other: &DnsServer) -> (r: bool) {
        self.address.same_as(&other.address) && self.port == other.port && same(
            self.server_name.as_str(),
            other.server_name.as_str(),
        )
    }

    fn duplicate(&self) -> (r: DnsServer) {
        DnsServer {
            address: copy_address(&self.address),
            port: self.port,
            server_name: copy(self.server_name.as_str()),
        }
    }
}

fn same_all<T: Observed>(a: &Vec<T>, b: &Vec<T>) -> (r: bool)
    ensures
        r == (views(a@) == views(b@)),
{
    if a.len() != b.len() {
        proof {
            assert(views(a@).len() != views(b@).len());
        }
        return false;
    }
    let mut i: usize = 0;
    while i < a.len()
        invariant
            0 <= i <= a@.len() == b@.len(),
            forall|j: int| 0 <= j < i ==> #[trigger] a@[j]@ == b@[j]@,
        decreases a@.len() - i,
    {
        if !a[i].same_as(&b[i]) {
            proof {
                assert(views(a@)[i as int] != views(b@)[i as int]);
            }
            return false;
        }
        i += 1;
    }
    proof {
        assert(views(a@) =~= views(b@));
    }
    true
}

fn duplicate_all<T: Observed>(a: &Vec<T>) -> (r: Vec<T>)
    ensures
        views(r@) == views(a@),
{
    let mut r: Vec<T> = Vec::new();
    let mut i: usize = 0;
    while i < a.len()
        invariant
            0 <= i <= a@.len(),
            r@.len() == i,
            forall|j: int| 0 <= j < i ==> #[trigger] r@[j]@ == a@[j]@,
        decreases a@.len() - i,
    {
        r.push(a[i].duplicate());
        i += 1;
    }
    proof {
        assert(views(r@) =~= views(a@));
    }
    r
}

impl Observed for LinkState {
    fn same_as(&self, other: &LinkState) -> (r: bool) {
        self.link == other.link && same_all(&self.dns, &other.dns) && same_all(
            &self.domains,
            &other.domains,
        ) && self.default_route == other.default_route
    }

    fn duplicate(&self) -> (r: LinkState) {
        LinkState {
            link: self.link,
            dns: duplicate_all(&self.dns),
            domains: duplicate_all(&self.domains),
            default_route: self.default_route,
        }
    }
}

} // verus!
