//! The upstream servers that a captured link gives the daemon.

use vstd::prelude::*;
use vstd::string::*;

use crate::address::{IpAddress, IpAddressView};
use crate::fault::{fault, Fault, FaultKind, FaultView};
use crate::order::views;
use crate::text::same;

verus! {

/// The port of a server that names none.
pub const DEFAULT_DNS_PORT: u16 = 53;

/// The largest number of upstream servers.
pub const MAX_UPSTREAMS: usize = 4;

/// A server of a captured link.
#[derive(Debug)]
pub struct DnsServer {
    pub address: IpAddress,
    pub port: u16,
    pub server_name: String,
}

/// An address and a port.
#[derive(Debug, PartialEq, Eq)]
pub struct SocketAddress {
    pub address: IpAddress,
    pub port: u16,
}

/// A server over plain values.
pub struct DnsServerView {
    pub address: IpAddressView,
    pub port: u16,
    pub server_name: Seq<char>,
}

impl View for DnsServer {
    type V = DnsServerView;

    open spec fn view(&self) -> DnsServerView {
        DnsServerView {
            address: self.address@,
            port: self.port,
            server_name: self.server_name@,
        }
    }
}

impl View for SocketAddress {
    type V = (IpAddressView, u16);

    open spec fn view(&self) -> (IpAddressView, u16) {
        (self.address@, self.port)
    }
}

/// Whether an address is the one that stands for none.
pub open spec fn is_unspecified(a: IpAddressView) -> bool {
    match a {
        IpAddressView::V4(b) => b[0] == 0 && b[1] == 0 && b[2] == 0 && b[3] == 0,
        IpAddressView::V6(g) => g[0] == 0 && g[1] == 0 && g[2] == 0 && g[3] == 0 && g[4] == 0 && g[5] == 0
            && g[6] == 0 && g[7] == 0,
    }
}

/// Whether an address is one of a group: 224.0.0.0/4 or ff00::/8.
pub open spec fn is_multicast(a: IpAddressView) -> bool {
    match a {
        IpAddressView::V4(b) => 224 <= b[0] <= 239,
        IpAddressView::V6(g) => g[0] >= 0xff00,
    }
}

/// Whether an address is one of the host itself: 127.0.0.0/8 or ::1.
pub open spec fn is_loopback(a: IpAddressView) -> bool {
    match a {
        IpAddressView::V4(b) => b[0] == 127,
        IpAddressView::V6(g) => g[0] == 0 && g[1] == 0 && g[2] == 0 && g[3] == 0 && g[4] == 0 && g[5] == 0
            && g[6] == 0 && g[7] == 1,
    }
}

pub open spec fn unsafe_upstream(a: IpAddressView) -> bool {
    is_unspecified(a) || is_multicast(a) || is_loopback(a)
}

fn is_unsafe(a: &IpAddress) -> (r: bool)
    ensures
        r == unsafe_upstream(a@),
{
    match a {
        IpAddress::V4(b) => {
            let unspecified = b[0] == 0 && b[1] == 0 && b[2] == 0 && b[3] == 0;
            unspecified || (224 <= b[0] && b[0] <= 239) || b[0] == 127
        },
        IpAddress::V6(g) => {
            let leading = g[0] == 0 && g[1] == 0 && g[2] == 0 && g[3] == 0 && g[4] == 0 && g[5] == 0
                && g[6] == 0;
            (leading && (g[7] == 0 || g[7] == 1)) || g[0] >= 0xff00
        },
    }
}

pub open spec fn unsupported_of(message: Seq<char>) -> FaultView {
    FaultView { kind: FaultKind::Unsupported, message }
}

/// The address under which a server is asked.
pub open spec fn forwarding_address(s: DnsServerView) -> Result<(IpAddressView, u16), FaultView> {
    if s.server_name.len() > 0 {
        Err(unsupported_of("DNS-over-TLS upstreams are not supported by this slice"@))
    } else if unsafe_upstream(s.address) {
        Err(unsupported_of("captured resolver upstream is unsafe for forwarding"@))
    } else {
        Ok(
            (
                s.address,
                if s.port == 0 {
                    DEFAULT_DNS_PORT
                } else {
                    s.port
                },
            ),
        )
    }
}

/// The addresses of the first `n` servers, or the first failure.
pub open spec fn forwarding_addresses(s: Seq<DnsServerView>, n: int) -> Result<
    Seq<(IpAddressView, u16)>,
    FaultView,
>
    decreases n,
{
    if n <= 0 {
        Ok(Seq::empty())
    } else {
        match forwarding_addresses(s, n - 1) {
            Err(e) => Err(e),
            Ok(before) => match forwarding_address(s[n - 1]) {
                Err(e) => Err(e),
                Ok(a) => Ok(before.push(a)),
            },
        }
    }
}

proof fn lemma_forwarding_fails(s: Seq<DnsServerView>, n: int, m: int)
    requires
        0 <= n <= m,
        forwarding_addresses(s, n) is Err,
    ensures
        forwarding_addresses(s, m) == forwarding_addresses(s, n),
    decreases m - n,
{
    if n < m {
        lemma_forwarding_fails(s, n, m - 1);
    }
}

/// The upstreams of a captured link, or why they cannot be used.
pub open spec fn upstreams_of(s: Seq<DnsServerView>) -> Result<Seq<(IpAddressView, u16)>, FaultView> {
    match forwarding_addresses(s, s.len() as int) {
        Err(e) => Err(e),
        Ok(v) => if v.len() == 0 || v.len() > MAX_UPSTREAMS {
            Err(unsupported_of("captured resolver upstream count is unsupported"@))
        } else {
            Ok(v)
        },
    }
}

pub(crate) fn copy_address(a: &IpAddress) -> (r: IpAddress)
    ensures
        r@ == a@,
{
    match a {
        IpAddress::V4(b) => {
            let c: [u8; 4] = [b[0], b[1], b[2], b[3]];
            proof {
                assert(c@ =~= b@);
            }
            IpAddress::V4(c)
        },
        IpAddress::V6(g) => {
            let c: [u16; 8] = [g[0], g[1], g[2], g[3], g[4], g[5], g[6], g[7]];
            proof {
                assert(c@ =~= g@);
            }
            IpAddress::V6(c)
        },
    }
}

fn upstream(s: &DnsServer) -> (r: Result<SocketAddress, Fault>)
    ensures
        match r {
            Ok(a) => forwarding_address(s@) == Ok::<(IpAddressView, u16), FaultView>(a@),
            Err(e) => forwarding_address(s@) == Err::<(IpAddressView, u16), FaultView>(e@),
        },
{
    proof {
        reveal_strlit("");
        if s.server_name@.len() == 0 {
            assert(s.server_name@ =~= ""@);
        }
    }
    if !same(s.server_name.as_str(), "") {
        return Err(
            fault(
                FaultKind::Unsupported,
                "DNS-over-TLS upstreams are not supported by this slice",
            ),
        );
    }
    if is_unsafe(&s.address) {
        return Err(
            fault(FaultKind::Unsupported, "captured resolver upstream is unsafe for forwarding"),
        );
    }
    let port: u16 = if s.port == 0 {
        DEFAULT_DNS_PORT
    } else {
        s.port
    };
    Ok(SocketAddress { address: copy_address(&s.address), port })
}

/// The upstreams of a captured link.
pub fn upstreams(servers: &Vec<DnsServer>) -> (r: Result<Vec<SocketAddress>, Fault>)
    ensures
        match r {
            Ok(v) => upstreams_of(views(servers@)) == Ok::<Seq<(IpAddressView, u16)>, FaultView>(
                views(v@),
            ),
            Err(e) => upstreams_of(views(servers@)) == Err::<Seq<(IpAddressView, u16)>, FaultView>(e@),
        },
{
    let ghost sv = views(servers@);
    let mut v: Vec<SocketAddress> = Vec::new();
    let mut i: usize = 0;
    proof {
        assert(views(v@) =~= Seq::<(IpAddressView, u16)>::empty());
    }
    while i < servers.len()
        invariant
            i <= servers@.len(),
            sv == views(servers@),
            forwarding_addresses(sv, i as int) == Ok::<Seq<(IpAddressView, u16)>, FaultView>(views(v@)),
        decreases servers@.len() - i,
    {
        proof {
            assert(sv[i as int] == servers@[i as int]@);
        }
        match upstream(&servers[i]) {
            Err(e) => {
                proof {
                    lemma_forwarding_fails(sv, i as int + 1, sv.len() as int);
                }
                return Err(e);
            },
            Ok(a) => {
                let ghost before = views(v@);
                v.push(a);
                proof {
                    assert(views(v@) =~= before.push(a@));
                }
            },
        }
        i += 1;
    }
    proof {
        assert(views(v@).len() == v@.len());
    }
    if v.len() == 0 || v.len() > MAX_UPSTREAMS {
        return Err(
            fault(FaultKind::Unsupported, "captured resolver upstream count is unsupported"),
        );
    }
    Ok(v)
}

// ---------------------------------------------------------------------------
// Laws
// ---------------------------------------------------------------------------

/// No address of the host itself is ever forwarded to, so that the daemon never
/// asks itself.
pub proof fn law_forwarding_never_loops(s: Seq<DnsServerView>, i: int)
    requires
        upstreams_of(s) is Ok,
        0 <= i < upstreams_of(s)->Ok_0.len(),
    ensures
        !is_loopback(upstreams_of(s)->Ok_0[i].0),
        !is_unspecified(upstreams_of(s)->Ok_0[i].0),
        upstreams_of(s)->Ok_0[i].1 != 0,
        upstreams_of(s)->Ok_0.len() == s.len(),
{
    lemma_forwarded(s, s.len() as int);
}

proof fn lemma_forwarded(s: Seq<DnsServerView>, n: int)
    requires
        0 <= n,
        forwarding_addresses(s, n) is Ok,
    ensures
        forwarding_addresses(s, n)->Ok_0.len() == n,
        forall|k: int|
            0 <= k < n ==> {
                let a = #[trigger] forwarding_addresses(s, n)->Ok_0[k];
                !is_loopback(a.0) && !is_unspecified(a.0) && a.1 != 0
            },
    decreases n,
{
    if n > 0 {
        lemma_forwarded(s, n - 1);
        let before = forwarding_addresses(s, n - 1)->Ok_0;
        let v = forwarding_addresses(s, n)->Ok_0;
        assert forall|k: int| 0 <= k < n implies {
            let a = #[trigger] v[k];
            !is_loopback(a.0) && !is_unspecified(a.0) && a.1 != 0
        } by {
            if k < n - 1 {
                assert(v[k] == before[k]);
            }
        }
    }
}

proof fn lemma_each_forwarded(s: Seq<DnsServerView>, n: int)
    requires
        0 <= n <= s.len(),
    ensures
        forwarding_addresses(s, n) is Ok <==> forall|k: int|
            0 <= k < n ==> forwarding_address(#[trigger] s[k]) is Ok,
        forwarding_addresses(s, n) is Ok ==> {
            let v = forwarding_addresses(s, n)->Ok_0;
            v.len() == n && forall|k: int|
                0 <= k < n ==> (#[trigger] v[k]) == forwarding_address(s[k])->Ok_0
        },
    decreases n,
{
    if n > 0 {
        lemma_each_forwarded(s, n - 1);
        if forwarding_addresses(s, n) is Ok {
            let before = forwarding_addresses(s, n - 1)->Ok_0;
            let v = forwarding_addresses(s, n)->Ok_0;
            assert forall|k: int| 0 <= k < n implies (#[trigger] v[k]) == forwarding_address(
                s[k],
            )->Ok_0 by {
                if k < n - 1 {
                    assert(v[k] == before[k]);
                }
            }
            assert forall|k: int| 0 <= k < n implies forwarding_address(#[trigger] s[k]) is Ok by {
                if k < n - 1 {
                    assert(forwarding_address(s[k]) is Ok);
                }
            }
        } else if forall|k: int| 0 <= k < n ==> forwarding_address(#[trigger] s[k]) is Ok {
            assert(forwarding_address(s[n - 1]) is Ok);
        }
    }
}

/// The upstreams are the servers of the link, each in its place, at its port or the
/// one of the protocol; they are taken exactly where there are one to four of them
/// and all can be asked without leading back: plain ones, none of the host itself, of
/// a group or of no host at all.
pub proof fn law_upstreams_are_the_servers_of_the_link(s: Seq<DnsServerView>)
    ensures
        upstreams_of(s) is Ok <==> {
            &&& 1 <= s.len() <= 4
            &&& forall|i: int|
                0 <= i < s.len() ==> (#[trigger] s[i]).server_name.len() == 0 && !is_loopback(
                    s[i].address,
                ) && !is_unspecified(s[i].address) && !is_multicast(s[i].address)
        },
        upstreams_of(s) is Ok ==> {
            let v = upstreams_of(s)->Ok_0;
            &&& v.len() == s.len()
            &&& forall|i: int|
                0 <= i < s.len() ==> (#[trigger] v[i]).0 == s[i].address && v[i].1 == (if s[i].port
                    == 0 {
                    53
                } else {
                    s[i].port
                })
        },
{
    lemma_each_forwarded(s, s.len() as int);
    assert forall|i: int| 0 <= i < s.len() implies (forwarding_address(#[trigger] s[i]) is Ok
        <==> s[i].server_name.len() == 0 && !is_loopback(s[i].address) && !is_unspecified(
        s[i].address,
    ) && !is_multicast(s[i].address)) by {}
    if upstreams_of(s) is Ok {
        assert forall|i: int| 0 <= i < s.len() implies (#[trigger] s[i]).server_name.len() == 0
            && !is_loopback(s[i].address) && !is_unspecified(s[i].address) && !is_multicast(
            s[i].address,
        ) by {
            assert(forwarding_address(s[i]) is Ok);
        }
    } else if 1 <= s.len() <= 4 && (forall|i: int|
        0 <= i < s.len() ==> (#[trigger] s[i]).server_name.len() == 0 && !is_loopback(s[i].address)
            && !is_unspecified(s[i].address) && !is_multicast(s[i].address)) {
        assert forall|k: int| 0 <= k < s.len() implies forwarding_address(#[trigger] s[k]) is Ok by {
            assert(s[k].server_name.len() == 0);
        }
    }
}

} // verus!
