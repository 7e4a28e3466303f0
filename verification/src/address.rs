//! IPv4 and IPv6 addresses and their textual forms.

use vstd::prelude::*;
use vstd::string::*;

use crate::text::{
    all_digits, begins, chars, concat3, copy, decimal, decimal_value, digit, find_text, first_match,
    from, is_digit, join, lemma_decimal, lemma_decimal_value, lemma_first_index, lemma_first_match,
    lemma_first_match_is, lemma_join_splits, lemma_split, number_text, occurs, read_number, slice,
    split, split_text, texts,
};

verus! {

/// An IPv4 or IPv6 address.
#[derive(Debug, Clone, Copy, PartialEq, Eq, Hash)]
pub enum IpAddress {
    /// Four octets, the most significant first.
    V4([u8; 4]),
    /// Eight 16-bit groups, the most significant first.
    V6([u16; 8]),
}

/// An address as plain sequences.
pub enum IpAddressView {
    V4(Seq<u8>),
    V6(Seq<u16>),
}

impl View for IpAddress {
    type V = IpAddressView;

    open spec fn view(&self) -> IpAddressView {
        match self {
            IpAddress::V4(octets) => IpAddressView::V4(octets@),
            IpAddress::V6(groups) => IpAddressView::V6(groups@),
        }
    }
}

impl IpAddressView {
    pub open spec fn well_formed(self) -> bool {
        match self {
            IpAddressView::V4(octets) => octets.len() == 4,
            IpAddressView::V6(groups) => groups.len() == 8,
        }
    }
}

// ---------------------------------------------------------------------------
// Reading
// ---------------------------------------------------------------------------

/// The number that one part of a dotted address writes: one to three decimal
/// digits without a leading zero, at most 255.
pub open spec fn octet_value(s: Seq<char>) -> Option<u8> {
    if s.len() >= 1 && all_digits(s) && (s.len() > 1 ==> s[0] != '0') && decimal_value(s) <= 255 {
        Some(decimal_value(s) as u8)
    } else {
        None
    }
}

/// The octets of a dotted IPv4 address.
pub open spec fn ipv4_value(s: Seq<char>) -> Option<Seq<u8>> {
    let parts = split(s, '.');
    if parts.len() == 4 && octet_value(parts[0]) is Some && octet_value(parts[1]) is Some
        && octet_value(parts[2]) is Some && octet_value(parts[3]) is Some {
        Some(
            seq![
                octet_value(parts[0])->0,
                octet_value(parts[1])->0,
                octet_value(parts[2])->0,
                octet_value(parts[3])->0,
            ],
        )
    } else {
        None
    }
}

pub open spec fn is_hex(c: char) -> bool {
    is_digit(c) || 'a' <= c <= 'f' || 'A' <= c <= 'F'
}

pub open spec fn hex_value(c: char) -> nat {
    if is_digit(c) {
        (c as u32 - 48) as nat
    } else if 'a' <= c <= 'f' {
        (c as u32 - 87) as nat
    } else {
        (c as u32 - 55) as nat
    }
}

/// The number that hexadecimal digits write.
pub open spec fn hex_number(s: Seq<char>) -> nat
    decreases s.len(),
{
    if s.len() == 0 {
        0
    } else {
        hex_number(s.drop_last()) * 16 + hex_value(s.last())
    }
}

/// The value of one group of an IPv6 address: one to four hexadecimal digits.
pub open spec fn group_value(s: Seq<char>) -> Option<u16> {
    if 1 <= s.len() <= 4 && (forall|i: int| 0 <= i < s.len() ==> is_hex(#[trigger] s[i])) {
        Some(hex_number(s) as u16)
    } else {
        None
    }
}

/// The groups that two pairs of octets make.
pub open spec fn octet_groups(o: Seq<u8>) -> Seq<u16> {
    seq![(o[0] * 256 + o[1]) as u16, (o[2] * 256 + o[3]) as u16]
}

/// The groups that colon-separated parts write; the last part may be a dotted
/// IPv4 address where `dotted` allows it, and then stands for two groups.
pub open spec fn groups_of(parts: Seq<Seq<char>>, dotted: bool) -> Option<Seq<u16>>
    decreases parts.len(),
{
    if parts.len() == 0 {
        Some(Seq::empty())
    } else if dotted && parts.len() == 1 && ipv4_value(parts[0]) is Some {
        Some(octet_groups(ipv4_value(parts[0])->0))
    } else {
        match (group_value(parts[0]), groups_of(parts.drop_first(), dotted)) {
            (Some(g), Some(rest)) => Some(seq![g] + rest),
            _ => None,
        }
    }
}

pub open spec fn groups_value(s: Seq<char>, dotted: bool) -> Option<Seq<u16>> {
    if s.len() == 0 {
        Some(Seq::empty())
    } else {
        groups_of(split(s, ':'), dotted)
    }
}

/// A run of zero groups.
pub open spec fn zeros(n: int) -> Seq<u16> {
    Seq::new(n as nat, |i: int| 0u16)
}

/// The groups of an IPv6 address: eight of them, or fewer with one `::` that
/// stands for one or more zero groups.
pub open spec fn ipv6_value(s: Seq<char>) -> Option<Seq<u16>> {
    let p = seq![':', ':'];
    if occurs(s, p) {
        let i = first_match(s, p);
        match (groups_value(s.subrange(0, i), false), groups_value(from(s, i + 2), true)) {
            (Some(head), Some(tail)) => if head.len() + tail.len() <= 7 {
                Some(head + zeros(8 - head.len() - tail.len()) + tail)
            } else {
                None
            },
            _ => None,
        }
    } else {
        match groups_value(s, true) {
            Some(groups) => if groups.len() == 8 {
                Some(groups)
            } else {
                None
            },
            None => None,
        }
    }
}

/// The address that a text writes, IPv4 or IPv6.
pub open spec fn address_value(s: Seq<char>) -> Option<IpAddressView> {
    match ipv4_value(s) {
        Some(octets) => Some(IpAddressView::V4(octets)),
        None => match ipv6_value(s) {
            Some(groups) => Some(IpAddressView::V6(groups)),
            None => None,
        },
    }
}

// ---------------------------------------------------------------------------
// Writing
// ---------------------------------------------------------------------------

pub open spec fn octet_texts(o: Seq<u8>) -> Seq<Seq<char>> {
    Seq::new(o.len(), |i: int| decimal(o[i] as nat))
}

/// The dotted form of an IPv4 address.
pub open spec fn ipv4_text(o: Seq<u8>) -> Seq<char> {
    join(octet_texts(o), '.')
}

pub open spec fn hex_digit(d: nat) -> char {
    if d < 10 {
        digit(d)
    } else {
        (87 + d) as char
    }
}

/// The lower-case hexadecimal form of a number, without leading zeros.
pub open spec fn hex(n: nat) -> Seq<char>
    decreases n,
{
    if n < 16 {
        seq![hex_digit(n)]
    } else {
        hex(n / 16).push(hex_digit(n % 16))
    }
}

pub open spec fn group_texts(g: Seq<u16>) -> Seq<Seq<char>> {
    Seq::new(g.len(), |i: int| hex(g[i] as nat))
}

pub open spec fn groups_text(g: Seq<u16>) -> Seq<char> {
    join(group_texts(g), ':')
}

/// The length of the run of zero groups that begins at `i`.
pub open spec fn zero_run(g: Seq<u16>, i: int) -> int
    decreases g.len() - i,
{
    if 0 <= i < g.len() && g[i] == 0 {
        1 + zero_run(g, i + 1)
    } else {
        0
    }
}

/// The first of the longest zero runs that begin before `n`.
pub open spec fn longest_run(g: Seq<u16>, n: int) -> int
    decreases n,
{
    if n <= 1 {
        0
    } else {
        let best = longest_run(g, n - 1);
        if zero_run(g, n - 1) > zero_run(g, best) {
            n - 1
        } else {
            best
        }
    }
}

pub open spec fn is_mapped(g: Seq<u16>) -> bool {
    g[0] == 0 && g[1] == 0 && g[2] == 0 && g[3] == 0 && g[4] == 0 && g[5] == 0xffff
}

pub open spec fn group_octets(high: u16, low: u16) -> Seq<u8> {
    seq![(high / 256) as u8, (high % 256) as u8, (low / 256) as u8, (low % 256) as u8]
}

/// The canonical form of an IPv6 address: a mapped IPv4 address keeps its
/// dotted part, else the first longest run of two or more zero groups is
/// written as `::`.
pub open spec fn ipv6_text(g: Seq<u16>) -> Seq<char> {
    let start = longest_run(g, 8);
    let length = zero_run(g, start);
    if is_mapped(g) {
        seq![':', ':', 'f', 'f', 'f', 'f', ':'] + ipv4_text(group_octets(g[6], g[7]))
    } else if length > 1 {
        groups_text(g.subrange(0, start)) + seq![':', ':'] + groups_text(
            g.subrange(start + length, 8),
        )
    } else {
        groups_text(g)
    }
}

pub open spec fn address_text(a: IpAddressView) -> Seq<char> {
    match a {
        IpAddressView::V4(octets) => ipv4_text(octets),
        IpAddressView::V6(groups) => ipv6_text(groups),
    }
}

// ---------------------------------------------------------------------------
// Executable reading
// ---------------------------------------------------------------------------

fn parse_octet(s: &str) -> (r: Option<u8>)
    ensures
        r == octet_value(s@),
{
    let v = chars(s);
    proof {
        assert(v@.subrange(0, v@.len() as int) =~= v@);
    }
    if v.len() > 1 && v[0] == '0' {
        return None;
    }
    match read_number(&v, 0, v.len(), 255) {
        Some(n) => Some(n as u8),
        None => None,
    }
}

/// Reads a dotted IPv4 address.
pub fn parse_ipv4(s: &str) -> (r: Option<[u8; 4]>)
    ensures
        r is Some <==> ipv4_value(s@) is Some,
        r is Some ==> r->0@ == ipv4_value(s@)->0,
{
    let parts = split_text(s, '.');
    let ghost model = split(s@, '.');
    proof {
        assert(texts(parts@).len() == model.len());
        assert(forall|i: int| 0 <= i < parts@.len() ==> parts@[i]@ == #[trigger] texts(parts@)[i]);
    }
    if parts.len() != 4 {
        return None;
    }
    proof {
        assert(parts@[0]@ == model[0]);
        assert(parts@[1]@ == model[1]);
        assert(parts@[2]@ == model[2]);
        assert(parts@[3]@ == model[3]);
    }
    match (
        parse_octet(parts[0].as_str()),
        parse_octet(parts[1].as_str()),
        parse_octet(parts[2].as_str()),
        parse_octet(parts[3].as_str()),
    ) {
        (Some(a), Some(b), Some(c), Some(d)) => {
            let r = [a, b, c, d];
            proof {
                assert(r@ =~= ipv4_value(s@)->0);
            }
            Some(r)
        },
        _ => None,
    }
}

fn parse_group(s: &str) -> (r: Option<u16>)
    ensures
        r == group_value(s@),
{
    let v = chars(s);
    if v.len() == 0 || v.len() > 4 {
        return None;
    }
    let mut value: u32 = 0;
    let mut bound: u32 = 1;
    let mut i: usize = 0;
    proof {
        assert(s@.subrange(0, 0) =~= Seq::<char>::empty());
    }
    while i < v.len()
        invariant
            v@ == s@,
            i <= v@.len() <= 4,
            i == 0 ==> bound == 1,
            i == 1 ==> bound == 16,
            i == 2 ==> bound == 256,
            i == 3 ==> bound == 4096,
            i == 4 ==> bound == 65536,
            value < bound,
            value == hex_number(s@.subrange(0, i as int)),
            forall|k: int| 0 <= k < i ==> is_hex(#[trigger] s@[k]),
        decreases v@.len() - i,
    {
        let c = v[i];
        let d: u32 = if '0' <= c && c <= '9' {
            c as u32 - 48
        } else if 'a' <= c && c <= 'f' {
            c as u32 - 87
        } else if 'A' <= c && c <= 'F' {
            c as u32 - 55
        } else {
            proof {
                assert(!is_hex(s@[i as int]));
            }
            return None;
        };
        proof {
            assert(s@.subrange(0, i as int + 1).drop_last() =~= s@.subrange(0, i as int));
        }
        value = value * 16 + d;
        bound = bound * 16;
        i += 1;
    }
    proof {
        assert(s@.subrange(0, s@.len() as int) =~= s@);
    }
    Some(value as u16)
}

fn parse_groups(s: &str, dotted: bool) -> (r: Option<Vec<u16>>)
    ensures
        r is Some <==> groups_value(s@, dotted) is Some,
        r is Some ==> r->0@ == groups_value(s@, dotted)->0,
{
    let mut groups: Vec<u16> = Vec::new();
    if s.is_empty() {
        return Some(groups);
    }
    let parts = split_text(s, ':');
    let ghost model = split(s@, ':');
    let ghost whole = groups_of(model, dotted);
    let mut i: usize = 0;
    proof {
        assert(model.subrange(0, model.len() as int) =~= model);
        if whole is Some {
            assert(groups@ + whole->0 =~= whole->0);
        }
    }
    while i < parts.len()
        invariant
            texts(parts@) == model,
            whole == groups_of(model, dotted),
            whole == groups_value(s@, dotted),
            i <= parts@.len(),
            whole is Some <==> groups_of(model.subrange(i as int, model.len() as int), dotted) is Some,
            whole is Some ==> whole->0 == groups@ + groups_of(
                model.subrange(i as int, model.len() as int),
                dotted,
            )->0,
        decreases parts@.len() - i,
    {
        let ghost rest = model.subrange(i as int, model.len() as int);
        proof {
            assert(texts(parts@).len() == parts@.len());
            assert(rest[0] == model[i as int]);
            assert(texts(parts@)[i as int] == parts@[i as int]@);
            assert(rest.drop_first() =~= model.subrange(i as int + 1, model.len() as int));
        }
        if dotted && i + 1 == parts.len() {
            if let Some(octets) = parse_ipv4(parts[i].as_str()) {
                proof {
                    assert(ipv4_value(rest[0]) is Some);
                    assert(octets@ == ipv4_value(rest[0])->0);
                }
                let ghost before = groups@;
                groups.push(octets[0] as u16 * 256 + octets[1] as u16);
                groups.push(octets[2] as u16 * 256 + octets[3] as u16);
                proof {
                    assert(groups@ =~= before + octet_groups(octets@));
                }
                return Some(groups);
            }
        }
        match parse_group(parts[i].as_str()) {
            None => {
                return None;
            },
            Some(g) => {
                let ghost before = groups@;
                groups.push(g);
                proof {
                    let tail = groups_of(rest.drop_first(), dotted);
                    if tail is Some {
                        assert(groups_of(rest, dotted)->0 == seq![g] + tail->0);
                        assert(before + (seq![g] + tail->0) =~= groups@ + tail->0);
                    }
                }
            },
        }
        i += 1;
    }
    proof {
        let rest = model.subrange(i as int, model.len() as int);
        assert(rest =~= Seq::<Seq<char>>::empty());
        assert(groups@ + Seq::<u16>::empty() =~= groups@);
    }
    Some(groups)
}

/// Reads an IPv6 address.
pub fn parse_ipv6(s: &str) -> (r: Option<[u16; 8]>)
    ensures
        r is Some <==> ipv6_value(s@) is Some,
        r is Some ==> r->0@ == ipv6_value(s@)->0,
{
    let v = chars(s);
    let count: usize = v.len();
    let p = [':', ':'];
    proof {
        assert(p@ =~= seq![':', ':']);
    }
    match find_text(&v, &p) {
        None => match parse_groups(s, true) {
            None => None,
            Some(groups) => {
                if groups.len() != 8 {
                    None
                } else {
                    let r = [
                        groups[0], groups[1], groups[2], groups[3], groups[4], groups[5],
                        groups[6], groups[7],
                    ];
                    proof {
                        assert(r@ =~= groups@);
                    }
                    Some(r)
                }
            },
        },
        Some(i) => {
            let head_text = slice(&v, 0, i);
            let tail_text = slice(&v, i + 2, count);
            match (parse_groups(head_text.as_str(), false), parse_groups(tail_text.as_str(), true)) {
                (Some(head), Some(tail)) => {
                    if head.len() > 7 || tail.len() > 7 - head.len() {
                        return None;
                    }
                    let mut r: [u16; 8] = [0, 0, 0, 0, 0, 0, 0, 0];
                    let mut k: usize = 0;
                    while k < head.len()
                        invariant
                            k <= head@.len() <= 7,
                            r@.len() == 8,
                            forall|j: int| 0 <= j < k ==> r@[j] == head@[j],
                            forall|j: int| k <= j < 8 ==> r@[j] == 0,
                        decreases head@.len() - k,
                    {
                        r[k] = head[k];
                        k += 1;
                    }
                    let first: usize = 8 - tail.len();
                    let mut m: usize = 0;
                    while m < tail.len()
                        invariant
                            m <= tail@.len(),
                            tail@.len() <= 7 - head@.len(),
                            head@.len() <= 7,
                            first == 8 - tail@.len(),
                            r@.len() == 8,
                            forall|j: int| 0 <= j < head@.len() ==> r@[j] == head@[j],
                            forall|j: int| head@.len() <= j < first ==> r@[j] == 0,
                            forall|j: int| first <= j < first + m ==> r@[j] == tail@[j - first],
                        decreases tail@.len() - m,
                    {
                        r[first + m] = tail[m];
                        m += 1;
                    }
                    proof {
                        let middle = zeros(8 - head@.len() - tail@.len());
                        assert(r@ =~= head@ + middle + tail@);
                    }
                    Some(r)
                },
                _ => None,
            }
        },
    }
}

/// Reads an address, IPv4 or IPv6.
pub fn parse_address(s: &str) -> (r: Option<IpAddress>)
    ensures
        r is Some <==> address_value(s@) is Some,
        r is Some ==> r->0@ == address_value(s@)->0,
{
    match parse_ipv4(s) {
        Some(octets) => Some(IpAddress::V4(octets)),
        None => match parse_ipv6(s) {
            Some(groups) => Some(IpAddress::V6(groups)),
            None => None,
        },
    }
}

// ---------------------------------------------------------------------------
// Executable writing
// ---------------------------------------------------------------------------

fn octets_text(o: &[u8; 4]) -> (s: String)
    ensures
        s@ == ipv4_text(o@),
{
    let mut s = number_text(o[0] as u64);
    s.push('.');
    s.append(number_text(o[1] as u64).as_str());
    s.push('.');
    s.append(number_text(o[2] as u64).as_str());
    s.push('.');
    s.append(number_text(o[3] as u64).as_str());
    proof {
        let p = octet_texts(o@);
        let q = p.drop_first();
        let r = q.drop_first();
        let t = r.drop_first();
        assert(t[0] == p[3]);
        assert(join(t, '.') == p[3]);
        assert(join(r, '.') == p[2] + seq!['.'] + p[3]);
        assert(join(q, '.') == p[1] + seq!['.'] + join(r, '.'));
        assert(join(p, '.') == p[0] + seq!['.'] + join(q, '.'));
        assert(s@ =~= join(p, '.'));
    }
    s
}

fn hex_text(n: u16) -> (s: String)
    ensures
        s@ == hex(n as nat),
    decreases n,
{
    let d: u8 = (n % 16) as u8;
    let c: char = if d < 10 {
        (48 + d) as char
    } else {
        (87 + d) as char
    };
    if n < 16 {
        let mut s: String = String::new();
        s.push(c);
        proof {
            assert(s@ =~= hex(n as nat));
        }
        s
    } else {
        let mut s = hex_text(n / 16);
        s.push(c);
        s
    }
}

/// Joining one more piece at the end.
proof fn lemma_join_push(parts: Seq<Seq<char>>, last: Seq<char>, c: char)
    requires
        parts.len() >= 1,
    ensures
        join(parts.push(last), c) == join(parts, c) + seq![c] + last,
    decreases parts.len(),
{
    let all = parts.push(last);
    if parts.len() == 1 {
        assert(all.drop_first() =~= seq![last]);
        assert(join(all.drop_first(), c) == last);
    } else {
        assert(all.drop_first() =~= parts.drop_first().push(last));
        lemma_join_push(parts.drop_first(), last, c);
        assert(join(all, c) =~= join(parts, c) + seq![c] + last);
    }
}

fn groups_string(g: &[u16; 8], start: usize, end: usize) -> (s: String)
    requires
        start <= end <= 8,
    ensures
        s@ == groups_text(g@.subrange(start as int, end as int)),
{
    let mut s: String = String::new();
    let mut i: usize = start;
    proof {
        assert(group_texts(g@.subrange(start as int, start as int)) =~= Seq::<Seq<char>>::empty());
    }
    while i < end
        invariant
            start <= i <= end <= 8,
            g@.len() == 8,
            s@ == groups_text(g@.subrange(start as int, i as int)),
        decreases end - i,
    {
        let t = hex_text(g[i]);
        let ghost before = group_texts(g@.subrange(start as int, i as int));
        let ghost after = group_texts(g@.subrange(start as int, i as int + 1));
        proof {
            assert(after =~= before.push(t@));
        }
        if i > start {
            s.push(':');
            proof {
                lemma_join_push(before, t@, ':');
                assert(join(before, ':').push(':') =~= join(before, ':') + seq![':']);
            }
        } else {
            proof {
                assert(before =~= Seq::<Seq<char>>::empty());
                assert(after =~= seq![t@]);
                assert(s@ + t@ =~= t@);
            }
        }
        s.append(t.as_str());
        i += 1;
    }
    s
}

fn run_length(g: &[u16; 8], start: usize) -> (n: usize)
    requires
        start <= 8,
    ensures
        n == zero_run(g@, start as int),
        start + n <= 8,
    decreases 8 - start,
{
    if start < 8 && g[start] == 0 {
        1 + run_length(g, start + 1)
    } else {
        0
    }
}

fn longest_start(g: &[u16; 8]) -> (start: usize)
    ensures
        start == longest_run(g@, 8),
        start < 8,
{
    let mut best: usize = 0;
    let mut n: usize = 1;
    while n < 8
        invariant
            1 <= n <= 8,
            best < n,
            best == longest_run(g@, n as int),
        decreases 8 - n,
    {
        if run_length(g, n) > run_length(g, best) {
            best = n;
        }
        n += 1;
    }
    best
}

fn ipv6_string(g: &[u16; 8]) -> (s: String)
    ensures
        s@ == ipv6_text(g@),
{
    let start = longest_start(g);
    let length = run_length(g, start);
    if g[0] == 0 && g[1] == 0 && g[2] == 0 && g[3] == 0 && g[4] == 0 && g[5] == 0xffff {
        let octets = [(g[6] / 256) as u8, (g[6] % 256) as u8, (g[7] / 256) as u8, (g[7] % 256) as u8];
        let mut s = copy("::ffff:");
        s.append(octets_text(&octets).as_str());
        proof {
            reveal_strlit("::ffff:");
            assert("::ffff:"@ =~= seq![':', ':', 'f', 'f', 'f', 'f', ':']);
            assert(octets@ =~= group_octets(g@[6], g@[7]));
        }
        s
    } else if length > 1 {
        let head = groups_string(g, 0, start);
        let tail = groups_string(g, start + length, 8);
        proof {
            reveal_strlit("::");
            assert("::"@ =~= seq![':', ':']);
        }
        concat3(head.as_str(), "::", tail.as_str())
    } else {
        proof {
            assert(g@.subrange(0, 8) =~= g@);
        }
        groups_string(g, 0, 8)
    }
}

impl IpAddress {
    /// The canonical text of the address.
    pub fn to_text(&self) -> (s: String)
        ensures
            s@ == address_text(self@),
    {
        match self {
            IpAddress::V4(octets) => octets_text(octets),
            IpAddress::V6(groups) => ipv6_string(groups),
        }
    }

    /// Whether two addresses are the same.
    pub fn same_as(&self, other: &IpAddress) -> (r: bool)
        ensures
            r == (self@ == other@),
    {
        match (self, other) {
            (IpAddress::V4(a), IpAddress::V4(b)) => {
                let r = a[0] == b[0] && a[1] == b[1] && a[2] == b[2] && a[3] == b[3];
                proof {
                    if r {
                        assert(a@ =~= b@);
                    }
                }
                r
            },
            (IpAddress::V6(a), IpAddress::V6(b)) => {
                let mut i: usize = 0;
                while i < 8
                    invariant
                        i <= 8,
                        a@.len() == 8,
                        b@.len() == 8,
                        self@ == IpAddressView::V6(a@),
                        other@ == IpAddressView::V6(b@),
                        forall|k: int| 0 <= k < i ==> a@[k] == b@[k],
                    decreases 8 - i,
                {
                    if a[i] != b[i] {
                        proof {
                            assert(a@[i as int] != b@[i as int]);
                        }
                        return false;
                    }
                    i += 1;
                }
                proof {
                    assert(a@ =~= b@);
                }
                true
            },
            _ => false,
        }
    }
}

// ---------------------------------------------------------------------------
// Laws
// ---------------------------------------------------------------------------

/// A dotted text is an IPv4 address exactly where it is the canonical form of one.
pub proof fn law_ipv4_text_is_canonical(s: Seq<char>, o: Seq<u8>)
    requires
        o.len() == 4,
    ensures
        ipv4_value(s) == Some(o) <==> s == ipv4_text(o),
{
    let parts = octet_texts(o);
    assert forall|i: int| 0 <= i < 4 implies !(#[trigger] parts[i]).contains('.') by {
        lemma_decimal(o[i] as nat);
        if parts[i].contains('.') {
            let k = choose|k: int| 0 <= k < parts[i].len() && parts[i][k] == '.';
            assert(is_digit(parts[i][k]));
        }
    }
    lemma_join_splits(parts, '.');
    if s == ipv4_text(o) {
        lemma_decimal(o[0] as nat);
        lemma_decimal(o[1] as nat);
        lemma_decimal(o[2] as nat);
        lemma_decimal(o[3] as nat);
        assert(octet_value(parts[0]) == Some(o[0]));
        assert(octet_value(parts[1]) == Some(o[1]));
        assert(octet_value(parts[2]) == Some(o[2]));
        assert(octet_value(parts[3]) == Some(o[3]));
        assert(ipv4_value(s)->0 =~= o);
    }
    if ipv4_value(s) == Some(o) {
        let found = split(s, '.');
        lemma_split(s, '.');
        lemma_decimal_value(found[0]);
        lemma_decimal_value(found[1]);
        lemma_decimal_value(found[2]);
        lemma_decimal_value(found[3]);
        assert(o[0] == octet_value(found[0])->0);
        assert(o[1] == octet_value(found[1])->0);
        assert(o[2] == octet_value(found[2])->0);
        assert(o[3] == octet_value(found[3])->0);
        assert(found =~= parts);
    }
}

proof fn lemma_hex_digit(d: nat)
    requires
        d < 16,
    ensures
        is_hex(hex_digit(d)),
        hex_value(hex_digit(d)) == d,
{
}

proof fn lemma_hex(n: nat)
    ensures
        hex(n).len() >= 1,
        forall|i: int| 0 <= i < hex(n).len() ==> is_hex(#[trigger] hex(n)[i]),
        hex_number(hex(n)) == n,
        n < 0x10 ==> hex(n).len() == 1,
        n < 0x100 ==> hex(n).len() <= 2,
        n < 0x1000 ==> hex(n).len() <= 3,
        n < 0x10000 ==> hex(n).len() <= 4,
    decreases n,
{
    let s = hex(n);
    lemma_hex_digit(n % 16);
    if n < 16 {
        assert(s.drop_last() =~= Seq::<char>::empty());
        assert(hex_number(s.drop_last()) == 0);
    } else {
        lemma_hex(n / 16);
        assert(s.drop_last() =~= hex(n / 16));
    }
}

proof fn lemma_group_text(v: u16)
    ensures
        group_value(hex(v as nat)) == Some(v),
        hex(v as nat).len() >= 1,
        !hex(v as nat).contains(':'),
        ipv4_value(hex(v as nat)) is None,
{
    lemma_hex(v as nat);
    let s = hex(v as nat);
    assert(forall|i: int| 0 <= i < s.len() ==> is_hex(#[trigger] s[i]));
    lemma_first_index(s, '.');
    assert(!s.contains('.')) by {
        if s.contains('.') {
            let k = choose|k: int| 0 <= k < s.len() && s[k] == '.';
            assert(is_hex(s[k]));
        }
    }
    assert(split(s, '.').len() == 1);
    assert(!s.contains(':')) by {
        if s.contains(':') {
            let k = choose|k: int| 0 <= k < s.len() && s[k] == ':';
            assert(is_hex(s[k]));
        }
    }
}

proof fn lemma_groups_of_texts(g: Seq<u16>, dotted: bool)
    ensures
        groups_of(group_texts(g), dotted) == Some(g),
    decreases g.len(),
{
    let parts = group_texts(g);
    if g.len() == 0 {
        assert(g =~= Seq::<u16>::empty());
    } else {
        lemma_group_text(g[0]);
        assert(parts.drop_first() =~= group_texts(g.drop_first()));
        lemma_groups_of_texts(g.drop_first(), dotted);
        assert(seq![g[0]] + g.drop_first() =~= g);
    }
}

/// Joined pieces that are not empty and hold no separator have no separator at
/// either end and no two separators in a row.
proof fn lemma_join_gaps(parts: Seq<Seq<char>>, c: char)
    requires
        parts.len() >= 1,
        forall|i: int|
            0 <= i < parts.len() ==> (#[trigger] parts[i]).len() >= 1 && !parts[i].contains(c),
    ensures
        join(parts, c).len() >= 1,
        join(parts, c)[0] != c,
        join(parts, c).last() != c,
        forall|k: int|
            0 <= k < join(parts, c).len() - 1 && #[trigger] join(parts, c)[k] == c ==> join(
                parts,
                c,
            )[k + 1] != c,
    decreases parts.len(),
{
    let s = join(parts, c);
    let n = parts[0].len() as int;
    assert(parts[0][0] != c) by {
        assert(parts[0].contains(parts[0][0]));
    }
    assert(parts[0].last() != c) by {
        assert(parts[0].contains(parts[0][n - 1]));
    }
    assert(forall|k: int| 0 <= k < n ==> #[trigger] parts[0][k] != c) by {
        assert forall|k: int| 0 <= k < n implies #[trigger] parts[0][k] != c by {
            assert(parts[0].contains(parts[0][k]));
        }
    }
    if parts.len() > 1 {
        let rest = parts.drop_first();
        assert forall|i: int| 0 <= i < rest.len() implies (#[trigger] rest[i]).len() >= 1
            && !rest[i].contains(c) by {
            assert(rest[i] == parts[i + 1]);
        }
        lemma_join_gaps(rest, c);
        let t = join(rest, c);
        assert(s == parts[0] + seq![c] + t);
        assert(s.last() == t.last());
        assert forall|k: int| 0 <= k < s.len() - 1 && #[trigger] s[k] == c implies s[k + 1] != c by {
            if k < n {
                assert(s[k] == parts[0][k]);
            } else if k == n {
                assert(s[k + 1] == t[0]);
            } else {
                assert(s[k] == t[k - n - 1]);
                assert(s[k + 1] == t[k - n]);
            }
        }
    }
}

proof fn lemma_groups_text(g: Seq<u16>, dotted: bool)
    ensures
        groups_value(groups_text(g), dotted) == Some(g),
        g.len() == 0 ==> groups_text(g).len() == 0,
        g.len() > 0 ==> groups_text(g).len() > 0 && groups_text(g)[0] != ':'
            && groups_text(g).last() != ':',
        forall|k: int|
            0 <= k < groups_text(g).len() - 1 && #[trigger] groups_text(g)[k] == ':'
                ==> groups_text(g)[k + 1] != ':',
{
    let parts = group_texts(g);
    if g.len() == 0 {
        assert(g =~= Seq::<u16>::empty());
    } else {
        assert forall|i: int| 0 <= i < parts.len() implies (#[trigger] parts[i]).len() >= 1
            && !parts[i].contains(':') by {
            lemma_group_text(g[i]);
        }
        lemma_join_gaps(parts, ':');
        lemma_join_splits(parts, ':');
        lemma_groups_of_texts(g, dotted);
    }
}

proof fn lemma_zero_run(g: Seq<u16>, i: int)
    requires
        0 <= i <= g.len(),
    ensures
        0 <= zero_run(g, i) <= g.len() - i,
        forall|k: int| i <= k < i + zero_run(g, i) ==> g[k] == 0,
    decreases g.len() - i,
{
    if i < g.len() && g[i] == 0 {
        lemma_zero_run(g, i + 1);
    }
}

proof fn lemma_longest_run(g: Seq<u16>, n: int)
    requires
        1 <= n,
    ensures
        0 <= longest_run(g, n) < n,
    decreases n,
{
    if n > 1 {
        lemma_longest_run(g, n - 1);
    }
}

proof fn lemma_mapped_text(g: Seq<u16>)
    requires
        g.len() == 8,
        is_mapped(g),
    ensures
        ipv6_value(ipv6_text(g)) == Some(g),
{
    let s = ipv6_text(g);
    let p = seq![':', ':'];
    let octets = group_octets(g[6], g[7]);
    let dotted = ipv4_text(octets);
    assert(s.subrange(0, 2) =~= p);
    assert(first_match(s, p) == 0);
    let four = seq!['f', 'f', 'f', 'f'];
    let parts = seq![four, dotted];
    assert(from(s, 2) =~= four + seq![':'] + dotted);
    assert(parts.drop_first() =~= seq![dotted]);
    assert(join(parts.drop_first(), ':') == dotted);
    assert(join(parts, ':') == from(s, 2));
    law_ipv4_text_is_canonical(dotted, octets);
    assert(!dotted.contains(':')) by {
        lemma_dotted_chars(octets);
        if dotted.contains(':') {
            let k = choose|k: int| 0 <= k < dotted.len() && dotted[k] == ':';
            assert(is_digit(dotted[k]) || dotted[k] == '.');
        }
    }
    assert(!four.contains(':'));
    lemma_join_splits(parts, ':');
    assert(group_value(four) == Some(0xffffu16)) by {
        assert(forall|i: int| 0 <= i < 4 ==> is_hex(#[trigger] four[i]));
        let three = four.drop_last();
        let two = three.drop_last();
        let one = two.drop_last();
        assert(one.drop_last() =~= Seq::<char>::empty());
        assert(hex_number(one.drop_last()) == 0);
        assert(hex_number(one) == 15);
        assert(hex_number(two) == 255);
        assert(hex_number(three) == 4095);
        assert(hex_number(four) == 65535);
    }
    assert(groups_of(parts.drop_first(), true) == Some(octet_groups(octets)));
    let tail = groups_of(parts, true)->0;
    assert(tail =~= seq![0xffffu16] + octet_groups(octets));
    assert(s.subrange(0, 0).len() == 0);
    let head = Seq::<u16>::empty();
    assert(groups_value(s.subrange(0, 0), false) == Some(head));
    assert(octet_groups(octets) =~= seq![g[6], g[7]]);
    assert(head + zeros(5) + tail =~= g);
}

pub(crate) proof fn lemma_dotted_chars(o: Seq<u8>)
    requires
        o.len() == 4,
    ensures
        forall|k: int|
            0 <= k < ipv4_text(o).len() ==> is_digit(#[trigger] ipv4_text(o)[k]) || ipv4_text(o)[k]
                == '.',
{
    let p = octet_texts(o);
    lemma_decimal(o[0] as nat);
    lemma_decimal(o[1] as nat);
    lemma_decimal(o[2] as nat);
    lemma_decimal(o[3] as nat);
    assert(all_digits(p[0]) && all_digits(p[1]) && all_digits(p[2]) && all_digits(p[3]));
    let q = p.drop_first();
    let r = q.drop_first();
    let t = r.drop_first();
    assert(join(t, '.') == p[3]);
    assert(join(r, '.') == p[2] + seq!['.'] + p[3]);
    assert(join(q, '.') == p[1] + seq!['.'] + join(r, '.'));
    assert(join(p, '.') == p[0] + seq!['.'] + join(q, '.'));
}

/// Where a compressed text is parted.
proof fn lemma_compressed_parts(ht: Seq<char>, tt: Seq<char>)
    requires
        ht.len() > 0 ==> ht.last() != ':',
        forall|k: int| 0 <= k < ht.len() - 1 && #[trigger] ht[k] == ':' ==> ht[k + 1] != ':',
    ensures
        ({
            let s = ht + seq![':', ':'] + tt;
            &&& first_match(s, seq![':', ':']) == ht.len()
            &&& s.subrange(0, ht.len() as int) == ht
            &&& from(s, ht.len() as int + 2) == tt
        }),
{
    let p = seq![':', ':'];
    let s = ht + p + tt;
    let n = ht.len() as int;
    assert(from(s, n).subrange(0, 2) =~= p);
    assert forall|k: int| 0 <= k < n implies !begins(#[trigger] from(s, k), p) by {
        if begins(from(s, k), p) {
            assert(from(s, k).subrange(0, 2)[0] == ':');
            assert(from(s, k).subrange(0, 2)[1] == ':');
            assert(s[k] == ':' && s[k + 1] == ':');
            assert(ht[k] == ':');
            if k + 1 < n {
                assert(ht[k + 1] == ':');
            } else {
                assert(ht.last() == ':');
            }
        }
    }
    lemma_first_match_is(s, p, n);
    assert(s.subrange(0, n) =~= ht);
    assert(from(s, n + 2) =~= tt);
}

proof fn lemma_compressed_text(g: Seq<u16>, start: int, length: int)
    requires
        g.len() == 8,
        0 <= start,
        length > 1,
        start + length <= 8,
        forall|k: int| start <= k < start + length ==> g[k] == 0,
    ensures
        ({
            let s = groups_text(g.subrange(0, start)) + seq![':', ':'] + groups_text(
                g.subrange(start + length, 8),
            );
            ipv6_value(s) == Some(g)
        }),
{
    let head = g.subrange(0, start);
    let tail = g.subrange(start + length, 8);
    lemma_groups_text(head, false);
    lemma_groups_text(tail, true);
    lemma_compressed_parts(groups_text(head), groups_text(tail));
    assert(head + zeros(length) + tail =~= g);
}

proof fn lemma_plain_text(g: Seq<u16>)
    requires
        g.len() == 8,
    ensures
        ipv6_value(groups_text(g)) == Some(g),
{
    let s = groups_text(g);
    let p = seq![':', ':'];
    lemma_groups_text(g, true);
    lemma_first_match(s, p);
    if occurs(s, p) {
        let k = first_match(s, p);
        assert(from(s, k).subrange(0, 2)[0] == ':');
        assert(from(s, k).subrange(0, 2)[1] == ':');
        assert(s[k] == ':' && s[k + 1] == ':');
    }
}

/// Every IPv6 address is read back from its canonical text.
pub proof fn law_ipv6_text_reads_back(g: Seq<u16>)
    requires
        g.len() == 8,
    ensures
        ipv6_value(ipv6_text(g)) == Some(g),
{
    let start = longest_run(g, 8);
    let length = zero_run(g, start);
    lemma_longest_run(g, 8);
    lemma_zero_run(g, start);
    if is_mapped(g) {
        lemma_mapped_text(g);
    } else if length > 1 {
        lemma_compressed_text(g, start, length);
    } else {
        lemma_plain_text(g);
    }
}

/// Every address is read back from its canonical text.
pub proof fn law_address_text_reads_back(a: IpAddressView)
    requires
        a.well_formed(),
    ensures
        address_value(address_text(a)) == Some(a),
{
    match a {
        IpAddressView::V4(octets) => {
            law_ipv4_text_is_canonical(ipv4_text(octets), octets);
        },
        IpAddressView::V6(groups) => {
            let s = ipv6_text(groups);
            law_ipv6_text_reads_back(groups);
            if ipv4_value(s) is Some {
                let o = ipv4_value(s)->0;
                law_ipv4_text_is_canonical(s, o);
                lemma_dotted_chars(o);
                lemma_ipv6_text_has_colon(groups);
                let k = choose|k: int| 0 <= k < s.len() && s[k] == ':';
                assert(is_digit(s[k]) || s[k] == '.');
            }
        },
    }
}

proof fn lemma_ipv6_text_has_colon(g: Seq<u16>)
    requires
        g.len() == 8,
    ensures
        ipv6_text(g).contains(':'),
{
    let s = ipv6_text(g);
    let start = longest_run(g, 8);
    let length = zero_run(g, start);
    if is_mapped(g) {
        assert(s[0] == ':');
    } else if length > 1 {
        let n = groups_text(g.subrange(0, start)).len() as int;
        assert(s[n] == ':');
    } else {
        let parts = group_texts(g);
        let n = parts[0].len() as int;
        assert(s == parts[0] + seq![':'] + join(parts.drop_first(), ':'));
        assert(s[n] == ':');
    }
}

/// The characters of an address text.
pub open spec fn address_char(c: char) -> bool {
    is_hex(c) || c == '.' || c == ':'
}

proof fn lemma_groups_chars(g: Seq<u16>)
    ensures
        forall|k: int| 0 <= k < groups_text(g).len() ==> address_char(#[trigger] groups_text(g)[k]),
    decreases g.len(),
{
    let s = groups_text(g);
    if g.len() > 0 {
        let rest = g.drop_first();
        lemma_groups_chars(rest);
        lemma_hex(g[0] as nat);
        let parts = group_texts(g);
        assert(parts.drop_first() =~= group_texts(rest));
        let t = hex(g[0] as nat);
        assert(parts[0] == t);
        assert forall|k: int| 0 <= k < s.len() implies address_char(#[trigger] s[k]) by {
            if k < t.len() {
                assert(s[k] == t[k]);
                assert(is_hex(t[k]));
            } else if g.len() > 1 && k > t.len() {
                assert(s[k] == groups_text(rest)[k - t.len() - 1]);
            }
        }
    }
}

/// An address text is not empty and holds hexadecimal digits, dots and colons.
pub(crate) proof fn lemma_address_chars(a: IpAddressView)
    requires
        a.well_formed(),
    ensures
        address_text(a).len() > 0,
        forall|k: int| 0 <= k < address_text(a).len() ==> address_char(#[trigger] address_text(a)[k]),
{
    let s = address_text(a);
    match a {
        IpAddressView::V4(o) => {
            lemma_dotted_chars(o);
            lemma_decimal(o[0] as nat);
            let p = octet_texts(o);
            assert(join(p, '.') == p[0] + seq!['.'] + join(p.drop_first(), '.'));
        },
        IpAddressView::V6(g) => {
            lemma_ipv6_text_has_colon(g);
            let start = longest_run(g, 8);
            let length = zero_run(g, start);
            if is_mapped(g) {
                let o = group_octets(g[6], g[7]);
                lemma_dotted_chars(o);
                assert forall|k: int| 0 <= k < s.len() implies address_char(#[trigger] s[k]) by {
                    if k >= 7 {
                        assert(s[k] == ipv4_text(o)[k - 7]);
                    }
                }
            } else if length > 1 {
                let x = groups_text(g.subrange(0, start));
                let y = groups_text(g.subrange(start + length, 8));
                lemma_groups_chars(g.subrange(0, start));
                lemma_groups_chars(g.subrange(start + length, 8));
                assert forall|k: int| 0 <= k < s.len() implies address_char(#[trigger] s[k]) by {
                    if k < x.len() {
                        assert(s[k] == x[k]);
                    } else if k >= x.len() + 2 {
                        assert(s[k] == y[k - x.len() - 2]);
                    }
                }
            } else {
                lemma_groups_chars(g);
            }
        },
    }
}

} // verus!
