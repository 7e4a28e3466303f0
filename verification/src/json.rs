//! The JSON texts that digests are taken over.

use vstd::prelude::*;
use vstd::string::*;

use crate::address::hex_digit;
use crate::order::views;
use crate::text::{concat3, copy, decimal, is_digit, join, lemma_decimal, number_text};

verus! {

/// How a character stands in a JSON string.
pub open spec fn escaped(c: char) -> Seq<char> {
    if c == '"' {
        seq!['\\', '"']
    } else if c == '\\' {
        seq!['\\', '\\']
    } else if c == '\u{8}' {
        seq!['\\', 'b']
    } else if c == '\t' {
        seq!['\\', 't']
    } else if c == '\n' {
        seq!['\\', 'n']
    } else if c == '\u{c}' {
        seq!['\\', 'f']
    } else if c == '\r' {
        seq!['\\', 'r']
    } else if (c as u32) < 32 {
        seq!['\\', 'u', '0', '0', hex_digit((c as u32 / 16) as nat), hex_digit((c as u32 % 16) as nat)]
    } else {
        seq![c]
    }
}

/// How characters stand in a JSON string.
pub open spec fn escaped_all(s: Seq<char>) -> Seq<char>
    decreases s.len(),
{
    if s.len() == 0 {
        Seq::empty()
    } else {
        escaped(s[0]) + escaped_all(s.drop_first())
    }
}

/// A text as a JSON string.
pub open spec fn json_string(s: Seq<char>) -> Seq<char> {
    seq!['"'] + escaped_all(s) + seq!['"']
}

/// Calls `serde_json::to_string` on a text: it is written between quotes; quotes,
/// backslashes and the characters below 32 are escaped, and all others stand as
/// they are. Nothing makes the call fail.
#[verifier::external_body]
pub(crate) fn json_text(s: &str) -> (r: String)
    ensures
        r@ == json_string(s@),
{
    serde_json::to_string(s).unwrap_or_default()
}

/// The values of a JSON array between its brackets.
pub open spec fn json_array(items: Seq<Seq<char>>) -> Seq<char> {
    seq!['['] + join(items, ',') + seq![']']
}

pub open spec fn null() -> Seq<char> {
    seq!['n', 'u', 'l', 'l']
}

/// Numbers as a JSON array.
pub open spec fn json_bytes(b: Seq<u8>) -> Seq<char> {
    json_array(Seq::new(b.len(), |i: int| decimal(b[i] as nat)))
}

/// Texts as a JSON array.
pub open spec fn json_strings(s: Seq<Seq<char>>) -> Seq<char> {
    json_array(Seq::new(s.len(), |i: int| json_string(s[i])))
}

/// A text that may be absent.
pub open spec fn json_option_string(s: Option<Seq<char>>) -> Seq<char> {
    match s {
        None => null(),
        Some(s) => json_string(s),
    }
}

/// Bytes that may be absent.
pub open spec fn json_option_bytes(b: Option<Seq<u8>>) -> Seq<char> {
    match b {
        None => null(),
        Some(b) => json_bytes(b),
    }
}

// ---------------------------------------------------------------------------
// Writing
// ---------------------------------------------------------------------------

fn separated(items: &Vec<String>) -> (r: String)
    ensures
        r@ == join(views(items@), ','),
{
    let ghost all = views(items@);
    let mut i: usize = items.len();
    let mut r: String = String::new();
    proof {
        reveal_strlit(",");
        assert(","@ =~= seq![',']);
        assert(all.subrange(all.len() as int, all.len() as int) =~= Seq::<Seq<char>>::empty());
        assert(r@ =~= Seq::<char>::empty());
    }
    while i > 0
        invariant
            0 <= i <= items@.len(),
            all == views(items@),
            ","@ == seq![','],
            r@ == join(all.subrange(i as int, all.len() as int), ','),
        decreases i,
    {
        let ghost rest = all.subrange(i as int, all.len() as int);
        let ghost next = all.subrange(i as int - 1, all.len() as int);
        proof {
            assert(next.drop_first() =~= rest);
            assert(next[0] == items@[i - 1]@);
        }
        if i == items.len() {
            r = copy(items[i - 1].as_str());
        } else {
            r = concat3(items[i - 1].as_str(), ",", r.as_str());
        }
        i -= 1;
    }
    proof {
        assert(all.subrange(0, all.len() as int) =~= all);
    }
    r
}

/// One text before another, and both before a third.
pub(crate) fn chain(a: &str, b: &str, c: &str) -> (r: String)
    ensures
        r@ == a@ + (b@ + c@),
{
    let r = concat3(a, b, c);
    proof {
        assert(r@ =~= a@ + (b@ + c@));
    }
    r
}

/// Writes a JSON array.
pub(crate) fn array_text(items: &Vec<String>) -> (r: String)
    ensures
        r@ == json_array(views(items@)),
{
    proof {
        reveal_strlit("[");
        reveal_strlit("]");
        assert("["@ =~= seq!['[']);
        assert("]"@ =~= seq![']']);
    }
    concat3("[", separated(items).as_str(), "]")
}

/// Writes bytes as a JSON array of numbers.
pub(crate) fn bytes_text(b: &[u8]) -> (r: String)
    ensures
        r@ == json_bytes(b@),
{
    let ghost all = Seq::new(b@.len(), |i: int| decimal(b@[i] as nat));
    let mut items: Vec<String> = Vec::new();
    let mut i: usize = 0;
    while i < b.len()
        invariant
            0 <= i <= b@.len(),
            all == Seq::new(b@.len(), |i: int| decimal(b@[i] as nat)),
            items@.len() == i,
            forall|j: int| 0 <= j < i ==> #[trigger] items@[j]@ == all[j],
        decreases b@.len() - i,
    {
        items.push(number_text(b[i] as u64));
        i += 1;
    }
    proof {
        assert(views(items@) =~= all);
    }
    array_text(&items)
}

/// Writes texts as a JSON array of strings.
pub(crate) fn strings_text(v: &Vec<String>) -> (r: String)
    ensures
        r@ == json_strings(views(v@)),
{
    let ghost all = Seq::new(v@.len(), |i: int| json_string(views(v@)[i]));
    let mut items: Vec<String> = Vec::new();
    let mut i: usize = 0;
    while i < v.len()
        invariant
            0 <= i <= v@.len(),
            all == Seq::new(v@.len(), |i: int| json_string(views(v@)[i])),
            items@.len() == i,
            forall|j: int| 0 <= j < i ==> #[trigger] items@[j]@ == all[j],
        decreases v@.len() - i,
    {
        items.push(json_text(v[i].as_str()));
        i += 1;
    }
    proof {
        assert(views(items@) =~= all);
        assert(views(v@).len() == v@.len());
    }
    array_text(&items)
}

pub(crate) fn null_text() -> (r: String)
    ensures
        r@ == null(),
{
    proof {
        reveal_strlit("null");
        assert("null"@ =~= null());
    }
    copy("null")
}

/// Writes a text that may be absent.
pub(crate) fn option_string_text(s: &Option<String>) -> (r: String)
    ensures
        r@ == json_option_string(crate::model::option_text(*s)),
{
    match s {
        None => null_text(),
        Some(s) => json_text(s.as_str()),
    }
}

/// Writes a digest that may be absent.
pub(crate) fn option_digest_text(b: &Option<[u8; 32]>) -> (r: String)
    ensures
        r@ == json_option_bytes(crate::digest::option_digest(*b)),
{
    match b {
        None => null_text(),
        Some(b) => bytes_text(b),
    }
}

// ---------------------------------------------------------------------------
// Reading back
// ---------------------------------------------------------------------------

/// What stands behind a value: another one, or the end of what holds it.
pub open spec fn closing(x: Seq<char>) -> bool {
    x.len() > 0 && (x[0] == ',' || x[0] == ']' || x[0] == '}')
}

/// The same text before two others leaves the others alike.
pub proof fn lemma_peel(c: Seq<char>, x: Seq<char>, y: Seq<char>)
    requires
        c + x == c + y,
    ensures
        x == y,
{
    assert((c + x).len() == c.len() + x.len());
    assert((c + y).len() == c.len() + y.len());
    assert forall|i: int| 0 <= i < x.len() implies x[i] == y[i] by {
        assert((c + x)[c.len() + i] == x[i]);
        assert((c + y)[c.len() + i] == y[i]);
    }
    assert(x =~= y);
}

/// Two escaped characters are told apart wherever they stand.
proof fn lemma_escaped(c: char, d: char, x: Seq<char>, y: Seq<char>)
    requires
        escaped(c) + x == escaped(d) + y,
    ensures
        c == d,
        x == y,
{
    let a = escaped(c) + x;
    let b = escaped(d) + y;
    assert(a[0] == escaped(c)[0] && b[0] == escaped(d)[0]);
    if escaped(c).len() > 1 {
        assert(a[1] == escaped(c)[1]);
    }
    if escaped(d).len() > 1 {
        assert(b[1] == escaped(d)[1]);
    }
    if escaped(c).len() == 6 && escaped(d).len() == 6 {
        assert(a[4] == escaped(c)[4] && b[4] == escaped(d)[4]);
        assert(a[5] == escaped(c)[5] && b[5] == escaped(d)[5]);
        lemma_hex_digit((c as u32 / 16) as nat, (d as u32 / 16) as nat);
        lemma_hex_digit((c as u32 % 16) as nat, (d as u32 % 16) as nat);
        assert(c as u32 == d as u32);
    }
    assert(c == d);
    lemma_peel(escaped(c), x, y);
}

proof fn lemma_hex_digit(a: nat, b: nat)
    requires
        a < 16,
        b < 16,
        hex_digit(a) == hex_digit(b),
    ensures
        a == b,
{
}

proof fn lemma_escaped_all(s: Seq<char>, t: Seq<char>, x: Seq<char>, y: Seq<char>)
    requires
        escaped_all(s) + seq!['"'] + x == escaped_all(t) + seq!['"'] + y,
    ensures
        s == t,
        x == y,
    decreases s.len(),
{
    let a = escaped_all(s) + seq!['"'] + x;
    let b = escaped_all(t) + seq!['"'] + y;
    if s.len() == 0 && t.len() == 0 {
        assert(a =~= seq!['"'] + x);
        assert(b =~= seq!['"'] + y);
        lemma_peel(seq!['"'], x, y);
        assert(s =~= t);
    } else if s.len() == 0 {
        assert(a[0] == '"');
        assert(b[0] == escaped(t[0])[0]);
        assert(false);
    } else if t.len() == 0 {
        assert(b[0] == '"');
        assert(a[0] == escaped(s[0])[0]);
        assert(false);
    } else {
        let p = escaped_all(s.drop_first()) + seq!['"'] + x;
        let q = escaped_all(t.drop_first()) + seq!['"'] + y;
        assert(a =~= escaped(s[0]) + p);
        assert(b =~= escaped(t[0]) + q);
        lemma_escaped(s[0], t[0], p, q);
        lemma_escaped_all(s.drop_first(), t.drop_first(), x, y);
        assert(s =~= seq![s[0]] + s.drop_first());
        assert(t =~= seq![t[0]] + t.drop_first());
    }
}

/// A JSON string ends where it ends, whatever stands behind it.
pub proof fn lemma_string(s: Seq<char>, t: Seq<char>, x: Seq<char>, y: Seq<char>)
    requires
        json_string(s) + x == json_string(t) + y,
    ensures
        s == t,
        x == y,
{
    assert(json_string(s) + x =~= seq!['"'] + (escaped_all(s) + seq!['"'] + x));
    assert(json_string(t) + y =~= seq!['"'] + (escaped_all(t) + seq!['"'] + y));
    lemma_peel(
        seq!['"'],
        escaped_all(s) + seq!['"'] + x,
        escaped_all(t) + seq!['"'] + y,
    );
    lemma_escaped_all(s, t, x, y);
}

/// A number ends where its digits end.
pub proof fn lemma_number(m: nat, n: nat, x: Seq<char>, y: Seq<char>)
    requires
        decimal(m) + x == decimal(n) + y,
        closing(x),
        closing(y),
    ensures
        m == n,
        x == y,
{
    lemma_decimal(m);
    lemma_decimal(n);
    let a = decimal(m) + x;
    let b = decimal(n) + y;
    let (k, l) = (decimal(m).len() as int, decimal(n).len() as int);
    assert(a[k] == x[0]);
    assert(b[l] == y[0]);
    if k < l {
        assert(b[k] == decimal(n)[k]);
        assert(is_digit(decimal(n)[k]));
        assert(false);
    }
    if l < k {
        assert(a[l] == decimal(m)[l]);
        assert(is_digit(decimal(m)[l]));
        assert(false);
    }
    assert forall|i: int| 0 <= i < k implies decimal(m)[i] == decimal(n)[i] by {
        assert(a[i] == decimal(m)[i] && b[i] == decimal(n)[i]);
    }
    assert(decimal(m) =~= decimal(n));
    lemma_peel(decimal(m), x, y);
}

/// Whether the texts of values end where they end, and begin like one.
pub open spec fn self_delimiting<A>(f: spec_fn(A) -> Seq<char>) -> bool {
    &&& forall|a: A| #[trigger] f(a).len() > 0 && f(a)[0] != ']'
    &&& forall|a: A, b: A, x: Seq<char>, y: Seq<char>|
        #![trigger f(a) + x, f(b) + y]
        closing(x) && closing(y) && f(a) + x == f(b) + y ==> a == b && x == y
}

/// The texts of values.
pub open spec fn mapped<A>(s: Seq<A>, f: spec_fn(A) -> Seq<char>) -> Seq<Seq<char>> {
    Seq::new(s.len(), |i: int| f(s[i]))
}

proof fn lemma_tail<A>(s: Seq<A>, f: spec_fn(A) -> Seq<char>, x: Seq<char>)
    requires
        s.len() > 0,
    ensures
        join(mapped(s, f), ',') + seq![']'] + x == f(s[0]) + (if s.len() == 1 {
            seq![']'] + x
        } else {
            seq![','] + (join(mapped(s.drop_first(), f), ',') + seq![']'] + x)
        }),
{
    let m = mapped(s, f);
    assert(m.drop_first() =~= mapped(s.drop_first(), f));
    assert(join(m, ',') + seq![']'] + x =~= f(s[0]) + (if s.len() == 1 {
        seq![']'] + x
    } else {
        seq![','] + (join(m.drop_first(), ',') + seq![']'] + x)
    }));
}

proof fn lemma_items<A>(s: Seq<A>, t: Seq<A>, f: spec_fn(A) -> Seq<char>, x: Seq<char>, y: Seq<char>)
    requires
        self_delimiting(f),
        join(mapped(s, f), ',') + seq![']'] + x == join(mapped(t, f), ',') + seq![']'] + y,
    ensures
        s == t,
        x == y,
    decreases s.len(),
{
    let a = join(mapped(s, f), ',') + seq![']'] + x;
    let b = join(mapped(t, f), ',') + seq![']'] + y;
    if s.len() == 0 && t.len() == 0 {
        assert(a =~= seq![']'] + x);
        assert(b =~= seq![']'] + y);
        lemma_peel(seq![']'], x, y);
        assert(s =~= t);
    } else if s.len() == 0 {
        lemma_tail(t, f, y);
        assert(a =~= seq![']'] + x);
        assert(a[0] == ']');
        assert(f(t[0]).len() > 0);
        assert(b[0] == f(t[0])[0]);
        assert(false);
    } else if t.len() == 0 {
        lemma_tail(s, f, x);
        assert(b =~= seq![']'] + y);
        assert(b[0] == ']');
        assert(f(s[0]).len() > 0);
        assert(a[0] == f(s[0])[0]);
        assert(false);
    } else {
        lemma_tail(s, f, x);
        lemma_tail(t, f, y);
        let p = if s.len() == 1 {
            seq![']'] + x
        } else {
            seq![','] + (join(mapped(s.drop_first(), f), ',') + seq![']'] + x)
        };
        let q = if t.len() == 1 {
            seq![']'] + y
        } else {
            seq![','] + (join(mapped(t.drop_first(), f), ',') + seq![']'] + y)
        };
        assert(closing(p) && closing(q));
        assert(f(s[0]) + p == f(t[0]) + q);
        assert(s[0] == t[0] && p == q);
        assert(p[0] == q[0]);
        if s.len() == 1 {
            assert(t.len() == 1);
            lemma_peel(seq![']'], x, y);
            assert(s =~= t);
        } else {
            assert(t.len() > 1);
            lemma_peel(
                seq![','],
                join(mapped(s.drop_first(), f), ',') + seq![']'] + x,
                join(mapped(t.drop_first(), f), ',') + seq![']'] + y,
            );
            lemma_items(s.drop_first(), t.drop_first(), f, x, y);
            assert(s =~= seq![s[0]] + s.drop_first());
            assert(t =~= seq![t[0]] + t.drop_first());
        }
    }
}

/// A JSON array tells its values, wherever it stands.
pub proof fn lemma_array<A>(s: Seq<A>, t: Seq<A>, f: spec_fn(A) -> Seq<char>, x: Seq<char>, y: Seq<char>)
    requires
        self_delimiting(f),
        json_array(mapped(s, f)) + x == json_array(mapped(t, f)) + y,
    ensures
        s == t,
        x == y,
{
    let p = join(mapped(s, f), ',') + seq![']'] + x;
    let q = join(mapped(t, f), ',') + seq![']'] + y;
    assert(json_array(mapped(s, f)) + x =~= seq!['['] + p);
    assert(json_array(mapped(t, f)) + y =~= seq!['['] + q);
    lemma_peel(seq!['['], p, q);
    lemma_items(s, t, f, x, y);
}

/// Bytes are told by their JSON array.
pub proof fn lemma_bytes(s: Seq<u8>, t: Seq<u8>, x: Seq<char>, y: Seq<char>)
    requires
        json_bytes(s) + x == json_bytes(t) + y,
    ensures
        s == t,
        x == y,
{
    let f = |b: u8| decimal(b as nat);
    assert forall|a: u8| #[trigger] f(a).len() > 0 && f(a)[0] != ']' by {
        lemma_decimal(a as nat);
        assert(is_digit(decimal(a as nat)[0]));
    }
    assert forall|a: u8, b: u8, u: Seq<char>, v: Seq<char>|
        #![trigger f(a) + u, f(b) + v]
        closing(u) && closing(v) && f(a) + u == f(b) + v implies a == b && u == v by {
        lemma_number(a as nat, b as nat, u, v);
    }
    assert(mapped(s, f) =~= Seq::new(s.len(), |i: int| decimal(s[i] as nat)));
    assert(mapped(t, f) =~= Seq::new(t.len(), |i: int| decimal(t[i] as nat)));
    lemma_array(s, t, f, x, y);
}

/// Texts are told by their JSON array.
pub proof fn lemma_strings(s: Seq<Seq<char>>, t: Seq<Seq<char>>, x: Seq<char>, y: Seq<char>)
    requires
        json_strings(s) + x == json_strings(t) + y,
    ensures
        s == t,
        x == y,
{
    let f = |b: Seq<char>| json_string(b);
    assert forall|a: Seq<char>| #[trigger] f(a).len() > 0 && f(a)[0] != ']' by {
        assert(json_string(a)[0] == '"');
    }
    assert forall|a: Seq<char>, b: Seq<char>, u: Seq<char>, v: Seq<char>|
        #![trigger f(a) + u, f(b) + v]
        closing(u) && closing(v) && f(a) + u == f(b) + v implies a == b && u == v by {
        lemma_string(a, b, u, v);
    }
    assert(mapped(s, f) =~= Seq::new(s.len(), |i: int| json_string(s[i])));
    assert(mapped(t, f) =~= Seq::new(t.len(), |i: int| json_string(t[i])));
    lemma_array(s, t, f, x, y);
}

/// A text that may be absent is told by its JSON value.
pub proof fn lemma_option_string(s: Option<Seq<char>>, t: Option<Seq<char>>, x: Seq<char>, y: Seq<char>)
    requires
        json_option_string(s) + x == json_option_string(t) + y,
    ensures
        s == t,
        x == y,
{
    let (a, b) = (json_option_string(s) + x, json_option_string(t) + y);
    assert(a[0] == json_option_string(s)[0] && b[0] == json_option_string(t)[0]);
    if s is Some && t is Some {
        lemma_string(s->0, t->0, x, y);
    } else if s is None && t is None {
        lemma_peel(null(), x, y);
    } else {
        assert(false);
    }
}

/// Bytes that may be absent are told by their JSON value.
pub proof fn lemma_option_bytes(s: Option<Seq<u8>>, t: Option<Seq<u8>>, x: Seq<char>, y: Seq<char>)
    requires
        json_option_bytes(s) + x == json_option_bytes(t) + y,
    ensures
        s == t,
        x == y,
{
    let (a, b) = (json_option_bytes(s) + x, json_option_bytes(t) + y);
    assert(a[0] == json_option_bytes(s)[0] && b[0] == json_option_bytes(t)[0]);
    if s is Some && t is Some {
        lemma_bytes(s->0, t->0, x, y);
    } else if s is None && t is None {
        lemma_peel(null(), x, y);
    } else {
        assert(false);
    }
}

} // verus!
