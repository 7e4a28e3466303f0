//! Character sequences: searching, splitting, comparing and building text.

use vstd::prelude::*;
use vstd::string::*;
use vstd::utf8::*;

verus! {

/// Appending one character, as the documentation of `String::push` states it.
pub assume_specification[ String::push ](s: &mut String, c: char)
    ensures
        final(s)@ == old(s)@.push(c),
;

/// Checks a byte sequence for being UTF-8 and hands the text over, as the
/// documentation of `String::from_utf8` states it: the text is the decoding of
/// the bytes, and the call fails exactly on bytes that are not UTF-8.
#[verifier::external_body]
pub(crate) fn decode_text(bytes: Vec<u8>) -> (text: Option<String>)
    ensures
        text is Some <==> valid_utf8(bytes@),
        text is Some ==> text->0@ == decode_utf8(bytes@),
{
    String::from_utf8(bytes).ok()
}

// ---------------------------------------------------------------------------
// Model
// ---------------------------------------------------------------------------

/// The views of a sequence of texts.
pub open spec fn texts(parts: Seq<String>) -> Seq<Seq<char>> {
    Seq::new(parts.len(), |i: int| parts[i]@)
}

/// The position of the first `c`, or the length where there is none.
pub open spec fn first_index(s: Seq<char>, c: char) -> int
    decreases s.len(),
{
    if s.len() == 0 {
        0
    } else if s[0] == c {
        0
    } else {
        1 + first_index(s.drop_first(), c)
    }
}

/// The position of the last `c`, or -1 where there is none.
pub open spec fn last_index(s: Seq<char>, c: char) -> int
    decreases s.len(),
{
    if s.len() == 0 {
        -1
    } else if s.last() == c {
        s.len() - 1
    } else {
        last_index(s.drop_last(), c)
    }
}

/// The pieces of `s` between the occurrences of `c`.
pub open spec fn split(s: Seq<char>, c: char) -> Seq<Seq<char>>
    decreases s.len(),
{
    let i = first_index(s, c);
    if 0 <= i < s.len() {
        seq![s.subrange(0, i)] + split(s.subrange(i + 1, s.len() as int), c)
    } else {
        seq![s]
    }
}

/// The pieces with `c` between each two of them.
pub open spec fn join(parts: Seq<Seq<char>>, c: char) -> Seq<char>
    decreases parts.len(),
{
    if parts.len() == 0 {
        Seq::empty()
    } else if parts.len() == 1 {
        parts[0]
    } else {
        parts[0] + seq![c] + join(parts.drop_first(), c)
    }
}

/// Whether `s` begins with `p`.
pub open spec fn begins(s: Seq<char>, p: Seq<char>) -> bool {
    p.len() <= s.len() && s.subrange(0, p.len() as int) == p
}

/// Whether `s` ends with `p`.
pub open spec fn ends(s: Seq<char>, p: Seq<char>) -> bool {
    p.len() <= s.len() && s.subrange(s.len() - p.len(), s.len() as int) == p
}

/// What stands behind the first `n` characters.
pub open spec fn from(s: Seq<char>, n: int) -> Seq<char> {
    s.subrange(n, s.len() as int)
}

/// The first position at which `p` occurs, or the length plus one where it does not.
pub open spec fn first_match(s: Seq<char>, p: Seq<char>) -> int
    decreases s.len(),
{
    if begins(s, p) {
        0
    } else if s.len() == 0 {
        1
    } else {
        1 + first_match(s.drop_first(), p)
    }
}

/// Whether `p` occurs in `s`.
pub open spec fn occurs(s: Seq<char>, p: Seq<char>) -> bool {
    first_match(s, p) <= s.len()
}

pub open spec fn is_upper(c: char) -> bool {
    'A' <= c <= 'Z'
}

pub open spec fn is_lower(c: char) -> bool {
    'a' <= c <= 'z'
}

pub open spec fn is_digit(c: char) -> bool {
    '0' <= c <= '9'
}

pub open spec fn is_alphanumeric(c: char) -> bool {
    is_upper(c) || is_lower(c) || is_digit(c)
}

pub open spec fn is_ascii_char(c: char) -> bool {
    '\0' <= c <= '\u{7f}'
}

/// A lower-case hexadecimal digit.
pub open spec fn is_lower_hex(c: char) -> bool {
    is_digit(c) || 'a' <= c <= 'f'
}

/// The ASCII lower-case form of one character.
pub open spec fn lower(c: char) -> char {
    if is_upper(c) {
        (c as u32 + 32) as char
    } else {
        c
    }
}

/// The ASCII lower-case form of a text.
pub open spec fn lowered(s: Seq<char>) -> Seq<char> {
    Seq::new(s.len(), |i: int| lower(s[i]))
}

/// The decimal digit for a number below ten.
pub open spec fn digit(d: nat) -> char {
    (48 + d) as char
}

/// The decimal form of a number, without leading zeros.
pub open spec fn decimal(n: nat) -> Seq<char>
    decreases n,
{
    if n < 10 {
        seq![digit(n)]
    } else {
        decimal(n / 10).push(digit(n % 10))
    }
}

pub open spec fn all_digits(s: Seq<char>) -> bool {
    forall|i: int| 0 <= i < s.len() ==> is_digit(#[trigger] s[i])
}

/// The number that a sequence of decimal digits writes.
pub open spec fn decimal_value(s: Seq<char>) -> nat
    decreases s.len(),
{
    if s.len() == 0 {
        0
    } else {
        decimal_value(s.drop_last()) * 10 + (s.last() as u32 - 48) as nat
    }
}

/// Strict lexicographic order by code point.
pub open spec fn precedes(a: Seq<char>, b: Seq<char>) -> bool
    decreases a.len(),
{
    if b.len() == 0 {
        false
    } else if a.len() == 0 {
        true
    } else if a[0] != b[0] {
        a[0] < b[0]
    } else {
        precedes(a.drop_first(), b.drop_first())
    }
}

// ---------------------------------------------------------------------------
// Lemmas
// ---------------------------------------------------------------------------

pub proof fn lemma_first_index(s: Seq<char>, c: char)
    ensures
        0 <= first_index(s, c) <= s.len(),
        first_index(s, c) < s.len() ==> s[first_index(s, c)] == c,
        forall|k: int| 0 <= k < first_index(s, c) ==> s[k] != c,
        first_index(s, c) < s.len() <==> s.contains(c),
    decreases s.len(),
{
    if s.len() == 0 {
    } else if s[0] == c {
        assert(s.contains(c));
    } else {
        let t = s.drop_first();
        lemma_first_index(t, c);
        let i = first_index(t, c);
        assert(forall|k: int| 0 < k < s.len() ==> s[k] == t[k - 1]);
        assert forall|k: int| 0 <= k < 1 + i implies s[k] != c by {
            if k > 0 {
                assert(t[k - 1] != c);
            }
        }
        if i < t.len() {
            assert(s[i + 1] == c);
        } else if s.contains(c) {
            let k = choose|k: int| 0 <= k < s.len() && s[k] == c;
            assert(t[k - 1] == c);
        }
    }
}

/// The first position of a character is settled by the characters before it.
pub proof fn lemma_first_index_is(s: Seq<char>, c: char, i: int)
    requires
        0 <= i <= s.len(),
        i < s.len() ==> s[i] == c,
        forall|k: int| 0 <= k < i ==> s[k] != c,
    ensures
        first_index(s, c) == i,
{
    lemma_first_index(s, c);
    let j = first_index(s, c);
    if j < i {
        assert(s[j] != c);
    } else if i < j {
        assert(s[i] != c);
    }
}

pub proof fn lemma_last_index(s: Seq<char>, c: char)
    ensures
        -1 <= last_index(s, c) < s.len(),
        last_index(s, c) >= 0 ==> s[last_index(s, c)] == c,
        forall|k: int| last_index(s, c) < k < s.len() ==> s[k] != c,
    decreases s.len(),
{
    if s.len() > 0 && s.last() != c {
        let t = s.drop_last();
        lemma_last_index(t, c);
        assert forall|k: int| last_index(s, c) < k < s.len() implies s[k] != c by {
            if k < t.len() {
                assert(t[k] != c);
            }
        }
    }
}

/// The pieces of a text hold no separator, and joined they are the text.
pub proof fn lemma_split(s: Seq<char>, c: char)
    ensures
        split(s, c).len() >= 1,
        forall|i: int| 0 <= i < split(s, c).len() ==> !(#[trigger] split(s, c)[i]).contains(c),
        join(split(s, c), c) == s,
    decreases s.len(),
{
    lemma_first_index(s, c);
    let i = first_index(s, c);
    if i < s.len() {
        let rest = s.subrange(i + 1, s.len() as int);
        let tail = split(rest, c);
        lemma_split(rest, c);
        let all = split(s, c);
        assert(all == seq![s.subrange(0, i)] + tail);
        assert(all.drop_first() =~= tail);
        assert forall|k: int| 0 <= k < all.len() implies !(#[trigger] all[k]).contains(c) by {
            if k == 0 {
                assert(all[0] =~= s.subrange(0, i));
                assert forall|m: int| 0 <= m < all[0].len() implies all[0][m] != c by {
                    assert(s[m] != c);
                }
            } else {
                assert(all[k] == tail[k - 1]);
            }
        }
        assert(join(all, c) == all[0] + seq![c] + join(tail, c));
        assert(all[0] + seq![c] + rest =~= s);
    } else {
        assert(split(s, c) =~= seq![s]);
    }
}

/// Splitting what was joined gives the pieces back.
pub proof fn lemma_join_splits(parts: Seq<Seq<char>>, c: char)
    requires
        parts.len() >= 1,
        forall|i: int| 0 <= i < parts.len() ==> !(#[trigger] parts[i]).contains(c),
    ensures
        split(join(parts, c), c) == parts,
    decreases parts.len(),
{
    let s = join(parts, c);
    if parts.len() == 1 {
        lemma_first_index(s, c);
        assert(split(s, c) =~= parts);
    } else {
        let rest = parts.drop_first();
        assert forall|i: int| 0 <= i < rest.len() implies !(#[trigger] rest[i]).contains(c) by {
            assert(rest[i] == parts[i + 1]);
        }
        lemma_join_splits(rest, c);
        let i = parts[0].len() as int;
        assert(s[i] == c);
        assert forall|k: int| 0 <= k < i implies s[k] != c by {
            assert(s[k] == parts[0][k]);
        }
        lemma_first_index_is(s, c, i);
        assert(s.subrange(0, i) =~= parts[0]);
        assert(s.subrange(i + 1, s.len() as int) =~= join(rest, c));
        assert(split(s, c) =~= parts);
    }
}

pub proof fn lemma_first_match(s: Seq<char>, p: Seq<char>)
    ensures
        0 <= first_match(s, p) <= s.len() + 1,
        first_match(s, p) <= s.len() ==> begins(from(s, first_match(s, p)), p),
        forall|k: int| 0 <= k < first_match(s, p) && k <= s.len() ==> !begins(#[trigger] from(s, k), p),
    decreases s.len(),
{
    assert(from(s, 0) =~= s);
    if !begins(s, p) && s.len() > 0 {
        let t = s.drop_first();
        lemma_first_match(t, p);
        assert forall|k: int| 0 < k <= s.len() implies #[trigger] from(s, k) == from(t, k - 1) by {
            assert(from(s, k) =~= from(t, k - 1));
        }
    }
}

pub proof fn lemma_first_match_is(s: Seq<char>, p: Seq<char>, i: int)
    requires
        0 <= i <= s.len(),
        begins(from(s, i), p),
        forall|k: int| 0 <= k < i ==> !begins(#[trigger] from(s, k), p),
    ensures
        first_match(s, p) == i,
{
    lemma_first_match(s, p);
    let j = first_match(s, p);
    if j < i {
        assert(!begins(from(s, j), p));
    } else if i < j {
        assert(!begins(from(s, i), p));
    }
}

/// The decimal form consists of digits and writes the number.
pub proof fn lemma_decimal(n: nat)
    ensures
        decimal(n).len() >= 1,
        all_digits(decimal(n)),
        decimal_value(decimal(n)) == n,
        decimal(n).len() > 1 ==> decimal(n)[0] != '0',
        decimal(n)[0] == '0' ==> n == 0,
    decreases n,
{
    let s = decimal(n);
    if n < 10 {
        assert(s.drop_last() =~= Seq::<char>::empty());
        assert(decimal_value(s.drop_last()) == 0);
    } else {
        lemma_decimal(n / 10);
        assert(s.drop_last() =~= decimal(n / 10));
        assert(s[0] == decimal(n / 10)[0]);
    }
}

/// A digit sequence without a leading zero is the decimal form of its number.
pub proof fn lemma_decimal_value(s: Seq<char>)
    requires
        s.len() >= 1,
        all_digits(s),
        s.len() > 1 ==> s[0] != '0',
    ensures
        decimal(decimal_value(s)) == s,
        s.len() > 1 ==> decimal_value(s) >= 10,
    decreases s.len(),
{
    let v = decimal_value(s);
    let d = (s.last() as u32 - 48) as nat;
    assert(is_digit(s.last()));
    if s.len() == 1 {
        assert(s.drop_last() =~= Seq::<char>::empty());
        assert(decimal_value(s.drop_last()) == 0);
        assert(decimal(v) =~= s);
    } else {
        let t = s.drop_last();
        assert(t[0] == s[0]);
        lemma_decimal_value(t);
        if t.len() == 1 {
            assert(is_digit(t[0]));
            assert(t.drop_last() =~= Seq::<char>::empty());
            assert(decimal_value(t.drop_last()) == 0);
            assert(decimal_value(t) >= 1);
        }
        assert(v / 10 == decimal_value(t));
        assert(v % 10 == d);
        assert(decimal(v) =~= s);
    }
}

/// A longer run of digits writes at least as large a number.
pub proof fn lemma_decimal_value_grows(s: Seq<char>, n: int)
    requires
        0 <= n <= s.len(),
    ensures
        decimal_value(s.subrange(0, n)) <= decimal_value(s),
    decreases s.len() - n,
{
    if n < s.len() {
        lemma_decimal_value_grows(s, n + 1);
        let t = s.subrange(0, n + 1);
        assert(t.drop_last() =~= s.subrange(0, n));
    } else {
        assert(s.subrange(0, n) =~= s);
    }
}

pub proof fn lemma_precedes_irreflexive(a: Seq<char>)
    ensures
        !precedes(a, a),
    decreases a.len(),
{
    if a.len() > 0 {
        lemma_precedes_irreflexive(a.drop_first());
    }
}

pub proof fn lemma_precedes_transitive(a: Seq<char>, b: Seq<char>, c: Seq<char>)
    requires
        precedes(a, b),
        precedes(b, c),
    ensures
        precedes(a, c),
    decreases a.len(),
{
    if a.len() > 0 && a[0] == b[0] && b[0] == c[0] {
        lemma_precedes_transitive(a.drop_first(), b.drop_first(), c.drop_first());
    }
}

pub proof fn lemma_precedes_total(a: Seq<char>, b: Seq<char>)
    ensures
        a == b || precedes(a, b) || precedes(b, a),
    decreases a.len(),
{
    if a.len() > 0 && b.len() > 0 && a[0] == b[0] {
        lemma_precedes_total(a.drop_first(), b.drop_first());
        if a.drop_first() == b.drop_first() {
            assert(a =~= seq![a[0]] + a.drop_first());
            assert(b =~= seq![b[0]] + b.drop_first());
        }
    } else if a.len() == 0 && b.len() == 0 {
        assert(a =~= b);
    }
}

// ---------------------------------------------------------------------------
// Executable text
// ---------------------------------------------------------------------------

/// The characters of a text.
pub fn chars(s: &str) -> (v: Vec<char>)
    ensures
        v@ == s@,
{
    let mut v: Vec<char> = Vec::new();
    for c in it: s.chars()
        invariant
            it.seq() == s@,
            v@ == s@.subrange(0, it.index() as int),
    {
        v.push(c);
        proof {
            assert(s@.subrange(0, it.index() as int + 1) =~= s@.subrange(0, it.index() as int).push(c));
        }
    }
    proof {
        assert(s@.subrange(0, s@.len() as int) =~= s@);
    }
    v
}

/// The text of the characters from `start` up to `end`.
pub fn slice(v: &[char], start: usize, end: usize) -> (s: String)
    requires
        start <= end <= v@.len(),
    ensures
        s@ == v@.subrange(start as int, end as int),
{
    let mut s: String = String::new();
    let mut i: usize = start;
    while i < end
        invariant
            start <= i <= end <= v@.len(),
            s@ == v@.subrange(start as int, i as int),
        decreases end - i,
    {
        s.push(v[i]);
        proof {
            assert(v@.subrange(start as int, i as int + 1) =~= v@.subrange(start as int, i as int).push(v@[i as int]));
        }
        i += 1;
    }
    s
}

/// The text of a character sequence.
pub fn text(v: &[char]) -> (s: String)
    ensures
        s@ == v@,
{
    let s = slice(v, 0, v.len());
    proof {
        assert(v@.subrange(0, v@.len() as int) =~= v@);
    }
    s
}

/// A copy of a text.
pub fn copy(s: &str) -> (r: String)
    ensures
        r@ == s@,
{
    s.to_owned()
}

/// Whether two texts are equal.
pub fn same(a: &str, b: &str) -> (r: bool)
    ensures
        r == (a@ == b@),
{
    let x = a.as_bytes();
    let y = b.as_bytes();
    proof {
        encode_utf8_decode_utf8(a@);
        encode_utf8_decode_utf8(b@);
    }
    if x.len() != y.len() {
        return false;
    }
    let mut i: usize = 0;
    while i < x.len()
        invariant
            i <= x@.len(),
            x@.len() == y@.len(),
            x@ == encode_utf8(a@),
            y@ == encode_utf8(b@),
            forall|k: int| 0 <= k < i ==> x@[k] == y@[k],
        decreases x@.len() - i,
    {
        if x[i] != y[i] {
            return false;
        }
        i += 1;
    }
    proof {
        assert(x@ =~= y@);
    }
    true
}

/// The texts `a` and `b` one behind the other.
pub fn concat(a: &str, b: &str) -> (r: String)
    ensures
        r@ == a@ + b@,
{
    let mut r = a.to_owned();
    r.append(b);
    r
}

/// Three texts one behind the other.
pub fn concat3(a: &str, b: &str, c: &str) -> (r: String)
    ensures
        r@ == a@ + b@ + c@,
{
    let mut r = a.to_owned();
    r.append(b);
    r.append(c);
    r
}

/// The number of bytes of a text in UTF-8.
pub fn byte_length(s: &str) -> (n: usize)
    ensures
        n == encode_utf8(s@).len(),
{
    s.as_bytes().len()
}

pub fn lower_char(c: char) -> (r: char)
    ensures
        r == lower(c),
{
    if 'A' <= c && c <= 'Z' {
        (c as u8 + 32) as char
    } else {
        c
    }
}

/// The ASCII lower-case form of a text.
pub fn lowercase(s: &str) -> (r: String)
    ensures
        r@ == lowered(s@),
{
    let v = chars(s);
    let mut r: String = String::new();
    let mut i: usize = 0;
    while i < v.len()
        invariant
            i <= v@.len(),
            v@ == s@,
            r@ == lowered(s@).subrange(0, i as int),
        decreases v@.len() - i,
    {
        r.push(lower_char(v[i]));
        proof {
            assert(lowered(s@).subrange(0, i as int + 1) =~= lowered(s@).subrange(0, i as int).push(lower(v@[i as int])));
        }
        i += 1;
    }
    proof {
        assert(lowered(s@).subrange(0, s@.len() as int) =~= lowered(s@));
    }
    r
}

/// The position of the first `c` at or behind `start`, or the length.
pub fn find_char(v: &[char], start: usize, c: char) -> (r: usize)
    requires
        start <= v@.len(),
    ensures
        start <= r <= v@.len(),
        r - start == first_index(v@.subrange(start as int, v@.len() as int), c),
        r < v@.len() ==> v@[r as int] == c,
        forall|k: int| start <= k < r ==> v@[k] != c,
{
    let mut i: usize = start;
    while i < v.len()
        invariant
            start <= i <= v@.len(),
            forall|k: int| start <= k < i ==> v@[k] != c,
        decreases v@.len() - i,
    {
        if v[i] == c {
            proof {
                lemma_first_index_is(v@.subrange(start as int, v@.len() as int), c, i - start);
            }
            return i;
        }
        i += 1;
    }
    proof {
        lemma_first_index_is(v@.subrange(start as int, v@.len() as int), c, i - start);
    }
    i
}

/// Whether `c` occurs in the text.
pub fn contains_char(s: &str, c: char) -> (r: bool)
    ensures
        r == s@.contains(c),
{
    let v = chars(s);
    let i = find_char(&v, 0, c);
    proof {
        assert(v@.subrange(0, v@.len() as int) =~= v@);
        lemma_first_index(v@, c);
    }
    i < v.len()
}

/// The pieces of a text between the occurrences of `c`.
pub fn split_text(s: &str, c: char) -> (parts: Vec<String>)
    ensures
        texts(parts@) == split(s@, c),
        parts@.len() >= 1,
{
    let v = chars(s);
    let mut parts: Vec<String> = Vec::new();
    let mut start: usize = 0;
    proof {
        assert(v@.subrange(0, v@.len() as int) =~= v@);
        assert(texts(parts@) + split(s@, c) =~= split(s@, c));
    }
    loop
        invariant
            start <= v@.len(),
            v@ == s@,
            texts(parts@) + split(v@.subrange(start as int, v@.len() as int), c) == split(s@, c),
        decreases v@.len() - start,
    {
        let ghost rest = v@.subrange(start as int, v@.len() as int);
        let end = find_char(&v, start, c);
        let part = slice(&v, start, end);
        let ghost before = parts@;
        parts.push(part);
        proof {
            lemma_first_index(rest, c);
            assert(texts(parts@) =~= texts(before).push(part@));
        }
        if end == v.len() {
            proof {
                assert(part@ =~= rest);
                assert(texts(parts@) =~= texts(before) + seq![rest]);
            }
            return parts;
        }
        proof {
            assert(rest.subrange(0, end - start) =~= part@);
            assert(rest.subrange(end - start + 1, rest.len() as int) =~= v@.subrange(end as int + 1, v@.len() as int));
            assert(texts(parts@) + split(v@.subrange(end as int + 1, v@.len() as int), c)
                =~= texts(before) + split(rest, c));
        }
        start = end + 1;
    }
}

/// Whether the characters at `at` are those of `p`.
pub fn matches_at(v: &[char], at: usize, p: &[char]) -> (r: bool)
    requires
        at <= v@.len(),
    ensures
        r == begins(v@.subrange(at as int, v@.len() as int), p@),
{
    let count: usize = v.len();
    if count - at < p.len() {
        return false;
    }
    let mut i: usize = 0;
    while i < p.len()
        invariant
            at <= v@.len(),
            count == v@.len(),
            p@.len() <= v@.len() - at,
            i <= p@.len(),
            forall|k: int| 0 <= k < i ==> v@[at + k] == p@[k],
        decreases p@.len() - i,
    {
        if v[at + i] != p[i] {
            proof {
                let rest = v@.subrange(at as int, v@.len() as int);
                assert(rest.subrange(0, p@.len() as int)[i as int] != p@[i as int]);
            }
            return false;
        }
        i += 1;
    }
    proof {
        let rest = v@.subrange(at as int, v@.len() as int);
        assert(rest.subrange(0, p@.len() as int) =~= p@);
    }
    true
}

/// The first position at which `p` occurs.
pub fn find_text(v: &[char], p: &[char]) -> (r: Option<usize>)
    ensures
        r is Some <==> occurs(v@, p@),
        r is Some ==> r->0 == first_match(v@, p@) && r->0 + p@.len() <= v@.len(),
{
    let mut i: usize = 0;
    loop
        invariant
            i <= v@.len(),
            forall|k: int| 0 <= k < i ==> !begins(#[trigger] from(v@, k), p@),
        decreases v@.len() - i,
    {
        if matches_at(v, i, p) {
            proof {
                lemma_first_match_is(v@, p@, i as int);
            }
            return Some(i);
        }
        if i == v.len() {
            proof {
                lemma_first_match(v@, p@);
                if occurs(v@, p@) {
                    let j = first_match(v@, p@);
                    assert(begins(from(v@, j), p@));
                }
            }
            return None;
        }
        i += 1;
    }
}

/// Whether a text begins with another.
pub fn starts_with(s: &str, p: &str) -> (r: bool)
    ensures
        r == begins(s@, p@),
{
    let v = chars(s);
    let q = chars(p);
    proof {
        assert(v@.subrange(0, v@.len() as int) =~= v@);
    }
    matches_at(&v, 0, &q)
}

/// Whether a text ends with another.
pub fn ends_with(s: &str, p: &str) -> (r: bool)
    ensures
        r == ends(s@, p@),
{
    let v = chars(s);
    let q = chars(p);
    if v.len() < q.len() {
        return false;
    }
    proof {
        let rest = v@.subrange(v@.len() - q@.len(), v@.len() as int);
        assert(rest.subrange(0, q@.len() as int) =~= rest);
    }
    matches_at(&v, v.len() - q.len(), &q)
}

/// What stands behind a prefix, where the text has it.
pub fn without_prefix(s: &str, p: &str) -> (r: Option<String>)
    ensures
        r is Some <==> begins(s@, p@),
        r is Some ==> r->0@ == from(s@, p@.len() as int),
{
    if !starts_with(s, p) {
        return None;
    }
    let v = chars(s);
    let q = chars(p);
    Some(slice(&v, q.len(), v.len()))
}

/// Whether the first text stands strictly before the second in code-point order.
pub fn text_precedes(a: &str, b: &str) -> (r: bool)
    ensures
        r == precedes(a@, b@),
{
    let x = chars(a);
    let y = chars(b);
    let mut i: usize = 0;
    proof {
        assert(x@.subrange(0, x@.len() as int) =~= x@);
        assert(y@.subrange(0, y@.len() as int) =~= y@);
    }
    loop
        invariant
            x@ == a@,
            y@ == b@,
            i <= x@.len(),
            i <= y@.len(),
            precedes(a@, b@) == precedes(
                x@.subrange(i as int, x@.len() as int),
                y@.subrange(i as int, y@.len() as int),
            ),
        decreases x@.len() - i,
    {
        if i == y.len() {
            return false;
        }
        if i == x.len() {
            return true;
        }
        if x[i] != y[i] {
            return x[i] < y[i];
        }
        proof {
            assert(x@.subrange(i as int, x@.len() as int).drop_first() =~= x@.subrange(i as int + 1, x@.len() as int));
            assert(y@.subrange(i as int, y@.len() as int).drop_first() =~= y@.subrange(i as int + 1, y@.len() as int));
        }
        i += 1;
    }
}

/// The decimal form of a number.
pub fn number_text(n: u64) -> (s: String)
    ensures
        s@ == decimal(n as nat),
{
    wide_number_text(n as u128)
}

/// The decimal form of a number of twice the width.
pub fn wide_number_text(n: u128) -> (s: String)
    ensures
        s@ == decimal(n as nat),
    decreases n,
{
    if n < 10 {
        let mut s: String = String::new();
        s.push((48 + n as u8) as char);
        proof {
            assert(s@ =~= seq![digit(n as nat)]);
        }
        s
    } else {
        let mut s = wide_number_text(n / 10);
        s.push((48 + (n % 10) as u8) as char);
        s
    }
}

/// The number written by the digits from `start` up to `end`, where there is
/// at least one, all are digits and the number is at most `limit`.
pub fn read_number(v: &[char], start: usize, end: usize, limit: u64) -> (r: Option<u64>)
    requires
        start <= end <= v@.len(),
        limit < 0x1000_0000_0000_0000,
    ensures
        ({
            let s = v@.subrange(start as int, end as int);
            let fine = s.len() >= 1 && all_digits(s) && decimal_value(s) <= limit;
            &&& r is Some <==> fine
            &&& r is Some ==> r->0 == decimal_value(s)
        }),
{
    let ghost s = v@.subrange(start as int, end as int);
    if start == end {
        return None;
    }
    let mut value: u64 = 0;
    let mut i: usize = start;
    proof {
        assert(s.subrange(0, 0) =~= Seq::<char>::empty());
    }
    while i < end
        invariant
            start <= i <= end <= v@.len(),
            limit < 0x1000_0000_0000_0000,
            s == v@.subrange(start as int, end as int),
            forall|k: int| 0 <= k < i - start ==> is_digit(#[trigger] s[k]),
            value == decimal_value(s.subrange(0, i - start)),
            value <= limit,
        decreases end - i,
    {
        let c = v[i];
        proof {
            assert(s[i - start] == c);
            assert(s.subrange(0, i - start + 1).drop_last() =~= s.subrange(0, i - start));
            lemma_decimal_value_grows(s, i - start + 1);
        }
        if !('0' <= c && c <= '9') {
            return None;
        }
        value = value * 10 + (c as u64 - 48);
        if value > limit {
            return None;
        }
        i += 1;
    }
    proof {
        assert(s.subrange(0, end - start) =~= s);
    }
    Some(value)
}

} // verus!
