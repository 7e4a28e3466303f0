//! Digests, their hexadecimal forms, identities and approval tokens.

use sha2::Digest;
use vstd::arithmetic::power::pow;
use vstd::prelude::*;
use vstd::string::*;
use vstd::utf8::*;

use crate::address::{hex_digit, hex_number, hex_value, is_hex};
use crate::fault::{fault, Fault, FaultKind, FaultView};
use crate::text::{chars, is_lower_hex};

verus! {

// ---------------------------------------------------------------------------
// Outside digests and identities
// ---------------------------------------------------------------------------

/// What SHA-256 gives on a byte sequence.
pub uninterp spec fn sha256_of(bytes: Seq<u8>) -> Seq<u8>;

/// Calls `sha2::Sha256::digest`; the result is a function of the bytes alone.
#[verifier::external_body]
pub(crate) fn sha256_digest(bytes: &[u8]) -> (d: [u8; 32])
    ensures
        d@ == sha256_of(bytes@),
{
    sha2::Sha256::digest(bytes).into()
}

/// What BLAKE3 gives on a byte sequence.
pub uninterp spec fn blake3_of(bytes: Seq<u8>) -> Seq<u8>;

/// Calls `blake3::hash`; the result is a function of the bytes alone.
#[verifier::external_body]
pub(crate) fn blake3_digest(bytes: &[u8]) -> (d: [u8; 32])
    ensures
        d@ == blake3_of(bytes@),
{
    *blake3::hash(bytes).as_bytes()
}

/// The number that bytes write, the most significant first.
pub open spec fn be_value(b: Seq<u8>) -> nat
    decreases b.len(),
{
    if b.len() == 0 {
        0
    } else {
        be_value(b.drop_last()) * 256 + b.last() as nat
    }
}

/// Calls `uuid::Uuid::from_bytes` and `as_u128`: the identity as the number
/// that its sixteen bytes write in network order.
#[verifier::external_body]
pub(crate) fn uuid_from_bytes(bytes: &[u8; 16]) -> (id: u128)
    ensures
        id as nat == be_value(bytes@),
{
    uuid::Uuid::from_bytes(*bytes).as_u128()
}

/// The last `width` hexadecimal digits of a number, in lower case.
pub open spec fn hex_fixed(n: nat, width: nat) -> Seq<char>
    decreases width,
{
    if width == 0 {
        Seq::empty()
    } else {
        hex_fixed(n / 16, (width - 1) as nat).push(hex_digit(n % 16))
    }
}

/// An identity in its hyphenated lower-case form.
pub open spec fn uuid_text(id: u128) -> Seq<char> {
    let d = hex_fixed(id as nat, 32);
    d.subrange(0, 8) + seq!['-'] + d.subrange(8, 12) + seq!['-'] + d.subrange(12, 16) + seq!['-']
        + d.subrange(16, 20) + seq!['-'] + d.subrange(20, 32)
}

/// Calls `uuid::Uuid::to_string`, which writes the 32 hexadecimal digits of the
/// identity in lower case with hyphens behind the 8th, 12th, 16th and 20th.
#[verifier::external_body]
pub(crate) fn uuid_to_text(id: u128) -> (s: String)
    ensures
        s@ == uuid_text(id),
{
    uuid::Uuid::from_u128(id).to_string()
}

/// Whether a text has the hyphenated form of an identity.
pub open spec fn is_hyphenated(s: Seq<char>) -> bool {
    &&& s.len() == 36
    &&& s[8] == '-'
    &&& s[13] == '-'
    &&& s[18] == '-'
    &&& s[23] == '-'
    &&& forall|i: int| 0 <= i < 32 ==> is_hex(#[trigger] uuid_digits(s)[i])
}

/// The digits of a hyphenated text.
pub open spec fn uuid_digits(s: Seq<char>) -> Seq<char> {
    s.subrange(0, 8) + s.subrange(9, 13) + s.subrange(14, 18) + s.subrange(19, 23) + s.subrange(
        24,
        36,
    )
}

/// Calls `uuid::Uuid::parse_str` on a text of 36 bytes: of that length it takes
/// the hyphenated form only, in either case, and gives the number it writes.
#[verifier::external_body]
pub(crate) fn uuid_parse(text: &str) -> (r: Option<u128>)
    requires
        encode_utf8(text@).len() == 36,
    ensures
        r is Some <==> is_hyphenated(text@),
        r is Some ==> r->0 as nat == hex_number(uuid_digits(text@)),
{
    uuid::Uuid::parse_str(text).ok().map(|id| id.as_u128())
}

// ---------------------------------------------------------------------------
// Digests
// ---------------------------------------------------------------------------

/// The SHA-256 digest of a byte sequence.
pub fn sha256(bytes: &[u8]) -> (d: [u8; 32])
    ensures
        d@ == sha256_of(bytes@),
{
    sha256_digest(bytes)
}

/// The digest that earlier generations were identified by.
pub fn legacy_digest(bytes: &[u8]) -> (d: [u8; 32])
    ensures
        d@ == blake3_of(bytes@),
{
    blake3_digest(bytes)
}

/// Whether two digests are equal.
pub fn same_digest(a: &[u8; 32], b: &[u8; 32]) -> (r: bool)
    ensures
        r == (a@ == b@),
{
    let mut i: usize = 0;
    while i < 32
        invariant
            i <= 32,
            a@.len() == 32,
            b@.len() == 32,
            forall|k: int| 0 <= k < i ==> a@[k] == b@[k],
        decreases 32 - i,
    {
        if a[i] != b[i] {
            proof {
                assert(a@[i as int] != b@[i as int]);
            }
            return false;
        }
        i += 1;
    }
    proof {
        assert(a@ =~= b@);
    }
    true
}

pub open spec fn option_digest(d: Option<[u8; 32]>) -> Option<Seq<u8>> {
    match d {
        Some(d) => Some(d@),
        None => None,
    }
}

/// Whether two digests that may be absent are equal.
pub fn same_option_digest(a: &Option<[u8; 32]>, b: &Option<[u8; 32]>) -> (r: bool)
    ensures
        r == (option_digest(*a) == option_digest(*b)),
{
    match (a, b) {
        (Some(x), Some(y)) => same_digest(x, y),
        (None, None) => true,
        _ => false,
    }
}

/// The hyphenated form of an identity.
pub fn identity_text(id: u128) -> (s: String)
    ensures
        s@ == uuid_text(id),
{
    uuid_to_text(id)
}

// ---------------------------------------------------------------------------
// Hexadecimal forms
// ---------------------------------------------------------------------------

/// Two hexadecimal digits for each byte.
pub open spec fn hex_bytes(b: Seq<u8>) -> Seq<char>
    decreases b.len(),
{
    if b.len() == 0 {
        Seq::empty()
    } else {
        hex_bytes(b.drop_last()) + seq![
            hex_digit((b.last() / 16) as nat),
            hex_digit((b.last() % 16) as nat),
        ]
    }
}

/// The lower-case hexadecimal form of a digest.
pub fn hex(bytes: &[u8; 32]) -> (s: String)
    ensures
        s@ == hex_bytes(bytes@),
        s@.len() == 64,
{
    let mut s: String = String::new();
    let mut i: usize = 0;
    proof {
        assert(bytes@.subrange(0, 0) =~= Seq::<u8>::empty());
    }
    while i < 32
        invariant
            i <= 32,
            bytes@.len() == 32,
            s@ == hex_bytes(bytes@.subrange(0, i as int)),
            s@.len() == 2 * i,
        decreases 32 - i,
    {
        let b = bytes[i];
        let ghost before = s@;
        s.push(nibble_char(b / 16));
        s.push(nibble_char(b % 16));
        proof {
            assert(bytes@.subrange(0, i as int + 1).drop_last() =~= bytes@.subrange(0, i as int));
            assert(s@ =~= before + seq![
                hex_digit((b / 16) as nat),
                hex_digit((b % 16) as nat),
            ]);
        }
        i += 1;
    }
    proof {
        assert(bytes@.subrange(0, 32) =~= bytes@);
    }
    s
}

fn nibble_char(d: u8) -> (c: char)
    requires
        d < 16,
    ensures
        c == hex_digit(d as nat),
{
    if d < 10 {
        (48 + d) as char
    } else {
        (87 + d) as char
    }
}

/// The value of one lower-case hexadecimal digit, and zero for anything else.
pub fn hex_nibble(c: char) -> (v: u8)
    ensures
        v == if is_lower_hex(c) {
            hex_value(c)
        } else {
            0
        },
        v < 16,
{
    if '0' <= c && c <= '9' {
        (c as u8) - 48
    } else if 'a' <= c && c <= 'f' {
        (c as u8) - 87
    } else {
        0
    }
}

/// Whether a text consists of 64 lower-case hexadecimal digits.
pub open spec fn is_digest_text(s: Seq<char>) -> bool {
    s.len() == 64 && forall|i: int| 0 <= i < s.len() ==> is_lower_hex(#[trigger] s[i])
}

/// The bytes that pairs of hexadecimal digits write.
pub open spec fn digest_value(s: Seq<char>) -> Seq<u8> {
    Seq::new(
        s.len() / 2,
        |i: int| (hex_value(s[2 * i]) * 16 + hex_value(s[2 * i + 1])) as u8,
    )
}

/// Whether every character is a lower-case hexadecimal digit.
pub(crate) fn all_lower_hex(v: &[char]) -> (r: bool)
    ensures
        r == forall|i: int| 0 <= i < v@.len() ==> is_lower_hex(#[trigger] v@[i]),
{
    let mut i: usize = 0;
    while i < v.len()
        invariant
            i <= v@.len(),
            forall|k: int| 0 <= k < i ==> is_lower_hex(#[trigger] v@[k]),
        decreases v@.len() - i,
    {
        let c = v[i];
        if !(('0' <= c && c <= '9') || ('a' <= c && c <= 'f')) {
            proof {
                assert(!is_lower_hex(v@[i as int]));
            }
            return false;
        }
        i += 1;
    }
    true
}

/// Reads a digest from its canonical form.
pub fn parse_sha256(value: &str) -> (r: Result<[u8; 32], Fault>)
    ensures
        match r {
            Ok(d) => is_digest_text(value@) && d@ == digest_value(value@),
            Err(e) => !is_digest_text(value@) && e@ == (FaultView {
                kind: FaultKind::InvalidInput,
                message: "the reviewed source manifest SHA-256 must be 64 lowercase hexadecimal characters"@,
            }),
        },
{
    let v = chars(value);
    if v.len() != 64 || !all_lower_hex(&v) {
        return Err(
            fault(
                FaultKind::InvalidInput,
                "the reviewed source manifest SHA-256 must be 64 lowercase hexadecimal characters",
            ),
        );
    }
    let mut d: [u8; 32] = [0; 32];
    let mut i: usize = 0;
    while i < 32
        invariant
            i <= 32,
            v@ == value@,
            v@.len() == 64,
            is_digest_text(v@),
            d@.len() == 32,
            forall|k: int| 0 <= k < i ==> d@[k] == digest_value(v@)[k],
        decreases 32 - i,
    {
        proof {
            assert(is_lower_hex(v@[2 * i as int]));
            assert(is_lower_hex(v@[2 * i as int + 1]));
        }
        let high = hex_nibble(v[2 * i]);
        let low = hex_nibble(v[2 * i + 1]);
        d[i] = high * 16 + low;
        i += 1;
    }
    proof {
        assert(d@ =~= digest_value(value@));
    }
    Ok(d)
}

// ---------------------------------------------------------------------------
// Approval tokens
// ---------------------------------------------------------------------------

/// Whether a presented token is well formed and agrees with the expected one
/// as far as both reach.
pub open spec fn token_authorizes(expected: Seq<char>, provided: Seq<char>) -> bool {
    let e = encode_utf8(expected);
    &&& is_digest_text(provided)
    &&& forall|i: int| 0 <= i < e.len() && i < 64 ==> #[trigger] e[i] == provided[i] as u8
}

/// Accepts exactly the token of the current plan.
pub fn require_token(expected: &str, provided: &str) -> (r: Result<(), Fault>)
    ensures
        r is Ok <==> token_authorizes(expected@, provided@),
        r is Err ==> r->Err_0@ == (FaultView {
            kind: FaultKind::PermissionDenied,
            message: "the approval token does not authorize the current Linux lifecycle plan"@,
        }),
{
    let v = chars(provided);
    let mut equal = v.len() == 64 && all_lower_hex(&v);
    if equal {
        let e = expected.as_bytes();
        let count: usize = e.len();
        let end: usize = if count < 64 {
            count
        } else {
            64
        };
        let mut i: usize = 0;
        while i < end
            invariant
                i <= end <= 64,
                end <= e@.len(),
                end == 64 || end == e@.len(),
                e@ == encode_utf8(expected@),
                v@ == provided@,
                is_digest_text(v@),
                equal == forall|k: int| 0 <= k < i ==> #[trigger] e@[k] == v@[k] as u8,
            decreases end - i,
        {
            proof {
                assert(is_lower_hex(v@[i as int]));
            }
            if e[i] != v[i] as u8 {
                proof {
                    assert(e@[i as int] != v@[i as int] as u8);
                }
                equal = false;
            }
            i += 1;
        }
    }
    if equal {
        Ok(())
    } else {
        Err(
            fault(
                FaultKind::PermissionDenied,
                "the approval token does not authorize the current Linux lifecycle plan",
            ),
        )
    }
}

/// The approval token of an encoded plan.
pub fn token_of(payload: &[u8]) -> (s: String)
    ensures
        s@ == hex_bytes(sha256_of(payload@)),
        s@.len() == 64,
{
    hex(&sha256_digest(payload))
}

// ---------------------------------------------------------------------------
// Laws
// ---------------------------------------------------------------------------

proof fn lemma_hex_bytes(b: Seq<u8>)
    ensures
        hex_bytes(b).len() == 2 * b.len(),
        forall|i: int| 0 <= i < hex_bytes(b).len() ==> is_lower_hex(#[trigger] hex_bytes(b)[i]),
        digest_value(hex_bytes(b)) == b,
    decreases b.len(),
{
    if b.len() == 0 {
        assert(digest_value(hex_bytes(b)) =~= b);
    } else {
        let t = b.drop_last();
        lemma_hex_bytes(t);
        let s = hex_bytes(b);
        let p = hex_bytes(t);
        assert(s.len() == p.len() + 2);
        assert forall|i: int| 0 <= i < s.len() implies is_lower_hex(#[trigger] s[i]) by {
            if i < p.len() {
                assert(s[i] == p[i]);
            }
        }
        assert forall|i: int| 0 <= i < b.len() implies digest_value(s)[i] == b[i] by {
            if i < t.len() {
                assert(s[2 * i] == p[2 * i]);
                assert(s[2 * i + 1] == p[2 * i + 1]);
                assert(digest_value(p)[i] == t[i]);
            }
        }
        assert(digest_value(s) =~= b);
    }
}

/// A digest is read back from its hexadecimal form, which is canonical.
pub proof fn law_hex_reads_back(b: Seq<u8>)
    requires
        b.len() == 32,
    ensures
        is_digest_text(hex_bytes(b)),
        digest_value(hex_bytes(b)) == b,
{
    lemma_hex_bytes(b);
}

/// A canonical digest text is the hexadecimal form of what it writes.
pub proof fn law_digest_text_is_canonical(s: Seq<char>)
    requires
        is_digest_text(s),
    ensures
        hex_bytes(digest_value(s)) == s,
{
    lemma_digest_text(s, 32);
    assert(s.subrange(0, 64) =~= s);
    assert(digest_value(s).subrange(0, 32) =~= digest_value(s));
}

proof fn lemma_digest_text(s: Seq<char>, n: int)
    requires
        is_digest_text(s),
        0 <= n <= 32,
    ensures
        hex_bytes(digest_value(s).subrange(0, n)) == s.subrange(0, 2 * n),
    decreases n,
{
    let d = digest_value(s);
    if n == 0 {
        assert(d.subrange(0, 0) =~= Seq::<u8>::empty());
        assert(s.subrange(0, 0) =~= Seq::<char>::empty());
    } else {
        lemma_digest_text(s, n - 1);
        assert(d.subrange(0, n).drop_last() =~= d.subrange(0, n - 1));
        assert(is_lower_hex(s[2 * (n - 1)]));
        assert(is_lower_hex(s[2 * (n - 1) + 1]));
        let b = d[n - 1];
        assert(b / 16 == hex_value(s[2 * (n - 1)]));
        assert(b % 16 == hex_value(s[2 * (n - 1) + 1]));
        assert(s.subrange(0, 2 * n) =~= s.subrange(0, 2 * (n - 1)) + seq![
            s[2 * (n - 1)],
            s[2 * (n - 1) + 1],
        ]);
    }
}

/// Against the token of a plan, which is the form of a digest, exactly the
/// same text authorizes.
pub proof fn law_token_is_exact(digest: Seq<u8>, provided: Seq<char>)
    requires
        digest.len() == 32,
    ensures
        token_authorizes(hex_bytes(digest), provided) <==> provided == hex_bytes(digest),
{
    let expected = hex_bytes(digest);
    law_hex_reads_back(digest);
    assert forall|i: int| 0 <= i < 64 implies '\0' <= #[trigger] expected[i] <= '\u{7f}' by {
        assert(is_lower_hex(expected[i]));
    }
    assert(is_ascii_chars(expected));
    is_ascii_chars_encode_utf8(expected);
    let e = encode_utf8(expected);
    if token_authorizes(expected, provided) {
        assert forall|i: int| 0 <= i < 64 implies expected[i] == provided[i] by {
            assert(e[i] == provided[i] as u8);
            assert(expected[i] as u8 == e[i]);
            assert(is_lower_hex(provided[i]));
            assert(is_lower_hex(expected[i]));
        }
        assert(provided =~= expected);
    }
    if provided == expected {
        assert forall|i: int| 0 <= i < e.len() && i < 64 implies #[trigger] e[i] == provided[i] as u8 by {
            assert(expected[i] as u8 == e[i]);
        }
    }
}

proof fn lemma_hex_fixed(n: nat, width: nat)
    requires
        n < pow(16, width),
    ensures
        hex_fixed(n, width).len() == width,
        forall|i: int| 0 <= i < width ==> is_lower_hex(#[trigger] hex_fixed(n, width)[i]),
        hex_number(hex_fixed(n, width)) == n,
    decreases width,
{
    reveal(pow);
    let s = hex_fixed(n, width);
    if width > 0 {
        let w = (width - 1) as nat;
        assert(pow(16, width) == 16 * pow(16, w));
        assert(n / 16 < pow(16, w)) by (nonlinear_arith)
            requires
                n < 16 * pow(16, w),
        ;
        lemma_hex_fixed(n / 16, w);
        assert(s.drop_last() =~= hex_fixed(n / 16, w));
        assert(is_lower_hex(hex_digit(n % 16)));
        assert(hex_value(hex_digit(n % 16)) == n % 16);
    }
}

/// An identity is read back from its text.
pub proof fn law_identity_text_reads_back(id: u128)
    ensures
        is_hyphenated(uuid_text(id)),
        hex_number(uuid_digits(uuid_text(id))) == id as nat,
        forall|i: int|
            0 <= i < 36 ==> is_lower_hex(#[trigger] uuid_text(id)[i]) || uuid_text(id)[i] == '-',
{
    assert(pow(16, 32) == 0x1_0000_0000_0000_0000_0000_0000_0000_0000int) by {
        reveal_with_fuel(pow, 33);
    }
    let d = hex_fixed(id as nat, 32);
    lemma_hex_fixed(id as nat, 32);
    let s = uuid_text(id);
    assert(s.len() == 36);
    assert(uuid_digits(s) =~= d);
    assert forall|i: int| 0 <= i < 32 implies is_hex(#[trigger] uuid_digits(s)[i]) by {
        assert(is_lower_hex(d[i]));
    }
}

/// Different identities have different texts.
pub proof fn law_identity_text_is_injective(a: u128, b: u128)
    requires
        uuid_text(a) == uuid_text(b),
    ensures
        a == b,
{
    law_identity_text_reads_back(a);
    law_identity_text_reads_back(b);
}

} // verus!
