//! Canonical lookup names and the patterns that claim them.

use vstd::prelude::*;
use vstd::string::*;
use vstd::utf8::*;

use crate::address::{address_value, ipv4_value, law_ipv4_text_is_canonical, parse_address};
use crate::text::{
    byte_length, chars, concat, concat3, copy, decimal, ends, ends_with, first_index, from,
    is_alphanumeric, is_ascii_char, is_digit, is_lower, is_upper, join, lemma_first_index,
    lemma_split, lower, lowercase, lowered, number_text, same, slice, split, split_text, texts,
    without_prefix, begins,
};

verus! {

/// A validation failure for a Remap lookup name or pattern.
#[derive(Debug, Clone, PartialEq, Eq)]
pub enum RemapNameError {
    /// The supplied name is empty.
    Empty,
    /// The canonical name exceeds the DNS wire limit.
    NameTooLong(usize),
    /// The name contains an empty label.
    EmptyLabel,
    /// A label exceeds 63 bytes.
    LabelTooLong(String),
    /// A label begins with a hyphen.
    LabelStartsWithHyphen(String),
    /// A label ends with a hyphen.
    LabelEndsWithHyphen(String),
    /// A label contains a character outside the ASCII hostname policy.
    InvalidCharacter {
        /// The rejected character.
        character: char,
        /// The complete label containing the character.
        label: String,
    },
    /// Address literals are destinations, not names clients resolve through DNS.
    AddressLiteral(String),
    /// A wildcard must identify a suffix.
    WildcardWithoutSuffix,
}

/// A name failure over plain sequences.
pub enum RemapNameErrorView {
    Empty,
    NameTooLong(nat),
    EmptyLabel,
    LabelTooLong(Seq<char>),
    LabelStartsWithHyphen(Seq<char>),
    LabelEndsWithHyphen(Seq<char>),
    InvalidCharacter { character: char, label: Seq<char> },
    AddressLiteral(Seq<char>),
    WildcardWithoutSuffix,
}

impl View for RemapNameError {
    type V = RemapNameErrorView;

    open spec fn view(&self) -> RemapNameErrorView {
        match self {
            RemapNameError::Empty => RemapNameErrorView::Empty,
            RemapNameError::NameTooLong(n) => RemapNameErrorView::NameTooLong(*n as nat),
            RemapNameError::EmptyLabel => RemapNameErrorView::EmptyLabel,
            RemapNameError::LabelTooLong(l) => RemapNameErrorView::LabelTooLong(l@),
            RemapNameError::LabelStartsWithHyphen(l) => RemapNameErrorView::LabelStartsWithHyphen(
                l@,
            ),
            RemapNameError::LabelEndsWithHyphen(l) => RemapNameErrorView::LabelEndsWithHyphen(l@),
            RemapNameError::InvalidCharacter { character, label } => {
                RemapNameErrorView::InvalidCharacter { character: *character, label: label@ }
            },
            RemapNameError::AddressLiteral(v) => RemapNameErrorView::AddressLiteral(v@),
            RemapNameError::WildcardWithoutSuffix => RemapNameErrorView::WildcardWithoutSuffix,
        }
    }
}

/// The sentence that describes a name failure.
pub open spec fn name_error_text(e: RemapNameErrorView) -> Seq<char> {
    match e {
        RemapNameErrorView::Empty => "a mapped name cannot be empty"@,
        RemapNameErrorView::NameTooLong(n) => "the canonical name is "@ + decimal(n)
            + " bytes; DNS names are limited to 253 bytes"@,
        RemapNameErrorView::EmptyLabel => "a mapped name cannot contain an empty DNS label"@,
        RemapNameErrorView::LabelTooLong(l) => "the DNS label '"@ + l + "' exceeds 63 bytes"@,
        RemapNameErrorView::LabelStartsWithHyphen(l) => "the DNS label '"@ + l
            + "' cannot start with a hyphen"@,
        RemapNameErrorView::LabelEndsWithHyphen(l) => "the DNS label '"@ + l
            + "' cannot end with a hyphen"@,
        RemapNameErrorView::InvalidCharacter { character, label } => "the character '"@.push(
            character,
        ) + "' is not valid in the DNS label '"@ + label + "'"@,
        RemapNameErrorView::AddressLiteral(v) => "'"@ + v
            + "' is an address literal, not a DNS name that Remap can override"@,
        RemapNameErrorView::WildcardWithoutSuffix => {
            "a wildcard must include a suffix, for example '*.lab'"@
        },
    }
}

impl RemapNameError {
    /// The sentence that describes the failure.
    pub fn to_text(&self) -> (s: String)
        ensures
            s@ == name_error_text(self@),
    {
        match self {
            RemapNameError::Empty => copy("a mapped name cannot be empty"),
            RemapNameError::NameTooLong(n) => concat3(
                "the canonical name is ",
                number_text(*n as u64).as_str(),
                " bytes; DNS names are limited to 253 bytes",
            ),
            RemapNameError::EmptyLabel => copy("a mapped name cannot contain an empty DNS label"),
            RemapNameError::LabelTooLong(l) => concat3(
                "the DNS label '",
                l.as_str(),
                "' exceeds 63 bytes",
            ),
            RemapNameError::LabelStartsWithHyphen(l) => concat3(
                "the DNS label '",
                l.as_str(),
                "' cannot start with a hyphen",
            ),
            RemapNameError::LabelEndsWithHyphen(l) => concat3(
                "the DNS label '",
                l.as_str(),
                "' cannot end with a hyphen",
            ),
            RemapNameError::InvalidCharacter { character, label } => {
                let mut s = copy("the character '");
                s.push(*character);
                s.append("' is not valid in the DNS label '");
                s.append(label.as_str());
                s.append("'");
                s
            },
            RemapNameError::AddressLiteral(v) => concat3(
                "'",
                v.as_str(),
                "' is an address literal, not a DNS name that Remap can override",
            ),
            RemapNameError::WildcardWithoutSuffix => {
                copy("a wildcard must include a suffix, for example '*.lab'")
            },
        }
    }
}

// ---------------------------------------------------------------------------
// What a name is
// ---------------------------------------------------------------------------

/// The characters of a canonical label.
pub open spec fn label_char(c: char) -> bool {
    is_lower(c) || is_digit(c) || c == '-'
}

/// One to 63 lower-case letters, digits and inner hyphens.
pub open spec fn valid_label(l: Seq<char>) -> bool {
    &&& 1 <= l.len() <= 63
    &&& l[0] != '-'
    &&& l.last() != '-'
    &&& forall|i: int| 0 <= i < l.len() ==> label_char(#[trigger] l[i])
}

/// The labels of a name.
pub open spec fn labels(s: Seq<char>) -> Seq<Seq<char>> {
    split(s, '.')
}

/// A canonical name: valid labels, at most 253 characters, and no address literal.
pub open spec fn canonical_name(s: Seq<char>) -> bool {
    &&& s.len() <= 253
    &&& forall|i: int| 0 <= i < labels(s).len() ==> valid_label(#[trigger] labels(s)[i])
    &&& address_value(s) is None
}

/// A character that a label may hold before lower-casing is settled.
pub open spec fn accepted_char(c: char) -> bool {
    is_alphanumeric(c) || c == '-'
}

/// The position of the first character that a label may not hold.
pub open spec fn first_rejected(l: Seq<char>) -> int
    decreases l.len(),
{
    if l.len() == 0 || !accepted_char(l[0]) {
        0
    } else {
        1 + first_rejected(l.drop_first())
    }
}

/// What is wrong with a label, in the order in which it is looked for.
pub open spec fn label_error(l: Seq<char>) -> Option<RemapNameErrorView> {
    if l.len() == 0 {
        Some(RemapNameErrorView::EmptyLabel)
    } else if encode_utf8(l).len() > 63 {
        Some(RemapNameErrorView::LabelTooLong(l))
    } else if l[0] == '-' {
        Some(RemapNameErrorView::LabelStartsWithHyphen(l))
    } else if l.last() == '-' {
        Some(RemapNameErrorView::LabelEndsWithHyphen(l))
    } else if first_rejected(l) < l.len() {
        Some(
            RemapNameErrorView::InvalidCharacter { character: l[first_rejected(l)], label: l },
        )
    } else {
        None
    }
}

/// The failure of the first label that has one.
pub open spec fn labels_error(parts: Seq<Seq<char>>) -> Option<RemapNameErrorView>
    decreases parts.len(),
{
    if parts.len() == 0 {
        None
    } else if label_error(parts[0]) is Some {
        label_error(parts[0])
    } else {
        labels_error(parts.drop_first())
    }
}

/// The input without one final root dot.
pub open spec fn without_root_dot(s: Seq<char>) -> Seq<char> {
    if s.len() > 0 && s.last() == '.' {
        s.drop_last()
    } else {
        s
    }
}

/// The canonical name that an input writes, or what is wrong with it.
pub open spec fn name_of(s: Seq<char>) -> Result<Seq<char>, RemapNameErrorView> {
    let bare = without_root_dot(s);
    let canonical = lowered(bare);
    if bare.len() == 0 {
        Err(RemapNameErrorView::Empty)
    } else if address_value(bare) is Some {
        Err(RemapNameErrorView::AddressLiteral(s))
    } else if encode_utf8(canonical).len() > 253 {
        Err(RemapNameErrorView::NameTooLong(encode_utf8(canonical).len()))
    } else if labels_error(labels(canonical)) is Some {
        Err(labels_error(labels(canonical))->0)
    } else {
        Ok(canonical)
    }
}

// ---------------------------------------------------------------------------
// Lemmas on labels
// ---------------------------------------------------------------------------

proof fn lemma_first_rejected(l: Seq<char>)
    ensures
        0 <= first_rejected(l) <= l.len(),
        first_rejected(l) < l.len() ==> !accepted_char(l[first_rejected(l)]),
        forall|i: int| 0 <= i < first_rejected(l) ==> accepted_char(#[trigger] l[i]),
    decreases l.len(),
{
    if l.len() > 0 && accepted_char(l[0]) {
        let t = l.drop_first();
        lemma_first_rejected(t);
        assert forall|i: int| 0 <= i < first_rejected(l) implies accepted_char(#[trigger] l[i]) by {
            if i > 0 {
                assert(l[i] == t[i - 1]);
            }
        }
    }
}

proof fn lemma_first_rejected_is(l: Seq<char>, i: int)
    requires
        0 <= i <= l.len(),
        i < l.len() ==> !accepted_char(l[i]),
        forall|k: int| 0 <= k < i ==> accepted_char(#[trigger] l[k]),
    ensures
        first_rejected(l) == i,
{
    lemma_first_rejected(l);
    let j = first_rejected(l);
    if i < j {
        assert(accepted_char(l[i]));
    } else if j < i {
        assert(accepted_char(l[j]));
    }
}

proof fn lemma_ascii_length(s: Seq<char>)
    requires
        forall|i: int| 0 <= i < s.len() ==> is_ascii_char(#[trigger] s[i]),
    ensures
        encode_utf8(s).len() == s.len(),
{
    assert(is_ascii_chars(s));
    is_ascii_chars_encode_utf8(s);
}

/// A label without upper-case letters has no failure exactly where it is valid.
proof fn lemma_label(l: Seq<char>)
    requires
        forall|i: int| 0 <= i < l.len() ==> !is_upper(#[trigger] l[i]),
    ensures
        label_error(l) is None <==> valid_label(l),
{
    lemma_first_rejected(l);
    if label_error(l) is None {
        assert forall|i: int| 0 <= i < l.len() implies label_char(#[trigger] l[i]) by {
            assert(accepted_char(l[i]));
        }
        lemma_ascii_length(l);
    }
    if valid_label(l) {
        assert forall|i: int| 0 <= i < l.len() implies is_ascii_char(#[trigger] l[i]) by {
            assert(label_char(l[i]));
        }
        lemma_ascii_length(l);
        if first_rejected(l) < l.len() {
            assert(label_char(l[first_rejected(l)]));
        }
    }
}

proof fn lemma_labels_error(parts: Seq<Seq<char>>)
    ensures
        labels_error(parts) is None <==> forall|i: int|
            0 <= i < parts.len() ==> label_error(#[trigger] parts[i]) is None,
    decreases parts.len(),
{
    if parts.len() > 0 {
        let rest = parts.drop_first();
        lemma_labels_error(rest);
        if label_error(parts[0]) is None {
            if labels_error(rest) is None {
                assert forall|i: int| 0 <= i < parts.len() implies label_error(
                    #[trigger] parts[i],
                ) is None by {
                    if i > 0 {
                        assert(parts[i] == rest[i - 1]);
                    }
                }
            } else {
                let i = choose|i: int| 0 <= i < rest.len() && label_error(#[trigger] rest[i]) is Some;
                assert(parts[i + 1] == rest[i]);
            }
        }
    }
}

/// Every character of a piece is a character of the whole.
proof fn lemma_split_chars(s: Seq<char>, c: char, i: int, k: int)
    requires
        0 <= i < split(s, c).len(),
        0 <= k < split(s, c)[i].len(),
    ensures
        s.contains(split(s, c)[i][k]),
    decreases s.len(),
{
    lemma_first_index(s, c);
    let n = first_index(s, c);
    if n < s.len() {
        let rest = s.subrange(n + 1, s.len() as int);
        if i == 0 {
            assert(split(s, c)[0] == s.subrange(0, n));
            assert(s[k] == split(s, c)[i][k]);
        } else {
            assert(split(s, c)[i] == split(rest, c)[i - 1]);
            lemma_split_chars(rest, c, i - 1, k);
            let m = choose|m: int| 0 <= m < rest.len() && rest[m] == split(s, c)[i][k];
            assert(s[n + 1 + m] == rest[m]);
        }
    } else {
        assert(split(s, c)[0] == s);
    }
}

/// Every character of the whole is the separator or a character of a piece.
proof fn lemma_split_covers(s: Seq<char>, c: char, m: int)
    requires
        0 <= m < s.len(),
        s[m] != c,
    ensures
        exists|i: int| 0 <= i < split(s, c).len() && (#[trigger] split(s, c)[i]).contains(s[m]),
    decreases s.len(),
{
    lemma_first_index(s, c);
    let n = first_index(s, c);
    if n < s.len() {
        let rest = s.subrange(n + 1, s.len() as int);
        if m < n {
            assert(split(s, c)[0] == s.subrange(0, n));
            assert(s.subrange(0, n)[m] == s[m]);
            assert(split(s, c)[0].contains(s[m]));
        } else {
            assert(rest[m - n - 1] == s[m]);
            lemma_split_covers(rest, c, m - n - 1);
            let i = choose|i: int|
                0 <= i < split(rest, c).len() && (#[trigger] split(rest, c)[i]).contains(s[m]);
            assert(split(s, c)[i + 1] == split(rest, c)[i]);
        }
    } else {
        assert(split(s, c)[0] == s);
        assert(split(s, c)[0].contains(s[m]));
    }
}

/// The characters of a canonical name are label characters and dots.
pub(crate) proof fn lemma_canonical_chars(s: Seq<char>, m: int)
    requires
        forall|i: int| 0 <= i < labels(s).len() ==> valid_label(#[trigger] labels(s)[i]),
        0 <= m < s.len(),
    ensures
        label_char(s[m]) || s[m] == '.',
{
    if s[m] != '.' {
        lemma_split_covers(s, '.', m);
        let i = choose|i: int|
            0 <= i < split(s, '.').len() && (#[trigger] split(s, '.')[i]).contains(s[m]);
        let l = labels(s)[i];
        assert(valid_label(l));
        let k = choose|k: int| 0 <= k < l.len() && l[k] == s[m];
        assert(label_char(l[k]));
    }
}

/// A text that is an IPv6 address holds a colon.
proof fn lemma_ipv6_has_colon(s: Seq<char>)
    requires
        crate::address::ipv6_value(s) is Some,
    ensures
        s.contains(':'),
{
    let p = seq![':', ':'];
    if crate::text::occurs(s, p) {
        crate::text::lemma_first_match(s, p);
        let i = crate::text::first_match(s, p);
        let t = from(s, i);
        assert(t.subrange(0, 2)[0] == ':');
        assert(s[i] == ':');
    } else {
        lemma_first_index(s, ':');
        if !s.contains(':') {
            let parts = split(s, ':');
            assert(parts =~= seq![s]);
            assert(parts.drop_first() =~= Seq::<Seq<char>>::empty());
            assert(crate::address::groups_of(parts.drop_first(), true)
                == Some(Seq::<u16>::empty()));
        }
    }
}

/// Lower-casing changes nothing where the result is an IPv4 address.
proof fn lemma_lowered_address(s: Seq<char>)
    requires
        forall|i: int| 0 <= i < labels(lowered(s)).len() ==> valid_label(
            #[trigger] labels(lowered(s))[i],
        ),
        address_value(s) is None,
    ensures
        address_value(lowered(s)) is None,
{
    let c = lowered(s);
    if ipv4_value(c) is Some {
        let o = ipv4_value(c)->0;
        law_ipv4_text_is_canonical(c, o);
        crate::address::lemma_dotted_chars(o);
        assert forall|i: int| 0 <= i < s.len() implies s[i] == c[i] by {
            assert(is_digit(c[i]) || c[i] == '.');
        }
        assert(s =~= c);
    } else if crate::address::ipv6_value(c) is Some {
        lemma_ipv6_has_colon(c);
        let m = choose|m: int| 0 <= m < c.len() && c[m] == ':';
        lemma_canonical_chars(c, m);
    }
}

proof fn lemma_lowered_labels(s: Seq<char>)
    ensures
        labels_error(labels(lowered(s))) is None <==> forall|i: int|
            0 <= i < labels(lowered(s)).len() ==> valid_label(#[trigger] labels(lowered(s))[i]),
{
    let c = lowered(s);
    let parts = labels(c);
    lemma_labels_error(parts);
    assert forall|i: int| 0 <= i < parts.len() implies (label_error(#[trigger] parts[i]) is None
        <==> valid_label(parts[i])) by {
        assert forall|k: int| 0 <= k < parts[i].len() implies !is_upper(#[trigger] parts[i][k]) by {
            lemma_split_chars(c, '.', i, k);
            let m = choose|m: int| 0 <= m < c.len() && c[m] == parts[i][k];
            assert(c[m] == lower(s[m]));
        }
        lemma_label(parts[i]);
    }
}

// ---------------------------------------------------------------------------
// Laws of names
// ---------------------------------------------------------------------------

/// Whatever an accepted input writes is canonical.
pub proof fn law_parsed_name_is_canonical(s: Seq<char>)
    requires
        name_of(s) is Ok,
    ensures
        canonical_name(name_of(s)->Ok_0),
        name_of(s)->Ok_0.len() >= 1,
{
    let bare = without_root_dot(s);
    let c = lowered(bare);
    lemma_lowered_labels(bare);
    lemma_lowered_address(bare);
    assert forall|i: int| 0 <= i < c.len() implies is_ascii_char(#[trigger] c[i]) by {
        lemma_canonical_chars(c, i);
    }
    lemma_ascii_length(c);
}

/// A canonical name is accepted unchanged.
pub proof fn law_canonical_name_parses_to_itself(c: Seq<char>)
    requires
        canonical_name(c),
    ensures
        name_of(c) == Ok::<Seq<char>, RemapNameErrorView>(c),
{
    lemma_split(c, '.');
    lemma_first_index(c, '.');
    assert(c.len() >= 1) by {
        if c.len() == 0 {
            assert(labels(c)[0] == c);
            assert(valid_label(labels(c)[0]));
        }
    }
    assert(c.last() != '.') by {
        lemma_last_label(c);
        assert(valid_label(labels(c)[labels(c).len() - 1]));
    }
    assert forall|i: int| 0 <= i < c.len() implies lower(c[i]) == c[i] && is_ascii_char(#[trigger] c[i]) by {
        lemma_canonical_chars(c, i);
    }
    assert(lowered(c) =~= c);
    lemma_ascii_length(c);
    lemma_lowered_labels(c);
}

/// A text that ends in the separator has an empty last piece.
proof fn lemma_last_label(s: Seq<char>)
    requires
        s.len() > 0,
    ensures
        s.last() == '.' ==> split(s, '.').len() > 0 && split(s, '.').last().len() == 0,
    decreases s.len(),
{
    if s.last() == '.' {
        lemma_first_index(s, '.');
        let n = first_index(s, '.');
        assert(s.contains(s[s.len() - 1]));
        let rest = s.subrange(n + 1, s.len() as int);
        if rest.len() == 0 {
            lemma_first_index(rest, '.');
            assert(split(rest, '.') =~= seq![rest]);
            assert(split(s, '.').last() == rest);
        } else {
            assert(rest.last() == s.last());
            lemma_last_label(rest);
            assert(split(s, '.').last() == split(rest, '.').last());
        }
    }
}

/// Parsing what was parsed changes nothing.
pub proof fn law_name_parsing_is_idempotent(s: Seq<char>)
    requires
        name_of(s) is Ok,
    ensures
        name_of(name_of(s)->Ok_0) == name_of(s),
{
    law_parsed_name_is_canonical(s);
    law_canonical_name_parses_to_itself(name_of(s)->Ok_0);
}

/// The case of the letters and one final root dot do not tell names apart.
pub proof fn law_case_and_root_dot_are_ignored(s: Seq<char>)
    requires
        name_of(s) is Ok,
        s.last() != '.',
    ensures
        name_of(s.push('.')) == name_of(s),
        name_of(lowered(s)) == name_of(s),
{
    assert(s.push('.').drop_last() =~= s);
    assert(without_root_dot(s.push('.')) == s);
    assert(without_root_dot(s) == s);
    law_name_parsing_is_idempotent(s);
    assert(name_of(s)->Ok_0 == lowered(s));
}

// ---------------------------------------------------------------------------
// Names
// ---------------------------------------------------------------------------

/// A canonical ASCII hostname used as a Remap lookup key.
///
/// Single-label names and arbitrary suffixes are valid. A final DNS root dot is
/// accepted and removed. Unicode input is refused.
#[derive(Debug, PartialEq, Eq, Hash, PartialOrd, Ord)]
pub struct RemapName(String);

impl View for RemapName {
    type V = Seq<char>;

    closed spec fn view(&self) -> Seq<char> {
        self.0@
    }
}

impl RemapName {
    #[verifier::type_invariant]
    spec fn holds_canonical(self) -> bool {
        canonical_name(self.0@)
    }

    /// Parses and canonicalizes a Remap lookup name.
    pub fn parse(input: &str) -> (r: Result<RemapName, RemapNameError>)
        ensures
            match r {
                Ok(name) => name_of(input@) == Ok::<Seq<char>, RemapNameErrorView>(name@),
                Err(error) => name_of(input@) == Err::<Seq<char>, RemapNameErrorView>(error@),
            },
    {
        let v = chars(input);
        let end: usize = if v.len() > 0 && v[v.len() - 1] == '.' {
            v.len() - 1
        } else {
            v.len()
        };
        if end == 0 {
            return Err(RemapNameError::Empty);
        }
        let bare = slice(&v, 0, end);
        proof {
            assert(bare@ =~= without_root_dot(input@));
        }
        if parse_address(bare.as_str()).is_some() {
            return Err(RemapNameError::AddressLiteral(copy(input)));
        }
        let canonical = lowercase(bare.as_str());
        let length = byte_length(canonical.as_str());
        if length > 253 {
            return Err(RemapNameError::NameTooLong(length));
        }
        let parts = split_text(canonical.as_str(), '.');
        let mut i: usize = 0;
        let ghost model = labels(canonical@);
        proof {
            assert(model.subrange(0, model.len() as int) =~= model);
        }
        while i < parts.len()
            invariant
                texts(parts@) == model,
                i <= parts@.len(),
                canonical@ == lowered(without_root_dot(input@)),
                model == labels(canonical@),
                without_root_dot(input@).len() > 0,
                address_value(without_root_dot(input@)) is None,
                encode_utf8(canonical@).len() <= 253,
                labels_error(model) == labels_error(model.subrange(i as int, model.len() as int)),
            decreases parts@.len() - i,
        {
            let ghost rest = model.subrange(i as int, model.len() as int);
            proof {
                assert(texts(parts@)[i as int] == parts@[i as int]@);
                assert(rest[0] == model[i as int]);
                assert(rest.drop_first() =~= model.subrange(i as int + 1, model.len() as int));
            }
            if let Err(error) = Self::validate_label(parts[i].as_str()) {
                return Err(error);
            }
            i += 1;
        }
        proof {
            assert(model.subrange(i as int, model.len() as int).len() == 0);
            law_parsed_name_is_canonical(input@);
        }
        Ok(RemapName(canonical))
    }

    /// Returns the canonical hostname as text.
    pub fn as_str(&self) -> (s: &str)
        ensures
            s@ == self@,
            canonical_name(self@),
    {
        proof {
            use_type_invariant(self);
        }
        self.0.as_str()
    }

    /// Returns the number of DNS labels in the canonical name.
    pub fn label_count(&self) -> (n: usize)
        ensures
            n == labels(self@).len(),
            1 <= n <= 127,
    {
        let parts = split_text(self.0.as_str(), '.');
        proof {
            use_type_invariant(self);
            lemma_label_bound(self@);
            assert(texts(parts@).len() == parts@.len());
        }
        parts.len()
    }

    fn validate_label(label: &str) -> (r: Result<(), RemapNameError>)
        ensures
            match r {
                Ok(_) => label_error(label@) is None,
                Err(error) => label_error(label@) == Some(error@),
            },
    {
        let v = chars(label);
        if v.len() == 0 {
            return Err(RemapNameError::EmptyLabel);
        }
        if byte_length(label) > 63 {
            return Err(RemapNameError::LabelTooLong(copy(label)));
        }
        if v[0] == '-' {
            return Err(RemapNameError::LabelStartsWithHyphen(copy(label)));
        }
        if v[v.len() - 1] == '-' {
            return Err(RemapNameError::LabelEndsWithHyphen(copy(label)));
        }
        let mut i: usize = 0;
        while i < v.len()
            invariant
                v@ == label@,
                i <= v@.len(),
                v@.len() > 0,
                encode_utf8(label@).len() <= 63,
                label@[0] != '-',
                label@.last() != '-',
                forall|k: int| 0 <= k < i ==> accepted_char(#[trigger] v@[k]),
            decreases v@.len() - i,
        {
            let c = v[i];
            let accepted = ('a' <= c && c <= 'z') || ('A' <= c && c <= 'Z') || ('0' <= c && c <= '9')
                || c == '-';
            if !accepted {
                proof {
                    lemma_first_rejected_is(v@, i as int);
                }
                return Err(RemapNameError::InvalidCharacter { character: c, label: copy(label) });
            }
            i += 1;
        }
        proof {
            lemma_first_rejected_is(v@, i as int);
        }
        Ok(())
    }

    /// A copy of the name.
    pub fn duplicate(&self) -> (r: RemapName)
        ensures
            r@ == self@,
    {
        proof {
            use_type_invariant(self);
        }
        RemapName(copy(self.0.as_str()))
    }

    /// Whether two names are the same.
    pub fn same_as(&self, other: &RemapName) -> (r: bool)
        ensures
            r == (self@ == other@),
    {
        same(self.0.as_str(), other.0.as_str())
    }
}

/// Labels that are not empty take at least one character each, with a dot between
/// them.
proof fn lemma_label_bound(s: Seq<char>)
    requires
        forall|i: int| 0 <= i < labels(s).len() ==> (#[trigger] labels(s)[i]).len() > 0,
    ensures
        1 <= labels(s).len(),
        2 * labels(s).len() <= s.len() + 1,
    decreases s.len(),
{
    lemma_first_index(s, '.');
    let n = first_index(s, '.');
    if n < s.len() {
        let rest = s.subrange(n + 1, s.len() as int);
        assert(labels(s)[0] == s.subrange(0, n));
        assert forall|i: int| 0 <= i < labels(rest).len() implies (#[trigger] labels(rest)[i]).len()
            > 0 by {
            assert(labels(rest)[i] == labels(s)[i + 1]);
        }
        lemma_label_bound(rest);
    } else {
        assert(labels(s)[0] == s);
    }
}

impl Clone for RemapName {
    fn clone(&self) -> (r: RemapName)
        ensures
            r@ == self@,
    {
        self.duplicate()
    }
}

impl core::str::FromStr for RemapName {
    type Err = RemapNameError;

    fn from_str(input: &str) -> (r: Result<RemapName, RemapNameError>)
        ensures
            match r {
                Ok(name) => name_of(input@) == Ok::<Seq<char>, RemapNameErrorView>(name@),
                Err(error) => name_of(input@) == Err::<Seq<char>, RemapNameErrorView>(error@),
            },
    {
        RemapName::parse(input)
    }
}

// ---------------------------------------------------------------------------
// Patterns
// ---------------------------------------------------------------------------

/// An exact hostname or suffix wildcard used as a registry key.
#[derive(Debug, PartialEq, Eq, Hash, PartialOrd, Ord)]
pub enum NamePattern {
    /// Matches one canonical name exactly.
    Exact(RemapName),
    /// Matches descendants of a suffix, but not the suffix itself.
    Wildcard(RemapName),
}

/// A pattern over plain sequences.
pub enum NamePatternView {
    Exact(Seq<char>),
    Wildcard(Seq<char>),
}

impl View for NamePattern {
    type V = NamePatternView;

    open spec fn view(&self) -> NamePatternView {
        match self {
            NamePattern::Exact(name) => NamePatternView::Exact(name@),
            NamePattern::Wildcard(suffix) => NamePatternView::Wildcard(suffix@),
        }
    }
}

impl NamePatternView {
    /// The name, or the suffix of a wildcard.
    pub open spec fn name(self) -> Seq<char> {
        match self {
            NamePatternView::Exact(name) => name,
            NamePatternView::Wildcard(suffix) => suffix,
        }
    }
}

/// The pattern that an input writes, or what is wrong with it.
pub open spec fn pattern_of(s: Seq<char>) -> Result<NamePatternView, RemapNameErrorView> {
    if s == seq!['*'] || s == seq!['*', '.'] {
        Err(RemapNameErrorView::WildcardWithoutSuffix)
    } else if begins(s, seq!['*', '.']) {
        match name_of(from(s, 2)) {
            Ok(suffix) => Ok(NamePatternView::Wildcard(suffix)),
            Err(error) => Err(error),
        }
    } else {
        match name_of(s) {
            Ok(name) => Ok(NamePatternView::Exact(name)),
            Err(error) => Err(error),
        }
    }
}

/// The text of a pattern.
pub open spec fn pattern_text(p: NamePatternView) -> Seq<char> {
    match p {
        NamePatternView::Exact(name) => name,
        NamePatternView::Wildcard(suffix) => seq!['*', '.'] + suffix,
    }
}

/// Whether a pattern claims a name: an exact pattern its own name, a wildcard
/// every name that ends in a dot and its suffix.
pub open spec fn pattern_matches(p: NamePatternView, name: Seq<char>) -> bool {
    match p {
        NamePatternView::Exact(own) => own == name,
        NamePatternView::Wildcard(suffix) => ends(name, seq!['.'] + suffix),
    }
}

/// The class of a pattern and, behind all exact ones, the number of labels by
/// which a wildcard is the less specific.
pub open spec fn pattern_rank(p: NamePatternView) -> (int, int) {
    match p {
        NamePatternView::Exact(_) => (0, 0),
        NamePatternView::Wildcard(suffix) => (1, usize::MAX - labels(suffix).len()),
    }
}

/// The order of resolution: exact patterns first, then the wildcards with more
/// labels, and the names in code-point order.
pub open spec fn pattern_precedes(a: NamePatternView, b: NamePatternView) -> bool {
    let x = pattern_rank(a);
    let y = pattern_rank(b);
    x.0 < y.0 || (x.0 == y.0 && (x.1 < y.1 || (x.1 == y.1 && crate::text::precedes(
        a.name(),
        b.name(),
    ))))
}

impl NamePattern {
    /// Parses an exact name or a wildcard such as `*.lab`.
    pub fn parse(input: &str) -> (r: Result<NamePattern, RemapNameError>)
        ensures
            match r {
                Ok(pattern) => pattern_of(input@) == Ok::<NamePatternView, RemapNameErrorView>(
                    pattern@,
                ),
                Err(error) => pattern_of(input@) == Err::<NamePatternView, RemapNameErrorView>(
                    error@,
                ),
            },
    {
        proof {
            reveal_strlit("*");
            reveal_strlit("*.");
            assert("*"@ =~= seq!['*']);
            assert("*."@ =~= seq!['*', '.']);
        }
        if same(input, "*") {
            return Err(RemapNameError::WildcardWithoutSuffix);
        }
        if let Some(suffix) = without_prefix(input, "*.") {
            if suffix.as_str().is_empty() {
                proof {
                    assert(input@ =~= seq!['*', '.']);
                }
                return Err(RemapNameError::WildcardWithoutSuffix);
            }
            proof {
                assert(from(input@, 2) == suffix@);
            }
            return match RemapName::parse(suffix.as_str()) {
                Ok(name) => Ok(NamePattern::Wildcard(name)),
                Err(error) => Err(error),
            };
        }
        proof {
            assert(seq!['*', '.'].subrange(0, 2) =~= seq!['*', '.']);
        }
        match RemapName::parse(input) {
            Ok(name) => Ok(NamePattern::Exact(name)),
            Err(error) => Err(error),
        }
    }

    /// Returns whether this pattern owns the supplied canonical name.
    pub fn matches(&self, name: &RemapName) -> (r: bool)
        ensures
            r == pattern_matches(self@, name@),
    {
        match self {
            NamePattern::Exact(own) => own.same_as(name),
            NamePattern::Wildcard(suffix) => {
                let tail = concat(".", suffix.as_str());
                proof {
                    reveal_strlit(".");
                    assert("."@ =~= seq!['.']);
                }
                ends_with(name.as_str(), tail.as_str())
            },
        }
    }

    /// Returns wildcard suffix specificity, or `None` for an exact pattern.
    pub fn wildcard_specificity(&self) -> (r: Option<usize>)
        ensures
            match self@ {
                NamePatternView::Exact(_) => r is None,
                NamePatternView::Wildcard(suffix) => r is Some && r->0 == labels(suffix).len(),
            },
    {
        match self {
            NamePattern::Exact(_) => None,
            NamePattern::Wildcard(suffix) => Some(suffix.label_count()),
        }
    }

    /// The class and the specificity by which patterns are ordered.
    pub(crate) fn resolution_rank(&self) -> (r: (u8, usize))
        ensures
            r.0 == pattern_rank(self@).0,
            r.1 == pattern_rank(self@).1,
    {
        match self {
            NamePattern::Exact(_) => (0, 0),
            NamePattern::Wildcard(suffix) => (1, usize::MAX - suffix.label_count()),
        }
    }

    /// Whether this pattern is tried strictly before another.
    pub fn precedes(&self, other: &NamePattern) -> (r: bool)
        ensures
            r == pattern_precedes(self@, other@),
    {
        let x = self.resolution_rank();
        let y = other.resolution_rank();
        if x.0 != y.0 {
            x.0 < y.0
        } else if x.1 != y.1 {
            x.1 < y.1
        } else {
            crate::text::text_precedes(self.name().as_str(), other.name().as_str())
        }
    }

    /// The name, or the suffix of a wildcard.
    pub fn name(&self) -> (r: &RemapName)
        ensures
            r@ == self@.name(),
    {
        match self {
            NamePattern::Exact(name) => name,
            NamePattern::Wildcard(suffix) => suffix,
        }
    }

    /// Whether two patterns are the same.
    pub fn same_as(&self, other: &NamePattern) -> (r: bool)
        ensures
            r == (self@ == other@),
    {
        match (self, other) {
            (NamePattern::Exact(a), NamePattern::Exact(b)) => a.same_as(b),
            (NamePattern::Wildcard(a), NamePattern::Wildcard(b)) => a.same_as(b),
            _ => false,
        }
    }

    /// A copy of the pattern.
    pub fn duplicate(&self) -> (r: NamePattern)
        ensures
            r@ == self@,
    {
        match self {
            NamePattern::Exact(name) => NamePattern::Exact(name.duplicate()),
            NamePattern::Wildcard(suffix) => NamePattern::Wildcard(suffix.duplicate()),
        }
    }

    /// The text of the pattern.
    pub fn to_text(&self) -> (s: String)
        ensures
            s@ == pattern_text(self@),
    {
        match self {
            NamePattern::Exact(name) => copy(name.as_str()),
            NamePattern::Wildcard(suffix) => {
                proof {
                    reveal_strlit("*.");
                    assert("*."@ =~= seq!['*', '.']);
                }
                concat("*.", suffix.as_str())
            },
        }
    }
}

impl Clone for NamePattern {
    fn clone(&self) -> (r: NamePattern)
        ensures
            r@ == self@,
    {
        self.duplicate()
    }
}

impl core::str::FromStr for NamePattern {
    type Err = RemapNameError;

    fn from_str(input: &str) -> (r: Result<NamePattern, RemapNameError>)
        ensures
            match r {
                Ok(pattern) => pattern_of(input@) == Ok::<NamePatternView, RemapNameErrorView>(
                    pattern@,
                ),
                Err(error) => pattern_of(input@) == Err::<NamePatternView, RemapNameErrorView>(
                    error@,
                ),
            },
    {
        NamePattern::parse(input)
    }
}

// ---------------------------------------------------------------------------
// Laws of patterns
// ---------------------------------------------------------------------------

/// The pieces of two texts with the separator between them.
proof fn lemma_split_concat(a: Seq<char>, b: Seq<char>, c: char)
    ensures
        split(a + seq![c] + b, c) == split(a, c) + split(b, c),
    decreases a.len(),
{
    let s = a + seq![c] + b;
    lemma_first_index(a, c);
    lemma_first_index(s, c);
    let n = first_index(a, c);
    if n < a.len() {
        let rest = a.subrange(n + 1, a.len() as int);
        assert forall|k: int| 0 <= k < n implies s[k] != c by {
            assert(a[k] != c);
        }
        crate::text::lemma_first_index_is(s, c, n);
        assert(s.subrange(0, n) =~= a.subrange(0, n));
        assert(s.subrange(n + 1, s.len() as int) =~= rest + seq![c] + b);
        lemma_split_concat(rest, b, c);
        assert(split(s, c) =~= split(a, c) + split(b, c));
    } else {
        assert forall|k: int| 0 <= k < n implies s[k] != c by {
            assert(s[k] == a[k]);
        }
        crate::text::lemma_first_index_is(s, c, n);
        assert(s.subrange(0, n) =~= a);
        assert(s.subrange(n + 1, s.len() as int) =~= b);
        assert(split(s, c) =~= split(a, c) + split(b, c));
    }
}

/// Joining two runs of pieces.
proof fn lemma_join_concat(x: Seq<Seq<char>>, y: Seq<Seq<char>>, c: char)
    requires
        x.len() >= 1,
        y.len() >= 1,
    ensures
        join(x + y, c) == join(x, c) + seq![c] + join(y, c),
    decreases x.len(),
{
    let all = x + y;
    if x.len() == 1 {
        assert(all.drop_first() =~= y);
    } else {
        assert(all.drop_first() =~= x.drop_first() + y);
        lemma_join_concat(x.drop_first(), y, c);
        assert(join(all, c) =~= join(x, c) + seq![c] + join(y, c));
    }
}

/// A wildcard claims exactly the strict descendants of its suffix: the names
/// with more labels whose last labels are those of the suffix.
pub proof fn law_wildcard_claims_descendants(suffix: Seq<char>, name: Seq<char>)
    ensures
        pattern_matches(NamePatternView::Wildcard(suffix), name) <==> {
            let n = labels(name);
            let s = labels(suffix);
            n.len() > s.len() && n.subrange(n.len() - s.len(), n.len() as int) == s
        },
{
    let n = labels(name);
    let s = labels(suffix);
    lemma_split(suffix, '.');
    lemma_split(name, '.');
    let tail = seq!['.'] + suffix;
    if ends(name, tail) {
        let k = name.len() - tail.len();
        let head = name.subrange(0, k);
        assert(name =~= head + seq!['.'] + suffix) by {
            assert(name =~= head + name.subrange(k, name.len() as int));
        }
        lemma_split_concat(head, suffix, '.');
        lemma_split(head, '.');
        assert(n.subrange(n.len() - s.len(), n.len() as int) =~= s);
    }
    if n.len() > s.len() && n.subrange(n.len() - s.len(), n.len() as int) == s {
        let k = n.len() - s.len();
        let x = n.subrange(0, k);
        assert(n =~= x + s);
        lemma_join_concat(x, s, '.');
        assert(name == join(x, '.') + seq!['.'] + suffix);
        assert(name.subrange(name.len() - tail.len(), name.len() as int) =~= tail);
    }
}

/// A wildcard never claims its own suffix.
pub proof fn law_wildcard_never_claims_its_suffix(suffix: Seq<char>)
    ensures
        !pattern_matches(NamePatternView::Wildcard(suffix), suffix),
{
}

/// Every canonical pattern is read back from its text.
pub proof fn law_pattern_text_reads_back(p: NamePatternView)
    requires
        canonical_name(p.name()),
    ensures
        pattern_of(pattern_text(p)) == Ok::<NamePatternView, RemapNameErrorView>(p),
{
    let s = pattern_text(p);
    law_canonical_name_parses_to_itself(p.name());
    lemma_split(p.name(), '.');
    assert(p.name().len() > 0);
    match p {
        NamePatternView::Exact(name) => {
            lemma_canonical_chars(name, 0);
            if begins(name, seq!['*', '.']) {
                assert(name.subrange(0, 2)[0] == '*');
            }
        },
        NamePatternView::Wildcard(suffix) => {
            assert(s.subrange(0, 2) =~= seq!['*', '.']);
            assert(from(s, 2) =~= suffix);
            assert(s.len() > 2);
        },
    }
}

/// Whatever an accepted pattern writes has a canonical name.
pub proof fn law_parsed_pattern_is_canonical(s: Seq<char>)
    requires
        pattern_of(s) is Ok,
    ensures
        canonical_name((pattern_of(s)->Ok_0).name()),
{
    if begins(s, seq!['*', '.']) {
        law_parsed_name_is_canonical(from(s, 2));
    } else {
        law_parsed_name_is_canonical(s);
    }
}

/// The order of patterns is strict and total.
pub proof fn law_pattern_order_is_strict_and_total(a: NamePatternView, b: NamePatternView)
    ensures
        !pattern_precedes(a, a),
        a == b || pattern_precedes(a, b) || pattern_precedes(b, a),
        !(pattern_precedes(a, b) && pattern_precedes(b, a)),
{
    crate::text::lemma_precedes_irreflexive(a.name());
    crate::text::lemma_precedes_total(a.name(), b.name());
    if crate::text::precedes(a.name(), b.name()) && crate::text::precedes(b.name(), a.name()) {
        crate::text::lemma_precedes_transitive(a.name(), b.name(), a.name());
    }
}

/// The order of patterns is transitive.
pub proof fn law_pattern_order_is_transitive(
    a: NamePatternView,
    b: NamePatternView,
    c: NamePatternView,
)
    requires
        pattern_precedes(a, b),
        pattern_precedes(b, c),
    ensures
        pattern_precedes(a, c),
{
    if crate::text::precedes(a.name(), b.name()) && crate::text::precedes(b.name(), c.name()) {
        crate::text::lemma_precedes_transitive(a.name(), b.name(), c.name());
    }
}

} // verus!
