//! Mappings and immutable registry snapshots.

use vstd::multiset::Multiset;
use vstd::prelude::*;
use vstd::seq_lib::*;
use vstd::string::*;

use crate::name::{
    labels, law_pattern_order_is_strict_and_total, law_pattern_order_is_transitive, pattern_matches,
    pattern_precedes, pattern_text, NamePattern, NamePatternView, RemapName,
};
use crate::target::{MappingTarget, MappingTargetView};
use crate::text::concat3;

verus! {

/// One user-directed name mapping in an immutable registry revision.
#[derive(Debug, PartialEq, Eq)]
pub struct Mapping {
    pattern: NamePattern,
    target: MappingTarget,
    enabled: bool,
}

/// A mapping over plain values.
pub struct MappingView {
    pub pattern: NamePatternView,
    pub target: MappingTargetView,
    pub enabled: bool,
}

impl View for Mapping {
    type V = MappingView;

    closed spec fn view(&self) -> MappingView {
        MappingView { pattern: self.pattern@, target: self.target@, enabled: self.enabled }
    }
}

impl Mapping {
    /// Creates an enabled mapping.
    pub fn new(pattern: NamePattern, target: MappingTarget) -> (r: Mapping)
        ensures
            r@ == (MappingView { pattern: pattern@, target: target@, enabled: true }),
    {
        Mapping { pattern, target, enabled: true }
    }

    /// Returns the lookup pattern.
    pub fn pattern(&self) -> (r: &NamePattern)
        ensures
            r@ == self@.pattern,
    {
        &self.pattern
    }

    /// Returns the mapping destination.
    pub fn target(&self) -> (r: &MappingTarget)
        ensures
            r@ == self@.target,
    {
        &self.target
    }

    /// Returns whether the mapping participates in resolution.
    pub fn is_enabled(&self) -> (r: bool)
        ensures
            r == self@.enabled,
    {
        self.enabled
    }

    /// Returns the mapping with an explicit enabled state.
    pub fn with_enabled(self, enabled: bool) -> (r: Mapping)
        ensures
            r@ == (MappingView { enabled, ..self@ }),
    {
        Mapping { pattern: self.pattern, target: self.target, enabled }
    }

    /// A copy of the mapping.
    pub fn duplicate(&self) -> (r: Mapping)
        ensures
            r@ == self@,
    {
        Mapping {
            pattern: self.pattern.duplicate(),
            target: self.target.duplicate(),
            enabled: self.enabled,
        }
    }
}

impl Clone for Mapping {
    fn clone(&self) -> (r: Mapping)
        ensures
            r@ == self@,
    {
        self.duplicate()
    }
}

/// A validation failure while constructing an immutable registry snapshot.
#[derive(Debug, PartialEq, Eq)]
pub enum SnapshotError {
    /// Two records claim the same pattern in one revision.
    DuplicatePattern(NamePattern),
}

impl SnapshotError {
    /// The sentence that describes the failure.
    pub fn to_text(&self) -> (s: String)
        ensures
            match self {
                SnapshotError::DuplicatePattern(p) => s@
                    == "registry revision contains duplicate pattern '"@ + pattern_text(p@) + "'"@,
            },
    {
        match self {
            SnapshotError::DuplicatePattern(p) => concat3(
                "registry revision contains duplicate pattern '",
                p.to_text().as_str(),
                "'",
            ),
        }
    }
}

// ---------------------------------------------------------------------------
// What a snapshot is
// ---------------------------------------------------------------------------

/// The views of a sequence of mappings.
pub open spec fn mapping_views(ms: Seq<Mapping>) -> Seq<MappingView> {
    Seq::new(ms.len(), |i: int| ms[i]@)
}

/// Whether the pattern at `j` stands at an earlier position too.
pub open spec fn repeats(ms: Seq<MappingView>, j: int) -> bool {
    exists|i: int| 0 <= i < j && #[trigger] ms[i].pattern == ms[j].pattern
}

/// Whether no two mappings have the same pattern.
pub open spec fn distinct(ms: Seq<MappingView>) -> bool {
    forall|i: int, j: int|
        0 <= i < j < ms.len() ==> #[trigger] ms[i].pattern != #[trigger] ms[j].pattern
}

/// Whether the mappings stand in the order of resolution.
pub open spec fn ordered(ms: Seq<MappingView>) -> bool {
    forall|i: int, j: int|
        0 <= i < j < ms.len() ==> pattern_precedes(#[trigger] ms[i].pattern, #[trigger] ms[j].pattern)
}

/// Whether a mapping claims a name.
pub open spec fn claims(m: MappingView, name: Seq<char>) -> bool {
    m.enabled && pattern_matches(m.pattern, name)
}

/// A snapshot over plain values.
pub struct RegistrySnapshotView {
    pub revision: u64,
    pub mappings: Seq<MappingView>,
}

/// An immutable, versioned view consumed by DNS and gateway readers.
#[derive(Debug, PartialEq, Eq)]
pub struct RegistrySnapshot {
    revision: u64,
    mappings: Vec<Mapping>,
}

impl View for RegistrySnapshot {
    type V = RegistrySnapshotView;

    closed spec fn view(&self) -> RegistrySnapshotView {
        RegistrySnapshotView {
            revision: self.revision,
            mappings: mapping_views(self.mappings@),
        }
    }
}

/// Puts one mapping into its place among ordered ones.
fn insert_ordered(sorted: &mut Vec<Mapping>, mapping: Mapping)
    requires
        ordered(mapping_views(old(sorted)@)),
        forall|i: int|
            0 <= i < old(sorted)@.len() ==> (#[trigger] mapping_views(old(sorted)@)[i]).pattern
                != mapping@.pattern,
    ensures
        ordered(mapping_views(final(sorted)@)),
        exists|k: int|
            0 <= k <= old(sorted)@.len() && mapping_views(final(sorted)@)
                == #[trigger] mapping_views(old(sorted)@).insert(k, mapping@),
{
    let ghost before = mapping_views(sorted@);
    let ghost new = mapping@;
    let mut k: usize = 0;
    while k < sorted.len() && sorted[k].pattern().precedes(mapping.pattern())
        invariant
            k <= sorted@.len(),
            before == mapping_views(sorted@),
            new == mapping@,
            forall|i: int| 0 <= i < k ==> pattern_precedes(#[trigger] before[i].pattern, new.pattern),
        decreases sorted@.len() - k,
    {
        proof {
            assert(before[k as int] == sorted@[k as int]@);
        }
        k += 1;
    }
    proof {
        if k < sorted@.len() {
            assert(before[k as int] == sorted@[k as int]@);
            law_pattern_order_is_strict_and_total(before[k as int].pattern, new.pattern);
        }
        assert forall|i: int| k <= i < before.len() implies pattern_precedes(
            new.pattern,
            #[trigger] before[i].pattern,
        ) by {
            if i > k {
                law_pattern_order_is_transitive(
                    new.pattern,
                    before[k as int].pattern,
                    before[i].pattern,
                );
            }
        }
    }
    sorted.insert(k, mapping);
    proof {
        assert(mapping_views(sorted@) =~= before.insert(k as int, new));
    }
}

impl RegistrySnapshot {
    #[verifier::type_invariant]
    spec fn holds_order(self) -> bool {
        ordered(mapping_views(self.mappings@))
    }

    /// Validates and orders a complete registry revision. Refused is the first
    /// pattern that stands in the revision for the second time.
    pub fn new(revision: u64, mappings: Vec<Mapping>) -> (r: Result<RegistrySnapshot, SnapshotError>)
        ensures
            match r {
                Ok(snapshot) => {
                    &&& distinct(mapping_views(mappings@))
                    &&& snapshot@.revision == revision
                    &&& snapshot@.mappings.to_multiset() == mapping_views(mappings@).to_multiset()
                    &&& ordered(snapshot@.mappings)
                },
                Err(SnapshotError::DuplicatePattern(p)) => exists|j: int|
                    0 <= j < mappings@.len() && #[trigger] repeats(mapping_views(mappings@), j)
                        && p@ == mapping_views(mappings@)[j].pattern && distinct(
                        mapping_views(mappings@).subrange(0, j),
                    ),
            },
    {
        let ghost all = mapping_views(mappings@);
        let mut j: usize = 0;
        while j < mappings.len()
            invariant
                j <= mappings@.len(),
                all == mapping_views(mappings@),
                distinct(all.subrange(0, j as int)),
            decreases mappings@.len() - j,
        {
            let mut i: usize = 0;
            while i < j
                invariant
                    i <= j < mappings@.len(),
                    all == mapping_views(mappings@),
                    distinct(all.subrange(0, j as int)),
                    forall|k: int| 0 <= k < i ==> #[trigger] all[k].pattern != all[j as int].pattern,
                decreases j - i,
            {
                proof {
                    assert(all[i as int] == mappings@[i as int]@);
                    assert(all[j as int] == mappings@[j as int]@);
                }
                if mappings[i].pattern().same_as(mappings[j].pattern()) {
                    proof {
                        assert(all[i as int].pattern == all[j as int].pattern);
                        assert(repeats(all, j as int));
                    }
                    return Err(SnapshotError::DuplicatePattern(mappings[j].pattern().duplicate()));
                }
                i += 1;
            }
            proof {
                let next = all.subrange(0, j + 1);
                assert forall|a: int, b: int| 0 <= a < b < next.len() implies #[trigger] next[a].pattern
                    != #[trigger] next[b].pattern by {
                    if b < j {
                        assert(all.subrange(0, j as int)[a].pattern != all.subrange(
                            0,
                            j as int,
                        )[b].pattern);
                    } else {
                        assert(all[a].pattern != all[j as int].pattern);
                    }
                }
            }
            j += 1;
        }
        proof {
            assert(all.subrange(0, all.len() as int) =~= all);
        }
        let mut rest = mappings;
        let mut sorted: Vec<Mapping> = Vec::new();
        proof {
            broadcast use group_to_multiset_ensures;
            assert(mapping_views(sorted@) =~= Seq::<MappingView>::empty());
            assert(mapping_views(sorted@).to_multiset().add(all.to_multiset()) =~= all.to_multiset());
        }
        while rest.len() > 0
            invariant
                distinct(mapping_views(rest@)),
                ordered(mapping_views(sorted@)),
                mapping_views(sorted@).to_multiset().add(mapping_views(rest@).to_multiset())
                    == all.to_multiset(),
                forall|i: int, k: int|
                    0 <= i < sorted@.len() && 0 <= k < rest@.len() ==> (
                    #[trigger] mapping_views(sorted@)[i]).pattern != (
                    #[trigger] mapping_views(rest@)[k]).pattern,
            decreases rest@.len(),
        {
            let ghost s0 = mapping_views(sorted@);
            let ghost r0 = mapping_views(rest@);
            match rest.pop() {
                None => {},
                Some(mapping) => {
                    let ghost m = mapping@;
                    proof {
                        assert(r0.last() == m);
                        assert(mapping_views(rest@) =~= r0.drop_last());
                        assert(r0[r0.len() - 1] == m);
                    }
                    insert_ordered(&mut sorted, mapping);
                    proof {
                        let s1 = mapping_views(sorted@);
                        let r1 = mapping_views(rest@);
                        let k = choose|k: int|
                            0 <= k <= s0.len() && s1 == #[trigger] s0.insert(k, m);
                        lemma_insert_multiset(s0, k, m);
                        assert(r1.push(m) =~= r0);
                        lemma_push_multiset(r1, m);
                        assert(s1.to_multiset().add(r1.to_multiset()) =~= s0.to_multiset().add(
                            r0.to_multiset(),
                        ));
                        assert forall|i: int, q: int| 0 <= i < s1.len() && 0 <= q < r1.len() implies (
                        #[trigger] s1[i]).pattern != (#[trigger] r1[q]).pattern by {
                            assert(r1[q] == r0[q]);
                            if i < k {
                                assert(s1[i] == s0[i]);
                            } else if i == k {
                                assert(s1[i] == m);
                            } else {
                                assert(s1[i] == s0[i - 1]);
                            }
                        }
                        assert(distinct(r1)) by {
                            assert forall|a: int, b: int| 0 <= a < b < r1.len() implies
                            #[trigger] r1[a].pattern != #[trigger] r1[b].pattern by {
                                assert(r1[a] == r0[a]);
                                assert(r1[b] == r0[b]);
                            }
                        }
                    }
                },
            }
        }
        proof {
            assert(mapping_views(rest@) =~= Seq::<MappingView>::empty());
            lemma_empty_multiset();
            let s1 = mapping_views(sorted@);
            assert(s1.to_multiset().add(Multiset::empty()) =~= s1.to_multiset());
        }
        Ok(RegistrySnapshot { revision, mappings: sorted })
    }

    /// Returns the monotonic authoritative registry revision.
    pub fn revision(&self) -> (r: u64)
        ensures
            r == self@.revision,
    {
        self.revision
    }

    /// Returns the deterministically ordered mappings.
    pub fn mappings(&self) -> (r: &[Mapping])
        ensures
            mapping_views(r@) == self@.mappings,
            ordered(self@.mappings),
    {
        proof {
            use_type_invariant(self);
        }
        self.mappings.as_slice()
    }

    /// Resolves with exact-first, most-specific-wildcard precedence: the first
    /// mapping in the order of resolution that claims the name.
    pub fn resolve(&self, name: &RemapName) -> (r: Option<&Mapping>)
        ensures
            ordered(self@.mappings),
            match r {
                Some(m) => exists|i: int|
                    0 <= i < self@.mappings.len() && m@ == #[trigger] self@.mappings[i] && claims(
                        m@,
                        name@,
                    ) && forall|k: int| 0 <= k < i ==> !claims(#[trigger] self@.mappings[k], name@),
                None => forall|k: int|
                    0 <= k < self@.mappings.len() ==> !claims(#[trigger] self@.mappings[k], name@),
            },
    {
        proof {
            use_type_invariant(self);
        }
        let mut i: usize = 0;
        while i < self.mappings.len()
            invariant
                i <= self.mappings@.len(),
                self@.mappings == mapping_views(self.mappings@),
                ordered(self@.mappings),
                forall|k: int| 0 <= k < i ==> !claims(#[trigger] self@.mappings[k], name@),
            decreases self.mappings@.len() - i,
        {
            let mapping = &self.mappings[i];
            proof {
                assert(self@.mappings[i as int] == mapping@);
            }
            if mapping.is_enabled() && mapping.pattern().matches(name) {
                return Some(mapping);
            }
            i += 1;
        }
        None
    }
}

// ---------------------------------------------------------------------------
// Laws
// ---------------------------------------------------------------------------

proof fn lemma_empty_multiset()
    ensures
        Seq::<MappingView>::empty().to_multiset() == Multiset::<MappingView>::empty(),
{
    broadcast use group_to_multiset_ensures;

    assert(Seq::<MappingView>::empty().to_multiset() =~= Multiset::empty());
}

proof fn lemma_push_multiset(s: Seq<MappingView>, m: MappingView)
    ensures
        s.push(m).to_multiset() == s.to_multiset().insert(m),
{
    broadcast use group_to_multiset_ensures;

}

proof fn lemma_insert_multiset(s: Seq<MappingView>, k: int, m: MappingView)
    requires
        0 <= k <= s.len(),
    ensures
        s.insert(k, m).to_multiset() == s.to_multiset().insert(m),
{
    broadcast use group_to_multiset_ensures;

    let t = s.insert(k, m);
    assert(t.remove(k) =~= s);
    assert(t.to_multiset().remove(m) == s.to_multiset());
    assert(t[k] == m);
    assert(t.contains(m));
    assert(t.to_multiset() =~= s.to_multiset().insert(m));
}

/// The order of a revision does not depend on the order in which its records
/// were given: two ordered snapshots of the same mappings are equal.
pub proof fn law_order_is_deterministic(a: Seq<MappingView>, b: Seq<MappingView>)
    requires
        ordered(a),
        ordered(b),
        a.to_multiset() == b.to_multiset(),
    ensures
        a == b,
    decreases a.len(),
{
    broadcast use group_to_multiset_ensures;

    assert(a.len() == a.to_multiset().len());
    assert(b.len() == b.to_multiset().len());
    if a.len() > 0 {
        let x = a[0];
        let y = b[0];
        if x != y {
            assert(b.to_multiset().contains(x)) by {
                assert(a.contains(x));
                assert(a.to_multiset().contains(x));
            }
            assert(a.to_multiset().contains(y)) by {
                assert(b.contains(y));
                assert(b.to_multiset().contains(y));
            }
            let i = choose|i: int| 0 <= i < b.len() && b[i] == x;
            let j = choose|j: int| 0 <= j < a.len() && a[j] == y;
            assert(pattern_precedes(b[0].pattern, b[i].pattern));
            assert(pattern_precedes(a[0].pattern, a[j].pattern));
            law_pattern_order_is_strict_and_total(x.pattern, y.pattern);
        }
        let s = a.remove(0);
        let t = b.remove(0);
        assert(s.to_multiset() == t.to_multiset());
        assert(ordered(s)) by {
            assert forall|i: int, j: int| 0 <= i < j < s.len() implies pattern_precedes(
                #[trigger] s[i].pattern,
                #[trigger] s[j].pattern,
            ) by {
                assert(s[i] == a[i + 1] && s[j] == a[j + 1]);
            }
        }
        assert(ordered(t)) by {
            assert forall|i: int, j: int| 0 <= i < j < t.len() implies pattern_precedes(
                #[trigger] t[i].pattern,
                #[trigger] t[j].pattern,
            ) by {
                assert(t[i] == b[i + 1] && t[j] == b[j + 1]);
            }
        }
        law_order_is_deterministic(s, t);
        assert(a =~= seq![x] + s);
        assert(b =~= seq![y] + t);
    } else {
        assert(a =~= b);
    }
}

/// In an ordered snapshot no two mappings have the same pattern.
pub proof fn law_ordered_is_distinct(ms: Seq<MappingView>)
    requires
        ordered(ms),
    ensures
        distinct(ms),
{
    assert forall|i: int, j: int| 0 <= i < j < ms.len() implies #[trigger] ms[i].pattern
        != #[trigger] ms[j].pattern by {
        law_pattern_order_is_strict_and_total(ms[i].pattern, ms[j].pattern);
    }
}

/// The mapping that resolution picks precedes every other one that claims the
/// name: an exact pattern wins over all wildcards, and among wildcards one with
/// more labels wins.
pub proof fn law_resolution_precedence(ms: Seq<MappingView>, name: Seq<char>, i: int, j: int)
    requires
        ordered(ms),
        0 <= i < ms.len(),
        0 <= j < ms.len(),
        i != j,
        claims(ms[i], name),
        claims(ms[j], name),
        forall|k: int| 0 <= k < i ==> !claims(#[trigger] ms[k], name),
    ensures
        ms[j].pattern is Wildcard,
        ms[i].pattern is Wildcard ==> labels(ms[i].pattern.name()).len() > labels(
            ms[j].pattern.name(),
        ).len(),
{
    assert(i < j) by {
        if j < i {
            assert(!claims(ms[j], name));
        }
    }
    assert(pattern_precedes(ms[i].pattern, ms[j].pattern));
    law_pattern_order_is_strict_and_total(ms[i].pattern, ms[j].pattern);
    if ms[i].pattern is Wildcard && ms[j].pattern is Wildcard {
        let a = ms[i].pattern.name();
        let b = ms[j].pattern.name();
        crate::name::law_wildcard_claims_descendants(a, name);
        crate::name::law_wildcard_claims_descendants(b, name);
        if labels(a).len() == labels(b).len() {
            crate::text::lemma_split(a, '.');
            crate::text::lemma_split(b, '.');
            assert(a == b);
        }
    }
}

/// A disabled mapping claims nothing.
pub proof fn law_disabled_claims_nothing(m: MappingView, name: Seq<char>)
    requires
        !m.enabled,
    ensures
        !claims(m, name),
{
}

} // verus!
