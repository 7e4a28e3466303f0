//! Ordering by a text key, and collections of texts.

use vstd::multiset::Multiset;
use vstd::prelude::*;
use vstd::seq_lib::*;
use vstd::string::*;

use crate::text::{copy, lemma_precedes_total, lemma_precedes_transitive, precedes, same, text_precedes};

verus! {

/// The views of a sequence.
pub open spec fn views<T: View>(s: Seq<T>) -> Seq<T::V> {
    Seq::new(s.len(), |i: int| s[i]@)
}

/// A value that is ordered by one of its texts.
pub trait SortKey: View + Sized {
    spec fn key_of(v: Self::V) -> Seq<char>;

    fn key_text(&self) -> (s: String)
        ensures
            s@ == Self::key_of(self@),
    ;
}

impl SortKey for String {
    open spec fn key_of(v: Seq<char>) -> Seq<char> {
        v
    }

    fn key_text(&self) -> (s: String) {
        copy(self.as_str())
    }
}

/// An ordered sequence with one more value behind all that are not greater.
pub open spec fn insert_sorted<T: SortKey>(s: Seq<T::V>, x: T::V) -> Seq<T::V>
    decreases s.len(),
{
    if s.len() > 0 && precedes(T::key_of(x), T::key_of(s.last())) {
        insert_sorted::<T>(s.drop_last(), x).push(s.last())
    } else {
        s.push(x)
    }
}

/// The stable order of a sequence by its keys.
pub open spec fn sorted<T: SortKey>(s: Seq<T::V>) -> Seq<T::V>
    decreases s.len(),
{
    if s.len() == 0 {
        Seq::empty()
    } else {
        insert_sorted::<T>(sorted::<T>(s.drop_last()), s.last())
    }
}

/// Whether no key stands behind a greater one.
pub open spec fn in_order<T: SortKey>(s: Seq<T::V>) -> bool {
    forall|i: int, j: int|
        0 <= i < j < s.len() ==> !precedes(T::key_of(#[trigger] s[j]), T::key_of(#[trigger] s[i]))
}

proof fn lemma_insert_at<T: SortKey>(s: Seq<T::V>, x: T::V, k: int)
    requires
        0 <= k <= s.len(),
        k > 0 ==> !precedes(T::key_of(x), T::key_of(s[k - 1])),
        forall|i: int| k <= i < s.len() ==> precedes(T::key_of(x), T::key_of(#[trigger] s[i])),
    ensures
        insert_sorted::<T>(s, x) == s.insert(k, x),
    decreases s.len(),
{
    if k < s.len() {
        let t = s.drop_last();
        assert(s.last() == s[s.len() - 1]);
        assert forall|i: int| k <= i < t.len() implies precedes(
            T::key_of(x),
            T::key_of(#[trigger] t[i]),
        ) by {
            assert(t[i] == s[i]);
        }
        lemma_insert_at::<T>(t, x, k);
        assert(t.insert(k, x).push(s.last()) =~= s.insert(k, x));
    } else {
        if s.len() > 0 {
            assert(s.last() == s[k - 1]);
        }
        assert(s.insert(k, x) =~= s.push(x));
    }
}

proof fn lemma_insert_multiset<T: SortKey>(s: Seq<T::V>, x: T::V)
    ensures
        insert_sorted::<T>(s, x).to_multiset() == s.to_multiset().insert(x),
        insert_sorted::<T>(s, x).len() == s.len() + 1,
    decreases s.len(),
{
    broadcast use group_to_multiset_ensures;

    if s.len() > 0 && precedes(T::key_of(x), T::key_of(s.last())) {
        let t = s.drop_last();
        lemma_insert_multiset::<T>(t, x);
        let u = insert_sorted::<T>(t, x);
        assert(u.push(s.last()).to_multiset() == u.to_multiset().insert(s.last()));
        assert(t.push(s.last()) =~= s);
        assert(t.push(s.last()).to_multiset() == t.to_multiset().insert(s.last()));
        assert(t.to_multiset().insert(x).insert(s.last()) =~= t.to_multiset().insert(
            s.last(),
        ).insert(x));
    }
}

proof fn lemma_insert_order<T: SortKey>(s: Seq<T::V>, x: T::V)
    requires
        in_order::<T>(s),
    ensures
        in_order::<T>(insert_sorted::<T>(s, x)),
        forall|i: int|
            0 <= i < insert_sorted::<T>(s, x).len() ==> (#[trigger] insert_sorted::<T>(s, x)[i] == x
                || s.contains(insert_sorted::<T>(s, x)[i])),
    decreases s.len(),
{
    let r = insert_sorted::<T>(s, x);
    if s.len() > 0 && precedes(T::key_of(x), T::key_of(s.last())) {
        let t = s.drop_last();
        let last = s.last();
        assert(last == s[s.len() - 1]);
        assert forall|i: int, j: int| 0 <= i < j < t.len() implies !precedes(
            T::key_of(#[trigger] t[j]),
            T::key_of(#[trigger] t[i]),
        ) by {
            assert(t[i] == s[i] && t[j] == s[j]);
        }
        lemma_insert_order::<T>(t, x);
        lemma_insert_multiset::<T>(t, x);
        let u = insert_sorted::<T>(t, x);
        assert(r == u.push(last));
        assert forall|i: int| 0 <= i < r.len() implies (#[trigger] r[i] == x || s.contains(r[i])) by {
            if i < u.len() {
                assert(r[i] == u[i]);
                if u[i] != x {
                    let k = choose|k: int| 0 <= k < t.len() && t[k] == u[i];
                    assert(s[k] == r[i]);
                }
            } else {
                assert(s[s.len() - 1] == r[i]);
            }
        }
        assert forall|i: int, j: int| 0 <= i < j < r.len() implies !precedes(
            T::key_of(#[trigger] r[j]),
            T::key_of(#[trigger] r[i]),
        ) by {
            if j < u.len() {
                assert(r[i] == u[i] && r[j] == u[j]);
            } else {
                assert(r[j] == last);
                assert(r[i] == u[i]);
                if u[i] == x {
                    if precedes(T::key_of(last), T::key_of(x)) {
                        lemma_precedes_transitive(T::key_of(x), T::key_of(last), T::key_of(x));
                        crate::text::lemma_precedes_irreflexive(T::key_of(x));
                    }
                } else {
                    let k = choose|k: int| 0 <= k < t.len() && t[k] == u[i];
                    assert(s[k] == u[i]);
                    assert(s[s.len() - 1] == last);
                }
            }
        }
    } else {
        assert(r == s.push(x));
        assert forall|i: int| 0 <= i < r.len() implies (#[trigger] r[i] == x || s.contains(r[i])) by {
            if i < s.len() {
                assert(s[i] == r[i]);
            }
        }
        assert forall|i: int, j: int| 0 <= i < j < r.len() implies !precedes(
            T::key_of(#[trigger] r[j]),
            T::key_of(#[trigger] r[i]),
        ) by {
            if j < s.len() {
                assert(r[i] == s[i] && r[j] == s[j]);
            } else {
                assert(r[j] == x);
                assert(r[i] == s[i]);
                let last = s[s.len() - 1];
                assert(last == s.last());
                if precedes(T::key_of(x), T::key_of(s[i])) {
                    if i < s.len() - 1 {
                        assert(!precedes(T::key_of(last), T::key_of(s[i])));
                        lemma_precedes_total(T::key_of(s[i]), T::key_of(last));
                        if precedes(T::key_of(s[i]), T::key_of(last)) {
                            lemma_precedes_transitive(
                                T::key_of(x),
                                T::key_of(s[i]),
                                T::key_of(last),
                            );
                        }
                    }
                }
            }
        }
    }
}

/// Ordering keeps every value and leaves no key behind a greater one.
pub proof fn law_sorted<T: SortKey>(s: Seq<T::V>)
    ensures
        sorted::<T>(s).to_multiset() == s.to_multiset(),
        sorted::<T>(s).len() == s.len(),
        in_order::<T>(sorted::<T>(s)),
    decreases s.len(),
{
    broadcast use group_to_multiset_ensures;

    if s.len() > 0 {
        let t = s.drop_last();
        law_sorted::<T>(t);
        lemma_insert_multiset::<T>(sorted::<T>(t), s.last());
        lemma_insert_order::<T>(sorted::<T>(t), s.last());
        assert(t.push(s.last()) =~= s);
        assert(t.push(s.last()).to_multiset() == t.to_multiset().insert(s.last()));
    } else {
        assert(s =~= Seq::<T::V>::empty());
    }
}

/// Puts values into the stable order of their keys.
pub fn sort<T: SortKey>(values: Vec<T>) -> (r: Vec<T>)
    ensures
        views(r@) == sorted::<T>(views(values@)),
{
    let ghost all = views(values@);
    let mut rest = values;
    let mut r: Vec<T> = Vec::new();
    let ghost mut done: int = 0;
    proof {
        assert(all.subrange(0, 0) =~= Seq::<T::V>::empty());
        assert(views(r@) =~= Seq::<T::V>::empty());
        assert(all.subrange(0, all.len() as int) =~= all);
    }
    while rest.len() > 0
        invariant
            0 <= done <= all.len(),
            views(rest@) == all.subrange(done, all.len() as int),
            views(r@) == sorted::<T>(all.subrange(0, done)),
        decreases rest@.len(),
    {
        let ghost before_rest = views(rest@);
        proof {
            assert(before_rest.len() == rest@.len());
            assert(before_rest[0] == rest@[0]@);
        }
        let x = rest.remove(0);
        let ghost xv = x@;
        let ghost before = views(r@);
        let mut k: usize = r.len();
        while k > 0 && text_precedes(
            x.key_text().as_str(),
            r[k - 1].key_text().as_str(),
        )
            invariant
                k <= r@.len(),
                xv == x@,
                before == views(r@),
                forall|i: int|
                    k <= i < r@.len() ==> precedes(T::key_of(xv), T::key_of(#[trigger] before[i])),
            decreases k,
        {
            proof {
                assert(before[k - 1] == r@[k - 1]@);
            }
            k -= 1;
        }
        proof {
            if k > 0 {
                assert(before[k - 1] == r@[k - 1]@);
            }
            lemma_insert_at::<T>(before, xv, k as int);
        }
        r.insert(k, x);
        proof {
            assert(views(r@) =~= before.insert(k as int, xv));
            assert(xv == before_rest[0]);
            assert(before_rest[0] == all[done]);
            let next = all.subrange(0, done + 1);
            assert(next.drop_last() =~= all.subrange(0, done));
            assert(next.last() == xv);
            assert(views(rest@) =~= before_rest.subrange(1, before_rest.len() as int));
            assert(views(rest@) =~= all.subrange(done + 1, all.len() as int));
            done = done + 1;
        }
    }
    proof {
        assert(views(rest@).len() == 0);
        assert(done == all.len());
        assert(all.subrange(0, done) =~= all);
    }
    r
}

/// A sequence without the values that stand directly behind an equal one.
pub open spec fn dedup(s: Seq<Seq<char>>) -> Seq<Seq<char>>
    decreases s.len(),
{
    if s.len() == 0 {
        Seq::empty()
    } else {
        let d = dedup(s.drop_last());
        if d.len() > 0 && d.last() == s.last() {
            d
        } else {
            d.push(s.last())
        }
    }
}

/// Drops the texts that stand directly behind an equal one.
pub fn dedup_texts(v: Vec<String>) -> (r: Vec<String>)
    ensures
        views(r@) == dedup(views(v@)),
{
    let ghost all = views(v@);
    let mut r: Vec<String> = Vec::new();
    let mut i: usize = 0;
    proof {
        assert(all.subrange(0, 0) =~= Seq::<Seq<char>>::empty());
        assert(views(r@) =~= Seq::<Seq<char>>::empty());
    }
    while i < v.len()
        invariant
            i <= v@.len(),
            all == views(v@),
            views(r@) == dedup(all.subrange(0, i as int)),
        decreases v@.len() - i,
    {
        let ghost next = all.subrange(0, i as int + 1);
        let ghost before = views(r@);
        proof {
            assert(next.drop_last() =~= all.subrange(0, i as int));
            assert(next.last() == v@[i as int]@);
            if r@.len() > 0 {
                assert(before.last() == r@[r@.len() - 1]@);
            }
            assert(before.len() == r@.len());
        }
        if r.len() > 0 && same(r[r.len() - 1].as_str(), v[i].as_str()) {
        } else {
            r.push(copy(v[i].as_str()));
            proof {
                assert(views(r@) =~= before.push(next.last()));
            }
        }
        i += 1;
    }
    proof {
        assert(all.subrange(0, all.len() as int) =~= all);
    }
    r
}

/// Whether a text is among others.
pub fn contains_text(v: &[String], s: &str) -> (r: bool)
    ensures
        r == views(v@).contains(s@),
{
    let ghost all = views(v@);
    let mut i: usize = 0;
    while i < v.len()
        invariant
            i <= v@.len(),
            all == views(v@),
            forall|k: int| 0 <= k < i ==> #[trigger] all[k] != s@,
        decreases v@.len() - i,
    {
        proof {
            assert(all[i as int] == v@[i as int]@);
        }
        if same(v[i].as_str(), s) {
            return true;
        }
        i += 1;
    }
    false
}

/// A copy of texts.
pub fn copy_texts(v: &Vec<String>) -> (r: Vec<String>)
    ensures
        views(r@) == views(v@),
{
    let mut r: Vec<String> = Vec::new();
    let mut i: usize = 0;
    while i < v.len()
        invariant
            i <= v@.len(),
            r@.len() == i,
            forall|k: int| 0 <= k < i ==> (#[trigger] r@[k])@ == v@[k]@,
        decreases v@.len() - i,
    {
        r.push(copy(v[i].as_str()));
        i += 1;
    }
    proof {
        assert(views(r@) =~= views(v@));
    }
    r
}

/// Whether two sequences of texts are the same.
pub fn same_texts(a: &Vec<String>, b: &Vec<String>) -> (r: bool)
    ensures
        r == (views(a@) == views(b@)),
{
    if a.len() != b.len() {
        proof {
            assert(views(a@).len() != views(b@).len());
        }
        return false;
    }
    let mut i: usize = 0;
    while i < a.len()
        invariant
            i <= a@.len(),
            a@.len() == b@.len(),
            forall|k: int| 0 <= k < i ==> (#[trigger] a@[k])@ == b@[k]@,
        decreases a@.len() - i,
    {
        if !same(a[i].as_str(), b[i].as_str()) {
            proof {
                assert(views(a@)[i as int] != views(b@)[i as int]);
            }
            return false;
        }
        i += 1;
    }
    proof {
        assert(views(a@) =~= views(b@));
    }
    true
}

/// Puts the texts of the second sequence behind those of the first.
pub fn extend_texts(a: &mut Vec<String>, b: Vec<String>)
    ensures
        views(final(a)@) == views(old(a)@) + views(b@),
{
    let ghost first = views(a@);
    let ghost second = views(b@);
    let mut i: usize = 0;
    while i < b.len()
        invariant
            i <= b@.len(),
            second == views(b@),
            views(a@) == first + second.subrange(0, i as int),
        decreases b@.len() - i,
    {
        let ghost before = views(a@);
        a.push(copy(b[i].as_str()));
        proof {
            assert(views(a@) =~= before.push(second[i as int]));
            assert(second.subrange(0, i as int + 1) =~= second.subrange(0, i as int).push(
                second[i as int],
            ));
        }
        i += 1;
    }
    proof {
        assert(second.subrange(0, second.len() as int) =~= second);
    }
}

/// A text with one more.
pub fn push_text(v: &mut Vec<String>, s: String)
    ensures
        views(final(v)@) == views(old(v)@).push(s@),
{
    let ghost before = views(v@);
    v.push(s);
    proof {
        assert(views(v@) =~= before.push(s@));
    }
}

} // verus!
