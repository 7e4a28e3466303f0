//! When observations of the resolver count as stable, and the generations that
//! activations are numbered with.

use vstd::prelude::*;
use vstd::string::*;

use crate::fault::{invalid_data, invalid_of, Fault, FaultView};

verus! {

/// How often the same observation has to come in a row.
pub const REQUIRED_STABLE_OBSERVATIONS: u8 = 3;

/// Whether a deadline is reached.
pub fn deadline_reached(now: u64, deadline: u64) -> (r: bool)
    ensures
        r == (now >= deadline),
{
    now >= deadline
}

/// Something that can be observed again and compared.
pub trait Observed: View + Sized {
    fn same_as(&self, other: &Self) -> (r: bool)
        ensures
            r == (self@ == other@),
    ;

    fn duplicate(&self) -> (r: Self)
        ensures
            r@ == self@,
    ;
}

impl Observed for u8 {
    fn same_as(&self, other: &u8) -> (r: bool) {
        *self == *other
    }

    fn duplicate(&self) -> (r: u8) {
        *self
    }
}

/// The observation that came last, and how often in a row.
#[derive(Debug)]
pub struct ObservationStability<T> {
    candidate: Option<T>,
    count: u8,
}

/// A candidate and its count over plain values.
pub struct StabilityView<V> {
    pub candidate: Option<V>,
    pub count: int,
}

impl<T: View> View for ObservationStability<T> {
    type V = StabilityView<T::V>;

    closed spec fn view(&self) -> StabilityView<T::V> {
        StabilityView {
            candidate: match self.candidate {
                Some(c) => Some(c@),
                None => None,
            },
            count: self.count as int,
        }
    }
}

pub open spec fn unobserved<V>() -> StabilityView<V> {
    StabilityView { candidate: None, count: 0 }
}

/// A candidate with one more observation. The count stops at the largest that
/// a byte holds.
pub open spec fn observed<V>(s: StabilityView<V>, o: V) -> StabilityView<V> {
    if s.candidate == Some(o) {
        StabilityView {
            count: if s.count >= 255 {
                255
            } else {
                s.count + 1
            },
            ..s
        }
    } else {
        StabilityView { candidate: Some(o), count: 1 }
    }
}

pub open spec fn is_stable<V>(s: StabilityView<V>) -> bool {
    s.count >= REQUIRED_STABLE_OBSERVATIONS
}

impl<T: Observed> ObservationStability<T> {
    /// Nothing was observed yet.
    pub fn unobserved() -> (r: ObservationStability<T>)
        ensures
            r@ == unobserved::<T::V>(),
    {
        ObservationStability { candidate: None, count: 0 }
    }

    /// One observation was made.
    pub fn seeded(initial: T) -> (r: ObservationStability<T>)
        ensures
            r@ == observed(unobserved::<T::V>(), initial@),
            !is_stable(r@),
    {
        let mut s: ObservationStability<T> = ObservationStability::unobserved();
        let stable = s.observe(initial);
        s
    }

    /// Takes an observation in, and says whether it is stable now.
    pub fn observe(&mut self, observation: T) -> (r: bool)
        ensures
            final(self)@ == observed(old(self)@, observation@),
            r == is_stable(final(self)@),
    {
        let again = match &self.candidate {
            Some(c) => c.same_as(&observation),
            None => false,
        };
        if again {
            if self.count < 255 {
                self.count = self.count + 1;
            }
        } else {
            self.candidate = Some(observation);
            self.count = 1;
        }
        self.count >= REQUIRED_STABLE_OBSERVATIONS
    }

    /// Forgets what was observed.
    pub fn reset(&mut self)
        ensures
            final(self)@ == unobserved::<T::V>(),
    {
        self.candidate = None;
        self.count = 0;
    }
}

/// What an observation of a link that drifted comes to.
#[derive(Debug, PartialEq, Eq)]
pub enum SteadyObservation<T> {
    /// The link is where it should be.
    Cancelled,
    Pending,
    /// The link stays where it drifted to.
    Stable(T),
}

/// What an observation comes to over plain values.
pub enum SteadyView<V> {
    Cancelled,
    Pending,
    Stable(V),
}

impl<T: View> View for SteadyObservation<T> {
    type V = SteadyView<T::V>;

    open spec fn view(&self) -> SteadyView<T::V> {
        match self {
            SteadyObservation::Cancelled => SteadyView::Cancelled,
            SteadyObservation::Pending => SteadyView::Pending,
            SteadyObservation::Stable(o) => SteadyView::Stable(o@),
        }
    }
}

/// What an observation comes to, and what is known afterwards: where none was
/// made, counting begins anew; where the link is where it should be, nothing
/// more is counted.
pub open spec fn steady<V>(s: StabilityView<V>, o: Option<V>, requires_rebase: bool) -> (
    SteadyView<V>,
    StabilityView<V>,
) {
    match o {
        None => (SteadyView::Pending, unobserved()),
        Some(o) => if !requires_rebase {
            (SteadyView::Cancelled, s)
        } else if is_stable(observed(s, o)) {
            (SteadyView::Stable(o), observed(s, o))
        } else {
            (SteadyView::Pending, observed(s, o))
        },
    }
}

/// Takes an observation of a link that drifted in.
pub fn evaluate_steady_observation<T: Observed>(
    stability: &mut ObservationStability<T>,
    observation: Option<T>,
    requires_rebase: bool,
) -> (r: SteadyObservation<T>)
    ensures
        (r@, final(stability)@) == steady(
            old(stability)@,
            match observation {
                Some(o) => Some(o@),
                None => None,
            },
            requires_rebase,
        ),
{
    let o = match observation {
        None => {
            stability.reset();
            return SteadyObservation::Pending;
        },
        Some(o) => o,
    };
    if !requires_rebase {
        return SteadyObservation::Cancelled;
    }
    if stability.observe(o.duplicate()) {
        SteadyObservation::Stable(o)
    } else {
        SteadyObservation::Pending
    }
}

// ---------------------------------------------------------------------------
// Generations
// ---------------------------------------------------------------------------

/// The number behind a previous one, by the clock where that is ahead.
pub open spec fn next_generation(wall: u64, previous: Option<u64>) -> Option<u64> {
    match previous {
        None => Some(wall),
        Some(p) => if p == u64::MAX {
            None
        } else if p + 1 > wall {
            Some((p + 1) as u64)
        } else {
            Some(wall)
        },
    }
}

/// The number behind a previous one, by the clock where that is ahead.
pub fn monotonic_generation(wall_generation: u64, previous: Option<u64>) -> (r: Option<u64>)
    ensures
        r == next_generation(wall_generation, previous),
{
    match previous {
        None => Some(wall_generation),
        Some(p) => match p.checked_add(1) {
            Some(next) => if next > wall_generation {
                Some(next)
            } else {
                Some(wall_generation)
            },
            None => None,
        },
    }
}

/// The number and the second of an activation, or why there is none. The clock
/// reads so many nanoseconds behind the epoch, or stands before it.
pub open spec fn stamp(clock: Option<u128>, previous: Option<u64>) -> Result<
    (u64, u64),
    FaultView,
> {
    match clock {
        None => Err(invalid_of("system clock predates the Unix epoch"@)),
        Some(nanoseconds) => if nanoseconds > u64::MAX {
            Err(invalid_of("system clock exceeds the generation range"@))
        } else {
            match next_generation(nanoseconds as u64, previous) {
                None => Err(invalid_of("resolver generation counter is exhausted"@)),
                Some(g) => Ok((g, (nanoseconds / 1_000_000_000) as u64)),
            }
        },
    }
}

/// The number and the second of an activation behind a previous one.
pub fn timestamp_after(clock: Option<u128>, previous: Option<u64>) -> (r: Result<(u64, u64), Fault>)
    ensures
        crate::files::result_view(r) == stamp(clock, previous),
{
    let nanoseconds = match clock {
        None => {
            return Err(invalid_data("system clock predates the Unix epoch"));
        },
        Some(nanoseconds) => nanoseconds,
    };
    if nanoseconds > 0xffff_ffff_ffff_ffff {
        return Err(invalid_data("system clock exceeds the generation range"));
    }
    let wall: u64 = nanoseconds as u64;
    match monotonic_generation(wall, previous) {
        None => Err(invalid_data("resolver generation counter is exhausted")),
        Some(g) => Ok((g, wall / 1_000_000_000)),
    }
}

// ---------------------------------------------------------------------------
// Laws
// ---------------------------------------------------------------------------

/// What was seen after some observations.
pub open spec fn after<V>(s: StabilityView<V>, o: Seq<V>) -> StabilityView<V>
    decreases o.len(),
{
    if o.len() == 0 {
        s
    } else {
        observed(after(s, o.drop_last()), o.last())
    }
}

/// An observation is stable exactly where the last ones, as many as are
/// required, are all the same.
pub proof fn law_stability_needs_a_run<V>(o: Seq<V>)
    ensures
        is_stable(after(unobserved::<V>(), o)) <==> o.len() >= REQUIRED_STABLE_OBSERVATIONS && o[
        o.len() - 1] == o[o.len() - 2] && o[o.len() - 2] == o[o.len() - 3],
{
    lemma_after(o);
    if o.len() >= 3 {
        lemma_after(o.drop_last());
        lemma_after(o.drop_last().drop_last());
    } else if o.len() == 2 {
        lemma_after(o.drop_last());
        assert(o.drop_last().drop_last().len() == 0);
    } else if o.len() == 1 {
        assert(o.drop_last().len() == 0);
    }
}

proof fn lemma_after<V>(o: Seq<V>)
    ensures
        ({
            let s = after(unobserved::<V>(), o);
            &&& 0 <= s.count <= 255
            &&& o.len() == 0 ==> s == unobserved::<V>()
            &&& o.len() > 0 ==> s.candidate == Some(o.last()) && s.count >= 1
            &&& o.len() > 1 ==> {
                let t = after(unobserved::<V>(), o.drop_last());
                s.count == if o.last() == o[o.len() - 2] {
                    if t.count >= 255 {
                        255
                    } else {
                        t.count + 1
                    }
                } else {
                    1
                }
            }
            &&& o.len() == 1 ==> s.count == 1
        }),
    decreases o.len(),
{
    if o.len() > 0 {
        lemma_after(o.drop_last());
        if o.len() > 1 {
            assert(o.drop_last().last() == o[o.len() - 2]);
        }
    }
}

/// Generations only grow, also where the clock goes back, and are never behind
/// the clock.
pub proof fn law_generations_grow(wall: u64, previous: u64)
    ensures
        next_generation(wall, Some(previous)) is None <==> previous == u64::MAX,
        next_generation(wall, Some(previous)) is Some ==> next_generation(wall, Some(previous))->0
            > previous && next_generation(wall, Some(previous))->0 >= wall,
{
}

} // verus!
