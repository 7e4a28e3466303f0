//! Courses: the stages that a run goes through, one behind the other, where
//! nothing fails.

use vstd::prelude::*;

verus! {

/// Stages that belong to a course on a condition.
pub open spec fn only_if<S>(condition: bool, stages: Seq<S>) -> Seq<S> {
    if condition {
        stages
    } else {
        Seq::empty()
    }
}

/// Whether a run that has passed some stages stands where its course says: it
/// passed a beginning of the course, and is at the stage behind it, or over.
pub open spec fn on_course<S>(course: Seq<S>, passed: Seq<S>, stage: S, over: S) -> bool {
    &&& passed.len() <= course.len()
    &&& passed == course.subrange(0, passed.len() as int)
    &&& stage == if passed.len() < course.len() {
        course[passed.len() as int]
    } else {
        over
    }
}

/// A run that passes the stage it is at is still on its course at the next one.
pub proof fn lemma_passes<S>(course: Seq<S>, passed: Seq<S>, stage: S, next: S, over: S)
    requires
        on_course(course, passed, stage, over),
        passed.len() < course.len(),
        next == if passed.len() + 1 < course.len() {
            course[passed.len() as int + 1]
        } else {
            over
        },
    ensures
        on_course(course, passed.push(stage), next, over),
{
    assert(course.subrange(0, passed.len() as int + 1) =~= passed.push(stage));
}

/// A run that is over on its course has passed all of it.
pub proof fn lemma_passed<S>(course: Seq<S>, passed: Seq<S>, over: S)
    requires
        on_course(course, passed, over, over),
        !course.contains(over),
    ensures
        passed == course,
{
    if passed.len() < course.len() {
        assert(course.contains(course[passed.len() as int]));
    }
    assert(course.subrange(0, course.len() as int) =~= course);
}

/// A run on a part of a course, behind all that precedes the part, is on the
/// course; where it is over behind the part, nothing may follow.
pub proof fn lemma_part<S>(
    head: Seq<S>,
    part: Seq<S>,
    tail: Seq<S>,
    passed: Seq<S>,
    stage: S,
    over: S,
)
    requires
        on_course(part, passed, stage, over),
        passed.len() < part.len() || tail.len() == 0,
    ensures
        on_course(head + part + tail, head + passed, stage, over),
{
    assert((head + part + tail).subrange(0, (head + passed).len() as int) =~= head + passed);
}

} // verus!
