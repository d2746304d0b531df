//! The bounce budget of the path estimator: what it does after each traced
//! segment of a light path.

use vstd::prelude::*;

verus! {

/// What tracing one segment of a light path found.
#[derive(Clone, Copy, Debug, PartialEq, Eq, Structural)]
pub enum Segment {
    /// The ray left the scene: the background lights it.
    Missed,
    /// The ray hit a surface whose material absorbed it.
    Absorbed,
    /// The ray hit a surface and its material scattered it onwards.
    Scattered,
}

/// How a light path ends.
#[derive(Clone, Copy, Debug, PartialEq, Eq, Structural)]
pub enum Ending {
    /// The path escaped: its colour is the sky gradient, attenuated by every
    /// scatter on the way.
    Sky,
    /// The path was absorbed or ran out of bounces: it contributes black.
    Black,
}

/// What the estimator does next on a path.
#[derive(Clone, Copy, Debug, PartialEq, Eq, Structural)]
pub enum Step {
    /// The path is finished.
    Done(Ending),
    /// Trace the next segment, with this many bounces left (never zero).
    Trace(usize),
}

/// The first step of a path allowed `max_depth` bounces.
pub open spec fn first_step(max_depth: nat) -> Step {
    if max_depth == 0 {
        Step::Done(Ending::Black)
    } else {
        Step::Trace(max_depth as usize)
    }
}

/// The step after a segment traced with `depth` bounces left found `found`.
pub open spec fn next_step(depth: nat, found: Segment) -> Step {
    match found {
        Segment::Missed => Step::Done(Ending::Sky),
        Segment::Absorbed => Step::Done(Ending::Black),
        Segment::Scattered => first_step((depth - 1) as nat),
    }
}

/// Starts a path that may bounce at most `max_depth` times. With no bounce
/// left the path is black at once, before anything is traced.
pub fn begin(max_depth: usize) -> (r: Step)
    ensures
        r == first_step(max_depth as nat),
{
    if max_depth == 0 {
        Step::Done(Ending::Black)
    } else {
        Step::Trace(max_depth)
    }
}

/// Decides what follows a segment traced with `depth` bounces left that
/// found `found`: a miss ends on the sky, an absorption on black, and a
/// scatter goes on with one bounce fewer.
pub fn advance(depth: usize, found: Segment) -> (r: Step)
    requires
        depth > 0,
    ensures
        r == next_step(depth as nat, found),
{
    match found {
        Segment::Missed => Step::Done(Ending::Sky),
        Segment::Absorbed => Step::Done(Ending::Black),
        Segment::Scattered => begin(depth - 1),
    }
}

/// Follows `step` through the segments `found`, one per traced segment:
/// the ending and the number of segments traced, or `None` if `found` runs
/// out while the path still goes on.
pub open spec fn follow(step: Step, found: Seq<Segment>) -> Option<(Ending, nat)>
    decreases found.len(),
{
    match step {
        Step::Done(e) => Some((e, 0nat)),
        Step::Trace(d) => if found.len() == 0 {
            None
        } else {
            match follow(next_step(d as nat, found[0]), found.drop_first()) {
                Some((e, n)) => Some((e, n + 1)),
                None => None,
            }
        },
    }
}

/// Whatever each traced segment finds, a path allowed `max_depth` bounces
/// ends after at most `max_depth` traced segments; when every one of them
/// scattered, it ends black.
pub proof fn lemma_path_ends_within_budget(max_depth: nat, found: Seq<Segment>)
    requires
        max_depth <= usize::MAX,
        found.len() >= max_depth,
    ensures
        follow(first_step(max_depth), found) is Some,
        follow(first_step(max_depth), found).unwrap().1 <= max_depth,
        follow(first_step(max_depth), found).unwrap().1 == max_depth && (forall|i: int|
            0 <= i < max_depth ==> found[i] == Segment::Scattered) ==> follow(
            first_step(max_depth),
            found,
        ).unwrap().0 == Ending::Black,
    decreases max_depth,
{
    if max_depth > 0 {
        let rest = found.drop_first();
        let after = next_step(max_depth, found[0]);
        assert(follow(first_step(max_depth), found) == match follow(after, rest) {
            Some((e, n)) => Some((e, n + 1)),
            None => None,
        });
        if found[0] == Segment::Scattered {
            lemma_path_ends_within_budget((max_depth - 1) as nat, rest);
            if forall|i: int| 0 <= i < max_depth ==> found[i] == Segment::Scattered {
                assert forall|i: int| 0 <= i < max_depth - 1 implies rest[i]
                    == Segment::Scattered by {
                    assert(found[i + 1] == Segment::Scattered);
                }
            }
        } else {
            assert(after is Done);
            assert(follow(after, rest) is Some);
        }
    }
}

} // verus!
