//! The escape-time test.
//!
//! A point is followed along its orbit under a step function for a bounded
//! number of iterations. The step either gives the next point of the orbit or
//! reports that the point has left the escape radius. A point that escapes
//! within the bound lies outside the set; one that completes every iteration
//! lies inside. The arithmetic of the step is the caller's; the iteration,
//! its bound and its one early exit are decided here.

use vstd::prelude::*;

verus! {

/// The power of the recurrence, unless the caller asks for another.
pub const DEFAULT_EXPONENT: u32 = 8;

/// The bound on the iterations, unless the caller asks for another.
pub const DEFAULT_MAX_ITER: u32 = 10;

/// The fixed parameters of a run's escape-time test.
#[derive(Clone, Copy, Debug, PartialEq, Eq, Structural)]
pub struct Iteration {
    /// The integer power of the recurrence, handed to every step.
    pub exponent: u32,
    /// The most iterations the test makes for one point.
    pub max_iter: u32,
}

impl Default for Iteration {
    /// Exponent 8 and at most 10 iterations.
    fn default() -> (iteration: Iteration)
        ensures
            iteration.exponent == DEFAULT_EXPONENT,
            iteration.max_iter == DEFAULT_MAX_ITER,
    {
        Iteration { exponent: DEFAULT_EXPONENT, max_iter: DEFAULT_MAX_ITER }
    }
}

/// Each point of `orbit` but the last is carried to its successor by `step`
/// with the given exponent.
pub open spec fn follows<S, F: Fn(S, u32) -> Option<S>>(
    step: F,
    exponent: u32,
    orbit: Seq<S>,
) -> bool {
    forall|i: int|
        0 <= i < orbit.len() - 1 ==> call_ensures(
            step,
            (#[trigger] orbit[i], exponent),
            Some(orbit[i + 1]),
        )
}

/// `orbit` is what the test went through on its way to the verdict `inside`:
/// it starts at `start` and follows `step`; for a point inside, it completes
/// `max_iter` steps; for a point outside, it stops after fewer, at a point
/// from which `step` reports the escape.
pub open spec fn witnesses<S, F: Fn(S, u32) -> Option<S>>(
    start: S,
    iteration: Iteration,
    step: F,
    inside: bool,
    orbit: Seq<S>,
) -> bool {
    &&& orbit.len() >= 1
    &&& orbit[0] == start
    &&& follows(step, iteration.exponent, orbit)
    &&& if inside {
        orbit.len() == iteration.max_iter + 1
    } else {
        orbit.len() <= iteration.max_iter && call_ensures(
            step,
            (orbit.last(), iteration.exponent),
            None::<S>,
        )
    }
}

/// The verdict `inside` is one that the escape-time test can reach for
/// `start` under `step` with the parameters `iteration`.
pub open spec fn classified<S, F: Fn(S, u32) -> Option<S>>(
    start: S,
    iteration: Iteration,
    step: F,
    inside: bool,
) -> bool {
    exists|orbit: Seq<S>| witnesses(start, iteration, step, inside, orbit)
}

/// `step` has only one outcome for each point and exponent.
pub open spec fn single_outcome<S, F: Fn(S, u32) -> Option<S>>(step: F) -> bool {
    forall|s: S, exponent: u32, a: Option<S>, b: Option<S>|
        call_ensures(step, (s, exponent), a) && call_ensures(step, (s, exponent), b) ==> a == b
}

/// Runs the escape-time test: applies `step`, with the exponent of
/// `iteration`, up to `iteration.max_iter` times, starting from `start`.
/// Returns `false` as soon as `step` reports an escape, which is the only
/// early exit, and `true` when every iteration has been made.
pub fn classify<S, F: Fn(S, u32) -> Option<S>>(
    start: S,
    iteration: Iteration,
    step: F,
) -> (inside: bool)
    requires
        forall|s: S| call_requires(step, (s, iteration.exponent)),
    ensures
        classified(start, iteration, step, inside),
{
    let ghost mut orbit: Seq<S> = seq![start];
    let mut state = start;
    let mut done: u32 = 0;
    while done < iteration.max_iter
        invariant
            done <= iteration.max_iter,
            forall|s: S| call_requires(step, (s, iteration.exponent)),
            orbit.len() == done + 1,
            orbit[0] == start,
            orbit.last() == state,
            follows(step, iteration.exponent, orbit),
        decreases iteration.max_iter - done,
    {
        let ghost here = state;
        match step(state, iteration.exponent) {
            None => {
                assert(witnesses(start, iteration, step, false, orbit));
                return false;
            },
            Some(next) => {
                proof {
                    let longer = orbit.push(next);
                    assert forall|i: int| 0 <= i < longer.len() - 1 implies call_ensures(
                        step,
                        (#[trigger] longer[i], iteration.exponent),
                        Some(longer[i + 1]),
                    ) by {
                        if i < orbit.len() - 1 {
                            assert(longer[i] == orbit[i]);
                            assert(longer[i + 1] == orbit[i + 1]);
                        } else {
                            assert(longer[i] == here);
                        }
                    }
                    orbit = longer;
                }
                state = next;
                done += 1;
            },
        }
    }
    assert(witnesses(start, iteration, step, true, orbit));
    true
}

/// Along an orbit that starts at a fixed point of `step`, every point is that
/// fixed point.
proof fn lemma_orbit_of_fixed_point<S, F: Fn(S, u32) -> Option<S>>(
    step: F,
    exponent: u32,
    orbit: Seq<S>,
    point: S,
    i: int,
)
    requires
        orbit.len() >= 1,
        orbit[0] == point,
        follows(step, exponent, orbit),
        forall|r: Option<S>| call_ensures(step, (point, exponent), r) ==> r == Some(point),
        0 <= i < orbit.len(),
    ensures
        orbit[i] == point,
    decreases i,
{
    if i > 0 {
        lemma_orbit_of_fixed_point(step, exponent, orbit, point, i - 1);
        assert(call_ensures(step, (orbit[i - 1], exponent), Some(orbit[i - 1 + 1])));
    }
}

/// A point that `step` maps to itself never escapes: it is classified as
/// inside, whatever the bound on the iterations.
pub proof fn lemma_fixed_point_is_inside<S, F: Fn(S, u32) -> Option<S>>(
    start: S,
    iteration: Iteration,
    step: F,
    inside: bool,
)
    requires
        classified(start, iteration, step, inside),
        forall|r: Option<S>|
            call_ensures(step, (start, iteration.exponent), r) ==> r == Some(start),
    ensures
        inside,
{
    let orbit = choose|orbit: Seq<S>| witnesses(start, iteration, step, inside, orbit);
    if !inside {
        lemma_orbit_of_fixed_point(step, iteration.exponent, orbit, start, orbit.len() - 1);
    }
}

/// A point from which `step` reports an escape at once is classified as
/// outside, as soon as one iteration is allowed.
pub proof fn lemma_immediate_escape_is_outside<S, F: Fn(S, u32) -> Option<S>>(
    start: S,
    iteration: Iteration,
    step: F,
    inside: bool,
)
    requires
        classified(start, iteration, step, inside),
        iteration.max_iter >= 1,
        forall|r: Option<S>| call_ensures(step, (start, iteration.exponent), r) ==> r is None,
    ensures
        !inside,
{
    let orbit = choose|orbit: Seq<S>| witnesses(start, iteration, step, inside, orbit);
    if inside {
        assert(call_ensures(step, (orbit[0int], iteration.exponent), Some(orbit[0int + 1])));
    }
}

/// Two orbits from the same start under a step with only one outcome for
/// each point agree as far as both reach.
proof fn lemma_orbits_agree<S, F: Fn(S, u32) -> Option<S>>(
    step: F,
    exponent: u32,
    first: Seq<S>,
    second: Seq<S>,
    i: int,
)
    requires
        first.len() >= 1,
        second.len() >= 1,
        first[0] == second[0],
        follows(step, exponent, first),
        follows(step, exponent, second),
        single_outcome(step),
        0 <= i < first.len(),
        i < second.len(),
    ensures
        first[i] == second[i],
    decreases i,
{
    if i > 0 {
        lemma_orbits_agree(step, exponent, first, second, i - 1);
        assert(call_ensures(step, (first[i - 1], exponent), Some(first[i - 1 + 1])));
        assert(call_ensures(step, (second[i - 1], exponent), Some(second[i - 1 + 1])));
    }
}

/// The test has one verdict for each point: where `step` has only one
/// outcome for each point, two runs from the same start with the same
/// parameters agree.
pub proof fn lemma_verdict_unique<S, F: Fn(S, u32) -> Option<S>>(
    start: S,
    iteration: Iteration,
    step: F,
    first: bool,
    second: bool,
)
    requires
        classified(start, iteration, step, first),
        classified(start, iteration, step, second),
        single_outcome(step),
    ensures
        first == second,
{
    let exponent = iteration.exponent;
    let one = choose|orbit: Seq<S>| witnesses(start, iteration, step, first, orbit);
    let two = choose|orbit: Seq<S>| witnesses(start, iteration, step, second, orbit);
    if first && !second {
        let last = two.len() - 1;
        lemma_orbits_agree(step, exponent, one, two, last);
        assert(call_ensures(step, (one[last], exponent), Some(one[last + 1])));
    }
    if second && !first {
        let last = one.len() - 1;
        lemma_orbits_agree(step, exponent, one, two, last);
        assert(call_ensures(step, (two[last], exponent), Some(two[last + 1])));
    }
}

} // verus!
