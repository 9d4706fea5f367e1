//! Counting how long an orbit stays inside its escape region.
//!
//! An orbit is produced by two functions of the caller: `step` maps a point
//! of the orbit to the next one, and `within` tells whether a point is still
//! inside the escape region. The escape time of a starting point is the
//! number of the last point that was still inside before the test that ended
//! the iteration; the starting point itself has number zero and is never
//! tested. For the Mandelbrot set a point is a pair `(z, c)` of complex
//! numbers starting at `(0, c)`, `step` maps it to `(z * z + c, c)`, and
//! `within` is `|z|^2 <= 4`.
use crate::error::FractalError;
use vstd::prelude::*;

verus! {

/// Whether point `k + 1` of `orbit` is a successor of point `k`.
pub open spec fn follows<Z, S: Fn(Z) -> Z>(step: &S, orbit: Seq<Z>, k: int) -> bool {
    step.ensures((orbit[k],), orbit[k + 1])
}

/// Whether point `k` of `orbit` can pass the test.
pub open spec fn stays<Z, W: Fn(&Z) -> bool>(within: &W, orbit: Seq<Z>, k: int) -> bool {
    within.ensures((&orbit[k],), true)
}

/// Whether `orbit` is a run of the iteration: it begins at `start`, every
/// point is a successor of the one before it, and every point strictly
/// between the first and the last has passed the test.
pub open spec fn is_run<Z, S: Fn(Z) -> Z, W: Fn(&Z) -> bool>(
    start: Z,
    step: &S,
    within: &W,
    orbit: Seq<Z>,
) -> bool {
    &&& orbit.len() >= 1
    &&& orbit[0] == start
    &&& forall|k: int| 0 <= k < orbit.len() - 1 ==> #[trigger] follows(step, orbit, k)
    &&& forall|k: int| 1 <= k < orbit.len() - 1 ==> #[trigger] stays(within, orbit, k)
}

/// Whether the iteration may be run from `start` up to `cutoff`: `step`
/// accepts the starting point, `within` accepts every point a run can reach
/// before the cutoff, and `step` accepts every such point that passes the
/// test. Functions without preconditions always satisfy this.
pub open spec fn can_iterate<Z, S: Fn(Z) -> Z, W: Fn(&Z) -> bool>(
    start: Z,
    step: &S,
    within: &W,
    cutoff: u32,
) -> bool {
    &&& cutoff >= 1 ==> step.requires((start,))
    &&& forall|orbit: Seq<Z>| #[trigger]
        is_run(start, step, within, orbit) && 2 <= orbit.len() <= cutoff ==> {
            &&& within.requires((&orbit.last(),))
            &&& within.ensures((&orbit.last(),), true) ==> step.requires((orbit.last(),))
        }
}

/// Whether `orbit` shows that `count` is an escape time of `start`: it is a
/// run of `count + 2` points, so points `1` to `count` passed the test, and
/// the run ended at point `count + 1` because the cutoff was reached or
/// because that point failed the test.
pub open spec fn shows_escape_time<Z, S: Fn(Z) -> Z, W: Fn(&Z) -> bool>(
    start: Z,
    step: &S,
    within: &W,
    cutoff: u32,
    count: u32,
    orbit: Seq<Z>,
) -> bool {
    &&& is_run(start, step, within, orbit)
    &&& orbit.len() == count + 2
    &&& count < cutoff
    &&& count + 1 == cutoff || within.ensures((&orbit[count + 1],), false)
}

/// Whether `count` is an escape time of `start` under `cutoff`: some run of
/// the iteration shows it. Where `step` and `within` are functions of their
/// argument there is exactly one (see [`lemma_escape_time_unique`]).
pub open spec fn is_escape_time<Z, S: Fn(Z) -> Z, W: Fn(&Z) -> bool>(
    start: Z,
    step: &S,
    within: &W,
    cutoff: u32,
    count: u32,
) -> bool {
    exists|orbit: Seq<Z>| #[trigger] shows_escape_time(start, step, within, cutoff, count, orbit)
}

/// Iterates `step` from `start` and counts: the orbit is advanced once, and
/// then again for as long as fewer than `cutoff` steps were taken and the
/// current point passes `within`. The result is the number of steps taken
/// less one, so a starting point whose first successor already fails the test
/// has escape time `0`, and one that never fails it has `cutoff - 1`.
///
/// A `cutoff` of zero leaves no count to report and is rejected with
/// `InvalidCutoff`; every other cutoff yields a count.
pub fn escape_time<Z, S: Fn(Z) -> Z, W: Fn(&Z) -> bool>(
    start: Z,
    step: &S,
    within: &W,
    cutoff: u32,
) -> (result: Result<u32, FractalError>)
    requires
        can_iterate(start, step, within, cutoff),
    ensures
        cutoff == 0 ==> result == Err::<u32, _>(FractalError::InvalidCutoff),
        cutoff > 0 ==> result is Ok,
        result matches Ok(count) ==> count < cutoff && is_escape_time(
            start,
            step,
            within,
            cutoff,
            count,
        ),
{
    if cutoff == 0 {
        return Err(FractalError::InvalidCutoff);
    }
    let ghost mut orbit: Seq<Z> = seq![start];
    let mut z = step(start);
    let mut steps: u32 = 1;
    proof {
        orbit = orbit.push(z);
        assert(follows(step, orbit, 0));
    }
    loop
        invariant_except_break
            1 <= steps <= cutoff,
        invariant
            can_iterate(start, step, within, cutoff),
            is_run(start, step, within, orbit),
            orbit.len() == steps + 1,
            orbit.last() == z,
        ensures
            1 <= steps <= cutoff,
            steps == cutoff || within.ensures((&z,), false),
        decreases cutoff - steps,
    {
        if steps >= cutoff {
            break;
        }
        let inside = within(&z);
        if !inside {
            break;
        }
        let ghost before = orbit;
        z = step(z);
        steps += 1;
        proof {
            orbit = before.push(z);
            assert forall|k: int| 0 <= k < orbit.len() - 1 implies #[trigger] follows(
                step,
                orbit,
                k,
            ) by {
                if k < before.len() - 1 {
                    assert(follows(step, before, k));
                }
            }
            assert forall|k: int| 1 <= k < orbit.len() - 1 implies #[trigger] stays(
                within,
                orbit,
                k,
            ) by {
                if k < before.len() - 1 {
                    assert(stays(within, before, k));
                }
            }
        }
    }
    proof {
        assert(shows_escape_time(start, step, within, cutoff, (steps - 1) as u32, orbit));
    }
    Ok(steps - 1)
}

/// Whether `step` yields one successor for each point.
pub open spec fn step_is_function<Z, S: Fn(Z) -> Z>(step: &S) -> bool {
    forall|z: Z, a: Z, b: Z| #[trigger] step.ensures((z,), a) && #[trigger] step.ensures((z,), b)
        ==> a == b
}

/// Whether `within` gives one verdict for each point.
pub open spec fn test_is_function<Z, W: Fn(&Z) -> bool>(within: &W) -> bool {
    forall|z: Z| !(#[trigger] within.ensures((&z,), true) && within.ensures((&z,), false))
}

/// Two runs of the same iteration agree on every point they both have,
/// provided each point has one successor.
proof fn lemma_runs_agree<Z, S: Fn(Z) -> Z, W: Fn(&Z) -> bool>(
    start: Z,
    step: &S,
    within: &W,
    first: Seq<Z>,
    second: Seq<Z>,
    k: int,
)
    requires
        step_is_function(step),
        is_run(start, step, within, first),
        is_run(start, step, within, second),
        0 <= k < first.len(),
        k < second.len(),
    ensures
        first[k] == second[k],
    decreases k,
{
    if k > 0 {
        lemma_runs_agree(start, step, within, first, second, k - 1);
        assert(follows(step, first, k - 1));
        assert(follows(step, second, k - 1));
    }
}

/// The escape time is a function of the inputs: where `step` and `within`
/// each give one answer per point, a starting point has at most one escape
/// time under a given cutoff, so two evaluations on the same inputs return
/// the same count, in whatever order they are made.
pub proof fn lemma_escape_time_unique<Z, S: Fn(Z) -> Z, W: Fn(&Z) -> bool>(
    start: Z,
    step: &S,
    within: &W,
    cutoff: u32,
    first: u32,
    second: u32,
)
    requires
        step_is_function(step),
        test_is_function(within),
        is_escape_time(start, step, within, cutoff, first),
        is_escape_time(start, step, within, cutoff, second),
    ensures
        first == second,
{
    let a = choose|orbit: Seq<Z>| #[trigger]
        shows_escape_time(start, step, within, cutoff, first, orbit);
    let b = choose|orbit: Seq<Z>| #[trigger]
        shows_escape_time(start, step, within, cutoff, second, orbit);
    if first < second {
        lemma_runs_agree(start, step, within, a, b, first + 1);
        assert(stays(within, b, first + 1));
    } else if second < first {
        lemma_runs_agree(start, step, within, a, b, second + 1);
        assert(stays(within, a, second + 1));
    }
}

/// An orbit that cannot leave the escape region runs to the cutoff: if every
/// successor of `start` lies in a set `trap` that `step` never leaves and on
/// which the test never fails, the escape time is `cutoff - 1`. The orbit of
/// the origin of the Mandelbrot set is of this kind, with the origin alone as
/// the trap.
pub proof fn lemma_trapped_orbit_reaches_cutoff<Z, S: Fn(Z) -> Z, W: Fn(&Z) -> bool>(
    start: Z,
    step: &S,
    within: &W,
    cutoff: u32,
    count: u32,
    trap: spec_fn(Z) -> bool,
)
    requires
        is_escape_time(start, step, within, cutoff, count),
        forall|next: Z| #[trigger] step.ensures((start,), next) ==> trap(next),
        forall|z: Z, next: Z| trap(z) && #[trigger] step.ensures((z,), next) ==> trap(next),
        forall|z: Z| trap(z) ==> !#[trigger] within.ensures((&z,), false),
    ensures
        count == cutoff - 1,
{
    let orbit = choose|orbit: Seq<Z>| #[trigger]
        shows_escape_time(start, step, within, cutoff, count, orbit);
    lemma_run_stays_trapped(start, step, within, orbit, trap, count + 1);
}

/// A fixed point inside the escape region never escapes: if `start` is its
/// own only successor and the test never fails on it, the escape time is
/// `cutoff - 1` for every cutoff above zero. The origin of the Mandelbrot set
/// is such a point, `0 * 0 + 0` being `0`.
pub proof fn lemma_fixed_point_never_escapes<Z, S: Fn(Z) -> Z, W: Fn(&Z) -> bool>(
    start: Z,
    step: &S,
    within: &W,
    cutoff: u32,
    count: u32,
)
    requires
        is_escape_time(start, step, within, cutoff, count),
        forall|next: Z| #[trigger] step.ensures((start,), next) ==> next == start,
        !within.ensures((&start,), false),
    ensures
        count == cutoff - 1,
{
    lemma_trapped_orbit_reaches_cutoff(start, step, within, cutoff, count, |z: Z| z == start);
}

/// Every point of a run after the first lies in a trap that the first
/// successor lies in and that `step` never leaves.
proof fn lemma_run_stays_trapped<Z, S: Fn(Z) -> Z, W: Fn(&Z) -> bool>(
    start: Z,
    step: &S,
    within: &W,
    orbit: Seq<Z>,
    trap: spec_fn(Z) -> bool,
    k: int,
)
    requires
        is_run(start, step, within, orbit),
        forall|next: Z| #[trigger] step.ensures((start,), next) ==> trap(next),
        forall|z: Z, next: Z| trap(z) && #[trigger] step.ensures((z,), next) ==> trap(next),
        1 <= k < orbit.len(),
    ensures
        trap(orbit[k]),
    decreases k,
{
    assert(follows(step, orbit, k - 1));
    if k > 1 {
        lemma_run_stays_trapped(start, step, within, orbit, trap, k - 1);
    }
}

/// A point whose first successor fails the test escapes at once: if no
/// successor of `start` can pass `within`, the escape time is `0`. A point of
/// the plane outside the circle of radius two is of this kind, its first
/// successor being the point itself.
pub proof fn lemma_immediate_escape<Z, S: Fn(Z) -> Z, W: Fn(&Z) -> bool>(
    start: Z,
    step: &S,
    within: &W,
    cutoff: u32,
    count: u32,
)
    requires
        is_escape_time(start, step, within, cutoff, count),
        forall|next: Z| #[trigger]
            step.ensures((start,), next) ==> !within.ensures((&next,), true),
    ensures
        count == 0,
{
    let orbit = choose|orbit: Seq<Z>| #[trigger]
        shows_escape_time(start, step, within, cutoff, count, orbit);
    if count > 0 {
        assert(follows(step, orbit, 0));
        assert(stays(within, orbit, 1));
    }
}

} // verus!
