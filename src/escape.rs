//! The escape-time iteration shared by the Mandelbrot and the Julia sets.
//!
//! The counter is generic in the arithmetic: `step` computes the next value of
//! the recurrence `z <- z * z + c`, and `inside` tells whether a value still lies
//! within the bailout region (`|z|^2 <= 4`). The counter decides how many steps
//! are taken and what is returned.

use vstd::prelude::*;

verus! {

/// From the `k`-th value of `orbit`, which `inside` found within the bailout
/// region, `step` may lead to the next one.
pub open spec fn is_inside_step<S, Step: Fn(S) -> S, Inside: Fn(S) -> bool>(
    step: Step,
    inside: Inside,
    orbit: Seq<S>,
    k: int,
) -> bool {
    &&& inside.ensures((orbit[k],), true)
    &&& step.ensures((orbit[k],), orbit[k + 1])
}

/// `orbit` begins at `start`; each value after the first is a result that `step`
/// may give on the value before it, and `inside` held of every value but the
/// last.
pub open spec fn is_inside_orbit<S, Step: Fn(S) -> S, Inside: Fn(S) -> bool>(
    step: Step,
    inside: Inside,
    start: S,
    orbit: Seq<S>,
) -> bool {
    &&& orbit.len() >= 1
    &&& orbit[0] == start
    &&& forall|k: int| 0 <= k < orbit.len() - 1 ==> #[trigger] is_inside_step(step, inside, orbit, k)
}

/// `count` is what the escape-time iteration returns from `start`: the orbit
/// was followed for `count` steps without leaving the bailout region, and either
/// the cap was reached or the value after those steps lies outside.
pub open spec fn is_escape_count<S, Step: Fn(S) -> S, Inside: Fn(S) -> bool>(
    step: Step,
    inside: Inside,
    start: S,
    max_iters: u32,
    count: u32,
) -> bool {
    &&& count <= max_iters
    &&& exists|orbit: Seq<S>|
        {
            &&& #[trigger] is_inside_orbit(step, inside, start, orbit)
            &&& orbit.len() == count + 1
            &&& count < max_iters ==> inside.ensures((orbit[count as int],), false)
        }
}

/// Counts the steps of the recurrence from `start` until the value leaves the
/// bailout region or `max_iters` steps have been taken. The count is at most
/// `max_iters`, and equals it exactly when the orbit stayed in the region for
/// all of those steps.
pub fn escape_count<S: Copy, Step: Fn(S) -> S, Inside: Fn(S) -> bool>(
    start: S,
    max_iters: u32,
    step: Step,
    inside: Inside,
) -> (count: u32)
    requires
        forall|s: S| #[trigger] step.requires((s,)),
        forall|s: S| #[trigger] inside.requires((s,)),
    ensures
        is_escape_count(step, inside, start, max_iters, count),
{
    let mut z = start;
    let mut count: u32 = 0;
    let mut escaped = false;
    let ghost mut orbit: Seq<S> = seq![start];
    while count < max_iters && !escaped
        invariant
            forall|s: S| #[trigger] step.requires((s,)),
            forall|s: S| #[trigger] inside.requires((s,)),
            count <= max_iters,
            orbit.len() == count + 1,
            orbit[count as int] == z,
            is_inside_orbit(step, inside, start, orbit),
            escaped ==> inside.ensures((z,), false),
        decreases max_iters - count + (if escaped { 0int } else { 1int }),
    {
        let stays = inside(z);
        if stays {
            let next = step(z);
            proof {
                let prev = orbit;
                orbit = orbit.push(next);
                assert forall|k: int| 0 <= k < orbit.len() - 1 implies #[trigger] is_inside_step(
                    step,
                    inside,
                    orbit,
                    k,
                ) by {
                    if k < prev.len() - 1 {
                        assert(is_inside_step(step, inside, prev, k));
                        assert(orbit[k] == prev[k] && orbit[k + 1] == prev[k + 1]);
                    }
                }
                assert(orbit[0] == prev[0]);
            }
            z = next;
            count = count + 1;
        } else {
            escaped = true;
        }
    }
    count
}

/// Counts the steps of the Mandelbrot recurrence from `origin`, unless the
/// sample point is already known to lie in a region of the set that never
/// escapes (the main cardioid or the period-2 bulb): then the orbit is not
/// followed and the cap is returned at once.
pub fn mandel_iter<S: Copy, Step: Fn(S) -> S, Inside: Fn(S) -> bool>(
    origin: S,
    max_iters: u32,
    in_interior: bool,
    step: Step,
    inside: Inside,
) -> (count: u32)
    requires
        forall|s: S| #[trigger] step.requires((s,)),
        forall|s: S| #[trigger] inside.requires((s,)),
    ensures
        count <= max_iters,
        in_interior ==> count == max_iters,
        !in_interior ==> is_escape_count(step, inside, origin, max_iters, count),
{
    if in_interior {
        max_iters
    } else {
        escape_count(origin, max_iters, step, inside)
    }
}

/// Orbits of two mirrored recurrences from mirrored starts stay mirror images
/// of each other, step by step.
proof fn lemma_mirrored_prefix<S, Step1: Fn(S) -> S, Step2: Fn(S) -> S, Inside: Fn(S) -> bool>(
    step1: Step1,
    step2: Step2,
    inside: Inside,
    mirror: spec_fn(S) -> S,
    start: S,
    orbit1: Seq<S>,
    orbit2: Seq<S>,
    k: int,
)
    requires
        forall|s: S, t: S| #[trigger] step1.ensures((s,), t) ==> step2.ensures((mirror(s),), mirror(t)),
        forall|s: S, a: S, b: S|
            #[trigger] step2.ensures((s,), a) && #[trigger] step2.ensures((s,), b) ==> a == b,
        is_inside_orbit(step1, inside, start, orbit1),
        is_inside_orbit(step2, inside, mirror(start), orbit2),
        0 <= k < orbit1.len(),
        k < orbit2.len(),
    ensures
        orbit2[k] == mirror(orbit1[k]),
    decreases k,
{
    if k > 0 {
        lemma_mirrored_prefix(step1, step2, inside, mirror, start, orbit1, orbit2, k - 1);
        assert(is_inside_step(step1, inside, orbit1, k - 1));
        assert(is_inside_step(step2, inside, orbit2, k - 1));
    }
}

/// Symmetry of escape counts: when a second recurrence is the mirror image of
/// a first one (as the Mandelbrot recurrence at `c` is, under complex
/// conjugation, of the one at the conjugate of `c`), the bailout test does not
/// see the mirroring, and the second recurrence and the test give one result
/// for each value, then the counts from a start and from its mirror image agree.
pub proof fn lemma_mirrored_counts_agree<S, Step1: Fn(S) -> S, Step2: Fn(S) -> S, Inside: Fn(S) -> bool>(
    step1: Step1,
    step2: Step2,
    inside: Inside,
    mirror: spec_fn(S) -> S,
    start: S,
    max_iters: u32,
    count1: u32,
    count2: u32,
)
    requires
        forall|s: S, t: S| #[trigger] step1.ensures((s,), t) ==> step2.ensures((mirror(s),), mirror(t)),
        forall|s: S, b: bool| #[trigger] inside.ensures((s,), b) ==> inside.ensures((mirror(s),), b),
        forall|s: S, a: S, b: S|
            #[trigger] step2.ensures((s,), a) && #[trigger] step2.ensures((s,), b) ==> a == b,
        forall|s: S| !(#[trigger] inside.ensures((s,), true) && inside.ensures((s,), false)),
        is_escape_count(step1, inside, start, max_iters, count1),
        is_escape_count(step2, inside, mirror(start), max_iters, count2),
    ensures
        count1 == count2,
{
    let orbit1 = choose|orbit: Seq<S>|
        {
            &&& #[trigger] is_inside_orbit(step1, inside, start, orbit)
            &&& orbit.len() == count1 + 1
            &&& count1 < max_iters ==> inside.ensures((orbit[count1 as int],), false)
        };
    let orbit2 = choose|orbit: Seq<S>|
        {
            &&& #[trigger] is_inside_orbit(step2, inside, mirror(start), orbit)
            &&& orbit.len() == count2 + 1
            &&& count2 < max_iters ==> inside.ensures((orbit[count2 as int],), false)
        };
    if count1 < count2 {
        let k = count1 as int;
        lemma_mirrored_prefix(step1, step2, inside, mirror, start, orbit1, orbit2, k);
        assert(is_inside_step(step2, inside, orbit2, k));
        assert(inside.ensures((orbit1[k],), false));
    } else if count2 < count1 {
        let k = count2 as int;
        lemma_mirrored_prefix(step1, step2, inside, mirror, start, orbit1, orbit2, k);
        assert(is_inside_step(step1, inside, orbit1, k));
        assert(inside.ensures((orbit1[k],), true));
    }
}

} // verus!
