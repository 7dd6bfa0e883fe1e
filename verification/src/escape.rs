//! Control of the escape-time iteration.
//!
//! The loop itself alternates floating-point work (one iteration step and
//! the radius test) with a decision: count the round and say whether the
//! loop goes on.  The floating-point work is the driver's; the decision is
//! verified here, together with a model of the whole loop showing that the
//! count it yields never leaves the iteration budget.
use vstd::prelude::*;

verus! {

/// Iteration budget of the escape-time loop.  A count equal to the budget
/// signals "did not escape", i.e. the point is presumed inside the set.
pub const MAX_ITERATIONS: u32 = 900;

/// The count the escape-time loop yields when `iterations` rounds are
/// already taken and round `t` trips the radius test exactly when
/// `escapes[t]` holds.
pub open spec fn count_from(escapes: Seq<bool>, iterations: int) -> int
    recommends
        0 <= iterations <= MAX_ITERATIONS,
    decreases MAX_ITERATIONS - iterations,
{
    if iterations < 0 || iterations >= MAX_ITERATIONS {
        iterations
    } else if escapes[iterations] {
        iterations + 1
    } else {
        count_from(escapes, iterations + 1)
    }
}

/// The count of a full run of the loop: one more than the index of the
/// first round that escapes, or the whole budget when none does.
pub open spec fn solver_count(escapes: Seq<bool>) -> int {
    count_from(escapes, 0)
}

proof fn lemma_count_from_bounded(escapes: Seq<bool>, iterations: int)
    requires
        0 <= iterations <= MAX_ITERATIONS,
    ensures
        iterations <= count_from(escapes, iterations) <= MAX_ITERATIONS,
    decreases MAX_ITERATIONS - iterations,
{
    if iterations < MAX_ITERATIONS && !escapes[iterations] {
        lemma_count_from_bounded(escapes, iterations + 1);
    }
}

/// Solver boundedness: whatever the radius test reports round by round,
/// the count of a full run lies in `[0, MAX_ITERATIONS]` — and, the loop
/// always taking at least one step, never below 1.
pub proof fn lemma_escape_count_bounded(escapes: Seq<bool>)
    ensures
        1 <= solver_count(escapes) <= MAX_ITERATIONS,
{
    lemma_count_from_bounded(escapes, 0);
    if !escapes[0] {
        lemma_count_from_bounded(escapes, 1);
    }
}

/// One round of the loop's control: the driver has applied the iteration
/// step (so the count rises by one) and reports whether the radius test
/// escaped; the second component says whether the loop goes on.
pub fn escape_step(iterations: u32, escaped: bool) -> (r: (u32, bool))
    requires
        iterations < MAX_ITERATIONS,
    ensures
        r.0 == iterations + 1,
        r.0 <= MAX_ITERATIONS,
        r.1 == (!escaped && iterations + 1 < MAX_ITERATIONS),
{
    let next = iterations + 1;
    (next, !escaped && next < MAX_ITERATIONS)
}

} // verus!
