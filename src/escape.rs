use vstd::prelude::*;

verus! {

/// The escape time of an orbit, read from its escape tests: `exceeded[i]`
/// tells whether the orbit's magnitude is above the threshold after `i`
/// steps. Steps `0` to `max_iters` are tested in order; the first that exceeds
/// is the result, and `max_iters` is the result when none does.
pub open spec fn escape_time(exceeded: Seq<bool>, max_iters: nat) -> nat {
    escape_time_from(exceeded, 0, max_iters)
}

/// The escape time when the tests before step `i` did not exceed.
pub open spec fn escape_time_from(exceeded: Seq<bool>, i: nat, max_iters: nat) -> nat
    decreases max_iters - i,
{
    if i >= max_iters {
        max_iters
    } else if exceeded[i as int] {
        i
    } else {
        escape_time_from(exceeded, i + 1, max_iters)
    }
}

/// What the evaluator decides after the escape test of step `step`: `Some(n)`
/// when the count is final and is `n`, `None` when the orbit takes one more
/// step.
pub open spec fn step_outcome(step: nat, max_iters: nat, exceeded: bool) -> Option<nat> {
    if exceeded {
        Some(step)
    } else if step >= max_iters {
        Some(max_iters)
    } else {
        None
    }
}

/// The decision state of the escape-time loop: which step's escape test comes
/// next and the iteration cap. The orbit itself (`z <- z^2 + c` and the
/// magnitude test) is computed by the caller, which reports each test here
/// and stops at the first count that comes back.
pub struct EscapeCounter {
    step: usize,
    max_iters: usize,
}

impl EscapeCounter {
    pub closed spec fn spec_step(&self) -> nat {
        self.step as nat
    }

    pub closed spec fn spec_max_iters(&self) -> nat {
        self.max_iters as nat
    }

    /// The counter is at or before the cap.
    pub open spec fn wf(&self) -> bool {
        self.spec_step() <= self.spec_max_iters()
    }

    /// A counter before the test of step 0.
    pub fn new(max_iters: usize) -> (r: EscapeCounter)
        ensures
            r.spec_step() == 0,
            r.spec_max_iters() == max_iters,
            r.wf(),
    {
        EscapeCounter { step: 0, max_iters }
    }

    /// The step whose escape test comes next.
    pub fn step(&self) -> (r: usize)
        ensures
            r == self.spec_step(),
    {
        self.step
    }

    pub fn max_iters(&self) -> (r: usize)
        ensures
            r == self.spec_max_iters(),
    {
        self.max_iters
    }

    /// Takes the escape test of the current step. Returns the final count when
    /// the orbit exceeded now or the cap is reached; otherwise moves on to the
    /// next step and returns `None`.
    pub fn observe(&mut self, exceeded: bool) -> (r: Option<usize>)
        requires
            old(self).wf(),
        ensures
            r == (match step_outcome(old(self).spec_step(), old(self).spec_max_iters(), exceeded) {
                Some(n) => Some(n as usize),
                None => None,
            }),
            final(self).spec_max_iters() == old(self).spec_max_iters(),
            r is None ==> final(self).spec_step() == old(self).spec_step() + 1,
            r is Some ==> final(self).spec_step() == old(self).spec_step(),
            final(self).wf(),
    {
        if exceeded {
            Some(self.step)
        } else if self.step >= self.max_iters {
            Some(self.max_iters)
        } else {
            self.step = self.step + 1;
            None
        }
    }
}

/// Each decision of the counter agrees with `escape_time`: reporting the
/// escape tests of one orbit in order of the steps, the count that comes back
/// first is the escape time of those tests, and a step that hands over leaves
/// the escape time to the steps after it.
pub proof fn lemma_outcome_agrees(exceeded: Seq<bool>, i: nat, max_iters: nat)
    requires
        i <= max_iters,
        exceeded.len() > max_iters,
    ensures
        step_outcome(i, max_iters, exceeded[i as int]) matches Some(n) ==> n == escape_time_from(
            exceeded,
            i,
            max_iters,
        ),
        step_outcome(i, max_iters, exceeded[i as int]) is None ==> escape_time_from(
            exceeded,
            i,
            max_iters,
        ) == escape_time_from(exceeded, i + 1, max_iters),
{
}

/// The escape time after the tests before step `i` passed is the first step
/// from `i` on whose test exceeds, or the cap.
proof fn lemma_escape_time_from_is_first(exceeded: Seq<bool>, i: nat, max_iters: nat)
    requires
        i <= max_iters,
        exceeded.len() > max_iters,
    ensures
        i <= escape_time_from(exceeded, i, max_iters) <= max_iters,
        forall|j: int| i <= j < escape_time_from(exceeded, i, max_iters) ==> !exceeded[j],
        escape_time_from(exceeded, i, max_iters) < max_iters ==> exceeded[escape_time_from(
            exceeded,
            i,
            max_iters,
        ) as int],
        forall|other: Seq<bool>|
            other.len() > max_iters && (forall|j: int|
                i <= j <= escape_time_from(exceeded, i, max_iters) ==> other[j] == exceeded[j])
                ==> #[trigger] escape_time_from(other, i, max_iters) == escape_time_from(
                exceeded,
                i,
                max_iters,
            ),
    decreases max_iters - i,
{
    if i < max_iters && !exceeded[i as int] {
        lemma_escape_time_from_is_first(exceeded, i + 1, max_iters);
        assert forall|other: Seq<bool>|
            other.len() > max_iters && (forall|j: int|
                i <= j <= escape_time_from(exceeded, i, max_iters) ==> other[j] == exceeded[j])
                implies #[trigger] escape_time_from(other, i, max_iters) == escape_time_from(
            exceeded,
            i,
            max_iters,
        ) by {
            assert(other[i as int] == exceeded[i as int]);
            assert(escape_time_from(other, i + 1, max_iters) == escape_time_from(
                exceeded,
                i + 1,
                max_iters,
            ));
        }
    }
}

/// The escape time is the first step whose test exceeds (or the cap when no
/// step before the cap exceeds), and the evaluation stops there: the tests of
/// later steps do not matter, so any orbit that agrees up to that step has the
/// same escape time.
pub proof fn lemma_stops_at_first_escape(exceeded: Seq<bool>, max_iters: nat)
    requires
        exceeded.len() > max_iters,
    ensures
        escape_time(exceeded, max_iters) <= max_iters,
        forall|j: int| 0 <= j < escape_time(exceeded, max_iters) ==> !exceeded[j],
        escape_time(exceeded, max_iters) < max_iters ==> exceeded[escape_time(
            exceeded,
            max_iters,
        ) as int],
        forall|other: Seq<bool>|
            other.len() > max_iters && (forall|j: int|
                0 <= j <= escape_time(exceeded, max_iters) ==> other[j] == exceeded[j])
                ==> #[trigger] escape_time(other, max_iters) == escape_time(exceeded, max_iters),
{
    lemma_escape_time_from_is_first(exceeded, 0, max_iters);
}

/// An orbit that never exceeds the threshold up to the cap, such as the orbit
/// of `0` under `z <- z^2 + 0`, has the cap as its escape time.
pub proof fn lemma_bounded_orbit_reaches_cap(exceeded: Seq<bool>, max_iters: nat)
    requires
        exceeded.len() > max_iters,
        forall|j: int| 0 <= j <= max_iters ==> !exceeded[j],
    ensures
        escape_time(exceeded, max_iters) == max_iters,
{
    lemma_escape_time_from_is_first(exceeded, 0, max_iters);
}

} // verus!
