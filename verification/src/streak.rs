//! Counting failures in a row: a success starts the count over, and a run of
//! as many failures as the threshold ends it.

use vstd::prelude::*;

verus! {

/// The count after one more outcome; `None` when that failure is the one that
/// reaches the threshold.
pub open spec fn step(count: nat, good: bool, threshold: nat) -> Option<nat> {
    if good {
        Some(0)
    } else if count + 1 >= threshold {
        None
    } else {
        Some(count + 1)
    }
}

/// The count after `outcomes` (`true`: a success), from none on; `None` once
/// the threshold was reached.
pub open spec fn tally(outcomes: Seq<bool>, threshold: nat) -> Option<nat>
    decreases outcomes.len(),
{
    if outcomes.len() == 0 {
        Some(0)
    } else {
        match tally(outcomes.drop_last(), threshold) {
            Some(count) => step(count, outcomes.last(), threshold),
            None => None,
        }
    }
}

/// The `n` outcomes from `from` on are all failures.
pub open spec fn fails_throughout(outcomes: Seq<bool>, from: int, n: nat) -> bool {
    &&& 0 <= from
    &&& from + n <= outcomes.len()
    &&& forall|i: int| from <= i < from + n ==> !#[trigger] outcomes[i]
}

/// While the threshold has not been reached the count is the number of
/// failures since the last success (or since the start).
pub proof fn law_count_is_the_current_run(outcomes: Seq<bool>, threshold: nat)
    requires
        tally(outcomes, threshold) is Some,
    ensures
        ({
            let run = tally(outcomes, threshold)->0;
            let from = outcomes.len() - run;
            &&& fails_throughout(outcomes, from, run)
            &&& from > 0 ==> outcomes[from - 1]
        }),
    decreases outcomes.len(),
{
    if outcomes.len() > 0 {
        let front = outcomes.drop_last();
        law_count_is_the_current_run(front, threshold);
        let run = tally(outcomes, threshold)->0;
        let from = outcomes.len() - run;
        assert forall|i: int| from <= i < from + run implies !#[trigger] outcomes[i] by {
            if i < front.len() {
                assert(!front[i]);
            }
        }
        if run > 0 && from > 0 {
            assert(front[from - 1]);
        }
    }
}

/// The threshold is reached exactly when some run of that many failures comes
/// without a success in between: failures that are not consecutive never add
/// up, however many there are.
pub proof fn law_only_a_full_run_reaches_the_threshold(outcomes: Seq<bool>, threshold: nat)
    requires
        threshold > 0,
    ensures
        tally(outcomes, threshold) is None <==> exists|from: int|
            #[trigger] fails_throughout(outcomes, from, threshold),
    decreases outcomes.len(),
{
    if outcomes.len() > 0 {
        let front = outcomes.drop_last();
        law_only_a_full_run_reaches_the_threshold(front, threshold);
        if tally(front, threshold) is None {
            let from = choose|from: int| #[trigger] fails_throughout(front, from, threshold);
            assert forall|i: int| from <= i < from + threshold implies !#[trigger] outcomes[i] by {
                assert(!front[i]);
            }
            assert(fails_throughout(outcomes, from, threshold));
        } else {
            let run = tally(front, threshold)->0;
            law_count_is_the_current_run(front, threshold);
            lemma_count_is_below(front, threshold);
            let start = front.len() - run;
            if tally(outcomes, threshold) is None {
                assert forall|i: int|
                    start <= i < start + threshold implies !#[trigger] outcomes[i] by {
                    if i < front.len() {
                        assert(!front[i]);
                    }
                }
                assert(fails_throughout(outcomes, start, threshold));
            } else if exists|from: int| #[trigger] fails_throughout(outcomes, from, threshold) {
                let from = choose|from: int| #[trigger] fails_throughout(outcomes, from, threshold);
                if from + threshold <= front.len() {
                    assert forall|i: int|
                        from <= i < from + threshold implies !#[trigger] front[i] by {
                        assert(!outcomes[i]);
                    }
                    assert(fails_throughout(front, from, threshold));
                } else {
                    assert(!outcomes[outcomes.len() - 1]);
                    if start > from {
                        assert(!outcomes[start - 1]);
                        assert(front[start - 1]);
                    }
                }
            }
        }
    }
}

/// A count that has not reached the threshold is below it.
proof fn lemma_count_is_below(outcomes: Seq<bool>, threshold: nat)
    requires
        threshold > 0,
        tally(outcomes, threshold) is Some,
    ensures
        tally(outcomes, threshold)->0 < threshold,
    decreases outcomes.len(),
{
    if outcomes.len() > 0 {
        lemma_count_is_below(outcomes.drop_last(), threshold);
    }
}

/// A success starts the count over. A failure adds one to it, and ends it
/// exactly when that makes the threshold.
pub proof fn law_a_failure_adds_one(count: nat, threshold: nat)
    ensures
        step(count, true, threshold) == Some(0nat),
        count + 1 < threshold ==> step(count, false, threshold) == Some(count + 1),
        count + 1 >= threshold ==> step(count, false, threshold) is None,
{
}

} // verus!
