use vstd::prelude::*;

use crate::error::LbError;

verus! {

/// The successful results of the per-item outcomes, in order.
pub open spec fn somes_of<T>(s: Seq<Option<T>>) -> Seq<T>
    decreases s.len(),
{
    if s.len() == 0 {
        Seq::empty()
    } else {
        match s.last() {
            Some(t) => somes_of(s.drop_last()).push(t),
            None => somes_of(s.drop_last()),
        }
    }
}

/// How many of the per-item outcomes failed.
pub open spec fn failures_of<T>(s: Seq<Option<T>>) -> nat
    decreases s.len(),
{
    if s.len() == 0 {
        0
    } else {
        match s.last() {
            Some(t) => failures_of(s.drop_last()),
            None => failures_of(s.drop_last()) + 1,
        }
    }
}

/// Output of a fan-out over a batch: the successful results and the tally of
/// items whose operation failed. A single item's failure never aborts the
/// batch; it only shows up in this count.
pub struct FanoutResult<T> {
    pub successes: Vec<T>,
    pub failure_count: usize,
}

/// Every item of a batch lands on exactly one side: successes plus failures
/// make up the whole batch.
pub broadcast proof fn lemma_fanout_conservation<T>(s: Seq<Option<T>>)
    ensures
        #[trigger] somes_of(s).len() + failures_of(s) == s.len(),
    decreases s.len(),
{
    if s.len() > 0 {
        lemma_fanout_conservation(s.drop_last());
    }
}

/// Folds the per-item outcomes of a completed batch into the fan-out result:
/// the successes in completion order, and one tallied failure per failed
/// item, so that successes plus failures equal the batch size.
pub fn collect_outcomes<T>(outcomes: Vec<Option<T>>) -> (r: FanoutResult<T>)
    ensures
        r.successes@ == somes_of(outcomes@),
        r.failure_count == failures_of(outcomes@),
        r.successes@.len() + r.failure_count == outcomes@.len(),
{
    let ghost all = outcomes@;
    let n = outcomes.len();
    let mut successes: Vec<T> = Vec::new();
    let mut failure_count: usize = 0;
    let mut rest = outcomes;
    let mut i: usize = 0;
    while i < n
        invariant
            i <= n,
            all.len() == n,
            rest@ == all.skip(i as int),
            successes@ == somes_of(all.take(i as int)),
            failure_count == failures_of(all.take(i as int)),
            failure_count <= i,
        decreases n - i,
    {
        let item = rest.remove(0);
        proof {
            assert(all.take(i + 1).drop_last() =~= all.take(i as int));
            assert(all.take(i + 1).last() == all[i as int]);
            assert(all.skip(i as int).drop_first() =~= all.skip(i + 1));
        }
        match item {
            Some(t) => successes.push(t),
            None => failure_count = failure_count + 1,
        }
        i += 1;
    }
    proof {
        assert(all.take(n as int) =~= all);
        lemma_fanout_conservation(all);
    }
    FanoutResult { successes, failure_count }
}

/// The guard before any network call: an empty batch aborts the run at
/// once, reporting that nothing was found; a non-empty batch passes through
/// with its size.
pub fn nonempty_batch(n_items: usize) -> (r: Result<usize, LbError>)
    ensures
        n_items == 0 <==> r == Result::<usize, LbError>::Err(LbError::EmptyBatch),
        n_items > 0 ==> r == Result::<usize, LbError>::Ok(n_items),
{
    if n_items == 0 {
        Err(LbError::EmptyBatch)
    } else {
        Ok(n_items)
    }
}

} // verus!
