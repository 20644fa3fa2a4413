//! What holds of every run, whatever the sources and whatever comes back.

use vstd::prelude::*;
use crate::fetcher::{ordered_run_delivers_in_order, ordered_run_stops_at_failure, FetchState};
use crate::loader::{failures_of, first_failure, merges_of, route, Merge};
use crate::orchestrator::{PipelineError, State};
use crate::outcome::{FailurePolicy, FetchFailure, FetchOutcome};
use crate::source::Source;

verus! {

/// The sources of a sequence of merges, in the same order.
pub open spec fn sources_of<T, M>(merges: Seq<Merge<T, M>>) -> Seq<Source> {
    Seq::new(merges.len(), |i: int| merges[i].source())
}

/// The sources of a sequence of outcomes, in the same order.
pub open spec fn origins_of<T, M, E>(outcomes: Seq<FetchOutcome<T, M, E>>) -> Seq<Source> {
    Seq::new(outcomes.len(), |i: int| outcomes[i].source())
}

/// Whether no outcome of the sequence is a failure.
pub open spec fn all_fetched<T, M, E>(outcomes: Seq<FetchOutcome<T, M, E>>) -> bool {
    forall|i: int| 0 <= i < outcomes.len() ==> !(#[trigger] outcomes[i]).failed()
}

/// Whether the first `count` results are successes.
pub open spec fn all_merged<L>(results: Seq<Result<(), L>>, count: int) -> bool {
    &&& count <= results.len()
    &&& forall|i: int| 0 <= i < count ==> (#[trigger] results[i]) is Ok
}

/// The merges and the failures of two sequences of outcomes put together are
/// those of the first followed by those of the second.
pub proof fn lemma_split<T, M, E>(
    front: Seq<FetchOutcome<T, M, E>>,
    back: Seq<FetchOutcome<T, M, E>>,
)
    ensures
        merges_of(front + back) == merges_of(front) + merges_of(back),
        failures_of(front + back) == failures_of(front) + failures_of(back),
    decreases back.len(),
{
    if back.len() == 0 {
        assert(front + back =~= front);
        assert(merges_of(front) + merges_of(back) =~= merges_of(front));
        assert(failures_of(front) + failures_of(back) =~= failures_of(front));
    } else {
        assert((front + back).drop_last() =~= front + back.drop_last());
        assert((front + back).last() == back.last());
        lemma_split(front, back.drop_last());
        match route(back.last()) {
            Ok(merge) => {
                assert((merges_of(front) + merges_of(back.drop_last())).push(merge) =~= merges_of(
                    front,
                ) + merges_of(back.drop_last()).push(merge));
            },
            Err(failure) => {
                assert((failures_of(front) + failures_of(back.drop_last())).push(failure)
                    =~= failures_of(front) + failures_of(back.drop_last()).push(failure));
            },
        }
    }
}

/// Outcomes without a failure call for one merge each, in their order, and
/// carry no failure.
pub proof fn lemma_all_fetched<T, M, E>(outcomes: Seq<FetchOutcome<T, M, E>>)
    requires
        all_fetched(outcomes),
    ensures
        failures_of(outcomes) == Seq::<FetchFailure<E>>::empty(),
        first_failure(outcomes) is None,
        merges_of(outcomes).len() == outcomes.len(),
        forall|i: int|
            0 <= i < outcomes.len() ==> route(outcomes[i]) == Ok::<
                Merge<T, M>,
                FetchFailure<E>,
            >(#[trigger] merges_of(outcomes)[i]),
        sources_of(merges_of(outcomes)) == origins_of(outcomes),
    decreases outcomes.len(),
{
    if outcomes.len() > 0 {
        let front = outcomes.drop_last();
        assert(all_fetched(front)) by {
            assert forall|i: int| 0 <= i < front.len() implies !(#[trigger] front[i]).failed() by {
                assert(front[i] == outcomes[i]);
            }
        }
        lemma_all_fetched(front);
        assert(!outcomes.last().failed());
        assert(route(outcomes.last()) is Ok);
        assert forall|i: int| 0 <= i < outcomes.len() implies route(outcomes[i]) == Ok::<
            Merge<T, M>,
            FetchFailure<E>,
        >(#[trigger] merges_of(outcomes)[i]) by {
            if i < front.len() {
                assert(front[i] == outcomes[i]);
                assert(merges_of(outcomes)[i] == merges_of(front)[i]);
            }
        }
    }
    assert(sources_of(merges_of(outcomes)) =~= origins_of(outcomes)) by {
        assert forall|i: int| 0 <= i < outcomes.len() implies merges_of(outcomes)[i].source()
            == outcomes[i].source() by {
            assert(route(outcomes[i]) == Ok::<Merge<T, M>, FetchFailure<E>>(
                merges_of(outcomes)[i],
            ));
        }
    }
}

/// A loading run whose merges all succeed ends done, with every pending
/// source merged after those merged before.
pub proof fn lemma_settle_done<T, M, E, L>(
    pending: Seq<Merge<T, M>>,
    merged: Seq<Source>,
    skipped: Seq<FetchFailure<E>>,
    results: Seq<Result<(), L>>,
)
    requires
        all_merged(results, pending.len() as int),
    ensures
        (State::<T, M, E, L>::Loading { pending, active: None, merged, skipped }).settle(results)
            == (State::<T, M, E, L>::Done { merged: merged + sources_of(pending), skipped }),
    decreases results.len(),
{
    let start = State::<T, M, E, L>::Loading { pending, active: None, merged, skipped };
    if pending.len() == 0 {
        assert(merged + sources_of(pending) =~= merged);
    } else {
        assert(results[0] is Ok);
        let rest = results.drop_first();
        assert(all_merged(rest, pending.len() - 1)) by {
            assert forall|i: int| 0 <= i < pending.len() - 1 implies (#[trigger] rest[i]) is Ok by {
                assert(rest[i] == results[i + 1]);
            }
        }
        let grown = merged.push(pending[0].source());
        lemma_settle_done::<T, M, E, L>(pending.drop_first(), grown, skipped, rest);
        assert(start.after_next().after_merge(results[0]) == (State::<T, M, E, L>::Loading {
            pending: pending.drop_first(),
            active: None,
            merged: grown,
            skipped,
        }));
        assert(grown + sources_of(pending.drop_first()) =~= merged + sources_of(pending));
    }
}

/// A loading run whose merge number `at` is the first to fail ends failed
/// with that load error, and with the sources before it merged.
pub proof fn lemma_settle_failed<T, M, E, L>(
    pending: Seq<Merge<T, M>>,
    merged: Seq<Source>,
    skipped: Seq<FetchFailure<E>>,
    results: Seq<Result<(), L>>,
    at: int,
)
    requires
        0 <= at < pending.len(),
        at < results.len(),
        all_merged(results, at),
        results[at] is Err,
    ensures
        (State::<T, M, E, L>::Loading { pending, active: None, merged, skipped }).settle(results)
            == (State::<T, M, E, L>::Failed {
            merged: merged + sources_of(pending.take(at)),
            error: PipelineError::Load(pending[at].source(), results[at]->Err_0),
        }),
    decreases results.len(),
{
    let start = State::<T, M, E, L>::Loading { pending, active: None, merged, skipped };
    if at == 0 {
        assert(merged + sources_of(pending.take(0)) =~= merged);
        let failed = start.after_next().after_merge(results[0]);
        assert(failed == (State::<T, M, E, L>::Failed {
            merged,
            error: PipelineError::Load(pending[0].source(), results[0]->Err_0),
        }));
        assert(failed.settle(results.drop_first()) == failed);
    } else {
        assert(results[0] is Ok);
        let rest = results.drop_first();
        assert(all_merged(rest, at - 1)) by {
            assert forall|i: int| 0 <= i < at - 1 implies (#[trigger] rest[i]) is Ok by {
                assert(rest[i] == results[i + 1]);
            }
        }
        assert(rest[at - 1] == results[at]);
        let grown = merged.push(pending[0].source());
        lemma_settle_failed::<T, M, E, L>(pending.drop_first(), grown, skipped, rest, at - 1);
        assert(start.after_next().after_merge(results[0]) == (State::<T, M, E, L>::Loading {
            pending: pending.drop_first(),
            active: None,
            merged: grown,
            skipped,
        }));
        assert(grown + sources_of(pending.drop_first().take(at - 1)) =~= merged + sources_of(
            pending.take(at),
        ));
    }
}

/// When every source is fetched and every merge succeeds, the run ends done
/// with all sources merged, in the order of their outcomes, under either
/// policy.
pub proof fn all_sources_merged<T, M, E, L>(
    policy: FailurePolicy,
    outcomes: Seq<FetchOutcome<T, M, E>>,
    results: Seq<Result<(), L>>,
)
    requires
        all_fetched(outcomes),
        all_merged(results, outcomes.len() as int),
    ensures
        (State::<T, M, E, L>::Fetching { policy }).after_fetch(outcomes).settle(results) == (State::<
            T,
            M,
            E,
            L,
        >::Done { merged: origins_of(outcomes), skipped: Seq::empty() }),
{
    lemma_all_fetched(outcomes);
    lemma_settle_done::<T, M, E, L>(merges_of(outcomes), Seq::empty(), Seq::empty(), results);
    assert(Seq::<Source>::empty() + origins_of(outcomes) =~= origins_of(outcomes));
}

/// Under fail-fast, when the outcome at `at` is the earliest failure, the
/// run fails with that very failure and nothing is merged, whatever the
/// merges would have returned.
pub proof fn fail_fast_returns_failure<T, M, E, L>(
    outcomes: Seq<FetchOutcome<T, M, E>>,
    at: int,
    results: Seq<Result<(), L>>,
)
    requires
        0 <= at < outcomes.len(),
        outcomes[at].failed(),
        all_fetched(outcomes.take(at)),
    ensures
        (State::<T, M, E, L>::Fetching { policy: FailurePolicy::FailFast }).after_fetch(
            outcomes,
        ).settle(results) == (State::<T, M, E, L>::Failed {
            merged: Seq::empty(),
            error: PipelineError::Fetch(route(outcomes[at])->Err_0),
        }),
{
    let front = outcomes.take(at);
    let back = outcomes.skip(at);
    assert(outcomes =~= front + back);
    lemma_split(front, back);
    lemma_all_fetched(front);
    let one = seq![outcomes[at]];
    assert(back =~= one + back.skip(1));
    lemma_split(one, back.skip(1));
    assert(one.drop_last() =~= Seq::<FetchOutcome<T, M, E>>::empty());
    assert(failures_of(one.drop_last()).len() == 0);
    assert(failures_of(one) =~= seq![route(outcomes[at])->Err_0]);
    assert(failures_of(outcomes)[0] == route(outcomes[at])->Err_0);
}

/// Under best-effort, when the outcome at `at` is the only failure and
/// every merge succeeds, the run ends done with all other sources merged
/// and exactly that one failure recorded.
pub proof fn best_effort_skips_failure<T, M, E, L>(
    outcomes: Seq<FetchOutcome<T, M, E>>,
    at: int,
    results: Seq<Result<(), L>>,
)
    requires
        0 <= at < outcomes.len(),
        outcomes[at].failed(),
        all_fetched(outcomes.remove(at)),
        all_merged(results, outcomes.len() - 1),
    ensures
        (State::<T, M, E, L>::Fetching { policy: FailurePolicy::BestEffort }).after_fetch(
            outcomes,
        ).settle(results) == (State::<T, M, E, L>::Done {
            merged: origins_of(outcomes.remove(at)),
            skipped: seq![route(outcomes[at])->Err_0],
        }),
{
    let front = outcomes.take(at);
    let one = seq![outcomes[at]];
    let back = outcomes.skip(at + 1);
    let others = outcomes.remove(at);
    assert(outcomes =~= (front + one) + back);
    assert(others =~= front + back);
    lemma_split(front + one, back);
    lemma_split(front, one);
    lemma_split(front, back);
    lemma_all_fetched(others);
    assert(one.drop_last() =~= Seq::<FetchOutcome<T, M, E>>::empty());
    assert(failures_of(one.drop_last()).len() == 0);
    assert(merges_of(one.drop_last()).len() == 0);
    assert(failures_of(one) =~= seq![route(outcomes[at])->Err_0]);
    assert(merges_of(one) =~= Seq::<Merge<T, M>>::empty());
    assert(merges_of(outcomes) =~= merges_of(others));
    assert(failures_of(outcomes) =~= seq![route(outcomes[at])->Err_0]);
    lemma_settle_done::<T, M, E, L>(
        merges_of(others),
        Seq::empty(),
        failures_of(outcomes),
        results,
    );
    assert(Seq::<Source>::empty() + origins_of(others) =~= origins_of(others));
}

/// A load error aborts the run under either policy: when loading begins and
/// merge number `at` is the first to fail, the run ends failed with that
/// load error and the source it came from, with only the sources before it
/// merged. This holds also when every fetch succeeded.
pub proof fn load_error_aborts<T, M, E, L>(
    policy: FailurePolicy,
    outcomes: Seq<FetchOutcome<T, M, E>>,
    results: Seq<Result<(), L>>,
    at: int,
)
    requires
        policy == FailurePolicy::BestEffort || first_failure(outcomes) is None,
        0 <= at < merges_of(outcomes).len(),
        at < results.len(),
        all_merged(results, at),
        results[at] is Err,
    ensures
        (State::<T, M, E, L>::Fetching { policy }).after_fetch(outcomes).settle(results) == (State::<
            T,
            M,
            E,
            L,
        >::Failed {
            merged: sources_of(merges_of(outcomes).take(at)),
            error: PipelineError::Load(merges_of(outcomes)[at].source(), results[at]->Err_0),
        }),
{
    lemma_settle_failed::<T, M, E, L>(
        merges_of(outcomes),
        Seq::empty(),
        failures_of(outcomes),
        results,
        at,
    );
    assert(Seq::<Source>::empty() + sources_of(merges_of(outcomes).take(at)) =~= sources_of(
        merges_of(outcomes).take(at),
    ));
}

/// A fetch stage that ended with every source fetched, followed by merges
/// that all succeed, ends the run done with every source of the registry
/// merged exactly once, whatever the limit on outstanding retrievals and
/// under either policy. Under fail-fast the merges follow the order of the
/// registry.
pub proof fn finished_fetch_merges_all<T, M, E, L>(
    policy: FailurePolicy,
    fetch: FetchState<T, M, E>,
    results: Seq<Result<(), L>>,
)
    requires
        fetch.valid(),
        fetch.mode == policy.mode(),
        fetch.finished(),
        all_fetched(fetch.outcomes()),
        all_merged(results, fetch.sources.len() as int),
    ensures
        (State::<T, M, E, L>::Fetching { policy }).after_fetch(fetch.outcomes()).settle(results)
            == (State::<T, M, E, L>::Done {
            merged: origins_of(fetch.outcomes()),
            skipped: Seq::empty(),
        }),
        origins_of(fetch.outcomes()).len() == fetch.sources.len(),
        forall|k: int|
            0 <= k < fetch.sources.len() ==> {
                &&& (#[trigger] fetch.delivered[k]).0 < fetch.sources.len()
                &&& origins_of(fetch.outcomes())[k] == fetch.sources[fetch.delivered[k].0 as int]
            },
        forall|j: int, k: int|
            0 <= j < k < fetch.sources.len() ==> fetch.delivered[j].0 != fetch.delivered[k].0,
        policy == FailurePolicy::FailFast ==> origins_of(fetch.outcomes()) == fetch.sources,
{
    if fetch.aborted {
        ordered_run_stops_at_failure(fetch);
        assert(!fetch.outcomes()[fetch.outcomes().len() - 1].failed());
    }
    all_sources_merged::<T, M, E, L>(policy, fetch.outcomes(), results);
    if policy == FailurePolicy::FailFast {
        ordered_run_delivers_in_order(fetch);
        assert(origins_of(fetch.outcomes()) =~= fetch.sources);
    }
}

/// A fetch stage that a failure ended fails a fail-fast run with that very
/// failure, paired with the source that could not be fetched, and nothing
/// is merged.
pub proof fn aborted_fetch_fails_the_run<T, M, E, L>(
    fetch: FetchState<T, M, E>,
    results: Seq<Result<(), L>>,
)
    requires
        fetch.valid(),
        fetch.aborted,
    ensures
        fetch.outcomes().len() > 0,
        fetch.outcomes().last().failed(),
        (State::<T, M, E, L>::Fetching { policy: FailurePolicy::FailFast }).after_fetch(
            fetch.outcomes(),
        ).settle(results) == (State::<T, M, E, L>::Failed {
            merged: Seq::empty(),
            error: PipelineError::Fetch(route(fetch.outcomes().last())->Err_0),
        }),
        route(fetch.outcomes().last())->Err_0.source == fetch.sources[fetch.delivered.last().0 as int],
{
    ordered_run_stops_at_failure(fetch);
    let outcomes = fetch.outcomes();
    let at = outcomes.len() - 1;
    assert(all_fetched(outcomes.take(at))) by {
        assert forall|i: int| 0 <= i < at implies !(#[trigger] outcomes.take(at)[i]).failed() by {
            assert(outcomes.take(at)[i] == outcomes[i]);
        }
    }
    fail_fast_returns_failure::<T, M, E, L>(outcomes, at, results);
    assert(outcomes.last() == fetch.delivered.last().1);
}

} // verus!
