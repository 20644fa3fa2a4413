//! Format dispatch: which merge a fetched outcome calls for.

use vstd::prelude::*;
use crate::outcome::{FetchFailure, FetchOutcome};
use crate::source::{Format, GitHubRepo, Source};

verus! {

/// One merge into the catalog. The variant is the merge path: a tree listing
/// goes through the tree merge, msgpack entries through the entry merge.
#[derive(Debug, PartialEq, Eq)]
pub enum Merge<T, M> {
    Tree(GitHubRepo, T),
    Entries(GitHubRepo, M),
}

impl<T, M> Merge<T, M> {
    /// The source whose payload this merge carries.
    pub open spec fn source(self) -> Source {
        match self {
            Merge::Tree(repo, _) => Source::Api(repo),
            Merge::Entries(repo, _) => Source::MsgPack(repo),
        }
    }

    /// The source whose payload this merge carries.
    pub fn origin(&self) -> (s: Source)
        ensures
            s == self.source(),
            s.format() == (if *self is Tree {
                Format::TreeListing
            } else {
                Format::MsgpackEntries
            }),
    {
        match self {
            Merge::Tree(repo, _) => Source::Api(*repo),
            Merge::Entries(repo, _) => Source::MsgPack(*repo),
        }
    }
}

/// The merge that an outcome calls for, or the failure that it carries.
pub open spec fn route<T, M, E>(outcome: FetchOutcome<T, M, E>) -> Result<
    Merge<T, M>,
    FetchFailure<E>,
> {
    match outcome {
        FetchOutcome::Tree(repo, listing) => Ok(Merge::Tree(repo, listing)),
        FetchOutcome::Entries(repo, entries) => Ok(Merge::Entries(repo, entries)),
        FetchOutcome::Failed(source, error) => Err(FetchFailure { source, error }),
    }
}

/// The merges that a sequence of outcomes calls for, in the order of the
/// outcomes, failures left out.
pub open spec fn merges_of<T, M, E>(outcomes: Seq<FetchOutcome<T, M, E>>) -> Seq<Merge<T, M>>
    decreases outcomes.len(),
{
    if outcomes.len() == 0 {
        Seq::empty()
    } else {
        let before = merges_of(outcomes.drop_last());
        match route(outcomes.last()) {
            Ok(merge) => before.push(merge),
            Err(_) => before,
        }
    }
}

/// The failures among a sequence of outcomes, in the order of the outcomes.
pub open spec fn failures_of<T, M, E>(outcomes: Seq<FetchOutcome<T, M, E>>) -> Seq<
    FetchFailure<E>,
>
    decreases outcomes.len(),
{
    if outcomes.len() == 0 {
        Seq::empty()
    } else {
        let before = failures_of(outcomes.drop_last());
        match route(outcomes.last()) {
            Ok(_) => before,
            Err(failure) => before.push(failure),
        }
    }
}

/// The earliest failure in a sequence of outcomes.
pub open spec fn first_failure<T, M, E>(outcomes: Seq<FetchOutcome<T, M, E>>) -> Option<
    FetchFailure<E>,
> {
    if failures_of(outcomes).len() == 0 {
        None
    } else {
        Some(failures_of(outcomes)[0])
    }
}

/// Dispatches on the outcome's variant: a tree listing gives a tree merge,
/// msgpack entries an entry merge, a failed retrieval its failure.
pub fn dispatch<T, M, E>(outcome: FetchOutcome<T, M, E>) -> (routed: Result<
    Merge<T, M>,
    FetchFailure<E>,
>)
    ensures
        routed == route(outcome),
        routed is Ok <==> !outcome.failed(),
        routed is Ok ==> routed->Ok_0.source() == outcome.source(),
        routed is Ok ==> (routed->Ok_0 is Tree <==> outcome is Tree),
        routed is Err ==> routed->Err_0.source == outcome.source(),
{
    match outcome {
        FetchOutcome::Tree(repo, listing) => Ok(Merge::Tree(repo, listing)),
        FetchOutcome::Entries(repo, entries) => Ok(Merge::Entries(repo, entries)),
        FetchOutcome::Failed(source, error) => Err(FetchFailure { source, error }),
    }
}

/// Splits a sequence of outcomes into the merges that it calls for and the
/// failures that it carries, each in the order of the outcomes.
pub fn partition<T, M, E>(outcomes: Vec<FetchOutcome<T, M, E>>) -> (parts: (
    Vec<Merge<T, M>>,
    Vec<FetchFailure<E>>,
))
    ensures
        parts.0@ == merges_of(outcomes@),
        parts.1@ == failures_of(outcomes@),
{
    let ghost all = outcomes@;
    let mut rest = outcomes;
    let mut merges: Vec<Merge<T, M>> = Vec::new();
    let mut failures: Vec<FetchFailure<E>> = Vec::new();
    let ghost mut done: int = 0;
    while rest.len() > 0
        invariant
            0 <= done <= all.len(),
            rest@ == all.subrange(done, all.len() as int),
            merges@ == merges_of(all.subrange(0, done)),
            failures@ == failures_of(all.subrange(0, done)),
        decreases rest.len(),
    {
        let outcome = rest.remove(0);
        proof {
            assert(outcome == all[done]);
            assert(all.subrange(0, done + 1).drop_last() =~= all.subrange(0, done));
            assert(all.subrange(0, done + 1).last() == all[done]);
            assert(rest@ =~= all.subrange(done + 1, all.len() as int));
            done = done + 1;
        }
        match dispatch(outcome) {
            Ok(merge) => merges.push(merge),
            Err(failure) => failures.push(failure),
        }
    }
    proof {
        assert(all.subrange(0, done) =~= all);
    }
    (merges, failures)
}

} // verus!
