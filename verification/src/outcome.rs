//! What a retrieval hands back, and how it is paired with its source.

use vstd::prelude::*;
use crate::source::{Format, GitHubRepo, Source};

verus! {

/// What happens when a single source cannot be fetched.
#[derive(Clone, Copy, Debug, PartialEq, Eq, Structural)]
pub enum FailurePolicy {
    /// The first fetch failure ends the run with that failure.
    FailFast,
    /// Fetch failures are recorded and the failing sources left out.
    BestEffort,
}

/// The raw result of one retrieval, before it is paired with its source.
/// `T` is a tree listing, `M` a list of msgpack entries, `E` a fetch error.
#[derive(Debug, PartialEq, Eq)]
pub enum Retrieved<T, M, E> {
    Tree(T),
    Entries(M),
    Failed(E),
}

/// A fetch error together with the source that it belongs to.
#[derive(Debug, PartialEq, Eq)]
pub struct FetchFailure<E> {
    pub source: Source,
    pub error: E,
}

/// The result of one retrieval, paired with the source that it was made for.
/// A payload can only sit in the variant of its own format.
#[derive(Debug, PartialEq, Eq)]
pub enum FetchOutcome<T, M, E> {
    Tree(GitHubRepo, T),
    Entries(GitHubRepo, M),
    Failed(Source, E),
}

impl<T, M, E> FetchOutcome<T, M, E> {
    /// The source that this outcome belongs to.
    pub open spec fn source(self) -> Source {
        match self {
            FetchOutcome::Tree(repo, _) => Source::Api(repo),
            FetchOutcome::Entries(repo, _) => Source::MsgPack(repo),
            FetchOutcome::Failed(source, _) => source,
        }
    }

    /// Whether the retrieval failed.
    pub open spec fn failed(self) -> bool {
        self is Failed
    }

    /// Whether the retrieval failed.
    pub fn is_failure(&self) -> (b: bool)
        ensures
            b == self.failed(),
    {
        match self {
            FetchOutcome::Failed(_, _) => true,
            _ => false,
        }
    }

    /// The source that this outcome belongs to.
    pub fn origin(&self) -> (s: Source)
        ensures
            s == self.source(),
    {
        match self {
            FetchOutcome::Tree(repo, _) => Source::Api(*repo),
            FetchOutcome::Entries(repo, _) => Source::MsgPack(*repo),
            FetchOutcome::Failed(source, _) => *source,
        }
    }
}

/// The outcome that a raw result makes for a source, if the result fits the
/// source: an error fits every source, a payload only a source of its format.
pub open spec fn paired<T, M, E>(source: Source, retrieved: Retrieved<T, M, E>) -> Option<
    FetchOutcome<T, M, E>,
> {
    match (source, retrieved) {
        (Source::Api(repo), Retrieved::Tree(listing)) => Some(FetchOutcome::Tree(repo, listing)),
        (Source::MsgPack(repo), Retrieved::Entries(entries)) => Some(
            FetchOutcome::Entries(repo, entries),
        ),
        (_, Retrieved::Failed(error)) => Some(FetchOutcome::Failed(source, error)),
        _ => None,
    }
}

/// Pairs a raw result with the source that it was retrieved for. A payload
/// of the other format is refused.
pub fn pair<T, M, E>(source: Source, retrieved: Retrieved<T, M, E>) -> (outcome: Option<
    FetchOutcome<T, M, E>,
>)
    ensures
        outcome == paired(source, retrieved),
        outcome is Some ==> outcome->0.source() == source,
        outcome is None <==> (retrieved is Tree && source.format() != Format::TreeListing) || (
        retrieved is Entries && source.format() != Format::MsgpackEntries),
{
    match retrieved {
        Retrieved::Failed(error) => Some(FetchOutcome::Failed(source, error)),
        Retrieved::Tree(listing) => match source {
            Source::Api(repo) => Some(FetchOutcome::Tree(repo, listing)),
            Source::MsgPack(_) => None,
        },
        Retrieved::Entries(entries) => match source {
            Source::MsgPack(repo) => Some(FetchOutcome::Entries(repo, entries)),
            Source::Api(_) => None,
        },
    }
}

} // verus!
