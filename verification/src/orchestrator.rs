//! The orchestrator: a run moves from fetching to loading to done, or fails.
//!
//! The orchestrator never touches the catalog. It hands out one merge at a
//! time and is told how that merge ended before it hands out the next.

use vstd::prelude::*;
use crate::fetcher::{FetchMode, FetchState, Fetcher};
use crate::loader::{failures_of, first_failure, merges_of, partition, Merge};
use crate::outcome::{FailurePolicy, FetchFailure, FetchOutcome};
use crate::source::Source;

verus! {

/// Why a run failed: a source could not be fetched, or a payload could not
/// be merged. `E` is a fetch error, `L` a load error.
#[derive(Debug, PartialEq, Eq)]
pub enum PipelineError<E, L> {
    Fetch(FetchFailure<E>),
    Load(Source, L),
}

/// The four stages of a run.
#[derive(Clone, Copy, Debug, PartialEq, Eq, Structural)]
pub enum Stage {
    Fetching,
    Loading,
    Done,
    Failed,
}

/// The state of a run, as contracts see it.
pub enum State<T, M, E, L> {
    /// Waiting for the outcomes of the fetch stage.
    Fetching { policy: FailurePolicy },
    /// Merging. `pending` are the merges still to hand out, `active` the
    /// source of a merge that was handed out and has not ended, `merged` the
    /// sources merged so far, `skipped` the fetch failures that were recorded.
    Loading {
        pending: Seq<Merge<T, M>>,
        active: Option<Source>,
        merged: Seq<Source>,
        skipped: Seq<FetchFailure<E>>,
    },
    /// Every merge succeeded.
    Done { merged: Seq<Source>, skipped: Seq<FetchFailure<E>> },
    /// The run was aborted. `merged` are the sources merged before that.
    Failed { merged: Seq<Source>, error: PipelineError<E, L> },
}

impl<T, M, E, L> State<T, M, E, L> {
    /// The stage that this state belongs to.
    pub open spec fn stage(self) -> Stage {
        match self {
            State::Fetching { .. } => Stage::Fetching,
            State::Loading { .. } => Stage::Loading,
            State::Done { .. } => Stage::Done,
            State::Failed { .. } => Stage::Failed,
        }
    }

    /// The sources merged so far, in the order of their merges.
    pub open spec fn merged(self) -> Seq<Source> {
        match self {
            State::Fetching { .. } => Seq::empty(),
            State::Loading { merged, .. } => merged,
            State::Done { merged, .. } => merged,
            State::Failed { merged, .. } => merged,
        }
    }

    /// The state after the fetch stage has delivered `outcomes`. Under
    /// fail-fast a failure among them fails the run with the earliest one and
    /// nothing is merged; otherwise the successful outcomes are queued in
    /// their order and the failures recorded. Outside the fetching stage
    /// nothing changes.
    pub open spec fn after_fetch(self, outcomes: Seq<FetchOutcome<T, M, E>>) -> Self {
        match self {
            State::Fetching { policy } => {
                if policy == FailurePolicy::FailFast && first_failure(outcomes) is Some {
                    State::Failed {
                        merged: Seq::empty(),
                        error: PipelineError::Fetch(first_failure(outcomes)->0),
                    }
                } else {
                    State::Loading {
                        pending: merges_of(outcomes),
                        active: None,
                        merged: Seq::empty(),
                        skipped: failures_of(outcomes),
                    }
                }
            },
            _ => self,
        }
    }

    /// The merge that is handed out next, if there is one: the first pending
    /// merge, while loading and while no merge is under way.
    pub open spec fn next(self) -> Option<Merge<T, M>> {
        match self {
            State::Loading { pending, active, .. } => {
                if active is None && pending.len() > 0 {
                    Some(pending[0])
                } else {
                    None
                }
            },
            _ => None,
        }
    }

    /// The state after asking for the next merge. With a merge to hand out,
    /// that merge becomes the active one; with none left and none under way,
    /// the run is done. Otherwise nothing changes.
    pub open spec fn after_next(self) -> Self {
        match self {
            State::Loading { pending, active, merged, skipped } => {
                if active is Some {
                    self
                } else if pending.len() > 0 {
                    State::Loading {
                        pending: pending.drop_first(),
                        active: Some(pending[0].source()),
                        merged,
                        skipped,
                    }
                } else {
                    State::Done { merged, skipped }
                }
            },
            _ => self,
        }
    }

    /// The state after the active merge has ended. A success adds its source
    /// to the merged ones; a load error fails the run, whatever the policy,
    /// and drops what was pending. Without an active merge nothing changes.
    pub open spec fn after_merge(self, result: Result<(), L>) -> Self {
        match self {
            State::Loading { pending, active: Some(source), merged, skipped } => {
                match result {
                    Ok(_) => State::Loading {
                        pending,
                        active: None,
                        merged: merged.push(source),
                        skipped,
                    },
                    Err(error) => State::Failed {
                        merged,
                        error: PipelineError::Load(source, error),
                    },
                }
            },
            _ => self,
        }
    }

    /// The state that a run reaches when its merges end with `results`, in
    /// that order: each result answers the merge handed out before it. The
    /// run stops early when it is done or has failed, and stays where it is
    /// when a merge is under way and no result is left.
    pub open spec fn settle(self, results: Seq<Result<(), L>>) -> Self
        decreases results.len(),
    {
        let asked = self.after_next();
        if self.next() is Some && results.len() > 0 {
            asked.after_merge(results[0]).settle(results.drop_first())
        } else {
            asked
        }
    }
}

/// What a finished run reports.
#[derive(Debug, PartialEq, Eq)]
pub struct Report<E> {
    /// The sources merged into the catalog, in the order of their merges.
    pub merged: Vec<Source>,
    /// The fetch failures that were recorded and passed over.
    pub skipped: Vec<FetchFailure<E>>,
}

enum Inner<T, M, E, L> {
    Fetching { policy: FailurePolicy },
    Loading {
        pending: Vec<Merge<T, M>>,
        active: Option<Source>,
        merged: Vec<Source>,
        skipped: Vec<FetchFailure<E>>,
    },
    Done { merged: Vec<Source>, skipped: Vec<FetchFailure<E>> },
    Failed { merged: Vec<Source>, error: PipelineError<E, L> },
}

/// One run of the pipeline under a failure policy.
pub struct Pipeline<T, M, E, L> {
    inner: Inner<T, M, E, L>,
}

impl<T, M, E, L> View for Pipeline<T, M, E, L> {
    type V = State<T, M, E, L>;

    closed spec fn view(&self) -> State<T, M, E, L> {
        match self.inner {
            Inner::Fetching { policy } => State::Fetching { policy },
            Inner::Loading { pending, active, merged, skipped } => State::Loading {
                pending: pending@,
                active,
                merged: merged@,
                skipped: skipped@,
            },
            Inner::Done { merged, skipped } => State::Done { merged: merged@, skipped: skipped@ },
            Inner::Failed { merged, error } => State::Failed { merged: merged@, error },
        }
    }
}

impl FailurePolicy {
    /// The fetch mode that goes with a policy: fail-fast fetches in order
    /// and stops at the first failure, best-effort attempts every source.
    pub open spec fn mode(self) -> FetchMode {
        match self {
            FailurePolicy::FailFast => FetchMode::OrderedAbort,
            FailurePolicy::BestEffort => FetchMode::UnorderedExhaustive,
        }
    }

    /// The fetch mode that goes with this policy.
    pub fn fetch_mode(&self) -> (mode: FetchMode)
        ensures
            mode == self.mode(),
    {
        match self {
            FailurePolicy::FailFast => FetchMode::OrderedAbort,
            FailurePolicy::BestEffort => FetchMode::UnorderedExhaustive,
        }
    }
}

impl<T, M, E, L> Pipeline<T, M, E, L> {
    /// A run that waits for its fetch stage.
    pub fn new(policy: FailurePolicy) -> (run: Self)
        ensures
            run@ == (State::<T, M, E, L>::Fetching { policy }),
    {
        Pipeline { inner: Inner::Fetching { policy } }
    }

    /// The stage that the run is in.
    pub fn stage(&self) -> (stage: Stage)
        ensures
            stage == self@.stage(),
    {
        match &self.inner {
            Inner::Fetching { .. } => Stage::Fetching,
            Inner::Loading { .. } => Stage::Loading,
            Inner::Done { .. } => Stage::Done,
            Inner::Failed { .. } => Stage::Failed,
        }
    }

    /// Starts a run over `sources`: the run itself, and the fetch stage
    /// that goes with its policy. A limit of zero is refused.
    pub fn start(policy: FailurePolicy, sources: Vec<Source>, limit: usize) -> (made: Option<
        (Self, Fetcher<T, M, E>),
    >)
        ensures
            match made {
                None => limit == 0,
                Some((run, fetcher)) => {
                    &&& limit != 0
                    &&& run@ == (State::<T, M, E, L>::Fetching { policy })
                    &&& fetcher.wf()
                    &&& fetcher@ == FetchState::<T, M, E>::initial(
                        sources@,
                        limit as nat,
                        policy.mode(),
                    )
                },
            },
    {
        match Fetcher::new(sources, limit, policy.fetch_mode()) {
            None => None,
            Some(fetcher) => Some((Pipeline { inner: Inner::Fetching { policy } }, fetcher)),
        }
    }

    /// Ends the fetch stage. Once the fetcher is finished its outcomes are
    /// taken and the run moves on; before that both are handed back as they
    /// came.
    pub fn hand_over(self, fetcher: Fetcher<T, M, E>) -> (moved: Result<
        Self,
        (Self, Fetcher<T, M, E>),
    >)
        requires
            fetcher.wf(),
        ensures
            match moved {
                Ok(run) => fetcher@.finished() && run@ == self@.after_fetch(fetcher@.outcomes()),
                Err((run, back)) => {
                    &&& !fetcher@.finished()
                    &&& run@ == self@
                    &&& back@ == fetcher@
                    &&& back.wf()
                },
            },
    {
        if fetcher.is_finished() {
            let outcomes = fetcher.finish();
            Ok(self.fetched(outcomes))
        } else {
            Err((self, fetcher))
        }
    }

    /// Takes the outcomes of the fetch stage and moves on to loading, or,
    /// under fail-fast with a failure among them, to failed.
    pub fn fetched(self, outcomes: Vec<FetchOutcome<T, M, E>>) -> (run: Self)
        ensures
            run@ == self@.after_fetch(outcomes@),
    {
        match self.inner {
            Inner::Fetching { policy } => {
                let (pending, mut skipped) = partition(outcomes);
                let fail_fast = match policy {
                    FailurePolicy::FailFast => true,
                    FailurePolicy::BestEffort => false,
                };
                if fail_fast && skipped.len() > 0 {
                    let failure = skipped.swap_remove(0);
                    Pipeline {
                        inner: Inner::Failed {
                            merged: Vec::new(),
                            error: PipelineError::Fetch(failure),
                        },
                    }
                } else {
                    Pipeline {
                        inner: Inner::Loading {
                            pending,
                            active: None,
                            merged: Vec::new(),
                            skipped,
                        },
                    }
                }
            },
            inner => Pipeline { inner },
        }
    }

    /// Hands out the next merge, if there is one, and moves on: to done when
    /// nothing is pending and no merge is under way.
    pub fn next_merge(self) -> (step: (Self, Option<Merge<T, M>>))
        ensures
            step.0@ == self@.after_next(),
            step.1 == self@.next(),
    {
        match self.inner {
            Inner::Loading { mut pending, active, merged, skipped } => {
                if active.is_some() {
                    (Pipeline { inner: Inner::Loading { pending, active, merged, skipped } }, None)
                } else if pending.len() > 0 {
                    let ghost before = pending@;
                    let merge = pending.remove(0);
                    let source = merge.origin();
                    proof {
                        assert(pending@ =~= before.drop_first());
                    }
                    (
                        Pipeline {
                            inner: Inner::Loading { pending, active: Some(source), merged, skipped },
                        },
                        Some(merge),
                    )
                } else {
                    (Pipeline { inner: Inner::Done { merged, skipped } }, None)
                }
            },
            inner => (Pipeline { inner }, None),
        }
    }

    /// Takes the result of the merge that was handed out last.
    pub fn merge_finished(self, result: Result<(), L>) -> (run: Self)
        ensures
            run@ == self@.after_merge(result),
    {
        match self.inner {
            Inner::Loading { pending, active: Some(source), mut merged, skipped } => {
                match result {
                    Ok(_) => {
                        merged.push(source);
                        Pipeline { inner: Inner::Loading { pending, active: None, merged, skipped } }
                    },
                    Err(error) => Pipeline {
                        inner: Inner::Failed { merged, error: PipelineError::Load(source, error) },
                    },
                }
            },
            inner => Pipeline { inner },
        }
    }

    /// Ends the run: the report of a run that is done, the error of one that
    /// failed, and nothing while the run is still under way.
    pub fn finish(self) -> (end: Option<Result<Report<E>, PipelineError<E, L>>>)
        ensures
            match self@ {
                State::Done { merged, skipped } => end is Some && end->0 is Ok
                    && end->0->Ok_0.merged@ == merged && end->0->Ok_0.skipped@ == skipped,
                State::Failed { error, .. } => end == Some(
                    Err::<Report<E>, PipelineError<E, L>>(error),
                ),
                _ => end is None,
            },
    {
        match self.inner {
            Inner::Done { merged, skipped } => Some(Ok(Report { merged, skipped })),
            Inner::Failed { error, .. } => Some(Err(error)),
            _ => None,
        }
    }
}

} // verus!
