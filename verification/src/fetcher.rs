//! The fetch stage: which retrieval starts when, and what is delivered.
//!
//! The fetcher performs no retrieval. It says which source to retrieve next,
//! never lets more than its limit be outstanding, and takes each result back
//! to pair it with its source.

use vstd::prelude::*;
use crate::outcome::{pair, paired, FetchOutcome, Retrieved};
use crate::source::Source;

verus! {

/// How the fetch stage delivers its outcomes.
#[derive(Clone, Copy, Debug, PartialEq, Eq, Structural)]
pub enum FetchMode {
    /// Outcomes come in the order of the sources, and the first failure
    /// ends the stage: nothing more is started.
    OrderedAbort,
    /// Outcomes come in the order in which retrievals end, and every source
    /// is attempted.
    UnorderedExhaustive,
}

/// What the caller of the fetcher does next.
#[derive(Clone, Copy, Debug, PartialEq, Eq)]
pub enum FetchStep {
    /// Start the retrieval of this source, known by this number from now on.
    Launch(usize, Source),
    /// Nothing can start: wait for an outstanding retrieval to end.
    Wait,
    /// The stage is over. Retrievals still outstanding may be dropped.
    Finished,
}

/// The state of the fetch stage, as contracts see it.
pub struct FetchState<T, M, E> {
    /// The sources, in the order of the registry.
    pub sources: Seq<Source>,
    /// The largest number of retrievals that may be outstanding.
    pub limit: nat,
    pub mode: FetchMode,
    /// How many sources have been launched: always the first so many.
    pub launched: nat,
    /// The numbers of the retrievals that are outstanding.
    pub in_flight: Seq<usize>,
    /// The outcomes delivered so far, each with the number of its source.
    pub delivered: Seq<(usize, FetchOutcome<T, M, E>)>,
    /// Whether a failure has ended the stage early.
    pub aborted: bool,
}

/// The first place in `delivered` whose number is not below `index`.
pub open spec fn slot<T, M, E>(delivered: Seq<(usize, FetchOutcome<T, M, E>)>, index: usize) -> int
    decreases delivered.len(),
{
    if delivered.len() == 0 || delivered[0].0 >= index {
        0
    } else {
        1 + slot(delivered.drop_first(), index)
    }
}

impl<T, M, E> FetchState<T, M, E> {
    /// The state before anything is launched.
    pub open spec fn initial(sources: Seq<Source>, limit: nat, mode: FetchMode) -> Self {
        FetchState {
            sources,
            limit,
            mode,
            launched: 0,
            in_flight: Seq::empty(),
            delivered: Seq::empty(),
            aborted: false,
        }
    }

    /// What holds of every state that the fetcher can reach.
    pub open spec fn valid(self) -> bool {
        &&& self.limit >= 1
        &&& self.launched <= self.sources.len() <= usize::MAX
        &&& self.in_flight.len() <= self.limit
        &&& forall|i: int|
            0 <= i < self.in_flight.len() ==> (#[trigger] self.in_flight[i]) < self.launched
        &&& forall|i: int, j: int|
            0 <= i < j < self.in_flight.len() ==> self.in_flight[i] != self.in_flight[j]
        &&& forall|k: int|
            0 <= k < self.delivered.len() ==> {
                &&& (#[trigger] self.delivered[k]).0 < self.launched
                &&& self.delivered[k].1.source() == self.sources[self.delivered[k].0 as int]
            }
        &&& forall|k: int, i: int|
            0 <= k < self.delivered.len() && 0 <= i < self.in_flight.len() ==> (
            #[trigger] self.delivered[k]).0 != #[trigger] self.in_flight[i]
        &&& forall|j: int, k: int|
            0 <= j < k < self.delivered.len() ==> self.delivered[j].0 != self.delivered[k].0
        &&& !self.aborted ==> self.in_flight.len() + self.delivered.len() == self.launched
        &&& self.aborted ==> {
            &&& self.mode == FetchMode::OrderedAbort
            &&& self.in_flight.len() == 0
            &&& self.delivered.len() > 0
            &&& self.delivered.last().1.failed()
        }
        &&& self.mode == FetchMode::OrderedAbort ==> {
            &&& forall|j: int, k: int|
                0 <= j < k < self.delivered.len() ==> self.delivered[j].0 < self.delivered[k].0
            &&& forall|k: int|
                0 <= k < self.delivered.len() && (#[trigger] self.delivered[k]).1.failed() ==> {
                    &&& self.aborted
                    &&& k == self.delivered.len() - 1
                }
        }
    }

    /// Whether a retrieval may start: the stage is not aborted, a source is
    /// left, and fewer than the limit are outstanding.
    pub open spec fn can_launch(self) -> bool {
        &&& !self.aborted
        &&& self.launched < self.sources.len()
        &&& self.in_flight.len() < self.limit
    }

    /// Whether the stage is over: aborted, or every source launched and
    /// nothing outstanding.
    pub open spec fn finished(self) -> bool {
        self.aborted || (self.launched == self.sources.len() && self.in_flight.len() == 0)
    }

    /// The state after the next source has been launched.
    pub open spec fn after_launch(self) -> Self {
        FetchState {
            launched: self.launched + 1,
            in_flight: self.in_flight.push(self.launched as usize),
            ..self
        }
    }

    /// Whether a result for the retrieval `index` is taken: the retrieval is
    /// outstanding and the result fits the format of its source.
    pub open spec fn accepts(self, index: usize, retrieved: Retrieved<T, M, E>) -> bool {
        &&& self.in_flight.contains(index)
        &&& index < self.sources.len()
        &&& paired(self.sources[index as int], retrieved) is Some
    }

    /// The state after the outstanding retrieval `index` has ended with
    /// `outcome`. Exhaustive mode appends the outcome. Ordered mode puts a
    /// success at its place in the order of the sources; a failure ends the
    /// stage: it becomes the last outcome, outcomes of later sources are
    /// dropped, and so is whatever is still outstanding.
    pub open spec fn after_complete(self, index: usize, outcome: FetchOutcome<T, M, E>) -> Self {
        let rest = self.in_flight.remove(self.in_flight.index_of(index));
        match self.mode {
            FetchMode::UnorderedExhaustive => FetchState {
                in_flight: rest,
                delivered: self.delivered.push((index, outcome)),
                ..self
            },
            FetchMode::OrderedAbort => {
                let at = slot(self.delivered, index);
                if outcome.failed() {
                    FetchState {
                        in_flight: Seq::empty(),
                        delivered: self.delivered.take(at).push((index, outcome)),
                        aborted: true,
                        ..self
                    }
                } else {
                    FetchState {
                        in_flight: rest,
                        delivered: self.delivered.insert(at, (index, outcome)),
                        ..self
                    }
                }
            },
        }
    }

    /// A bound on the launches and completions that the stage still has
    /// before it: two for each source not yet launched, one for each
    /// outstanding retrieval, none once a failure has ended the stage.
    pub open spec fn work_left(self) -> nat {
        if self.aborted {
            0
        } else {
            (2 * (self.sources.len() - self.launched) + self.in_flight.len()) as nat
        }
    }

    /// The outcomes delivered so far, without their numbers.
    pub open spec fn outcomes(self) -> Seq<FetchOutcome<T, M, E>> {
        Seq::new(self.delivered.len(), |k: int| self.delivered[k].1)
    }
}

/// The place of `index` among delivered outcomes is the one before which
/// every number is smaller and at which none is.
pub proof fn lemma_slot<T, M, E>(
    delivered: Seq<(usize, FetchOutcome<T, M, E>)>,
    index: usize,
    at: int,
)
    requires
        0 <= at <= delivered.len(),
        forall|k: int| 0 <= k < at ==> (#[trigger] delivered[k]).0 < index,
        at == delivered.len() || delivered[at].0 >= index,
    ensures
        slot(delivered, index) == at,
    decreases at,
{
    if at > 0 {
        assert(delivered[0].0 < index);
        let rest = delivered.drop_first();
        assert forall|k: int| 0 <= k < at - 1 implies (#[trigger] rest[k]).0 < index by {
            assert(rest[k] == delivered[k + 1]);
        }
        lemma_slot(rest, index, at - 1);
    }
}

/// The initial state is one that the fetcher can reach, with nothing
/// outstanding, whenever the limit is at least one.
pub proof fn initial_is_valid<T, M, E>(sources: Seq<Source>, limit: nat, mode: FetchMode)
    requires
        limit >= 1,
        sources.len() <= usize::MAX,
    ensures
        FetchState::<T, M, E>::initial(sources, limit, mode).valid(),
        FetchState::<T, M, E>::initial(sources, limit, mode).in_flight.len() == 0,
{
}

/// A launch keeps the number of outstanding retrievals within the limit.
pub proof fn launch_keeps_limit<T, M, E>(state: FetchState<T, M, E>)
    requires
        state.valid(),
        state.can_launch(),
    ensures
        state.after_launch().valid(),
        state.after_launch().in_flight.len() == state.in_flight.len() + 1,
        state.after_launch().in_flight.len() <= state.limit,
{
}

/// The end of an outstanding retrieval keeps the number of outstanding
/// retrievals within the limit, and never raises it.
pub proof fn complete_keeps_limit<T, M, E>(
    state: FetchState<T, M, E>,
    index: usize,
    outcome: FetchOutcome<T, M, E>,
)
    requires
        state.valid(),
        state.in_flight.contains(index),
        outcome.source() == state.sources[index as int],
    ensures
        state.after_complete(index, outcome).valid(),
        state.after_complete(index, outcome).in_flight.len() < state.in_flight.len(),
        state.after_complete(index, outcome).in_flight.len() <= state.limit,
{
    let place = state.in_flight.index_of(index);
    let at = slot(state.delivered, index);
    lemma_slot_bounds(state.delivered, index);
    if state.mode == FetchMode::OrderedAbort {
        assert forall|k: int| 0 <= k < state.delivered.len() implies (k < at <==> (
        #[trigger] state.delivered[k]).0 < index) by {
            if k < at {
            } else {
                assert(state.delivered[at].0 >= index);
                if k > at {
                    assert(state.delivered[at].0 < state.delivered[k].0);
                }
                assert(state.delivered[k].0 != state.in_flight[place]);
            }
        }
    }
}

/// Every launch and every completion brings the stage closer to its end,
/// which it has reached exactly when no work is left: a stage over `n`
/// sources ends after at most `2 n` of them.
pub proof fn every_step_makes_progress<T, M, E>(
    state: FetchState<T, M, E>,
    index: usize,
    outcome: FetchOutcome<T, M, E>,
)
    requires
        state.valid(),
    ensures
        state.finished() <==> state.work_left() == 0,
        state.work_left() <= 2 * state.sources.len(),
        state.can_launch() ==> state.after_launch().work_left() == state.work_left() - 1,
        state.in_flight.contains(index) ==> state.after_complete(index, outcome).work_left()
            < state.work_left(),
{
}

/// Before the place of `index` every number is smaller, and the number at
/// the place, if there is one, is not.
pub proof fn lemma_slot_bounds<T, M, E>(
    delivered: Seq<(usize, FetchOutcome<T, M, E>)>,
    index: usize,
)
    ensures
        0 <= slot(delivered, index) <= delivered.len(),
        forall|k: int| 0 <= k < slot(delivered, index) ==> (#[trigger] delivered[k]).0 < index,
        slot(delivered, index) < delivered.len() ==> delivered[slot(delivered, index)].0 >= index,
    decreases delivered.len(),
{
    if delivered.len() == 0 || delivered[0].0 >= index {
    } else {
        let rest = delivered.drop_first();
        lemma_slot_bounds(rest, index);
        assert forall|k: int| 0 <= k < slot(delivered, index) implies (#[trigger] delivered[k]).0
            < index by {
            if k > 0 {
                assert(delivered[k] == rest[k - 1]);
            }
        }
        if slot(delivered, index) < delivered.len() {
            assert(delivered[slot(delivered, index)] == rest[slot(rest, index)]);
        }
    }
}

/// In a sequence of rising numbers, the number at a place is at least the
/// place.
proof fn lemma_rising_from_below<T, M, E>(
    delivered: Seq<(usize, FetchOutcome<T, M, E>)>,
    k: int,
)
    requires
        0 <= k < delivered.len(),
        forall|i: int, j: int| 0 <= i < j < delivered.len() ==> delivered[i].0 < delivered[j].0,
    ensures
        delivered[k].0 >= k,
    decreases k,
{
    if k > 0 {
        lemma_rising_from_below(delivered, k - 1);
    }
}

/// In a sequence of rising numbers below its length, the number at a place
/// is at most the place.
proof fn lemma_rising_from_above<T, M, E>(
    delivered: Seq<(usize, FetchOutcome<T, M, E>)>,
    k: int,
)
    requires
        0 <= k < delivered.len(),
        forall|i: int, j: int| 0 <= i < j < delivered.len() ==> delivered[i].0 < delivered[j].0,
        forall|i: int| 0 <= i < delivered.len() ==> (#[trigger] delivered[i]).0 < delivered.len(),
    ensures
        delivered[k].0 <= k,
    decreases delivered.len() - k,
{
    if k + 1 < delivered.len() {
        lemma_rising_from_above(delivered, k + 1);
    }
}

/// When the ordered mode ends without a failure, every source has been
/// fetched and the outcomes stand in the order of the sources.
pub proof fn ordered_run_delivers_in_order<T, M, E>(state: FetchState<T, M, E>)
    requires
        state.valid(),
        state.mode == FetchMode::OrderedAbort,
        state.finished(),
        !state.aborted,
    ensures
        state.outcomes().len() == state.sources.len(),
        forall|k: int|
            0 <= k < state.sources.len() ==> {
                &&& state.delivered[k].0 == k
                &&& !(#[trigger] state.outcomes()[k]).failed()
                &&& state.outcomes()[k].source() == state.sources[k]
            },
{
    assert forall|k: int| 0 <= k < state.sources.len() implies {
        &&& state.delivered[k].0 == k
        &&& !(#[trigger] state.outcomes()[k]).failed()
        &&& state.outcomes()[k].source() == state.sources[k]
    } by {
        lemma_rising_from_below(state.delivered, k);
        lemma_rising_from_above(state.delivered, k);
        assert(state.delivered[k].1.source() == state.sources[state.delivered[k].0 as int]);
    }
}

/// When the ordered mode ends on a failure, that failure is the last
/// outcome and the only one, and the outcomes before it stand in the order
/// of their sources.
pub proof fn ordered_run_stops_at_failure<T, M, E>(state: FetchState<T, M, E>)
    requires
        state.valid(),
        state.aborted,
    ensures
        state.mode == FetchMode::OrderedAbort,
        state.finished(),
        state.in_flight.len() == 0,
        state.outcomes().len() > 0,
        state.outcomes().last().failed(),
        forall|k: int|
            0 <= k < state.outcomes().len() - 1 ==> !(#[trigger] state.outcomes()[k]).failed(),
        forall|j: int, k: int|
            0 <= j < k < state.delivered.len() ==> state.delivered[j].0 < state.delivered[k].0,
{
    assert forall|k: int| 0 <= k < state.outcomes().len() - 1 implies !(
    #[trigger] state.outcomes()[k]).failed() by {
        assert(state.outcomes()[k] == state.delivered[k].1);
    }
}

/// When the exhaustive mode ends, every source has been attempted and has
/// delivered exactly one outcome, failures included: no two outcomes belong
/// to the same retrieval, and each is paired with the source of its number.
pub proof fn exhaustive_run_attempts_all<T, M, E>(state: FetchState<T, M, E>)
    requires
        state.valid(),
        state.mode == FetchMode::UnorderedExhaustive,
        state.finished(),
    ensures
        !state.aborted,
        state.launched == state.sources.len(),
        state.outcomes().len() == state.sources.len(),
        forall|j: int, k: int|
            0 <= j < k < state.delivered.len() ==> state.delivered[j].0 != state.delivered[k].0,
        forall|k: int|
            0 <= k < state.delivered.len() ==> {
                &&& (#[trigger] state.delivered[k]).0 < state.sources.len()
                &&& state.outcomes()[k].source() == state.sources[state.delivered[k].0 as int]
            },
{
}

/// The fetch stage of one run.
pub struct Fetcher<T, M, E> {
    sources: Vec<Source>,
    limit: usize,
    mode: FetchMode,
    launched: usize,
    in_flight: Vec<usize>,
    arrived: Vec<(usize, FetchOutcome<T, M, E>)>,
    aborted: bool,
}

impl<T, M, E> View for Fetcher<T, M, E> {
    type V = FetchState<T, M, E>;

    closed spec fn view(&self) -> FetchState<T, M, E> {
        FetchState {
            sources: self.sources@,
            limit: self.limit as nat,
            mode: self.mode,
            launched: self.launched as nat,
            in_flight: self.in_flight@,
            delivered: self.arrived@,
            aborted: self.aborted,
        }
    }
}

impl<T, M, E> Fetcher<T, M, E> {
    /// Whether the fetcher is in a state that it can reach.
    pub open spec fn wf(&self) -> bool {
        self@.valid()
    }

    /// A fetcher for `sources` that lets at most `limit` retrievals be
    /// outstanding. A limit of zero could never start one and is refused.
    pub fn new(sources: Vec<Source>, limit: usize, mode: FetchMode) -> (made: Option<Self>)
        ensures
            made is None <==> limit == 0,
            made is Some ==> made->0.wf() && made->0@ == FetchState::<T, M, E>::initial(
                sources@,
                limit as nat,
                mode,
            ),
    {
        let count: usize = sources.len();
        if limit == 0 {
            None
        } else {
            assert(sources@.len() == count);
            Some(
                Fetcher {
                    sources,
                    limit,
                    mode,
                    launched: 0,
                    in_flight: Vec::new(),
                    arrived: Vec::new(),
                    aborted: false,
                },
            )
        }
    }

    /// How many retrievals are outstanding: never more than the limit.
    pub fn outstanding(&self) -> (count: usize)
        requires
            self.wf(),
        ensures
            count == self@.in_flight.len(),
            count <= self@.limit,
    {
        self.in_flight.len()
    }

    /// Whether the stage is over.
    pub fn is_finished(&self) -> (over: bool)
        requires
            self.wf(),
        ensures
            over == self@.finished(),
    {
        self.aborted || (self.launched == self.sources.len() && self.in_flight.len() == 0)
    }

    /// Whether a failure has ended the stage early. The retrievals that
    /// were outstanding then are no longer waited for: the caller cancels
    /// them.
    pub fn was_aborted(&self) -> (aborted: bool)
        ensures
            aborted == self@.aborted,
    {
        self.aborted
    }

    /// Says what to do next. A launch is ordered only while fewer than the
    /// limit are outstanding, and sources are launched in their order.
    pub fn step(&mut self) -> (next: FetchStep)
        requires
            old(self).wf(),
        ensures
            final(self).wf(),
            match next {
                FetchStep::Launch(index, source) => {
                    &&& old(self)@.can_launch()
                    &&& index == old(self)@.launched
                    &&& source == old(self)@.sources[index as int]
                    &&& final(self)@ == old(self)@.after_launch()
                    &&& final(self)@.in_flight.len() <= final(self)@.limit
                },
                FetchStep::Wait => {
                    &&& !old(self)@.can_launch()
                    &&& !old(self)@.finished()
                    &&& old(self)@.in_flight.len() > 0
                    &&& final(self)@ == old(self)@
                },
                FetchStep::Finished => {
                    &&& old(self)@.finished()
                    &&& final(self)@ == old(self)@
                },
            },
    {
        if self.aborted {
            FetchStep::Finished
        } else if self.launched < self.sources.len() && self.in_flight.len() < self.limit {
            let index = self.launched;
            let source = self.sources[index];
            self.in_flight.push(index);
            self.launched = index + 1;
            proof {
                assert(final(self)@ == old(self)@.after_launch());
            }
            FetchStep::Launch(index, source)
        } else if self.in_flight.len() > 0 {
            FetchStep::Wait
        } else {
            FetchStep::Finished
        }
    }

    /// Takes the result of the retrieval `index`. It is taken when that
    /// retrieval is outstanding and the result fits the format of its
    /// source; otherwise nothing changes.
    pub fn complete(&mut self, index: usize, retrieved: Retrieved<T, M, E>) -> (taken: bool)
        requires
            old(self).wf(),
        ensures
            final(self).wf(),
            taken == old(self)@.accepts(index, retrieved),
            taken ==> final(self)@ == old(self)@.after_complete(
                index,
                paired(old(self)@.sources[index as int], retrieved)->0,
            ),
            !taken ==> final(self)@ == old(self)@,
    {
        let mut place: usize = 0;
        while place < self.in_flight.len() && self.in_flight[place] != index
            invariant
                place <= self.in_flight.len(),
                forall|k: int| 0 <= k < place ==> self.in_flight[k] != index,
            decreases self.in_flight.len() - place,
        {
            place = place + 1;
        }
        if place == self.in_flight.len() {
            assert(!self@.in_flight.contains(index));
            return false;
        }
        assert(self@.in_flight[place as int] == index);
        assert(self@.in_flight.index_of(index) == place);
        let source = self.sources[index];
        match pair(source, retrieved) {
            None => false,
            Some(outcome) => {
                let ghost before = self@;
                self.in_flight.remove(place);
                match self.mode {
                    FetchMode::UnorderedExhaustive => {
                        self.arrived.push((index, outcome));
                    },
                    FetchMode::OrderedAbort => {
                        let mut at: usize = 0;
                        while at < self.arrived.len() && self.arrived[at].0 < index
                            invariant
                                at <= self.arrived.len(),
                                forall|k: int| 0 <= k < at ==> (#[trigger] self.arrived[k]).0 < index,
                            decreases self.arrived.len() - at,
                        {
                            at = at + 1;
                        }
                        proof {
                            lemma_slot(self.arrived@, index, at as int);
                        }
                        if outcome.is_failure() {
                            self.arrived.truncate(at);
                            self.arrived.push((index, outcome));
                            self.in_flight.clear();
                            self.aborted = true;
                        } else {
                            self.arrived.insert(at, (index, outcome));
                        }
                    },
                }
                proof {
                    assert(self@ == before.after_complete(index, outcome));
                }
                true
            },
        }
    }

    /// Ends the stage and hands over the outcomes delivered, in the order
    /// of their delivery.
    pub fn finish(self) -> (outcomes: Vec<FetchOutcome<T, M, E>>)
        requires
            self.wf(),
        ensures
            outcomes@ == self@.outcomes(),
    {
        let ghost all = self.arrived@;
        let mut rest = self.arrived;
        let mut outcomes: Vec<FetchOutcome<T, M, E>> = Vec::new();
        while rest.len() > 0
            invariant
                outcomes@.len() + rest@.len() == all.len(),
                rest@ == all.subrange(outcomes@.len() as int, all.len() as int),
                forall|k: int| 0 <= k < outcomes@.len() ==> outcomes@[k] == all[k].1,
            decreases rest.len(),
        {
            let ghost taken: int = outcomes@.len() as int;
            let (_, outcome) = rest.remove(0);
            outcomes.push(outcome);
            proof {
                assert(rest@ =~= all.subrange(taken + 1, all.len() as int));
            }
        }
        assert(outcomes@ =~= self@.outcomes());
        outcomes
    }
}

} // verus!
