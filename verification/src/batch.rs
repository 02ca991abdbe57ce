//! The life of a batch as a state machine over mathematical values.
//!
//! Every file of a batch is first pending, then running, then completed.
//! Two events move a batch forward: the next pending file is started when a
//! worker slot is free, and a running file completes with a result. What the
//! orchestrator promises is stated and proved here, over every sequence of
//! such events.

use crate::outcome::{OutcomeModel, ResultModel};
use vstd::prelude::*;

verus! {

/// Where one file of a batch stands.
#[derive(Debug, Clone, Copy, PartialEq, Eq, Structural)]
pub enum TaskState {
    Pending,
    Running,
    Completed,
}

/// A batch at one moment. Files are known by their position in `paths`,
/// their sequence id.
pub struct BatchState {
    /// The files of the batch, in input order.
    pub paths: Seq<Seq<char>>,
    /// How many tasks may run at once.
    pub concurrency: nat,
    /// How many files have been started: the ids below it are running or
    /// completed, the others pending.
    pub dispatched: nat,
    /// The ids that are running, oldest first.
    pub running: Seq<nat>,
    /// The ids that have completed, in the order in which they did.
    pub completed: Seq<nat>,
    /// The outcomes observed so far, in the order of `completed`.
    pub outcomes: Seq<OutcomeModel>,
}

/// What can happen to a batch.
pub enum BatchEvent {
    /// The next pending file is handed to a worker.
    Start,
    /// The running task `id` reports `result`.
    Complete { id: nat, result: ResultModel },
}

impl BatchState {
    /// The batch before anything has been started.
    pub open spec fn initial(paths: Seq<Seq<char>>, concurrency: nat) -> BatchState {
        BatchState {
            paths,
            concurrency,
            dispatched: 0,
            running: Seq::empty(),
            completed: Seq::empty(),
            outcomes: Seq::empty(),
        }
    }

    /// Whether the file `id` has left the pending state.
    pub open spec fn started(self, id: nat) -> bool {
        self.running.contains(id) || self.completed.contains(id)
    }

    /// The invariant of a batch: the pool is never over its limit, files
    /// start in input order, no file is in two states or twice in one, and
    /// each completed file has exactly one outcome, under its own path.
    pub open spec fn wf(self) -> bool {
        &&& self.concurrency >= 1
        &&& self.dispatched <= self.paths.len()
        &&& self.running.len() <= self.concurrency
        &&& self.running.len() + self.completed.len() == self.dispatched
        &&& self.running.no_duplicates()
        &&& self.completed.no_duplicates()
        &&& forall|i: int|
            0 <= i < self.running.len() ==> (#[trigger] self.running[i]) < self.dispatched
                && !self.completed.contains(self.running[i])
        &&& forall|j: int|
            0 <= j < self.completed.len() ==> (#[trigger] self.completed[j]) < self.dispatched
        &&& forall|id: nat| id < self.dispatched ==> #[trigger] self.started(id)
        &&& self.outcomes.len() == self.completed.len()
        &&& forall|j: int|
            0 <= j < self.outcomes.len() ==> (#[trigger] self.outcomes[j]).path
                == self.paths[self.completed[j] as int]
    }

    /// Where the file `id` stands.
    pub open spec fn state_of(self, id: nat) -> TaskState {
        if id >= self.dispatched {
            TaskState::Pending
        } else if self.running.contains(id) {
            TaskState::Running
        } else {
            TaskState::Completed
        }
    }

    /// Whether a pending file can be started now: there is one, and a
    /// worker slot is free.
    pub open spec fn can_start(self) -> bool {
        self.dispatched < self.paths.len() && self.running.len() < self.concurrency
    }

    /// The batch after the next pending file has been started.
    pub open spec fn start(self) -> BatchState {
        BatchState {
            dispatched: self.dispatched + 1,
            running: self.running.push(self.dispatched),
            ..self
        }
    }

    /// Whether the task `id` is running, so that it can complete.
    pub open spec fn can_complete(self, id: nat) -> bool {
        self.running.contains(id)
    }

    /// The batch after the running task `id` has reported `result`.
    pub open spec fn complete(self, id: nat, result: ResultModel) -> BatchState {
        BatchState {
            running: self.running.remove(self.running.index_of(id)),
            completed: self.completed.push(id),
            outcomes: self.outcomes.push(OutcomeModel { path: self.paths[id as int], result }),
            ..self
        }
    }

    /// Whether every file of the batch has completed.
    pub open spec fn finished(self) -> bool {
        self.dispatched == self.paths.len() && self.running.len() == 0
    }

    /// The batch after `event`. An event that cannot happen in this state
    /// (no free slot, no pending file, a task that is not running) leaves
    /// the batch as it is.
    pub open spec fn step(self, event: BatchEvent) -> BatchState {
        match event {
            BatchEvent::Start => if self.can_start() {
                self.start()
            } else {
                self
            },
            BatchEvent::Complete { id, result } => if self.can_complete(id) {
                self.complete(id, result)
            } else {
                self
            },
        }
    }

    /// The batch after the events of `events`, in order.
    pub open spec fn run(self, events: Seq<BatchEvent>) -> BatchState
        decreases events.len(),
    {
        if events.len() == 0 {
            self
        } else {
            self.run(events.drop_last()).step(events.last())
        }
    }

    /// How many events a batch is away from being finished: one start for
    /// every pending file, one completion for every file that has not
    /// completed.
    pub open spec fn remaining_events(self) -> int {
        2 * self.paths.len() - self.dispatched - self.completed.len()
    }

    /// A batch that has not started is well formed.
    pub proof fn lemma_initial_wf(paths: Seq<Seq<char>>, concurrency: nat)
        requires
            concurrency >= 1,
        ensures
            BatchState::initial(paths, concurrency).wf(),
    {
    }

    /// Starting the next pending file keeps the batch well formed.
    pub proof fn lemma_start_wf(self)
        requires
            self.wf(),
            self.can_start(),
        ensures
            self.start().wf(),
    {
        let after = self.start();
        let id = self.dispatched;
        assert(!self.running.contains(id));
        assert(!self.completed.contains(id));
        assert(after.running.no_duplicates());
        assert forall|i: int| 0 <= i < after.running.len() implies (#[trigger] after.running[i])
            < after.dispatched && !after.completed.contains(after.running[i]) by {
            if i < self.running.len() {
                assert(after.running[i] == self.running[i]);
            }
        }
        assert forall|other: nat| other < after.dispatched implies #[trigger] after.started(
            other,
        ) by {
            if other < self.dispatched {
                assert(self.started(other));
                if self.running.contains(other) {
                    let i = self.running.index_of(other);
                    assert(after.running[i] == other);
                }
            } else {
                assert(after.running[self.running.len() as int] == other);
            }
        }
    }

    /// A completion keeps the batch well formed.
    pub proof fn lemma_complete_wf(self, id: nat, result: ResultModel)
        requires
            self.wf(),
            self.can_complete(id),
        ensures
            self.complete(id, result).wf(),
    {
        let after = self.complete(id, result);
        let at = self.running.index_of(id);
        self.running.remove_ensures(at);
        assert(after.running.no_duplicates()) by {
            assert forall|i: int, j: int|
                0 <= i < after.running.len() && 0 <= j < after.running.len() && i != j implies after.running[i]
                != after.running[j] by {
                let before_i = if i < at {
                    i
                } else {
                    i + 1
                };
                let before_j = if j < at {
                    j
                } else {
                    j + 1
                };
                assert(after.running[i] == self.running[before_i]);
                assert(after.running[j] == self.running[before_j]);
            }
        }
        assert(!self.completed.contains(id)) by {
            assert(self.running[at] == id);
        }
        assert(after.completed.no_duplicates());
        assert forall|i: int| 0 <= i < after.running.len() implies (#[trigger] after.running[i])
            < after.dispatched && !after.completed.contains(after.running[i]) by {
            let before = if i < at {
                i
            } else {
                i + 1
            };
            assert(after.running[i] == self.running[before]);
            assert(self.running[before] != id);
            if after.completed.contains(after.running[i]) {
                let j = after.completed.index_of(after.running[i]);
                assert(j < self.completed.len());
                assert(self.completed[j] == self.running[before]);
            }
        }
        assert forall|j: int| 0 <= j < after.completed.len() implies (#[trigger] after.completed[j])
            < after.dispatched by {
            if j < self.completed.len() {
                assert(after.completed[j] == self.completed[j]);
            } else {
                assert(self.running[at] == id);
            }
        }
        assert forall|other: nat| other < after.dispatched implies #[trigger] after.started(
            other,
        ) by {
            assert(self.started(other));
            if other == id {
                assert(after.completed[self.completed.len() as int] == other);
            } else if self.running.contains(other) {
                let i = self.running.index_of(other);
                let moved = if i < at {
                    i
                } else {
                    i - 1
                };
                assert(after.running[moved] == other);
            } else {
                let j = self.completed.index_of(other);
                assert(after.completed[j] == other);
            }
        }
        assert forall|j: int| 0 <= j < after.outcomes.len() implies (#[trigger] after.outcomes[j]).path
            == after.paths[after.completed[j] as int] by {
            if j < self.outcomes.len() {
                assert(after.outcomes[j] == self.outcomes[j]);
                assert(after.completed[j] == self.completed[j]);
            }
        }
    }

    /// Whatever happens to a well-formed batch, it stays well formed.
    pub proof fn lemma_step_wf(self, event: BatchEvent)
        requires
            self.wf(),
        ensures
            self.step(event).wf(),
    {
        match event {
            BatchEvent::Start => {
                if self.can_start() {
                    self.lemma_start_wf();
                }
            },
            BatchEvent::Complete { id, result } => {
                if self.can_complete(id) {
                    self.lemma_complete_wf(id, result);
                }
            },
        }
    }

    /// A well-formed batch stays well formed along every sequence of events.
    pub proof fn lemma_run_wf(self, events: Seq<BatchEvent>)
        requires
            self.wf(),
        ensures
            self.run(events).wf(),
        decreases events.len(),
    {
        if events.len() > 0 {
            self.lemma_run_wf(events.drop_last());
            self.run(events.drop_last()).lemma_step_wf(events.last());
        }
    }
}

/// Whether every completion among `events` reports what `results` holds for
/// its task: the events of a run in which the result of each task is fixed
/// beforehand.
pub open spec fn scripted(events: Seq<BatchEvent>, results: Seq<ResultModel>) -> bool {
    forall|i: int|
        0 <= i < events.len() ==> match #[trigger] events[i] {
            BatchEvent::Start => true,
            BatchEvent::Complete { id, result } => {
                &&& id < results.len()
                &&& result == results[id as int]
            },
        }
}

/// The outcome that the file `id` ends in when its task reports `results[id]`.
pub open spec fn expected_outcome(
    paths: Seq<Seq<char>>,
    results: Seq<ResultModel>,
    id: int,
) -> OutcomeModel {
    OutcomeModel { path: paths[id], result: results[id] }
}

/// The outcomes of a batch whose tasks report `results`, in input order.
pub open spec fn expected_outcomes(
    paths: Seq<Seq<char>>,
    results: Seq<ResultModel>,
) -> Seq<OutcomeModel> {
    Seq::new(paths.len(), |id: int| expected_outcome(paths, results, id))
}

/// The outcomes that the running tasks of `state` are going to report.
spec fn in_flight(state: BatchState, results: Seq<ResultModel>) -> Seq<OutcomeModel> {
    Seq::new(
        state.running.len(),
        |i: int| expected_outcome(state.paths, results, state.running[i] as int),
    )
}

/// What holds of a batch all of whose completions so far followed
/// `results`: the outcomes observed, together with those still in flight,
/// are the expected outcomes of the files started, order aside.
spec fn on_script(state: BatchState, results: Seq<ResultModel>) -> bool {
    &&& state.wf()
    &&& results.len() == state.paths.len()
    &&& state.outcomes.to_multiset().add(in_flight(state, results).to_multiset())
        == expected_outcomes(state.paths, results).take(state.dispatched as int).to_multiset()
}

proof fn lemma_step_on_script(state: BatchState, results: Seq<ResultModel>, event: BatchEvent)
    requires
        on_script(state, results),
        match event {
            BatchEvent::Start => true,
            BatchEvent::Complete { id, result } => {
                &&& id < results.len()
                &&& result == results[id as int]
            },
        },
    ensures
        on_script(state.step(event), results),
{
    broadcast use vstd::multiset::group_multiset_axioms;

    let after = state.step(event);
    state.lemma_step_wf(event);
    let expected = expected_outcomes(state.paths, results);
    let observed = state.outcomes.to_multiset();
    let flying = in_flight(state, results);
    match event {
        BatchEvent::Start => {
            if state.can_start() {
                let id = state.dispatched as int;
                let next = expected_outcome(state.paths, results, id);
                assert(in_flight(after, results) =~= flying.push(next));
                assert(expected.take(id + 1) =~= expected.take(id).push(next));
                vstd::seq_lib::to_multiset_build(flying, next);
                vstd::seq_lib::to_multiset_build(expected.take(id), next);
                assert(observed.add(flying.to_multiset().insert(next)) =~= observed.add(
                    flying.to_multiset(),
                ).insert(next));
            }
        },
        BatchEvent::Complete { id, result } => {
            if state.can_complete(id) {
                let at = state.running.index_of(id);
                let done = expected_outcome(state.paths, results, id as int);
                assert(flying[at] == done);
                assert(in_flight(after, results) =~= flying.remove(at));
                vstd::seq_lib::to_multiset_remove(flying, at);
                vstd::seq_lib::to_multiset_build(state.outcomes, done);
                vstd::seq_lib::to_multiset_contains(flying, done);
                assert(flying.to_multiset().count(done) > 0);
                assert(observed.insert(done).add(flying.to_multiset().remove(done)) =~= observed.add(
                    flying.to_multiset(),
                ));
            }
        },
    }
}

proof fn lemma_run_on_script(
    paths: Seq<Seq<char>>,
    results: Seq<ResultModel>,
    concurrency: nat,
    events: Seq<BatchEvent>,
)
    requires
        concurrency >= 1,
        results.len() == paths.len(),
        scripted(events, results),
    ensures
        on_script(BatchState::initial(paths, concurrency).run(events), results),
    decreases events.len(),
{
    broadcast use vstd::multiset::group_multiset_axioms;

    let start = BatchState::initial(paths, concurrency);
    if events.len() == 0 {
        let nothing = Seq::<OutcomeModel>::empty();
        assert(start.outcomes =~= nothing);
        assert(in_flight(start, results) =~= nothing);
        assert(expected_outcomes(paths, results).take(0) =~= nothing);
        assert(nothing.to_multiset().add(nothing.to_multiset()) =~= nothing.to_multiset()) by {
            vstd::seq_lib::to_multiset_len(nothing);
        }
    } else {
        let earlier = events.drop_last();
        assert(scripted(earlier, results)) by {
            assert forall|i: int| 0 <= i < earlier.len() implies match #[trigger] earlier[i] {
                BatchEvent::Start => true,
                BatchEvent::Complete { id, result } => {
                    &&& id < results.len()
                    &&& result == results[id as int]
                },
            } by {
                assert(earlier[i] == events[i]);
            }
        }
        lemma_run_on_script(paths, results, concurrency, earlier);
        assert(events.last() == events[events.len() - 1]);
        lemma_step_on_script(start.run(earlier), results, events.last());
    }
}

/// However a batch is scheduled, no more tasks are ever running than its
/// limit allows: after any number of the events of any execution, the
/// running tasks are at most `concurrency`.
pub proof fn lemma_running_never_exceeds_limit(
    paths: Seq<Seq<char>>,
    concurrency: nat,
    events: Seq<BatchEvent>,
    point: int,
)
    requires
        concurrency >= 1,
        0 <= point <= events.len(),
    ensures
        BatchState::initial(paths, concurrency).run(events.take(point)).running.len()
            <= concurrency,
{
    BatchState::lemma_initial_wf(paths, concurrency);
    BatchState::initial(paths, concurrency).lemma_run_wf(events.take(point));
    lemma_run_keeps_paths(BatchState::initial(paths, concurrency), events.take(point));
}

/// A batch that has finished holds exactly one outcome per file, whatever
/// the tasks reported: as many outcomes as files, every file completed
/// once and only once, and each outcome under the path of the file whose
/// completion produced it.
pub proof fn lemma_finished_batch_has_one_outcome_per_file(
    paths: Seq<Seq<char>>,
    concurrency: nat,
    events: Seq<BatchEvent>,
)
    requires
        concurrency >= 1,
        BatchState::initial(paths, concurrency).run(events).finished(),
    ensures
        ({
            let end = BatchState::initial(paths, concurrency).run(events);
            &&& end.outcomes.len() == paths.len()
            &&& end.completed.len() == paths.len()
            &&& end.completed.no_duplicates()
            &&& forall|id: nat| id < paths.len() ==> end.completed.contains(id)
            &&& forall|j: int|
                0 <= j < paths.len() ==> {
                    &&& end.completed[j] < paths.len()
                    &&& (#[trigger] end.outcomes[j]).path == paths[end.completed[j] as int]
                }
        }),
{
    let end = BatchState::initial(paths, concurrency).run(events);
    BatchState::lemma_initial_wf(paths, concurrency);
    BatchState::initial(paths, concurrency).lemma_run_wf(events);
    lemma_run_keeps_paths(BatchState::initial(paths, concurrency), events);
    assert forall|id: nat| id < paths.len() implies end.completed.contains(id) by {
        assert(end.started(id));
        assert(!end.running.contains(id));
    }
}

/// No event changes the files of a batch or its limit.
proof fn lemma_run_keeps_paths(state: BatchState, events: Seq<BatchEvent>)
    ensures
        state.run(events).paths == state.paths,
        state.run(events).concurrency == state.concurrency,
    decreases events.len(),
{
    if events.len() > 0 {
        lemma_run_keeps_paths(state, events.drop_last());
    }
}

/// The outcomes of a batch do not depend on how it was scheduled. Take two
/// executions over the same files in which every task reports the result
/// that `results` fixes for it, under any two limits and with starts and
/// completions in any two orders. Once both have finished, they hold the
/// same outcomes, order aside: those of `expected_outcomes`.
pub proof fn lemma_outcomes_independent_of_schedule(
    paths: Seq<Seq<char>>,
    results: Seq<ResultModel>,
    first_limit: nat,
    first_events: Seq<BatchEvent>,
    second_limit: nat,
    second_events: Seq<BatchEvent>,
)
    requires
        results.len() == paths.len(),
        first_limit >= 1,
        second_limit >= 1,
        scripted(first_events, results),
        scripted(second_events, results),
        BatchState::initial(paths, first_limit).run(first_events).finished(),
        BatchState::initial(paths, second_limit).run(second_events).finished(),
    ensures
        ({
            let first = BatchState::initial(paths, first_limit).run(first_events);
            let second = BatchState::initial(paths, second_limit).run(second_events);
            &&& first.outcomes.to_multiset() == second.outcomes.to_multiset()
            &&& first.outcomes.to_multiset() == expected_outcomes(paths, results).to_multiset()
        }),
{
    lemma_finished_on_script(paths, results, first_limit, first_events);
    lemma_finished_on_script(paths, results, second_limit, second_events);
}

proof fn lemma_finished_on_script(
    paths: Seq<Seq<char>>,
    results: Seq<ResultModel>,
    concurrency: nat,
    events: Seq<BatchEvent>,
)
    requires
        results.len() == paths.len(),
        concurrency >= 1,
        scripted(events, results),
        BatchState::initial(paths, concurrency).run(events).finished(),
    ensures
        BatchState::initial(paths, concurrency).run(events).outcomes.to_multiset()
            == expected_outcomes(paths, results).to_multiset(),
{
    broadcast use vstd::multiset::group_multiset_axioms;

    let end = BatchState::initial(paths, concurrency).run(events);
    lemma_run_on_script(paths, results, concurrency, events);
    lemma_run_keeps_paths(BatchState::initial(paths, concurrency), events);
    let expected = expected_outcomes(paths, results);
    assert(expected.take(end.dispatched as int) =~= expected);
    assert(in_flight(end, results) =~= Seq::empty());
    assert(in_flight(end, results).to_multiset() =~= vstd::multiset::Multiset::empty()) by {
        vstd::seq_lib::to_multiset_len(in_flight(end, results));
    }
    assert(end.outcomes.to_multiset().add(vstd::multiset::Multiset::empty())
        =~= end.outcomes.to_multiset());
}

/// A batch never hangs on its own account. While it has not finished,
/// something can happen: a pending file can start, or, the pool being
/// busy, its oldest task can complete. Each event that happens brings the
/// batch one step closer to its end, and the end is reached when no step
/// remains: every execution that keeps going is over after twice as many
/// events as there are files.
pub proof fn lemma_unfinished_batch_proceeds(state: BatchState, event: BatchEvent)
    requires
        state.wf(),
    ensures
        state.remaining_events() >= 0,
        state.finished() <==> state.remaining_events() == 0,
        !state.finished() ==> {
            ||| state.can_start()
            ||| state.running.len() > 0 && state.can_complete(state.running[0])
        },
        state.step(event) != state ==> {
            state.step(event).remaining_events() == state.remaining_events() - 1
        },
{
    if state.running.len() > 0 {
        assert(state.running.contains(state.running[0]));
    }
}

} // verus!
