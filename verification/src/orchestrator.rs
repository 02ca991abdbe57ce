//! The upload orchestrator: which file starts next, how many may run at
//! once, and what is recorded when a task reports.
//!
//! The orchestrator performs no upload itself. It hands out one request
//! per file while a worker slot is free, takes the result of each task as
//! it comes, and is finished once every file has reported. Its states are
//! those of [`BatchState`], which is where its guarantees are proved.

use crate::batch::{
    expected_outcomes, lemma_outcomes_independent_of_schedule, scripted, BatchEvent, BatchState,
    TaskState,
};
use crate::config::OutputMode;
use crate::config::{Configuration, ConfigurationModel};
use crate::outcome::{outcome_models, OutcomeModel, TaskOutcome, TaskResult};
use crate::task::{
    response_models, scripted_results, task_result, RawResponse, ResponseModel, UploadRequest,
};
use vstd::prelude::*;

verus! {

/// The sequence ids of `ids` as natural numbers.
pub open spec fn id_models(ids: Seq<usize>) -> Seq<nat> {
    Seq::new(ids.len(), |i: int| ids[i] as nat)
}

/// The bounded worker pool of one batch, as far as deciding goes.
#[derive(Debug)]
pub struct Orchestrator {
    configuration: Configuration,
    dispatched: usize,
    running: Vec<usize>,
    completed: Vec<usize>,
    outcomes: Vec<TaskOutcome>,
}

impl View for Orchestrator {
    type V = BatchState;

    closed spec fn view(&self) -> BatchState {
        BatchState {
            paths: self.configuration@.files,
            concurrency: self.configuration@.concurrency,
            dispatched: self.dispatched as nat,
            running: id_models(self.running@),
            completed: id_models(self.completed@),
            outcomes: outcome_models(self.outcomes@),
        }
    }
}

/// The first position of `id` in `ids`, if it occurs there.
fn position_of(ids: &Vec<usize>, id: usize) -> (position: Option<usize>)
    ensures
        match position {
            Some(at) => at < ids@.len() && ids@[at as int] == id,
            None => forall|i: int| 0 <= i < ids@.len() ==> ids@[i] != id,
        },
{
    let mut at: usize = 0;
    while at < ids.len()
        invariant
            at <= ids@.len(),
            forall|i: int| 0 <= i < at ==> ids@[i] != id,
        decreases ids@.len() - at,
    {
        if ids[at] == id {
            return Some(at);
        }
        at = at + 1;
    }
    None
}

impl Orchestrator {
    /// The invariant of an orchestrator: that of the batch it stands for.
    pub open spec fn wf(&self) -> bool {
        self@.wf()
    }

    /// The configuration that the batch runs under. Nothing ever changes
    /// it, and the files and the limit of the batch are its own.
    pub closed spec fn settings(&self) -> ConfigurationModel {
        self.configuration@
    }

    /// An orchestrator for the files of `configuration`, none of them
    /// started yet.
    pub fn new(configuration: Configuration) -> (orchestrator: Orchestrator)
        ensures
            orchestrator.wf(),
            orchestrator.settings() == configuration@,
            orchestrator@ == BatchState::initial(
                configuration@.files,
                configuration@.concurrency,
            ),
    {
        proof {
            use_type_invariant(&configuration);
        }
        let orchestrator = Orchestrator {
            configuration,
            dispatched: 0,
            running: Vec::new(),
            completed: Vec::new(),
            outcomes: Vec::new(),
        };
        proof {
            assert(id_models(orchestrator.running@) =~= Seq::empty());
            assert(id_models(orchestrator.completed@) =~= Seq::empty());
            assert(outcome_models(orchestrator.outcomes@) =~= Seq::empty());
            assert(orchestrator@ =~= BatchState::initial(
                configuration@.files,
                configuration@.concurrency,
            ));
            BatchState::lemma_initial_wf(configuration@.files, configuration@.concurrency);
        }
        orchestrator
    }

    /// The configuration that the batch runs under.
    pub fn configuration(&self) -> (configuration: &Configuration)
        ensures
            configuration@ == self.settings(),
            configuration@.files == self@.paths,
            configuration@.concurrency == self@.concurrency,
    {
        &self.configuration
    }

    /// Starts the next pending file if a worker slot is free, and returns
    /// the request to hand to the worker. Files start in input order.
    /// Returns `None`, and changes nothing, while the pool is full or no
    /// file is pending.
    pub fn start_next(&mut self) -> (request: Option<UploadRequest>)
        requires
            old(self).wf(),
        ensures
            final(self).wf(),
            final(self).settings() == old(self).settings(),
            final(self)@ == old(self)@.step(BatchEvent::Start),
            match request {
                Some(request) => {
                    &&& old(self)@.can_start()
                    &&& request.sequence_id == old(self)@.dispatched
                    &&& request.path@ == old(self)@.paths[request.sequence_id as int]
                },
                None => !old(self)@.can_start(),
            },
    {
        let files = self.configuration.files();
        let limit: usize = self.configuration.concurrency();
        if self.dispatched < files.len() && self.running.len() < limit {
            let sequence_id: usize = self.dispatched;
            let path: String = files[sequence_id].clone();
            self.running.push(sequence_id);
            self.dispatched = sequence_id + 1;
            proof {
                assert(id_models(self.running@) =~= id_models(old(self).running@).push(
                    sequence_id as nat,
                ));
                assert(self@ =~= old(self)@.start());
                old(self)@.lemma_start_wf();
            }
            Some(UploadRequest { path, sequence_id })
        } else {
            None
        }
    }

    /// Records that the running task `sequence_id` has reported `result`:
    /// its slot is free again and its outcome, under the path of its file,
    /// is the latest of [`Orchestrator::outcomes`]. A report for a task
    /// that is not running (never started, or completed already) is not
    /// recorded and changes nothing, so no file ever has two outcomes.
    pub fn complete(&mut self, sequence_id: usize, result: TaskResult) -> (recorded: bool)
        requires
            old(self).wf(),
        ensures
            final(self).wf(),
            final(self).settings() == old(self).settings(),
            recorded == old(self)@.can_complete(sequence_id as nat),
            final(self)@ == old(self)@.step(
                BatchEvent::Complete { id: sequence_id as nat, result: result@ },
            ),
    {
        let ghost before = self@;
        match position_of(&self.running, sequence_id) {
            None => {
                assert(!before.running.contains(sequence_id as nat)) by {
                    if before.running.contains(sequence_id as nat) {
                        let i = before.running.index_of(sequence_id as nat);
                        assert(self.running@[i] == sequence_id);
                    }
                }
                false
            },
            Some(at) => {
                assert(before.running[at as int] == sequence_id as nat);
                assert(before.running.index_of(sequence_id as nat) == at as int);
                let path: String = self.configuration.files()[sequence_id].clone();
                self.running.remove(at);
                self.completed.push(sequence_id);
                self.outcomes.push(TaskOutcome { path, result });
                proof {
                    assert(id_models(self.running@) =~= before.running.remove(at as int));
                    assert(id_models(self.completed@) =~= before.completed.push(
                        sequence_id as nat,
                    ));
                    assert(outcome_models(self.outcomes@) =~= before.outcomes.push(
                        OutcomeModel {
                            path: before.paths[sequence_id as int],
                            result: result@,
                        },
                    ));
                    assert(self@ =~= before.complete(sequence_id as nat, result@));
                    before.lemma_complete_wf(sequence_id as nat, result@);
                }
                true
            },
        }
    }

    /// Whether every file of the batch has reported.
    pub fn is_finished(&self) -> (finished: bool)
        requires
            self.wf(),
        ensures
            finished == self@.finished(),
            finished ==> self@.outcomes.len() == self@.paths.len(),
    {
        self.dispatched == self.configuration.files().len() && self.running.len() == 0
    }

    /// How many files there are in the batch.
    pub fn file_count(&self) -> (count: usize)
        ensures
            count == self@.paths.len(),
    {
        self.configuration.files().len()
    }

    /// How many files are still pending.
    pub fn pending_count(&self) -> (count: usize)
        requires
            self.wf(),
        ensures
            count == self@.paths.len() - self@.dispatched,
    {
        self.configuration.files().len() - self.dispatched
    }

    /// How many tasks are running: never more than the limit.
    pub fn running_count(&self) -> (count: usize)
        requires
            self.wf(),
        ensures
            count == self@.running.len(),
            count <= self@.concurrency,
    {
        self.running.len()
    }

    /// How many files have reported.
    pub fn completed_count(&self) -> (count: usize)
        ensures
            count == self@.completed.len(),
    {
        self.completed.len()
    }

    /// The running task that was started first, if any task is running.
    pub fn oldest_running(&self) -> (oldest: Option<usize>)
        ensures
            match oldest {
                Some(id) => self@.running.len() > 0 && self@.running[0] == id,
                None => self@.running.len() == 0,
            },
    {
        if self.running.len() > 0 {
            Some(self.running[0])
        } else {
            None
        }
    }

    /// Where the file `sequence_id` stands. An id beyond the batch is
    /// pending for ever.
    pub fn state_of(&self, sequence_id: usize) -> (state: TaskState)
        ensures
            state == self@.state_of(sequence_id as nat),
    {
        if sequence_id >= self.dispatched {
            TaskState::Pending
        } else {
            match position_of(&self.running, sequence_id) {
                Some(at) => {
                    assert(self@.running[at as int] == sequence_id as nat);
                    TaskState::Running
                },
                None => {
                    assert(!self@.running.contains(sequence_id as nat)) by {
                        if self@.running.contains(sequence_id as nat) {
                            let i = self@.running.index_of(sequence_id as nat);
                            assert(self.running@[i] == sequence_id);
                        }
                    }
                    TaskState::Completed
                },
            }
        }
    }

    /// The outcomes observed so far, in the order in which they came.
    pub fn outcomes(&self) -> (outcomes: &Vec<TaskOutcome>)
        ensures
            outcome_models(outcomes@) == self@.outcomes,
    {
        &self.outcomes
    }

    /// The sequence ids of the files that have reported, in the order in
    /// which they did: the id at each position is that of the file whose
    /// outcome stands at the same position of [`Orchestrator::outcomes`].
    pub fn completion_order(&self) -> (order: &Vec<usize>)
        ensures
            id_models(order@) == self@.completed,
    {
        &self.completed
    }

    /// Ends the batch and hands over the outcomes observed, in the order
    /// in which they came.
    pub fn into_outcomes(self) -> (outcomes: Vec<TaskOutcome>)
        ensures
            outcome_models(outcomes@) == self@.outcomes,
    {
        self.outcomes
    }
}

/// The sequence ids from `from` up to, but not including, `to`, in order.
spec fn id_range(from: nat, to: nat) -> Seq<nat> {
    Seq::new((to - from) as nat, |i: int| (from + i) as nat)
}

/// Runs a whole batch over responses known beforehand: the upload of the
/// file at each position returns the response at the same position of
/// `responses`. Files are started in input order while a slot is free, and
/// of the running tasks the oldest reports first, so the outcomes come in
/// input order: exactly one for every file, whatever the responses are.
/// Returns `None` where `responses` does not hold one response per file.
pub fn run_batch(
    configuration: Configuration,
    responses: &Vec<RawResponse>,
) -> (outcomes: Option<Vec<TaskOutcome>>)
    ensures
        outcomes is Some == (responses@.len() == configuration@.files.len()),
        outcomes matches Some(observed) ==> observed@.len() == configuration@.files.len(),
        outcomes matches Some(observed) ==> outcome_models(observed@) == expected_outcomes(
            configuration@.files,
            scripted_results(
                configuration@.files,
                response_models(responses@),
                configuration@.output_mode,
            ),
        ),
{
    if responses.len() != configuration.files().len() {
        return None;
    }
    let mode = configuration.output_mode();
    let ghost paths = configuration@.files;
    let ghost results = scripted_results(paths, response_models(responses@), mode);
    let ghost expected = expected_outcomes(paths, results);
    let mut orchestrator = Orchestrator::new(configuration);
    assert(orchestrator@.completed =~= id_range(0, 0));
    assert(orchestrator@.running =~= id_range(0, 0));
    assert(orchestrator@.outcomes =~= expected.take(0));
    loop
        invariant
            orchestrator.wf(),
            orchestrator@.paths == paths,
            responses@.len() == paths.len(),
            results == scripted_results(paths, response_models(responses@), mode),
            expected == expected_outcomes(paths, results),
            orchestrator@.completed == id_range(0, orchestrator@.completed.len()),
            orchestrator@.running == id_range(
                orchestrator@.completed.len(),
                orchestrator@.dispatched,
            ),
            orchestrator@.outcomes == expected.take(orchestrator@.completed.len() as int),
        ensures
            orchestrator.wf(),
            orchestrator@.finished(),
            orchestrator@.paths == paths,
            orchestrator@.outcomes == expected.take(orchestrator@.completed.len() as int),
        decreases paths.len() - orchestrator@.completed.len(),
    {
        let ghost done = orchestrator@.completed.len();
        loop
            invariant
                orchestrator.wf(),
                orchestrator@.paths == paths,
                orchestrator@.completed.len() == done,
                orchestrator@.completed == id_range(0, orchestrator@.completed.len()),
                orchestrator@.running == id_range(
                    orchestrator@.completed.len(),
                    orchestrator@.dispatched,
                ),
                orchestrator@.outcomes == expected.take(orchestrator@.completed.len() as int),
            ensures
                orchestrator.wf(),
                !orchestrator@.can_start(),
                orchestrator@.paths == paths,
                orchestrator@.completed.len() == done,
                orchestrator@.completed == id_range(0, orchestrator@.completed.len()),
                orchestrator@.running == id_range(
                    orchestrator@.completed.len(),
                    orchestrator@.dispatched,
                ),
                orchestrator@.outcomes == expected.take(orchestrator@.completed.len() as int),
            decreases paths.len() - orchestrator@.dispatched,
        {
            match orchestrator.start_next() {
                Some(_) => {
                    assert(orchestrator@.running =~= id_range(
                        orchestrator@.completed.len(),
                        orchestrator@.dispatched,
                    ));
                },
                None => {
                    break;
                },
            }
        }
        let ghost before = orchestrator@;
        match orchestrator.oldest_running() {
            None => {
                break;
            },
            Some(sequence_id) => {
                assert(sequence_id == done);
                assert(before.running.index_of(sequence_id as nat) == 0);
                let files = orchestrator.configuration().files();
                let result = task_result(
                    files[sequence_id].as_str(),
                    &responses[sequence_id],
                    mode,
                );
                assert(result@ == results[sequence_id as int]);
                orchestrator.complete(sequence_id, result);
                assert(orchestrator@.completed =~= id_range(0, done + 1));
                assert(orchestrator@.running =~= id_range(done + 1, before.dispatched));
                assert(orchestrator@.outcomes =~= expected.take(done as int + 1));
            },
        }
    }
    assert(expected.take(orchestrator@.completed.len() as int) =~= expected);
    Some(orchestrator.into_outcomes())
}

/// Running a batch twice over the same responses gives the same outcomes,
/// order aside, however each run is scheduled. Take any execution over
/// `paths` in which every task reports how its own response of `responses`
/// is classified in `mode`. Once it has finished, it holds the outcomes
/// that [`run_batch`] returns for these files and responses, in some
/// order; so any two such executions hold the same.
pub proof fn lemma_outcomes_fixed_by_responses(
    paths: Seq<Seq<char>>,
    responses: Seq<ResponseModel>,
    mode: OutputMode,
    limit: nat,
    events: Seq<BatchEvent>,
)
    requires
        responses.len() == paths.len(),
        limit >= 1,
        scripted(events, scripted_results(paths, responses, mode)),
        BatchState::initial(paths, limit).run(events).finished(),
    ensures
        BatchState::initial(paths, limit).run(events).outcomes.to_multiset() == expected_outcomes(
            paths,
            scripted_results(paths, responses, mode),
        ).to_multiset(),
{
    lemma_outcomes_independent_of_schedule(
        paths,
        scripted_results(paths, responses, mode),
        limit,
        events,
        limit,
        events,
    );
}

} // verus!
