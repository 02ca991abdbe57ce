use teknify::batch::TaskState;
use teknify::config::{Configuration, OutputMode};
use teknify::orchestrator::{run_batch, Orchestrator};
use teknify::outcome::{TaskOutcome, TaskResult};
use teknify::task::{task_result, RawResponse, UploadRequest};

fn names(count: usize) -> Vec<String> {
    (0..count).map(|i| format!("file{}.bin", i)).collect()
}

fn configuration(count: usize, limit: usize, mode: OutputMode) -> Configuration {
    Configuration::new(names(count), limit, false, mode).ok().unwrap()
}

fn ok_reply(url: &str) -> RawResponse {
    RawResponse::Reply {
        status: 200,
        body: format!("{{\"result\":{{\"url\":\"{}\"}}}}", url),
    }
}

fn canned(count: usize) -> Vec<RawResponse> {
    (0..count)
        .map(|i| match i % 3 {
            0 => ok_reply(&format!("http://x/{}", i)),
            1 => RawResponse::TransportFailure(format!("failure {}", i)),
            _ => RawResponse::Reply { status: 500, body: String::from("oops") },
        })
        .collect()
}

/// Runs a batch by hand: starts what can start, then completes the running
/// task at the position that `pick` chooses among those running.
fn drive(
    count: usize,
    limit: usize,
    responses: &[RawResponse],
    pick: fn(usize) -> usize,
) -> (Vec<TaskOutcome>, Vec<usize>, usize) {
    let mut orchestrator = Orchestrator::new(configuration(count, limit, OutputMode::UrlOnly));
    let mut running: Vec<UploadRequest> = Vec::new();
    let mut most_running = 0;
    while !orchestrator.is_finished() {
        while let Some(request) = orchestrator.start_next() {
            running.push(request);
        }
        assert_eq!(orchestrator.running_count(), running.len());
        assert!(orchestrator.running_count() <= limit);
        most_running = most_running.max(orchestrator.running_count());
        let request = running.remove(pick(running.len()));
        let result = task_result(&request.path, &responses[request.sequence_id], OutputMode::UrlOnly);
        assert!(orchestrator.complete(request.sequence_id, result));
    }
    let order = orchestrator.completion_order().clone();
    (orchestrator.into_outcomes(), order, most_running)
}

fn oldest(_running: usize) -> usize {
    0
}

fn newest(running: usize) -> usize {
    running - 1
}

fn middle(running: usize) -> usize {
    running / 2
}

fn sorted(mut outcomes: Vec<TaskOutcome>) -> Vec<TaskOutcome> {
    outcomes.sort_by(|a, b| format!("{:?}", a).cmp(&format!("{:?}", b)));
    outcomes
}

#[test]
fn empty_batch_is_finished_at_once() {
    let mut orchestrator = Orchestrator::new(configuration(0, 4, OutputMode::Json));
    assert!(orchestrator.is_finished());
    assert_eq!(orchestrator.start_next(), None);
    assert_eq!(orchestrator.file_count(), 0);
    assert!(orchestrator.into_outcomes().is_empty());
}

#[test]
fn empty_batch_runs_to_no_outcomes() {
    let outcomes = run_batch(configuration(0, 1, OutputMode::Json), &Vec::new());
    assert_eq!(outcomes, Some(Vec::new()));
}

#[test]
fn batch_gives_one_outcome_per_file() {
    for count in [1, 2, 3, 7, 20] {
        for limit in [1, 2, 3, 50] {
            let responses = canned(count);
            let outcomes =
                run_batch(configuration(count, limit, OutputMode::UrlOnly), &responses).unwrap();
            assert_eq!(outcomes.len(), count);
            for (id, outcome) in outcomes.iter().enumerate() {
                assert_eq!(outcome.path, format!("file{}.bin", id));
                assert_eq!(
                    outcome.result,
                    task_result(&outcome.path, &responses[id], OutputMode::UrlOnly)
                );
            }
        }
    }
}

#[test]
fn batch_needs_one_response_per_file() {
    assert_eq!(run_batch(configuration(3, 2, OutputMode::UrlOnly), &canned(2)), None);
    assert_eq!(run_batch(configuration(3, 2, OutputMode::UrlOnly), &canned(4)), None);
    assert_eq!(run_batch(configuration(0, 2, OutputMode::UrlOnly), &canned(1)), None);
}

#[test]
fn files_with_the_same_path_each_get_an_outcome() {
    let files = vec![String::from("same"), String::from("same")];
    let configuration = Configuration::new(files, 2, false, OutputMode::NameAndUrl).ok().unwrap();
    let responses = vec![ok_reply("http://x/1"), ok_reply("http://x/2")];
    let outcomes = run_batch(configuration, &responses).unwrap();
    assert_eq!(
        outcomes,
        vec![
            TaskOutcome {
                path: String::from("same"),
                result: TaskResult::Success(String::from("same: http://x/1")),
            },
            TaskOutcome {
                path: String::from("same"),
                result: TaskResult::Success(String::from("same: http://x/2")),
            },
        ]
    );
}

#[test]
fn three_files_two_slots_one_transport_failure() {
    let responses = vec![
        ok_reply("http://x/1"),
        RawResponse::TransportFailure(String::from("connection reset")),
        ok_reply("http://x/3"),
    ];
    let outcomes = run_batch(configuration(3, 2, OutputMode::UrlOnly), &responses).unwrap();
    assert_eq!(
        outcomes,
        vec![
            TaskOutcome {
                path: String::from("file0.bin"),
                result: TaskResult::Success(String::from("http://x/1")),
            },
            TaskOutcome {
                path: String::from("file1.bin"),
                result: TaskResult::TransportError(String::from("connection reset")),
            },
            TaskOutcome {
                path: String::from("file2.bin"),
                result: TaskResult::Success(String::from("http://x/3")),
            },
        ]
    );
    let successes = outcomes.iter().filter(|o| matches!(o.result, TaskResult::Success(_))).count();
    let failures =
        outcomes.iter().filter(|o| matches!(o.result, TaskResult::TransportError(_))).count();
    assert_eq!((successes, failures), (2, 1));
}

#[test]
fn three_files_two_slots_by_hand() {
    let mut orchestrator = Orchestrator::new(configuration(3, 2, OutputMode::UrlOnly));
    let first = orchestrator.start_next().unwrap();
    let second = orchestrator.start_next().unwrap();
    assert_eq!(first, UploadRequest { path: String::from("file0.bin"), sequence_id: 0 });
    assert_eq!(second, UploadRequest { path: String::from("file1.bin"), sequence_id: 1 });
    assert_eq!(orchestrator.start_next(), None);
    assert_eq!(orchestrator.running_count(), 2);
    assert_eq!(orchestrator.pending_count(), 1);

    let failure = TaskResult::TransportError(String::from("connection reset"));
    assert!(orchestrator.complete(1, failure.clone()));
    assert_eq!(orchestrator.running_count(), 1);
    assert!(!orchestrator.is_finished());

    let third = orchestrator.start_next().unwrap();
    assert_eq!(third, UploadRequest { path: String::from("file2.bin"), sequence_id: 2 });
    assert_eq!(orchestrator.start_next(), None);
    assert!(orchestrator.complete(2, TaskResult::Success(String::from("http://x/3"))));
    assert!(orchestrator.complete(0, TaskResult::Success(String::from("http://x/1"))));
    assert!(orchestrator.is_finished());
    assert_eq!(orchestrator.completed_count(), 3);
    assert_eq!(orchestrator.completion_order(), &vec![1, 2, 0]);
    assert_eq!(
        orchestrator.into_outcomes(),
        vec![
            TaskOutcome { path: String::from("file1.bin"), result: failure },
            TaskOutcome {
                path: String::from("file2.bin"),
                result: TaskResult::Success(String::from("http://x/3")),
            },
            TaskOutcome {
                path: String::from("file0.bin"),
                result: TaskResult::Success(String::from("http://x/1")),
            },
        ]
    );
}

#[test]
fn running_tasks_never_exceed_the_limit() {
    for limit in [1, 2, 3, 5, 9] {
        for pick in [oldest as fn(usize) -> usize, newest, middle] {
            let (_, _, most_running) = drive(8, limit, &canned(8), pick);
            assert_eq!(most_running, limit.min(8));
        }
    }
}

#[test]
fn a_full_pool_starts_nothing() {
    let mut orchestrator = Orchestrator::new(configuration(5, 1, OutputMode::Json));
    assert!(orchestrator.start_next().is_some());
    for _ in 0..3 {
        assert_eq!(orchestrator.start_next(), None);
        assert_eq!(orchestrator.running_count(), 1);
        assert_eq!(orchestrator.pending_count(), 4);
    }
}

#[test]
fn outcomes_do_not_depend_on_the_schedule() {
    let responses = canned(9);
    let (reference, _, _) = drive(9, 1, &responses, oldest);
    assert_eq!(reference.len(), 9);
    for limit in [1, 2, 4, 9, 30] {
        for pick in [oldest as fn(usize) -> usize, newest, middle] {
            let (outcomes, order, _) = drive(9, limit, &responses, pick);
            assert_eq!(sorted(outcomes.clone()), sorted(reference.clone()));
            let mut ids = order.clone();
            ids.sort();
            assert_eq!(ids, (0..9).collect::<Vec<usize>>());
            for (position, id) in order.iter().enumerate() {
                assert_eq!(outcomes[position].path, format!("file{}.bin", id));
            }
        }
    }
}

#[test]
fn running_the_same_batch_twice_gives_the_same_outcomes() {
    let responses = canned(6);
    let first = run_batch(configuration(6, 2, OutputMode::NameAndUrl), &responses);
    let second = run_batch(configuration(6, 2, OutputMode::NameAndUrl), &responses);
    assert_eq!(first, second);
    let other_limit = run_batch(configuration(6, 5, OutputMode::NameAndUrl), &responses);
    assert_eq!(first, other_limit);
}

#[test]
fn completion_order_may_differ_from_input_order() {
    let (outcomes, order, _) = drive(4, 4, &canned(4), newest);
    assert_eq!(order, vec![3, 2, 1, 0]);
    assert_eq!(outcomes[0].path, "file3.bin");
    assert_eq!(outcomes[3].path, "file0.bin");
}

#[test]
fn a_task_reports_only_once() {
    let mut orchestrator = Orchestrator::new(configuration(2, 2, OutputMode::Json));
    orchestrator.start_next().unwrap();
    orchestrator.start_next().unwrap();
    assert!(orchestrator.complete(0, TaskResult::Success(String::from("first"))));
    assert!(!orchestrator.complete(0, TaskResult::Success(String::from("second"))));
    assert_eq!(orchestrator.completed_count(), 1);
    assert_eq!(
        orchestrator.outcomes(),
        &vec![TaskOutcome {
            path: String::from("file0.bin"),
            result: TaskResult::Success(String::from("first")),
        }]
    );
}

#[test]
fn a_task_that_is_not_running_cannot_report() {
    let mut orchestrator = Orchestrator::new(configuration(3, 1, OutputMode::Json));
    assert!(!orchestrator.complete(0, TaskResult::Success(String::from("early"))));
    orchestrator.start_next().unwrap();
    assert!(!orchestrator.complete(1, TaskResult::Success(String::from("pending"))));
    assert!(!orchestrator.complete(3, TaskResult::Success(String::from("beyond"))));
    assert!(!orchestrator.complete(usize::MAX, TaskResult::Success(String::from("far"))));
    assert_eq!(orchestrator.completed_count(), 0);
    assert_eq!(orchestrator.running_count(), 1);
    assert!(orchestrator.outcomes().is_empty());
}

#[test]
fn every_file_goes_from_pending_to_running_to_completed() {
    let mut orchestrator = Orchestrator::new(configuration(2, 1, OutputMode::Json));
    assert_eq!(orchestrator.state_of(0), TaskState::Pending);
    assert_eq!(orchestrator.state_of(1), TaskState::Pending);
    orchestrator.start_next().unwrap();
    assert_eq!(orchestrator.state_of(0), TaskState::Running);
    assert_eq!(orchestrator.state_of(1), TaskState::Pending);
    assert!(orchestrator.complete(0, TaskResult::TransportError(String::from("down"))));
    assert_eq!(orchestrator.state_of(0), TaskState::Completed);
    assert_eq!(orchestrator.state_of(1), TaskState::Pending);
    orchestrator.start_next().unwrap();
    assert_eq!(orchestrator.state_of(1), TaskState::Running);
    assert!(orchestrator.complete(1, TaskResult::Success(String::from("up"))));
    assert_eq!(orchestrator.state_of(1), TaskState::Completed);
    assert_eq!(orchestrator.state_of(2), TaskState::Pending);
    assert!(orchestrator.is_finished());
}

#[test]
fn oldest_running_is_the_first_started() {
    let mut orchestrator = Orchestrator::new(configuration(3, 3, OutputMode::Json));
    assert_eq!(orchestrator.oldest_running(), None);
    orchestrator.start_next().unwrap();
    orchestrator.start_next().unwrap();
    orchestrator.start_next().unwrap();
    assert_eq!(orchestrator.oldest_running(), Some(0));
    assert!(orchestrator.complete(0, TaskResult::Success(String::new())));
    assert_eq!(orchestrator.oldest_running(), Some(1));
    assert!(orchestrator.complete(2, TaskResult::Success(String::new())));
    assert_eq!(orchestrator.oldest_running(), Some(1));
    assert!(orchestrator.complete(1, TaskResult::Success(String::new())));
    assert_eq!(orchestrator.oldest_running(), None);
}

#[test]
fn orchestrator_keeps_its_configuration() {
    let orchestrator = Orchestrator::new(configuration(2, 6, OutputMode::UrlOnly));
    assert_eq!(orchestrator.configuration().concurrency(), 6);
    assert_eq!(orchestrator.configuration().files(), &names(2));
    assert_eq!(orchestrator.configuration().output_mode(), OutputMode::UrlOnly);
    assert_eq!(orchestrator.file_count(), 2);
    assert_eq!(orchestrator.pending_count(), 2);
}

#[test]
fn a_failure_does_not_stop_the_other_files() {
    let responses = vec![
        RawResponse::TransportFailure(String::from("no route")),
        RawResponse::Reply { status: 200, body: String::from("not json") },
        RawResponse::Reply { status: 418, body: String::new() },
        ok_reply("http://x/ok"),
    ];
    let outcomes = run_batch(configuration(4, 1, OutputMode::UrlOnly), &responses).unwrap();
    let results: Vec<TaskResult> = outcomes.into_iter().map(|outcome| outcome.result).collect();
    assert_eq!(
        results,
        vec![
            TaskResult::TransportError(String::from("no route")),
            TaskResult::ApplicationError(String::from("Syntax error: response is not valid JSON")),
            TaskResult::ApplicationError(String::from("unexpected status 418")),
            TaskResult::Success(String::from("http://x/ok")),
        ]
    );
}
