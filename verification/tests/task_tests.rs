use teknify::config::OutputMode;
use teknify::outcome::{TaskOutcome, TaskResult};
use teknify::task::{task_outcome, task_result, RawResponse, UploadRequest, STATUS_OK};

const REPLY: &str = "{\"result\":{\"url\":\"http://x/y\"}}";

fn reply(status: u16, body: &str) -> RawResponse {
    RawResponse::Reply { status, body: String::from(body) }
}

#[test]
fn ok_status_is_two_hundred() {
    assert_eq!(STATUS_OK, 200);
}

#[test]
fn transport_failure_is_a_transport_error() {
    let response = RawResponse::TransportFailure(String::from("connection refused"));
    for mode in [OutputMode::Json, OutputMode::NameAndUrl, OutputMode::UrlOnly] {
        assert_eq!(
            task_result("a.txt", &response, mode),
            TaskResult::TransportError(String::from("connection refused"))
        );
    }
}

#[test]
fn ok_reply_is_interpreted() {
    assert_eq!(
        task_result("a.txt", &reply(200, REPLY), OutputMode::NameAndUrl),
        TaskResult::Success(String::from("a.txt: http://x/y"))
    );
    assert_eq!(
        task_result("a.txt", &reply(200, REPLY), OutputMode::UrlOnly),
        TaskResult::Success(String::from("http://x/y"))
    );
    assert_eq!(
        task_result("a.txt", &reply(200, REPLY), OutputMode::Json),
        TaskResult::Success(String::from(REPLY))
    );
}

#[test]
fn ok_reply_with_a_wrong_body_is_an_application_error() {
    assert_eq!(
        task_result("a.txt", &reply(200, "{}"), OutputMode::UrlOnly),
        TaskResult::ApplicationError(String::from("Response did not contain a \"result\" section"))
    );
    assert_eq!(
        task_result("a.txt", &reply(200, "<html>"), OutputMode::NameAndUrl),
        TaskResult::ApplicationError(String::from("Syntax error: response is not valid JSON"))
    );
    assert_eq!(
        task_result("a.txt", &reply(200, ""), OutputMode::NameAndUrl),
        TaskResult::ApplicationError(String::from("Syntax error: response ended unexpectedly"))
    );
}

#[test]
fn other_status_is_an_application_error_that_names_the_code() {
    for (status, message) in [
        (404, "unexpected status 404"),
        (500, "unexpected status 500"),
        (201, "unexpected status 201"),
        (199, "unexpected status 199"),
        (0, "unexpected status 0"),
        (65535, "unexpected status 65535"),
    ] {
        for mode in [OutputMode::Json, OutputMode::NameAndUrl, OutputMode::UrlOnly] {
            assert_eq!(
                task_result("a.txt", &reply(status, REPLY), mode),
                TaskResult::ApplicationError(String::from(message))
            );
        }
    }
}

#[test]
fn outcome_carries_the_path_of_the_request() {
    let request = UploadRequest { path: String::from("dir/b.bin"), sequence_id: 4 };
    assert_eq!(
        task_outcome(&request, &reply(200, REPLY), OutputMode::NameAndUrl),
        TaskOutcome {
            path: String::from("dir/b.bin"),
            result: TaskResult::Success(String::from("dir/b.bin: http://x/y")),
        }
    );
    assert_eq!(
        task_outcome(&request, &reply(503, "busy"), OutputMode::NameAndUrl),
        TaskOutcome {
            path: String::from("dir/b.bin"),
            result: TaskResult::ApplicationError(String::from("unexpected status 503")),
        }
    );
}
