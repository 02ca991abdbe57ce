//! The upload task: from what the transport returned for one file to the
//! result of that file.

use crate::config::OutputMode;
use crate::decimal::{decimal_text, format_unsigned};
use crate::json::parsed_json;
use crate::outcome::{OutcomeModel, ResultModel, TaskOutcome, TaskResult};
use crate::reply::{interpret, interpretation};
use vstd::prelude::*;
use vstd::string::StringExecFns;

verus! {

/// The status code of a reply that is interpreted. A reply with any other
/// code is an application error.
pub const STATUS_OK: u16 = 200;

/// One upload to perform: the file at `path`, the `sequence_id`-th of its
/// batch, counted from zero.
#[derive(Debug, Clone, PartialEq, Eq)]
pub struct UploadRequest {
    pub path: String,
    pub sequence_id: usize,
}

/// What the transport returned for one request.
#[derive(Debug, Clone, PartialEq, Eq)]
pub enum RawResponse {
    /// The server answered with this status code and this body.
    Reply { status: u16, body: String },
    /// No complete answer came; the text says why.
    TransportFailure(String),
}

/// Model of a [`RawResponse`].
pub enum ResponseModel {
    Reply { status: u16, body: Seq<char> },
    TransportFailure(Seq<char>),
}

impl View for RawResponse {
    type V = ResponseModel;

    open spec fn view(&self) -> ResponseModel {
        match self {
            RawResponse::Reply { status, body } => ResponseModel::Reply {
                status: *status,
                body: body@,
            },
            RawResponse::TransportFailure(message) => ResponseModel::TransportFailure(message@),
        }
    }
}

/// The models of a sequence of responses, in the same order.
pub open spec fn response_models(responses: Seq<RawResponse>) -> Seq<ResponseModel> {
    Seq::new(responses.len(), |i: int| responses[i]@)
}

/// The message for a reply whose status code is not `STATUS_OK`.
pub open spec fn unexpected_status_text(status: u16) -> Seq<char> {
    "unexpected status "@ + decimal_text(status as nat)
}

/// The result of the task for the file at `path` whose request returned
/// `response`. A transport failure is a transport error with the same
/// message, and the body is not looked at. A reply with another status
/// code than `STATUS_OK` is an application error that names the code. A
/// reply with `STATUS_OK` is interpreted: the text is a success, a failed
/// expectation an application error with its message.
pub open spec fn result_model(
    path: Seq<char>,
    response: ResponseModel,
    mode: OutputMode,
) -> ResultModel {
    match response {
        ResponseModel::TransportFailure(message) => ResultModel::TransportError(message),
        ResponseModel::Reply { status, body } => if status != STATUS_OK {
            ResultModel::ApplicationError(unexpected_status_text(status))
        } else {
            match interpretation(path, body, parsed_json(body), mode) {
                Ok(text) => ResultModel::Success(text),
                Err(error) => ResultModel::ApplicationError(error.message_text()),
            }
        },
    }
}

/// The results of the tasks of a batch, by sequence id, where the request
/// for each file returned the response at the same position.
pub open spec fn scripted_results(
    paths: Seq<Seq<char>>,
    responses: Seq<ResponseModel>,
    mode: OutputMode,
) -> Seq<ResultModel> {
    Seq::new(paths.len(), |id: int| result_model(paths[id], responses[id], mode))
}

/// Classifies what the transport returned for the file at `path`. Every
/// response gives a result: no failure of one file is anything but a
/// value.
pub fn task_result(path: &str, response: &RawResponse, mode: OutputMode) -> (result: TaskResult)
    ensures
        result@ == result_model(path@, response@, mode),
{
    match response {
        RawResponse::TransportFailure(message) => TaskResult::TransportError(message.clone()),
        RawResponse::Reply { status, body } => {
            if *status != STATUS_OK {
                let mut message: String = String::from_str("unexpected status ");
                let code: String = format_unsigned(*status as usize);
                message.append(code.as_str());
                TaskResult::ApplicationError(message)
            } else {
                match interpret(path, body.as_str(), mode) {
                    Ok(text) => TaskResult::Success(text),
                    Err(error) => TaskResult::ApplicationError(error.message()),
                }
            }
        },
    }
}

/// The outcome of `request`, whose upload returned `response`.
pub fn task_outcome(request: &UploadRequest, response: &RawResponse, mode: OutputMode) -> (outcome:
    TaskOutcome)
    ensures
        outcome@ == (OutcomeModel {
            path: request.path@,
            result: result_model(request.path@, response@, mode),
        }),
{
    TaskOutcome {
        path: request.path.clone(),
        result: task_result(request.path.as_str(), response, mode),
    }
}

} // verus!
