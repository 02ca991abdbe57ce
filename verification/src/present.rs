//! The output presenter: which line is written for an outcome, and to
//! which stream. Writing the line is left to the caller, one write per
//! line.

use crate::decimal::{decimal_text, format_unsigned};
use crate::outcome::{OutcomeModel, ResultModel, TaskOutcome, TaskResult};
use crate::task::UploadRequest;
use vstd::prelude::*;
use vstd::string::StringExecFns;

verus! {

/// The stream that a line goes to.
#[derive(Debug, Clone, Copy, PartialEq, Eq, Structural)]
pub enum OutputStream {
    /// Standard output: results.
    Stdout,
    /// Standard error: errors and progress.
    Stderr,
}

/// One line of output, without its line end.
#[derive(Debug, Clone, PartialEq, Eq)]
pub struct OutputLine {
    pub stream: OutputStream,
    pub text: String,
}

/// Model of an [`OutputLine`].
pub struct LineModel {
    pub stream: OutputStream,
    pub text: Seq<char>,
}

impl View for OutputLine {
    type V = LineModel;

    open spec fn view(&self) -> LineModel {
        LineModel { stream: self.stream, text: self.text@ }
    }
}

/// The text of the line that reports the error `message` for the file at
/// `path`.
pub open spec fn error_text(path: Seq<char>, message: Seq<char>) -> Seq<char> {
    "Error processing "@ + path + ": "@ + message
}

/// The line for an outcome: the text of a success on standard output, an
/// error of either kind on standard error, with the path of its file.
pub open spec fn rendered(outcome: OutcomeModel) -> LineModel {
    match outcome.result {
        ResultModel::Success(text) => LineModel { stream: OutputStream::Stdout, text },
        ResultModel::ApplicationError(message) => LineModel {
            stream: OutputStream::Stderr,
            text: error_text(outcome.path, message),
        },
        ResultModel::TransportError(message) => LineModel {
            stream: OutputStream::Stderr,
            text: error_text(outcome.path, message),
        },
    }
}

/// Makes the line that reports an error for the file at `path`.
fn error_line(path: &str, message: &str) -> (line: OutputLine)
    ensures
        line@ == (LineModel { stream: OutputStream::Stderr, text: error_text(path@, message@) }),
{
    let mut text: String = String::from_str("Error processing ");
    text.append(path);
    text.append(": ");
    text.append(message);
    OutputLine { stream: OutputStream::Stderr, text }
}

/// Renders an outcome as the line to write for it.
pub fn render(outcome: &TaskOutcome) -> (line: OutputLine)
    ensures
        line@ == rendered(outcome@),
{
    match &outcome.result {
        TaskResult::Success(text) => OutputLine { stream: OutputStream::Stdout, text: text.clone() },
        TaskResult::ApplicationError(message) => error_line(
            outcome.path.as_str(),
            message.as_str(),
        ),
        TaskResult::TransportError(message) => error_line(outcome.path.as_str(), message.as_str()),
    }
}

/// The line that announces the start of a task, where progress is
/// reported: on standard error, `Uploading` and the path.
pub open spec fn progress(path: Seq<char>, verbose: bool) -> Option<LineModel> {
    if verbose {
        Some(LineModel { stream: OutputStream::Stderr, text: "Uploading "@ + path })
    } else {
        None
    }
}

/// The line to write when the task of `request` starts, if any.
pub fn progress_line(request: &UploadRequest, verbose: bool) -> (line: Option<OutputLine>)
    ensures
        line is Some == progress(request.path@, verbose) is Some,
        line matches Some(written) ==> progress(request.path@, verbose) == Some(written@),
{
    if verbose {
        let mut text: String = String::from_str("Uploading ");
        text.append(request.path.as_str());
        Some(OutputLine { stream: OutputStream::Stderr, text })
    } else {
        None
    }
}

/// The line that announces the limit of a batch, where progress is
/// reported: on standard output, `Concurrent uploads:` and the limit.
pub open spec fn limit_notice(limit: nat, verbose: bool) -> Option<LineModel> {
    if verbose {
        Some(
            LineModel {
                stream: OutputStream::Stdout,
                text: "Concurrent uploads: "@ + decimal_text(limit),
            },
        )
    } else {
        None
    }
}

/// The line to write before a batch with this limit starts, if any.
pub fn limit_line(limit: usize, verbose: bool) -> (line: Option<OutputLine>)
    ensures
        line is Some == limit_notice(limit as nat, verbose) is Some,
        line matches Some(written) ==> limit_notice(limit as nat, verbose) == Some(written@),
{
    if verbose {
        let mut text: String = String::from_str("Concurrent uploads: ");
        let number: String = format_unsigned(limit);
        text.append(number.as_str());
        Some(OutputLine { stream: OutputStream::Stdout, text })
    } else {
        None
    }
}

} // verus!
