//! The decisions of the stream merger: whether both streams of the child can
//! be read, and what a run has come to once the child has been waited for and
//! both readers have ended.

use vstd::prelude::*;
use crate::error::{RunError, Worker};
use crate::line::Stream;
use crate::outcome::ChildResult;

verus! {

/// How the reader of one stream ended.
#[derive(Clone, Copy, Debug, PartialEq, Eq, Structural)]
pub enum ReaderEnd {
    /// It read its stream to the end.
    Finished,
    /// It stopped at an error and passed it on.
    Failed(RunError),
    /// It ended by a fault.
    Panicked,
}

/// The error that the end of a stream's reader stands for, if it is one.
pub open spec fn reader_error(stream: Stream, end: ReaderEnd) -> Option<RunError> {
    match end {
        ReaderEnd::Finished => None,
        ReaderEnd::Failed(error) => Some(error),
        ReaderEnd::Panicked => Some(RunError::WorkerFailure(Worker::Reader(stream))),
    }
}

/// Whether the streams can be taken from the child: both must be there, and
/// a missing standard error is told before a missing standard output.
pub open spec fn streams_taken(has_stdout: bool, has_stderr: bool) -> Result<(), RunError> {
    if !has_stderr {
        Err(RunError::StreamUnavailable(Stream::Stderr))
    } else if !has_stdout {
        Err(RunError::StreamUnavailable(Stream::Stdout))
    } else {
        Ok(())
    }
}

/// What the merger returns. The child's result counts only where the wait
/// and both readers went well. Else the first error is returned, in this
/// order: the wait's, that of the reader of standard error, that of the
/// reader of standard output.
pub open spec fn collected(
    waited: Result<ChildResult, RunError>,
    stderr_end: ReaderEnd,
    stdout_end: ReaderEnd,
) -> Result<ChildResult, RunError> {
    match waited {
        Err(error) => Err(error),
        Ok(result) => match reader_error(Stream::Stderr, stderr_end) {
            Some(error) => Err(error),
            None => match reader_error(Stream::Stdout, stdout_end) {
                Some(error) => Err(error),
                None => Ok(result),
            },
        },
    }
}

/// The merger returns a result exactly where nothing went wrong, and it is
/// then the result of the wait.
pub proof fn lemma_collected_result(
    waited: Result<ChildResult, RunError>,
    stderr_end: ReaderEnd,
    stdout_end: ReaderEnd,
)
    ensures
        collected(waited, stderr_end, stdout_end) is Ok <==> waited is Ok && stderr_end
            == ReaderEnd::Finished && stdout_end == ReaderEnd::Finished,
        collected(waited, stderr_end, stdout_end) is Ok ==> collected(
            waited,
            stderr_end,
            stdout_end,
        ) == waited,
        stderr_end == ReaderEnd::Panicked && waited is Ok ==> collected(
            waited,
            stderr_end,
            stdout_end,
        ) == Err::<ChildResult, RunError>(
            RunError::WorkerFailure(Worker::Reader(Stream::Stderr)),
        ),
        stdout_end == ReaderEnd::Panicked && waited is Ok && stderr_end == ReaderEnd::Finished
            ==> collected(waited, stderr_end, stdout_end) == Err::<ChildResult, RunError>(
            RunError::WorkerFailure(Worker::Reader(Stream::Stdout)),
        ),
{
}

/// Checks that the child has handed out both of its streams.
pub fn take_streams(has_stdout: bool, has_stderr: bool) -> (res: Result<(), RunError>)
    ensures
        res == streams_taken(has_stdout, has_stderr),
{
    if !has_stderr {
        Err(RunError::StreamUnavailable(Stream::Stderr))
    } else if !has_stdout {
        Err(RunError::StreamUnavailable(Stream::Stdout))
    } else {
        Ok(())
    }
}

fn error_of(stream: Stream, end: ReaderEnd) -> (error: Option<RunError>)
    ensures
        error == reader_error(stream, end),
{
    match end {
        ReaderEnd::Finished => None,
        ReaderEnd::Failed(error) => Some(error),
        ReaderEnd::Panicked => Some(RunError::WorkerFailure(Worker::Reader(stream))),
    }
}

/// Settles what the merger returns from how the wait for the child and the
/// two readers ended.
pub fn collect(
    waited: Result<ChildResult, RunError>,
    stderr_end: ReaderEnd,
    stdout_end: ReaderEnd,
) -> (res: Result<ChildResult, RunError>)
    ensures
        res == collected(waited, stderr_end, stdout_end),
{
    let result = match waited {
        Ok(result) => result,
        Err(error) => {
            return Err(error);
        },
    };
    if let Some(error) = error_of(Stream::Stderr, stderr_end) {
        return Err(error);
    }
    if let Some(error) = error_of(Stream::Stdout, stdout_end) {
        return Err(error);
    }
    Ok(result)
}

} // verus!
