//! What can end a run before its time.

use vstd::prelude::*;
use crate::line::Stream;

verus! {

/// A thread of execution that works for a run.
#[derive(Clone, Copy, Debug, PartialEq, Eq, Structural)]
pub enum Worker {
    /// The reader of one output stream.
    Reader(Stream),
    /// The thread that starts the readers and waits for the child.
    Collector,
}

/// The reasons for which a run is given up. Each is final: nothing is tried
/// again. That the child itself failed is none of them.
#[derive(Clone, Copy, Debug, PartialEq, Eq, Structural)]
pub enum RunError {
    /// The child process could not be created.
    Spawn,
    /// The child was created without a handle for this stream.
    StreamUnavailable(Stream),
    /// Bytes on this stream were not valid text.
    Decode(Stream),
    /// A worker ended by a fault, not by finishing or failing in order.
    WorkerFailure(Worker),
    /// Reading, writing or waiting failed.
    Io,
}

/// The words in which an error is told.
pub open spec fn error_text(error: RunError) -> Seq<char> {
    match error {
        RunError::Spawn => "couldn't start the command"@,
        RunError::StreamUnavailable(Stream::Stderr) => "couldn't get stderr"@,
        RunError::StreamUnavailable(Stream::Stdout) => "couldn't get stdout"@,
        RunError::Decode(Stream::Stderr) => "stderr did not contain valid UTF-8"@,
        RunError::Decode(Stream::Stdout) => "stdout did not contain valid UTF-8"@,
        RunError::WorkerFailure(Worker::Reader(Stream::Stderr)) => "thread panicked while reading stderr"@,
        RunError::WorkerFailure(Worker::Reader(Stream::Stdout)) => "thread panicked while reading stdout"@,
        RunError::WorkerFailure(Worker::Collector) => "thread panicked"@,
        RunError::Io => "input or output failed"@,
    }
}

impl RunError {
    /// The words in which this error is told.
    pub fn message(&self) -> (out: String)
        ensures
            out@ == error_text(*self),
    {
        let words = match self {
            RunError::Spawn => "couldn't start the command",
            RunError::StreamUnavailable(Stream::Stderr) => "couldn't get stderr",
            RunError::StreamUnavailable(Stream::Stdout) => "couldn't get stdout",
            RunError::Decode(Stream::Stderr) => "stderr did not contain valid UTF-8",
            RunError::Decode(Stream::Stdout) => "stdout did not contain valid UTF-8",
            RunError::WorkerFailure(Worker::Reader(Stream::Stderr)) => "thread panicked while reading stderr",
            RunError::WorkerFailure(Worker::Reader(Stream::Stdout)) => "thread panicked while reading stdout",
            RunError::WorkerFailure(Worker::Collector) => "thread panicked",
            RunError::Io => "input or output failed",
        };
        words.to_owned()
    }
}

} // verus!
