//! One captured line of output and the stream it came from.

use vstd::prelude::*;

verus! {

/// The output stream a line was read from.
#[derive(Clone, Copy, Debug, PartialEq, Eq, Structural)]
pub enum Stream {
    /// Standard output, the primary stream.
    Stdout,
    /// Standard error, the secondary stream.
    Stderr,
}

/// A captured line: its text without the line ending, and its origin.
#[derive(Debug)]
pub struct Line {
    pub line: String,
    pub stream: Stream,
}

/// What a `Line` stands for in contracts.
pub struct LineView {
    pub text: Seq<char>,
    pub stream: Stream,
}

impl View for Line {
    type V = LineView;

    open spec fn view(&self) -> LineView {
        LineView { text: self.line@, stream: self.stream }
    }
}

impl Clone for Line {
    fn clone(&self) -> (copy: Self)
        ensures
            copy@ == self@,
    {
        Line { line: self.line.clone(), stream: self.stream }
    }
}

/// The views of a run of lines, in order.
pub open spec fn views(lines: Seq<Line>) -> Seq<LineView> {
    lines.map_values(|l: Line| l@)
}

} // verus!
