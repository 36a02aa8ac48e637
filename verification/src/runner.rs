//! The runner: the course of one run, from before the child exists to the
//! report of how it ended.
//!
//! The runner does no work outside itself. It is told what has happened, one
//! event at a time, and answers with what is to be done next. Whoever drives
//! it creates the child, reads its streams, shows the live indicator and
//! writes the dump.

use vstd::prelude::*;
use crate::display::{_build_msg, lemma_log_holds_arrivals, progress, State, StateView};
use crate::dump::dump_bytes;
use crate::error::{RunError, Worker};
use crate::line::{Line, LineView};
use crate::outcome::{location_text, report, verdict_text, ChildResult, Report};
use crate::paint::is_painting;

verus! {

/// Where a run stands.
#[derive(Clone, Copy, Debug, PartialEq, Eq, Structural)]
pub enum Phase {
    /// The child has not been created.
    Idle,
    /// The child runs; its streams are not read yet.
    Started,
    /// The streams are read, and their lines arrive.
    Draining,
    /// The child has ended with this result; the log is being written out.
    Finalizing(ChildResult),
    /// The run is over and reported.
    Done(ChildResult),
    /// The run was given up for this reason.
    Failed(RunError),
}

/// How the thread that ran the merger ended.
#[derive(Clone, Copy, Debug)]
pub enum CollectorEnd {
    /// It returned what the merger returned.
    Finished(Result<ChildResult, RunError>),
    /// It ended by a fault.
    Panicked,
}

/// What can happen in a run.
#[derive(Debug)]
pub enum Event {
    /// The child process was created, with both streams piped.
    Spawned,
    /// The child process could not be created.
    SpawnFailed,
    /// The merger has been started on the child's streams.
    HandedOff,
    /// A line has arrived.
    Delivered(Line),
    /// No more lines will arrive, and the merger's thread has ended.
    Closed(CollectorEnd),
    /// The dump was written to a new file with this path.
    Dumped(String),
    /// The dump could not be written.
    DumpFailed,
}

/// What a run returns to its caller.
#[derive(Debug)]
pub struct RunOutcome {
    /// How the child ended.
    pub result: ChildResult,
    /// The path of the file that holds the full output.
    pub log_file_path: String,
}

/// What is to be done next.
#[derive(Debug)]
pub enum Action {
    /// Start the merger on the child's streams.
    Collect,
    /// Wait for the next line.
    Receive,
    /// Give the live indicator this message, then wait for the next line.
    Show(String),
    /// Stop and clear the live indicator, then write these bytes to a new
    /// temporary file that is kept.
    Dump(Vec<u8>),
    /// Print the two lines of the report and return the outcome.
    Report(Report, RunOutcome),
    /// Stop and clear the live indicator and give the run up with this error.
    Abort(RunError),
    /// Nothing: the event has no place where the run stands, and nothing has
    /// changed.
    Refuse,
}

/// Where a run stands after `event`, having stood at `phase`. An event that
/// has no place at `phase` leaves it as it is.
pub open spec fn next_phase(phase: Phase, event: Event) -> Phase {
    match (phase, event) {
        (Phase::Idle, Event::Spawned) => Phase::Started,
        (Phase::Idle, Event::SpawnFailed) => Phase::Failed(RunError::Spawn),
        (Phase::Started, Event::HandedOff) => Phase::Draining,
        (Phase::Draining, Event::Delivered(_)) => Phase::Draining,
        (Phase::Draining, Event::Closed(CollectorEnd::Finished(Ok(result)))) => Phase::Finalizing(
            result,
        ),
        (Phase::Draining, Event::Closed(CollectorEnd::Finished(Err(error)))) => Phase::Failed(
            error,
        ),
        (Phase::Draining, Event::Closed(CollectorEnd::Panicked)) => Phase::Failed(
            RunError::WorkerFailure(Worker::Collector),
        ),
        (Phase::Finalizing(result), Event::Dumped(_)) => Phase::Done(result),
        (Phase::Finalizing(_), Event::DumpFailed) => Phase::Failed(RunError::Io),
        _ => phase,
    }
}

/// The event has a place at `phase`.
pub open spec fn in_place(phase: Phase, event: Event) -> bool {
    match (phase, event) {
        (Phase::Idle, Event::Spawned) => true,
        (Phase::Idle, Event::SpawnFailed) => true,
        (Phase::Started, Event::HandedOff) => true,
        (Phase::Draining, Event::Delivered(_)) => true,
        (Phase::Draining, Event::Closed(_)) => true,
        (Phase::Finalizing(_), Event::Dumped(_)) => true,
        (Phase::Finalizing(_), Event::DumpFailed) => true,
        _ => false,
    }
}

/// The display after `event`: a line that arrives while the streams are read
/// is added to the log, and nothing else changes it.
pub open spec fn next_display(phase: Phase, event: Event, display: StateView) -> StateView {
    match (phase, event) {
        (Phase::Draining, Event::Delivered(line)) => display.with_line(line@),
        _ => display,
    }
}

/// `action` is the answer to `event` at `phase`, where `display` is the
/// display after the event.
pub open spec fn answers(phase: Phase, event: Event, display: StateView, action: Action) -> bool {
    if !in_place(phase, event) {
        action is Refuse
    } else {
        match next_phase(phase, event) {
            Phase::Idle => false,
            Phase::Started => action is Collect,
            Phase::Draining => match event {
                Event::Delivered(_) => action matches Action::Show(msg) && display.shows(msg@),
                _ => action is Receive,
            },
            Phase::Finalizing(_) => action matches Action::Dump(bytes) && bytes@ == dump_bytes(
                display.log,
            ),
            Phase::Done(result) => {
                &&& event matches Event::Dumped(path)
                &&& action matches Action::Report(report, outcome)
                &&& outcome.result == result
                &&& outcome.log_file_path@ == path@
                &&& is_painting(report.location@, location_text(path@), result.tone())
                &&& is_painting(report.verdict@, verdict_text(result), result.tone())
            },
            Phase::Failed(error) => action matches Action::Abort(told) && told == error,
        }
    }
}

/// A run that is over stays as it is, whatever happens: no event has a place
/// after it was reported or given up.
pub proof fn lemma_over_is_final(phase: Phase, event: Event)
    requires
        phase is Done || phase is Failed,
    ensures
        !in_place(phase, event),
        next_phase(phase, event) == phase,
{
}

/// A run moves forward only: an event that has a place leads from each phase
/// to the one after it, or to failure; only a line that arrives leaves the
/// run where it stood, which is where the streams are read. No run is
/// reported that was not finalized with the same result.
pub proof fn lemma_course(phase: Phase, event: Event)
    requires
        in_place(phase, event),
    ensures
        !(next_phase(phase, event) is Idle),
        next_phase(phase, event) is Started ==> phase is Idle,
        next_phase(phase, event) is Draining ==> phase is Started || (phase is Draining
            && event is Delivered),
        next_phase(phase, event) is Finalizing ==> phase is Draining && event is Closed,
        next_phase(phase, event) matches Phase::Done(result) ==> phase == Phase::Finalizing(result)
            && event is Dumped,
        next_phase(phase, event) == phase ==> phase is Draining && event is Delivered,
{
}

/// Where a run stands after a course of events.
pub open spec fn phase_after(phase: Phase, events: Seq<Event>) -> Phase
    decreases events.len(),
{
    if events.len() == 0 {
        phase
    } else {
        next_phase(phase_after(phase, events.drop_last()), events.last())
    }
}

/// What the display of a run holds after a course of events.
pub open spec fn display_after(phase: Phase, display: StateView, events: Seq<Event>) -> StateView
    decreases events.len(),
{
    if events.len() == 0 {
        display
    } else {
        next_display(
            phase_after(phase, events.drop_last()),
            events.last(),
            display_after(phase, display, events.drop_last()),
        )
    }
}

/// The lines that a course of events has brought: those that arrived while
/// the streams were read, in the order of arrival.
pub open spec fn taken(phase: Phase, events: Seq<Event>) -> Seq<LineView>
    decreases events.len(),
{
    if events.len() == 0 {
        Seq::empty()
    } else {
        let earlier = taken(phase, events.drop_last());
        match (phase_after(phase, events.drop_last()), events.last()) {
            (Phase::Draining, Event::Delivered(line)) => earlier.push(line@),
            _ => earlier,
        }
    }
}

/// Whatever happens in a run, its log is the log of before with the lines
/// that the run has brought behind it, in the order of arrival: none is
/// lost, none comes twice, and nothing else is in it. The measures of the
/// box stay as they were.
pub proof fn lemma_log_is_what_was_taken(phase: Phase, display: StateView, events: Seq<Event>)
    ensures
        display_after(phase, display, events) == display.after(taken(phase, events)),
        display_after(phase, display, events).log == display.log + taken(phase, events),
        display_after(phase, display, events).max_lines == display.max_lines,
        display_after(phase, display, events).term_lines == display.term_lines,
        display_after(phase, display, events).term_columns == display.term_columns,
    decreases events.len(),
{
    if events.len() > 0 {
        let earlier = taken(phase, events.drop_last());
        lemma_log_is_what_was_taken(phase, display, events.drop_last());
        if let (Phase::Draining, Event::Delivered(line)) = (
            phase_after(phase, events.drop_last()),
            events.last(),
        ) {
            assert(earlier.push(line@).drop_last() =~= earlier);
        }
    }
    lemma_log_holds_arrivals(display, taken(phase, events));
}

/// Once a run is over, nothing that happens changes where it stands, and no
/// line is taken any more.
pub proof fn lemma_over_stays_over(phase: Phase, events: Seq<Event>)
    requires
        phase is Done || phase is Failed,
    ensures
        phase_after(phase, events) == phase,
        taken(phase, events) == Seq::<LineView>::empty(),
    decreases events.len(),
{
    if events.len() > 0 {
        lemma_over_stays_over(phase, events.drop_last());
    }
}

/// The runner of one run.
#[derive(Debug)]
pub struct Runner {
    phase: Phase,
    display: State,
}

impl Runner {
    /// Where the run stands.
    pub closed spec fn phase(&self) -> Phase {
        self.phase
    }

    /// The display of the run.
    pub closed spec fn display(&self) -> StateView {
        self.display@
    }

    /// A runner for a terminal of the given size. The child is still to be
    /// created, and the log is empty.
    pub fn new(term_lines: u16, term_columns: u16) -> (runner: Runner)
        ensures
            runner.phase() == Phase::Idle,
            runner.display() == StateView::fresh(term_lines as nat, term_columns as nat),
    {
        Runner { phase: Phase::Idle, display: State::new(term_lines, term_columns) }
    }

    /// Where the run stands.
    pub fn current(&self) -> (phase: Phase)
        ensures
            phase == self.phase(),
    {
        self.phase
    }

    /// The display of the run: its log and the measures of its box.
    pub fn state(&self) -> (state: &State)
        ensures
            state@ == self.display(),
    {
        &self.display
    }

    /// The template of the live indicator.
    pub fn template(&self) -> (out: String)
        ensures
            out@ == self.display().template(),
    {
        self.display.template()
    }

    /// The box as it is now: the message for the live indicator.
    pub fn message(&self) -> (msg: String)
        ensures
            self.display().shows(msg@),
    {
        _build_msg(&self.display)
    }

    /// Takes an event and answers with what is to be done next.
    pub fn step(&mut self, event: Event) -> (action: Action)
        ensures
            final(self).phase() == next_phase(old(self).phase(), event),
            final(self).display() == next_display(old(self).phase(), event, old(self).display()),
            answers(old(self).phase(), event, final(self).display(), action),
    {
        match (self.phase, event) {
            (Phase::Idle, Event::Spawned) => {
                self.phase = Phase::Started;
                Action::Collect
            },
            (Phase::Idle, Event::SpawnFailed) => {
                self.phase = Phase::Failed(RunError::Spawn);
                Action::Abort(RunError::Spawn)
            },
            (Phase::Started, Event::HandedOff) => {
                self.phase = Phase::Draining;
                Action::Receive
            },
            (Phase::Draining, Event::Delivered(line)) => {
                let msg = progress(&mut self.display, &line);
                Action::Show(msg)
            },
            (Phase::Draining, Event::Closed(CollectorEnd::Finished(Ok(result)))) => {
                self.phase = Phase::Finalizing(result);
                Action::Dump(self.display.dump())
            },
            (Phase::Draining, Event::Closed(CollectorEnd::Finished(Err(error)))) => {
                self.phase = Phase::Failed(error);
                Action::Abort(error)
            },
            (Phase::Draining, Event::Closed(CollectorEnd::Panicked)) => {
                let error = RunError::WorkerFailure(Worker::Collector);
                self.phase = Phase::Failed(error);
                Action::Abort(error)
            },
            (Phase::Finalizing(result), Event::Dumped(path)) => {
                self.phase = Phase::Done(result);
                let lines = report(&result, path.as_str());
                Action::Report(lines, RunOutcome { result, log_file_path: path })
            },
            (Phase::Finalizing(_), Event::DumpFailed) => {
                self.phase = Phase::Failed(RunError::Io);
                Action::Abort(RunError::Io)
            },
            _ => Action::Refuse,
        }
    }
}

} // verus!
