//! The display state of a run: the log of every line received, and the box
//! drawn from its last lines.

use vstd::prelude::*;
use crate::line::{views, Line, LineView, Stream};
use crate::paint::{coloured, paint, Tint};
use crate::text::{
    clip, fitted, join, joined, lemma_fitted, lemma_repeated_char, pad_right, padded, repeat,
    repeated, texts,
};

verus! {

/// How many lines the box shows unless told otherwise.
pub const MAX_LINES: u16 = 4;

/// Columns of the terminal that the box's left and right border take.
pub const BORDER_COLUMNS: u16 = 2;

/// Columns that the heading takes in the box's top border.
pub const HEADING_COLUMNS: u16 = 11;

/// Milliseconds between two redraws of the live indicator.
pub const TICK_MILLIS: u64 = 200;

/// The glyphs that the live indicator's spinner goes through; the last one
/// is shown when it has stopped.
pub const TICK_CHARS: &'static str = "/|\\- ";

/// The log of a run and the measures of the box that shows its tail.
#[derive(Debug)]
pub struct State {
    /// Every line received so far, in the order of arrival.
    pub buf: Vec<Line>,
    /// How many rows the box has.
    pub max_lines: u16,
    /// Rows of the terminal.
    pub _term_lines: u16,
    /// Columns of the terminal.
    pub term_columns: u16,
}

/// What a `State` stands for in contracts.
pub struct StateView {
    pub log: Seq<LineView>,
    pub max_lines: nat,
    pub term_lines: nat,
    pub term_columns: nat,
}

impl View for State {
    type V = StateView;

    open spec fn view(&self) -> StateView {
        StateView {
            log: views(self.buf@),
            max_lines: self.max_lines as nat,
            term_lines: self._term_lines as nat,
            term_columns: self.term_columns as nat,
        }
    }
}

/// `a - b`, or zero where `b` is the larger.
pub open spec fn minus_or_zero(a: nat, b: nat) -> nat {
    if a >= b {
        (a - b) as nat
    } else {
        0
    }
}

/// The tint of a line by its stream.
pub open spec fn tint_of(stream: Stream) -> Tint {
    match stream {
        Stream::Stdout => Tint::DimCyan,
        Stream::Stderr => Tint::DimYellow,
    }
}

/// `inner` between the box's left and right border.
pub open spec fn framed(inner: Seq<char>) -> Seq<char> {
    seq!['│'] + inner + seq!['│']
}

/// The top border with its heading and the spinner's place.
pub open spec fn top_border(width: nat) -> Seq<char> {
    "╭ Running {spinner:.dim.bold} "@ + repeated(
        seq!['─'],
        minus_or_zero(width, HEADING_COLUMNS as nat),
    ) + "╮"@
}

/// The bottom border.
pub open spec fn bottom_border(width: nat) -> Seq<char> {
    "╰"@ + repeated(seq!['─'], width) + "╯"@
}

impl StateView {
    /// The state before any line has come, for a terminal of the given size.
    pub open spec fn fresh(term_lines: nat, term_columns: nat) -> StateView {
        StateView { log: Seq::empty(), max_lines: MAX_LINES as nat, term_lines, term_columns }
    }

    /// The state one line later: the line is at the end of the log, and
    /// nothing else has changed.
    pub open spec fn with_line(self, line: LineView) -> StateView {
        StateView { log: self.log.push(line), ..self }
    }

    /// The state after the lines have arrived one by one, in this order.
    pub open spec fn after(self, arrived: Seq<LineView>) -> StateView
        decreases arrived.len(),
    {
        if arrived.len() == 0 {
            self
        } else {
            self.after(arrived.drop_last()).with_line(arrived.last())
        }
    }

    /// Columns left for text between the two borders.
    pub open spec fn width(self) -> nat {
        minus_or_zero(self.term_columns, BORDER_COLUMNS as nat)
    }

    /// The tail window: the last `max_lines` lines of the log, or all of it
    /// where it has fewer.
    pub open spec fn window(self) -> Seq<LineView> {
        self.log.skip(minus_or_zero(self.log.len(), self.max_lines) as int)
    }

    /// What row `i` of the box shows between its borders: the text of the
    /// window's line `i` cut or filled to the width, or spaces where the
    /// window has no such line.
    pub open spec fn cell(self, i: int) -> Seq<char> {
        if 0 <= i < self.window().len() {
            fitted(self.window()[i].text, self.width())
        } else {
            repeated(seq![' '], self.width())
        }
    }

    /// Row `i` of the box as it is written: a line's cell, in colour or not,
    /// between the borders; a blank row is never coloured.
    pub open spec fn row(self, i: int, in_colour: bool) -> Seq<char> {
        if 0 <= i < self.window().len() && in_colour {
            framed(coloured(self.cell(i), tint_of(self.window()[i].stream)))
        } else {
            framed(self.cell(i))
        }
    }

    /// The `max_lines` rows of the box, row `i` in colour where `in_colour[i]`.
    pub open spec fn rows(self, in_colour: Seq<bool>) -> Seq<Seq<char>> {
        Seq::new(self.max_lines, |i: int| self.row(i, in_colour[i]))
    }

    /// `msg` is the box of this state: its rows one below the other, each
    /// line's row in colour or not.
    pub open spec fn shows(self, msg: Seq<char>) -> bool {
        exists|in_colour: Seq<bool>|
            in_colour.len() == self.max_lines && msg == joined(
                #[trigger] self.rows(in_colour),
                seq!['\n'],
            )
    }

    /// The template of the live indicator: the top border, the place of the
    /// message, and the bottom border, each on a line of its own.
    pub open spec fn template(self) -> Seq<char> {
        top_border(self.width()) + "\n{msg}\n"@ + bottom_border(self.width())
    }
}

/// The lines of `log` that came from `stream`, in their order.
pub open spec fn of_stream(log: Seq<LineView>, stream: Stream) -> Seq<LineView> {
    log.filter(|line: LineView| line.stream == stream)
}

/// Every line belongs to one of the two streams: the lines of both, counted
/// together, are all the lines.
pub proof fn lemma_two_streams(log: Seq<LineView>)
    ensures
        of_stream(log, Stream::Stdout).len() + of_stream(log, Stream::Stderr).len() == log.len(),
    decreases log.len(),
{
    let is_stdout = |line: LineView| line.stream == Stream::Stdout;
    let is_stderr = |line: LineView| line.stream == Stream::Stderr;
    if log.len() == 0 {
        log.lemma_filter_len(is_stdout);
        log.lemma_filter_len(is_stderr);
    } else {
        let front = log.drop_last();
        lemma_two_streams(front);
        assert(front.push(log.last()) =~= log);
        front.lemma_filter_len_push(is_stdout, log.last());
        front.lemma_filter_len_push(is_stderr, log.last());
    }
}

/// The log loses nothing and adds nothing: after lines have arrived it is
/// the log of before with those lines behind it, in the order of arrival. So
/// it has grown by the number of lines that the two streams gave together,
/// and the lines of each stream stand in it in the order in which that stream
/// gave them. The measures of the box stay as they were.
pub proof fn lemma_log_holds_arrivals(st: StateView, arrived: Seq<LineView>)
    ensures
        st.after(arrived).log == st.log + arrived,
        st.after(arrived).log.len() == st.log.len() + of_stream(arrived, Stream::Stdout).len()
            + of_stream(arrived, Stream::Stderr).len(),
        forall|stream: Stream|
            #[trigger] of_stream(st.after(arrived).log, stream) == of_stream(st.log, stream)
                + of_stream(arrived, stream),
        st.after(arrived).max_lines == st.max_lines,
        st.after(arrived).term_lines == st.term_lines,
        st.after(arrived).term_columns == st.term_columns,
    decreases arrived.len(),
{
    if arrived.len() > 0 {
        lemma_log_holds_arrivals(st, arrived.drop_last());
        assert(st.after(arrived).log =~= st.log + arrived);
    }
    lemma_two_streams(arrived);
    assert forall|stream: Stream|
        #[trigger] of_stream(st.after(arrived).log, stream) == of_stream(st.log, stream)
            + of_stream(arrived, stream) by {
        Seq::filter_distributes_over_add(
            st.log,
            arrived,
            |line: LineView| line.stream == stream,
        );
    }
}

/// The box always has `max_lines` rows, and between the borders each row is
/// exactly as wide as the box, whatever characters the lines hold: with its
/// two borders a row without colour takes the width and two columns more. The
/// rows show the last lines of the log in their order; rows beyond them are
/// blank.
pub proof fn lemma_box_shape(st: StateView, in_colour: Seq<bool>)
    ensures
        st.rows(in_colour).len() == st.max_lines,
        st.window().len() <= st.max_lines,
        st.window().len() <= st.log.len(),
        st.window().len() == st.max_lines || st.window().len() == st.log.len(),
        forall|i: int|
            0 <= i < st.window().len() ==> st.window()[i] == st.log[st.log.len()
                - st.window().len() + i],
        forall|i: int| 0 <= i < st.max_lines ==> (#[trigger] st.cell(i)).len() == st.width(),
        forall|i: int|
            0 <= i < st.max_lines ==> (#[trigger] st.row(i, false)).len() == st.width()
                + BORDER_COLUMNS,
        forall|i: int, j: int|
            st.window().len() <= i < st.max_lines && 0 <= j < st.width() ==> #[trigger] st.cell(
                i,
            )[j] == ' ',
        forall|i: int, j: int|
            0 <= i < st.window().len() && 0 <= j < st.width() && j < st.window()[i].text.len()
                ==> #[trigger] st.cell(i)[j] == st.window()[i].text[j],
{
    lemma_repeated_char(' ', st.width());
    assert forall|i: int| 0 <= i < st.max_lines implies (#[trigger] st.cell(i)).len()
        == st.width() by {
        if i < st.window().len() {
            lemma_fitted(st.window()[i].text, st.width());
        }
    }
    assert forall|i: int, j: int|
        0 <= i < st.window().len() && 0 <= j < st.width() && j < st.window()[i].text.len()
        implies #[trigger] st.cell(i)[j] == st.window()[i].text[j] by {
        lemma_fitted(st.window()[i].text, st.width());
    }
}

impl State {
    /// A state with an empty log for a terminal of the given size.
    pub fn new(term_lines: u16, term_columns: u16) -> (state: State)
        ensures
            state@ == StateView::fresh(term_lines as nat, term_columns as nat),
    {
        let state = State {
            buf: Vec::new(),
            max_lines: MAX_LINES,
            _term_lines: term_lines,
            term_columns,
        };
        assert(state@.log =~= Seq::empty());
        state
    }

    /// Columns left for text between the two borders.
    pub fn width(&self) -> (width: usize)
        ensures
            width == self@.width(),
    {
        if self.term_columns >= BORDER_COLUMNS {
            (self.term_columns - BORDER_COLUMNS) as usize
        } else {
            0
        }
    }

    /// The template of the live indicator for this terminal.
    pub fn template(&self) -> (out: String)
        ensures
            out@ == self@.template(),
    {
        let width = self.width();
        let width_top = if width >= HEADING_COLUMNS as usize {
            width - HEADING_COLUMNS as usize
        } else {
            0
        };
        proof {
            reveal_strlit("─");
            assert("─"@ =~= seq!['─']);
        }
        let mut out = "╭ Running {spinner:.dim.bold} ".to_owned();
        out.append(repeat("─", width_top).as_str());
        out.append("╮");
        out.append("\n{msg}\n");
        out.append("╰");
        out.append(repeat("─", width).as_str());
        out.append("╯");
        out
    }
}

/// One row of the box: `line`, filled with spaces up to `width` characters
/// where it is shorter, between the two borders. A longer line is not cut.
pub fn _draw_line(line: &str, width: usize) -> (row: String)
    ensures
        row@ == framed(padded(line@, width as nat)),
{
    proof {
        reveal_strlit("│");
    }
    let mut row = "│".to_owned();
    row.append(pad_right(line, width).as_str());
    row.append("│");
    row
}

fn tint(stream: Stream) -> (tint: Tint)
    ensures
        tint == tint_of(stream),
{
    match stream {
        Stream::Stdout => Tint::DimCyan,
        Stream::Stderr => Tint::DimYellow,
    }
}

/// The box of `state`: one row for each of the last `max_lines` lines of the
/// log, cut to the box's width and tinted by its stream, then blank rows up
/// to `max_lines`, joined by newlines.
pub fn _build_msg(state: &State) -> (msg: String)
    ensures
        state@.shows(msg@),
{
    let width = state.width();
    let max_lines = state.max_lines as usize;
    let len = state.buf.len();
    let start = if len > max_lines {
        len - max_lines
    } else {
        0
    };
    let ghost st = state@;
    let ghost mut in_colour: Seq<bool> = Seq::empty();
    let mut rows: Vec<String> = Vec::new();
    let mut i: usize = 0;
    while i < max_lines
        invariant
            i <= max_lines,
            max_lines == state.max_lines,
            st == state@,
            width == st.width(),
            len == state.buf.len(),
            start == minus_or_zero(len as nat, max_lines as nat),
            rows.len() == i,
            in_colour.len() == i,
            forall|j: int| 0 <= j < i ==> (#[trigger] rows@[j])@ == st.row(j, in_colour[j]),
        decreases max_lines - i,
    {
        if i < len - start {
            let line = &state.buf[start + i];
            let shown = clip(line.line.as_str(), width);
            let cell = pad_right(shown.as_str(), width);
            let painted = paint(cell.as_str(), tint(line.stream));
            proof {
                lemma_fitted(line@.text, width as nat);
                in_colour = in_colour.push(painted@ != cell@);
            }
            rows.push(_draw_line(painted.as_str(), width));
        } else {
            proof {
                reveal_strlit("");
                in_colour = in_colour.push(false);
            }
            rows.push(_draw_line("", width));
        }
        i = i + 1;
    }
    proof {
        reveal_strlit("\n");
        assert("\n"@ =~= seq!['\n']);
        assert(texts(rows@) =~= st.rows(in_colour));
    }
    join(&rows, "\n")
}

/// Takes `line` into the log and draws the box again; the result is the new
/// message for the live indicator.
pub fn progress(state: &mut State, line: &Line) -> (msg: String)
    ensures
        final(state)@ == old(state)@.with_line(line@),
        final(state)@.shows(msg@),
{
    state.buf.push(line.clone());
    assert(state@.log =~= old(state)@.log.push(line@));
    _build_msg(state)
}

} // verus!
