use pretty_run::display::{_build_msg, progress, State};
use pretty_run::line::{Line, Stream};
use pretty_run::outcome::{report, ChildResult};
use pretty_run::paint::{paint, Tint};

fn in_colour() {
    console::set_colors_enabled(true);
}

#[test]
fn paint_dim_cyan() {
    in_colour();
    assert_eq!(paint("text", Tint::DimCyan), "\u{1b}[36m\u{1b}[2mtext\u{1b}[0m");
}

#[test]
fn paint_dim_yellow() {
    in_colour();
    assert_eq!(paint("text", Tint::DimYellow), "\u{1b}[33m\u{1b}[2mtext\u{1b}[0m");
}

#[test]
fn paint_green() {
    in_colour();
    assert_eq!(paint("text", Tint::Green), "\u{1b}[32mtext\u{1b}[0m");
}

#[test]
fn paint_red() {
    in_colour();
    assert_eq!(paint("text", Tint::Red), "\u{1b}[31mtext\u{1b}[0m");
}

#[test]
fn paint_of_nothing() {
    in_colour();
    assert_eq!(paint("", Tint::Red), "\u{1b}[31m\u{1b}[0m");
}

#[test]
fn box_rows_are_tinted_by_stream() {
    in_colour();
    let mut state = State::new(24, 7);
    progress(&mut state, &Line { line: "out".to_string(), stream: Stream::Stdout });
    let msg = progress(&mut state, &Line { line: "error!".to_string(), stream: Stream::Stderr });
    let expected = [
        "│\u{1b}[36m\u{1b}[2mout  \u{1b}[0m│",
        "│\u{1b}[33m\u{1b}[2merror\u{1b}[0m│",
        "│     │",
        "│     │",
    ];
    assert_eq!(msg, expected.join("\n"));
}

#[test]
fn blank_rows_have_no_colour() {
    in_colour();
    let state = State::new(24, 4);
    assert_eq!(_build_msg(&state), "│  │\n│  │\n│  │\n│  │");
}

#[test]
fn report_of_success_is_green() {
    in_colour();
    let out = report(&ChildResult::from_code(Some(0)), "/tmp/out");
    assert_eq!(out.location, "\u{1b}[32m(check full output at: /tmp/out)\u{1b}[0m");
    assert_eq!(out.verdict, "\u{1b}[32mSuccess!\u{1b}[0m");
}

#[test]
fn report_of_failure_is_red() {
    in_colour();
    let out = report(&ChildResult::from_code(Some(3)), "/tmp/out");
    assert_eq!(out.location, "\u{1b}[31m(check full output at: /tmp/out)\u{1b}[0m");
    assert_eq!(out.verdict, "\u{1b}[31mCommand exited with status: 3\u{1b}[0m");
}
