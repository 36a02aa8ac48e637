use pretty_run::error::{RunError, Worker};
use pretty_run::line::{Line, Stream};
use pretty_run::outcome::ChildResult;
use pretty_run::reader::_read_stream;
use pretty_run::runner::{Action, CollectorEnd, Event, Phase, Runner};

fn plain_runner(columns: u16) -> Runner {
    console::set_colors_enabled(false);
    Runner::new(24, columns)
}

fn draining(columns: u16) -> Runner {
    let mut runner = plain_runner(columns);
    assert!(matches!(runner.step(Event::Spawned), Action::Collect));
    assert!(matches!(runner.step(Event::HandedOff), Action::Receive));
    assert_eq!(runner.current(), Phase::Draining);
    runner
}

fn deliver(runner: &mut Runner, bytes: &[u8], stream: Stream) -> Vec<String> {
    let mut lines = Vec::new();
    assert_eq!(_read_stream(bytes, &mut lines, stream), Ok(()));
    let mut shown = Vec::new();
    for line in lines {
        match runner.step(Event::Delivered(line)) {
            Action::Show(msg) => shown.push(msg),
            other => panic!("unexpected answer {:?}", other),
        }
    }
    shown
}

#[test]
fn runner_starts_idle() {
    let runner = plain_runner(10);
    assert_eq!(runner.current(), Phase::Idle);
    assert!(runner.state().buf.is_empty());
    assert_eq!(runner.state().term_columns, 10);
    assert_eq!(runner.state()._term_lines, 24);
    assert_eq!(runner.message(), "│        │\n│        │\n│        │\n│        │");
    assert_eq!(
        runner.template(),
        "╭ Running {spinner:.dim.bold} ╮\n{msg}\n╰────────╯"
    );
}

#[test]
fn run_of_echo_hello_succeeds() {
    let mut runner = draining(9);
    let shown = deliver(&mut runner, b"hello\n", Stream::Stdout);
    assert_eq!(shown, vec!["│hello  │\n│       │\n│       │\n│       │"]);
    let end = CollectorEnd::Finished(Ok(ChildResult::from_code(Some(0))));
    let bytes = match runner.step(Event::Closed(end)) {
        Action::Dump(bytes) => bytes,
        other => panic!("unexpected answer {:?}", other),
    };
    assert_eq!(bytes, b"hello\n");
    assert_eq!(runner.current(), Phase::Finalizing(ChildResult::from_code(Some(0))));
    match runner.step(Event::Dumped("/tmp/out".to_string())) {
        Action::Report(report, outcome) => {
            assert!(outcome.result.succeeded);
            assert_eq!(outcome.result.exit_code, Some(0));
            assert_eq!(outcome.log_file_path, "/tmp/out");
            assert_eq!(report.location, "(check full output at: /tmp/out)");
            assert_eq!(report.verdict, "Success!");
        },
        other => panic!("unexpected answer {:?}", other),
    }
    assert_eq!(runner.current(), Phase::Done(ChildResult::from_code(Some(0))));
}

#[test]
fn run_of_false_fails_with_status_one() {
    let mut runner = draining(80);
    let end = CollectorEnd::Finished(Ok(ChildResult::from_code(Some(1))));
    let bytes = match runner.step(Event::Closed(end)) {
        Action::Dump(bytes) => bytes,
        other => panic!("unexpected answer {:?}", other),
    };
    assert!(bytes.is_empty());
    match runner.step(Event::Dumped("/tmp/out".to_string())) {
        Action::Report(report, outcome) => {
            assert!(!outcome.result.succeeded);
            assert_eq!(outcome.result.exit_code, Some(1));
            assert_eq!(outcome.result.status_to_pass_on(), 1);
            assert_eq!(report.verdict, "Command exited with status: 1");
        },
        other => panic!("unexpected answer {:?}", other),
    }
}

#[test]
fn run_of_ten_lines_shows_the_last_four() {
    let mut runner = draining(12);
    let mut bytes = Vec::new();
    for i in 1..=10 {
        bytes.extend_from_slice(format!("line {}\n", i).as_bytes());
    }
    let shown = deliver(&mut runner, &bytes, Stream::Stdout);
    assert_eq!(shown.len(), 10);
    assert_eq!(shown[9], "│line 7    │\n│line 8    │\n│line 9    │\n│line 10   │");
    assert_eq!(runner.message(), shown[9]);
    assert_eq!(runner.state().buf.len(), 10);
}

#[test]
fn run_with_a_long_multibyte_line_cuts_it() {
    let mut runner = draining(6);
    let shown = deliver(&mut runner, "日本語のテキスト\n".as_bytes(), Stream::Stderr);
    assert_eq!(shown, vec!["│日本語の│\n│    │\n│    │\n│    │"]);
}

#[test]
fn run_of_a_missing_executable_fails_fast() {
    let mut runner = plain_runner(80);
    match runner.step(Event::SpawnFailed) {
        Action::Abort(error) => assert_eq!(error, RunError::Spawn),
        other => panic!("unexpected answer {:?}", other),
    }
    assert_eq!(runner.current(), Phase::Failed(RunError::Spawn));
    // nothing follows: no line is taken and no dump is asked for
    let line = Line { line: "late".to_string(), stream: Stream::Stdout };
    assert!(matches!(runner.step(Event::Delivered(line)), Action::Refuse));
    let end = CollectorEnd::Finished(Ok(ChildResult::from_code(Some(0))));
    assert!(matches!(runner.step(Event::Closed(end)), Action::Refuse));
    assert!(matches!(runner.step(Event::Dumped("/tmp/out".to_string())), Action::Refuse));
    assert!(matches!(runner.step(Event::Spawned), Action::Refuse));
    assert_eq!(runner.current(), Phase::Failed(RunError::Spawn));
    assert!(runner.state().buf.is_empty());
}

#[test]
fn runner_log_counts_the_lines_of_both_streams() {
    let mut runner = draining(80);
    deliver(&mut runner, b"out 1\nout 2\n", Stream::Stdout);
    deliver(&mut runner, b"err 1\n", Stream::Stderr);
    deliver(&mut runner, b"out 3\n", Stream::Stdout);
    deliver(&mut runner, b"err 2\nerr 3\n", Stream::Stderr);
    assert_eq!(runner.state().buf.len(), 6);
    let end = CollectorEnd::Finished(Ok(ChildResult::from_code(Some(0))));
    match runner.step(Event::Closed(end)) {
        Action::Dump(bytes) => assert_eq!(bytes, b"out 1\nout 2\nerr 1\nout 3\nerr 2\nerr 3\n"),
        other => panic!("unexpected answer {:?}", other),
    }
}

#[test]
fn runner_gives_up_on_a_merger_error() {
    for error in [
        RunError::StreamUnavailable(Stream::Stdout),
        RunError::StreamUnavailable(Stream::Stderr),
        RunError::Decode(Stream::Stdout),
        RunError::WorkerFailure(Worker::Reader(Stream::Stderr)),
        RunError::Io,
    ] {
        let mut runner = draining(80);
        match runner.step(Event::Closed(CollectorEnd::Finished(Err(error)))) {
            Action::Abort(told) => assert_eq!(told, error),
            other => panic!("unexpected answer {:?}", other),
        }
        assert_eq!(runner.current(), Phase::Failed(error));
        assert!(matches!(runner.step(Event::Dumped("x".to_string())), Action::Refuse));
    }
}

#[test]
fn runner_gives_up_when_the_collector_panicked() {
    let mut runner = draining(80);
    match runner.step(Event::Closed(CollectorEnd::Panicked)) {
        Action::Abort(told) => assert_eq!(told, RunError::WorkerFailure(Worker::Collector)),
        other => panic!("unexpected answer {:?}", other),
    }
    assert_eq!(runner.current(), Phase::Failed(RunError::WorkerFailure(Worker::Collector)));
}

#[test]
fn runner_gives_up_when_the_dump_fails() {
    let mut runner = draining(80);
    let end = CollectorEnd::Finished(Ok(ChildResult::from_code(Some(0))));
    assert!(matches!(runner.step(Event::Closed(end)), Action::Dump(_)));
    match runner.step(Event::DumpFailed) {
        Action::Abort(told) => assert_eq!(told, RunError::Io),
        other => panic!("unexpected answer {:?}", other),
    }
    assert_eq!(runner.current(), Phase::Failed(RunError::Io));
}

#[test]
fn runner_refuses_events_out_of_place() {
    let mut runner = plain_runner(80);
    let line = || Line { line: "x".to_string(), stream: Stream::Stdout };
    assert!(matches!(runner.step(Event::HandedOff), Action::Refuse));
    assert!(matches!(runner.step(Event::Delivered(line())), Action::Refuse));
    assert!(matches!(runner.step(Event::DumpFailed), Action::Refuse));
    assert_eq!(runner.current(), Phase::Idle);
    assert!(runner.state().buf.is_empty());
    assert!(matches!(runner.step(Event::Spawned), Action::Collect));
    assert_eq!(runner.current(), Phase::Started);
    assert!(matches!(runner.step(Event::Spawned), Action::Refuse));
    assert!(matches!(runner.step(Event::SpawnFailed), Action::Refuse));
    assert!(matches!(runner.step(Event::Delivered(line())), Action::Refuse));
    assert_eq!(runner.current(), Phase::Started);
    assert!(matches!(runner.step(Event::HandedOff), Action::Receive));
    assert!(matches!(runner.step(Event::HandedOff), Action::Refuse));
    assert!(matches!(runner.step(Event::Dumped("x".to_string())), Action::Refuse));
    assert_eq!(runner.current(), Phase::Draining);
}

#[test]
fn runner_is_over_after_the_report() {
    let mut runner = draining(80);
    let result = ChildResult::from_code(Some(0));
    assert!(matches!(runner.step(Event::Closed(CollectorEnd::Finished(Ok(result)))), Action::Dump(_)));
    let line = Line { line: "late".to_string(), stream: Stream::Stdout };
    assert!(matches!(runner.step(Event::Delivered(line)), Action::Refuse));
    assert!(matches!(runner.step(Event::Dumped("p".to_string())), Action::Report(_, _)));
    assert!(matches!(runner.step(Event::Dumped("p".to_string())), Action::Refuse));
    assert!(matches!(runner.step(Event::DumpFailed), Action::Refuse));
    assert!(matches!(runner.step(Event::Spawned), Action::Refuse));
    assert_eq!(runner.current(), Phase::Done(result));
}
