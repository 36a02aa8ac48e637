use pretty_run::error::RunError;
use pretty_run::line::{Line, Stream};
use pretty_run::reader::{LineReader, _read_stream, CARRIAGE_RETURN, NEWLINE};

fn read(bytes: &[u8], stream: Stream) -> (Vec<Line>, Result<(), RunError>) {
    let mut out = Vec::new();
    let res = _read_stream(bytes, &mut out, stream);
    (out, res)
}

fn texts(lines: &[Line]) -> Vec<&str> {
    lines.iter().map(|l| l.line.as_str()).collect()
}

#[test]
fn line_ending_bytes() {
    assert_eq!(NEWLINE, b'\n');
    assert_eq!(CARRIAGE_RETURN, b'\r');
}

#[test]
fn read_stream_yields_each_line_in_order() {
    let (lines, res) = read(b"first\nsecond\nthird\n", Stream::Stdout);
    assert_eq!(res, Ok(()));
    assert_eq!(texts(&lines), vec!["first", "second", "third"]);
    assert!(lines.iter().all(|l| l.stream == Stream::Stdout));
}

#[test]
fn read_stream_tags_with_its_stream() {
    let (lines, res) = read(b"a\nb\n", Stream::Stderr);
    assert_eq!(res, Ok(()));
    assert_eq!(lines.len(), 2);
    assert!(lines.iter().all(|l| l.stream == Stream::Stderr));
}

#[test]
fn read_stream_counts_n_lines() {
    for n in 0..20usize {
        let mut bytes = Vec::new();
        for i in 0..n {
            bytes.extend_from_slice(format!("line {}\n", i).as_bytes());
        }
        let (lines, res) = read(&bytes, Stream::Stdout);
        assert_eq!(res, Ok(()));
        assert_eq!(lines.len(), n);
        for (i, line) in lines.iter().enumerate() {
            assert_eq!(line.line, format!("line {}", i));
        }
    }
}

#[test]
fn read_stream_of_nothing() {
    let (lines, res) = read(b"", Stream::Stdout);
    assert_eq!(res, Ok(()));
    assert!(lines.is_empty());
}

#[test]
fn read_stream_last_line_without_newline() {
    let (lines, res) = read(b"a\nb", Stream::Stdout);
    assert_eq!(res, Ok(()));
    assert_eq!(texts(&lines), vec!["a", "b"]);
    let (lines, res) = read(b"only", Stream::Stdout);
    assert_eq!(res, Ok(()));
    assert_eq!(texts(&lines), vec!["only"]);
}

#[test]
fn read_stream_empty_lines() {
    let (lines, res) = read(b"\n", Stream::Stdout);
    assert_eq!(res, Ok(()));
    assert_eq!(texts(&lines), vec![""]);
    let (lines, res) = read(b"a\n\n\nb\n", Stream::Stdout);
    assert_eq!(res, Ok(()));
    assert_eq!(texts(&lines), vec!["a", "", "", "b"]);
}

#[test]
fn read_stream_drops_carriage_return_before_newline() {
    let (lines, res) = read(b"a\r\nb\r\n", Stream::Stdout);
    assert_eq!(res, Ok(()));
    assert_eq!(texts(&lines), vec!["a", "b"]);
    let (lines, _) = read(b"x\r\r\n", Stream::Stdout);
    assert_eq!(texts(&lines), vec!["x\r"]);
    let (lines, _) = read(b"\r\n", Stream::Stdout);
    assert_eq!(texts(&lines), vec![""]);
    let (lines, _) = read(b"a\rb\n", Stream::Stdout);
    assert_eq!(texts(&lines), vec!["a\rb"]);
}

#[test]
fn read_stream_keeps_carriage_return_at_the_end() {
    let (lines, res) = read(b"a\nb\r", Stream::Stdout);
    assert_eq!(res, Ok(()));
    assert_eq!(texts(&lines), vec!["a", "b\r"]);
}

#[test]
fn read_stream_decodes_utf8() {
    let (lines, res) = read("ëëëëf\n日本語\n😀".as_bytes(), Stream::Stdout);
    assert_eq!(res, Ok(()));
    assert_eq!(texts(&lines), vec!["ëëëëf", "日本語", "😀"]);
}

#[test]
fn read_stream_refuses_invalid_utf8() {
    let (lines, res) = read(b"\xff\n", Stream::Stdout);
    assert_eq!(res, Err(RunError::Decode(Stream::Stdout)));
    assert!(lines.is_empty());
    let (lines, res) = read(b"\xc3", Stream::Stderr);
    assert_eq!(res, Err(RunError::Decode(Stream::Stderr)));
    assert!(lines.is_empty());
}

#[test]
fn read_stream_refuses_overlong_and_surrogate_bytes() {
    let (_, res) = read(b"\xc0\x80\n", Stream::Stdout);
    assert_eq!(res, Err(RunError::Decode(Stream::Stdout)));
    let (_, res) = read(b"\xed\xa0\x80\n", Stream::Stdout);
    assert_eq!(res, Err(RunError::Decode(Stream::Stdout)));
    let (_, res) = read(b"\xf4\x90\x80\x80\n", Stream::Stdout);
    assert_eq!(res, Err(RunError::Decode(Stream::Stdout)));
}

#[test]
fn read_stream_hands_on_the_lines_before_the_bad_one() {
    let (lines, res) = read(b"good\nfine\n\xff\xfe\nlater\n", Stream::Stdout);
    assert_eq!(res, Err(RunError::Decode(Stream::Stdout)));
    assert_eq!(texts(&lines), vec!["good", "fine"]);
    let (lines, res) = read(b"good\n\xff", Stream::Stdout);
    assert_eq!(res, Err(RunError::Decode(Stream::Stdout)));
    assert_eq!(texts(&lines), vec!["good"]);
}

#[test]
fn read_stream_adds_to_what_was_handed_on() {
    let mut out = vec![Line { line: "before".to_string(), stream: Stream::Stderr }];
    let res = _read_stream(b"a\nb\n", &mut out, Stream::Stdout);
    assert_eq!(res, Ok(()));
    assert_eq!(texts(&out), vec!["before", "a", "b"]);
    assert_eq!(out[0].stream, Stream::Stderr);
    assert_eq!(out[1].stream, Stream::Stdout);
}

#[test]
fn reader_hands_on_a_line_when_its_newline_comes() {
    let mut reader = LineReader::new(Stream::Stdout);
    let mut out = Vec::new();
    assert_eq!(reader.feed(b"he", &mut out), Ok(()));
    assert!(out.is_empty());
    assert_eq!(reader.feed(b"llo\nwo", &mut out), Ok(()));
    assert_eq!(texts(&out), vec!["hello"]);
    assert_eq!(reader.feed(b"rld", &mut out), Ok(()));
    assert_eq!(texts(&out), vec!["hello"]);
    assert_eq!(reader.finish(&mut out), Ok(()));
    assert_eq!(texts(&out), vec!["hello", "world"]);
}

#[test]
fn reader_in_pieces_reads_as_at_once() {
    let stream: &[u8] = "one\r\ntwo ë\n\nthree 日本\r\nlast".as_bytes();
    let (whole, res) = read(stream, Stream::Stderr);
    assert_eq!(res, Ok(()));
    for size in 1..stream.len() {
        let mut reader = LineReader::new(Stream::Stderr);
        let mut out = Vec::new();
        for piece in stream.chunks(size) {
            assert_eq!(reader.feed(piece, &mut out), Ok(()));
        }
        assert_eq!(reader.finish(&mut out), Ok(()));
        assert_eq!(texts(&out), texts(&whole));
        assert!(out.iter().all(|l| l.stream == Stream::Stderr));
    }
}

#[test]
fn reader_joins_a_character_cut_in_two() {
    let mut reader = LineReader::new(Stream::Stdout);
    let mut out = Vec::new();
    assert_eq!(reader.feed(b"\xc3", &mut out), Ok(()));
    assert_eq!(reader.feed(b"\xab\n", &mut out), Ok(()));
    assert_eq!(texts(&out), vec!["ë"]);
}

#[test]
fn reader_carriage_return_and_newline_in_two_pieces() {
    let mut reader = LineReader::new(Stream::Stdout);
    let mut out = Vec::new();
    assert_eq!(reader.feed(b"a\r", &mut out), Ok(()));
    assert_eq!(reader.feed(b"\nb", &mut out), Ok(()));
    assert_eq!(texts(&out), vec!["a"]);
    assert_eq!(reader.finish(&mut out), Ok(()));
    assert_eq!(texts(&out), vec!["a", "b"]);
}

#[test]
fn reader_finish_without_pending_bytes() {
    let mut reader = LineReader::new(Stream::Stdout);
    let mut out = Vec::new();
    assert_eq!(reader.feed(b"a\n", &mut out), Ok(()));
    assert_eq!(reader.finish(&mut out), Ok(()));
    assert_eq!(texts(&out), vec!["a"]);
    let mut out = Vec::new();
    assert_eq!(LineReader::new(Stream::Stdout).finish(&mut out), Ok(()));
    assert!(out.is_empty());
}

#[test]
fn reader_stops_at_the_bad_line() {
    let mut reader = LineReader::new(Stream::Stderr);
    let mut out = Vec::new();
    let res = reader.feed(b"ok\n\x80\nnever\npending", &mut out);
    assert_eq!(res, Err(RunError::Decode(Stream::Stderr)));
    assert_eq!(texts(&out), vec!["ok"]);
    // the pending bytes were dropped
    assert_eq!(reader.finish(&mut out), Ok(()));
    assert_eq!(texts(&out), vec!["ok"]);
}

#[test]
fn reader_finish_refuses_invalid_last_line() {
    let mut reader = LineReader::new(Stream::Stdout);
    let mut out = Vec::new();
    assert_eq!(reader.feed(b"ok\n\xe6\x97", &mut out), Ok(()));
    assert_eq!(reader.finish(&mut out), Err(RunError::Decode(Stream::Stdout)));
    assert_eq!(texts(&out), vec!["ok"]);
}
