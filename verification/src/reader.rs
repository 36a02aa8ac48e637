//! The line source reader: cuts the bytes of one stream into lines, decodes
//! each as UTF-8 and tags it with the stream.
//!
//! A line ends at a newline byte. The newline is no part of the line, nor is
//! a carriage return right before it. Bytes after the last newline are a line
//! of their own where there are any.

use vstd::prelude::*;
use vstd::utf8::{decode_utf8, valid_utf8};
use crate::error::RunError;
use crate::line::{views, Line, LineView, Stream};

verus! {

/// The byte that ends a line.
pub const NEWLINE: u8 = 10;

/// The byte that may stand before the newline and is dropped with it.
pub const CARRIAGE_RETURN: u8 = 13;

/// What has been found in a stretch of bytes: the lines that a newline has
/// ended, without their newlines, and the bytes after the last newline.
pub struct Scan {
    pub lines: Seq<Seq<u8>>,
    pub rest: Seq<u8>,
}

/// The scan `start` carried on over `bytes`: a newline ends the line that was
/// gathering, every other byte is added to it.
pub open spec fn scan_from(start: Scan, bytes: Seq<u8>) -> Scan
    decreases bytes.len(),
{
    if bytes.len() == 0 {
        start
    } else {
        let before = scan_from(start, bytes.drop_last());
        if bytes.last() == NEWLINE {
            Scan { lines: before.lines.push(before.rest), rest: Seq::empty() }
        } else {
            Scan { lines: before.lines, rest: before.rest.push(bytes.last()) }
        }
    }
}

/// The scan of `bytes` from their beginning.
pub open spec fn scan(bytes: Seq<u8>) -> Scan {
    scan_from(Scan { lines: Seq::empty(), rest: Seq::empty() }, bytes)
}

/// No byte of `bytes` is a newline.
pub open spec fn newline_free(bytes: Seq<u8>) -> bool {
    forall|i: int| 0 <= i < bytes.len() ==> bytes[i] != NEWLINE
}

/// The lines, each followed by a newline, one after the other.
pub open spec fn terminated(lines: Seq<Seq<u8>>) -> Seq<u8>
    decreases lines.len(),
{
    if lines.len() == 0 {
        Seq::empty()
    } else {
        terminated(lines.drop_last()) + lines.last() + seq![NEWLINE]
    }
}

/// A line without the carriage return at its end, if it has one.
pub open spec fn chomped(line: Seq<u8>) -> Seq<u8> {
    if line.len() > 0 && line.last() == CARRIAGE_RETURN {
        line.drop_last()
    } else {
        line
    }
}

/// The bytes of each line of a whole stream, in order: what stands before
/// each newline, less a carriage return at its end, and what stands after the
/// last newline, if anything does.
pub open spec fn stream_lines(bytes: Seq<u8>) -> Seq<Seq<u8>> {
    let found = scan(bytes);
    let ended = found.lines.map_values(|line: Seq<u8>| chomped(line));
    if found.rest.len() > 0 {
        ended.push(found.rest)
    } else {
        ended
    }
}

/// Every one of the lines is valid UTF-8.
pub open spec fn all_valid(lines: Seq<Seq<u8>>) -> bool {
    forall|i: int| 0 <= i < lines.len() ==> valid_utf8(#[trigger] lines[i])
}

/// The lines decoded and tagged with `stream`, in order.
pub open spec fn decoded(lines: Seq<Seq<u8>>, stream: Stream) -> Seq<LineView> {
    lines.map_values(|line: Seq<u8>| LineView { text: decode_utf8(line), stream })
}

/// Scanning in two steps is scanning at once.
pub proof fn lemma_scan_from_concat(start: Scan, a: Seq<u8>, b: Seq<u8>)
    ensures
        scan_from(start, a + b) == scan_from(scan_from(start, a), b),
    decreases b.len(),
{
    if b.len() > 0 {
        assert((a + b).drop_last() =~= a + b.drop_last());
        lemma_scan_from_concat(start, a, b.drop_last());
    }
}

/// Bytes without a newline end no line: they are added to the rest.
pub proof fn lemma_scan_from_newline_free(start: Scan, bytes: Seq<u8>)
    requires
        newline_free(bytes),
    ensures
        scan_from(start, bytes) == (Scan { lines: start.lines, rest: start.rest + bytes }),
    decreases bytes.len(),
{
    if bytes.len() > 0 {
        lemma_scan_from_newline_free(start, bytes.drop_last());
        assert((start.rest + bytes.drop_last()).push(bytes.last()) =~= start.rest + bytes);
    }
}

/// A scan loses no byte and finds every newline: the lines it found, each
/// with its newline, and then the rest, are the bytes again; and neither a
/// line nor the rest holds a newline.
pub proof fn lemma_scan_splits(bytes: Seq<u8>)
    ensures
        terminated(scan(bytes).lines) + scan(bytes).rest == bytes,
        newline_free(scan(bytes).rest),
        forall|i: int| 0 <= i < scan(bytes).lines.len() ==> newline_free(#[trigger] scan(bytes).lines[i]),
    decreases bytes.len(),
{
    if bytes.len() > 0 {
        let before = scan(bytes.drop_last());
        lemma_scan_splits(bytes.drop_last());
        if bytes.last() == NEWLINE {
            assert(before.lines.push(before.rest).drop_last() =~= before.lines);
        } else {
            assert(bytes.drop_last().push(bytes.last()) =~= bytes);
        }
    }
}

/// Lines without newlines, written out with a newline after each and
/// followed by a rest without one, are found again by a scan, as they were.
pub proof fn lemma_scan_of_terminated(lines: Seq<Seq<u8>>, rest: Seq<u8>)
    requires
        forall|i: int| 0 <= i < lines.len() ==> newline_free(#[trigger] lines[i]),
        newline_free(rest),
    ensures
        scan(terminated(lines) + rest) == (Scan { lines, rest }),
    decreases lines.len(),
{
    let nothing = Scan { lines: Seq::empty(), rest: Seq::empty() };
    if lines.len() == 0 {
        lemma_scan_from_newline_free(nothing, rest);
        assert(lines =~= Seq::<Seq<u8>>::empty());
    } else {
        let front = lines.drop_last();
        let last = lines.last();
        assert forall|i: int| 0 <= i < front.len() implies newline_free(#[trigger] front[i]) by {
            assert(front[i] == lines[i]);
        }
        lemma_scan_of_terminated(front, Seq::empty());
        let after_front = Scan { lines: front, rest: Seq::empty() };
        let tail = last + seq![NEWLINE] + rest;
        assert(terminated(lines) + rest =~= terminated(front) + tail);
        lemma_scan_from_concat(nothing, terminated(front), tail);
        lemma_scan_from_concat(after_front, last + seq![NEWLINE], rest);
        lemma_scan_from_concat(after_front, last, seq![NEWLINE]);
        lemma_scan_from_newline_free(after_front, last);
        let at_newline = Scan { lines: front, rest: last };
        assert(scan_from(at_newline, seq![NEWLINE]) == (Scan {
            lines: front.push(last),
            rest: Seq::empty(),
        })) by {
            reveal_with_fuel(scan_from, 2);
        }
        assert(front.push(last) =~= lines);
        lemma_scan_from_newline_free(Scan { lines, rest: Seq::empty() }, rest);
    }
}

/// A scan that is carried on keeps the lines it had found, in their places.
pub proof fn lemma_scan_from_keeps_lines(start: Scan, bytes: Seq<u8>)
    ensures
        scan_from(start, bytes).lines.len() >= start.lines.len(),
        scan_from(start, bytes).lines.take(start.lines.len() as int) == start.lines,
    decreases bytes.len(),
{
    if bytes.len() > 0 {
        lemma_scan_from_keeps_lines(start, bytes.drop_last());
    }
}

/// A scan that starts with lines already found finds the same as one that
/// starts with none, behind those lines.
pub proof fn lemma_scan_from_behind(lines: Seq<Seq<u8>>, rest: Seq<u8>, bytes: Seq<u8>)
    ensures
        scan_from(Scan { lines, rest }, bytes).lines == lines + scan_from(
            Scan { lines: Seq::empty(), rest },
            bytes,
        ).lines,
        scan_from(Scan { lines, rest }, bytes).rest == scan_from(
            Scan { lines: Seq::empty(), rest },
            bytes,
        ).rest,
    decreases bytes.len(),
{
    if bytes.len() > 0 {
        lemma_scan_from_behind(lines, rest, bytes.drop_last());
    }
}

/// A stream may come in pieces: what is found in two pieces, the second
/// scanned together with what the first left over, is what is found in both
/// at once.
pub proof fn lemma_scan_in_pieces(a: Seq<u8>, b: Seq<u8>)
    ensures
        scan(a + b).lines == scan(a).lines + scan(scan(a).rest + b).lines,
        scan(a + b).rest == scan(scan(a).rest + b).rest,
{
    let nothing = Scan { lines: Seq::empty(), rest: Seq::empty() };
    let first = scan(a);
    lemma_scan_from_concat(nothing, a, b);
    lemma_scan_from_behind(first.lines, first.rest, b);
    lemma_scan_splits(a);
    lemma_scan_from_concat(nothing, first.rest, b);
    lemma_scan_from_newline_free(nothing, first.rest);
}

/// How a reader that was given `lines` to decode has ended, and what it has
/// handed on. It ends well exactly where every line is valid UTF-8, and has
/// then added each line, decoded and tagged, to what was handed on before.
/// Else it has stopped at the first line that is no valid UTF-8, and has
/// added the lines before that one.
pub open spec fn delivers(
    lines: Seq<Seq<u8>>,
    stream: Stream,
    before: Seq<LineView>,
    after: Seq<LineView>,
    ended_well: bool,
) -> bool {
    if ended_well {
        all_valid(lines) && after == before + decoded(lines, stream)
    } else {
        exists|k: int|
            0 <= k < lines.len() && !valid_utf8(#[trigger] lines[k]) && all_valid(lines.take(k))
                && after == before + decoded(lines.take(k), stream)
    }
}

/// `String::from_utf8`, with the error dropped.
///
/// Trusted: the bytes are accepted exactly where they are valid UTF-8, and
/// the string then holds the characters that they encode.
#[verifier::external_body]
fn decode(bytes: Vec<u8>) -> (text: Option<String>)
    ensures
        text is Some <==> valid_utf8(bytes@),
        text matches Some(s) ==> s@ == decode_utf8(bytes@),
{
    String::from_utf8(bytes).ok()
}

/// Decodes one line and hands it on.
fn deliver(raw: Vec<u8>, stream: Stream, out: &mut Vec<Line>) -> (res: Result<(), RunError>)
    ensures
        res is Ok <==> valid_utf8(raw@),
        res matches Err(e) ==> e == RunError::Decode(stream) && final(out)@ == old(out)@,
        res is Ok ==> views(final(out)@) == views(old(out)@).push(
            LineView { text: decode_utf8(raw@), stream },
        ),
{
    match decode(raw) {
        Some(text) => {
            out.push(Line { line: text, stream });
            Ok(())
        },
        None => Err(RunError::Decode(stream)),
    }
}

/// The reader of one stream. It is fed the stream's bytes piece by piece, as
/// they arrive, and hands on each line as soon as its newline has come.
pub struct LineReader {
    stream: Stream,
    pending: Vec<u8>,
}

impl LineReader {
    #[verifier::type_invariant]
    spec fn holds_no_newline(self) -> bool {
        newline_free(self.pending@)
    }

    /// The stream that this reader tags its lines with.
    pub closed spec fn stream(&self) -> Stream {
        self.stream
    }

    /// The bytes that came after the last newline: the beginning of a line
    /// whose end has not come yet.
    pub closed spec fn pending(&self) -> Seq<u8> {
        self.pending@
    }

    /// A reader for `stream` that has been fed nothing yet.
    pub fn new(stream: Stream) -> (reader: LineReader)
        ensures
            reader.stream() == stream,
            reader.pending() == Seq::<u8>::empty(),
    {
        LineReader { stream, pending: Vec::new() }
    }

    /// Takes the next piece of the stream. Every line that a newline of the
    /// piece ends is decoded and pushed to `out`, in order; the bytes after
    /// the last newline are kept for the next piece. Where a line is not
    /// valid UTF-8 the reader stops there: the lines before it have been
    /// pushed, and the pending bytes are dropped.
    pub fn feed(&mut self, chunk: &[u8], out: &mut Vec<Line>) -> (res: Result<(), RunError>)
        ensures
            final(self).stream() == old(self).stream(),
            delivers(
                scan(old(self).pending() + chunk@).lines.map_values(|line: Seq<u8>| chomped(line)),
                old(self).stream(),
                views(old(out)@),
                views(final(out)@),
                res is Ok,
            ),
            res is Ok ==> final(self).pending() == scan(old(self).pending() + chunk@).rest,
            newline_free(final(self).pending()),
            res matches Err(e) ==> e == RunError::Decode(old(self).stream())
                && final(self).pending() == Seq::<u8>::empty(),
    {
        proof {
            use_type_invariant(&*self);
        }
        let stream = self.stream;
        let ghost nothing = Scan { lines: Seq::empty(), rest: Seq::empty() };
        let ghost start = Scan { lines: Seq::empty(), rest: self.pending@ };
        let ghost before = views(out@);
        let ghost chomp = |line: Seq<u8>| chomped(line);
        let ghost whole = scan(self.pending@ + chunk@);
        proof {
            lemma_scan_from_concat(nothing, self.pending@, chunk@);
            lemma_scan_from_newline_free(nothing, self.pending@);
        }
        let mut cur: Vec<u8> = Vec::new();
        core::mem::swap(&mut cur, &mut self.pending);
        let ghost mut found: Seq<Seq<u8>> = Seq::empty();
        let mut i: usize = 0;
        while i < chunk.len()
            invariant
                i <= chunk.len(),
                self.pending@ == Seq::<u8>::empty(),
                self.stream == stream,
                stream == old(self).stream(),
                before == views(old(out)@),
                whole == scan(old(self).pending() + chunk@),
                whole == scan_from(start, chunk@),
                scan_from(start, chunk@.take(i as int)) == (Scan { lines: found, rest: cur@ }),
                all_valid(found.map_values(chomp)),
                views(out@) == before + decoded(found.map_values(chomp), stream),
                chomp == |line: Seq<u8>| chomped(line),
            decreases chunk.len() - i,
        {
            let byte = chunk[i];
            proof {
                assert(chunk@.take(i + 1).drop_last() =~= chunk@.take(i as int));
            }
            if byte == NEWLINE {
                let mut raw: Vec<u8> = Vec::new();
                core::mem::swap(&mut raw, &mut cur);
                let ghost line = raw@;
                if raw.len() > 0 && raw[raw.len() - 1] == CARRIAGE_RETURN {
                    raw.pop();
                }
                let ghost lines_now = found.push(line);
                proof {
                    assert(lines_now.map_values(chomp) =~= found.map_values(chomp).push(
                        chomped(line),
                    ));
                }
                match deliver(raw, stream, out) {
                    Ok(()) => {
                        proof {
                            found = lines_now;
                        }
                    },
                    Err(e) => {
                        proof {
                            let seen = Scan { lines: lines_now, rest: Seq::<u8>::empty() };
                            let later = chunk@.skip(i + 1);
                            assert(chunk@.take(i + 1) + later =~= chunk@);
                            lemma_scan_from_concat(start, chunk@.take(i + 1), later);
                            lemma_scan_from_keeps_lines(seen, later);
                            let k = found.len() as int;
                            let all = whole.lines.map_values(chomp);
                            assert(whole.lines[k] == lines_now[k]);
                            assert(all[k] == chomped(line));
                            assert(all.take(k) =~= found.map_values(chomp)) by {
                                assert forall|j: int| 0 <= j < k implies all[j] == found.map_values(
                                    chomp,
                                )[j] by {
                                    assert(whole.lines[j] == whole.lines.take(k + 1)[j]);
                                }
                            }
                        }
                        return Err(e);
                    },
                }
            } else {
                cur.push(byte);
            }
            i = i + 1;
        }
        proof {
            assert(chunk@.take(chunk.len() as int) =~= chunk@);
            lemma_scan_splits(old(self).pending() + chunk@);
        }
        core::mem::swap(&mut cur, &mut self.pending);
        Ok(())
    }

    /// Ends the stream. Bytes that are still pending are the last line, which
    /// no newline ended: it is decoded and pushed to `out`.
    pub fn finish(self, out: &mut Vec<Line>) -> (res: Result<(), RunError>)
        ensures
            delivers(
                if self.pending().len() > 0 {
                    seq![self.pending()]
                } else {
                    Seq::empty()
                },
                self.stream(),
                views(old(out)@),
                views(final(out)@),
                res is Ok,
            ),
            res matches Err(e) ==> e == RunError::Decode(self.stream()),
    {
        let ghost before = views(out@);
        let ghost last = self.pending@;
        let stream = self.stream;
        if self.pending.len() > 0 {
            let res = deliver(self.pending, stream, out);
            proof {
                let lines = seq![last];
                if res is Ok {
                    assert(before + decoded(lines, stream) =~= before.push(
                        LineView { text: decode_utf8(last), stream },
                    ));
                } else {
                    assert(!valid_utf8(lines[0]));
                }
            }
            res
        } else {
            Ok(())
        }
    }
}

/// Reads a whole stream: cuts `bytes` into lines and pushes each to `out`,
/// decoded and tagged with `stream`, in the order of the bytes. For bytes
/// that hold N lines of valid UTF-8 that is N lines more in `out`. It stops
/// with an error at the first line that is no valid UTF-8.
pub fn _read_stream(bytes: &[u8], out: &mut Vec<Line>, stream: Stream) -> (res: Result<
    (),
    RunError,
>)
    ensures
        delivers(stream_lines(bytes@), stream, views(old(out)@), views(final(out)@), res is Ok),
        res matches Err(e) ==> e == RunError::Decode(stream),
        res is Ok ==> final(out)@.len() == old(out)@.len() + stream_lines(bytes@).len(),
{
    let ghost before = views(out@);
    let ghost found = scan(bytes@);
    let ghost ended = found.lines.map_values(|line: Seq<u8>| chomped(line));
    let ghost all = stream_lines(bytes@);
    let mut reader = LineReader::new(stream);
    match reader.feed(bytes, out) {
        Ok(()) => {},
        Err(e) => {
            proof {
                let k = choose|k: int|
                    0 <= k < ended.len() && !valid_utf8(#[trigger] ended[k]) && all_valid(
                        ended.take(k),
                    ) && views(out@) == before + decoded(ended.take(k), stream);
                assert(all[k] == ended[k]);
                assert(all.take(k) =~= ended.take(k));
            }
            return Err(e);
        },
    }
    let res = reader.finish(out);
    proof {
        if found.rest.len() > 0 {
            let last = seq![found.rest];
            if res is Ok {
                assert(all_valid(all)) by {
                    assert forall|i: int| 0 <= i < all.len() implies valid_utf8(
                        #[trigger] all[i],
                    ) by {
                        if i >= ended.len() {
                            assert(all[i] == last[0]);
                        }
                    }
                }
                assert(views(out@) =~= before + decoded(all, stream));
            } else {
                let k = ended.len() as int;
                assert(all[k] == found.rest);
                assert(views(out@) == before + decoded(all.take(k), stream));
            }
        }
    }
    res
}

} // verus!
