//! The dump of a run: every line of the log as plain text, one below the
//! other. The tags are not written.

use vstd::prelude::*;
use vstd::utf8::{
    char_is_scalar, char_u32_cast, encode_scalar, encode_utf8, encode_utf8_decode_utf8,
    encode_utf8_valid_utf8, has_width_1_encoding, is_scalar, last_continuation_byte,
    leading_byte_width_1, leading_byte_width_2, leading_byte_width_3, leading_byte_width_4,
    second_last_continuation_byte, third_last_continuation_byte, valid_utf8,
};
use crate::display::State;
use crate::line::{LineView, Stream};
use crate::reader::{
    all_valid, chomped, decoded, lemma_scan_of_terminated, newline_free, scan, stream_lines,
    terminated, Scan, CARRIAGE_RETURN, NEWLINE,
};

verus! {

/// The texts of the lines, each encoded in UTF-8.
pub open spec fn encoded(log: Seq<LineView>) -> Seq<Seq<u8>> {
    log.map_values(|line: LineView| encode_utf8(line.text))
}

/// The bytes of the dump of a log: each line's text in UTF-8 and a newline
/// after it, in the order of the log.
pub open spec fn dump_bytes(log: Seq<LineView>) -> Seq<u8> {
    terminated(encoded(log))
}

/// The lines of a log as they would be if all had come from `stream`.
pub open spec fn retagged(log: Seq<LineView>, stream: Stream) -> Seq<LineView> {
    log.map_values(|line: LineView| LineView { text: line.text, stream })
}

/// A text that a dump gives back as it was: it holds no newline, and does
/// not end in a carriage return.
pub open spec fn survives_dump(text: Seq<char>) -> bool {
    &&& forall|i: int| 0 <= i < text.len() ==> text[i] != '\n'
    &&& text.len() > 0 ==> text.last() != '\r'
}

proof fn lemma_encode_scalar_bytes(scalar: u32)
    requires
        is_scalar(scalar),
    ensures
        encode_scalar(scalar).len() >= 1,
        forall|j: int|
            0 <= j < encode_scalar(scalar).len() && #[trigger] encode_scalar(scalar)[j] < 0x80
                ==> encode_scalar(scalar)[j] == scalar,
{
    if has_width_1_encoding(scalar) {
        assert(leading_byte_width_1(scalar) == scalar) by (bit_vector)
            requires
                has_width_1_encoding(scalar),
        ;
    } else {
        assert(leading_byte_width_2(scalar) >= 0x80) by (bit_vector);
        assert(leading_byte_width_3(scalar) >= 0x80) by (bit_vector);
        assert(leading_byte_width_4(scalar) >= 0x80) by (bit_vector);
        assert(last_continuation_byte(scalar) >= 0x80) by (bit_vector);
        assert(second_last_continuation_byte(scalar) >= 0x80) by (bit_vector);
        assert(third_last_continuation_byte(scalar) >= 0x80) by (bit_vector);
    }
}

/// In the UTF-8 of a text a byte below 0x80 stands only where the text has
/// the character of that value: so the bytes hold a newline only where the
/// text does, and end in a carriage return only where the text does.
pub proof fn lemma_encoded_ascii(text: Seq<char>)
    ensures
        text.len() > 0 ==> encode_utf8(text).len() > 0,
        (forall|i: int| 0 <= i < text.len() ==> text[i] != '\n') ==> newline_free(
            encode_utf8(text),
        ),
        text.len() > 0 && encode_utf8(text).last() == CARRIAGE_RETURN ==> text.last() == '\r',
    decreases text.len(),
{
    if text.len() > 0 {
        let head = encode_scalar(text[0] as u32);
        let rest = text.drop_first();
        char_is_scalar(text[0]);
        char_u32_cast(text[0], text[0] as u32);
        char_u32_cast('\n', 10u32);
        char_u32_cast('\r', 13u32);
        lemma_encode_scalar_bytes(text[0] as u32);
        lemma_encoded_ascii(rest);
        assert(encode_utf8(text) == head + encode_utf8(rest));
        if forall|i: int| 0 <= i < text.len() ==> text[i] != '\n' {
            assert forall|i: int| 0 <= i < rest.len() implies rest[i] != '\n' by {
                assert(rest[i] == text[i + 1]);
            }
        }
    }
}

/// A dump that is read back gives the texts of the log again, in order, and
/// nothing else: the reader finds every line valid, and as many lines as the
/// log has. The tags are those of the reader. This holds of every log whose
/// texts survive a dump.
pub proof fn lemma_dump_round_trip(log: Seq<LineView>, stream: Stream)
    requires
        forall|i: int| 0 <= i < log.len() ==> survives_dump(#[trigger] log[i].text),
    ensures
        all_valid(stream_lines(dump_bytes(log))),
        decoded(stream_lines(dump_bytes(log)), stream) == retagged(log, stream),
{
    let lines = encoded(log);
    assert forall|i: int| 0 <= i < lines.len() implies newline_free(#[trigger] lines[i]) by {
        lemma_encoded_ascii(log[i].text);
    }
    lemma_scan_of_terminated(lines, Seq::empty());
    let read = stream_lines(dump_bytes(log));
    assert forall|i: int| 0 <= i < read.len() implies read[i] == encode_utf8(log[i].text) by {
        lemma_encoded_ascii(log[i].text);
    }
    assert forall|i: int| 0 <= i < read.len() implies valid_utf8(#[trigger] read[i]) by {
        encode_utf8_valid_utf8(log[i].text);
    }
    assert forall|i: int| 0 <= i < read.len() implies decoded(read, stream)[i] == retagged(
        log,
        stream,
    )[i] by {
        encode_utf8_decode_utf8(log[i].text);
    }
}

impl State {
    /// The dump of the log: the bytes to write to the result file.
    pub fn dump(&self) -> (out: Vec<u8>)
        ensures
            out@ == dump_bytes(self@.log),
    {
        let mut out: Vec<u8> = Vec::new();
        let mut i: usize = 0;
        while i < self.buf.len()
            invariant
                i <= self.buf.len(),
                out@ == dump_bytes(self@.log.take(i as int)),
            decreases self.buf.len() - i,
        {
            let mut bytes = self.buf[i].line.as_str().as_bytes_vec();
            proof {
                let now = encoded(self@.log.take(i + 1));
                assert(now.drop_last() =~= encoded(self@.log.take(i as int)));
            }
            out.append(&mut bytes);
            out.push(NEWLINE);
            i = i + 1;
        }
        proof {
            assert(self@.log.take(self.buf.len() as int) =~= self@.log);
        }
        out
    }
}

} // verus!
