//! Text as sequences of characters: repeating, clipping, padding and joining.
//!
//! Widths are counted in characters (Unicode scalar values), never in bytes.

use vstd::prelude::*;

verus! {

/// `unit` written `count` times in a row.
pub open spec fn repeated(unit: Seq<char>, count: nat) -> Seq<char>
    decreases count,
{
    if count == 0 {
        Seq::empty()
    } else {
        repeated(unit, (count - 1) as nat) + unit
    }
}

/// The first `width` characters of `text`, or all of it where it is shorter.
pub open spec fn clipped(text: Seq<char>, width: nat) -> Seq<char> {
    if text.len() <= width {
        text
    } else {
        text.take(width as int)
    }
}

/// `text` followed by as many spaces as it lacks to `width` characters.
pub open spec fn padded(text: Seq<char>, width: nat) -> Seq<char> {
    if text.len() >= width {
        text
    } else {
        text + repeated(seq![' '], (width - text.len()) as nat)
    }
}

/// `text` cut or filled to exactly `width` characters.
pub open spec fn fitted(text: Seq<char>, width: nat) -> Seq<char> {
    padded(clipped(text, width), width)
}

/// The parts in order, with `sep` between each two neighbours.
pub open spec fn joined(parts: Seq<Seq<char>>, sep: Seq<char>) -> Seq<char>
    decreases parts.len(),
{
    if parts.len() == 0 {
        Seq::empty()
    } else if parts.len() == 1 {
        parts[0]
    } else {
        joined(parts.drop_last(), sep) + sep + parts.last()
    }
}

/// The texts of a run of strings, in order.
pub open spec fn texts(parts: Seq<String>) -> Seq<Seq<char>> {
    parts.map_values(|s: String| s@)
}

/// Every character of a repeated single character is that character.
pub proof fn lemma_repeated_char(c: char, count: nat)
    ensures
        repeated(seq![c], count).len() == count,
        forall|i: int| 0 <= i < count ==> repeated(seq![c], count)[i] == c,
    decreases count,
{
    if count > 0 {
        lemma_repeated_char(c, (count - 1) as nat);
    }
}

/// Fitting gives exactly the width asked for, and keeps the text's own
/// characters in front.
pub proof fn lemma_fitted(text: Seq<char>, width: nat)
    ensures
        fitted(text, width).len() == width,
        forall|i: int| 0 <= i < width && i < text.len() ==> fitted(text, width)[i] == text[i],
        forall|i: int| text.len() <= i < width ==> fitted(text, width)[i] == ' ',
{
    let cut = clipped(text, width);
    if cut.len() < width {
        lemma_repeated_char(' ', (width - cut.len()) as nat);
    }
}

/// `unit` written `count` times.
pub fn repeat(unit: &str, count: usize) -> (out: String)
    ensures
        out@ == repeated(unit@, count as nat),
{
    let mut out = String::new();
    let mut done: usize = 0;
    while done < count
        invariant
            done <= count,
            out@ == repeated(unit@, done as nat),
        decreases count - done,
    {
        out.append(unit);
        done = done + 1;
    }
    out
}

/// The first `width` characters of `text`; the cut never falls inside a
/// character.
pub fn clip(text: &str, width: usize) -> (out: String)
    ensures
        out@ == clipped(text@, width as nat),
{
    let len = text.unicode_len();
    if len <= width {
        text.to_owned()
    } else {
        text.substring_char(0, width).to_owned()
    }
}

/// `text` filled with spaces on the right up to `width` characters; a text
/// that is already that long is returned as it is.
pub fn pad_right(text: &str, width: usize) -> (out: String)
    ensures
        out@ == padded(text@, width as nat),
{
    let len = text.unicode_len();
    let mut out = text.to_owned();
    if len < width {
        let fill = repeat(" ", width - len);
        proof {
            reveal_strlit(" ");
            assert(" "@ =~= seq![' ']);
        }
        out.append(fill.as_str());
    }
    out
}

/// The parts in order with `sep` between them.
pub fn join(parts: &Vec<String>, sep: &str) -> (out: String)
    ensures
        out@ == joined(texts(parts@), sep@),
{
    let mut out = String::new();
    let mut i: usize = 0;
    while i < parts.len()
        invariant
            i <= parts.len(),
            out@ == joined(texts(parts@).take(i as int), sep@),
        decreases parts.len() - i,
    {
        assert(texts(parts@).take(i + 1).drop_last() =~= texts(parts@).take(i as int));
        if i > 0 {
            out.append(sep);
        }
        out.append(parts[i].as_str());
        i = i + 1;
    }
    assert(texts(parts@).take(parts.len() as int) =~= texts(parts@));
    out
}

} // verus!
