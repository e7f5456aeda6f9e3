//! Padding of text into a field of a given number of columns.
use vstd::prelude::*;
use crate::width::{checked_display_width, spec_display_width, width_consistent};
use crate::writer::{other_io_error, StringWriter};

verus! {

/// How text sits within its field.
#[derive(PartialEq, Eq, Structural, Clone, Copy, Debug)]
pub enum Alignment {
    LEFT,
    CENTER,
    RIGHT,
}

/// Fill columns that a text of width `width` leaves in a field of `size`.
pub open spec fn total_fill(width: int, size: int) -> nat {
    if width < size { (size - width) as nat } else { 0 }
}

/// Fill columns placed before the text.
pub open spec fn left_fill(align: Alignment, width: int, size: int) -> nat {
    match align {
        Alignment::LEFT => 0,
        Alignment::RIGHT => total_fill(width, size),
        Alignment::CENTER => total_fill(width, size) / 2,
    }
}

/// Fill columns placed after the text, none when trailing fill is skipped.
pub open spec fn right_fill(align: Alignment, width: int, size: int, skip_right_fill: bool) -> nat {
    if skip_right_fill {
        0
    } else {
        (total_fill(width, size) - left_fill(align, width, size)) as nat
    }
}

pub open spec fn repeat(c: char, n: nat) -> Seq<char> {
    Seq::new(n, |_i: int| c)
}

/// `text` placed in a field of `size` columns, given its display width.
pub open spec fn padded(
    align: Alignment,
    text: Seq<char>,
    width: int,
    fill: char,
    size: int,
    skip_right_fill: bool,
) -> Seq<char> {
    repeat(fill, left_fill(align, width, size)) + text + repeat(
        fill,
        right_fill(align, width, size, skip_right_fill),
    )
}

/// Fill counts `(before, after)` for a text of display width `width`.
pub fn fill_counts(align: Alignment, width: usize, size: usize, skip_right_fill: bool) -> (r: (
    usize,
    usize,
))
    ensures
        r.0 == left_fill(align, width as int, size as int),
        r.1 == right_fill(align, width as int, size as int, skip_right_fill),
{
    let nfill: usize = if width < size { size - width } else { 0 };
    let n: usize = match align {
        Alignment::LEFT => 0,
        Alignment::RIGHT => nfill,
        Alignment::CENTER => nfill / 2,
    };
    let rest: usize = if skip_right_fill { 0 } else { nfill - n };
    (n, rest)
}

/// Writes `text` to `out`, padded with `fill` into a field of `size` columns
/// by its display width. With `skip_right_fill` nothing follows the text.
/// Fails, writing nothing, where the width table gives `text` fewer columns
/// than its escape sequences hide.
pub fn print_align(
    out: &mut StringWriter,
    align: Alignment,
    text: &str,
    fill: char,
    size: usize,
    skip_right_fill: bool,
) -> (r: Result<(), std::io::Error>)
    requires
        (fill as u32) < 128,
    ensures
        r is Ok <==> width_consistent(text@),
        r is Ok ==> final(out)@ == old(out)@ + padded(
            align,
            text@,
            spec_display_width(text@),
            fill,
            size as int,
            skip_right_fill,
        ),
        r is Err ==> final(out)@ == old(out)@,
        r is Ok && size as int <= spec_display_width(text@) ==> final(out)@ == old(out)@ + text@,
{
    let text_len = match checked_display_width(text) {
        Some(w) => w,
        None => {
            return Err(other_io_error("internal error: display width less than hidden width"));
        },
    };
    let (before, after) = fill_counts(align, text_len, size, skip_right_fill);
    out.push_repeated(fill, before);
    out.push_text(text);
    out.push_repeated(fill, after);
    assert(out@ =~= old(out)@ + padded(
        align,
        text@,
        spec_display_width(text@),
        fill,
        size as int,
        skip_right_fill,
    ));
    proof {
        if size as int <= spec_display_width(text@) {
            lemma_no_fill_when_too_narrow(
                align,
                text@,
                spec_display_width(text@),
                fill,
                size as int,
                skip_right_fill,
            );
        }
    }
    Ok(())
}

/// `s` without the run of `f` at its end.
pub open spec fn trim_trailing(s: Seq<char>, f: char) -> Seq<char>
    decreases s.len(),
{
    if s.len() > 0 && s.last() == f {
        trim_trailing(s.drop_last(), f)
    } else {
        s
    }
}

/// `s` without the run of `f` at its start.
pub open spec fn trim_leading(s: Seq<char>, f: char) -> Seq<char>
    decreases s.len(),
{
    if s.len() > 0 && s[0] == f {
        trim_leading(s.drop_first(), f)
    } else {
        s
    }
}

proof fn lemma_trim_trailing_repeat(text: Seq<char>, f: char, n: nat)
    requires
        !(text.len() > 0 && text.last() == f),
    ensures
        trim_trailing(text + repeat(f, n), f) == text,
    decreases n,
{
    if n == 0 {
        assert(text + repeat(f, 0) =~= text);
    } else {
        let s = text + repeat(f, n);
        assert(s.drop_last() =~= text + repeat(f, (n - 1) as nat));
        lemma_trim_trailing_repeat(text, f, (n - 1) as nat);
    }
}

proof fn lemma_trim_leading_repeat(text: Seq<char>, f: char, n: nat)
    requires
        !(text.len() > 0 && text[0] == f),
    ensures
        trim_leading(repeat(f, n) + text, f) == text,
    decreases n,
{
    if n == 0 {
        assert(repeat(f, 0) + text =~= text);
    } else {
        let s = repeat(f, n) + text;
        assert(s.drop_first() =~= repeat(f, (n - 1) as nat) + text);
        lemma_trim_leading_repeat(text, f, (n - 1) as nat);
    }
}

/// Left-aligning a text that does not end with the fill character, then
/// trimming the fill from the end, gives the text back; right-aligning a text
/// that does not start with it, then trimming the fill from the start, does too.
pub proof fn lemma_align_round_trip(
    text: Seq<char>,
    width: int,
    fill: char,
    size: int,
    skip_right_fill: bool,
)
    ensures
        !(text.len() > 0 && text.last() == fill) ==> trim_trailing(
            padded(Alignment::LEFT, text, width, fill, size, skip_right_fill),
            fill,
        ) == text,
        !(text.len() > 0 && text[0] == fill) ==> trim_leading(
            padded(Alignment::RIGHT, text, width, fill, size, skip_right_fill),
            fill,
        ) == text,
{
    if !(text.len() > 0 && text.last() == fill) {
        let n = right_fill(Alignment::LEFT, width, size, skip_right_fill);
        assert(padded(Alignment::LEFT, text, width, fill, size, skip_right_fill) =~= text + repeat(
            fill,
            n,
        ));
        lemma_trim_trailing_repeat(text, fill, n);
    }
    if !(text.len() > 0 && text[0] == fill) {
        let n = left_fill(Alignment::RIGHT, width, size);
        assert(padded(Alignment::RIGHT, text, width, fill, size, skip_right_fill) =~= repeat(
            fill,
            n,
        ) + text);
        lemma_trim_leading_repeat(text, fill, n);
    }
}

/// A field no wider than the text leaves it unpadded, whatever the alignment.
pub proof fn lemma_no_fill_when_too_narrow(
    align: Alignment,
    text: Seq<char>,
    width: int,
    fill: char,
    size: int,
    skip_right_fill: bool,
)
    requires
        size <= width,
    ensures
        padded(align, text, width, fill, size, skip_right_fill) == text,
{
    assert(padded(align, text, width, fill, size, skip_right_fill) =~= text);
}

/// With trailing fill skipped, nothing follows the text, and the fill before
/// it is what it would be without the skip.
pub proof fn lemma_skip_right_fill(
    align: Alignment,
    text: Seq<char>,
    width: int,
    fill: char,
    size: int,
)
    ensures
        padded(align, text, width, fill, size, true) == repeat(fill, left_fill(align, width, size))
            + text,
        padded(align, text, width, fill, size, false) == padded(
            align,
            text,
            width,
            fill,
            size,
            true,
        ) + repeat(fill, right_fill(align, width, size, false)),
{
    assert(padded(align, text, width, fill, size, true) =~= repeat(
        fill,
        left_fill(align, width, size),
    ) + text);
    assert(padded(align, text, width, fill, size, false) =~= padded(
        align,
        text,
        width,
        fill,
        size,
        true,
    ) + repeat(fill, right_fill(align, width, size, false)));
}

} // verus!
