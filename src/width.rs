//! Display width of text that may hold CSI colour codes and OSC hyperlinks.
use vstd::prelude::*;
use unicode_width::{UnicodeWidthChar, UnicodeWidthStr};

verus! {

/// Column width that the Unicode width table gives one character
/// (`None` for a control character).
pub uninterp spec fn char_width_of(c: char) -> Option<usize>;

/// Column width that the Unicode width table gives a whole string.
pub uninterp spec fn str_width_of(s: Seq<char>) -> usize;

/// Relies on `UnicodeWidthChar::width`: its value for one character, which is
/// `Some(1)` for printable ASCII and `None` for the C0 and C1 control codes.
#[verifier::external_body]
fn char_width(c: char) -> (r: Option<usize>)
    ensures
        r == char_width_of(c),
        ' ' <= c < '\u{7f}' ==> r == Some(1usize),
        c < ' ' || ('\u{7f}' <= c < '\u{a0}') ==> r is None,
{
    UnicodeWidthChar::width(c)
}

/// Relies on `UnicodeWidthStr::width`: the width of the whole string, which
/// depends on its characters alone; printable ASCII takes one column a character.
#[verifier::external_body]
fn str_width(s: &str) -> (r: usize)
    ensures
        r == str_width_of(s@),
        printable_ascii(s@) ==> r == s@.len(),
{
    UnicodeWidthStr::width(s)
}

/// Every character is printable ASCII (space to `~`).
pub open spec fn printable_ascii(s: Seq<char>) -> bool {
    forall|i: int| 0 <= i < s.len() ==> ' ' <= #[trigger] s[i] <= '~'
}

/// Where the scanner stands within an escape sequence.
#[derive(PartialEq, Eq, Structural, Clone, Copy, Debug)]
pub enum ScanState {
    /// Outside any escape sequence.
    Normal,
    /// Just after an ESC.
    EscapeChar,
    /// Inside a CSI sequence, after `ESC [`.
    OpenBracket,
    /// Just after the `m` that ends a CSI sequence.
    AfterEscape,
    /// Inside an OSC sequence, after `ESC ]`.
    Osc,
    /// Just after an ESC inside an OSC sequence.
    OscEscapeChar,
}

pub open spec fn is_esc(c: char) -> bool {
    c == '\u{1b}'
}

/// Whether a character takes at least one column on its own.
pub open spec fn visible(c: char) -> bool {
    match char_width_of(c) {
        Some(w) => w > 0,
        None => false,
    }
}

pub open spec fn one_if_visible(c: char) -> nat {
    if visible(c) { 1 } else { 0 }
}

/// One step of the scanner: the next state and the hidden columns added.
pub open spec fn step(state: ScanState, c: char) -> (ScanState, nat) {
    match state {
        ScanState::Normal => {
            if is_esc(c) { (ScanState::EscapeChar, 0) } else { (ScanState::Normal, 0) }
        },
        ScanState::EscapeChar => {
            if is_esc(c) {
                (ScanState::EscapeChar, 0)
            } else if c == '[' {
                (ScanState::OpenBracket, 0)
            } else if c == ']' {
                (ScanState::Osc, 2)
            } else {
                (ScanState::Normal, 0)
            }
        },
        ScanState::OpenBracket => {
            let next = if c == 'm' {
                ScanState::AfterEscape
            } else if is_esc(c) {
                ScanState::EscapeChar
            } else {
                ScanState::OpenBracket
            };
            (next, one_if_visible(c))
        },
        ScanState::AfterEscape => (ScanState::Normal, one_if_visible(c)),
        ScanState::Osc => {
            if is_esc(c) {
                (ScanState::OscEscapeChar, one_if_visible(c))
            } else {
                (ScanState::Osc, one_if_visible(c))
            }
        },
        ScanState::OscEscapeChar => {
            if c == '\\' {
                (ScanState::Normal, 2)
            } else {
                (ScanState::Osc, one_if_visible(c))
            }
        },
    }
}

/// State and hidden columns after scanning `s` from `Normal`.
pub open spec fn scan(s: Seq<char>) -> (ScanState, nat)
    decreases s.len(),
{
    if s.len() == 0 {
        (ScanState::Normal, 0)
    } else {
        let prev = scan(s.drop_last());
        let next = step(prev.0, s.last());
        (next.0, prev.1 + next.1)
    }
}

/// Columns that the width table counts but that belong to escape sequences.
pub open spec fn hidden_width(s: Seq<char>) -> nat {
    scan(s).1
}

/// Whether the width table gives `s` at least as many columns as its escape
/// sequences hide.
pub open spec fn width_consistent(s: Seq<char>) -> bool {
    hidden_width(s) <= str_width_of(s)
}

/// Display width of `s`: the table's width less the hidden columns.
pub open spec fn spec_display_width(s: Seq<char>) -> int {
    str_width_of(s) - hidden_width(s)
}

pub open spec fn waits_for_char(state: ScanState) -> bool {
    state == ScanState::EscapeChar || state == ScanState::OscEscapeChar
}

/// Hidden columns of `text`, scanning it once.
pub fn hidden_columns(text: &str) -> (r: usize)
    ensures
        r == hidden_width(text@),
        r <= text@.len(),
{
    let n = text.unicode_len();
    let mut state = ScanState::Normal;
    let mut hidden: usize = 0;
    let ghost mut i: int = 0;
    for c in it: text.chars()
        invariant
            n == text@.len(),
            it.seq() == text@,
            i == it.index(),
            0 <= i <= text@.len(),
            scan(text@.subrange(0, i)) == (state, hidden as nat),
            hidden + (if waits_for_char(state) { 1int } else { 0int }) <= i,
    {
        let w = char_width(c);
        let shows = match w {
            Some(k) => k > 0,
            None => false,
        };
        let add: usize;
        let next: ScanState;
        match state {
            ScanState::Normal => {
                next = if c == '\u{1b}' { ScanState::EscapeChar } else { ScanState::Normal };
                add = 0;
            },
            ScanState::EscapeChar => {
                if c == '\u{1b}' {
                    next = ScanState::EscapeChar;
                    add = 0;
                } else if c == '[' {
                    next = ScanState::OpenBracket;
                    add = 0;
                } else if c == ']' {
                    next = ScanState::Osc;
                    add = 2;
                } else {
                    next = ScanState::Normal;
                    add = 0;
                }
            },
            ScanState::OpenBracket => {
                next = if c == 'm' {
                    ScanState::AfterEscape
                } else if c == '\u{1b}' {
                    ScanState::EscapeChar
                } else {
                    ScanState::OpenBracket
                };
                add = if shows { 1 } else { 0 };
            },
            ScanState::AfterEscape => {
                next = ScanState::Normal;
                add = if shows { 1 } else { 0 };
            },
            ScanState::Osc => {
                next = if c == '\u{1b}' { ScanState::OscEscapeChar } else { ScanState::Osc };
                add = if shows { 1 } else { 0 };
            },
            ScanState::OscEscapeChar => {
                if c == '\\' {
                    next = ScanState::Normal;
                    add = 2;
                } else {
                    next = ScanState::Osc;
                    add = if shows { 1 } else { 0 };
                }
            },
        }
        proof {
            let pre = text@.subrange(0, i);
            let cur = text@.subrange(0, i + 1);
            assert(cur.drop_last() =~= pre);
            assert(cur.last() == c);
        }
        state = next;
        hidden = hidden + add;
        proof {
            i = i + 1;
        }
    }
    proof {
        assert(text@.subrange(0, i) =~= text@);
    }
    hidden
}

/// Display width of `text`: the width table's count less the columns of its
/// escape sequences. The table must give at least the hidden columns; a text
/// where it does not reveals a disagreement between the table and the scanner.
pub fn display_width(text: &str) -> (r: usize)
    requires
        width_consistent(text@),
    ensures
        r == spec_display_width(text@),
        printable_ascii(text@) ==> r == text@.len(),
{
    let width = str_width(text);
    let hidden = hidden_columns(text);
    proof {
        if printable_ascii(text@) {
            assert(free_of_esc(text@));
            lemma_plain_text_width(text@);
        }
    }
    width - hidden
}

/// Display width of `text`, or `None` where its escape sequences hide more
/// columns than the width table gives the whole text.
pub fn checked_display_width(text: &str) -> (r: Option<usize>)
    ensures
        r == (if width_consistent(text@) {
            Some(spec_display_width(text@) as usize)
        } else {
            None
        }),
        printable_ascii(text@) ==> r == Some(text@.len() as usize),
{
    let width = str_width(text);
    let hidden = hidden_columns(text);
    proof {
        if printable_ascii(text@) {
            assert(free_of_esc(text@));
            lemma_plain_text_width(text@);
        }
    }
    if hidden <= width {
        Some(width - hidden)
    } else {
        None
    }
}

pub open spec fn free_of_esc(s: Seq<char>) -> bool {
    forall|i: int| 0 <= i < s.len() ==> !is_esc(#[trigger] s[i])
}

/// The markup that opens (or, with an empty target, closes) a hyperlink:
/// `ESC ] target ESC \`.
pub open spec fn hyperlink_markup(target: Seq<char>) -> Seq<char> {
    seq!['\u{1b}', ']'] + target + seq!['\u{1b}', '\\']
}

/// Texts that scan alike go on scanning alike.
proof fn lemma_scan_congruent(x: Seq<char>, y: Seq<char>, b: Seq<char>)
    requires
        scan(x) == scan(y),
    ensures
        scan(x + b) == scan(y + b),
    decreases b.len(),
{
    if b.len() > 0 {
        assert((x + b).drop_last() =~= x + b.drop_last());
        assert((y + b).drop_last() =~= y + b.drop_last());
        lemma_scan_congruent(x, y, b.drop_last());
    } else {
        assert(x + b =~= x);
        assert(y + b =~= y);
    }
}

/// Text without ESC, read outside any sequence, hides nothing.
proof fn lemma_plain_text_scan(a: Seq<char>, t: Seq<char>)
    requires
        scan(a).0 == ScanState::Normal,
        free_of_esc(t),
    ensures
        scan(a + t) == scan(a),
    decreases t.len(),
{
    if t.len() > 0 {
        assert((a + t).drop_last() =~= a + t.drop_last());
        assert(t.last() == t[t.len() - 1]);
        lemma_plain_text_scan(a, t.drop_last());
    } else {
        assert(a + t =~= a);
    }
}

/// Text without ESC, read inside an OSC sequence, stays inside it.
proof fn lemma_osc_payload_scan(a: Seq<char>, t: Seq<char>)
    requires
        scan(a).0 == ScanState::Osc,
        free_of_esc(t),
    ensures
        scan(a + t).0 == ScanState::Osc,
    decreases t.len(),
{
    if t.len() > 0 {
        assert((a + t).drop_last() =~= a + t.drop_last());
        assert(t.last() == t[t.len() - 1]);
        lemma_osc_payload_scan(a, t.drop_last());
    } else {
        assert(a + t =~= a);
    }
}

/// Text without ESC hides no columns, so its display width is the width
/// table's.
pub proof fn lemma_plain_text_width(s: Seq<char>)
    requires
        free_of_esc(s),
    ensures
        hidden_width(s) == 0,
        width_consistent(s),
        spec_display_width(s) == str_width_of(s),
{
    let e = Seq::<char>::empty();
    lemma_plain_text_scan(e, s);
    assert(e + s =~= s);
}

/// A hyperlink's markup, with a target free of ESC, ends outside any sequence.
pub proof fn lemma_hyperlink_markup_closes(target: Seq<char>)
    requires
        free_of_esc(target),
    ensures
        scan(hyperlink_markup(target)).0 == ScanState::Normal,
{
    let open = seq!['\u{1b}', ']'];
    let esc = seq!['\u{1b}'];
    assert(esc.drop_last() =~= Seq::<char>::empty());
    assert(esc.last() == '\u{1b}');
    assert(scan(Seq::<char>::empty()) == (ScanState::Normal, 0nat));
    assert(scan(esc) == (ScanState::EscapeChar, 0nat));
    assert(open.drop_last() =~= esc);
    assert(open.last() == ']');
    assert(scan(open).0 == ScanState::Osc);
    lemma_osc_payload_scan(open, target);
    let m = hyperlink_markup(target);
    let body = open + target;
    let b2 = body + esc;
    assert(b2.drop_last() =~= body);
    assert(b2.last() == '\u{1b}');
    assert(scan(b2).0 == ScanState::OscEscapeChar);
    assert(m.drop_last() =~= b2);
    assert(m.last() == '\\');
}

/// The label between a hyperlink's two markups is not hidden: the hidden
/// columns of the whole are those of the markup alone, whatever label
/// without ESC it wraps.
pub proof fn lemma_hyperlink_label_shown(target: Seq<char>, label: Seq<char>, close: Seq<char>)
    requires
        free_of_esc(target),
        free_of_esc(label),
    ensures
        hidden_width(hyperlink_markup(target) + label + hyperlink_markup(close)) == hidden_width(
            hyperlink_markup(target) + hyperlink_markup(close),
        ),
{
    let m = hyperlink_markup(target);
    lemma_hyperlink_markup_closes(target);
    lemma_plain_text_scan(m, label);
    lemma_scan_congruent(m + label, m, hyperlink_markup(close));
}

} // verus!
