//! HTML escaping of text.
use vstd::prelude::*;
use vstd::string::*;

verus! {

/// What one character becomes in escaped HTML.
pub open spec fn escape_char(c: char) -> Seq<char> {
    if c == '<' {
        seq!['&', 'l', 't', ';']
    } else if c == '>' {
        seq!['&', 'g', 't', ';']
    } else if c == '&' {
        seq!['&', 'a', 'm', 'p', ';']
    } else if c == '\'' {
        seq!['&', '#', '3', '9', ';']
    } else if c == '"' {
        seq!['&', 'q', 'u', 'o', 't', ';']
    } else {
        seq![c]
    }
}

/// `s` with `<`, `>`, `&`, `'` and `"` replaced by their entities.
pub open spec fn html_escaped(s: Seq<char>) -> Seq<char>
    decreases s.len(),
{
    if s.len() == 0 {
        Seq::empty()
    } else {
        html_escaped(s.drop_last()) + escape_char(s.last())
    }
}

/// Text that is to be written in its HTML-escaped form.
pub struct HtmlEscape<'a>(pub &'a str);

impl<'a> HtmlEscape<'a> {
    /// The escaped text.
    pub fn to_string(&self) -> (r: String)
        ensures
            r@ == html_escaped(self.0@),
    {
        let text = self.0;
        let mut out = String::new();
        let ghost mut i: int = 0;
        for c in it: text.chars()
            invariant
                it.seq() == text@,
                i == it.index(),
                0 <= i <= text@.len(),
                out@ == html_escaped(text@.subrange(0, i)),
        {
            proof {
                let cur = text@.subrange(0, i + 1);
                assert(cur.drop_last() =~= text@.subrange(0, i));
                assert(cur.last() == c);
            }
            if c == '<' {
                proof { reveal_strlit("&lt;"); }
                out.append("&lt;");
            } else if c == '>' {
                proof { reveal_strlit("&gt;"); }
                out.append("&gt;");
            } else if c == '&' {
                proof { reveal_strlit("&amp;"); }
                out.append("&amp;");
            } else if c == '\'' {
                proof { reveal_strlit("&#39;"); }
                out.append("&#39;");
            } else if c == '"' {
                proof { reveal_strlit("&quot;"); }
                out.append("&quot;");
            } else {
                crate::writer::push_char(&mut out, c);
            }
            proof {
                assert(out@ =~= html_escaped(text@.subrange(0, i + 1)));
                i = i + 1;
            }
        }
        proof {
            assert(text@.subrange(0, i) =~= text@);
        }
        out
    }
}

} // verus!
