//! Escaping of literal text for embedding in image metadata.
//!
//! The five XML-significant characters and the two line-break characters are
//! replaced by character references; every other character passes through.

use vstd::prelude::*;
use crate::fix::push_char;

verus! {

/// One piece of escaped output: either a character kept as it is, or the
/// reference text that replaces it.
pub enum Segment {
    Literal(char),
    Escape(&'static str),
}

/// Whether `c` is one of the seven characters that escaped output
/// replaces by a reference: the five XML-significant characters and the
/// two line breaks.
pub open spec fn is_escaped_char(c: char) -> bool {
    c == '<' || c == '>' || c == '\'' || c == '"' || c == '&' || c == '\n' || c == '\r'
}

/// The escaped text that stands for the character `c`.
pub open spec fn escape_char_text(c: char) -> Seq<char> {
    if c == '<' {
        "&lt;"@
    } else if c == '>' {
        "&gt;"@
    } else if c == '\'' {
        "&apos;"@
    } else if c == '"' {
        "&quot;"@
    } else if c == '&' {
        "&amp;"@
    } else if c == '\n' {
        "&#xA;"@
    } else if c == '\r' {
        "&#xD;"@
    } else {
        seq![c]
    }
}

/// The text of a segment.
pub open spec fn segment_text(seg: Segment) -> Seq<char> {
    match seg {
        Segment::Literal(ch) => seq![ch],
        Segment::Escape(esc) => esc@,
    }
}

/// The escaped text that stands for the whole of `s`.
pub open spec fn escape_text(s: Seq<char>) -> Seq<char>
    decreases s.len(),
{
    if s.len() == 0 {
        Seq::empty()
    } else {
        escape_text(s.drop_last()) + escape_char_text(s.last())
    }
}

impl Segment {
    /// The segment that stands for `c` in escaped output: the named
    /// reference for the seven escaped characters, `c` itself otherwise.
    pub fn from_char(c: char) -> (seg: Segment)
        ensures
            segment_text(seg) == escape_char_text(c),
            is_escaped_char(c) ==> seg is Escape,
            !is_escaped_char(c) ==> seg == Segment::Literal(c),
    {
        match c {
            '<' => Segment::Escape("&lt;"),
            '>' => Segment::Escape("&gt;"),
            '\'' => Segment::Escape("&apos;"),
            '"' => Segment::Escape("&quot;"),
            '&' => Segment::Escape("&amp;"),
            '\n' => Segment::Escape("&#xA;"),
            '\r' => Segment::Escape("&#xD;"),
            _ => Segment::Literal(c),
        }
    }
}

/// `s` with every character escaped, exactly `escape_text(s@)`.
pub fn escape_str(s: &str) -> (output: String)
    ensures
        output@ == escape_text(s@),
{
    let mut output = String::new();
    let len = s.unicode_len();
    let mut i: usize = 0;
    while i < len
        invariant
            len == s@.len(),
            i <= len,
            output@ == escape_text(s@.take(i as int)),
        decreases len - i,
    {
        let ch = s.get_char(i);
        let seg = Segment::from_char(ch);
        match seg {
            Segment::Literal(ch2) => push_char(&mut output, ch2),
            Segment::Escape(esc) => output.append(esc),
        }
        proof {
            assert(s@.take(i + 1).drop_last() =~= s@.take(i as int));
            assert(s@.take(i + 1).last() == s@[i as int]);
            if segment_text(seg) == seq![ch] {
                assert(output@ =~= escape_text(s@.take(i + 1)));
            }
            assert(output@ == escape_text(s@.take(i + 1)));
        }
        i = i + 1;
    }
    proof {
        assert(s@.take(len as int) =~= s@);
    }
    output
}

} // verus!
