//! XML entity escaping, matching `Utils/Xml.escape`.

use vstd::prelude::*;

use crate::text::{push_char, push_str};

verus! {

/// The escaped form of one character: the five significant XML characters
/// become entities, every other character stands for itself.
pub open spec fn escape_char(c: char) -> Seq<char> {
    if c == '&' {
        seq!['&', 'a', 'm', 'p', ';']
    } else if c == '\'' {
        seq!['&', 'a', 'p', 'o', 's', ';']
    } else if c == '"' {
        seq!['&', 'q', 'u', 'o', 't', ';']
    } else if c == '<' {
        seq!['&', 'l', 't', ';']
    } else if c == '>' {
        seq!['&', 'g', 't', ';']
    } else {
        seq![c]
    }
}

/// The XML-escaped form of a text.
pub open spec fn xml_escape(s: Seq<char>) -> Seq<char>
    decreases s.len(),
{
    if s.len() == 0 {
        Seq::empty()
    } else {
        xml_escape(s.drop_last()) + escape_char(s.last())
    }
}

/// Escaping a concatenation escapes each part.
pub proof fn lemma_xml_escape_concat(a: Seq<char>, b: Seq<char>)
    ensures
        xml_escape(a + b) == xml_escape(a) + xml_escape(b),
    decreases b.len(),
{
    if b.len() == 0 {
        assert(a + b =~= a);
        assert(xml_escape(a) + xml_escape(b) =~= xml_escape(a));
    } else {
        lemma_xml_escape_concat(a, b.drop_last());
        assert((a + b).drop_last() =~= a + b.drop_last());
        assert((a + b).last() == b.last());
        assert(xml_escape(a) + xml_escape(b) =~= xml_escape(a) + xml_escape(b.drop_last())
            + escape_char(b.last()));
    }
}

/// Appends the escaped form of `c` to `out`.
fn push_escaped_char(out: &mut String, c: char)
    ensures
        final(out)@ == old(out)@ + escape_char(c),
{
    if c == '&' {
        proof {
            reveal_strlit("&amp;");
        }
        push_str(out, "&amp;");
    } else if c == '\'' {
        proof {
            reveal_strlit("&apos;");
        }
        push_str(out, "&apos;");
    } else if c == '"' {
        proof {
            reveal_strlit("&quot;");
        }
        push_str(out, "&quot;");
    } else if c == '<' {
        proof {
            reveal_strlit("&lt;");
        }
        push_str(out, "&lt;");
    } else if c == '>' {
        proof {
            reveal_strlit("&gt;");
        }
        push_str(out, "&gt;");
    } else {
        push_char(out, c);
        assert(old(out)@.push(c) =~= old(out)@ + seq![c]);
    }
}

/// Appends the XML-escaped form of `s` to `out`.
pub fn push_escaped(out: &mut String, s: &str)
    ensures
        final(out)@ == old(out)@ + xml_escape(s@),
{
    let ghost start = out@;
    for c in it: s.chars()
        invariant
            it.seq() == s@,
            out@ == start + xml_escape(s@.take(it.index() as int)),
    {
        proof {
            let i = it.index() as int;
            assert(s@.take(i + 1).drop_last() =~= s@.take(i));
            assert(s@.take(i + 1).last() == c);
        }
        push_escaped_char(out, c);
        proof {
            let i = it.index() as int;
            assert(start + xml_escape(s@.take(i)) + escape_char(c) =~= start + xml_escape(
                s@.take(i + 1),
            ));
        }
    }
    assert(s@.take(s@.len() as int) =~= s@);
}

/// A string wrapper that escapes the five significant XML characters when
/// rendered.
pub struct Escaped<'a>(pub &'a str);

impl<'a> Escaped<'a> {
    /// The escaped text.
    pub fn to_string(&self) -> (s: String)
        ensures
            s@ == xml_escape(self.0@),
    {
        let mut s = String::new();
        push_escaped(&mut s, self.0);
        assert(Seq::<char>::empty() + xml_escape(self.0@) =~= xml_escape(self.0@));
        s
    }
}


/// A character with no XML significance.
pub open spec fn is_plain_char(c: char) -> bool {
    c != '&' && c != '\'' && c != '"' && c != '<' && c != '>'
}

/// Text without any of the five significant characters passes through
/// escaping unchanged.
pub proof fn law_plain_text_passes_through(s: Seq<char>)
    requires
        forall|i: int| 0 <= i < s.len() ==> is_plain_char(#[trigger] s[i]),
    ensures
        xml_escape(s) == s,
    decreases s.len(),
{
    if s.len() > 0 {
        law_plain_text_passes_through(s.drop_last());
        assert(is_plain_char(s[s.len() - 1]));
        assert(s.drop_last().push(s.last()) =~= s);
        assert(xml_escape(s.drop_last()) + seq![s.last()] =~= s);
    }
}

/// Escaping never shortens a text: every character becomes itself or a
/// longer entity.
pub proof fn law_escape_never_shortens(s: Seq<char>)
    ensures
        xml_escape(s).len() >= s.len(),
    decreases s.len(),
{
    if s.len() > 0 {
        law_escape_never_shortens(s.drop_last());
    }
}

} // verus!
