//! HTML escaping: the runtime capability the generated code depends on,
//! provided here as verified functions over character data.

use vstd::prelude::*;
use crate::chars::{append_chars, append_str};

verus! {

/// Entity form of one character: the characters significant in HTML are
/// replaced by their entities; every other character passes through unchanged.
pub open spec fn escape_char(c: char) -> Seq<char> {
    if c == '<' {
        "&lt;"@
    } else if c == '>' {
        "&gt;"@
    } else if c == '&' {
        "&amp;"@
    } else if c == '"' {
        "&quot;"@
    } else if c == '\'' {
        "&#39;"@
    } else {
        seq![c]
    }
}

/// The HTML-escaped rendering of a text: each character replaced by its
/// entity form, in order.
pub open spec fn escaped(s: Seq<char>) -> Seq<char>
    decreases s.len(),
{
    if s.len() == 0 {
        Seq::<char>::empty()
    } else {
        escape_char(s[0]) + escaped(s.drop_first())
    }
}

pub proof fn lemma_escaped_push(s: Seq<char>, c: char)
    ensures
        escaped(s.push(c)) == escaped(s) + escape_char(c),
    decreases s.len(),
{
    if s.len() == 0 {
        assert(s.push(c)[0] == c);
        assert(s.push(c).drop_first() =~= Seq::<char>::empty());
        assert(s =~= Seq::<char>::empty());
        assert(escaped(Seq::<char>::empty()) == Seq::<char>::empty());
        assert(escaped(s.push(c)) == escape_char(c) + escaped(Seq::<char>::empty()));
        assert(escaped(s.push(c)) =~= escaped(s) + escape_char(c));
    } else {
        assert(s.push(c).drop_first() =~= s.drop_first().push(c));
        lemma_escaped_push(s.drop_first(), c);
        assert(escaped(s.push(c)) =~= escaped(s) + escape_char(c));
    }
}

/// Write the HTML-escaped rendering of `value` to `out`.
pub fn to_html(value: &[char], out: &mut Vec<char>)
    ensures
        final(out)@ == old(out)@ + escaped(value@),
{
    let n = value.len();
    let mut i: usize = 0;
    while i < n
        invariant
            n == value@.len(),
            i <= n,
            out@ == old(out)@ + escaped(value@.take(i as int)),
        decreases n - i,
    {
        let c = value[i];
        if c == '<' {
            append_str(out, "&lt;");
        } else if c == '>' {
            append_str(out, "&gt;");
        } else if c == '&' {
            append_str(out, "&amp;");
        } else if c == '"' {
            append_str(out, "&quot;");
        } else if c == '\'' {
            append_str(out, "&#39;");
        } else {
            out.push(c);
        }
        proof {
            assert(value@.take(i + 1) =~= value@.take(i as int).push(c));
            lemma_escaped_push(value@.take(i as int), c);
            assert(out@ =~= old(out)@ + escaped(value@.take(i + 1)));
        }
        i = i + 1;
    }
    proof {
        assert(value@.take(n as int) =~= value@);
    }
}

/// A text marked as pre-escaped raw HTML: its rendering writes the inner text
/// unchanged, bypassing escaping.
pub struct Html(pub Vec<char>);

impl Html {
    /// Write the inner text to `out` unchanged.
    pub fn to_html(&self, out: &mut Vec<char>)
        ensures
            final(out)@ == old(out)@ + self.0@,
    {
        append_chars(out, &self.0);
    }
}

} // verus!
