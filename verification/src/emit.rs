//! The code generator: renders a parsed document into the source text of a
//! render function.
//!
//! The generated procedure is strictly sequential and short-circuiting: each
//! text or expression node becomes one write statement that propagates a
//! write failure immediately, and a trailing success value follows the last
//! statement. The generator performs no output of its own; it is a pure
//! function from document and function name to source text.
//!
//! Hazard inherited from the grammar: text and preamble and argument content
//! is spliced verbatim into the generated source. Content that is significant
//! in the host language (a string delimiter, an escape sequence) can make the
//! generated source invalid or alter its meaning; the grammar performs no
//! sanitization beyond what it already excludes.

use vstd::prelude::*;
use crate::grammar::{NodeView, Template, TemplateExpression, TemplateView};
use crate::chars::{append_chars, append_str};

verus! {

/// Source text generated for one body node: nothing for a comment, a verbatim
/// write for text, an escaped-rendering write for an expression.
pub open spec fn node_code(n: NodeView) -> Seq<char> {
    match n {
        NodeView::Comment => Seq::<char>::empty(),
        NodeView::Text(t) => "try!(write!(out, \""@ + t + "\"));\n"@,
        NodeView::Expression(e) => "try!("@ + e + ".to_html(out));\n"@,
    }
}

/// Concatenation of the nodes' statements, in source order.
pub open spec fn body_code(ns: Seq<NodeView>) -> Seq<char>
    decreases ns.len(),
{
    if ns.len() == 0 {
        Seq::<char>::empty()
    } else {
        node_code(ns[0]) + body_code(ns.drop_first())
    }
}

/// The preamble statements, each emitted verbatim and terminated, in order.
pub open spec fn preamble_code(ps: Seq<Seq<char>>) -> Seq<char>
    decreases ps.len(),
{
    if ps.len() == 0 {
        Seq::<char>::empty()
    } else {
        ps[0] + ";\n"@ + preamble_code(ps.drop_first())
    }
}

/// The argument declarations, each verbatim after the sink parameter, in order.
pub open spec fn args_code(args: Seq<Seq<char>>) -> Seq<char>
    decreases args.len(),
{
    if args.len() == 0 {
        Seq::<char>::empty()
    } else {
        ", "@ + args[0] + args_code(args.drop_first())
    }
}

/// The full render-function source for a document under `name`: preamble
/// lines, the signature with the output sink first and each argument
/// verbatim, the body statements, and the trailing success value.
pub open spec fn template_code(t: TemplateView, name: Seq<char>) -> Seq<char> {
    preamble_code(t.preamble) + "\npub fn "@ + name + "(out: &mut Write"@ + args_code(t.args)
        + ") -> io::Result<()> {\n"@ + body_code(t.body) + "Ok(())\n}"@
}

pub proof fn lemma_preamble_code_push(ps: Seq<Seq<char>>, x: Seq<char>)
    ensures
        preamble_code(ps.push(x)) == preamble_code(ps) + x + ";\n"@,
    decreases ps.len(),
{
    if ps.len() == 0 {
        assert(ps.push(x)[0] == x);
        assert(ps.push(x).drop_first() =~= Seq::<Seq<char>>::empty());
        assert(ps =~= Seq::<Seq<char>>::empty());
        assert(preamble_code(ps.push(x)) =~= preamble_code(ps) + x + ";\n"@);
    } else {
        assert(ps.push(x).drop_first() =~= ps.drop_first().push(x));
        lemma_preamble_code_push(ps.drop_first(), x);
        assert(preamble_code(ps.push(x)) =~= preamble_code(ps) + x + ";\n"@);
    }
}

pub proof fn lemma_args_code_push(args: Seq<Seq<char>>, x: Seq<char>)
    ensures
        args_code(args.push(x)) == args_code(args) + ", "@ + x,
    decreases args.len(),
{
    if args.len() == 0 {
        assert(args.push(x)[0] == x);
        assert(args.push(x).drop_first() =~= Seq::<Seq<char>>::empty());
        assert(args =~= Seq::<Seq<char>>::empty());
        assert(args_code(args.push(x)) =~= args_code(args) + ", "@ + x);
    } else {
        assert(args.push(x).drop_first() =~= args.drop_first().push(x));
        lemma_args_code_push(args.drop_first(), x);
        assert(args_code(args.push(x)) =~= args_code(args) + ", "@ + x);
    }
}

pub proof fn lemma_body_code_push(ns: Seq<NodeView>, x: NodeView)
    ensures
        body_code(ns.push(x)) == body_code(ns) + node_code(x),
    decreases ns.len(),
{
    if ns.len() == 0 {
        assert(ns.push(x)[0] == x);
        assert(ns.push(x).drop_first() =~= Seq::<NodeView>::empty());
        assert(ns =~= Seq::<NodeView>::empty());
        assert(body_code(ns.push(x)) =~= body_code(ns) + node_code(x));
    } else {
        assert(ns.push(x).drop_first() =~= ns.drop_first().push(x));
        lemma_body_code_push(ns.drop_first(), x);
        assert(body_code(ns.push(x)) =~= body_code(ns) + node_code(x));
    }
}

impl TemplateExpression {
    /// The statement this node contributes to the generated body.
    pub fn code(&self) -> (out: Vec<char>)
        ensures
            out@ == node_code(self@),
    {
        let mut out: Vec<char> = Vec::new();
        match self {
            TemplateExpression::Comment => {},
            TemplateExpression::Text { text } => {
                append_str(&mut out, "try!(write!(out, \"");
                append_chars(&mut out, text);
                append_str(&mut out, "\"));\n");
            },
            TemplateExpression::Expression { expr } => {
                append_str(&mut out, "try!(");
                append_chars(&mut out, expr);
                append_str(&mut out, ".to_html(out));\n");
            },
        }
        proof {
            assert(out@ =~= node_code(self@));
        }
        out
    }
}

impl Template {
    /// Append the source text of this document's render function, named
    /// `name`, to `out`.
    pub fn write_rust(&self, out: &mut Vec<char>, name: &str)
        ensures
            final(out)@ == old(out)@ + template_code(self@, name@),
    {
        let ghost entry = out@;
        let pn = self.preamble.len();
        let mut i: usize = 0;
        while i < pn
            invariant
                pn == self.preamble@.len(),
                i <= pn,
                out@ == entry + preamble_code(self@.preamble.take(i as int)),
            decreases pn - i,
        {
            let ghost done = self@.preamble.take(i as int);
            append_chars(out, &self.preamble[i]);
            append_str(out, ";\n");
            proof {
                assert(self@.preamble.take(i + 1) =~~= done.push(self.preamble@[i as int]@));
                lemma_preamble_code_push(done, self.preamble@[i as int]@);
                assert(out@ =~= entry + preamble_code(self@.preamble.take(i + 1)));
            }
            i = i + 1;
        }
        proof {
            assert(self@.preamble.take(pn as int) =~~= self@.preamble);
        }
        append_str(out, "\npub fn ");
        append_str(out, name);
        append_str(out, "(out: &mut Write");
        let an = self.args.len();
        let ghost before_args = out@;
        let mut j: usize = 0;
        while j < an
            invariant
                an == self.args@.len(),
                j <= an,
                out@ == before_args + args_code(self@.args.take(j as int)),
            decreases an - j,
        {
            let ghost done = self@.args.take(j as int);
            append_str(out, ", ");
            append_chars(out, &self.args[j]);
            proof {
                assert(self@.args.take(j + 1) =~~= done.push(self.args@[j as int]@));
                lemma_args_code_push(done, self.args@[j as int]@);
                assert(out@ =~= before_args + args_code(self@.args.take(j + 1)));
            }
            j = j + 1;
        }
        proof {
            assert(self@.args.take(an as int) =~~= self@.args);
        }
        append_str(out, ") -> io::Result<()> {\n");
        let bn = self.body.len();
        let ghost before_body = out@;
        let mut k: usize = 0;
        while k < bn
            invariant
                bn == self.body@.len(),
                k <= bn,
                out@ == before_body + body_code(self@.body.take(k as int)),
            decreases bn - k,
        {
            let ghost done = self@.body.take(k as int);
            let stmt = self.body[k].code();
            append_chars(out, &stmt);
            proof {
                assert(self@.body.take(k + 1) =~~= done.push(self.body@[k as int]@));
                lemma_body_code_push(done, self.body@[k as int]@);
                assert(out@ =~= before_body + body_code(self@.body.take(k + 1)));
            }
            k = k + 1;
        }
        proof {
            assert(self@.body.take(bn as int) =~~= self@.body);
        }
        append_str(out, "Ok(())\n}");
        proof {
            assert(out@ =~= entry + template_code(self@, name@));
        }
    }
}

} // verus!
