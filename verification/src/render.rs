//! The meaning of a generated render procedure.
//!
//! The code generator emits one write statement per body node; the functions
//! here state what those statements write when the procedure runs and every
//! write succeeds: nothing for a comment, the text verbatim for a text node,
//! and the HTML-escaped rendering of the bound value for an expression node.
//! The binding environment maps each expression path to the textual form of
//! its value.

use vstd::prelude::*;
use crate::grammar::{body_parse, node_parse, NodeView};
use crate::html::escaped;
use crate::scan::{comment_end, lemma_comment_end_bounds, text_end};

verus! {

/// What one node's generated statement writes, under `env`.
pub open spec fn node_output(n: NodeView, env: Map<Seq<char>, Seq<char>>) -> Seq<char> {
    match n {
        NodeView::Comment => Seq::<char>::empty(),
        NodeView::Text(t) => t,
        NodeView::Expression(e) => escaped(env[e]),
    }
}

/// What a generated procedure writes when every write succeeds: each node's
/// output in source order.
pub open spec fn body_output(ns: Seq<NodeView>, env: Map<Seq<char>, Seq<char>>) -> Seq<char>
    decreases ns.len(),
{
    if ns.len() == 0 {
        Seq::<char>::empty()
    } else {
        node_output(ns[0], env) + body_output(ns.drop_first(), env)
    }
}

proof fn lemma_text_end_all(s: Seq<char>, i: int)
    requires
        0 <= i <= s.len(),
        forall|j: int| i <= j < s.len() ==> s[j] != '@',
    ensures
        text_end(s, i) == s.len(),
    decreases s.len() - i,
{
    if i < s.len() {
        lemma_text_end_all(s, i + 1);
    }
}

/// A body that is pure text with no trigger character parses as exactly one
/// text node holding that text, and the procedure generated from it writes
/// exactly that text, unchanged.
pub proof fn lemma_pure_text_renders_verbatim(s: Seq<char>, env: Map<Seq<char>, Seq<char>>)
    requires
        s.len() > 0,
        forall|j: int| 0 <= j < s.len() ==> s[j] != '@',
    ensures
        body_parse(s, 0) == (seq![NodeView::Text(s)], s.len() as int),
        body_output(body_parse(s, 0).0, env) == s,
{
    let n = s.len() as int;
    lemma_text_end_all(s, 0);
    assert(comment_end(s, 0) is None);
    assert(s.subrange(0, n) =~= s);
    assert(node_parse(s, 0) == Some((NodeView::Text(s), n)));
    assert(node_parse(s, n) is None);
    assert(body_parse(s, n) == (Seq::<NodeView>::empty(), n));
    assert(body_parse(s, 0).0 =~= seq![NodeView::Text(s)]);
    assert(body_parse(s, 0).1 == n);
    let ns = body_parse(s, 0).0;
    assert(ns.drop_first() =~= Seq::<NodeView>::empty());
    assert(body_output(Seq::<NodeView>::empty(), env) == Seq::<char>::empty());
    assert(ns[0] == NodeView::Text(s));
    assert(body_output(ns, env) =~= s);
}

/// A body that is one well-formed comment parses as exactly one comment node,
/// and the procedure generated from it writes nothing.
pub proof fn lemma_comment_only_renders_nothing(s: Seq<char>, env: Map<Seq<char>, Seq<char>>)
    requires
        comment_end(s, 0) == Some(s.len() as int),
    ensures
        body_parse(s, 0) == (seq![NodeView::Comment], s.len() as int),
        body_output(body_parse(s, 0).0, env) == Seq::<char>::empty(),
{
    let n = s.len() as int;
    lemma_comment_end_bounds(s, 0);
    assert(node_parse(s, 0) == Some((NodeView::Comment, n)));
    assert(comment_end(s, n) is None);
    assert(node_parse(s, n) is None);
    assert(body_parse(s, n) == (Seq::<NodeView>::empty(), n));
    assert(body_parse(s, 0).0 =~= seq![NodeView::Comment]);
    assert(body_parse(s, 0).1 == n);
    let ns = body_parse(s, 0).0;
    assert(ns.drop_first() =~= Seq::<NodeView>::empty());
    assert(body_output(Seq::<NodeView>::empty(), env) == Seq::<char>::empty());
    assert(ns[0] == NodeView::Comment);
    assert(body_output(ns, env) =~= Seq::<char>::empty());
}

} // verus!
