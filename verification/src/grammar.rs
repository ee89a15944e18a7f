//! The template document grammar.
//!
//! A document is `skip preamble* "@(" arglist ")" skip bodynode*` up to the
//! end of the input, where `preamble` is `@` raw-statement `;` skip, `arglist`
//! is raw arguments joined by the literal separator `", "`, and a body node is
//! a comment, a maximal run of literal text, or `@` followed by a dotted
//! expression. Alternatives are tried in that order and the first match wins;
//! parsing is all-or-nothing per document.
//!
//! The specification-level functions in this module walk the input exactly as
//! the executable parser does; [`template`] is proved to return precisely the
//! outcome of [`doc_parse`].

use vstd::prelude::*;
use crate::scan::{
    arg_end, comment, comment_end, expr_end, expression, is_alpha, lemma_arg_end_bounds,
    lemma_comment_end_bounds, lemma_expr_end_bounds, lemma_skip_end_bounds, lemma_stmt_end_bounds,
    lemma_text_end_bounds, scan_arg_end, scan_stmt_end, scan_text_end, skip_end, spacelike,
    stmt_end, text_end,
};
use crate::chars::copy_range;

verus! {

/// One node of a template body.
#[derive(Debug, PartialEq, Eq)]
pub enum TemplateExpression {
    /// A comment; erased during generation.
    Comment,
    /// A maximal run of source characters containing no `@`; written to the
    /// output verbatim, unescaped.
    Text { text: Vec<char> },
    /// A dot-joined chain of identifiers; its value is written to the output
    /// after escaping.
    Expression { expr: Vec<char> },
}

/// Specification-level form of a body node.
pub enum NodeView {
    Comment,
    Text(Seq<char>),
    Expression(Seq<char>),
}

impl View for TemplateExpression {
    type V = NodeView;

    open spec fn view(&self) -> NodeView {
        match self {
            TemplateExpression::Comment => NodeView::Comment,
            TemplateExpression::Text { text } => NodeView::Text(text@),
            TemplateExpression::Expression { expr } => NodeView::Expression(expr@),
        }
    }
}

impl DeepView for TemplateExpression {
    type V = NodeView;

    open spec fn deep_view(&self) -> NodeView {
        self.view()
    }
}

/// A parsed template document: preamble statements, argument declarations
/// (both raw, unparsed text), and the body nodes, each in source order.
#[derive(Debug, PartialEq, Eq)]
pub struct Template {
    pub preamble: Vec<Vec<char>>,
    pub args: Vec<Vec<char>>,
    pub body: Vec<TemplateExpression>,
}

/// Specification-level form of a template document.
pub struct TemplateView {
    pub preamble: Seq<Seq<char>>,
    pub args: Seq<Seq<char>>,
    pub body: Seq<NodeView>,
}

impl View for Template {
    type V = TemplateView;

    open spec fn view(&self) -> TemplateView {
        TemplateView {
            preamble: self.preamble.deep_view(),
            args: self.args.deep_view(),
            body: self.body.deep_view(),
        }
    }
}

/// The construct the parser was expecting where it failed.
#[derive(Clone, Copy, Debug, PartialEq, Eq, Structural)]
pub enum Expected {
    /// The `@(` opening the argument list.
    ArgsOpen,
    /// The `)` closing the argument list.
    ArgsClose,
    /// The end of the input after the body nodes.
    EndOfInput,
}

/// A parse failure: the position where no grammar rule could continue, and
/// the construct that was expected there.
#[derive(Clone, Copy, Debug, PartialEq, Eq, Structural)]
pub struct ParseError {
    pub offset: usize,
    pub expected: Expected,
}

/// Specification-level outcome of parsing one document.
pub enum DocOutcome {
    Parsed(TemplateView),
    Failed { offset: int, expected: Expected },
}

/// One preamble item at `i`: `@`, at least one character that is none of
/// `;`, `(`, `)`, then `;`, then skippable space and comments. Yields the raw
/// statement text and the position after the trailing skip.
pub open spec fn preamble_item(s: Seq<char>, i: int) -> Option<(Seq<char>, int)> {
    if 0 <= i < s.len() && s[i] == '@' {
        let e = stmt_end(s, i + 1);
        if i + 1 < e && e < s.len() && s[e] == ';' {
            Some((s.subrange(i + 1, e), skip_end(s, e + 1)))
        } else {
            None
        }
    } else {
        None
    }
}

/// All preamble items from `i`: the statements in source order and the
/// position where no further item matches.
pub open spec fn preamble_parse(s: Seq<char>, i: int) -> (Seq<Seq<char>>, int)
    decreases s.len() - i,
{
    match preamble_item(s, i) {
        Some(p) => if i < p.1 <= s.len() {
            let rest = preamble_parse(s, p.1);
            (seq![p.0] + rest.0, rest.1)
        } else {
            (seq![], i)
        },
        None => (seq![], i),
    }
}

/// The arguments after the first one: each is the literal separator `", "`
/// followed by at least one character that is neither `,` nor `)`. A
/// separator not followed by such text is left unconsumed.
pub open spec fn args_tail(s: Seq<char>, i: int) -> (Seq<Seq<char>>, int)
    decreases s.len() - i,
{
    if 0 <= i && i + 1 < s.len() && s[i] == ',' && s[i + 1] == ' ' {
        let e = arg_end(s, i + 2);
        if i + 2 < e && e <= s.len() {
            let rest = args_tail(s, e);
            (seq![s.subrange(i + 2, e)] + rest.0, rest.1)
        } else {
            (seq![], i)
        }
    } else {
        (seq![], i)
    }
}

/// The argument list at `i`: zero or more raw argument texts joined by the
/// literal separator `", "`. An empty list consumes nothing.
pub open spec fn args_parse(s: Seq<char>, i: int) -> (Seq<Seq<char>>, int) {
    let e = arg_end(s, i);
    if 0 <= i < e && e <= s.len() {
        let rest = args_tail(s, e);
        (seq![s.subrange(i, e)] + rest.0, rest.1)
    } else {
        (seq![], i)
    }
}

/// One body node at `i`, trying in order: a comment; a maximal run of
/// non-`@` text; `@` followed by a dotted expression.
pub open spec fn node_parse(s: Seq<char>, i: int) -> Option<(NodeView, int)> {
    match comment_end(s, i) {
        Some(e) => Some((NodeView::Comment, e)),
        None => if 0 <= i < s.len() && s[i] != '@' {
            Some((NodeView::Text(s.subrange(i, text_end(s, i))), text_end(s, i)))
        } else if 0 <= i && i + 1 < s.len() && s[i] == '@' && is_alpha(s[i + 1]) {
            Some(
                (
                    NodeView::Expression(s.subrange(i + 1, expr_end(s, i + 1))),
                    expr_end(s, i + 1),
                ),
            )
        } else {
            None
        },
    }
}

/// All body nodes from `i`: the nodes in source order and the position where
/// no further node matches.
pub open spec fn body_parse(s: Seq<char>, i: int) -> (Seq<NodeView>, int)
    decreases s.len() - i,
{
    match node_parse(s, i) {
        Some(p) => if i < p.1 <= s.len() {
            let rest = body_parse(s, p.1);
            (seq![p.0] + rest.0, rest.1)
        } else {
            (seq![], i)
        },
        None => (seq![], i),
    }
}

/// The whole document grammar over an input: leading skip, preamble items,
/// `@(` arguments `)`, skip, body nodes, end of input. Either every part
/// matches and the input is exhausted, or the outcome is a failure carrying
/// the offset where parsing stopped and the construct expected there.
pub open spec fn doc_parse(s: Seq<char>) -> DocOutcome {
    let i0 = skip_end(s, 0);
    let pre = preamble_parse(s, i0);
    let i1 = pre.1;
    if 0 <= i1 && i1 + 1 < s.len() && s[i1] == '@' && s[i1 + 1] == '(' {
        let ar = args_parse(s, i1 + 2);
        let i2 = ar.1;
        if 0 <= i2 < s.len() && s[i2] == ')' {
            let i3 = skip_end(s, i2 + 1);
            let bo = body_parse(s, i3);
            if bo.1 == s.len() {
                DocOutcome::Parsed(TemplateView { preamble: pre.0, args: ar.0, body: bo.0 })
            } else {
                DocOutcome::Failed { offset: bo.1, expected: Expected::EndOfInput }
            }
        } else {
            DocOutcome::Failed { offset: i2, expected: Expected::ArgsClose }
        }
    } else {
        DocOutcome::Failed { offset: i1, expected: Expected::ArgsOpen }
    }
}

pub proof fn lemma_preamble_item_bounds(s: Seq<char>, i: int)
    requires
        0 <= i <= s.len(),
    ensures
        preamble_item(s, i) matches Some(p) ==> i + 2 < p.1 <= s.len(),
{
    if 0 <= i < s.len() && s[i] == '@' {
        let e = stmt_end(s, i + 1);
        lemma_stmt_end_bounds(s, i + 1);
        if i + 1 < e && e < s.len() && s[e] == ';' {
            lemma_skip_end_bounds(s, e + 1);
        }
    }
}

pub proof fn lemma_preamble_parse_bounds(s: Seq<char>, i: int)
    requires
        0 <= i <= s.len(),
    ensures
        i <= preamble_parse(s, i).1 <= s.len(),
    decreases s.len() - i,
{
    lemma_preamble_item_bounds(s, i);
    match preamble_item(s, i) {
        Some(p) => {
            lemma_preamble_parse_bounds(s, p.1);
        },
        None => {},
    }
}

pub proof fn lemma_args_tail_bounds(s: Seq<char>, i: int)
    requires
        0 <= i <= s.len(),
    ensures
        i <= args_tail(s, i).1 <= s.len(),
    decreases s.len() - i,
{
    if 0 <= i && i + 1 < s.len() && s[i] == ',' && s[i + 1] == ' ' {
        lemma_arg_end_bounds(s, i + 2);
        let e = arg_end(s, i + 2);
        if i + 2 < e && e <= s.len() {
            lemma_args_tail_bounds(s, e);
        }
    }
}

pub proof fn lemma_args_parse_bounds(s: Seq<char>, i: int)
    requires
        0 <= i <= s.len(),
    ensures
        i <= args_parse(s, i).1 <= s.len(),
{
    lemma_arg_end_bounds(s, i);
    let e = arg_end(s, i);
    if 0 <= i < e && e <= s.len() {
        lemma_args_tail_bounds(s, e);
    }
}

pub proof fn lemma_node_parse_bounds(s: Seq<char>, i: int)
    requires
        0 <= i <= s.len(),
    ensures
        node_parse(s, i) matches Some(p) ==> i < p.1 <= s.len(),
{
    lemma_comment_end_bounds(s, i);
    if comment_end(s, i) is None {
        if 0 <= i < s.len() && s[i] != '@' {
            lemma_text_end_bounds(s, i + 1);
        } else if 0 <= i && i + 1 < s.len() && s[i] == '@' && is_alpha(s[i + 1]) {
            lemma_expr_end_bounds(s, i + 1);
        }
    }
}

pub proof fn lemma_body_parse_bounds(s: Seq<char>, i: int)
    requires
        0 <= i <= s.len(),
    ensures
        i <= body_parse(s, i).1 <= s.len(),
    decreases s.len() - i,
{
    lemma_node_parse_bounds(s, i);
    match node_parse(s, i) {
        Some(p) => {
            lemma_body_parse_bounds(s, p.1);
        },
        None => {},
    }
}

/// Recognize one raw argument at `pos`: at least one character that is
/// neither `,` nor `)`, copied verbatim.
pub fn formal_argument(s: &[char], pos: usize) -> (r: Option<(Vec<char>, usize)>)
    requires
        pos <= s@.len(),
    ensures
        match r {
            Some(p) => {
                &&& p.1 as int == arg_end(s@, pos as int)
                &&& pos < p.1 <= s@.len()
                &&& p.0@ == s@.subrange(pos as int, p.1 as int)
            },
            None => arg_end(s@, pos as int) == pos as int,
        },
{
    let e = scan_arg_end(s, pos);
    if e > pos {
        Some((copy_range(s, pos, e), e))
    } else {
        None
    }
}

/// Recognize one body node at `pos`, trying a comment, then literal text,
/// then `@` followed by an expression.
pub fn template_expression(s: &[char], pos: usize) -> (r: Option<(TemplateExpression, usize)>)
    requires
        pos <= s@.len(),
    ensures
        match r {
            Some(p) => node_parse(s@, pos as int) == Some((p.0@, p.1 as int)) && pos < p.1
                <= s@.len(),
            None => node_parse(s@, pos as int) is None,
        },
{
    match comment(s, pos) {
        Some(e) => Some((TemplateExpression::Comment, e)),
        None => {
            if pos < s.len() && s[pos] != '@' {
                let e = scan_text_end(s, pos);
                proof {
                    lemma_text_end_bounds(s@, pos + 1);
                }
                Some((TemplateExpression::Text { text: copy_range(s, pos, e) }, e))
            } else if pos < s.len() {
                match expression(s, pos + 1) {
                    Some((v, e)) => Some((TemplateExpression::Expression { expr: v }, e)),
                    None => None,
                }
            } else {
                None
            }
        },
    }
}

fn parse_preamble(s: &[char], pos: usize) -> (r: (Vec<Vec<char>>, usize))
    requires
        pos <= s@.len(),
    ensures
        r.0.deep_view() == preamble_parse(s@, pos as int).0,
        r.1 as int == preamble_parse(s@, pos as int).1,
        pos <= r.1 <= s@.len(),
{
    let n = s.len();
    let mut items: Vec<Vec<char>> = Vec::new();
    let mut i: usize = pos;
    loop
        invariant
            pos <= i <= n,
            n == s@.len(),
            items.deep_view() + preamble_parse(s@, i as int).0 == preamble_parse(
                s@,
                pos as int,
            ).0,
            preamble_parse(s@, i as int).1 == preamble_parse(s@, pos as int).1,
        decreases n - i,
    {
        proof {
            lemma_preamble_item_bounds(s@, i as int);
            lemma_preamble_parse_bounds(s@, i as int);
        }
        if i < n && s[i] == '@' {
            let e = scan_stmt_end(s, i + 1);
            if i + 1 < e && e < n && s[e] == ';' {
                let stmt = copy_range(s, i + 1, e);
                let next = spacelike(s, e + 1);
                let ghost old_items = items.deep_view();
                items.push(stmt);
                proof {
                    assert(items.deep_view() =~~= old_items.push(stmt@));
                    let rest = preamble_parse(s@, next as int);
                    assert(preamble_parse(s@, i as int).0 =~= seq![stmt@] + rest.0);
                    assert(old_items.push(stmt@) + rest.0 =~= old_items + (seq![stmt@] + rest.0));
                }
                i = next;
            } else {
                proof {
                    assert(preamble_item(s@, i as int) is None);
                    assert(items.deep_view() + Seq::<Seq<char>>::empty() =~= items.deep_view());
                }
                return (items, i);
            }
        } else {
            proof {
                assert(preamble_item(s@, i as int) is None);
                assert(items.deep_view() + Seq::<Seq<char>>::empty() =~= items.deep_view());
            }
            return (items, i);
        }
    }
}

fn parse_args(s: &[char], pos: usize) -> (r: (Vec<Vec<char>>, usize))
    requires
        pos <= s@.len(),
    ensures
        r.0.deep_view() == args_parse(s@, pos as int).0,
        r.1 as int == args_parse(s@, pos as int).1,
        pos <= r.1 <= s@.len(),
{
    let n = s.len();
    let mut items: Vec<Vec<char>> = Vec::new();
    proof {
        lemma_args_parse_bounds(s@, pos as int);
    }
    match formal_argument(s, pos) {
        None => {
            proof {
                assert(args_parse(s@, pos as int) == (Seq::<Seq<char>>::empty(), pos as int));
                assert(items.deep_view() =~= Seq::<Seq<char>>::empty());
            }
            (items, pos)
        },
        Some((first, e0)) => {
            items.push(first);
            let mut i: usize = e0;
            proof {
                assert(items.deep_view() =~~= seq![s@.subrange(pos as int, e0 as int)]);
            }
            loop
                invariant
                    pos <= i <= n,
                    n == s@.len(),
                    items.deep_view() + args_tail(s@, i as int).0 == args_parse(s@, pos as int).0,
                    args_tail(s@, i as int).1 == args_parse(s@, pos as int).1,
                decreases n - i,
            {
                proof {
                    lemma_args_tail_bounds(s@, i as int);
                }
                if i < n && s[i] == ',' && i + 1 < n && s[i + 1] == ' ' {
                    match formal_argument(s, i + 2) {
                        Some((arg, e)) => {
                            let ghost old_items = items.deep_view();
                            items.push(arg);
                            proof {
                                let rest = args_tail(s@, e as int);
                                assert(items.deep_view() =~~= old_items.push(arg@));
                                assert(args_tail(s@, i as int).0 =~= seq![arg@] + rest.0);
                                assert(old_items.push(arg@) + rest.0 =~= old_items + (seq![arg@]
                                    + rest.0));
                            }
                            i = e;
                        },
                        None => {
                            proof {
                                assert(args_tail(s@, i as int) == (
                                    Seq::<Seq<char>>::empty(),
                                    i as int,
                                ));
                                assert(items.deep_view() + Seq::<Seq<char>>::empty()
                                    =~= items.deep_view());
                            }
                            return (items, i);
                        },
                    }
                } else {
                    proof {
                        assert(args_tail(s@, i as int) == (Seq::<Seq<char>>::empty(), i as int));
                        assert(items.deep_view() + Seq::<Seq<char>>::empty() =~= items.deep_view());
                    }
                    return (items, i);
                }
            }
        },
    }
}

fn parse_body(s: &[char], pos: usize) -> (r: (Vec<TemplateExpression>, usize))
    requires
        pos <= s@.len(),
    ensures
        r.0.deep_view() == body_parse(s@, pos as int).0,
        r.1 as int == body_parse(s@, pos as int).1,
        pos <= r.1 <= s@.len(),
{
    let n = s.len();
    let mut nodes: Vec<TemplateExpression> = Vec::new();
    let mut i: usize = pos;
    loop
        invariant
            pos <= i <= n,
            n == s@.len(),
            nodes.deep_view() + body_parse(s@, i as int).0 == body_parse(s@, pos as int).0,
            body_parse(s@, i as int).1 == body_parse(s@, pos as int).1,
        decreases n - i,
    {
        proof {
            lemma_body_parse_bounds(s@, i as int);
        }
        match template_expression(s, i) {
            Some((node, e)) => {
                let ghost old_nodes = nodes.deep_view();
                nodes.push(node);
                proof {
                    let rest = body_parse(s@, e as int);
                    assert(nodes.deep_view() =~~= old_nodes.push(node@));
                    assert(body_parse(s@, i as int).0 =~= seq![node@] + rest.0);
                    assert(old_nodes.push(node@) + rest.0 =~= old_nodes + (seq![node@] + rest.0));
                }
                i = e;
            },
            None => {
                proof {
                    assert(nodes.deep_view() + Seq::<NodeView>::empty() =~= nodes.deep_view());
                }
                return (nodes, i);
            },
        }
    }
}

/// Parse one whole template document. Returns the document when the entire
/// input matches the grammar, and otherwise the position where parsing
/// stopped together with the construct expected there.
pub fn template(s: &[char]) -> (r: Result<Template, ParseError>)
    ensures
        match r {
            Ok(t) => doc_parse(s@) == DocOutcome::Parsed(t@),
            Err(e) => doc_parse(s@) == (DocOutcome::Failed {
                offset: e.offset as int,
                expected: e.expected,
            }),
        },
{
    let n = s.len();
    let i0 = spacelike(s, 0);
    let (preamble, i1) = parse_preamble(s, i0);
    if i1 < n && s[i1] == '@' && i1 + 1 < n && s[i1 + 1] == '(' {
        let (args, i2) = parse_args(s, i1 + 2);
        if i2 < n && s[i2] == ')' {
            let i3 = spacelike(s, i2 + 1);
            let (body, i4) = parse_body(s, i3);
            if i4 == n {
                let t = Template { preamble, args, body };
                Ok(t)
            } else {
                Err(ParseError { offset: i4, expected: Expected::EndOfInput })
            }
        } else {
            Err(ParseError { offset: i2, expected: Expected::ArgsClose })
        }
    } else {
        Err(ParseError { offset: i1, expected: Expected::ArgsOpen })
    }
}

} // verus!
