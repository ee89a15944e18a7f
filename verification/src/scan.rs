//! Primitive scanners of the template grammar: character classes, identifier
//! and expression recognition, comment spans, and whitespace/comment skipping.
//!
//! Each scanner has a specification-level twin that walks the input exactly as
//! the executable scanner does; the executable functions are proved to return
//! precisely what the twin computes.

use vstd::prelude::*;
use crate::chars::copy_range;

verus! {

/// First character of an identifier: alphabetic only (no underscore).
pub open spec fn is_alpha(c: char) -> bool {
    ('a' <= c && c <= 'z') || ('A' <= c && c <= 'Z')
}

pub open spec fn is_digit(c: char) -> bool {
    '0' <= c && c <= '9'
}

/// Continuation character of an identifier: alphanumeric only.
pub open spec fn is_alnum(c: char) -> bool {
    is_alpha(c) || is_digit(c)
}

/// Whitespace accepted by the `skip` rule.
pub open spec fn is_space(c: char) -> bool {
    c == ' ' || c == '\t' || c == '\r' || c == '\n'
}

pub fn alpha_char(c: char) -> (b: bool)
    ensures
        b == is_alpha(c),
{
    ('a' <= c && c <= 'z') || ('A' <= c && c <= 'Z')
}

pub fn alnum_char(c: char) -> (b: bool)
    ensures
        b == is_alnum(c),
{
    alpha_char(c) || ('0' <= c && c <= '9')
}

pub fn space_char(c: char) -> (b: bool)
    ensures
        b == is_space(c),
{
    c == ' ' || c == '\t' || c == '\r' || c == '\n'
}

/// End of the maximal run of alphanumeric characters starting at `i`.
pub open spec fn ident_end(s: Seq<char>, i: int) -> int
    decreases s.len() - i,
{
    if 0 <= i < s.len() && is_alnum(s[i]) {
        ident_end(s, i + 1)
    } else {
        i
    }
}

/// End of the maximal run of characters other than `@` starting at `i`.
pub open spec fn text_end(s: Seq<char>, i: int) -> int
    decreases s.len() - i,
{
    if 0 <= i < s.len() && s[i] != '@' {
        text_end(s, i + 1)
    } else {
        i
    }
}

/// End of the maximal run of characters other than `;`, `(`, `)` starting at `i`.
pub open spec fn stmt_end(s: Seq<char>, i: int) -> int
    decreases s.len() - i,
{
    if 0 <= i < s.len() && s[i] != ';' && s[i] != '(' && s[i] != ')' {
        stmt_end(s, i + 1)
    } else {
        i
    }
}

/// End of the maximal run of characters other than `,`, `)` starting at `i`.
pub open spec fn arg_end(s: Seq<char>, i: int) -> int
    decreases s.len() - i,
{
    if 0 <= i < s.len() && s[i] != ',' && s[i] != ')' {
        arg_end(s, i + 1)
    } else {
        i
    }
}

/// End of a dotted identifier chain starting at `i`: after the identifier at
/// `i`, a `.` is consumed only when another identifier immediately follows it.
pub open spec fn expr_end(s: Seq<char>, i: int) -> int
    decreases s.len() - i,
{
    let e = ident_end(s, i);
    if i < e && e + 1 < s.len() && s[e] == '.' && is_alpha(s[e + 1]) {
        expr_end(s, e + 1)
    } else {
        e
    }
}

/// Scan of a comment body starting at `i` (just after the opening `@*`):
/// a `*` immediately followed by `@` closes the comment and the scan returns
/// the position after that `*@`; a `*` followed by anything else is ordinary
/// content (both characters are consumed); the scan fails at end of input.
pub open spec fn comment_body_end(s: Seq<char>, i: int) -> Option<int>
    decreases s.len() - i,
{
    if i < 0 || i >= s.len() {
        None
    } else if s[i] == '*' {
        if i + 1 < s.len() {
            if s[i + 1] == '@' {
                Some(i + 2)
            } else {
                comment_body_end(s, i + 2)
            }
        } else {
            None
        }
    } else {
        comment_body_end(s, i + 1)
    }
}

/// End of a comment starting at `i`: `@*`, then a body scan up to `*@`.
/// The opening tag must stand exactly at `i`.
pub open spec fn comment_end(s: Seq<char>, i: int) -> Option<int> {
    if 0 <= i && i + 1 < s.len() && s[i] == '@' && s[i + 1] == '*' {
        comment_body_end(s, i + 2)
    } else {
        None
    }
}

pub proof fn lemma_ident_end_bounds(s: Seq<char>, i: int)
    requires
        0 <= i <= s.len(),
    ensures
        i <= ident_end(s, i) <= s.len(),
    decreases s.len() - i,
{
    if i < s.len() && is_alnum(s[i]) {
        lemma_ident_end_bounds(s, i + 1);
    }
}

pub proof fn lemma_text_end_bounds(s: Seq<char>, i: int)
    requires
        0 <= i <= s.len(),
    ensures
        i <= text_end(s, i) <= s.len(),
    decreases s.len() - i,
{
    if i < s.len() && s[i] != '@' {
        lemma_text_end_bounds(s, i + 1);
    }
}

pub proof fn lemma_stmt_end_bounds(s: Seq<char>, i: int)
    requires
        0 <= i <= s.len(),
    ensures
        i <= stmt_end(s, i) <= s.len(),
    decreases s.len() - i,
{
    if i < s.len() && s[i] != ';' && s[i] != '(' && s[i] != ')' {
        lemma_stmt_end_bounds(s, i + 1);
    }
}

pub proof fn lemma_arg_end_bounds(s: Seq<char>, i: int)
    requires
        0 <= i <= s.len(),
    ensures
        i <= arg_end(s, i) <= s.len(),
    decreases s.len() - i,
{
    if i < s.len() && s[i] != ',' && s[i] != ')' {
        lemma_arg_end_bounds(s, i + 1);
    }
}

pub proof fn lemma_expr_end_bounds(s: Seq<char>, i: int)
    requires
        0 <= i <= s.len(),
    ensures
        i <= expr_end(s, i) <= s.len(),
    decreases s.len() - i,
{
    lemma_ident_end_bounds(s, i);
    let e = ident_end(s, i);
    if i < e && e + 1 < s.len() && s[e] == '.' && is_alpha(s[e + 1]) {
        lemma_expr_end_bounds(s, e + 1);
    }
}

pub proof fn lemma_comment_body_end_bounds(s: Seq<char>, i: int)
    ensures
        comment_body_end(s, i) matches Some(e) ==> i + 2 <= e <= s.len(),
    decreases s.len() - i,
{
    if 0 <= i < s.len() {
        if s[i] == '*' {
            if i + 1 < s.len() && s[i + 1] != '@' {
                lemma_comment_body_end_bounds(s, i + 2);
            }
        } else {
            lemma_comment_body_end_bounds(s, i + 1);
        }
    }
}

pub proof fn lemma_comment_end_bounds(s: Seq<char>, i: int)
    ensures
        comment_end(s, i) matches Some(e) ==> i + 4 <= e <= s.len(),
{
    if 0 <= i && i + 1 < s.len() && s[i] == '@' && s[i + 1] == '*' {
        lemma_comment_body_end_bounds(s, i + 2);
    }
}

/// End of the `skip` rule starting at `i`: any mix of whitespace and
/// well-formed comments.
pub open spec fn skip_end(s: Seq<char>, i: int) -> int
    decreases s.len() - i,
{
    if 0 <= i < s.len() && is_space(s[i]) {
        skip_end(s, i + 1)
    } else {
        match comment_end(s, i) {
            Some(e) => if i < e <= s.len() {
                skip_end(s, e)
            } else {
                i
            },
            None => i,
        }
    }
}

pub proof fn lemma_skip_end_bounds(s: Seq<char>, i: int)
    requires
        0 <= i <= s.len(),
    ensures
        i <= skip_end(s, i) <= s.len(),
    decreases s.len() - i,
{
    if i < s.len() && is_space(s[i]) {
        lemma_skip_end_bounds(s, i + 1);
    } else {
        lemma_comment_end_bounds(s, i);
        match comment_end(s, i) {
            Some(e) => {
                lemma_skip_end_bounds(s, e);
            },
            None => {},
        }
    }
}

fn scan_ident_end(s: &[char], pos: usize) -> (e: usize)
    requires
        pos <= s@.len(),
    ensures
        e as int == ident_end(s@, pos as int),
        pos <= e <= s@.len(),
{
    let n = s.len();
    let mut i: usize = pos;
    while i < n && alnum_char(s[i])
        invariant
            pos <= i <= n,
            n == s@.len(),
            ident_end(s@, pos as int) == ident_end(s@, i as int),
        decreases n - i,
    {
        i = i + 1;
    }
    i
}

pub(crate) fn scan_text_end(s: &[char], pos: usize) -> (e: usize)
    requires
        pos <= s@.len(),
    ensures
        e as int == text_end(s@, pos as int),
        pos <= e <= s@.len(),
{
    let n = s.len();
    let mut i: usize = pos;
    while i < n && s[i] != '@'
        invariant
            pos <= i <= n,
            n == s@.len(),
            text_end(s@, pos as int) == text_end(s@, i as int),
        decreases n - i,
    {
        i = i + 1;
    }
    i
}

pub(crate) fn scan_stmt_end(s: &[char], pos: usize) -> (e: usize)
    requires
        pos <= s@.len(),
    ensures
        e as int == stmt_end(s@, pos as int),
        pos <= e <= s@.len(),
{
    let n = s.len();
    let mut i: usize = pos;
    while i < n && s[i] != ';' && s[i] != '(' && s[i] != ')'
        invariant
            pos <= i <= n,
            n == s@.len(),
            stmt_end(s@, pos as int) == stmt_end(s@, i as int),
        decreases n - i,
    {
        i = i + 1;
    }
    i
}

pub(crate) fn scan_arg_end(s: &[char], pos: usize) -> (e: usize)
    requires
        pos <= s@.len(),
    ensures
        e as int == arg_end(s@, pos as int),
        pos <= e <= s@.len(),
{
    let n = s.len();
    let mut i: usize = pos;
    while i < n && s[i] != ',' && s[i] != ')'
        invariant
            pos <= i <= n,
            n == s@.len(),
            arg_end(s@, pos as int) == arg_end(s@, i as int),
        decreases n - i,
    {
        i = i + 1;
    }
    i
}

/// Recognize an identifier at `pos`: an alphabetic character followed by the
/// maximal run of alphanumeric characters. Returns the identifier text and
/// the position just past it, or `None` when no identifier starts at `pos`.
pub fn rust_name(s: &[char], pos: usize) -> (r: Option<(Vec<char>, usize)>)
    requires
        pos <= s@.len(),
    ensures
        match r {
            Some(p) => {
                &&& pos < s@.len() && is_alpha(s@[pos as int])
                &&& p.1 as int == ident_end(s@, pos as int)
                &&& pos < p.1 <= s@.len()
                &&& p.0@ == s@.subrange(pos as int, p.1 as int)
            },
            None => pos == s@.len() || !is_alpha(s@[pos as int]),
        },
{
    if pos < s.len() && alpha_char(s[pos]) {
        let e = scan_ident_end(s, pos);
        assert(pos < e) by {
            assert(is_alnum(s@[pos as int]));
            lemma_ident_end_bounds(s@, pos + 1);
        }
        let v = copy_range(s, pos, e);
        Some((v, e))
    } else {
        None
    }
}

/// Recognize a dotted expression at `pos`: identifiers joined by `.`, where a
/// `.` is consumed only when another identifier immediately follows. Returns
/// the expression text and the position just past it, or `None` when no
/// identifier starts at `pos`.
pub fn expression(s: &[char], pos: usize) -> (r: Option<(Vec<char>, usize)>)
    requires
        pos <= s@.len(),
    ensures
        match r {
            Some(p) => {
                &&& pos < s@.len() && is_alpha(s@[pos as int])
                &&& p.1 as int == expr_end(s@, pos as int)
                &&& pos < p.1 <= s@.len()
                &&& p.0@ == s@.subrange(pos as int, p.1 as int)
            },
            None => pos == s@.len() || !is_alpha(s@[pos as int]),
        },
{
    let n = s.len();
    if !(pos < n && alpha_char(s[pos])) {
        return None;
    }
    let mut j: usize = pos;
    let mut e: usize = scan_ident_end(s, pos);
    proof {
        assert(is_alnum(s@[pos as int]));
        lemma_ident_end_bounds(s@, pos + 1);
    }
    while e < n && s[e] == '.' && e + 1 < n && alpha_char(s[e + 1])
        invariant
            pos <= j < e <= n,
            n == s@.len(),
            is_alpha(s@[j as int]),
            e as int == ident_end(s@, j as int),
            expr_end(s@, pos as int) == expr_end(s@, j as int),
        decreases n - e,
    {
        j = e + 1;
        e = scan_ident_end(s, j);
        proof {
            assert(is_alnum(s@[j as int]));
            lemma_ident_end_bounds(s@, j + 1);
        }
    }
    assert(expr_end(s@, j as int) == e as int);
    let v = copy_range(s, pos, e);
    Some((v, e))
}

/// Recognize a comment at `pos`: the tag `@*`, a body in which a lone `*` is
/// ordinary content, and the closing `*@`. Returns the position just past the
/// closing tag, or `None` when no well-formed comment starts exactly at `pos`.
pub fn comment(s: &[char], pos: usize) -> (r: Option<usize>)
    requires
        pos <= s@.len(),
    ensures
        match r {
            Some(e) => comment_end(s@, pos as int) == Some(e as int) && pos + 4 <= e <= s@.len(),
            None => comment_end(s@, pos as int) is None,
        },
{
    let n = s.len();
    if !(pos < n && s[pos] == '@' && pos + 1 < n && s[pos + 1] == '*') {
        return None;
    }
    let mut i: usize = pos + 2;
    while i < n
        invariant
            pos + 2 <= i <= n,
            n == s@.len(),
            comment_end(s@, pos as int) == comment_body_end(s@, i as int),
        decreases n - i,
    {
        if s[i] == '*' {
            if i + 1 < n {
                if s[i + 1] == '@' {
                    return Some(i + 2);
                } else {
                    i = i + 2;
                }
            } else {
                return None;
            }
        } else {
            i = i + 1;
        }
    }
    None
}

/// Consume whitespace and well-formed comments starting at `pos`; returns the
/// first position where neither continues.
pub fn spacelike(s: &[char], pos: usize) -> (e: usize)
    requires
        pos <= s@.len(),
    ensures
        e as int == skip_end(s@, pos as int),
        pos <= e <= s@.len(),
{
    let n = s.len();
    let mut i: usize = pos;
    loop
        invariant
            pos <= i <= n,
            n == s@.len(),
            skip_end(s@, pos as int) == skip_end(s@, i as int),
        decreases n - i,
    {
        if i < n && space_char(s[i]) {
            i = i + 1;
        } else {
            match comment(s, i) {
                Some(e2) => {
                    i = e2;
                },
                None => {
                    return i;
                },
            }
        }
    }
}

} // verus!
