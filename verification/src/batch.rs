//! The batch entry point: compile an ordered list of named template sources
//! into one aggregate source artifact.
//!
//! Each template is parsed and, on success, its render function is appended
//! to the aggregate output; on failure a warning carrying the template name
//! and the diagnostic is collected instead, and processing continues with the
//! next template. The aggregate output always holds exactly one copy of the
//! runtime support block, whatever the number of templates (including zero).

use vstd::prelude::*;
use crate::grammar::{doc_parse, template, DocOutcome, Expected};
use crate::emit::template_code;
use crate::chars::append_str;

verus! {

/// Header of the aggregate output: the module around the render functions.
pub open spec fn output_header() -> Seq<char> {
    "mod templates {\nuse std::io::{self, Write};\nuse std::fmt::Display;\n"@
}

/// The runtime support block emitted exactly once per aggregate output: an
/// escaped-rendering capability for displayable values, and a raw wrapper
/// whose rendering bypasses escaping. Its escaping rule mirrors
/// [`crate::html::escaped`].
pub open spec fn support_block() -> Seq<char> {
    "pub trait ToHtml {\n    fn to_html(&self, out: &mut Write) -> io::Result<()>;\n}\npub struct Html<T>(pub T);\nimpl<T: Display> ToHtml for Html<T> {\n    fn to_html(&self, out: &mut Write) -> io::Result<()> {\n        write!(out, \"{}\", self.0)\n    }\n}\nimpl<T: Display> ToHtml for T {\n    fn to_html(&self, out: &mut Write) -> io::Result<()> {\n        let mut buf = Vec::new();\n        try!(write!(buf, \"{}\", self));\n        for c in buf {\n            match c {\n                b'<' => try!(out.write_all(b\"&lt;\")),\n                b'>' => try!(out.write_all(b\"&gt;\")),\n                b'&' => try!(out.write_all(b\"&amp;\")),\n                b'\"' => try!(out.write_all(b\"&quot;\")),\n                b'\\'' => try!(out.write_all(b\"&#39;\")),\n                _ => try!(out.write_all(&[c])),\n            }\n        }\n        Ok(())\n    }\n}"@
}

/// Footer of the aggregate output: closes the module.
pub open spec fn output_footer() -> Seq<char> {
    "\n}\n"@
}

fn append_header(out: &mut Vec<char>)
    ensures
        final(out)@ == old(out)@ + output_header(),
{
    append_str(out, "mod templates {\nuse std::io::{self, Write};\nuse std::fmt::Display;\n");
}

fn append_support_block(out: &mut Vec<char>)
    ensures
        final(out)@ == old(out)@ + support_block(),
{
    append_str(
        out,
        "pub trait ToHtml {\n    fn to_html(&self, out: &mut Write) -> io::Result<()>;\n}\npub struct Html<T>(pub T);\nimpl<T: Display> ToHtml for Html<T> {\n    fn to_html(&self, out: &mut Write) -> io::Result<()> {\n        write!(out, \"{}\", self.0)\n    }\n}\nimpl<T: Display> ToHtml for T {\n    fn to_html(&self, out: &mut Write) -> io::Result<()> {\n        let mut buf = Vec::new();\n        try!(write!(buf, \"{}\", self));\n        for c in buf {\n            match c {\n                b'<' => try!(out.write_all(b\"&lt;\")),\n                b'>' => try!(out.write_all(b\"&gt;\")),\n                b'&' => try!(out.write_all(b\"&amp;\")),\n                b'\"' => try!(out.write_all(b\"&quot;\")),\n                b'\\'' => try!(out.write_all(b\"&#39;\")),\n                _ => try!(out.write_all(&[c])),\n            }\n        }\n        Ok(())\n    }\n}",
    );
}

fn append_footer(out: &mut Vec<char>)
    ensures
        final(out)@ == old(out)@ + output_footer(),
{
    append_str(out, "\n}\n");
}

/// A non-fatal per-template diagnostic: the template's name and where and why
/// its parse failed.
pub struct Warning {
    pub name: String,
    pub offset: usize,
    pub expected: Expected,
}

/// Specification-level form of a warning.
pub struct WarningView {
    pub name: Seq<char>,
    pub offset: int,
    pub expected: Expected,
}

impl View for Warning {
    type V = WarningView;

    open spec fn view(&self) -> WarningView {
        WarningView { name: self.name@, offset: self.offset as int, expected: self.expected }
    }
}

impl DeepView for Warning {
    type V = WarningView;

    open spec fn deep_view(&self) -> WarningView {
        self.view()
    }
}

/// The render-function definitions of the templates that parse, one entry per
/// success, in input order. Each item pairs a template name with its source.
pub open spec fn def_list(items: Seq<(Seq<char>, Seq<char>)>) -> Seq<Seq<char>>
    decreases items.len(),
{
    if items.len() == 0 {
        Seq::<Seq<char>>::empty()
    } else {
        let rest = def_list(items.drop_first());
        match doc_parse(items[0].1) {
            DocOutcome::Parsed(t) => seq![template_code(t, items[0].0)] + rest,
            DocOutcome::Failed { .. } => rest,
        }
    }
}

/// The warnings of the templates that fail to parse, one entry per failure,
/// in input order.
pub open spec fn warning_list(items: Seq<(Seq<char>, Seq<char>)>) -> Seq<WarningView>
    decreases items.len(),
{
    if items.len() == 0 {
        Seq::<WarningView>::empty()
    } else {
        let rest = warning_list(items.drop_first());
        match doc_parse(items[0].1) {
            DocOutcome::Parsed(_) => rest,
            DocOutcome::Failed { offset, expected } => seq![
                WarningView { name: items[0].0, offset, expected },
            ] + rest,
        }
    }
}

/// The aggregate output for a batch: the header, the definitions of the
/// successfully parsed templates in order, and exactly one support block
/// inside the closing footer.
pub open spec fn aggregate_code(items: Seq<(Seq<char>, Seq<char>)>) -> Seq<char> {
    output_header() + def_list(items).flatten() + support_block() + output_footer()
}

pub proof fn lemma_def_list_push(items: Seq<(Seq<char>, Seq<char>)>, x: (Seq<char>, Seq<char>))
    ensures
        def_list(items.push(x)) == def_list(items) + (match doc_parse(x.1) {
            DocOutcome::Parsed(t) => seq![template_code(t, x.0)],
            DocOutcome::Failed { .. } => Seq::<Seq<char>>::empty(),
        }),
    decreases items.len(),
{
    if items.len() == 0 {
        assert(items.push(x)[0] == x);
        assert(items.push(x).drop_first() =~= Seq::<(Seq<char>, Seq<char>)>::empty());
        assert(items =~= Seq::<(Seq<char>, Seq<char>)>::empty());
        match doc_parse(x.1) {
            DocOutcome::Parsed(t) => {
                assert(def_list(items.push(x)) =~= def_list(items) + seq![template_code(t, x.0)]);
            },
            DocOutcome::Failed { .. } => {
                assert(def_list(items.push(x)) =~= def_list(items)
                    + Seq::<Seq<char>>::empty());
            },
        }
    } else {
        assert(items.push(x).drop_first() =~= items.drop_first().push(x));
        lemma_def_list_push(items.drop_first(), x);
        match doc_parse(x.1) {
            DocOutcome::Parsed(t) => {
                assert(def_list(items.push(x)) =~= def_list(items) + seq![template_code(t, x.0)]);
            },
            DocOutcome::Failed { .. } => {
                assert(def_list(items.push(x)) =~= def_list(items)
                    + Seq::<Seq<char>>::empty());
            },
        }
    }
}

pub proof fn lemma_warning_list_push(items: Seq<(Seq<char>, Seq<char>)>, x: (Seq<char>, Seq<char>))
    ensures
        warning_list(items.push(x)) == warning_list(items) + (match doc_parse(x.1) {
            DocOutcome::Parsed(_) => Seq::<WarningView>::empty(),
            DocOutcome::Failed { offset, expected } => seq![
                WarningView { name: x.0, offset, expected },
            ],
        }),
    decreases items.len(),
{
    if items.len() == 0 {
        assert(items.push(x)[0] == x);
        assert(items.push(x).drop_first() =~= Seq::<(Seq<char>, Seq<char>)>::empty());
        assert(items =~= Seq::<(Seq<char>, Seq<char>)>::empty());
        match doc_parse(x.1) {
            DocOutcome::Parsed(_) => {
                assert(warning_list(items.push(x)) =~= warning_list(items)
                    + Seq::<WarningView>::empty());
            },
            DocOutcome::Failed { offset, expected } => {
                assert(warning_list(items.push(x)) =~= warning_list(items) + seq![
                    WarningView { name: x.0, offset, expected },
                ]);
            },
        }
    } else {
        assert(items.push(x).drop_first() =~= items.drop_first().push(x));
        lemma_warning_list_push(items.drop_first(), x);
        match doc_parse(x.1) {
            DocOutcome::Parsed(_) => {
                assert(warning_list(items.push(x)) =~= warning_list(items)
                    + Seq::<WarningView>::empty());
            },
            DocOutcome::Failed { offset, expected } => {
                assert(warning_list(items.push(x)) =~= warning_list(items) + seq![
                    WarningView { name: x.0, offset, expected },
                ]);
            },
        }
    }
}

/// Every template contributes exactly one of a definition or a warning: a
/// batch of N templates of which M fail to parse yields N − M definitions
/// and M warnings.
pub proof fn lemma_batch_counts(items: Seq<(Seq<char>, Seq<char>)>)
    ensures
        def_list(items).len() + warning_list(items).len() == items.len(),
    decreases items.len(),
{
    if items.len() > 0 {
        lemma_batch_counts(items.drop_first());
    }
}

/// Compile a batch of named template sources into the aggregate output text
/// and the warnings of the templates that failed to parse. A parse failure is
/// never fatal to the batch: every input is processed.
pub fn compile_batch(items: &Vec<(String, Vec<char>)>) -> (r: (Vec<char>, Vec<Warning>))
    ensures
        r.0@ == aggregate_code(items.deep_view()),
        r.1.deep_view() == warning_list(items.deep_view()),
{
    let mut out: Vec<char> = Vec::new();
    let mut warnings: Vec<Warning> = Vec::new();
    append_header(&mut out);
    let n = items.len();
    let mut i: usize = 0;
    while i < n
        invariant
            n == items@.len(),
            i <= n,
            out@ == output_header() + def_list(items.deep_view().take(i as int)).flatten(),
            warnings.deep_view() == warning_list(items.deep_view().take(i as int)),
        decreases n - i,
    {
        let ghost done = items.deep_view().take(i as int);
        let ghost entry = (items.deep_view()[i as int].0, items.deep_view()[i as int].1);
        proof {
            assert(items.deep_view().take(i + 1) =~~= done.push(entry));
            lemma_def_list_push(done, entry);
            lemma_warning_list_push(done, entry);
            assert(entry.1 =~= items@[i as int].1@);
            assert(entry.0 =~= items@[i as int].0@);
        }
        match template(items[i].1.as_slice()) {
            Ok(t) => {
                t.write_rust(&mut out, items[i].0.as_str());
                proof {
                    broadcast use vstd::prelude::Seq::lemma_flatten_push;

                    let code = template_code(t@, entry.0);
                    assert(doc_parse(entry.1) == DocOutcome::Parsed(t@));
                    assert(def_list(done.push(entry)) == def_list(done) + seq![code]);
                    assert(def_list(done) + seq![code] =~= def_list(done).push(code));
                    assert(def_list(done).push(code).flatten() =~= def_list(done).flatten()
                        + code);
                    assert(out@ =~= output_header() + def_list(
                        items.deep_view().take(i + 1),
                    ).flatten());
                }
            },
            Err(e) => {
                let name = items[i].0.clone();
                let ghost old_warnings = warnings.deep_view();
                warnings.push(Warning { name, offset: e.offset, expected: e.expected });
                proof {
                    broadcast use vstd::prelude::Seq::lemma_flatten_push;

                    assert(warnings.deep_view() =~~= old_warnings.push(
                        WarningView {
                            name: entry.0,
                            offset: e.offset as int,
                            expected: e.expected,
                        },
                    ));
                    assert(def_list(items.deep_view().take(i + 1)).flatten() =~= def_list(
                        done,
                    ).flatten());
                }
            },
        }
        i = i + 1;
    }
    proof {
        assert(items.deep_view().take(n as int) =~~= items.deep_view());
    }
    append_support_block(&mut out);
    append_footer(&mut out);
    proof {
        assert(out@ =~= aggregate_code(items.deep_view()));
    }
    (out, warnings)
}

} // verus!
