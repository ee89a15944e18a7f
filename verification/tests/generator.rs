use ructe::grammar::{template, Expected, ParseError, TemplateExpression};

fn char_vec(s: &str) -> Vec<char> {
    s.chars().collect()
}

fn string_of(v: &[char]) -> String {
    v.iter().collect()
}

#[test]
fn test_parse_full_document() {
    let src = char_vec(
        "@* header *@\n@let x = 1;\n@(name: &str, class: u32)\n<h1>Hello @name.len!</h1>@* done *@",
    );
    let t = template(&src).expect("document should parse");
    assert_eq!(t.preamble.len(), 1);
    assert_eq!(string_of(&t.preamble[0]), "let x = 1");
    assert_eq!(t.args.len(), 2);
    assert_eq!(string_of(&t.args[0]), "name: &str");
    assert_eq!(string_of(&t.args[1]), "class: u32");
    assert_eq!(t.body.len(), 4);
    match &t.body[0] {
        TemplateExpression::Text { text } => assert_eq!(string_of(text), "<h1>Hello "),
        _ => panic!("first node should be text"),
    }
    match &t.body[1] {
        TemplateExpression::Expression { expr } => assert_eq!(string_of(expr), "name.len"),
        _ => panic!("second node should be an expression"),
    }
    match &t.body[2] {
        TemplateExpression::Text { text } => assert_eq!(string_of(text), "!</h1>"),
        _ => panic!("third node should be text"),
    }
    assert!(matches!(&t.body[3], TemplateExpression::Comment));

    let mut out: Vec<char> = Vec::new();
    t.write_rust(&mut out, "greeting");
    let expected = "let x = 1;\n\npub fn greeting(out: &mut Write, name: &str, class: u32) -> io::Result<()> {\ntry!(write!(out, \"<h1>Hello \"));\ntry!(name.len.to_html(out));\ntry!(write!(out, \"!</h1>\"));\nOk(())\n}";
    assert_eq!(string_of(&out), expected);
}

#[test]
fn test_pure_text_body_written_verbatim() {
    let src = char_vec("@()Hello world");
    let t = template(&src).expect("document should parse");
    assert_eq!(t.body.len(), 1);
    match &t.body[0] {
        TemplateExpression::Text { text } => assert_eq!(string_of(text), "Hello world"),
        _ => panic!("body should be one text node"),
    }
    assert_eq!(
        string_of(&t.body[0].code()),
        "try!(write!(out, \"Hello world\"));\n",
    );
}

#[test]
fn test_comment_only_body_writes_nothing() {
    // The whole body is one comment: the skip after the argument list absorbs
    // it, and the generated procedure holds no write at all.
    let src = char_vec("@()@* note *@");
    let t = template(&src).expect("document should parse");
    assert_eq!(t.body.len(), 0);
    let mut out: Vec<char> = Vec::new();
    t.write_rust(&mut out, "silent");
    assert_eq!(
        string_of(&out),
        "\npub fn silent(out: &mut Write) -> io::Result<()> {\nOk(())\n}",
    );
}

#[test]
fn test_comment_between_text_is_erased() {
    let src = char_vec("@()x@* note *@y");
    let t = template(&src).expect("document should parse");
    assert_eq!(t.body.len(), 3);
    assert!(matches!(&t.body[1], TemplateExpression::Comment));
    assert_eq!(string_of(&t.body[1].code()), "");
}

#[test]
fn test_empty_argument_list() {
    let src = char_vec("@()");
    let t = template(&src).expect("document should parse");
    assert_eq!(t.preamble.len(), 0);
    assert_eq!(t.args.len(), 0);
    assert_eq!(t.body.len(), 0);
}

#[test]
fn test_error_missing_args_open() {
    let src = char_vec("x");
    let e = template(&src).expect_err("document should be rejected");
    assert_eq!(e, ParseError { offset: 0, expected: Expected::ArgsOpen });
    // A preamble item that never reaches its `;` fails the same way.
    let src2 = char_vec("@bad(");
    let e2 = template(&src2).expect_err("document should be rejected");
    assert_eq!(e2, ParseError { offset: 0, expected: Expected::ArgsOpen });
}

#[test]
fn test_error_missing_args_close() {
    // The separator is not followed by an argument, so the list ends before
    // the `,`, where `)` was expected.
    let src = char_vec("@(a, ");
    let e = template(&src).expect_err("document should be rejected");
    assert_eq!(e, ParseError { offset: 3, expected: Expected::ArgsClose });
}

#[test]
fn test_error_body_stops_before_end() {
    // `@ ` can start no body node, so the body ends before the input does.
    let src = char_vec("@()@ x");
    let e = template(&src).expect_err("document should be rejected");
    assert_eq!(e, ParseError { offset: 3, expected: Expected::EndOfInput });
}

#[test]
fn test_expression_tag_ends_at_end_of_input() {
    // An expression tag needs no terminator: the end of the input ends it.
    let src = char_vec("@()@foo.bar");
    let t = template(&src).expect("document should parse");
    assert_eq!(t.body.len(), 1);
    match &t.body[0] {
        TemplateExpression::Expression { expr } => assert_eq!(string_of(expr), "foo.bar"),
        _ => panic!("body should be one expression node"),
    }
}

#[test]
fn test_plain_comma_is_no_separator() {
    // The grammar's separator is the two characters `", "`; a bare comma
    // leaves the list at the comma, where `)` was expected.
    let src = char_vec("@(a,b)");
    let e = template(&src).expect_err("document should be rejected");
    assert_eq!(e, ParseError { offset: 3, expected: Expected::ArgsClose });
}
