use ructe::batch::compile_batch;
use ructe::grammar::Expected;

fn cv(s: &str) -> Vec<char> {
    s.chars().collect()
}

fn count_of(haystack: &str, needle: &str) -> usize {
    let mut n = 0;
    let mut rest = haystack;
    while let Some(p) = rest.find(needle) {
        n += 1;
        rest = &rest[p + needle.len()..];
    }
    n
}

const HEADER: &str = "mod templates {\nuse std::io::{self, Write};\nuse std::fmt::Display;\n";

#[test]
fn test_batch_failures_yield_warnings_not_fatal() {
    let items = vec![
        ("hello".to_string(), cv("@()Hello")),
        ("bad".to_string(), cv("nope")),
        ("empty".to_string(), cv("@()")),
    ];
    let (out, warnings) = compile_batch(&items);
    let text: String = out.iter().collect();
    let defs = "\npub fn hello(out: &mut Write) -> io::Result<()> {\ntry!(write!(out, \"Hello\"));\nOk(())\n}\npub fn empty(out: &mut Write) -> io::Result<()> {\nOk(())\n}";
    let head: String = format!("{}{}", HEADER, defs);
    assert!(text.starts_with(&head));
    assert!(text.ends_with("\n}\n"));
    // Exactly N - M definitions and one support block.
    assert_eq!(count_of(&text, "\npub fn "), 2);
    assert_eq!(count_of(&text, "pub trait ToHtml"), 1);
    // Exactly M warnings, naming the failed template and its diagnostic.
    assert_eq!(warnings.len(), 1);
    assert_eq!(warnings[0].name, "bad");
    assert_eq!(warnings[0].offset, 0);
    assert_eq!(warnings[0].expected, Expected::ArgsOpen);
}

#[test]
fn test_batch_empty_still_emits_one_support_block() {
    let (out, warnings) = compile_batch(&Vec::new());
    let text: String = out.iter().collect();
    assert!(text.starts_with(HEADER));
    assert!(text.ends_with("\n}\n"));
    assert_eq!(count_of(&text, "\npub fn "), 0);
    assert_eq!(count_of(&text, "pub trait ToHtml"), 1);
    assert_eq!(warnings.len(), 0);
}

#[test]
fn test_batch_all_failing_equals_empty_batch_output() {
    let items = vec![("broken".to_string(), cv("@(a, ")), ("worse".to_string(), cv("x"))];
    let (out, warnings) = compile_batch(&items);
    let (out_empty, _) = compile_batch(&Vec::new());
    assert_eq!(out, out_empty);
    assert_eq!(warnings.len(), 2);
    assert_eq!(warnings[0].name, "broken");
    assert_eq!(warnings[0].offset, 3);
    assert_eq!(warnings[0].expected, Expected::ArgsClose);
    assert_eq!(warnings[1].name, "worse");
    assert_eq!(warnings[1].offset, 0);
    assert_eq!(warnings[1].expected, Expected::ArgsOpen);
}

#[test]
fn test_batch_keeps_input_order() {
    let items = vec![
        ("b".to_string(), cv("@()B")),
        ("a".to_string(), cv("@()A")),
    ];
    let (out, warnings) = compile_batch(&items);
    let text: String = out.iter().collect();
    let pb = text.find("pub fn b(").expect("definition of b");
    let pa = text.find("pub fn a(").expect("definition of a");
    assert!(pb < pa);
    assert_eq!(warnings.len(), 0);
}
