use ructe::scan::{comment, expression, rust_name, spacelike};

fn to_chars(s: &str) -> Vec<char> {
    s.chars().collect()
}

#[test]
fn test_expression() {
    // Proper expressions, each followed by two non-expression characters.
    for input in &["foo  ", "foo<x", "foo!!", "x15  ", "foo. ", "foo.bar  ", "boo.bar.baz##"] {
        let v = to_chars(input);
        let i = v.len() - 2;
        let (consumed, end) = expression(&v, 0).expect("expression should match");
        assert_eq!(end, i);
        assert_eq!(consumed, v[..i].to_vec());
    }
    // non-expressions
    for input in &[".foo", " foo", "()"] {
        let v = to_chars(input);
        assert!(expression(&v, 0).is_none());
    }
}

#[test]
fn test_comment() {
    let v = to_chars("@* a simple comment *@");
    assert_eq!(comment(&v, 0), Some(v.len()));
}

#[test]
fn test_comment2() {
    let v = to_chars(" @* comment *@");
    assert_eq!(comment(&v, 0), None);
}

#[test]
fn test_comment3() {
    let v = to_chars("@* comment *@ & stuff");
    let e = comment(&v, 0).expect("comment should match");
    assert_eq!(v[e..].iter().collect::<String>(), " & stuff");
}

#[test]
fn test_comment4() {
    let v = to_chars("@* comment *@ and @* another *@");
    let e = comment(&v, 0).expect("comment should match");
    assert_eq!(v[e..].iter().collect::<String>(), " and @* another *@");
}

#[test]
fn test_comment5() {
    let v = to_chars("@* comment containing * and @ *@");
    assert_eq!(comment(&v, 0), Some(v.len()));
}

#[test]
fn test_comment6() {
    let v = to_chars("@*** peculiar comment ***@***");
    let e = comment(&v, 0).expect("comment should match");
    assert_eq!(v[e..].iter().collect::<String>(), "***");
}

#[test]
fn test_rust_name_full_identifier() {
    let v = to_chars("x15  ");
    let (consumed, end) = rust_name(&v, 0).expect("identifier should match");
    assert_eq!(consumed.iter().collect::<String>(), "x15");
    assert_eq!(end, 3);
}

#[test]
fn test_rust_name_rejects_digit_start_and_underscore() {
    let v = to_chars("15x ");
    assert!(rust_name(&v, 0).is_none());
    let u = to_chars("_name ");
    assert!(rust_name(&u, 0).is_none());
}

#[test]
fn test_expression_stops_before_lone_dot() {
    let v = to_chars("foo..bar ");
    let (consumed, end) = expression(&v, 0).expect("expression should match");
    assert_eq!(consumed.iter().collect::<String>(), "foo");
    assert_eq!(end, 3);
}

#[test]
fn test_unterminated_comment_is_rejected() {
    // The closing `*@` never comes: the final `*` cannot form a unit.
    let v = to_chars("@* almost *");
    assert_eq!(comment(&v, 0), None);
    // A `*@` hidden by a preceding `*` pair is not a terminator.
    let u = to_chars("@***@");
    assert_eq!(comment(&u, 0), None);
}

#[test]
fn test_spacelike_skips_space_and_comments() {
    let v = to_chars("  @* note *@\t\n@* more *@x");
    let e = spacelike(&v, 0);
    assert_eq!(v[e..].iter().collect::<String>(), "x");
    // A lone `@` stops the skip at once.
    let u = to_chars("@(");
    assert_eq!(spacelike(&u, 0), 0);
}
