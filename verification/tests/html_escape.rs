use ructe::html::{to_html, Html};

fn as_chars(s: &str) -> Vec<char> {
    s.chars().collect()
}

#[test]
fn test_encoded() {
    let mut buf: Vec<char> = Vec::new();
    to_html(&as_chars("a < b"), &mut buf);
    assert_eq!(buf.iter().collect::<String>(), "a &lt; b");
}

#[test]
fn test_raw_html() {
    let mut buf: Vec<char> = Vec::new();
    Html(as_chars("a<b>c</b>")).to_html(&mut buf);
    assert_eq!(buf.iter().collect::<String>(), "a<b>c</b>");
}

#[test]
fn test_all_significant_characters_escaped() {
    let mut buf: Vec<char> = Vec::new();
    to_html(&as_chars("<>&\"'"), &mut buf);
    assert_eq!(buf.iter().collect::<String>(), "&lt;&gt;&amp;&quot;&#39;");
}

#[test]
fn test_ordinary_text_passes_through() {
    let mut buf: Vec<char> = Vec::new();
    to_html(&as_chars("plain text 123 .,;:!?"), &mut buf);
    assert_eq!(buf.iter().collect::<String>(), "plain text 123 .,;:!?");
}

#[test]
fn test_escaping_appends_after_existing_content() {
    let mut buf: Vec<char> = as_chars("pre|");
    to_html(&as_chars("a<b"), &mut buf);
    assert_eq!(buf.iter().collect::<String>(), "pre|a&lt;b");
}
