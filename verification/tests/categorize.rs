use copied::categorize::{detect, looks_like_code};
use copied::protocol::Category;

#[test]
fn detect_url() {
    assert_eq!(detect("https://example.com/path"), Category::Url);
    assert_eq!(detect("http://example.com"), Category::Url);
}

#[test]
fn detect_code_like_text() {
    assert_eq!(detect("fn main() { println!(\"hi\"); }"), Category::Codigo);
    assert_eq!(detect("def foo():\n    pass"), Category::Codigo);
}

#[test]
fn detect_falls_back_to_outro() {
    assert_eq!(detect("apenas um texto qualquer"), Category::Outro);
    assert_eq!(detect(""), Category::Outro);
}

#[test]
fn detect_trims_whitespace_around_urls() {
    assert_eq!(detect("  \n\thttps://x.org  "), Category::Url);
    assert_eq!(detect("\u{3000}http://x"), Category::Url);
    assert_eq!(detect("see https://x.org"), Category::Outro);
}

#[test]
fn code_markers_must_be_inside_the_trimmed_text() {
    assert_eq!(detect("fn "), Category::Outro);
    assert_eq!(detect("a;b"), Category::Codigo);
    assert!(looks_like_code("x { y"));
    assert!(!looks_like_code("plain words"));
}

#[test]
fn whitespace_test_matches_std() {
    for c in (0u32..0x11000).filter_map(char::from_u32) {
        assert_eq!(copied::text::is_whitespace(c), c.is_whitespace(), "{c:?}");
    }
}
