use sitemap_writer::escape_text;
use sitemap_writer::SitemapError;

#[test]
fn test_escape_reserved_characters() {
    assert_eq!(escape_text("a&b<c>d"), "a&amp;b&lt;c&gt;d");
}

#[test]
fn test_escape_plain_text_unchanged() {
    assert_eq!(escape_text("https://example.com/"), "https://example.com/");
}

#[test]
fn test_escape_empty() {
    assert_eq!(escape_text(""), "");
}

#[test]
fn test_escape_applies_exactly_once() {
    assert_eq!(escape_text("&amp;"), "&amp;amp;");
}

#[test]
fn test_escape_quotes() {
    assert_eq!(escape_text("a\"b'c"), "a&quot;b&apos;c");
}

#[test]
fn test_escape_keeps_unicode() {
    assert_eq!(escape_text("päge<ö>"), "päge&lt;ö&gt;");
}

#[test]
fn test_error_message_file_open() {
    let err = SitemapError::FileOpen("permission denied".to_string());
    assert_eq!(err.message(), "Failed to open file: permission denied");
}

#[test]
fn test_error_message_write() {
    let err = SitemapError::Write("disk full".to_string());
    assert_eq!(err.message(), "Failed to write: disk full");
}
