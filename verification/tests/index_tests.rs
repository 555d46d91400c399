use sitemap_writer::SitemapIndex;
use sitemap_writer::SitemapIndexWriter;

#[test]
fn test_index_build_empty() {
    let xml = SitemapIndexWriter::build(vec![]);
    assert_eq!(
        xml,
        "<?xml version=\"1.0\" encoding=\"UTF-8\"?><sitemapindex xmlns=\"http://www.sitemaps.org/schemas/sitemap/0.9\"></sitemapindex>"
    );
}

#[test]
fn test_index_two_entries_in_order() {
    let xml = SitemapIndexWriter::build(vec![
        SitemapIndex::new("https://example.com/sitemap1.xml"),
        SitemapIndex::new("https://example.com/sitemap2.xml"),
    ]);
    assert!(xml.starts_with("<?xml version=\"1.0\" encoding=\"UTF-8\"?><sitemapindex"));
    assert!(xml.ends_with("</sitemapindex>"));
    assert_eq!(xml.matches("<loc>").count(), 2);
    let first_at = xml.find("https://example.com/sitemap1.xml").unwrap();
    let second_at = xml.find("https://example.com/sitemap2.xml").unwrap();
    assert!(first_at < second_at);
}

#[test]
fn test_index_lastmod_rendered() {
    let xml = SitemapIndexWriter::build(vec![SitemapIndex {
        loc: "https://example.com/sitemap1.xml".to_string(),
        lastmod: Some("2024-01-01".to_string()),
    }]);
    assert!(xml.contains(
        "<sitemap><loc>https://example.com/sitemap1.xml</loc><lastmod>2024-01-01</lastmod></sitemap>"
    ));
}

#[test]
fn test_index_minimal_entry_only_location() {
    let xml = SitemapIndexWriter::build(vec![SitemapIndex::new("https://example.com/sitemap1.xml")]);
    assert!(xml.contains("<sitemap><loc>https://example.com/sitemap1.xml</loc></sitemap>"));
    assert!(!xml.contains("<lastmod>"));
}

#[test]
fn test_index_escapes_location() {
    let xml = SitemapIndexWriter::build(vec![SitemapIndex::new("https://example.com/a?x=1&y=<2>")]);
    assert!(xml.contains("<loc>https://example.com/a?x=1&amp;y=&lt;2&gt;</loc>"));
}

#[test]
fn test_index_chunks_spell_build() {
    let sitemaps = vec![
        SitemapIndex::new("https://example.com/sitemap1.xml"),
        SitemapIndex::new("https://example.com/sitemap2.xml"),
    ];
    let chunks = SitemapIndexWriter::chunks(sitemaps.clone());
    assert_eq!(chunks.len(), sitemaps.len() + 3);
    assert_eq!(chunks[0], "<?xml version=\"1.0\" encoding=\"UTF-8\"?>");
    assert_eq!(
        chunks[1],
        "<sitemapindex xmlns=\"http://www.sitemaps.org/schemas/sitemap/0.9\">"
    );
    assert_eq!(chunks[chunks.len() - 1], "</sitemapindex>");
    assert_eq!(chunks.concat(), SitemapIndexWriter::build(sitemaps));
}

#[test]
fn test_index_new_defaults() {
    let sitemap = SitemapIndex::new("https://example.com/sitemap1.xml");
    assert_eq!(sitemap.loc, "https://example.com/sitemap1.xml");
    assert!(sitemap.lastmod.is_none());
}

#[test]
fn test_index_default() {
    let sitemap = SitemapIndex::default();
    assert_eq!(sitemap.loc, "");
    assert!(sitemap.lastmod.is_none());
}
