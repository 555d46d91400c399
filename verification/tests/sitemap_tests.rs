use sitemap_writer::SitemapChangeFreq;
use sitemap_writer::SitemapUrl;
use sitemap_writer::SitemapWriter;

#[test]
fn test_build_empty() {
    let xml = SitemapWriter::build(vec![]);
    assert_eq!(
        xml,
        "<?xml version=\"1.0\" encoding=\"UTF-8\"?><urlset xmlns=\"http://www.sitemaps.org/schemas/sitemap/0.9\"></urlset> "
    );
}

#[test]
fn test_build_full_entry_field_order() {
    let xml = SitemapWriter::build(vec![SitemapUrl {
        loc: "https://example.com/".to_string(),
        lastmod: Some("2024-01-01".to_string()),
        changefreq: Some(SitemapChangeFreq::DAILY),
        priority: Some(format!("{}", 1.0f32)),
    }]);
    assert!(xml.contains("<loc>https://example.com/</loc>"));
    assert!(xml.contains("<lastmod>2024-01-01</lastmod>"));
    assert!(xml.contains("<changefreq>daily</changefreq>"));
    assert!(xml.contains("<priority>1</priority>"));
    let block_start = xml.find("<url>").unwrap();
    let block_end = xml.find("</url>").unwrap();
    assert!(block_start < block_end);
    let block = &xml[block_start..block_end];
    let loc_at = block.find("<loc>").unwrap();
    let lastmod_at = block.find("<lastmod>").unwrap();
    let changefreq_at = block.find("<changefreq>").unwrap();
    let priority_at = block.find("<priority>").unwrap();
    assert!(loc_at < lastmod_at);
    assert!(lastmod_at < changefreq_at);
    assert!(changefreq_at < priority_at);
}

#[test]
fn test_build_fractional_priority() {
    let xml = SitemapWriter::build(vec![SitemapUrl {
        loc: "https://example.com/blog/".to_string(),
        lastmod: None,
        changefreq: None,
        priority: Some(format!("{}", 0.8f32)),
    }]);
    assert!(xml.contains("<priority>0.8</priority>"));
}

#[test]
fn test_build_escapes_query_ampersand() {
    let xml = SitemapWriter::build(vec![SitemapUrl::new("https://example.com/?a=1&b=2")]);
    assert!(xml.contains("&amp;"));
    assert!(!xml.contains("&b"));
    assert!(xml.contains("<loc>https://example.com/?a=1&amp;b=2</loc>"));
}

#[test]
fn test_build_escapes_angle_brackets() {
    let xml = SitemapWriter::build(vec![SitemapUrl::new("https://example.com/contact/?test=<>")]);
    assert!(xml.contains("<loc>https://example.com/contact/?test=&lt;&gt;</loc>"));
}

#[test]
fn test_build_escapes_quotes() {
    let xml = SitemapWriter::build(vec![SitemapUrl::new("https://example.com/?q=\"x\"&r='y'")]);
    assert!(xml.contains("<loc>https://example.com/?q=&quot;x&quot;&amp;r=&apos;y&apos;</loc>"));
    let content_start = xml.find("<loc>").unwrap() + "<loc>".len();
    let content_end = xml.find("</loc>").unwrap();
    let content = &xml[content_start..content_end];
    assert!(!content.contains('"'));
    assert!(!content.contains('\''));
}

#[test]
fn test_build_minimal_entry_only_location() {
    let xml = SitemapWriter::build(vec![SitemapUrl::new("https://example.com/about/")]);
    assert!(xml.contains("<url><loc>https://example.com/about/</loc></url>"));
    assert!(!xml.contains("<lastmod>"));
    assert!(!xml.contains("<changefreq>"));
    assert!(!xml.contains("<priority>"));
}

#[test]
fn test_build_three_entries_in_order() {
    let xml = SitemapWriter::build(vec![
        SitemapUrl::new("https://example.com/first"),
        SitemapUrl::new("https://example.com/second"),
        SitemapUrl::new("https://example.com/third"),
    ]);
    assert_eq!(xml.matches("<url>").count(), 3);
    assert_eq!(xml.matches("</url>").count(), 3);
    let first_at = xml.find("https://example.com/first").unwrap();
    let second_at = xml.find("https://example.com/second").unwrap();
    let third_at = xml.find("https://example.com/third").unwrap();
    assert!(first_at < second_at);
    assert!(second_at < third_at);
}

#[test]
fn test_build_sample_urls() {
    let xml = SitemapWriter::build(vec![
        SitemapUrl {
            loc: "https://example.com/".to_string(),
            lastmod: Some("2021-01-01".to_string()),
            changefreq: Some(SitemapChangeFreq::ALWAYS),
            priority: Some(format!("{}", 1.0f32)),
        },
        SitemapUrl::new("https://example.com/contact/"),
        SitemapUrl::new("https://example.com/contact/?test=1"),
        SitemapUrl::new("https://example.com/contact/?test=<>"),
    ]);
    assert!(xml.starts_with("<?xml version=\"1.0\" encoding=\"UTF-8\"?><urlset"));
    assert!(xml.ends_with("</urlset> "));
    assert_eq!(xml.matches("<url>").count(), 4);
    assert!(xml.contains("<lastmod>2021-01-01</lastmod>"));
    assert!(xml.contains("<changefreq>always</changefreq>"));
    assert!(xml.contains("<loc>https://example.com/contact/?test=&lt;&gt;</loc>"));
}

#[test]
fn test_chunks_spell_build() {
    let urls = vec![
        SitemapUrl::new("https://example.com/"),
        SitemapUrl::new("https://example.com/contact/?test=1"),
    ];
    let chunks = SitemapWriter::chunks(urls.clone());
    assert_eq!(chunks.len(), urls.len() + 3);
    assert_eq!(chunks[0], "<?xml version=\"1.0\" encoding=\"UTF-8\"?>");
    assert_eq!(
        chunks[1],
        "<urlset xmlns=\"http://www.sitemaps.org/schemas/sitemap/0.9\">"
    );
    assert_eq!(chunks[chunks.len() - 1], "</urlset> ");
    assert_eq!(chunks.concat(), SitemapWriter::build(urls));
}

#[test]
fn test_changefreq_names() {
    assert_eq!(SitemapChangeFreq::ALWAYS.to_string(), "always");
    assert_eq!(SitemapChangeFreq::HOURLY.to_string(), "hourly");
    assert_eq!(SitemapChangeFreq::DAILY.to_string(), "daily");
    assert_eq!(SitemapChangeFreq::WEEKLY.to_string(), "weekly");
    assert_eq!(SitemapChangeFreq::MONTHLY.to_string(), "monthly");
    assert_eq!(SitemapChangeFreq::YEARLY.to_string(), "yearly");
    assert_eq!(SitemapChangeFreq::NEVER.to_string(), "never");
}

#[test]
fn test_url_new_defaults() {
    let url = SitemapUrl::new("https://example.com/about");
    assert_eq!(url.loc, "https://example.com/about");
    assert!(url.lastmod.is_none());
    assert!(url.changefreq.is_none());
    assert!(url.priority.is_none());
}

#[test]
fn test_url_default() {
    let url = SitemapUrl::default();
    assert_eq!(url.loc, "");
    assert!(url.lastmod.is_none());
    assert!(url.changefreq.is_none());
    assert!(url.priority.is_none());
}
