//! Generation of XML sitemap and sitemap-index documents, following the
//! sitemaps.org protocol.
//!
//! A sitemap lists page URLs for search-engine discovery; a sitemap index
//! lists the locations of several sitemap files.  Callers build a sequence
//! of records ([`SitemapUrl`] or [`SitemapIndex`]) and hand it to the
//! matching writer, which assembles the document as a string or as the
//! sequence of pieces that a file sink writes one by one.
//!
//! Every field value placed into element content goes through the escaping
//! routine of [`escape`], so arbitrary caller-supplied text cannot corrupt
//! the document structure.

pub mod error;
pub mod escape;
pub mod serialize;
pub mod sitemap_index;
pub mod sitemap_url;
pub mod sitemap_writer;

pub use error::SitemapError;
pub use escape::escape_text;
pub use sitemap_index::SitemapIndex;
pub use sitemap_index::SitemapIndexWriter;
pub use sitemap_url::SitemapChangeFreq;
pub use sitemap_url::SitemapUrl;
pub use sitemap_writer::SitemapWriter;
