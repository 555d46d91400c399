//! The URL-set sitemap writer.

use vstd::prelude::*;
use crate::serialize::build_document;
use crate::serialize::document_chunks;
use crate::serialize::spec_chunks;
use crate::serialize::spec_document;
use crate::sitemap_url::SitemapUrl;

verus! {

/// The opening root tag of a URL-set document, carrying the protocol
/// namespace.
pub open spec fn spec_urlset_open() -> Seq<char> {
    "<urlset xmlns=\"http://www.sitemaps.org/schemas/sitemap/0.9\">"@
}

/// The closing root tag of a URL-set document.  The single trailing space
/// after `</urlset>` is kept for byte-exact compatibility.
pub open spec fn spec_urlset_close() -> Seq<char> {
    "</urlset> "@
}

/// The complete URL-set document for the given records.
pub open spec fn spec_urlset_doc(urls: Seq<SitemapUrl>) -> Seq<char> {
    spec_document(spec_urlset_open(), spec_urlset_close(), urls)
}

/// A writer for generating XML sitemaps.
///
/// [`SitemapWriter::build`] returns the document as one string, for
/// example to serve it directly; [`SitemapWriter::chunks`] returns the
/// pieces that a file sink writes one by one.
pub struct SitemapWriter {}

impl SitemapWriter {
    /// Builds the sitemap document for `urls` as a string.
    ///
    /// Total: every input sequence yields the document that
    /// [`spec_urlset_doc`] states, with one `<url>` element per record in
    /// input order.
    pub fn build(urls: Vec<SitemapUrl>) -> (r: String)
        ensures
            r@ == spec_urlset_doc(urls@),
    {
        build_document(
            "<urlset xmlns=\"http://www.sitemaps.org/schemas/sitemap/0.9\">",
            "</urlset> ",
            &urls,
        )
    }

    /// The document as the pieces a file sink writes one by one: the
    /// declaration, the opening root tag, one piece per record in input
    /// order, and the closing root tag.
    ///
    /// [`crate::serialize::lemma_chunks_concat`] proves that the pieces,
    /// concatenated, spell exactly what [`SitemapWriter::build`] returns.
    pub fn chunks(urls: Vec<SitemapUrl>) -> (r: Vec<String>)
        ensures
            r@.map_values(|s: String| s@) == spec_chunks(
                spec_urlset_open(),
                spec_urlset_close(),
                urls@,
            ),
    {
        document_chunks(
            "<urlset xmlns=\"http://www.sitemaps.org/schemas/sitemap/0.9\">",
            "</urlset> ",
            &urls,
        )
    }
}

} // verus!
