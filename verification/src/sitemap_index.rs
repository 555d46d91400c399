//! The record type and writer of a sitemap-index document.
//!
//! A sitemap index is used when a site has more URLs than one sitemap
//! practically holds: it lists the locations of the individual sitemap
//! files.

use vstd::prelude::*;
use crate::escape::escape_text;
use crate::escape::escaped;
use crate::serialize::SitemapEntry;
use crate::serialize::build_document;
use crate::serialize::document_chunks;
use crate::serialize::spec_chunks;
use crate::serialize::spec_document;

verus! {

/// Represents a single sitemap entry in a sitemap index.
#[derive(Debug, Clone)]
pub struct SitemapIndex {
    /// The URL of the sitemap file.  This is a required field.
    ///
    /// Special characters (`&`, `<`, `>` and the quote characters) are
    /// escaped on output.
    pub loc: String,
    /// The date of last modification of the sitemap file.
    ///
    /// Should be in W3C datetime format (e.g., `2024-01-15`); not
    /// validated.
    pub lastmod: Option<String>,
}

impl SitemapEntry for SitemapIndex {
    /// The `<sitemap>` element of this record: the escaped location, then
    /// the last-modified date when present.
    open spec fn spec_row(&self) -> Seq<char> {
        "<sitemap><loc>"@ + escaped(self.loc@) + "</loc>"@ + (if self.lastmod is Some {
            "<lastmod>"@ + (self.lastmod->0)@ + "</lastmod>"@
        } else {
            Seq::<char>::empty()
        }) + "</sitemap>"@
    }

    fn render(&self) -> (r: String) {
        let mut row = String::from_str("<sitemap><loc>");
        let loc_escaped = escape_text(self.loc.as_str());
        row.append(loc_escaped.as_str());
        row.append("</loc>");
        match &self.lastmod {
            Some(lastmod) => {
                row.append("<lastmod>");
                row.append(lastmod.as_str());
                row.append("</lastmod>");
            },
            None => {},
        }
        row.append("</sitemap>");
        proof {
            assert(row@ =~= self.spec_row());
        }
        row
    }
}

/// Law: a record without a last-modified date contributes a child element
/// holding only the location sub-element.
pub proof fn lemma_index_row_minimal(s: SitemapIndex)
    requires
        s.lastmod is None,
    ensures
        s.spec_row() == "<sitemap><loc>"@ + escaped(s.loc@) + "</loc></sitemap>"@,
{
    reveal_strlit("</loc>");
    reveal_strlit("</sitemap>");
    reveal_strlit("</loc></sitemap>");
    assert("</loc>"@ + "</sitemap>"@ =~= "</loc></sitemap>"@);
    assert(s.spec_row() =~= "<sitemap><loc>"@ + escaped(s.loc@) + "</loc></sitemap>"@);
}

impl SitemapIndex {
    /// Creates a new `SitemapIndex` with only the URL specified.
    ///
    /// The `lastmod` field is `None`.
    pub fn new(loc: &str) -> (r: SitemapIndex)
        ensures
            r.loc@ == loc@,
            r.lastmod is None,
    {
        SitemapIndex { loc: loc.to_owned(), lastmod: None }
    }
}

impl Default for SitemapIndex {
    /// The record with an empty location and no last-modified date.
    fn default() -> (r: Self)
        ensures
            r.loc@ == Seq::<char>::empty(),
            r.lastmod is None,
    {
        SitemapIndex { loc: String::new(), lastmod: None }
    }
}

/// The opening root tag of a sitemap-index document, carrying the
/// protocol namespace.
pub open spec fn spec_sitemapindex_open() -> Seq<char> {
    "<sitemapindex xmlns=\"http://www.sitemaps.org/schemas/sitemap/0.9\">"@
}

/// The closing root tag of a sitemap-index document.  Unlike the URL-set
/// kind, nothing follows it; the asymmetry is kept faithfully.
pub open spec fn spec_sitemapindex_close() -> Seq<char> {
    "</sitemapindex>"@
}

/// The complete sitemap-index document for the given records.
pub open spec fn spec_sitemapindex_doc(sitemaps: Seq<SitemapIndex>) -> Seq<char> {
    spec_document(spec_sitemapindex_open(), spec_sitemapindex_close(), sitemaps)
}

/// A writer for generating XML sitemap index documents.
pub struct SitemapIndexWriter {}

impl SitemapIndexWriter {
    /// Builds the sitemap-index document for `sitemaps` as a string.
    ///
    /// Total: every input sequence yields the document that
    /// [`spec_sitemapindex_doc`] states, with one `<sitemap>` element per
    /// record in input order.
    pub fn build(sitemaps: Vec<SitemapIndex>) -> (r: String)
        ensures
            r@ == spec_sitemapindex_doc(sitemaps@),
    {
        build_document(
            "<sitemapindex xmlns=\"http://www.sitemaps.org/schemas/sitemap/0.9\">",
            "</sitemapindex>",
            &sitemaps,
        )
    }

    /// The document as the pieces a file sink writes one by one: the
    /// declaration, the opening root tag, one piece per record in input
    /// order, and the closing root tag.
    ///
    /// [`crate::serialize::lemma_chunks_concat`] proves that the pieces,
    /// concatenated, spell exactly what [`SitemapIndexWriter::build`]
    /// returns.
    pub fn chunks(sitemaps: Vec<SitemapIndex>) -> (r: Vec<String>)
        ensures
            r@.map_values(|s: String| s@) == spec_chunks(
                spec_sitemapindex_open(),
                spec_sitemapindex_close(),
                sitemaps@,
            ),
    {
        document_chunks(
            "<sitemapindex xmlns=\"http://www.sitemaps.org/schemas/sitemap/0.9\">",
            "</sitemapindex>",
            &sitemaps,
        )
    }
}

} // verus!
