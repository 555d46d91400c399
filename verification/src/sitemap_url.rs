//! The record type of a URL-set sitemap, and its change-frequency hint.

use vstd::prelude::*;
use crate::escape::escape_text;
use crate::escape::escaped;
use crate::serialize::SitemapEntry;

verus! {

/// How frequently the content at a URL is likely to change.
///
/// This value provides general information to search engines and may not
/// correlate exactly to how often they crawl the page.
#[allow(non_camel_case_types)]
#[derive(Debug, Clone, PartialEq, Eq)]
pub enum SitemapChangeFreq {
    /// The page changes every time it is accessed.
    ALWAYS,
    /// The page changes hourly.
    HOURLY,
    /// The page changes daily.
    DAILY,
    /// The page changes weekly.
    WEEKLY,
    /// The page changes monthly.
    MONTHLY,
    /// The page changes yearly.
    YEARLY,
    /// The page is archived and will never change.
    NEVER,
}

/// The canonical lowercase rendering of each change-frequency variant; no
/// other rendering exists.
pub open spec fn spec_freq_text(f: SitemapChangeFreq) -> Seq<char> {
    match f {
        SitemapChangeFreq::ALWAYS => "always"@,
        SitemapChangeFreq::HOURLY => "hourly"@,
        SitemapChangeFreq::DAILY => "daily"@,
        SitemapChangeFreq::WEEKLY => "weekly"@,
        SitemapChangeFreq::MONTHLY => "monthly"@,
        SitemapChangeFreq::YEARLY => "yearly"@,
        SitemapChangeFreq::NEVER => "never"@,
    }
}

impl SitemapChangeFreq {
    /// Renders this variant's canonical lowercase name.
    pub fn to_string(&self) -> (r: String)
        ensures
            r@ == spec_freq_text(*self),
    {
        match self {
            SitemapChangeFreq::ALWAYS => String::from_str("always"),
            SitemapChangeFreq::HOURLY => String::from_str("hourly"),
            SitemapChangeFreq::DAILY => String::from_str("daily"),
            SitemapChangeFreq::WEEKLY => String::from_str("weekly"),
            SitemapChangeFreq::MONTHLY => String::from_str("monthly"),
            SitemapChangeFreq::YEARLY => String::from_str("yearly"),
            SitemapChangeFreq::NEVER => String::from_str("never"),
        }
    }
}

/// Represents a single URL entry in a sitemap.
#[derive(Debug, Clone)]
pub struct SitemapUrl {
    /// The URL of the page.  This is the only required field.
    ///
    /// Special characters (`&`, `<`, `>` and the quote characters) are
    /// escaped on output.
    pub loc: String,
    /// The date of last modification of the page.
    ///
    /// Should be in W3C datetime format (e.g., `2024-01-15`); not
    /// validated.
    pub lastmod: Option<String>,
    /// How frequently the page is likely to change.
    pub changefreq: Option<SitemapChangeFreq>,
    /// The priority of this URL relative to other URLs on the site, in the
    /// textual form that the document carries (e.g., `1`, `0.8`).
    ///
    /// Expected to name a value between 0.0 and 1.0; not validated.
    pub priority: Option<String>,
}

impl SitemapEntry for SitemapUrl {
    /// The `<url>` element of this record: the escaped location, then each
    /// optional field that is present, in fixed order; an absent field
    /// contributes nothing.
    open spec fn spec_row(&self) -> Seq<char> {
        "<url><loc>"@ + escaped(self.loc@) + "</loc>"@ + (if self.lastmod is Some {
            "<lastmod>"@ + (self.lastmod->0)@ + "</lastmod>"@
        } else {
            Seq::<char>::empty()
        }) + (if self.changefreq is Some {
            "<changefreq>"@ + spec_freq_text(self.changefreq->0) + "</changefreq>"@
        } else {
            Seq::<char>::empty()
        }) + (if self.priority is Some {
            "<priority>"@ + (self.priority->0)@ + "</priority>"@
        } else {
            Seq::<char>::empty()
        }) + "</url>"@
    }

    fn render(&self) -> (r: String) {
        let mut row = String::from_str("<url><loc>");
        let loc_escaped = escape_text(self.loc.as_str());
        row.append(loc_escaped.as_str());
        row.append("</loc>");
        match &self.lastmod {
            Some(lastmod) => {
                row.append("<lastmod>");
                row.append(lastmod.as_str());
                row.append("</lastmod>");
            },
            None => {},
        }
        match &self.changefreq {
            Some(changefreq) => {
                row.append("<changefreq>");
                let text = changefreq.to_string();
                row.append(text.as_str());
                row.append("</changefreq>");
            },
            None => {},
        }
        match &self.priority {
            Some(priority) => {
                row.append("<priority>");
                row.append(priority.as_str());
                row.append("</priority>");
            },
            None => {},
        }
        row.append("</url>");
        proof {
            assert(row@ =~= self.spec_row());
        }
        row
    }
}

/// Law: a record whose optional fields are all absent contributes a child
/// element holding only the location sub-element.
pub proof fn lemma_url_row_minimal(u: SitemapUrl)
    requires
        u.lastmod is None,
        u.changefreq is None,
        u.priority is None,
    ensures
        u.spec_row() == "<url><loc>"@ + escaped(u.loc@) + "</loc></url>"@,
{
    reveal_strlit("</loc>");
    reveal_strlit("</url>");
    reveal_strlit("</loc></url>");
    assert("</loc>"@ + "</url>"@ =~= "</loc></url>"@);
    assert(u.spec_row() =~= "<url><loc>"@ + escaped(u.loc@) + "</loc></url>"@);
}

impl SitemapUrl {
    /// Creates a new `SitemapUrl` with only the URL specified.
    ///
    /// All other fields (`lastmod`, `changefreq`, `priority`) are `None`.
    pub fn new(loc: &str) -> (r: SitemapUrl)
        ensures
            r.loc@ == loc@,
            r.lastmod is None,
            r.changefreq is None,
            r.priority is None,
    {
        SitemapUrl { loc: loc.to_owned(), lastmod: None, changefreq: None, priority: None }
    }
}

impl Default for SitemapUrl {
    /// The record with an empty location and every optional field absent.
    fn default() -> (r: Self)
        ensures
            r.loc@ == Seq::<char>::empty(),
            r.lastmod is None,
            r.changefreq is None,
            r.priority is None,
    {
        SitemapUrl { loc: String::new(), lastmod: None, changefreq: None, priority: None }
    }
}

} // verus!
