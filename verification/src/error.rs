//! The error taxonomy of the file-writing path.
//!
//! Building a document as a string cannot fail; only a file sink can.  The
//! two kinds of failure are the file not opening and a write (or the final
//! flush) not completing.  Each carries the platform error's textual
//! description for diagnostics.

use vstd::prelude::*;

verus! {

/// Errors that can occur when writing a sitemap to a file.
#[derive(Debug)]
pub enum SitemapError {
    /// Failed to open or create the file.
    FileOpen(String),
    /// Failed to write to the file.
    Write(String),
}

/// The diagnostic text of a [`SitemapError`]: a fixed phrase for the kind,
/// followed by the platform error's description.
pub open spec fn spec_error_message(e: SitemapError) -> Seq<char> {
    match e {
        SitemapError::FileOpen(msg) => "Failed to open file: "@ + msg@,
        SitemapError::Write(msg) => "Failed to write: "@ + msg@,
    }
}

impl SitemapError {
    /// Renders the diagnostic text of this error.
    pub fn message(&self) -> (r: String)
        ensures
            r@ == spec_error_message(*self),
    {
        match self {
            SitemapError::FileOpen(msg) => {
                let mut r = String::from_str("Failed to open file: ");
                r.append(msg.as_str());
                r
            },
            SitemapError::Write(msg) => {
                let mut r = String::from_str("Failed to write: ");
                r.append(msg.as_str());
                r
            },
        }
    }
}

} // verus!
