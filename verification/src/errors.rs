//! Errors of the crawl. Each carries the context a maintainer needs: the
//! page or story URL it arose on.

use vstd::prelude::*;

verus! {

/// A fatal crawl error. Extraction and configuration failures end the run.
#[derive(Debug, Clone)]
pub enum CrawlError {
    /// The base URL has no scheme.
    MissingScheme,
    /// The base URL has no authority.
    MissingAuthority,
    /// The link has no path.
    MissingPath,
    /// A link could not be parsed as a URL.
    BadUrl { url: String },
    /// A fixed selector text failed to compile; should never occur.
    BadSelector,
    /// A listing entry has no story link.
    NoStoryLink { page: String },
    /// A matched link has no `href` attribute.
    NoHref { page: String },
    /// The story URL path carries no id segment.
    NoStoryId,
    /// The id segment is not a number in range.
    BadStoryId,
    /// The story page has no download affordance; the raw markup is kept
    /// so the caller can persist it for offline debugging.
    NoDownloadLink { url: String, markup: String },
    /// The download page has no story name.
    NoName { url: String },
    /// An event arrived that the current state cannot take.
    Protocol,
}

} // verus!
