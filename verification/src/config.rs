//! Configured sites: an ordered list of blogs (and a separate list of video
//! channels not consumed by the crawl core). Reading the file and decoding
//! the JSON happen outside this crate; the decoded values are handed in.

use vstd::prelude::*;

verus! {

/// One configured video channel; not consumed by the crawl core.
pub struct YouTubeConfig {
    pub channel_id: String,
    pub name: String,
}

/// One configured blog; the crawl needs only its base URL.
pub struct BlogConfig {
    pub name: String,
    pub url: String,
}

/// The full configuration.
pub struct Config {
    pub youtube: Vec<YouTubeConfig>,
    pub blogs: Vec<BlogConfig>,
}

} // verus!
