//! Incremental blog-crawl core: sitemap-first discovery with a breadth-first
//! fallback, text-encoding recovery, per-site error backoff, and deduplicated
//! content storage. Network and database access stay outside this crate; the
//! decision logic here is verified.

pub mod backoff;
pub mod config;
pub mod crawl;
pub mod encoding;
pub mod frontier;
pub mod html;
pub mod sitemap;
pub mod store;
pub mod text;
pub mod urlinfo;
