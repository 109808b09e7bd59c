//! HTML readings used by the crawl: anchor hrefs, the first title's text and
//! the meta description. All three are functions of the document text alone,
//! computed by the `scraper` crate behind trusted wrappers.

use vstd::prelude::*;

verus! {

/// The `href` attributes of the document's anchors that have one, in
/// document order, per scraper's parse of `doc` and the selector `a`.
pub uninterp spec fn anchor_hrefs(doc: Seq<char>) -> Seq<Seq<char>>;

/// The concatenated text of the document's first `title` element, or `None`
/// when there is none, per scraper's parse of `doc`.
pub uninterp spec fn page_title(doc: Seq<char>) -> Option<Seq<char>>;

/// The `content` attribute of the document's first `meta[name=description]`
/// element, or `None`, per scraper's parse of `doc`.
pub uninterp spec fn meta_description(doc: Seq<char>) -> Option<Seq<char>>;

/// Relies on scraper::Html::parse_document and the "a" selector: a
/// document's anchor hrefs, in document order, are a function of the
/// document text alone.
#[verifier::external_body]
pub(crate) fn extract_hrefs(body: &str) -> (r: Vec<String>)
    ensures
        r.deep_view() == anchor_hrefs(body@),
{
    let doc = scraper::Html::parse_document(body);
    let sel = scraper::Selector::parse("a").unwrap();
    doc.select(&sel).filter_map(|el| el.value().attr("href").map(|h| h.to_string())).collect()
}

/// Relies on scraper::Html::parse_document with the "title" and
/// "meta[name=description]" selectors: the first title's text and the first
/// description's content attribute are functions of the document text alone.
#[verifier::external_body]
pub(crate) fn extract_metadata(body: &str) -> (r: (Option<String>, Option<String>))
    ensures
        r.0.deep_view() == page_title(body@),
        r.1.deep_view() == meta_description(body@),
{
    let doc = scraper::Html::parse_document(body);
    let title_sel = scraper::Selector::parse("title").unwrap();
    let meta_sel = scraper::Selector::parse("meta[name=description]").unwrap();
    let title = doc.select(&title_sel).next().map(|t| t.text().collect::<String>());
    let desc = doc.select(&meta_sel).next().and_then(|m| m.value().attr("content")).map(|s| s
        .to_string());
    (title, desc)
}

} // verus!
