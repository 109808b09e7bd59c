//! URL identity: registered-domain comparison, relative-URL resolution and
//! the article-link heuristic. Parsing and joining are delegated to the
//! `url` crate behind trusted wrappers; everything else is verified.

use vstd::prelude::*;

verus! {

/// Whether `s` parses as an absolute URL, per `url::Url::parse`.
pub uninterp spec fn url_parse_ok(s: Seq<char>) -> bool;

/// The registered domain of the parsed URL `s` (`None` for hosts without
/// one, such as IP addresses), per `url::Url::domain`; meaningful only when
/// `url_parse_ok(s)`.
pub uninterp spec fn url_domain(s: Seq<char>) -> Option<Seq<char>>;

/// The resolution of `href` against the parsed base `base`, rendered back
/// to a string, per `url::Url::join`; `None` when joining fails. Meaningful
/// only when `url_parse_ok(base)`.
pub uninterp spec fn url_join(base: Seq<char>, href: Seq<char>) -> Option<Seq<char>>;

/// Relies on url::Url::parse and url::Url::domain: whether a URL string
/// parses, and its registered domain, are functions of the string alone.
#[verifier::external_body]
fn parse_domain(s: &str) -> (r: Option<Option<String>>)
    ensures
        r is Some == url_parse_ok(s@),
        match r {
            Some(d) => d.deep_view() == url_domain(s@),
            None => true,
        },
{
    match url::Url::parse(s) {
        Ok(u) => Some(u.domain().map(|d| d.to_string())),
        Err(_) => None,
    }
}

/// Relies on url::Url::parse and url::Url::join: relative-URL resolution is
/// a function of the two strings alone.
#[verifier::external_body]
fn join_url(base: &str, href: &str) -> (r: Option<String>)
    ensures
        match r {
            Some(j) => url_parse_ok(base@) && url_join(base@, href@) == Some(j@),
            None => !url_parse_ok(base@) || url_join(base@, href@) is None,
        },
{
    match url::Url::parse(base) {
        Ok(u) => match u.join(href) {
            Ok(j) => Some(j.to_string()),
            Err(_) => None,
        },
        Err(_) => None,
    }
}

/// Both URLs parse and their registered domains agree.
pub open spec fn same_domain_spec(base: Seq<char>, target: Seq<char>) -> bool {
    url_parse_ok(base) && url_parse_ok(target) && url_domain(base) == url_domain(target)
}

/// Whether two URLs share a registered domain. A URL that does not parse is
/// deliberately treated as sharing no domain, so unparseable links are
/// rejected.
pub fn same_domain(base: &str, target: &str) -> (r: bool)
    ensures
        r == same_domain_spec(base@, target@),
{
    let bd = parse_domain(base);
    let td = parse_domain(target);
    match (bd, td) {
        (Some(b), Some(t)) => match (b, t) {
            (Some(x), Some(y)) => crate::text::str_eq(x.as_str(), y.as_str()),
            (None, None) => true,
            _ => false,
        },
        _ => false,
    }
}

/// The canonical form of `href` seen on page `base`: standard relative-URL
/// resolution, or `href` unchanged when the base does not parse or the join
/// fails.
pub open spec fn normalize_spec(base: Seq<char>, href: Seq<char>) -> Seq<char> {
    if url_parse_ok(base) {
        match url_join(base, href) {
            Some(j) => j,
            None => href,
        }
    } else {
        href
    }
}

/// Resolve `href` against `base`, falling back to `href` itself.
pub fn normalize_url(base: &str, href: &str) -> (r: String)
    ensures
        r@ == normalize_spec(base@, href@),
{
    match join_url(base, href) {
        Some(j) => j,
        None => String::from_str(href),
    }
}

/// Heuristic for article-like URLs: a year-like "/20" path segment, or an
/// ".html" suffix. Advisory only; both false positives and negatives occur.
pub open spec fn is_article_link_spec(href: Seq<char>) -> bool {
    crate::text::find_spec_c(href, "/20"@, 0) is Some || (href.len() >= 5 && href.subrange(
        href.len() - 5,
        href.len() as int,
    ) == ".html"@)
}

/// Whether `href` looks like an article link.
pub fn is_article_link(href: &str) -> (r: bool)
    ensures
        r == is_article_link_spec(href@),
{
    proof {
        reveal_strlit("/20");
        reveal_strlit(".html");
    }
    if crate::text::find_chars(href, "/20", 0).is_some() {
        return true;
    }
    let n: usize = href.unicode_len();
    if n >= 5 {
        if crate::text::chars_match_at(href, ".html", n - 5) {
            proof {
                assert(href@.subrange(n - 5, n as int) == ".html"@);
            }
            return true;
        }
    }
    false
}

} // verus!
