//! Sitemap discovery: the sitemap's address for a base URL, and the
//! extraction of every `loc` element's text from a sitemap body, in
//! document order, truncating at the first unterminated element.

use vstd::prelude::*;

verus! {

/// Index just before the trailing run of '/' characters in `s[..i]`.
pub open spec fn trailing_slash_end(s: Seq<char>, i: int) -> int
    decreases i,
{
    if 0 < i <= s.len() && s[i - 1] == '/' {
        trailing_slash_end(s, i - 1)
    } else {
        i
    }
}

/// The sitemap address: the base URL with trailing slashes stripped,
/// followed by "/sitemap.xml".
pub open spec fn sitemap_url_spec(base: Seq<char>) -> Seq<char> {
    base.take(trailing_slash_end(base, base.len() as int)) + "/sitemap.xml"@
}

/// Build the sitemap address for a base URL.
pub fn sitemap_url(base: &str) -> (r: String)
    ensures
        r@ == sitemap_url_spec(base@),
{
    let n: usize = base.unicode_len();
    let mut end: usize = n;
    while end > 0 && base.get_char(end - 1) == '/'
        invariant
            n == base@.len(),
            end <= n,
            trailing_slash_end(base@, n as int) == trailing_slash_end(base@, end as int),
        decreases end,
    {
        end = end - 1;
    }
    let mut r = String::from_str(base.substring_char(0, end));
    r.append("/sitemap.xml");
    proof {
        assert(base@.subrange(0, end as int) =~= base@.take(end as int));
    }
    r
}

/// The text of each `loc` element of `s` at or after `from`, in document
/// order, whitespace-trimmed; extraction stops at the first opening tag
/// without a closing one.
pub open spec fn locs_from(s: Seq<char>, from: int) -> Seq<Seq<char>>
    decreases s.len() + 1 - from,
    via locs_from_decreases
{
    match crate::text::find_spec_c(s, "<loc>"@, from) {
        None => Seq::empty(),
        Some(j) => match crate::text::find_spec_c(s, "</loc>"@, j + 5) {
            None => Seq::empty(),
            Some(k) => seq![
                crate::text::trim_spec_c(s.subrange(j + 5, k)),
            ] + locs_from(s, k + 6),
        },
    }
}

#[via_fn]
proof fn locs_from_decreases(s: Seq<char>, from: int) {
    reveal_strlit("<loc>");
    reveal_strlit("</loc>");
    match crate::text::find_spec_c(s, "<loc>"@, from) {
        None => {},
        Some(j) => {
            crate::text::lemma_find_some_c(s, "<loc>"@, from, j);
            match crate::text::find_spec_c(s, "</loc>"@, j + 5) {
                None => {},
                Some(k) => {
                    crate::text::lemma_find_some_c(s, "</loc>"@, j + 5, k);
                },
            }
        },
    }
}

/// Collect the text of every `loc` element, in document order.
pub fn extract_loc_urls(body: &str) -> (r: Vec<String>)
    ensures
        r.deep_view() =~= locs_from(body@, 0),
{
    proof {
        reveal_strlit("<loc>");
        reveal_strlit("</loc>");
    }
    let n: usize = body.unicode_len();
    let mut out: Vec<String> = Vec::new();
    let mut from: usize = 0;
    loop
        invariant
            n == body@.len(),
            locs_from(body@, 0) =~= out.deep_view() + locs_from(body@, from as int),
        decreases n + 1 - from,
    {
        proof {
            reveal_strlit("<loc>");
            reveal_strlit("</loc>");
        }
        match crate::text::find_chars(body, "<loc>", from) {
            None => {
                proof {
                    assert(out.deep_view() + locs_from(body@, from as int) =~= out.deep_view());
                }
                return out;
            },
            Some(j) => {
                proof {
                    crate::text::lemma_find_some_c(body@, "<loc>"@, from as int, j as int);
                    assert(j + 5 <= n);
                }
                match crate::text::find_chars(body, "</loc>", j + 5) {
                    None => {
                        proof {
                            assert(out.deep_view() + locs_from(body@, from as int)
                                =~= out.deep_view());
                        }
                        return out;
                    },
                    Some(k) => {
                        proof {
                            crate::text::lemma_find_some_c(body@, "</loc>"@, j + 5, k as int);
                        }
                        let piece = body.substring_char(j + 5, k);
                        let text = crate::text::trim_chars(piece);
                        out.push(text);
                        proof {
                            assert(locs_from(body@, 0) =~= out.deep_view() + locs_from(
                                body@,
                                k + 6,
                            ));
                        }
                        from = k + 6;
                    },
                }
            },
        }
    }
}

} // verus!
