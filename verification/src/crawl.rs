//! The crawl pipeline's decisions: recording a fetched article, extending
//! the frontier from a fetched page, and the per-site run that tries the
//! sitemap first and falls back to breadth-first crawling, bounded by a
//! per-run cap on newly inserted articles. Fetching itself happens outside;
//! every outcome is handed in as a value.

use crate::backoff::ErrorBackoff;
use crate::backoff::SECONDS_PER_DAY;
use crate::backoff::upserted;
use crate::frontier::LinkFrontier;
use crate::frontier::QueueEntry;
use crate::frontier::QueueStatus;
use crate::frontier::capped;
use crate::frontier::frontier_has;
use crate::frontier::marked_done;
use crate::frontier::pending_prefix;
use crate::html::anchor_hrefs;
use crate::html::meta_description;
use crate::html::page_title;
use crate::store::ContentStore;
use crate::store::row_matches;
use crate::urlinfo::is_article_link_spec;
use crate::urlinfo::normalize_spec;
use crate::urlinfo::same_domain_spec;
use vstd::prelude::*;

verus! {

/// At most this many newly inserted articles per site and run.
pub const MAX_NEW_PER_SITE: usize = 5;

/// How long a page that returned 404 is suppressed, in days.
pub const NOT_FOUND_BACKOFF_DAYS: u64 = 7;

/// Closed classification of an article fetch, handed in by the driver.
pub enum FetchOutcome {
    /// Network failure or timeout; nothing was received.
    Transport,
    /// A response with a non-success HTTP status.
    Status { code: u16 },
    /// A successful response: the declared content-type header value, if
    /// any, and the raw body bytes.
    Success { content_type: Option<Vec<u8>>, body: Vec<u8> },
}

/// Closed classification of a page fetch for link extraction: the body
/// arrives as transport-decoded text.
pub enum PageFetch {
    /// Network failure or timeout; nothing was received.
    Failed,
    /// A response: its HTTP status, declared content type and body text.
    Received { code: u16, content_type: Option<String>, body: String },
}

/// Why a page could not be used for link extraction.
#[derive(Debug)]
pub enum CrawlError {
    /// Network failure or timeout.
    Transport,
    /// A response with a non-success HTTP status.
    HttpStatus { status: u16, url: String },
}

/// The persistent working state: content store, frontier and backoff
/// registry.
pub struct Crawler {
    pub store: ContentStore,
    pub frontier: LinkFrontier,
    pub backoff: ErrorBackoff,
}

impl Crawler {
    /// All three parts are well-formed.
    pub open spec fn wf(self) -> bool {
        self.store.wf() && self.frontier.wf() && self.backoff.wf()
    }

    /// Empty store, frontier and registry.
    pub fn new() -> (r: Crawler)
        ensures
            r.wf(),
            r.store@ =~= Seq::<crate::store::StoredRow>::empty(),
            r.frontier@ =~= Seq::<QueueEntry>::empty(),
            r.backoff@ =~= Seq::<crate::backoff::ErrorRecord>::empty(),
    {
        Crawler {
            store: ContentStore::new(),
            frontier: LinkFrontier::new(),
            backoff: ErrorBackoff::new(),
        }
    }
}

/// An HTTP status that counts as success.
pub open spec fn http_success(code: u16) -> bool {
    200 <= code < 300
}

/// The declared content type admits HTML.
pub open spec fn declares_html(ct: Seq<char>) -> bool {
    crate::text::find_spec_c(ct, "text/html"@, 0) is Some
}

/// The title recorded for a document: its first title's text, or the
/// sentinel when there is none.
pub open spec fn title_of(text: Seq<char>) -> Seq<char> {
    match page_title(text) {
        Some(t) => t,
        None => "No Title"@,
    }
}

/// The decoded text of an article response body.
pub open spec fn article_text(content_type: Option<Vec<u8>>, body: Vec<u8>) -> Seq<char> {
    crate::encoding::resolve_spec(
        match content_type {
            Some(c) => Some(c@),
            None => None,
        },
        body@,
    )
}

/// Record the outcome of one article fetch, as the acquirer does after its
/// fetch step: a 404 registers a week of backoff for the URL and nothing is
/// stored; any other failure is abandoned silently; a success is decoded,
/// its title and description extracted, and stored idempotently under the
/// URL. Reports whether a new row was inserted.
pub fn record_article(
    crawler: &mut Crawler,
    url: &str,
    outcome: &FetchOutcome,
    fetched_at: u64,
    now: u64,
) -> (inserted: bool)
    requires
        old(crawler).wf(),
        now + NOT_FOUND_BACKOFF_DAYS * SECONDS_PER_DAY <= u64::MAX,
    ensures
        final(crawler).wf(),
        final(crawler).frontier@ == old(crawler).frontier@,
        match *outcome {
            FetchOutcome::Transport => {
                &&& !inserted
                &&& final(crawler).store@ == old(crawler).store@
                &&& final(crawler).backoff@ == old(crawler).backoff@
            },
            FetchOutcome::Status { code } => {
                &&& !inserted
                &&& final(crawler).store@ == old(crawler).store@
                &&& (code == 404 ==> upserted(
                    old(crawler).backoff@,
                    final(crawler).backoff@,
                    url@,
                    "404"@,
                    now,
                    now + NOT_FOUND_BACKOFF_DAYS * SECONDS_PER_DAY,
                ))
                &&& (code != 404 ==> final(crawler).backoff@ == old(crawler).backoff@)
            },
            FetchOutcome::Success { content_type, body } => {
                let text = article_text(content_type, body);
                &&& final(crawler).backoff@ == old(crawler).backoff@
                &&& inserted == !old(crawler).store.has_id(url@)
                &&& (!inserted ==> final(crawler).store@ =~= old(crawler).store@)
                &&& (inserted ==> final(crawler).store@ =~= old(crawler).store@.push(
                    final(crawler).store@.last(),
                ) && row_matches(
                    final(crawler).store@.last(),
                    url@,
                    "blog"@,
                    title_of(text),
                    url@,
                    meta_description(text),
                    None,
                    None,
                    fetched_at,
                ))
            },
        },
{
    match outcome {
        FetchOutcome::Transport => false,
        FetchOutcome::Status { code } => {
            if *code == 404 {
                crawler.backoff.register_error(url, "404", NOT_FOUND_BACKOFF_DAYS, now);
            }
            false
        },
        FetchOutcome::Success { content_type, body } => {
            let ct: Option<&Vec<u8>> = match content_type {
                Some(c) => Some(c),
                None => None,
            };
            let text = crate::encoding::resolve_text(ct, body);
            let meta = crate::html::extract_metadata(text.as_str());
            let title: String = match meta.0 {
                Some(t) => t,
                None => String::from_str("No Title"),
            };
            let desc: Option<String> = meta.1;
            let desc_ref: Option<&str> = match &desc {
                Some(d) => Some(d.as_str()),
                None => None,
            };
            crawler.store.insert(
                url,
                "blog",
                title.as_str(),
                url,
                desc_ref,
                None,
                None,
                fetched_at,
            )
        },
    }
}

/// The same-domain links accepted from the first `i` hrefs of a page, in
/// order, each resolved against the page URL and kept only on first
/// sighting (absent from `fr0` and from the links accepted before it).
pub open spec fn accept_list(
    fr0: Seq<QueueEntry>,
    page: Seq<char>,
    hrefs: Seq<Seq<char>>,
    i: int,
) -> Seq<Seq<char>>
    decreases i,
{
    if i <= 0 {
        Seq::empty()
    } else {
        let prev = accept_list(fr0, page, hrefs, i - 1);
        let u = normalize_spec(page, hrefs[i - 1]);
        if same_domain_spec(page, u) && !frontier_has(fr0, u) && !prev.contains(u) {
            prev.push(u)
        } else {
            prev
        }
    }
}

/// The frontier `post` extends `pre` with fresh pending entries for the
/// URLs of `acc`, in order, each with the page as parent, stamped `now`.
pub open spec fn frontier_extended(
    pre: Seq<QueueEntry>,
    post: Seq<QueueEntry>,
    acc: Seq<Seq<char>>,
    page: Seq<char>,
    now: u64,
) -> bool {
    &&& post.len() == pre.len() + acc.len()
    &&& post.subrange(0, pre.len() as int) =~= pre
    &&& forall|t: int|
        0 <= t < acc.len() ==> {
            let e = #[trigger] post[pre.len() + t];
            &&& e.url@ == acc[t]
            &&& e.parent_url.deep_view() == Some(page)
            &&& e.status == QueueStatus::Pending
            &&& e.discovered_at == now
            &&& e.fetched_at is None
            &&& e.retry_count == 0
            &&& e.next_retry_at is None
        }
}

/// Process one page fetch for link discovery, as the frontier's page step
/// does: failures and non-success statuses change nothing and report an
/// error; a response that declares a non-HTML type, or declares none while
/// the URL does not look like an article, yields zero links; otherwise
/// every anchor is resolved against the page URL, same-domain links are
/// enqueued, and the count of newly enqueued URLs is returned.
pub fn crawl_page(
    crawler: &mut Crawler,
    page_url: &str,
    fetch: &PageFetch,
    now: u64,
) -> (r: Result<usize, CrawlError>)
    requires
        old(crawler).wf(),
    ensures
        final(crawler).wf(),
        final(crawler).store@ == old(crawler).store@,
        final(crawler).backoff@ == old(crawler).backoff@,
        match *fetch {
            PageFetch::Failed => {
                &&& r is Err
                &&& r matches Err(e) ==> e is Transport
                &&& final(crawler).frontier@ == old(crawler).frontier@
            },
            PageFetch::Received { code, content_type, body } => {
                if !http_success(code) {
                    &&& final(crawler).frontier@ == old(crawler).frontier@
                    &&& r matches Err(e) && (e matches CrawlError::HttpStatus {
                        status,
                        url,
                    } && status == code && url@ == page_url@)
                } else if (content_type matches Some(c) && !declares_html(c@)) || (
                content_type is None && !is_article_link_spec(page_url@)) {
                    &&& final(crawler).frontier@ == old(crawler).frontier@
                    &&& r matches Ok(n) && n == 0
                } else {
                    let acc = accept_list(
                        old(crawler).frontier@,
                        page_url@,
                        anchor_hrefs(body@),
                        anchor_hrefs(body@).len() as int,
                    );
                    &&& r matches Ok(n) && n == acc.len()
                    &&& frontier_extended(
                        old(crawler).frontier@,
                        final(crawler).frontier@,
                        acc,
                        page_url@,
                        now,
                    )
                }
            },
        },
{
    match fetch {
        PageFetch::Failed => Err(CrawlError::Transport),
        PageFetch::Received { code, content_type, body } => {
            if !(200 <= *code && *code < 300) {
                return Err(
                    CrawlError::HttpStatus { status: *code, url: String::from_str(page_url) },
                );
            }
            match content_type {
                Some(c) => {
                    proof {
                        reveal_strlit("text/html");
                    }
                    if crate::text::find_chars(c.as_str(), "text/html", 0).is_none() {
                        return Ok(0);
                    }
                },
                None => {
                    if !crate::urlinfo::is_article_link(page_url) {
                        return Ok(0);
                    }
                },
            }
            let hrefs = crate::html::extract_hrefs(body.as_str());
            let ghost fr0 = crawler.frontier@;
            let ghost hdv = hrefs.deep_view();
            let m: usize = hrefs.len();
            let mut added: usize = 0;
            let mut i: usize = 0;
            while i < m
                invariant
                    old(crawler).wf(),
                    crawler.store@ == old(crawler).store@,
                    crawler.backoff@ == old(crawler).backoff@,
                    crawler.store.wf(),
                    crawler.backoff.wf(),
                    crawler.frontier.wf(),
                    fr0 == old(crawler).frontier@,
                    hdv == hrefs.deep_view(),
                    m == hdv.len(),
                    i <= m,
                    added <= i,
                    added == accept_list(fr0, page_url@, hdv, i as int).len(),
                    frontier_extended(
                        fr0,
                        crawler.frontier@,
                        accept_list(fr0, page_url@, hdv, i as int),
                        page_url@,
                        now,
                    ),
                decreases m - i,
            {
                let ghost acc_i = accept_list(fr0, page_url@, hdv, i as int);
                let href = &hrefs[i];
                let u = crate::urlinfo::normalize_url(page_url, href.as_str());
                proof {
                    assert(hdv[i as int] == hrefs@[i as int]@);
                    assert(u@ == normalize_spec(page_url@, hdv[i as int]));
                }
                if crate::urlinfo::same_domain(page_url, u.as_str()) {
                    let ghost pre = crawler.frontier@;
                    let ins = crawler.frontier.enqueue(u.as_str(), Some(page_url), now);
                    proof {
                        lemma_extended_has(fr0, pre, acc_i, page_url@, now, u@);
                        if ins {
                            assert(!frontier_has(fr0, u@) && !acc_i.contains(u@));
                            assert(accept_list(fr0, page_url@, hdv, i + 1) =~= acc_i.push(u@));
                            assert(frontier_extended(
                                fr0,
                                crawler.frontier@,
                                acc_i.push(u@),
                                page_url@,
                                now,
                            )) by {
                                assert(crawler.frontier@ =~= pre.push(crawler.frontier@.last()));
                                assert(crawler.frontier@.subrange(0, fr0.len() as int)
                                    =~= pre.subrange(0, fr0.len() as int));
                                assert(forall|t: int|
                                    0 <= t < acc_i.len() ==> #[trigger] crawler.frontier@[fr0.len()
                                        + t] == pre[fr0.len() + t]);
                            }
                        } else {
                            assert(frontier_has(fr0, u@) || acc_i.contains(u@));
                            assert(accept_list(fr0, page_url@, hdv, i + 1) =~= acc_i);
                        }
                    }
                    if ins {
                        added = added + 1;
                    }
                } else {
                    proof {
                        assert(accept_list(fr0, page_url@, hdv, i + 1) =~= acc_i);
                    }
                }
                i = i + 1;
            }
            Ok(added)
        },
    }
}

/// In an extended frontier, a URL is present exactly when it is in the base
/// frontier or among the accepted links.
proof fn lemma_extended_has(
    fr0: Seq<QueueEntry>,
    post: Seq<QueueEntry>,
    acc: Seq<Seq<char>>,
    page: Seq<char>,
    now: u64,
    u: Seq<char>,
)
    requires
        frontier_extended(fr0, post, acc, page, now),
    ensures
        frontier_has(post, u) == (frontier_has(fr0, u) || acc.contains(u)),
{
    if frontier_has(post, u) {
        let i = choose|i: int| 0 <= i < post.len() && post[i].url@ == u;
        if i < fr0.len() {
            assert(post.subrange(0, fr0.len() as int)[i] == post[i]);
            assert(fr0[i].url@ == u);
        } else {
            assert(post[fr0.len() + (i - fr0.len())].url@ == acc[i - fr0.len()]);
            assert(acc[i - fr0.len()] == u);
        }
    }
    if frontier_has(fr0, u) {
        let i = choose|i: int| 0 <= i < fr0.len() && fr0[i].url@ == u;
        assert(post.subrange(0, fr0.len() as int)[i] == fr0[i]);
        assert(post[i].url@ == u);
    }
    if acc.contains(u) {
        let t = choose|t: int| 0 <= t < acc.len() && acc[t] == u;
        assert(post[fr0.len() + t].url@ == acc[t]);
    }
}

/// Which step of a per-site run comes next.
#[derive(Clone, Copy, PartialEq, Eq, Structural)]
pub enum PhaseTag {
    /// Deciding on the next sitemap candidate.
    SitemapNext,
    /// An article fetch for the current sitemap candidate is in flight.
    SitemapWait,
    /// A fresh batch of pending frontier URLs is needed.
    BfsCollect,
    /// Deciding on the next batch entry.
    BfsNext,
    /// A page fetch for the current batch entry is in flight.
    BfsPageWait,
    /// An article fetch for the current batch entry is in flight.
    BfsArticleWait,
    /// The site's run is over.
    Done,
}

/// What the driver should do next.
pub enum Action {
    /// Fetch this URL as an article and report through `on_article_result`.
    FetchArticle { url: String },
    /// Fetch this URL as a page, run `crawl_page`, and report through
    /// `on_page_result`.
    FetchPage { url: String },
    /// This URL is under backoff and was passed over without a fetch.
    Skip { url: String },
    /// The state advanced internally; ask again.
    Poll,
    /// The run is over.
    Finished,
}

/// One site's crawl run: the sitemap candidates or the current batch, a
/// cursor into them, the link count awaiting its article fetch, and the
/// count of newly inserted articles, held against the per-run cap.
pub struct SiteRun {
    pub phase: PhaseTag,
    pub urls: Vec<String>,
    pub batch: Vec<String>,
    pub idx: usize,
    pub added: usize,
    pub counter: usize,
}

impl SiteRun {
    /// The cursor stays within the list the phase walks.
    pub open spec fn wf_run(self) -> bool {
        match self.phase {
            PhaseTag::SitemapNext => self.idx <= self.urls@.len(),
            PhaseTag::SitemapWait => self.idx < self.urls@.len(),
            PhaseTag::BfsCollect => true,
            PhaseTag::BfsNext => self.idx <= self.batch@.len(),
            PhaseTag::BfsPageWait => self.idx < self.batch@.len(),
            PhaseTag::BfsArticleWait => self.idx < self.batch@.len(),
            PhaseTag::Done => true,
        }
    }
}

/// `post` is `pre` with a fresh pending root entry for `base` if it was
/// absent, `pre` unchanged otherwise.
pub open spec fn seeded(
    pre: Seq<QueueEntry>,
    post: Seq<QueueEntry>,
    base: Seq<char>,
    now: u64,
) -> bool {
    if frontier_has(pre, base) {
        post =~= pre
    } else {
        &&& post =~= pre.push(post.last())
        &&& post.last().url@ == base
        &&& post.last().parent_url is None
        &&& post.last().status == QueueStatus::Pending
        &&& post.last().discovered_at == now
        &&& post.last().fetched_at is None
        &&& post.last().retry_count == 0
        &&& post.last().next_retry_at is None
    }
}

/// Start a run for one site. A sitemap body with any `loc` entries enters
/// sitemap mode with exactly those URLs, in order, and the frontier is left
/// alone; otherwise the site root is enqueued and breadth-first mode
/// begins.
pub fn begin_run(
    crawler: &mut Crawler,
    base_url: &str,
    sitemap_body: Option<&str>,
    now: u64,
) -> (run: SiteRun)
    requires
        old(crawler).wf(),
    ensures
        final(crawler).wf(),
        run.wf_run(),
        final(crawler).store@ == old(crawler).store@,
        final(crawler).backoff@ == old(crawler).backoff@,
        run.counter == 0,
        run.idx == 0,
        match sitemap_body {
            Some(b) => if crate::sitemap::locs_from(b@, 0).len() > 0 {
                &&& run.phase == PhaseTag::SitemapNext
                &&& run.urls.deep_view() =~= crate::sitemap::locs_from(b@, 0)
                &&& final(crawler).frontier@ == old(crawler).frontier@
            } else {
                &&& run.phase == PhaseTag::BfsCollect
                &&& seeded(old(crawler).frontier@, final(crawler).frontier@, base_url@, now)
            },
            None => {
                &&& run.phase == PhaseTag::BfsCollect
                &&& seeded(old(crawler).frontier@, final(crawler).frontier@, base_url@, now)
            },
        },
{
    let locs: Vec<String> = match sitemap_body {
        Some(b) => crate::sitemap::extract_loc_urls(b),
        None => Vec::new(),
    };
    if locs.len() > 0 {
        SiteRun {
            phase: PhaseTag::SitemapNext,
            urls: locs,
            batch: Vec::new(),
            idx: 0,
            added: 0,
            counter: 0,
        }
    } else {
        crawler.frontier.enqueue(base_url, None, now);
        SiteRun {
            phase: PhaseTag::BfsCollect,
            urls: Vec::new(),
            batch: Vec::new(),
            idx: 0,
            added: 0,
            counter: 0,
        }
    }
}

/// Decide the next step of the run. Once the cap of newly inserted
/// articles is reached, the run finishes at once and nothing more is ever
/// fetched. In sitemap mode, candidates under backoff are passed over
/// without a fetch; others are issued for an article fetch in sitemap
/// order. In breadth-first mode, batches of up to ten due pending URLs are
/// drawn from the frontier and each is issued for a page fetch.
pub fn next_action(run: &mut SiteRun, crawler: &mut Crawler, now: u64) -> (action: Action)
    requires
        old(run).wf_run(),
        old(crawler).wf(),
        old(run).phase != PhaseTag::SitemapWait,
        old(run).phase != PhaseTag::BfsPageWait,
        old(run).phase != PhaseTag::BfsArticleWait,
    ensures
        final(run).wf_run(),
        final(crawler).wf(),
        final(crawler).store@ == old(crawler).store@,
        final(crawler).backoff@ == old(crawler).backoff@,
        final(crawler).frontier@ == old(crawler).frontier@,
        final(run).counter == old(run).counter,
        final(run).urls == old(run).urls,
        final(run).added == old(run).added,
        old(run).counter >= MAX_NEW_PER_SITE ==> action is Finished && final(run).phase
            == PhaseTag::Done,
        old(run).counter < MAX_NEW_PER_SITE ==> match old(run).phase {
            PhaseTag::SitemapNext => {
                &&& final(run).batch == old(run).batch
                &&& if old(run).idx >= old(run).urls@.len() {
                    action is Finished && final(run).phase == PhaseTag::Done
                } else if old(crawler).backoff.skip_spec(old(run).urls@[old(run).idx as int]@, now) {
                    &&& action matches Action::Skip { url } && url@ == old(run).urls@[old(
                        run,
                    ).idx as int]@
                    &&& final(run).phase == PhaseTag::SitemapNext
                    &&& final(run).idx == old(run).idx + 1
                } else {
                    &&& action matches Action::FetchArticle { url } && url@ == old(run).urls@[old(
                        run,
                    ).idx as int]@
                    &&& final(run).phase == PhaseTag::SitemapWait
                    &&& final(run).idx == old(run).idx
                }
            },
            PhaseTag::BfsCollect => {
                let pend = capped(
                    pending_prefix(
                        old(crawler).frontier@,
                        old(crawler).frontier@.len() as int,
                        now,
                    ),
                    10,
                );
                if pend.len() == 0 {
                    action is Finished && final(run).phase == PhaseTag::Done
                } else {
                    &&& action is Poll
                    &&& final(run).phase == PhaseTag::BfsNext
                    &&& final(run).batch.deep_view() =~= pend
                    &&& final(run).idx == 0
                }
            },
            PhaseTag::BfsNext => {
                &&& final(run).batch == old(run).batch
                &&& if old(run).idx >= old(run).batch@.len() {
                    action is Poll && final(run).phase == PhaseTag::BfsCollect
                } else {
                    &&& action matches Action::FetchPage { url } && url@ == old(run).batch@[old(
                        run,
                    ).idx as int]@
                    &&& final(run).phase == PhaseTag::BfsPageWait
                    &&& final(run).idx == old(run).idx
                }
            },
            PhaseTag::Done => action is Finished && final(run).phase == PhaseTag::Done,
            _ => true,
        },
{
    if run.counter >= MAX_NEW_PER_SITE {
        run.phase = PhaseTag::Done;
        return Action::Finished;
    }
    match run.phase {
        PhaseTag::SitemapNext => {
            if run.idx >= run.urls.len() {
                run.phase = PhaseTag::Done;
                return Action::Finished;
            }
            let url = run.urls[run.idx].clone();
            if crawler.backoff.should_skip(url.as_str(), now) {
                run.idx = run.idx + 1;
                Action::Skip { url }
            } else {
                run.phase = PhaseTag::SitemapWait;
                Action::FetchArticle { url }
            }
        },
        PhaseTag::BfsCollect => {
            let batch = crawler.frontier.next_pending(10, now);
            if batch.len() == 0 {
                run.phase = PhaseTag::Done;
                return Action::Finished;
            }
            proof {
                assert(batch.deep_view().len() == batch@.len());
            }
            run.batch = batch;
            run.idx = 0;
            run.phase = PhaseTag::BfsNext;
            Action::Poll
        },
        PhaseTag::BfsNext => {
            if run.idx >= run.batch.len() {
                run.phase = PhaseTag::BfsCollect;
                return Action::Poll;
            }
            let url = run.batch[run.idx].clone();
            run.phase = PhaseTag::BfsPageWait;
            Action::FetchPage { url }
        },
        _ => {
            run.phase = PhaseTag::Done;
            Action::Finished
        },
    }
}

/// Report the page step's result for the awaited batch entry. A failed
/// page leaves its entry pending and moves on; a processed page holds its
/// newly-enqueued count for the budget and awaits the article fetch,
/// unless the URL is under backoff, in which case it is marked done and
/// passed over without an article fetch.
pub fn on_page_result(
    run: &mut SiteRun,
    crawler: &mut Crawler,
    page_ok: bool,
    added: usize,
    now: u64,
)
    requires
        old(run).wf_run(),
        old(crawler).wf(),
        old(run).phase == PhaseTag::BfsPageWait,
    ensures
        final(run).wf_run(),
        final(crawler).wf(),
        final(crawler).store@ == old(crawler).store@,
        final(crawler).backoff@ == old(crawler).backoff@,
        final(run).counter == old(run).counter,
        final(run).urls == old(run).urls,
        final(run).batch == old(run).batch,
        !page_ok ==> {
            &&& final(crawler).frontier@ == old(crawler).frontier@
            &&& final(run).phase == PhaseTag::BfsNext
            &&& final(run).idx == old(run).idx + 1
        },
        page_ok ==> {
            let url = old(run).batch@[old(run).idx as int]@;
            if old(crawler).backoff.skip_spec(url, now) {
                &&& marked_done(old(crawler).frontier@, final(crawler).frontier@, url, now)
                &&& final(run).phase == PhaseTag::BfsNext
                &&& final(run).idx == old(run).idx + 1
            } else {
                &&& final(crawler).frontier@ == old(crawler).frontier@
                &&& final(run).phase == PhaseTag::BfsArticleWait
                &&& final(run).idx == old(run).idx
                &&& final(run).added == added
            }
        },
{
    let n: usize = run.batch.len();
    if !page_ok {
        run.phase = PhaseTag::BfsNext;
        run.idx = run.idx + 1;
        return ;
    }
    let url = run.batch[run.idx].clone();
    if crawler.backoff.should_skip(url.as_str(), now) {
        crawler.frontier.mark_done(url.as_str(), now);
        run.phase = PhaseTag::BfsNext;
        run.idx = run.idx + 1;
    } else {
        run.phase = PhaseTag::BfsArticleWait;
        run.added = added;
    }
}

/// Report whether the awaited article fetch inserted a new row. In sitemap
/// mode an insertion counts one toward the cap; in breadth-first mode an
/// insertion adds the page's newly-enqueued link count to the budget, as
/// the run-level accounting does, and the entry is marked done either way.
pub fn on_article_result(run: &mut SiteRun, crawler: &mut Crawler, inserted: bool, now: u64)
    requires
        old(run).wf_run(),
        old(crawler).wf(),
        old(run).phase == PhaseTag::SitemapWait || old(run).phase == PhaseTag::BfsArticleWait,
        old(run).counter + old(run).added < usize::MAX,
    ensures
        final(run).wf_run(),
        final(crawler).wf(),
        final(crawler).store@ == old(crawler).store@,
        final(crawler).backoff@ == old(crawler).backoff@,
        final(run).urls == old(run).urls,
        final(run).batch == old(run).batch,
        old(run).phase == PhaseTag::SitemapWait ==> {
            &&& final(crawler).frontier@ == old(crawler).frontier@
            &&& final(run).counter == old(run).counter + if inserted {
                1int
            } else {
                0
            }
            &&& final(run).phase == PhaseTag::SitemapNext
            &&& final(run).idx == old(run).idx + 1
        },
        old(run).phase == PhaseTag::BfsArticleWait ==> {
            &&& marked_done(
                old(crawler).frontier@,
                final(crawler).frontier@,
                old(run).batch@[old(run).idx as int]@,
                now,
            )
            &&& final(run).counter == old(run).counter + if inserted {
                old(run).added as int
            } else {
                0
            }
            &&& final(run).phase == PhaseTag::BfsNext
            &&& final(run).idx == old(run).idx + 1
        },
{
    let n_urls: usize = run.urls.len();
    let n_batch: usize = run.batch.len();
    match run.phase {
        PhaseTag::SitemapWait => {
            if inserted {
                run.counter = run.counter + 1;
            }
            run.phase = PhaseTag::SitemapNext;
            run.idx = run.idx + 1;
        },
        _ => {
            if inserted {
                run.counter = run.counter + run.added;
            }
            let url = run.batch[run.idx].clone();
            crawler.frontier.mark_done(url.as_str(), now);
            run.phase = PhaseTag::BfsNext;
            run.idx = run.idx + 1;
        },
    }
}

} // verus!
