use crawler::crawl::Action;
use crawler::crawl::Crawler;
use crawler::crawl::CrawlError;
use crawler::crawl::FetchOutcome;
use crawler::crawl::PageFetch;
use crawler::crawl::begin_run;
use crawler::crawl::crawl_page;
use crawler::crawl::next_action;
use crawler::crawl::on_article_result;
use crawler::crawl::on_page_result;
use crawler::crawl::record_article;

const NOW: u64 = 1_700_000_000;

fn ok_article(body: &str) -> FetchOutcome {
    FetchOutcome::Success {
        content_type: Some(b"text/html; charset=utf-8".to_vec()),
        body: body.as_bytes().to_vec(),
    }
}

/// Drive a run to completion, answering every article fetch with a success
/// and every page fetch with `page`. Returns the article URLs fetched, in
/// order, and whether any page fetch was issued.
fn drive(crawler: &mut Crawler, run: &mut crawler::crawl::SiteRun, page: &PageFetch) -> (Vec<String>, bool) {
    let mut fetched = Vec::new();
    let mut any_page = false;
    for _ in 0..1000 {
        match next_action(run, crawler, NOW) {
            Action::FetchArticle { url } => {
                fetched.push(url.clone());
                let body = format!("<html><head><title>t {url}</title></head></html>");
                let inserted = record_article(crawler, &url, &ok_article(&body), NOW, NOW);
                on_article_result(run, crawler, inserted, NOW);
            }
            Action::FetchPage { url } => {
                any_page = true;
                let r = crawl_page(crawler, &url, page, NOW);
                match r {
                    Ok(added) => on_page_result(run, crawler, true, added, NOW),
                    Err(_) => on_page_result(run, crawler, false, 0, NOW),
                }
            }
            Action::Skip { .. } | Action::Poll => {}
            Action::Finished => return (fetched, any_page),
        }
    }
    panic!("run did not finish");
}

#[test]
fn sitemap_precedence() {
    let body = "<urlset><url><loc>https://x/a</loc></url><url><loc>https://x/b</loc></url></urlset>";
    let mut crawler = Crawler::new();
    let mut run = begin_run(&mut crawler, "https://x", Some(body), NOW);
    let (fetched, any_page) = drive(&mut crawler, &mut run, &PageFetch::Failed);
    assert_eq!(fetched, vec!["https://x/a".to_string(), "https://x/b".to_string()]);
    assert!(!any_page, "breadth-first mode must never start when the sitemap yields URLs");
    assert_eq!(crawler.frontier.len(), 0);
    assert_eq!(crawler.store.len(), 2);
}

#[test]
fn fallback_seeds_frontier_with_root() {
    let mut crawler = Crawler::new();
    let mut run = begin_run(&mut crawler, "https://x.com", None, NOW);
    assert_eq!(crawler.frontier.len(), 1);
    assert_eq!(crawler.frontier.entry_at(0).url, "https://x.com");
    // The first page fetch issued is for the site root.
    let first_page: Option<String>;
    loop {
        match next_action(&mut run, &mut crawler, NOW) {
            Action::Poll => continue,
            Action::FetchPage { url } => {
                first_page = Some(url);
                break;
            }
            other => panic!("expected a page fetch, got {:?}", action_name(&other)),
        }
    }
    assert_eq!(first_page.as_deref(), Some("https://x.com"));
}

#[test]
fn fallback_on_empty_sitemap() {
    let mut crawler = Crawler::new();
    let run = begin_run(&mut crawler, "https://x.com/", Some("<urlset></urlset>"), NOW);
    let _ = run;
    assert_eq!(crawler.frontier.len(), 1);
    assert_eq!(crawler.frontier.entry_at(0).url, "https://x.com/");
}

fn action_name(a: &Action) -> &'static str {
    match a {
        Action::FetchArticle { .. } => "FetchArticle",
        Action::FetchPage { .. } => "FetchPage",
        Action::Skip { .. } => "Skip",
        Action::Poll => "Poll",
        Action::Finished => "Finished",
    }
}

#[test]
fn domain_filter_keeps_same_domain_links_only() {
    let mut crawler = Crawler::new();
    let body = "<html><body>\
        <a href=\"https://x.com/q\">same</a>\
        <a href=\"https://y.com/r\">other</a>\
        </body></html>";
    let fetch = PageFetch::Received {
        code: 200,
        content_type: Some("text/html".to_string()),
        body: body.to_string(),
    };
    let added = crawl_page(&mut crawler, "https://x.com/p", &fetch, NOW).unwrap();
    assert_eq!(added, 1);
    let pending = crawler.frontier.next_pending(10, NOW);
    assert_eq!(pending, vec!["https://x.com/q".to_string()]);
}

#[test]
fn relative_links_resolve_against_page() {
    let mut crawler = Crawler::new();
    let body = "<a href=\"/q\">a</a><a href=\"r/s\">b</a>";
    let fetch = PageFetch::Received {
        code: 200,
        content_type: Some("text/html".to_string()),
        body: body.to_string(),
    };
    let added = crawl_page(&mut crawler, "https://x.com/dir/p", &fetch, NOW).unwrap();
    assert_eq!(added, 2);
    let pending = crawler.frontier.next_pending(10, NOW);
    assert_eq!(
        pending,
        vec!["https://x.com/q".to_string(), "https://x.com/dir/r/s".to_string()]
    );
}

#[test]
fn insertion_cap_stops_after_five() {
    let mut locs = String::from("<urlset>");
    for i in 0..10 {
        locs.push_str(&format!("<url><loc>https://x/{i}</loc></url>"));
    }
    locs.push_str("</urlset>");
    let mut crawler = Crawler::new();
    let mut run = begin_run(&mut crawler, "https://x", Some(&locs), NOW);
    let (fetched, _) = drive(&mut crawler, &mut run, &PageFetch::Failed);
    assert_eq!(fetched.len(), 5, "the sixth through tenth URLs must never be fetched");
    assert_eq!(
        fetched,
        (0..5).map(|i| format!("https://x/{i}")).collect::<Vec<_>>()
    );
    assert_eq!(crawler.store.len(), 5);
}

#[test]
fn duplicates_do_not_count_toward_cap() {
    let mut locs = String::from("<urlset>");
    for _ in 0..4 {
        locs.push_str("<url><loc>https://x/same</loc></url>");
    }
    locs.push_str("<url><loc>https://x/other</loc></url></urlset>");
    let mut crawler = Crawler::new();
    let mut run = begin_run(&mut crawler, "https://x", Some(&locs), NOW);
    let (fetched, _) = drive(&mut crawler, &mut run, &PageFetch::Failed);
    assert_eq!(fetched.len(), 5);
    assert_eq!(crawler.store.len(), 2);
}

#[test]
fn not_found_registers_week_backoff() {
    let mut crawler = Crawler::new();
    let inserted = record_article(
        &mut crawler,
        "https://x.com/gone",
        &FetchOutcome::Status { code: 404 },
        NOW,
        NOW,
    );
    assert!(!inserted);
    assert_eq!(crawler.store.len(), 0);
    assert!(crawler.backoff.should_skip("https://x.com/gone", NOW));
    assert!(crawler.backoff.should_skip("https://x.com/gone", NOW + 7 * 86400 - 1));
    assert!(!crawler.backoff.should_skip("https://x.com/gone", NOW + 7 * 86400));
}

#[test]
fn other_statuses_register_no_backoff() {
    let mut crawler = Crawler::new();
    let inserted = record_article(
        &mut crawler,
        "https://x.com/err",
        &FetchOutcome::Status { code: 500 },
        NOW,
        NOW,
    );
    assert!(!inserted);
    assert!(!crawler.backoff.should_skip("https://x.com/err", NOW));
    let transported = record_article(
        &mut crawler,
        "https://x.com/err",
        &FetchOutcome::Transport,
        NOW,
        NOW,
    );
    assert!(!transported);
    assert!(!crawler.backoff.should_skip("https://x.com/err", NOW));
}

#[test]
fn success_extracts_title_and_description() {
    let mut crawler = Crawler::new();
    let body = "<html><head><title>Hello</title>\
        <meta name=\"description\" content=\"A page\">\
        </head><body></body></html>";
    let inserted = record_article(&mut crawler, "https://x.com/a", &ok_article(body), 42, NOW);
    assert!(inserted);
    let row = crawler.store.row_at(0);
    assert_eq!(row.content.title, "Hello");
    assert_eq!(row.content.description.as_deref(), Some("A page"));
    assert_eq!(row.content.content_type, "blog");
    assert_eq!(row.content.url, "https://x.com/a");
    assert_eq!(row.content.thumbnail, None);
    assert_eq!(row.content.published_at, None);
    assert_eq!(row.fetched_at, 42);
}

#[test]
fn missing_title_gets_sentinel() {
    let mut crawler = Crawler::new();
    let inserted = record_article(
        &mut crawler,
        "https://x.com/bare",
        &ok_article("<html><body>nothing here</body></html>"),
        NOW,
        NOW,
    );
    assert!(inserted);
    assert_eq!(crawler.store.row_at(0).content.title, "No Title");
    assert_eq!(crawler.store.row_at(0).content.description, None);
}

#[test]
fn page_errors_leave_frontier_alone() {
    let mut crawler = Crawler::new();
    let status = PageFetch::Received {
        code: 404,
        content_type: Some("text/html".to_string()),
        body: String::new(),
    };
    match crawl_page(&mut crawler, "https://x.com/p", &status, NOW) {
        Err(CrawlError::HttpStatus { status, url }) => {
            assert_eq!(status, 404);
            assert_eq!(url, "https://x.com/p");
        }
        other => panic!("expected a status error, got {:?}", other.is_ok()),
    }
    match crawl_page(&mut crawler, "https://x.com/p", &PageFetch::Failed, NOW) {
        Err(CrawlError::Transport) => {}
        other => panic!("expected a transport error, got {:?}", other.is_ok()),
    }
    assert_eq!(crawler.frontier.len(), 0);
}

#[test]
fn non_html_and_undeclared_types_yield_no_links() {
    let mut crawler = Crawler::new();
    let body = "<a href=\"https://x.com/q\">a</a>".to_string();
    let pdf = PageFetch::Received {
        code: 200,
        content_type: Some("application/pdf".to_string()),
        body: body.clone(),
    };
    assert_eq!(crawl_page(&mut crawler, "https://x.com/p", &pdf, NOW).unwrap(), 0);
    // No content type and a URL that does not look like an article.
    let bare = PageFetch::Received { code: 200, content_type: None, body: body.clone() };
    assert_eq!(crawl_page(&mut crawler, "https://x.com/p", &bare, NOW).unwrap(), 0);
    assert_eq!(crawler.frontier.len(), 0);
    // No content type but an article-like URL: links are extracted.
    let arty = PageFetch::Received { code: 200, content_type: None, body };
    assert_eq!(crawl_page(&mut crawler, "https://x.com/2024/p.html", &arty, NOW).unwrap(), 1);
}

#[test]
fn skipped_urls_are_not_fetched() {
    let body = "<urlset><url><loc>https://x/a</loc></url><url><loc>https://x/b</loc></url></urlset>";
    let mut crawler = Crawler::new();
    crawler.backoff.register_error("https://x/a", "404", 7, NOW);
    let mut run = begin_run(&mut crawler, "https://x", Some(body), NOW);
    let (fetched, _) = drive(&mut crawler, &mut run, &PageFetch::Failed);
    assert_eq!(fetched, vec!["https://x/b".to_string()]);
}
