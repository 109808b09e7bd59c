use crawler::backoff::ErrorBackoff;
use crawler::frontier::LinkFrontier;
use crawler::frontier::QueueStatus;
use crawler::store::ContentStore;

const DAY: u64 = 86400;

#[test]
fn insert_is_idempotent() {
    let mut store = ContentStore::new();
    let first = store.insert(
        "https://x.com/a",
        "blog",
        "A title",
        "https://x.com/a",
        Some("desc"),
        None,
        None,
        100,
    );
    let second = store.insert(
        "https://x.com/a",
        "blog",
        "Another title",
        "https://x.com/a",
        None,
        None,
        None,
        200,
    );
    assert!(first);
    assert!(!second);
    assert_eq!(store.len(), 1);
    let row = store.row_at(0);
    assert_eq!(row.content.title, "A title");
    assert_eq!(row.content.description.as_deref(), Some("desc"));
    assert_eq!(row.fetched_at, 100);
}

#[test]
fn fetch_all_orders_newest_first_nulls_last() {
    let mut store = ContentStore::new();
    store.insert("a", "blog", "ta", "a", None, None, Some(10), 1);
    store.insert("b", "blog", "tb", "b", None, None, None, 2);
    store.insert("c", "blog", "tc", "c", None, None, Some(20), 3);
    let all = store.fetch_all();
    assert_eq!(all.len(), 3);
    assert_eq!(all[0].id, "c");
    assert_eq!(all[1].id, "a");
    assert_eq!(all[2].id, "b");
}

#[test]
fn enqueue_is_idempotent() {
    let mut frontier = LinkFrontier::new();
    let first = frontier.enqueue("https://x.com/p", None, 50);
    let second = frontier.enqueue("https://x.com/p", Some("https://x.com"), 60);
    assert!(first);
    assert!(!second);
    assert_eq!(frontier.len(), 1);
    let entry = frontier.entry_at(0);
    assert!(entry.parent_url.is_none());
    assert_eq!(entry.discovered_at, 50);
    assert_eq!(entry.status, QueueStatus::Pending);
}

#[test]
fn backoff_window_opens_and_lapses() {
    let mut backoff = ErrorBackoff::new();
    let now = 1000;
    backoff.register_error("u", "404", 7, now);
    assert!(backoff.should_skip("u", now));
    assert!(backoff.should_skip("u", now + 7 * DAY - 1));
    assert!(!backoff.should_skip("u", now + 7 * DAY));
    assert!(!backoff.should_skip("v", now));
}

#[test]
fn backoff_reregistration_overwrites() {
    let mut backoff = ErrorBackoff::new();
    backoff.register_error("u", "404", 1, 100);
    assert!(!backoff.should_skip("u", 100 + DAY));
    backoff.register_error("u", "404", 7, 100 + DAY);
    assert!(backoff.should_skip("u", 100 + 2 * DAY));
    assert_eq!(backoff.len(), 1);
    assert_eq!(backoff.record_at(0).error_message, "404");
}

#[test]
fn mark_done_removes_from_pending() {
    let mut frontier = LinkFrontier::new();
    frontier.enqueue("https://x.com/p", None, 1);
    frontier.enqueue("https://x.com/q", None, 1);
    frontier.mark_done("https://x.com/p", 9);
    let pending = frontier.next_pending(10, 9);
    assert_eq!(pending, vec!["https://x.com/q".to_string()]);
    let entry = frontier.entry_at(0);
    assert_eq!(entry.status, QueueStatus::Done);
    assert_eq!(entry.fetched_at, Some(9));
}

#[test]
fn mark_done_on_absent_url_is_noop() {
    let mut frontier = LinkFrontier::new();
    frontier.enqueue("https://x.com/p", None, 1);
    frontier.mark_done("https://x.com/other", 9);
    assert_eq!(frontier.next_pending(10, 9).len(), 1);
}

#[test]
fn next_pending_respects_limit_and_order() {
    let mut frontier = LinkFrontier::new();
    frontier.enqueue("a", None, 1);
    frontier.enqueue("b", None, 1);
    frontier.enqueue("c", None, 1);
    let two = frontier.next_pending(2, 5);
    assert_eq!(two, vec!["a".to_string(), "b".to_string()]);
    let all = frontier.next_pending(10, 5);
    assert_eq!(all.len(), 3);
}
