//! Durable breadth-first frontier of candidate pages: idempotent enqueue,
//! batched selection of due pending entries, and a pending-to-done
//! transition. Timestamps are seconds.

use vstd::prelude::*;

verus! {

/// Lifecycle of a queued page.
#[derive(Clone, Copy, Debug, PartialEq, Eq, Structural)]
pub enum QueueStatus {
    Pending,
    Done,
}

/// One queued candidate page. `parent_url` is the page it was discovered on,
/// kept as a diagnostic only. `retry_count` and `next_retry_at` are reserved
/// for backoff-aware re-crawls and are never written by this core.
pub struct QueueEntry {
    pub url: String,
    pub parent_url: Option<String>,
    pub status: QueueStatus,
    pub discovered_at: u64,
    pub fetched_at: Option<u64>,
    pub retry_count: u64,
    pub next_retry_at: Option<u64>,
}

/// The crawl frontier, at most one entry per URL.
pub struct LinkFrontier {
    entries: Vec<QueueEntry>,
}

impl View for LinkFrontier {
    type V = Seq<QueueEntry>;

    closed spec fn view(&self) -> Seq<QueueEntry> {
        self.entries@
    }
}

/// An entry for `url` exists in `rows`, whatever its status.
pub open spec fn frontier_has(rows: Seq<QueueEntry>, url: Seq<char>) -> bool {
    exists|i: int| 0 <= i < rows.len() && rows[i].url@ == url
}

/// `post` is `pre` with the entry for `url`, if any, stamped done at `now`,
/// its other fields kept; `pre` itself when no entry carries `url`.
pub open spec fn marked_done(
    pre: Seq<QueueEntry>,
    post: Seq<QueueEntry>,
    url: Seq<char>,
    now: u64,
) -> bool {
    if !frontier_has(pre, url) {
        post =~= pre
    } else {
        exists|i: int|
            {
                &&& 0 <= i < pre.len()
                &&& pre[i].url@ == url
                &&& post =~= pre.update(i, post[i])
                &&& post[i].url@ == pre[i].url@
                &&& post[i].parent_url == pre[i].parent_url
                &&& post[i].status is Done
                &&& post[i].discovered_at == pre[i].discovered_at
                &&& post[i].fetched_at == Some(now)
                &&& post[i].retry_count == pre[i].retry_count
                &&& post[i].next_retry_at == pre[i].next_retry_at
            }
    }
}

/// The entry is pending and its retry instant, if any, is due at `now`.
pub open spec fn entry_due(e: QueueEntry, now: u64) -> bool {
    e.status is Pending && match e.next_retry_at {
        None => true,
        Some(t) => t <= now,
    }
}

/// URLs of the due pending entries among the first `n` entries of `rows`,
/// in storage order.
pub open spec fn pending_prefix(rows: Seq<QueueEntry>, n: int, now: u64) -> Seq<Seq<char>>
    decreases n,
{
    if n <= 0 {
        Seq::empty()
    } else {
        let p = pending_prefix(rows, n - 1, now);
        if entry_due(rows[n - 1], now) {
            p.push(rows[n - 1].url@)
        } else {
            p
        }
    }
}

/// `s` truncated to at most `limit` elements.
pub open spec fn capped(s: Seq<Seq<char>>, limit: int) -> Seq<Seq<char>> {
    if limit <= s.len() {
        s.take(limit)
    } else {
        s
    }
}

proof fn lemma_pending_prefix_monotone(rows: Seq<QueueEntry>, i: int, j: int, now: u64)
    requires
        0 <= i <= j,
    ensures
        pending_prefix(rows, j, now).take(pending_prefix(rows, i, now).len() as int)
            =~= pending_prefix(rows, i, now),
        pending_prefix(rows, i, now).len() <= pending_prefix(rows, j, now).len(),
    decreases j - i,
{
    if i < j {
        lemma_pending_prefix_monotone(rows, i, j - 1, now);
    }
}

impl LinkFrontier {
    /// URLs are unique.
    pub open spec fn wf(self) -> bool {
        forall|i: int, j: int| 0 <= i < j < self@.len() ==> self@[i].url@ != self@[j].url@
    }

    /// An entry for this URL exists, whatever its status.
    pub open spec fn has_url(self, url: Seq<char>) -> bool {
        frontier_has(self@, url)
    }

    /// An empty frontier.
    pub fn new() -> (r: LinkFrontier)
        ensures
            r@ =~= Seq::<QueueEntry>::empty(),
            r.wf(),
    {
        LinkFrontier { entries: Vec::new() }
    }

    /// Number of queue entries.
    pub fn len(&self) -> (n: usize)
        ensures
            n == self@.len(),
    {
        self.entries.len()
    }

    /// The queue entry at `i`.
    pub fn entry_at(&self, i: usize) -> (r: &QueueEntry)
        requires
            i < self@.len(),
        ensures
            *r == self@[i as int],
    {
        &self.entries[i]
    }

    /// Insert-if-absent keyed by URL: reports whether this is a first
    /// sighting. A fresh entry starts pending, stamped `now`, with no fetch
    /// time, no retries and no retry instant.
    pub fn enqueue(&mut self, url: &str, parent: Option<&str>, now: u64) -> (inserted: bool)
        requires
            old(self).wf(),
        ensures
            final(self).wf(),
            inserted == !old(self).has_url(url@),
            !inserted ==> final(self)@ =~= old(self)@,
            inserted ==> final(self)@ =~= old(self)@.push(final(self)@.last()) && ({
                let e = final(self)@.last();
                e.url@ == url@ && e.parent_url.deep_view() == parent.deep_view()
                    && e.status is Pending && e.discovered_at == now && e.fetched_at is None
                    && e.retry_count == 0 && e.next_retry_at is None
            }),
            final(self).has_url(url@),
    {
        let n: usize = self.entries.len();
        let mut i: usize = 0;
        while i < n
            invariant
                old(self).wf(),
                self@ == old(self)@,
                n == self@.len(),
                i <= n,
                forall|k: int| 0 <= k < i ==> self@[k].url@ != url@,
            decreases n - i,
        {
            if crate::text::str_eq(self.entries[i].url.as_str(), url) {
                proof {
                    assert(self@[i as int].url@ == url@);
                }
                return false;
            }
            i = i + 1;
        }
        let e = QueueEntry {
            url: String::from_str(url),
            parent_url: crate::store::copy_opt_str(parent),
            status: QueueStatus::Pending,
            discovered_at: now,
            fetched_at: None,
            retry_count: 0,
            next_retry_at: None,
        };
        self.entries.push(e);
        proof {
            assert(self@ =~= old(self)@.push(self@.last()));
            assert(self@[self@.len() - 1].url@ == url@);
        }
        true
    }

    /// Up to `limit` URLs of due pending entries, in storage order.
    pub fn next_pending(&self, limit: usize, now: u64) -> (r: Vec<String>)
        ensures
            r.deep_view() =~= capped(pending_prefix(self@, self@.len() as int, now), limit as int),
    {
        let n: usize = self.entries.len();
        let mut out: Vec<String> = Vec::new();
        let mut i: usize = 0;
        while i < n && out.len() < limit
            invariant
                n == self@.len(),
                i <= n,
                out@.len() <= limit,
                out.deep_view() =~= capped(pending_prefix(self@, i as int, now), limit as int),
                out@.len() < limit ==> out@.len() == pending_prefix(self@, i as int, now).len(),
            decreases n - i,
        {
            let e = &self.entries[i];
            let due = match e.status {
                QueueStatus::Pending => match e.next_retry_at {
                    None => true,
                    Some(t) => t <= now,
                },
                QueueStatus::Done => false,
            };
            if due {
                out.push(e.url.clone());
                proof {
                    assert(out.deep_view() =~= capped(
                        pending_prefix(self@, i + 1, now),
                        limit as int,
                    ));
                }
            }
            i = i + 1;
        }
        proof {
            if i < n {
                lemma_pending_prefix_monotone(self@, i as int, self@.len() as int, now);
                assert(out.deep_view() =~= capped(
                    pending_prefix(self@, self@.len() as int, now),
                    limit as int,
                ));
            }
        }
        out
    }

    /// Stamp the entry for `url`, if any, done at `now`; absent URLs are a
    /// no-op. The entry's identity fields are untouched.
    pub fn mark_done(&mut self, url: &str, now: u64)
        requires
            old(self).wf(),
        ensures
            final(self).wf(),
            marked_done(old(self)@, final(self)@, url@, now),
    {
        let n: usize = self.entries.len();
        let mut i: usize = 0;
        while i < n
            invariant
                old(self).wf(),
                self@ == old(self)@,
                n == self@.len(),
                i <= n,
                forall|k: int| 0 <= k < i ==> self@[k].url@ != url@,
            decreases n - i,
        {
            if crate::text::str_eq(self.entries[i].url.as_str(), url) {
                self.entries[i].status = QueueStatus::Done;
                self.entries[i].fetched_at = Some(now);
                proof {
                    assert(old(self)@[i as int].url@ == url@);
                    assert(frontier_has(old(self)@, url@));
                    assert(self@ =~= old(self)@.update(i as int, self@[i as int]));
                    assert(marked_done(old(self)@, self@, url@, now));
                }
                return ;
            }
            i = i + 1;
        }
    }
}

/// A URL enqueued while absent is present afterwards, and exactly one entry
/// carries it; a second enqueue of the same URL reports not-inserted and
/// leaves the frontier unchanged, by the contract of `enqueue`.
pub proof fn lemma_enqueue_idempotent(pre: LinkFrontier, mid: LinkFrontier, url: Seq<char>)
    requires
        pre.wf(),
        mid.wf(),
        !pre.has_url(url),
        mid@ =~= pre@.push(mid@.last()),
        mid@.len() == pre@.len() + 1,
        mid@.last().url@ == url,
    ensures
        mid.has_url(url),
        forall|i: int, j: int|
            0 <= i < mid@.len() && 0 <= j < mid@.len() && mid@[i].url@ == url && mid@[j].url@
                == url ==> i == j,
{
    assert(mid@[mid@.len() - 1].url@ == url);
    assert forall|i: int, j: int|
        0 <= i < mid@.len() && 0 <= j < mid@.len() && mid@[i].url@ == url && mid@[j].url@ == url
            implies i == j by {
        if i < j {
            assert(mid@[i].url@ != mid@[j].url@);
        }
        if j < i {
            assert(mid@[j].url@ != mid@[i].url@);
        }
    }
}

} // verus!
