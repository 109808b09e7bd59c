//! Per-key error backoff: a record of the most recent failure and a
//! retry-not-before timestamp, gating re-attempts. Timestamps are seconds.

use vstd::prelude::*;

verus! {

/// Seconds in one day.
pub const SECONDS_PER_DAY: u64 = 86400;

/// One failure record. `retry_after` is the instant before which re-attempts
/// for this key are suppressed.
pub struct ErrorRecord {
    pub site: String,
    pub last_error_at: u64,
    pub retry_after: u64,
    pub error_message: String,
}

/// Registry of failure records, at most one per key; a new failure for a key
/// overwrites its record.
pub struct ErrorBackoff {
    records: Vec<ErrorRecord>,
}

impl View for ErrorBackoff {
    type V = Seq<ErrorRecord>;

    closed spec fn view(&self) -> Seq<ErrorRecord> {
        self.records@
    }
}

/// `post` is `pre` with the record for `site` overwritten (or added) to carry
/// `last`, `retry` and `message`, all other records kept.
pub open spec fn upserted(
    pre: Seq<ErrorRecord>,
    post: Seq<ErrorRecord>,
    site: Seq<char>,
    message: Seq<char>,
    last: u64,
    retry: int,
) -> bool {
    &&& exists|i: int|
        0 <= i < post.len() && post[i].site@ == site && post[i].last_error_at == last
            && post[i].retry_after == retry && post[i].error_message@ == message
    &&& forall|j: int| 0 <= j < post.len() && post[j].site@ != site ==> pre.contains(post[j])
    &&& forall|j: int| 0 <= j < pre.len() && pre[j].site@ != site ==> post.contains(pre[j])
}

impl ErrorBackoff {
    /// Keys are unique.
    pub open spec fn wf(self) -> bool {
        forall|i: int, j: int|
            0 <= i < j < self@.len() ==> self@[i].site@ != self@[j].site@
    }

    /// A record for `site` exists whose retry window is still open at `now`.
    pub open spec fn skip_spec(self, site: Seq<char>, now: u64) -> bool {
        exists|i: int|
            0 <= i < self@.len() && self@[i].site@ == site && now < self@[i].retry_after
    }

    /// An empty registry: nothing is ever skipped.
    pub fn new() -> (r: ErrorBackoff)
        ensures
            r@ =~= Seq::<ErrorRecord>::empty(),
            r.wf(),
    {
        ErrorBackoff { records: Vec::new() }
    }

    /// Number of failure records.
    pub fn len(&self) -> (n: usize)
        ensures
            n == self@.len(),
    {
        self.records.len()
    }

    /// The failure record at `i`.
    pub fn record_at(&self, i: usize) -> (r: &ErrorRecord)
        requires
            i < self@.len(),
        ensures
            *r == self@[i as int],
    {
        &self.records[i]
    }

    /// True iff a failure is on record for `site` and its retry window is
    /// still in the future at `now`. A lapsed record is ignored, not removed.
    pub fn should_skip(&self, site: &str, now: u64) -> (r: bool)
        requires
            self.wf(),
        ensures
            r == self.skip_spec(site@, now),
    {
        let n: usize = self.records.len();
        let mut i: usize = 0;
        while i < n
            invariant
                self.wf(),
                n == self@.len(),
                i <= n,
                forall|k: int| 0 <= k < i ==> self@[k].site@ != site@,
            decreases n - i,
        {
            if crate::text::str_eq(self.records[i].site.as_str(), site) {
                return now < self.records[i].retry_after;
            }
            i = i + 1;
        }
        false
    }

    /// Record a failure for `site`: the retry window closes `retry_days` days
    /// after `now`. A prior record for the same key is overwritten.
    pub fn register_error(&mut self, site: &str, message: &str, retry_days: u64, now: u64)
        requires
            old(self).wf(),
            now + retry_days * SECONDS_PER_DAY <= u64::MAX,
        ensures
            final(self).wf(),
            upserted(
                old(self)@,
                final(self)@,
                site@,
                message@,
                now,
                now + retry_days * SECONDS_PER_DAY,
            ),
    {
        let retry: u64 = now + retry_days * SECONDS_PER_DAY;
        let rec = ErrorRecord {
            site: String::from_str(site),
            last_error_at: now,
            retry_after: retry,
            error_message: String::from_str(message),
        };
        let n: usize = self.records.len();
        let mut i: usize = 0;
        while i < n
            invariant
                old(self).wf(),
                self@ == old(self)@,
                n == self@.len(),
                i <= n,
                rec.site@ == site@,
                rec.last_error_at == now,
                rec.retry_after == retry,
                rec.error_message@ == message@,
                retry == now + retry_days * SECONDS_PER_DAY,
                forall|k: int| 0 <= k < i ==> self@[k].site@ != site@,
            decreases n - i,
        {
            if crate::text::str_eq(self.records[i].site.as_str(), site) {
                self.records[i] = rec;
                proof {
                    assert(self@ =~= old(self)@.update(i as int, rec));
                    assert(self@[i as int] == rec);
                    assert(retry == now + retry_days * SECONDS_PER_DAY);
                    assert(exists|k: int|
                        0 <= k < self@.len() && self@[k].site@ == site@
                            && self@[k].last_error_at == now && self@[k].retry_after == retry
                            && self@[k].error_message@ == message@) by {
                        assert(self@[i as int].site@ == site@ && self@[i as int].last_error_at
                            == now && self@[i as int].retry_after == retry
                            && self@[i as int].error_message@ == message@);
                    }
                    assert forall|j: int|
                        0 <= j < self@.len() && self@[j].site@ != site@ implies old(
                        self,
                    )@.contains(self@[j]) by {
                        assert(j != i);
                        assert(self@[j] == old(self)@[j]);
                    }
                    assert forall|j: int|
                        0 <= j < old(self)@.len() && old(self)@[j].site@ != site@ implies self@
                        .contains(old(self)@[j]) by {
                        assert(j != i);
                        assert(self@[j] == old(self)@[j]);
                    }
                }
                return ;
            }
            i = i + 1;
        }
        self.records.push(rec);
        proof {
            assert(self@ =~= old(self)@.push(rec));
            let gi = self@.len() - 1;
            assert(self@[gi] == rec);
            assert(retry == now + retry_days * SECONDS_PER_DAY);
            assert(exists|k: int|
                0 <= k < self@.len() && self@[k].site@ == site@ && self@[k].last_error_at == now
                    && self@[k].retry_after == retry && self@[k].error_message@ == message@) by {
                assert(self@[gi].site@ == site@ && self@[gi].last_error_at == now
                    && self@[gi].retry_after == retry && self@[gi].error_message@ == message@);
            }
            assert forall|j: int|
                0 <= j < self@.len() && self@[j].site@ != site@ implies old(self)@.contains(
                self@[j],
            ) by {
                assert(j != self@.len() - 1);
                assert(self@[j] == old(self)@[j]);
            }
            assert forall|j: int|
                0 <= j < old(self)@.len() && old(self)@[j].site@ != site@ implies self@.contains(
                old(self)@[j],
            ) by {
                assert(self@[j] == old(self)@[j]);
            }
        }
    }
}

/// After a failure is registered for a key with a window of `retry` (an
/// absolute instant), that key is skipped exactly at the instants before
/// `retry`, and no other key's skip decision changes.
pub proof fn lemma_backoff_window(
    pre: ErrorBackoff,
    post: ErrorBackoff,
    site: Seq<char>,
    message: Seq<char>,
    last: u64,
    retry: int,
    t: u64,
)
    requires
        pre.wf(),
        post.wf(),
        upserted(pre@, post@, site, message, last, retry),
    ensures
        post.skip_spec(site, t) == (t < retry),
        forall|other: Seq<char>|
            other != site ==> (post.skip_spec(other, t) == pre.skip_spec(other, t)),
{
    let i = choose|i: int|
        0 <= i < post@.len() && post@[i].site@ == site && post@[i].last_error_at == last
            && post@[i].retry_after == retry && post@[i].error_message@ == message;
    if t < retry {
        assert(post.skip_spec(site, t));
    }
    if post.skip_spec(site, t) {
        let j = choose|j: int|
            0 <= j < post@.len() && post@[j].site@ == site && t < post@[j].retry_after;
        assert(j == i);
    }
    assert forall|other: Seq<char>| other != site implies (post.skip_spec(other, t)
        == pre.skip_spec(other, t)) by {
        if post.skip_spec(other, t) {
            let j = choose|j: int|
                0 <= j < post@.len() && post@[j].site@ == other && t < post@[j].retry_after;
            assert(pre@.contains(post@[j]));
            let k = choose|k: int| 0 <= k < pre@.len() && pre@[k] == post@[j];
            assert(pre.skip_spec(other, t));
        }
        if pre.skip_spec(other, t) {
            let j = choose|j: int|
                0 <= j < pre@.len() && pre@[j].site@ == other && t < pre@[j].retry_after;
            assert(post@.contains(pre@[j]));
            let k = choose|k: int| 0 <= k < post@.len() && post@[k] == pre@[j];
            assert(post.skip_spec(other, t));
        }
    }
}

} // verus!
