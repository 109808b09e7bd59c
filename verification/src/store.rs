//! Deduplicated, append-only store of discovered content, keyed by canonical
//! URL. Inserts are idempotent; retrieval is ordered by publication time,
//! newest first, records without one last.

use vstd::prelude::*;

verus! {

/// One discovered piece of content. `published_at`, like every timestamp
/// here, is seconds.
pub struct Content {
    pub id: String,
    pub content_type: String,
    pub title: String,
    pub url: String,
    pub description: Option<String>,
    pub thumbnail: Option<String>,
    pub published_at: Option<u64>,
}

/// A stored row: the content plus the time it was acquired, set once.
pub struct StoredRow {
    pub content: Content,
    pub fetched_at: u64,
}

/// Append-only content store, at most one row per id.
pub struct ContentStore {
    rows: Vec<StoredRow>,
}

impl View for ContentStore {
    type V = Seq<StoredRow>;

    closed spec fn view(&self) -> Seq<StoredRow> {
        self.rows@
    }
}

/// `a` may precede `b` in export order: published time descending, rows
/// without one last.
pub open spec fn before_eq(a: Content, b: Content) -> bool {
    match (a.published_at, b.published_at) {
        (Some(x), Some(y)) => x >= y,
        (Some(_), None) => true,
        (None, Some(_)) => false,
        (None, None) => true,
    }
}

/// `row` carries exactly the given field values.
pub open spec fn row_matches(
    row: StoredRow,
    id: Seq<char>,
    content_type: Seq<char>,
    title: Seq<char>,
    url: Seq<char>,
    description: Option<Seq<char>>,
    thumbnail: Option<Seq<char>>,
    published_at: Option<u64>,
    fetched_at: u64,
) -> bool {
    &&& row.content.id@ == id
    &&& row.content.content_type@ == content_type
    &&& row.content.title@ == title
    &&& row.content.url@ == url
    &&& row.content.description.deep_view() == description
    &&& row.content.thumbnail.deep_view() == thumbnail
    &&& row.content.published_at == published_at
    &&& row.fetched_at == fetched_at
}

impl ContentStore {
    /// Ids are unique.
    pub open spec fn wf(self) -> bool {
        forall|i: int, j: int|
            0 <= i < j < self@.len() ==> self@[i].content.id@ != self@[j].content.id@
    }

    /// A row with this id exists.
    pub open spec fn has_id(self, id: Seq<char>) -> bool {
        exists|i: int| 0 <= i < self@.len() && self@[i].content.id@ == id
    }

    /// An empty store.
    pub fn new() -> (r: ContentStore)
        ensures
            r@ =~= Seq::<StoredRow>::empty(),
            r.wf(),
    {
        ContentStore { rows: Vec::new() }
    }

    /// Number of stored rows.
    pub fn len(&self) -> (n: usize)
        ensures
            n == self@.len(),
    {
        self.rows.len()
    }

    /// The stored row at `i`.
    pub fn row_at(&self, i: usize) -> (r: &StoredRow)
        requires
            i < self@.len(),
        ensures
            *r == self@[i as int],
    {
        &self.rows[i]
    }

    /// Insert-if-absent keyed by `id`: reports whether a new row was added.
    /// A second insert with the same id changes nothing.
    pub fn insert(
        &mut self,
        id: &str,
        content_type: &str,
        title: &str,
        url: &str,
        description: Option<&str>,
        thumbnail: Option<&str>,
        published_at: Option<u64>,
        fetched_at: u64,
    ) -> (inserted: bool)
        requires
            old(self).wf(),
        ensures
            final(self).wf(),
            inserted == !old(self).has_id(id@),
            !inserted ==> final(self)@ =~= old(self)@,
            inserted ==> final(self)@ =~= old(self)@.push(final(self)@.last())
                && row_matches(
                final(self)@.last(),
                id@,
                content_type@,
                title@,
                url@,
                description.deep_view(),
                thumbnail.deep_view(),
                published_at,
                fetched_at,
            ),
            final(self).has_id(id@),
    {
        let n: usize = self.rows.len();
        let mut i: usize = 0;
        while i < n
            invariant
                old(self).wf(),
                self@ == old(self)@,
                n == self@.len(),
                i <= n,
                forall|k: int| 0 <= k < i ==> self@[k].content.id@ != id@,
            decreases n - i,
        {
            if crate::text::str_eq(self.rows[i].content.id.as_str(), id) {
                proof {
                    assert(self@[i as int].content.id@ == id@);
                }
                return false;
            }
            i = i + 1;
        }
        let row = StoredRow {
            content: Content {
                id: String::from_str(id),
                content_type: String::from_str(content_type),
                title: String::from_str(title),
                url: String::from_str(url),
                description: copy_opt_str(description),
                thumbnail: copy_opt_str(thumbnail),
                published_at: published_at,
            },
            fetched_at,
        };
        self.rows.push(row);
        proof {
            assert(self@ =~= old(self)@.push(self@.last()));
            assert(self@[self@.len() - 1].content.id@ == id@);
        }
        true
    }

    /// All stored content, ordered for export: publication time descending,
    /// rows without one last. The result is a permutation of the stored rows.
    pub fn fetch_all(&self) -> (r: Vec<Content>)
        ensures
            r@.to_multiset() == self@.map_values(|row: StoredRow| row.content).to_multiset(),
            forall|i: int, j: int| 0 <= i < j < r@.len() ==> before_eq(r@[i], r@[j]),
    {
        let n: usize = self.rows.len();
        let mut contents: Vec<Content> = Vec::new();
        let mut i: usize = 0;
        while i < n
            invariant
                n == self@.len(),
                i <= n,
                contents@ =~= self@.map_values(|row: StoredRow| row.content).take(i as int),
            decreases n - i,
        {
            contents.push(clone_content(&self.rows[i].content));
            proof {
                assert(contents@ =~= self@.map_values(|row: StoredRow| row.content).take(
                    i + 1,
                ));
            }
            i = i + 1;
        }
        proof {
            assert(contents@ =~= self@.map_values(|row: StoredRow| row.content));
        }
        sort_contents(contents)
    }
}

/// Copy an optional borrowed string into an owned one.
pub(crate) fn copy_opt_str(o: Option<&str>) -> (r: Option<String>)
    ensures
        r.deep_view() == o.deep_view(),
{
    match o {
        Some(s) => Some(String::from_str(s)),
        None => None,
    }
}

/// Copy an optional owned string.
pub(crate) fn clone_opt_string(o: &Option<String>) -> (r: Option<String>)
    ensures
        r == *o,
{
    match o {
        Some(s) => Some(s.clone()),
        None => None,
    }
}

/// Field-for-field copy of a content record.
fn clone_content(c: &Content) -> (r: Content)
    ensures
        r == *c,
{
    Content {
        id: c.id.clone(),
        content_type: c.content_type.clone(),
        title: c.title.clone(),
        url: c.url.clone(),
        description: clone_opt_string(&c.description),
        thumbnail: clone_opt_string(&c.thumbnail),
        published_at: c.published_at,
    }
}

/// Whether `a` may precede `b` in export order.
fn before_eq_exec(a: &Content, b: &Content) -> (r: bool)
    ensures
        r == before_eq(*a, *b),
{
    match (a.published_at, b.published_at) {
        (Some(x), Some(y)) => x >= y,
        (Some(_), None) => true,
        (None, Some(_)) => false,
        (None, None) => true,
    }
}

/// Selection sort into export order; the result is a permutation of `v`.
fn sort_contents(v: Vec<Content>) -> (r: Vec<Content>)
    ensures
        r@.to_multiset() == v@.to_multiset(),
        forall|i: int, j: int| 0 <= i < j < r@.len() ==> before_eq(r@[i], r@[j]),
{
    broadcast use vstd::seq_lib::group_to_multiset_ensures;
    broadcast use vstd::multiset::group_multiset_axioms;

    let mut rem = v;
    let mut out: Vec<Content> = Vec::new();
    while rem.len() > 0
        invariant
            out@.to_multiset().add(rem@.to_multiset()) =~= v@.to_multiset(),
            forall|i: int, j: int| 0 <= i < j < out@.len() ==> before_eq(out@[i], out@[j]),
            forall|i: int, j: int|
                0 <= i < out@.len() && 0 <= j < rem@.len() ==> before_eq(out@[i], rem@[j]),
        decreases rem@.len(),
    {
        let mut best: usize = 0;
        let mut k: usize = 1;
        while k < rem.len()
            invariant
                rem@.len() >= 1,
                best < k <= rem@.len(),
                forall|t: int| 0 <= t < k ==> before_eq(rem@[best as int], rem@[t]),
            decreases rem@.len() - k,
        {
            if !before_eq_exec(&rem[best], &rem[k]) {
                proof {
                    assert(before_eq(rem@[k as int], rem@[best as int]));
                    assert forall|t: int| 0 <= t < k implies before_eq(
                        rem@[k as int],
                        rem@[t],
                    ) by {
                        assert(before_eq(rem@[best as int], rem@[t]));
                    }
                }
                best = k;
            }
            k = k + 1;
        }
        let ghost old_out = out@;
        let ghost old_rem = rem@;
        let x = rem.remove(best);
        out.push(x);
        proof {
            old_rem.to_multiset_ensures();
            old_out.to_multiset_ensures();
            assert(old_rem.to_multiset().count(x) >= 1) by {
                assert(old_rem.contains(x)) by {
                    assert(old_rem[best as int] == x);
                }
            }
            assert(out@.to_multiset().add(rem@.to_multiset()) =~= v@.to_multiset());
            assert forall|i: int, j: int|
                0 <= i < out@.len() && 0 <= j < rem@.len() implies before_eq(
                out@[i],
                rem@[j],
            ) by {
                assert(rem@[j] == if j < best { old_rem[j] } else { old_rem[j + 1] });
                if i < old_out.len() {
                    assert(out@[i] == old_out[i]);
                } else {
                    assert(out@[i] == x);
                }
            }
        }
    }
    out
}

/// After a fresh id is inserted, exactly one row carries it; a further insert
/// with the same id reports not-inserted and leaves the store unchanged, by
/// the contract of `insert`.
pub proof fn lemma_insert_idempotent(pre: ContentStore, mid: ContentStore, id: Seq<char>)
    requires
        pre.wf(),
        mid.wf(),
        !pre.has_id(id),
        mid@ =~= pre@.push(mid@.last()),
        mid@.len() == pre@.len() + 1,
        mid@.last().content.id@ == id,
    ensures
        mid.has_id(id),
        forall|i: int, j: int|
            0 <= i < mid@.len() && 0 <= j < mid@.len() && mid@[i].content.id@ == id
                && mid@[j].content.id@ == id ==> i == j,
{
    assert(mid@[mid@.len() - 1].content.id@ == id);
    assert forall|i: int, j: int|
        0 <= i < mid@.len() && 0 <= j < mid@.len() && mid@[i].content.id@ == id
            && mid@[j].content.id@ == id implies i == j by {
        if i < j {
            assert(mid@[i].content.id@ != mid@[j].content.id@);
        }
        if j < i {
            assert(mid@[j].content.id@ != mid@[i].content.id@);
        }
    }
}

} // verus!
