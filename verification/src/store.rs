//! The paper store: a verified model of the persisted `papers` table.
//!
//! The store is the single source of truth for persisted paper records.
//! Rows are only ever appended: a record is created by `insert`, never
//! updated or deleted. The store assigns identifiers itself — consecutive,
//! starting at 1, never reused — and stamps each row with the creation
//! time its caller read from the clock. Because the clock is monotone,
//! rows stand in the store in non-decreasing creation order, and a listing
//! (newest first) is simply the rows reversed.
//!
//! Timestamps are kept as text in a fixed-width form whose lexicographic
//! order agrees with time order, as the underlying relational store
//! renders them; the model therefore compares them lexicographically.

use vstd::prelude::*;

verus! {

/// Lexicographic order on character sequences: `a` at or before `b`.
pub open spec fn lex_le(a: Seq<char>, b: Seq<char>) -> bool
    decreases a.len(),
{
    if a.len() == 0 {
        true
    } else if b.len() == 0 {
        false
    } else if a[0] == b[0] {
        lex_le(a.skip(1), b.skip(1))
    } else {
        (a[0] as u32) < (b[0] as u32)
    }
}

/// `lex_le` is reflexive.
pub proof fn lemma_lex_le_refl(a: Seq<char>)
    ensures
        lex_le(a, a),
    decreases a.len(),
{
    if a.len() > 0 {
        lemma_lex_le_refl(a.skip(1));
    }
}

/// One persisted paper record: the projection read back by listings.
pub struct Paper {
    /// Store-assigned identifier: unique, immutable, never reused.
    pub id: i64,
    /// Title derived from the stored file's base name; never blank.
    pub title: String,
    /// Absolute path of the stored copy; never mutated after creation.
    pub pdf_path: String,
    /// Creation time stamped by the store at insert.
    pub created_at: Option<String>,
}

/// The papers table. Rows sit in insertion order; identifiers are the
/// row's position plus one, and creation stamps never decrease.
pub struct PaperStore {
    rows: Vec<Paper>,
}

impl PaperStore {
    /// The rows in insertion order (oldest first).
    pub closed spec fn records(self) -> Seq<Paper> {
        self.rows@
    }

    /// Well-formedness: identifiers are consecutive from 1, every row is
    /// stamped, and stamps never decrease along insertion order.
    pub open spec fn wf(self) -> bool {
        &&& forall|i: int|
            0 <= i < self.records().len() ==> (#[trigger] self.records()[i]).id == i + 1
        &&& forall|i: int|
            0 <= i < self.records().len() ==> (#[trigger] self.records()[i]).created_at is Some
        &&& forall|i: int, j: int|
            0 <= i <= j < self.records().len() ==> lex_le(
                self.records()[i].created_at->Some_0@,
                self.records()[j].created_at->Some_0@,
            )
    }

    /// Opens an empty store, as first use of a fresh database file leaves
    /// the `papers` table.
    pub fn new() -> (s: PaperStore)
        ensures
            s.wf(),
            s.records().len() == 0,
    {
        PaperStore { rows: Vec::new() }
    }

    /// Appends one row stamped `now` and returns its fresh identifier.
    /// `now` models the store's clock read at insert time; the clock is
    /// monotone, so it is at or after every stamp already in the store.
    pub fn insert(&mut self, title: String, pdf_path: String, now: String) -> (id: i64)
        requires
            old(self).wf(),
            old(self).records().len() < i64::MAX,
            forall|i: int|
                0 <= i < old(self).records().len() ==> lex_le(
                    (#[trigger] old(self).records()[i]).created_at->Some_0@,
                    now@,
                ),
        ensures
            final(self).wf(),
            id == old(self).records().len() + 1,
            final(self).records() == old(self).records().push(
                (Paper { id, title, pdf_path, created_at: Some(now) }),
            ),
    {
        let id = self.rows.len() as i64 + 1;
        let row = Paper { id, title, pdf_path, created_at: Some(now) };
        self.rows.push(row);
        proof {
            lemma_lex_le_refl(now@);
        }
        id
    }

    /// Every row's projection, newest first: the rows reversed, which by
    /// well-formedness is creation order descending.
    pub fn list_all(&self) -> (r: Vec<Paper>)
        ensures
            r@ == self.records().reverse(),
    {
        let n = self.rows.len();
        let mut r: Vec<Paper> = Vec::new();
        let mut i: usize = 0;
        while i < n
            invariant
                i <= n,
                n == self.records().len(),
                r@.len() == i,
                forall|k: int| 0 <= k < i ==> r@[k] == self.records()[n - 1 - k],
            decreases n - i,
        {
            let src = &self.rows[n - 1 - i];
            let created_at = match &src.created_at {
                Some(ts) => Some(ts.clone()),
                None => None,
            };
            let row = Paper {
                id: src.id,
                title: src.title.clone(),
                pdf_path: src.pdf_path.clone(),
                created_at,
            };
            r.push(row);
            i = i + 1;
        }
        proof {
            assert(r@ =~= self.records().reverse());
        }
        r
    }

    /// The total number of rows.
    pub fn count(&self) -> (n: usize)
        ensures
            n == self.records().len(),
    {
        self.rows.len()
    }
}

/// Listing a well-formed store returns exactly one record per row,
/// ordered by creation time descending: in the listing, every record is
/// stamped at or after each record that follows it.
pub proof fn lemma_listing_newest_first(s: PaperStore)
    requires
        s.wf(),
    ensures
        s.records().reverse().len() == s.records().len(),
        forall|i: int, j: int|
            0 <= i <= j < s.records().len() ==> lex_le(
                s.records().reverse()[j].created_at->Some_0@,
                s.records().reverse()[i].created_at->Some_0@,
            ),
{
    let r = s.records().reverse();
    assert forall|i: int, j: int| 0 <= i <= j < s.records().len() implies lex_le(
        r[j].created_at->Some_0@,
        r[i].created_at->Some_0@,
    ) by {
        let n = s.records().len() as int;
        assert(r[j] == s.records()[n - 1 - j]);
        assert(r[i] == s.records()[n - 1 - i]);
    }
}

} // verus!
