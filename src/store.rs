use vstd::prelude::*;
use vstd::string::*;
use crate::model::{Feedback, FeedbackView};
use crate::schema::PageWindow;

verus! {

/// `a` sorts before `b` when they differ first at `i`: there `a` has the
/// smaller character, or `a` ends while `b` goes on.
pub open spec fn lt_at(a: Seq<char>, b: Seq<char>, i: int) -> bool {
    &&& 0 <= i <= a.len()
    &&& i <= b.len()
    &&& forall|k: int| 0 <= k < i ==> a[k] == b[k]
    &&& (i < a.len() && i < b.len() && (a[i] as u32) < (b[i] as u32)) || (i == a.len() && i < b.len())
}

/// Lexicographic order of identifiers, character by character.
pub open spec fn id_lt(a: Seq<char>, b: Seq<char>) -> bool {
    exists|i: int| lt_at(a, b, i)
}

/// No identifier sorts before itself.
pub proof fn lemma_id_lt_irreflexive(a: Seq<char>)
    ensures
        !id_lt(a, a),
{
}

/// The order of identifiers is transitive.
pub proof fn lemma_id_lt_transitive(a: Seq<char>, b: Seq<char>, c: Seq<char>)
    requires
        id_lt(a, b),
        id_lt(b, c),
    ensures
        id_lt(a, c),
{
    let i = choose|i: int| lt_at(a, b, i);
    let j = choose|j: int| lt_at(b, c, j);
    if i < j {
        assert(lt_at(a, c, i));
    } else if j < i {
        assert(lt_at(a, c, j));
    } else {
        assert(lt_at(a, c, i));
    }
}

/// Compares two identifiers: negative, zero or positive as `a` sorts before,
/// equals, or sorts after `b`.
pub fn compare_ids(a: &str, b: &str) -> (r: i8)
    ensures
        r < 0 <==> id_lt(a@, b@),
        r == 0 <==> a@ == b@,
        r > 0 <==> id_lt(b@, a@),
{
    let la = a.unicode_len();
    let lb = b.unicode_len();
    let mut i: usize = 0;
    while i < la && i < lb
        invariant
            la == a@.len(),
            lb == b@.len(),
            i <= la,
            i <= lb,
            forall|k: int| 0 <= k < i ==> a@[k] == b@[k],
        decreases la - i,
    {
        let ca = a.get_char(i);
        let cb = b.get_char(i);
        if ca != cb {
            proof {
                lemma_id_lt_irreflexive(a@);
            }
            if (ca as u32) < (cb as u32) {
                assert(lt_at(a@, b@, i as int));
                assert(!id_lt(b@, a@)) by {
                    if id_lt(b@, a@) {
                        let j = choose|j: int| lt_at(b@, a@, j);
                        assert(j < i || j == i || j > i);
                    }
                };
                return -1;
            } else {
                assert(lt_at(b@, a@, i as int));
                assert(!id_lt(a@, b@)) by {
                    if id_lt(a@, b@) {
                        let j = choose|j: int| lt_at(a@, b@, j);
                        assert(j < i || j == i || j > i);
                    }
                };
                return 1;
            }
        }
        i = i + 1;
    }
    if la < lb {
        assert(lt_at(a@, b@, i as int));
        assert(!id_lt(b@, a@));
        -1
    } else if la == lb {
        assert(a@ =~= b@);
        proof {
            lemma_id_lt_irreflexive(a@);
        }
        0
    } else {
        assert(lt_at(b@, a@, i as int));
        assert(!id_lt(a@, b@));
        1
    }
}

/// Rows strictly ascending by id, so no two rows share an id.
pub open spec fn sorted_by_id(s: Seq<FeedbackView>) -> bool {
    forall|i: int, j: int| 0 <= i < j < s.len() ==> id_lt(#[trigger] s[i].id, #[trigger] s[j].id)
}

pub open spec fn has_id(s: Seq<FeedbackView>, id: Seq<char>) -> bool {
    exists|i: int| 0 <= i < s.len() && s[i].id == id
}

pub open spec fn index_of(s: Seq<FeedbackView>, id: Seq<char>) -> int {
    choose|i: int| 0 <= i < s.len() && s[i].id == id
}

/// The rows keyed by id.
pub open spec fn table_map(s: Seq<FeedbackView>) -> Map<Seq<char>, FeedbackView> {
    Map::new(|k: Seq<char>| has_id(s, k), |k: Seq<char>| s[index_of(s, k)])
}

/// In a sorted table an id names at most one row.
pub proof fn lemma_sorted_unique(s: Seq<FeedbackView>, i: int, j: int)
    requires
        sorted_by_id(s),
        0 <= i < s.len(),
        0 <= j < s.len(),
        s[i].id == s[j].id,
    ensures
        i == j,
{
    lemma_id_lt_irreflexive(s[i].id);
    if i < j {
        assert(id_lt(s[i].id, s[j].id));
    } else if j < i {
        assert(id_lt(s[j].id, s[i].id));
    }
}

/// In a sorted table the row at `i` is what its id maps to.
pub proof fn lemma_map_at(s: Seq<FeedbackView>, i: int)
    requires
        sorted_by_id(s),
        0 <= i < s.len(),
    ensures
        table_map(s).contains_key(s[i].id),
        table_map(s)[s[i].id] == s[i],
{
    assert(has_id(s, s[i].id));
    let j = index_of(s, s[i].id);
    lemma_sorted_unique(s, i, j);
}

/// The rows after skipping `offset`, at most `limit` of them.
pub open spec fn page_of(s: Seq<FeedbackView>, limit: int, offset: int) -> Seq<FeedbackView> {
    let start = if offset < s.len() { offset } else { s.len() as int };
    let end = if limit < s.len() - start { start + limit } else { s.len() as int };
    s.subrange(start, end)
}

/// Why a store operation failed.
#[derive(Clone, Debug)]
pub enum StoreError {
    /// No row has the requested id.
    RowNotFound,
    /// The row would break a uniqueness constraint.
    UniqueViolation,
    /// Any other failure, with the store's description.
    Other(String),
}

/// Feedback rows kept in ascending order of id.
#[derive(Debug)]
pub struct FeedbackTable {
    rows: Vec<Feedback>,
}

impl View for FeedbackTable {
    type V = Seq<FeedbackView>;

    closed spec fn view(&self) -> Seq<FeedbackView> {
        self.rows@.map_values(|f: Feedback| f@)
    }
}

impl FeedbackTable {
    pub open spec fn wf(&self) -> bool {
        sorted_by_id(self@)
    }

    /// The rows keyed by id.
    pub open spec fn rows_map(&self) -> Map<Seq<char>, FeedbackView> {
        table_map(self@)
    }

    /// A table with no rows.
    pub fn new() -> (r: FeedbackTable)
        ensures
            r.wf(),
            r@ == Seq::<FeedbackView>::empty(),
    {
        let r = FeedbackTable { rows: Vec::new() };
        assert(r@ =~= Seq::<FeedbackView>::empty());
        r
    }

    /// The number of rows.
    pub fn len(&self) -> (r: usize)
        ensures
            r == self@.len(),
    {
        self.rows.len()
    }

    /// Where `id` stands: `Ok` with its row's index, or `Err` with the index
    /// at which a row with that id would be inserted.
    fn position(&self, id: &str) -> (r: Result<usize, usize>)
        requires
            self.wf(),
        ensures
            match r {
                Ok(i) => i < self@.len() && self@[i as int].id == id@,
                Err(p) => p <= self@.len() && !has_id(self@, id@) && (forall|k: int|
                    0 <= k < p ==> id_lt(#[trigger] self@[k].id, id@)) && (forall|k: int|
                    p <= k < self@.len() ==> id_lt(id@, #[trigger] self@[k].id)),
            },
    {
        let n = self.rows.len();
        let mut i: usize = 0;
        while i < n
            invariant
                self.wf(),
                n == self@.len(),
                i <= n,
                forall|k: int| 0 <= k < i ==> id_lt(#[trigger] self@[k].id, id@),
            decreases n - i,
        {
            let c = compare_ids(self.rows[i].id.as_str(), id);
            assert(self.rows[i as int]@ == self@[i as int]);
            if c == 0 {
                return Ok(i);
            }
            if c > 0 {
                assert forall|k: int| i <= k < self@.len() implies id_lt(id@, #[trigger] self@[k].id) by {
                    if k > i {
                        lemma_id_lt_transitive(id@, self@[i as int].id, self@[k].id);
                    }
                };
                assert(!has_id(self@, id@)) by {
                    lemma_id_lt_irreflexive(id@);
                };
                return Err(i);
            }
            i = i + 1;
        }
        assert(!has_id(self@, id@)) by {
            lemma_id_lt_irreflexive(id@);
        };
        Err(n)
    }

    /// Adds `row`, unless a row with its id is already there.
    pub fn insert(&mut self, row: Feedback) -> (r: Result<(), StoreError>)
        requires
            old(self).wf(),
        ensures
            final(self).wf(),
            match r {
                Ok(()) => {
                    &&& !old(self).rows_map().contains_key(row@.id)
                    &&& final(self).rows_map() == old(self).rows_map().insert(row@.id, row@)
                    &&& final(self)@.len() == old(self)@.len() + 1
                },
                Err(e) => old(self).rows_map().contains_key(row@.id) && e is UniqueViolation
                    && final(self)@ == old(self)@,
            },
    {
        match self.position(row.id.as_str()) {
            Ok(i) => {
                proof {
                    lemma_map_at(self@, i as int);
                }
                Err(StoreError::UniqueViolation)
            },
            Err(p) => {
                let ghost before = self@;
                let ghost v = row@;
                self.rows.insert(p, row);
                let ghost after = self@;
                assert(after =~= before.insert(p as int, v));
                assert(sorted_by_id(after)) by {
                    assert forall|i: int, j: int| 0 <= i < j < after.len() implies id_lt(
                        #[trigger] after[i].id,
                        #[trigger] after[j].id,
                    ) by {
                        if i < p && j > p {
                            lemma_id_lt_transitive(after[i].id, v.id, after[j].id);
                        }
                    };
                };
                assert(table_map(after) =~= table_map(before).insert(v.id, v)) by {
                    lemma_map_at(after, p as int);
                    assert forall|k: Seq<char>| #[trigger] table_map(after).contains_key(k)
                        <==> table_map(before).insert(v.id, v).contains_key(k) by {
                        if table_map(after).contains_key(k) && k != v.id {
                            let j = index_of(after, k);
                            if j < p {
                                assert(before[j].id == k);
                            } else {
                                assert(before[j - 1].id == k);
                            }
                        }
                        if table_map(before).contains_key(k) {
                            let j = index_of(before, k);
                            if j < p {
                                assert(after[j].id == k);
                            } else {
                                assert(after[j + 1].id == k);
                            }
                        }
                    };
                    assert forall|k: Seq<char>| #[trigger] table_map(after).contains_key(k)
                        implies table_map(after)[k] == table_map(before).insert(v.id, v)[k] by {
                        if k != v.id {
                            let j = index_of(before, k);
                            lemma_map_at(before, j);
                            if j < p {
                                lemma_map_at(after, j);
                            } else {
                                lemma_map_at(after, j + 1);
                            }
                        }
                    };
                };
                Ok(())
            },
        }
    }

    /// The row with id `id`.
    pub fn fetch(&self, id: &str) -> (r: Result<Feedback, StoreError>)
        requires
            self.wf(),
        ensures
            match r {
                Ok(f) => self.rows_map().contains_key(id@) && f@ == self.rows_map()[id@],
                Err(e) => !self.rows_map().contains_key(id@) && e is RowNotFound,
            },
    {
        match self.position(id) {
            Ok(i) => {
                proof {
                    lemma_map_at(self@, i as int);
                }
                let f = self.rows[i].copy();
                Ok(f)
            },
            Err(_) => Err(StoreError::RowNotFound),
        }
    }

    /// Puts `row` in place of the row with the same id; the number of rows
    /// changed, 0 when there is none.
    pub fn replace(&mut self, row: Feedback) -> (n: u64)
        requires
            old(self).wf(),
        ensures
            final(self).wf(),
            n == 1 || n == 0,
            n == 1 <==> old(self).rows_map().contains_key(row@.id),
            n == 1 ==> final(self).rows_map() == old(self).rows_map().insert(row@.id, row@),
            final(self)@.len() == old(self)@.len(),
            n == 0 ==> final(self)@ == old(self)@,
    {
        match self.position(row.id.as_str()) {
            Ok(i) => {
                let ghost before = self@;
                let ghost v = row@;
                proof {
                    lemma_map_at(before, i as int);
                }
                self.rows.set(i, row);
                let ghost after = self@;
                assert(after =~= before.update(i as int, v));
                assert(sorted_by_id(after)) by {
                    assert forall|a: int, b: int| 0 <= a < b < after.len() implies id_lt(
                        #[trigger] after[a].id,
                        #[trigger] after[b].id,
                    ) by {
                        assert(before[a].id == after[a].id);
                        assert(before[b].id == after[b].id);
                    };
                };
                assert(table_map(after) =~= table_map(before).insert(v.id, v)) by {
                    lemma_map_at(after, i as int);
                    assert forall|k: Seq<char>| #[trigger] table_map(after).contains_key(k)
                        <==> table_map(before).insert(v.id, v).contains_key(k) by {
                        if table_map(after).contains_key(k) {
                            let j = index_of(after, k);
                            assert(before[j].id == k);
                        }
                        if table_map(before).contains_key(k) {
                            let j = index_of(before, k);
                            assert(after[j].id == k);
                        }
                    };
                    assert forall|k: Seq<char>| #[trigger] table_map(after).contains_key(k)
                        implies table_map(after)[k] == table_map(before).insert(v.id, v)[k] by {
                        if k != v.id {
                            let j = index_of(before, k);
                            lemma_map_at(before, j);
                            lemma_map_at(after, j);
                        }
                    };
                };
                1
            },
            Err(_) => 0,
        }
    }

    /// Removes the row with id `id`; the number of rows removed, 0 when there
    /// is none.
    pub fn remove(&mut self, id: &str) -> (n: u64)
        requires
            old(self).wf(),
        ensures
            final(self).wf(),
            n == 1 || n == 0,
            n == 1 <==> old(self).rows_map().contains_key(id@),
            n == 1 ==> final(self).rows_map() == old(self).rows_map().remove(id@),
            final(self)@.len() == old(self)@.len() - n,
            n == 0 ==> final(self)@ == old(self)@,
    {
        match self.position(id) {
            Ok(i) => {
                let ghost before = self@;
                proof {
                    lemma_map_at(before, i as int);
                }
                let _gone = self.rows.remove(i);
                let ghost after = self@;
                assert(after =~= before.remove(i as int));
                assert(sorted_by_id(after)) by {
                    assert forall|a: int, b: int| 0 <= a < b < after.len() implies id_lt(
                        #[trigger] after[a].id,
                        #[trigger] after[b].id,
                    ) by {
                        let a0 = if a < i { a } else { a + 1 };
                        let b0 = if b < i { b } else { b + 1 };
                        assert(before[a0].id == after[a].id);
                        assert(before[b0].id == after[b].id);
                    };
                };
                assert(table_map(after) =~= table_map(before).remove(id@)) by {
                    assert forall|k: Seq<char>| #[trigger] table_map(after).contains_key(k)
                        <==> table_map(before).remove(id@).contains_key(k) by {
                        if table_map(after).contains_key(k) {
                            let j = index_of(after, k);
                            let j0 = if j < i { j } else { j + 1 };
                            assert(before[j0].id == k);
                            if k == id@ {
                                lemma_sorted_unique(before, i as int, j0);
                            }
                        }
                        if table_map(before).contains_key(k) && k != id@ {
                            let j = index_of(before, k);
                            if j < i {
                                assert(after[j].id == k);
                            } else {
                                assert(after[j - 1].id == k);
                            }
                        }
                    };
                    assert forall|k: Seq<char>| #[trigger] table_map(after).contains_key(k)
                        implies table_map(after)[k] == table_map(before).remove(id@)[k] by {
                        let j = index_of(before, k);
                        lemma_map_at(before, j);
                        if j < i {
                            lemma_map_at(after, j);
                        } else {
                            lemma_map_at(after, j - 1);
                        }
                    };
                };
                1
            },
            Err(_) => 0,
        }
    }

    /// The rows of `w`, in order of id: at most `w.limit` of them, after the
    /// first `w.offset`.
    pub fn select(&self, w: PageWindow) -> (r: Vec<Feedback>)
        requires
            self.wf(),
        ensures
            r@.map_values(|f: Feedback| f@) == page_of(self@, w.limit as int, w.offset as int),
    {
        let n = self.rows.len();
        let start: usize = if w.offset < n { w.offset } else { n };
        let end: usize = if w.limit < n - start { start + w.limit } else { n };
        let mut out: Vec<Feedback> = Vec::new();
        let mut i: usize = start;
        while i < end
            invariant
                n == self@.len(),
                start <= i <= end <= n,
                out@.map_values(|f: Feedback| f@) =~= self@.subrange(start as int, i as int),
            decreases end - i,
        {
            let f = self.rows[i].copy();
            assert(self.rows@[i as int]@ == self@[i as int]);
            let ghost prev = out@;
            out.push(f);
            assert(out@ =~= prev.push(f));
            assert(out@.map_values(|f: Feedback| f@) =~= prev.map_values(|f: Feedback| f@).push(f@));
            i = i + 1;
        }
        out
    }
}

} // verus!
