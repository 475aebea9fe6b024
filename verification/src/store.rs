//! An in-memory opportunity store realizing the persistence-gateway
//! contract: a table of rows keyed by a unique integer identifier, with
//! identifier assignment on insert, lookup and delete by identifier.

use vstd::prelude::*;

use crate::model::{ApiError, Row, RowView, VoteInput, spec_row_of_input};

verus! {

/// Index of the first row carrying `id`, or the sequence's length when no
/// row carries it.
pub open spec fn spec_find_index(rows: Seq<RowView>, id: int) -> int
    decreases rows.len(),
{
    if rows.len() == 0 {
        0
    } else if rows[0].id == id {
        0
    } else {
        1 + spec_find_index(rows.drop_first(), id)
    }
}

/// `spec_find_index` stays within bounds, lands on a row carrying `id`
/// whenever one exists, and skips no such row.
pub proof fn lemma_find_index_spec(rows: Seq<RowView>, id: int)
    ensures
        0 <= spec_find_index(rows, id) <= rows.len(),
        spec_find_index(rows, id) < rows.len() ==> rows[spec_find_index(rows, id)].id == id,
        forall|k: int| 0 <= k < spec_find_index(rows, id) ==> rows[k].id != id,
    decreases rows.len(),
{
    if rows.len() == 0 {
    } else if rows[0].id == id {
    } else {
        lemma_find_index_spec(rows.drop_first(), id);
        assert forall|k: int| 0 <= k < spec_find_index(rows, id) implies rows[k].id != id by {
            if k > 0 {
                assert(rows.drop_first()[k - 1] == rows[k]);
            }
        }
    }
}

/// If no row before `i` carries `id`, and row `i` does (or `i` is the
/// length), then `i` is exactly where the search lands.
pub proof fn lemma_find_index_char(rows: Seq<RowView>, id: int, i: int)
    requires
        0 <= i <= rows.len(),
        forall|k: int| 0 <= k < i ==> rows[k].id != id,
        i < rows.len() ==> rows[i].id == id,
    ensures
        spec_find_index(rows, id) == i,
    decreases rows.len(),
{
    if rows.len() == 0 {
    } else if i == 0 {
    } else {
        assert(rows[0].id != id);
        assert forall|k: int| 0 <= k < i - 1 implies rows.drop_first()[k].id != id by {
            assert(rows.drop_first()[k] == rows[k + 1]);
        }
        if i - 1 < rows.len() - 1 {
            assert(rows.drop_first()[i - 1] == rows[i]);
        }
        lemma_find_index_char(rows.drop_first(), id, i - 1);
    }
}

/// The mathematical value of a `Store`: the rows it holds, in order, and
/// the identifier it will assign next.
pub ghost struct StoreView {
    pub rows: Seq<RowView>,
    pub next_id: int,
}

impl StoreView {
    /// Well-formedness: identifiers are unique across rows and every stored
    /// identifier lies below the next one to assign.
    pub open spec fn wf(self) -> bool {
        &&& 1 <= self.next_id <= i32::MAX as int
        &&& forall|i: int, j: int|
            #![trigger self.rows[i].id, self.rows[j].id]
            0 <= i < j < self.rows.len() ==> self.rows[i].id != self.rows[j].id
        &&& forall|i: int| 0 <= i < self.rows.len() ==> #[trigger] self.rows[i].id < self.next_id
    }
}

/// The opportunity store: the sole owner of the persisted rows. Every
/// operation is one self-contained call; no state is shared outside it.
pub struct Store {
    pub rows: Vec<Row>,
    pub next_id: i32,
}

impl View for Store {
    type V = StoreView;

    open spec fn view(&self) -> StoreView {
        StoreView { rows: self.rows.deep_view(), next_id: self.next_id as int }
    }
}

impl Store {
    /// Well-formedness of the store's value.
    pub open spec fn wf(self) -> bool {
        self@.wf()
    }

    /// An empty store; the first assigned identifier will be 1.
    pub fn new() -> (s: Store)
        ensures
            s.wf(),
            s@.rows.len() == 0,
            s@.next_id == 1,
    {
        let s = Store { rows: Vec::new(), next_id: 1 };
        proof {
            assert(s@.rows =~= Seq::<RowView>::empty());
        }
        s
    }

    /// A store over rows already at hand (say, read back from disk),
    /// accepted exactly when they satisfy the store's invariant: unique
    /// identifiers, all below `next_id`, and `next_id` at least 1.
    pub fn from_rows(rows: Vec<Row>, next_id: i32) -> (r: Option<Store>)
        ensures
            r is Some ==> {
                &&& r->Some_0@.rows == rows.deep_view()
                &&& r->Some_0@.next_id == next_id as int
                &&& r->Some_0.wf()
            },
            r is None ==> !(StoreView { rows: rows.deep_view(), next_id: next_id as int }).wf(),
    {
        if next_id < 1 {
            return None;
        }
        let n = rows.len();
        let mut i: usize = 0;
        while i < n
            invariant
                n == rows.len(),
                i <= n,
                forall|a: int| 0 <= a < i ==> #[trigger] rows.deep_view()[a].id < next_id as int,
                forall|a: int, b: int|
                    #![trigger rows.deep_view()[a].id, rows.deep_view()[b].id]
                    0 <= a < b < n && a < i ==> rows.deep_view()[a].id != rows.deep_view()[b].id,
            decreases n - i,
        {
            if rows[i].id >= next_id {
                proof {
                    assert(rows.deep_view()[i as int].id >= next_id as int);
                }
                return None;
            }
            let mut j: usize = i + 1;
            while j < n
                invariant
                    n == rows.len(),
                    i < j <= n,
                    forall|b: int| i < b < j ==> rows.deep_view()[i as int].id != #[trigger] rows.deep_view()[b].id,
                decreases n - j,
            {
                if rows[j].id == rows[i].id {
                    proof {
                        assert(rows.deep_view()[i as int].id == rows.deep_view()[j as int].id);
                    }
                    return None;
                }
                j = j + 1;
            }
            i = i + 1;
        }
        Some(Store { rows, next_id })
    }

    /// Index of the first row carrying `id`, or the row count when none
    /// does.
    fn find(&self, id: i32) -> (i: usize)
        ensures
            i as int == spec_find_index(self@.rows, id as int),
    {
        let n = self.rows.len();
        let mut i: usize = 0;
        while i < n
            invariant
                n == self.rows.len(),
                i <= n,
                forall|k: int| 0 <= k < i ==> #[trigger] self@.rows[k].id != id as int,
            decreases n - i,
        {
            if self.rows[i].id == id {
                proof {
                    lemma_find_index_char(self@.rows, id as int, i as int);
                }
                return i;
            }
            i = i + 1;
        }
        proof {
            lemma_find_index_char(self@.rows, id as int, i as int);
        }
        i
    }

    /// Reads the one row carrying `id`; `NotFound` exactly when no row
    /// does.
    pub fn load_one(&self, id: i32) -> (r: Result<Row, ApiError>)
        ensures
            spec_find_index(self@.rows, id as int) < self@.rows.len() ==> {
                &&& r is Ok
                &&& r->Ok_0@ == self@.rows[spec_find_index(self@.rows, id as int)]
            },
            spec_find_index(self@.rows, id as int) == self@.rows.len() ==> {
                &&& r is Err
                &&& r->Err_0 == ApiError::NotFound
            },
    {
        proof {
            lemma_find_index_spec(self@.rows, id as int);
        }
        let i = self.find(id);
        if i < self.rows.len() {
            Ok(self.rows[i].clone())
        } else {
            Err(ApiError::NotFound)
        }
    }

    /// Inserts one row built from the input, assigning the next identifier;
    /// fails only when the identifier space is exhausted, and then changes
    /// nothing.
    pub fn insert(&mut self, input: VoteInput) -> (r: Result<Row, ApiError>)
        requires
            old(self).wf(),
        ensures
            final(self).wf(),
            old(self)@.next_id < i32::MAX as int ==> {
                &&& r is Ok
                &&& r->Ok_0@ == spec_row_of_input(input@, old(self)@.next_id)
                &&& final(self)@.rows == old(self)@.rows.push(
                    spec_row_of_input(input@, old(self)@.next_id),
                )
                &&& final(self)@.next_id == old(self)@.next_id + 1
            },
            old(self)@.next_id == i32::MAX as int ==> {
                &&& r is Err
                &&& r->Err_0 == ApiError::PersistenceError
                &&& final(self)@ == old(self)@
            },
    {
        if self.next_id == i32::MAX {
            return Err(ApiError::PersistenceError);
        }
        let row = Row {
            id: self.next_id,
            title: input.title,
            location_name: input.location_name,
            lat_bits: input.lat_bits,
            lng_bits: input.lng_bits,
            description: input.description,
            date: input.date,
            tags: input.tags,
        };
        let stored = row.clone();
        self.rows.push(stored);
        self.next_id = self.next_id + 1;
        proof {
            assert(self@.rows =~= old(self)@.rows.push(row@));
        }
        Ok(row)
    }

    /// Deletes the one row carrying `id` and returns its prior value;
    /// `NotFound` exactly when no row does, and then changes nothing.
    pub fn delete_where(&mut self, id: i32) -> (r: Result<Row, ApiError>)
        requires
            old(self).wf(),
        ensures
            final(self).wf(),
            spec_find_index(old(self)@.rows, id as int) < old(self)@.rows.len() ==> {
                &&& r is Ok
                &&& r->Ok_0@ == old(self)@.rows[spec_find_index(old(self)@.rows, id as int)]
                &&& final(self)@.rows == old(self)@.rows.remove(
                    spec_find_index(old(self)@.rows, id as int),
                )
                &&& final(self)@.next_id == old(self)@.next_id
            },
            spec_find_index(old(self)@.rows, id as int) == old(self)@.rows.len() ==> {
                &&& r is Err
                &&& r->Err_0 == ApiError::NotFound
                &&& final(self)@ == old(self)@
            },
    {
        proof {
            lemma_find_index_spec(self@.rows, id as int);
        }
        let i = self.find(id);
        if i < self.rows.len() {
            let row = self.rows.remove(i);
            proof {
                assert(self@.rows =~= old(self)@.rows.remove(i as int));
            }
            Ok(row)
        } else {
            Err(ApiError::NotFound)
        }
    }
}

} // verus!
