//! The table of stored rows.
//!
//! A table is a map from ids to rows. It offers what create and fetch need of
//! a store: the column of ids, one row by its id, the insertion of a row under
//! an id that is not in use, and one more view for a row.

use crate::error::PasteError;
use crate::keys::is_free;
use crate::paste::{with_view_added, RawPaste, RawPasteView};
use crate::utils::ValueInt;
use vstd::prelude::*;

verus! {

/// The ids of `rows` differ from one another.
spec fn distinct_ids(rows: Seq<RawPaste>) -> bool {
    forall|i: int, j: int| 0 <= i < j < rows.len() ==> rows[i].id != rows[j].id
}

/// Some row of `rows` has the id `id`.
spec fn has_id(rows: Seq<RawPaste>, id: int) -> bool {
    exists|i: int| 0 <= i < rows.len() && rows[i].id == id
}

/// Where in `rows` the row with the id `id` stands.
spec fn position_of(rows: Seq<RawPaste>, id: int) -> int {
    choose|i: int| 0 <= i < rows.len() && rows[i].id == id
}

/// The rows by their ids.
spec fn rows_map(rows: Seq<RawPaste>) -> Map<int, RawPasteView> {
    Map::new(|id: int| has_id(rows, id), |id: int| rows[position_of(rows, id)]@)
}

/// The ids of the rows, in the order of the rows.
spec fn rows_ids(rows: Seq<RawPaste>) -> Seq<i64> {
    Seq::new(rows.len(), |i: int| rows[i].id)
}

/// With distinct ids, a row is found where it stands.
proof fn lemma_position(rows: Seq<RawPaste>, at: int)
    requires
        distinct_ids(rows),
        0 <= at < rows.len(),
    ensures
        has_id(rows, rows[at].id as int),
        position_of(rows, rows[at].id as int) == at,
        rows_map(rows).contains_key(rows[at].id as int),
        rows_map(rows)[rows[at].id as int] == rows[at]@,
{
    let id: int = rows[at].id as int;
    assert(0 <= at < rows.len() && rows[at].id == id);
    let found: int = position_of(rows, id);
    assert(0 <= found < rows.len() && rows[found].id == id);
    if found < at {
        assert(rows[found].id != rows[at].id);
    }
    if at < found {
        assert(rows[at].id != rows[found].id);
    }
}

/// An id is free in the column of ids exactly when no row has it.
proof fn lemma_free_is_absent(rows: Seq<RawPaste>, id: int)
    ensures
        is_free(rows_ids(rows), id) <==> !has_id(rows, id),
{
    if has_id(rows, id) {
        let i: int = position_of(rows, id);
        assert(rows_ids(rows)[i] == id);
    }
    if !is_free(rows_ids(rows), id) {
        let i: int = choose|i: int| 0 <= i < rows_ids(rows).len() && rows_ids(rows)[i] == id;
        assert(0 <= i < rows.len() && rows[i].id == id);
    }
}

/// The ids that a column of values holds.
pub open spec fn column(values: Seq<ValueInt>) -> Seq<i64> {
    Seq::new(values.len(), |i: int| values[i].0)
}

/// Every row is stored under its own id, and its numbers are those of an
/// `i64`.
pub open spec fn consistent(store: Map<int, RawPasteView>) -> bool {
    forall|id: int| #[trigger]
        store.contains_key(id) ==> {
            &&& store[id].id == id
            &&& i64::MIN <= id <= i64::MAX
            &&& i64::MIN <= store[id].views <= i64::MAX
            &&& i64::MIN <= store[id].timestamp <= i64::MAX
        }
}

/// A table of rows, no two with the same id.
pub struct PasteTable {
    rows: Vec<RawPaste>,
}

impl View for PasteTable {
    type V = Map<int, RawPasteView>;

    closed spec fn view(&self) -> Map<int, RawPasteView> {
        rows_map(self.rows@)
    }
}

impl PasteTable {
    /// The table is well formed: the ids of its rows differ from one another.
    pub closed spec fn wf(&self) -> bool {
        distinct_ids(self.rows@)
    }

    /// The ids of the rows, in the order in which the rows were inserted.
    pub closed spec fn id_column(&self) -> Seq<i64> {
        rows_ids(self.rows@)
    }

    /// The number of rows.
    pub closed spec fn count(&self) -> nat {
        self.rows@.len()
    }

    /// The column of ids holds the ids under which rows are stored, and every
    /// row is stored under its own id.
    pub proof fn lemma_ids_are_keys(&self)
        requires
            self.wf(),
        ensures
            consistent(self@),
            self.id_column().len() == self.count(),
            forall|id: int| is_free(self.id_column(), id) <==> !#[trigger] self@.contains_key(id),
    {
        let rows: Seq<RawPaste> = self.rows@;
        assert forall|id: int| #[trigger] self@.contains_key(id) implies {
            &&& self@[id].id == id
            &&& i64::MIN <= id <= i64::MAX
            &&& i64::MIN <= self@[id].views <= i64::MAX
            &&& i64::MIN <= self@[id].timestamp <= i64::MAX
        } by {
            let at: int = position_of(rows, id);
            assert(0 <= at < rows.len() && rows[at].id == id);
        }
        assert forall|id: int| is_free(self.id_column(), id) <==> !#[trigger] self@.contains_key(
            id,
        ) by {
            lemma_free_is_absent(rows, id);
        }
    }

    /// A table without rows.
    pub fn new() -> (table: PasteTable)
        ensures
            table.wf(),
            table@ == Map::<int, RawPasteView>::empty(),
            table.id_column() == Seq::<i64>::empty(),
    {
        let table: PasteTable = PasteTable { rows: Vec::new() };
        assert(table@ =~= Map::<int, RawPasteView>::empty());
        assert(table.id_column() =~= Seq::<i64>::empty());
        table
    }

    /// The number of rows.
    pub fn len(&self) -> (n: usize)
        ensures
            n == self.count(),
    {
        self.rows.len()
    }

    /// Where the row with the id `id` stands, if there is one.
    fn find(&self, id: i64) -> (at: Option<usize>)
        requires
            self.wf(),
        ensures
            match at {
                Some(i) => i < self.rows@.len() && self.rows@[i as int].id == id
                    && self@.contains_key(id as int) && self@[id as int] == self.rows@[i as int]@,
                None => !self@.contains_key(id as int),
            },
    {
        let mut at: usize = 0;
        while at < self.rows.len()
            invariant
                at <= self.rows@.len(),
                distinct_ids(self.rows@),
                forall|i: int| 0 <= i < at ==> self.rows@[i].id != id,
            decreases self.rows@.len() - at,
        {
            if self.rows[at].id == id {
                proof {
                    lemma_position(self.rows@, at as int);
                }
                return Some(at);
            }
            at = at + 1;
        }
        None
    }

    /// The ids of all rows.
    pub fn ids(&self) -> (values: Vec<ValueInt>)
        ensures
            column(values@) == self.id_column(),
    {
        let mut values: Vec<ValueInt> = Vec::new();
        let mut at: usize = 0;
        while at < self.rows.len()
            invariant
                at <= self.rows@.len(),
                values@.len() == at,
                forall|i: int| 0 <= i < at ==> values@[i].0 == self.rows@[i].id,
            decreases self.rows@.len() - at,
        {
            values.push(ValueInt(self.rows[at].id));
            at = at + 1;
        }
        assert(column(values@) =~= self.id_column());
        values
    }

    /// The row with the id `id`, if there is one.
    pub fn select(&self, id: i64) -> (row: Option<RawPaste>)
        requires
            self.wf(),
        ensures
            match row {
                Some(r) => self@.contains_key(id as int) && r@ == self@[id as int],
                None => !self@.contains_key(id as int),
            },
    {
        match self.find(id) {
            Some(at) => Some(self.rows[at].clone()),
            None => None,
        }
    }

    /// Stores `row` under its id, unless a row is stored under that id.
    pub fn insert(&mut self, row: RawPaste) -> (res: Result<(), PasteError>)
        requires
            old(self).wf(),
        ensures
            final(self).wf(),
            match res {
                Ok(_) => {
                    &&& !old(self)@.contains_key(row.id as int)
                    &&& final(self)@ == old(self)@.insert(row.id as int, row@)
                    &&& final(self).id_column() == old(self).id_column().push(row.id)
                },
                Err(e) => {
                    &&& e == PasteError::DuplicateId
                    &&& old(self)@.contains_key(row.id as int)
                    &&& *final(self) == *old(self)
                },
            },
    {
        match self.find(row.id) {
            Some(_) => Err(PasteError::DuplicateId),
            None => {
                let ghost before: Seq<RawPaste> = self.rows@;
                let ghost id: int = row.id as int;
                let ghost added: RawPasteView = row@;
                self.rows.push(row);
                proof {
                    let after: Seq<RawPaste> = self.rows@;
                    assert(distinct_ids(after)) by {
                        assert forall|i: int, j: int| 0 <= i < j < after.len() implies after[i].id
                            != after[j].id by {
                            if j == before.len() {
                                assert(before[i].id == after[i].id);
                                assert(!has_id(before, id));
                            } else {
                                assert(before[i].id != before[j].id);
                            }
                        }
                    }
                    assert(rows_map(after) =~= rows_map(before).insert(id, added)) by {
                        assert forall|k: int| has_id(after, k) <==> (has_id(before, k) || k == id) by {
                            if has_id(after, k) {
                                let i: int = position_of(after, k);
                                if i < before.len() {
                                    assert(before[i].id == k);
                                }
                            }
                            if has_id(before, k) {
                                let i: int = position_of(before, k);
                                assert(after[i].id == k);
                            }
                            if k == id {
                                assert(after[before.len() as int].id == k);
                            }
                        }
                        assert forall|k: int| has_id(after, k) implies rows_map(after)[k]
                            == rows_map(before).insert(id, added)[k] by {
                            if k == id {
                                lemma_position(after, before.len() as int);
                            } else {
                                let i: int = position_of(before, k);
                                lemma_position(before, i);
                                assert(after[i] == before[i]);
                                lemma_position(after, i);
                            }
                        }
                    }
                    assert(rows_ids(after) =~= rows_ids(before).push(id as i64));
                }
                Ok(())
            },
        }
    }

    /// Counts one more view for the row with the id `id`. `Ok(false)` means
    /// that there is no such row.
    pub fn increment_views(&mut self, id: i64) -> (res: Result<bool, PasteError>)
        requires
            old(self).wf(),
        ensures
            final(self).wf(),
            final(self).id_column() == old(self).id_column(),
            match res {
                Ok(counted) => {
                    &&& counted == old(self)@.contains_key(id as int)
                    &&& counted ==> old(self)@[id as int].views < i64::MAX
                    &&& counted ==> final(self)@ == old(self)@.insert(
                        id as int,
                        with_view_added(old(self)@[id as int]),
                    )
                    &&& !counted ==> *final(self) == *old(self)
                },
                Err(e) => {
                    &&& e == PasteError::ViewsOverflow
                    &&& old(self)@.contains_key(id as int)
                    &&& old(self)@[id as int].views == i64::MAX
                    &&& *final(self) == *old(self)
                },
            },
    {
        match self.find(id) {
            None => Ok(false),
            Some(at) => {
                let ghost before: Seq<RawPaste> = self.rows@;
                match self.rows[at].clone().viewed() {
                    Err(e) => Err(e),
                    Ok(row) => {
                        self.rows.set(at, row);
                        proof {
                            let after: Seq<RawPaste> = self.rows@;
                            let key: int = id as int;
                            assert(distinct_ids(after)) by {
                                assert forall|i: int, j: int|
                                    0 <= i < j < after.len() implies after[i].id != after[j].id by {
                                    assert(before[i].id != before[j].id);
                                }
                            }
                            assert(rows_map(after) =~= rows_map(before).insert(
                                key,
                                with_view_added(rows_map(before)[key]),
                            )) by {
                                assert forall|k: int| has_id(after, k) <==> has_id(before, k) by {
                                    if has_id(after, k) {
                                        let i: int = position_of(after, k);
                                        assert(before[i].id == k);
                                    }
                                    if has_id(before, k) {
                                        let i: int = position_of(before, k);
                                        assert(after[i].id == k);
                                    }
                                }
                                assert forall|k: int| has_id(after, k) implies rows_map(after)[k]
                                    == rows_map(before).insert(
                                    key,
                                    with_view_added(rows_map(before)[key]),
                                )[k] by {
                                    let i: int = position_of(before, k);
                                    lemma_position(before, i);
                                    lemma_position(after, i);
                                    lemma_position(before, at as int);
                                }
                            }
                            assert(rows_ids(after) =~= rows_ids(before));
                        }
                        Ok(true)
                    },
                }
            },
        }
    }
}

} // verus!
