//! Pastes: the record as callers see it, the row as it is stored, and the two
//! operations on a table of rows, create and fetch.

use crate::codec::{decode_content, encode_content, json_pairs, json_text};
use crate::error::PasteError;
use crate::keys::{
    allocate, can_find, can_miss, key_space, primary_full, primary_untouched, KEY_LENGTH,
    MAX_KEY_LENGTH,
};
use crate::store::{column, PasteTable};
use crate::utils::{get_time, ValueInt};
use vstd::prelude::*;

verus! {

/// A stored paste, with its content as pairs of strings.
#[derive(Debug, Clone, PartialEq, Eq)]
pub struct Paste {
    pub id: i64,
    pub content: Vec<(String, String)>,
    pub signature: String,
    pub views: i64,
    pub timestamp: i64,
}

/// What a client sends to have a paste created.
#[derive(Debug, Clone, PartialEq, Eq)]
pub struct PayloadPaste {
    pub content: Vec<(String, String)>,
    pub signature: String,
}

/// A paste as a row of the table, with its content as text.
#[derive(Debug, PartialEq, Eq)]
pub struct RawPaste {
    pub id: i64,
    pub content: String,
    pub signature: String,
    pub views: i64,
    pub timestamp: i64,
}

/// The mathematical value of a [`Paste`].
pub struct PasteView {
    pub id: int,
    pub content: Seq<(Seq<char>, Seq<char>)>,
    pub signature: Seq<char>,
    pub views: int,
    pub timestamp: int,
}

/// The mathematical value of a [`RawPaste`].
pub struct RawPasteView {
    pub id: int,
    pub content: Seq<char>,
    pub signature: Seq<char>,
    pub views: int,
    pub timestamp: int,
}

impl View for Paste {
    type V = PasteView;

    open spec fn view(&self) -> PasteView {
        PasteView {
            id: self.id as int,
            content: self.content.deep_view(),
            signature: self.signature@,
            views: self.views as int,
            timestamp: self.timestamp as int,
        }
    }
}

impl View for RawPaste {
    type V = RawPasteView;

    open spec fn view(&self) -> RawPasteView {
        RawPasteView {
            id: self.id as int,
            content: self.content@,
            signature: self.signature@,
            views: self.views as int,
            timestamp: self.timestamp as int,
        }
    }
}

/// The row that a create writes: the content as text, and no views yet.
pub open spec fn fresh_row(
    id: int,
    content: Seq<(Seq<char>, Seq<char>)>,
    signature: Seq<char>,
    timestamp: int,
) -> RawPasteView {
    RawPasteView { id, content: json_text(content), signature, views: 0, timestamp }
}

/// The paste that a row holds, or `None` where its content is not the text
/// of a sequence of pairs.
pub open spec fn decoded(row: RawPasteView) -> Option<PasteView> {
    match json_pairs(row.content) {
        Some(content) => Some(
            PasteView {
                id: row.id,
                content,
                signature: row.signature,
                views: row.views,
                timestamp: row.timestamp,
            },
        ),
        None => None,
    }
}

/// The row after one more view.
pub open spec fn with_view_added(row: RawPasteView) -> RawPasteView {
    RawPasteView { views: row.views + 1, ..row }
}

impl Clone for RawPaste {
    fn clone(&self) -> (copy: Self)
        ensures
            copy == *self,
    {
        RawPaste {
            id: self.id,
            content: self.content.clone(),
            signature: self.signature.clone(),
            views: self.views,
            timestamp: self.timestamp,
        }
    }
}

impl RawPaste {
    /// The row for a new paste.
    pub fn fresh(
        id: i64,
        content: &Vec<(String, String)>,
        signature: String,
        timestamp: i64,
    ) -> (row: RawPaste)
        ensures
            row@ == fresh_row(id as int, content.deep_view(), signature@, timestamp as int),
            decoded(row@) is Some,
            decoded(row@)->0.content == content.deep_view(),
    {
        RawPaste { id, content: encode_content(content), signature, views: 0, timestamp }
    }

    /// The row with its view counted, unless the counter is at its limit.
    pub fn viewed(self) -> (res: Result<RawPaste, PasteError>)
        ensures
            match res {
                Ok(row) => self.views < i64::MAX && row@ == with_view_added(self@),
                Err(e) => e == PasteError::ViewsOverflow && self.views == i64::MAX,
            },
    {
        if self.views == i64::MAX {
            Err(PasteError::ViewsOverflow)
        } else {
            Ok(
                RawPaste {
                    id: self.id,
                    content: self.content,
                    signature: self.signature,
                    views: self.views + 1,
                    timestamp: self.timestamp,
                },
            )
        }
    }

    /// The paste that the row holds.
    pub fn into_paste(self) -> (res: Result<Paste, PasteError>)
        ensures
            match res {
                Ok(paste) => decoded(self@) == Some(paste@),
                Err(e) => e == PasteError::MalformedContent && decoded(self@) is None,
            },
    {
        match decode_content(self.content.as_str()) {
            Ok(content) => Ok(
                Paste {
                    id: self.id,
                    content,
                    signature: self.signature,
                    views: self.views,
                    timestamp: self.timestamp,
                },
            ),
            Err(e) => Err(e),
        }
    }
}

/// The number of probes of the fallback space after which a search with the
/// default settings gives up.
pub const PATIENCE: u64 = 0xffff_ffff_ffff_ffff;

/// The number of probes after which a search gives up, both spaces taken
/// together.
pub open spec fn probe_budget(length: nat, patience: u64) -> int {
    key_space(length) + patience
}

/// `after` is `before` with one more row, stored under `id`, which was not in
/// use: a row without views that holds `content` and `signature`, stamped with
/// a time that is not negative.
pub open spec fn created(
    before: Map<int, RawPasteView>,
    after: Map<int, RawPasteView>,
    id: int,
    content: Seq<(Seq<char>, Seq<char>)>,
    signature: Seq<char>,
) -> bool {
    &&& !before.contains_key(id)
    &&& after.contains_key(id)
    &&& after == before.insert(id, after[id])
    &&& after[id] == fresh_row(id, content, signature, after[id].timestamp)
    &&& 0 <= after[id].timestamp <= i64::MAX
    &&& json_pairs(after[id].content) == Some(content)
}

/// What a fetch makes of the row that it was handed: nothing of no row, an
/// error of a row whose counter is at its limit or whose content is not
/// readable, and else the paste with its view counted.
pub open spec fn row_outcome(row: Option<RawPasteView>) -> Result<Option<PasteView>, PasteError> {
    match row {
        None => Ok(None),
        Some(r) => if r.views >= i64::MAX {
            Err(PasteError::ViewsOverflow)
        } else {
            match decoded(with_view_added(r)) {
                Some(paste) => Ok(Some(paste)),
                None => Err(PasteError::MalformedContent),
            }
        },
    }
}

/// The row that is stored under `id`, if there is one.
pub open spec fn row_at(store: Map<int, RawPasteView>, id: int) -> Option<RawPasteView> {
    if store.contains_key(id) {
        Some(store[id])
    } else {
        None
    }
}

/// What a fetch of `id` returns.
pub open spec fn fetch_outcome(store: Map<int, RawPasteView>, id: int) -> Result<
    Option<PasteView>,
    PasteError,
> {
    row_outcome(row_at(store, id))
}

/// The store after a fetch of `id`: the row under `id` has one more view,
/// unless there is none or its counter is at its limit.
pub open spec fn after_fetch(store: Map<int, RawPasteView>, id: int) -> Map<int, RawPasteView> {
    if store.contains_key(id) && store[id].views < i64::MAX {
        store.insert(id, with_view_added(store[id]))
    } else {
        store
    }
}

/// The mathematical value of what a fetch returns.
pub open spec fn outcome_view(res: Result<Option<Paste>, PasteError>) -> Result<
    Option<PasteView>,
    PasteError,
> {
    match res {
        Ok(Some(paste)) => Ok(Some(paste@)),
        Ok(None) => Ok(None),
        Err(e) => Err(e),
    }
}

impl Paste {
    /// What a fetch returns once it has read `row` from the store.
    pub fn fetched(row: Option<RawPaste>) -> (res: Result<Option<Paste>, PasteError>)
        ensures
            outcome_view(res) == row_outcome(
                match row {
                    Some(r) => Some(r@),
                    None => None,
                },
            ),
    {
        match row {
            None => Ok(None),
            Some(r) => match r.viewed() {
                Err(e) => Err(e),
                Ok(counted) => match counted.into_paste() {
                    Err(e) => Err(e),
                    Ok(paste) => Ok(Some(paste)),
                },
            },
        }
    }

    /// An id that no row of `db` has: a key of the primary space of
    /// `key_length` digits or, after as many collisions as that space has
    /// keys, one of the fallback space. `None` after `patience` collisions
    /// there as well.
    pub fn generate_id_with(db: &PasteTable, key_length: u32, patience: u64) -> (found: Option<i64>)
        requires
            db.wf(),
            key_length <= MAX_KEY_LENGTH,
        ensures
            found matches Some(id) ==> can_find(
                db.id_column(),
                key_length as nat,
                probe_budget(key_length as nat, patience),
                id as int,
            ),
            found is None ==> can_miss(
                db.id_column(),
                key_length as nat,
                probe_budget(key_length as nat, patience),
            ),
            found matches Some(id) ==> !db@.contains_key(id as int) && 0 <= id < key_space(
                2 * (key_length as nat),
            ),
            found matches Some(id) ==> primary_full(db.id_column(), key_length as nat)
                ==> key_space(key_length as nat) <= id,
            primary_untouched(db.id_column(), key_length as nat) ==> found is Some && found->0
                < key_space(key_length as nat),
    {
        let values: Vec<ValueInt> = db.ids();
        let mut ids: Vec<i64> = Vec::new();
        let mut at: usize = 0;
        while at < values.len()
            invariant
                at <= values.len(),
                ids@.len() == at,
                forall|i: int| 0 <= i < at ==> ids@[i] == values@[i].0,
            decreases values.len() - at,
        {
            ids.push(values[at].0);
            at = at + 1;
        }
        proof {
            assert(ids@ =~= column(values@));
            db.lemma_ids_are_keys();
        }
        allocate(&ids, key_length, patience)
    }

    /// An id that no row of `db` has, searched with keys of `KEY_LENGTH`
    /// digits and given up after `PATIENCE` collisions in the fallback space.
    pub fn generate_id(db: &PasteTable) -> (found: Option<i64>)
        requires
            db.wf(),
        ensures
            found matches Some(id) ==> can_find(
                db.id_column(),
                KEY_LENGTH as nat,
                probe_budget(KEY_LENGTH as nat, PATIENCE),
                id as int,
            ),
            found is None ==> can_miss(
                db.id_column(),
                KEY_LENGTH as nat,
                probe_budget(KEY_LENGTH as nat, PATIENCE),
            ),
            found matches Some(id) ==> !db@.contains_key(id as int) && 0 <= id < key_space(
                2 * (KEY_LENGTH as nat),
            ),
            found matches Some(id) ==> primary_full(db.id_column(), KEY_LENGTH as nat)
                ==> key_space(KEY_LENGTH as nat) <= id,
            primary_untouched(db.id_column(), KEY_LENGTH as nat) ==> found is Some && found->0
                < key_space(KEY_LENGTH as nat),
    {
        Paste::generate_id_with(db, KEY_LENGTH, PATIENCE)
    }

    /// Stores a new paste under `id`, stamped `timestamp`, unless `id` is in
    /// use.
    pub fn create_under(
        db: &mut PasteTable,
        id: i64,
        timestamp: i64,
        content: Vec<(String, String)>,
        signature: String,
    ) -> (res: Result<i64, PasteError>)
        requires
            old(db).wf(),
        ensures
            final(db).wf(),
            match res {
                Ok(stored) => {
                    &&& stored == id
                    &&& !old(db)@.contains_key(id as int)
                    &&& final(db)@ == old(db)@.insert(
                        id as int,
                        fresh_row(id as int, content.deep_view(), signature@, timestamp as int),
                    )
                    &&& json_pairs(final(db)@[id as int].content) == Some(content.deep_view())
                    &&& final(db).id_column() == old(db).id_column().push(id)
                },
                Err(e) => {
                    &&& e == PasteError::DuplicateId
                    &&& old(db)@.contains_key(id as int)
                    &&& *final(db) == *old(db)
                },
            },
    {
        let row: RawPaste = RawPaste::fresh(id, &content, signature, timestamp);
        match db.insert(row) {
            Ok(_) => Ok(id),
            Err(e) => Err(e),
        }
    }

    /// Stores a new paste under an id of its own, without views and stamped
    /// with the time of the call, and returns the id. The id is searched with
    /// keys of `key_length` digits, and the search is given up after
    /// `patience` collisions in the fallback space.
    ///
    /// Fails, and leaves the table as it was, when no free id turned up or the
    /// clock cannot be read as a time since 1970.
    pub fn create_with(
        db: &mut PasteTable,
        key_length: u32,
        patience: u64,
        content: Vec<(String, String)>,
        signature: String,
    ) -> (res: Result<i64, PasteError>)
        requires
            old(db).wf(),
            key_length <= MAX_KEY_LENGTH,
        ensures
            final(db).wf(),
            match res {
                Ok(id) => {
                    &&& created(
                        old(db)@,
                        final(db)@,
                        id as int,
                        content.deep_view(),
                        signature@,
                    )
                    &&& 0 <= id < key_space(2 * (key_length as nat))
                    &&& can_find(
                        old(db).id_column(),
                        key_length as nat,
                        probe_budget(key_length as nat, patience),
                        id as int,
                    )
                    &&& primary_full(old(db).id_column(), key_length as nat) ==> key_space(
                        key_length as nat,
                    ) <= id
                    &&& final(db).id_column() == old(db).id_column().push(id)
                },
                Err(e) => {
                    &&& e == PasteError::NoFreeKey || e == PasteError::ClockOutOfRange
                    &&& e == PasteError::NoFreeKey ==> can_miss(
                        old(db).id_column(),
                        key_length as nat,
                        probe_budget(key_length as nat, patience),
                    )
                    &&& *final(db) == *old(db)
                },
            },
    {
        let id: i64 = match Paste::generate_id_with(db, key_length, patience) {
            Some(id) => id,
            None => {
                return Err(PasteError::NoFreeKey);
            },
        };
        let timestamp: i64 = match get_time() {
            Some(secs) => secs,
            None => {
                return Err(PasteError::ClockOutOfRange);
            },
        };
        Paste::create_under(db, id, timestamp, content, signature)
    }

    /// Stores a new paste under an id of its own, without views and stamped
    /// with the time of the call, and returns the id. The id is searched with
    /// keys of `KEY_LENGTH` digits and a patience of `PATIENCE`.
    ///
    /// Fails, and leaves the table as it was, when no free id turned up or the
    /// clock cannot be read as a time since 1970.
    pub fn create(db: &mut PasteTable, content: Vec<(String, String)>, signature: String) -> (res:
        Result<i64, PasteError>)
        requires
            old(db).wf(),
        ensures
            final(db).wf(),
            match res {
                Ok(id) => {
                    &&& created(
                        old(db)@,
                        final(db)@,
                        id as int,
                        content.deep_view(),
                        signature@,
                    )
                    &&& 0 <= id < key_space(2 * (KEY_LENGTH as nat))
                    &&& can_find(
                        old(db).id_column(),
                        KEY_LENGTH as nat,
                        probe_budget(KEY_LENGTH as nat, PATIENCE),
                        id as int,
                    )
                    &&& primary_full(old(db).id_column(), KEY_LENGTH as nat) ==> key_space(
                        KEY_LENGTH as nat,
                    ) <= id
                    &&& final(db).id_column() == old(db).id_column().push(id)
                },
                Err(e) => {
                    &&& e == PasteError::NoFreeKey || e == PasteError::ClockOutOfRange
                    &&& e == PasteError::NoFreeKey ==> can_miss(
                        old(db).id_column(),
                        KEY_LENGTH as nat,
                        probe_budget(KEY_LENGTH as nat, PATIENCE),
                    )
                    &&& *final(db) == *old(db)
                },
            },
    {
        Paste::create_with(db, KEY_LENGTH, PATIENCE, content, signature)
    }

    /// The paste stored under `id`, with this fetch counted among its views;
    /// `Ok(None)` when there is none.
    ///
    /// The view is counted in the table before the content is read: a row
    /// whose content is not readable gains a view all the same.
    pub fn fetch(db: &mut PasteTable, id: i64) -> (res: Result<Option<Paste>, PasteError>)
        requires
            old(db).wf(),
        ensures
            final(db).wf(),
            outcome_view(res) == fetch_outcome(old(db)@, id as int),
            final(db)@ == after_fetch(old(db)@, id as int),
            final(db).id_column() == old(db).id_column(),
            !old(db)@.contains_key(id as int) ==> *final(db) == *old(db),
            res matches Ok(Some(paste)) ==> paste.id == id,
    {
        proof {
            db.lemma_ids_are_keys();
        }
        let row: Option<RawPaste> = db.select(id);
        if row.is_some() {
            match db.increment_views(id) {
                Err(e) => {
                    return Err(e);
                },
                Ok(_) => {},
            }
        }
        Paste::fetched(row)
    }
}

} // verus!
