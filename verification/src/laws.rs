//! What holds of every run of creates and fetches, and of every key search.

use crate::error::PasteError;
use crate::keys::{
    all_collide, can_find, candidate, collides, finds, is_free, key_space,
    lemma_candidate_in_span, lemma_found_key, lemma_key_space_grows, lemma_key_space_limit,
    primary_full, settles_at,
};
use crate::utils::{draw_for, lemma_draw_for};
use crate::paste::{
    after_fetch, created, fetch_outcome, with_view_added, PasteView, RawPasteView,
};
use vstd::prelude::*;

verus! {

/// In a run of creates, the create numbered `k` leads from `states[k]` to
/// `states[k + 1]` and returns `ids[k]`.
pub open spec fn is_create_step(
    states: Seq<Map<int, RawPasteView>>,
    ids: Seq<int>,
    contents: Seq<Seq<(Seq<char>, Seq<char>)>>,
    signatures: Seq<Seq<char>>,
    k: int,
) -> bool {
    created(states[k], states[k + 1], ids[k], contents[k], signatures[k])
}

/// A run of creates, one after the other: `states` are the stores before,
/// between and after them, `ids` what they returned.
pub open spec fn is_create_run(
    states: Seq<Map<int, RawPasteView>>,
    ids: Seq<int>,
    contents: Seq<Seq<(Seq<char>, Seq<char>)>>,
    signatures: Seq<Seq<char>>,
) -> bool {
    &&& states.len() == ids.len() + 1
    &&& contents.len() == ids.len()
    &&& signatures.len() == ids.len()
    &&& forall|k: int|
        0 <= k < ids.len() ==> #[trigger] is_create_step(states, ids, contents, signatures, k)
}

/// In a run of creates, what an earlier create returned is in use at every
/// later point.
proof fn lemma_created_ids_stay(
    states: Seq<Map<int, RawPasteView>>,
    ids: Seq<int>,
    contents: Seq<Seq<(Seq<char>, Seq<char>)>>,
    signatures: Seq<Seq<char>>,
    earlier: int,
    later: int,
)
    requires
        is_create_run(states, ids, contents, signatures),
        0 <= earlier < later <= ids.len(),
    ensures
        states[later].contains_key(ids[earlier]),
    decreases later - earlier,
{
    assert(is_create_step(states, ids, contents, signatures, later - 1));
    if earlier < later - 1 {
        lemma_created_ids_stay(states, ids, contents, signatures, earlier, later - 1);
    }
}

/// Uniqueness: the ids that a run of creates returns differ from one
/// another.
pub proof fn law_created_ids_differ(
    states: Seq<Map<int, RawPasteView>>,
    ids: Seq<int>,
    contents: Seq<Seq<(Seq<char>, Seq<char>)>>,
    signatures: Seq<Seq<char>>,
)
    requires
        is_create_run(states, ids, contents, signatures),
    ensures
        forall|i: int, j: int| 0 <= i < j < ids.len() ==> ids[i] != ids[j],
{
    assert forall|i: int, j: int| 0 <= i < j < ids.len() implies ids[i] != ids[j] by {
        lemma_created_ids_stay(states, ids, contents, signatures, i, j);
        assert(is_create_step(states, ids, contents, signatures, j));
    }
}

/// Round trip: the fetch that follows a create returns the content that was
/// handed to the create, pair for pair and in the same order, together with
/// the signature, the id and one view.
pub proof fn law_fetch_returns_created(
    before: Map<int, RawPasteView>,
    after: Map<int, RawPasteView>,
    id: int,
    content: Seq<(Seq<char>, Seq<char>)>,
    signature: Seq<char>,
)
    requires
        created(before, after, id, content, signature),
    ensures
        fetch_outcome(after, id) == Ok::<Option<PasteView>, PasteError>(
            Some(
                PasteView {
                    id,
                    content,
                    signature,
                    views: 1,
                    timestamp: after[id].timestamp,
                },
            ),
        ),
{
}

/// The store after `count` fetches of `id`, one after the other.
pub open spec fn after_fetches(store: Map<int, RawPasteView>, id: int, count: nat) -> Map<
    int,
    RawPasteView,
>
    decreases count,
{
    if count == 0 {
        store
    } else {
        after_fetch(after_fetches(store, id, (count - 1) as nat), id)
    }
}

/// What the fetch numbered `nth` of a run of fetches of `id` returns, the
/// first being numbered one.
pub open spec fn nth_fetch_outcome(store: Map<int, RawPasteView>, id: int, nth: nat) -> Result<
    Option<PasteView>,
    PasteError,
> {
    fetch_outcome(after_fetches(store, id, (nth - 1) as nat), id)
}

/// A run of fetches of `id` changes the view counter under `id` and nothing
/// else.
proof fn lemma_fetches_count(store: Map<int, RawPasteView>, id: int, count: nat)
    requires
        store.contains_key(id),
        store[id].views + count <= i64::MAX,
    ensures
        after_fetches(store, id, count) == store.insert(
            id,
            RawPasteView { views: store[id].views + count, ..store[id] },
        ),
    decreases count,
{
    if count == 0 {
        assert(store.insert(id, RawPasteView { views: store[id].views + 0, ..store[id] })
            =~= store);
    } else {
        lemma_fetches_count(store, id, (count - 1) as nat);
        let earlier: Map<int, RawPasteView> = after_fetches(store, id, (count - 1) as nat);
        assert(earlier.insert(id, with_view_added(earlier[id])) =~= store.insert(
            id,
            RawPasteView { views: store[id].views + count, ..store[id] },
        ));
    }
}

/// View monotonicity: of `count` fetches of a stored id, one after the other,
/// the one numbered `nth` returns the paste with `nth` views more than were
/// stored before the first, and all of them together leave the store as it
/// was but for that counter.
///
/// This holds where the counter has room for `count` more views and the
/// stored content is readable.
pub proof fn law_views_count_fetches(
    store: Map<int, RawPasteView>,
    id: int,
    count: nat,
    nth: nat,
)
    requires
        store.contains_key(id),
        store[id].views + count <= i64::MAX,
        crate::codec::json_pairs(store[id].content) is Some,
        1 <= nth <= count,
    ensures
        nth_fetch_outcome(store, id, nth) matches Ok(Some(paste)) && paste == (PasteView {
            id: store[id].id,
            content: crate::codec::json_pairs(store[id].content)->0,
            signature: store[id].signature,
            views: store[id].views + nth,
            timestamp: store[id].timestamp,
        }),
        after_fetches(store, id, count) == store.insert(
            id,
            RawPasteView { views: store[id].views + count, ..store[id] },
        ),
{
    lemma_fetches_count(store, id, count);
    lemma_fetches_count(store, id, (nth - 1) as nat);
}

/// Not-found stability: every fetch of an id under which nothing is stored
/// returns nothing, and the store stays as it was.
pub proof fn law_absent_stays_absent(store: Map<int, RawPasteView>, id: int, count: nat)
    requires
        !store.contains_key(id),
    ensures
        after_fetches(store, id, count) == store,
        fetch_outcome(after_fetches(store, id, count), id) == Ok::<Option<PasteView>, PasteError>(
            None,
        ),
    decreases count,
{
    if count > 0 {
        law_absent_stays_absent(store, id, (count - 1) as nat);
    }
}

/// A search returns one key or none: on the same ids and the same draws it
/// cannot return two different keys, nor return a key and collide throughout.
pub proof fn law_search_returns_one_key(
    ids: Seq<i64>,
    length: nat,
    draws: Seq<u64>,
    first: int,
    second: int,
)
    requires
        finds(ids, length, draws, first),
        finds(ids, length, draws, second),
    ensures
        first == second,
        !all_collide(ids, length, draws, draws.len() as int),
{
    let a: int = choose|attempt: int| #[trigger]
        settles_at(ids, length, draws, attempt) && first == candidate(
            length,
            attempt,
            draws[attempt],
        );
    let b: int = choose|attempt: int| #[trigger]
        settles_at(ids, length, draws, attempt) && second == candidate(
            length,
            attempt,
            draws[attempt],
        );
    if a < b {
        assert(collides(ids, length, draws, a));
    }
    if b < a {
        assert(collides(ids, length, draws, b));
    }
    if all_collide(ids, length, draws, draws.len() as int) {
        assert(collides(ids, length, draws, a));
    }
}

/// Exhaustion of the primary key space: where every key of the primary space
/// is in use, a search spends all its primary attempts on collisions, and what
/// it returns is a free key of the fallback space that lies beyond the primary
/// one.
pub proof fn law_full_primary_falls_back(
    ids: Seq<i64>,
    length: nat,
    draws: Seq<u64>,
    id: int,
)
    requires
        primary_full(ids, length),
        finds(ids, length, draws, id),
    ensures
        is_free(ids, id),
        key_space(length) <= id < key_space(2 * length),
        key_space(length) < draws.len(),
        all_collide(ids, length, draws, key_space(length)),
{
    lemma_found_key(ids, length, draws, id);
    let attempt: int = choose|attempt: int| #[trigger]
        settles_at(ids, length, draws, attempt) && id == candidate(
            length,
            attempt,
            draws[attempt],
        );
    lemma_candidate_in_span(length, attempt, draws[attempt]);
    assert forall|j: int| 0 <= j < key_space(length) implies #[trigger] collides(
        ids,
        length,
        draws,
        j,
    ) by {
        lemma_candidate_in_span(length, j, draws[j]);
    }
}

/// Every free key of the primary space is what some search returns at its
/// first attempt.
pub proof fn law_free_primary_key_can_be_found(ids: Seq<i64>, length: nat, id: int)
    requires
        length <= 15,
        0 <= id < key_space(length),
        is_free(ids, id),
    ensures
        can_find(ids, length, 1, id),
{
    lemma_key_space_limit(length);
    let span: int = key_space(length);
    lemma_draw_for(id, span);
    let draws: Seq<u64> = seq![draw_for(id, span) as u64];
    assert(candidate(length, 0, draws[0]) == id);
    assert(settles_at(ids, length, draws, 0));
    assert(finds(ids, length, draws, id));
}

/// Exhaustion of the primary key space, the other way round: where a key of
/// the primary space is in use, as all of them are once that space is full,
/// every free key of the fallback space is what some search returns, at the
/// first attempt after the primary ones.
pub proof fn law_free_fallback_key_can_be_found(
    ids: Seq<i64>,
    length: nat,
    taken: int,
    id: int,
)
    requires
        length <= 7,
        0 <= taken < key_space(length),
        !is_free(ids, taken),
        0 <= id < key_space(2 * length),
        is_free(ids, id),
    ensures
        can_find(ids, length, key_space(length) + 1, id),
{
    lemma_key_space_limit(length);
    lemma_key_space_limit(2 * length);
    lemma_key_space_grows(length, 2 * length);
    let primary: int = key_space(length);
    let fallback: int = key_space(2 * length);
    lemma_draw_for(taken, primary);
    lemma_draw_for(id, fallback);
    let miss: u64 = draw_for(taken, primary) as u64;
    let hit: u64 = draw_for(id, fallback) as u64;
    let draws: Seq<u64> = Seq::new(
        (primary + 1) as nat,
        |k: int|
            if k < primary {
                miss
            } else {
                hit
            },
    );
    assert forall|j: int| 0 <= j < primary implies #[trigger] collides(ids, length, draws, j) by {
        assert(draws[j] == miss);
        assert(candidate(length, j, draws[j]) == taken);
    }
    assert(draws[primary] == hit);
    assert(candidate(length, primary, draws[primary]) == id);
    assert(settles_at(ids, length, draws, primary));
    assert(finds(ids, length, draws, id));
}

} // verus!
