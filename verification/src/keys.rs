//! Key allocation by random probing.
//!
//! A key of length `L` has `L` hexadecimal digits, so the primary key space
//! holds `16^L` values. A search probes the primary space `16^L` times; if every
//! probe hits a key that is in use, it goes on in the fallback space of `2 L`
//! digits, which is `16^L` times larger.

use crate::utils::{
    async_rng_range_int_big, lemma_scaled_bounds, rng_int_big_from, scaled, spread,
};
use vstd::prelude::*;

verus! {

/// The key length in use unless a caller says otherwise.
pub const KEY_LENGTH: u32 = 4;

/// The longest key length whose fallback space still fits an `i64`.
pub const MAX_KEY_LENGTH: u32 = 7;

/// The number of keys of `length` hexadecimal digits: `16^length`.
pub open spec fn key_space(length: nat) -> int
    decreases length,
{
    if length == 0 {
        1
    } else {
        16 * key_space((length - 1) as nat)
    }
}

/// Longer keys span more values.
pub proof fn lemma_key_space_grows(shorter: nat, longer: nat)
    requires
        shorter <= longer,
    ensures
        0 < key_space(shorter) <= key_space(longer),
    decreases longer,
{
    if longer == 0 {
    } else if shorter == longer {
        lemma_key_space_grows((shorter - 1) as nat, (longer - 1) as nat);
    } else {
        lemma_key_space_grows(shorter, (longer - 1) as nat);
    }
}

/// Keys of up to fifteen digits stay below `2^60`.
pub proof fn lemma_key_space_limit(length: nat)
    requires
        length <= 15,
    ensures
        0 < key_space(length) <= 0x1000_0000_0000_0000,
{
    lemma_key_space_grows(length, 15);
    assert(key_space(15) == 0x1000_0000_0000_0000) by {
        reveal_with_fuel(key_space, 16);
    }
}

/// Computes `16^length`.
pub fn key_space_of(length: u32) -> (space: i64)
    requires
        length <= 15,
    ensures
        space == key_space(length as nat),
        0 < space <= 0x1000_0000_0000_0000,
{
    let mut space: i64 = 1;
    let mut digits: u32 = 0;
    while digits < length
        invariant
            digits <= length <= 15,
            space == key_space(digits as nat),
        decreases length - digits,
    {
        proof {
            lemma_key_space_limit((digits + 1) as nat);
        }
        space = space * 16;
        digits = digits + 1;
    }
    proof {
        lemma_key_space_limit(length as nat);
    }
    space
}

/// No key in `ids` equals `id`.
pub open spec fn is_free(ids: Seq<i64>, id: int) -> bool {
    forall|i: int| 0 <= i < ids.len() ==> ids[i] != id
}

/// Every key of the primary space of `length` digits is in `ids`.
pub open spec fn primary_full(ids: Seq<i64>, length: nat) -> bool {
    forall|id: int| 0 <= id < key_space(length) ==> !is_free(ids, id)
}

/// No key of the primary space of `length` digits is in `ids`.
pub open spec fn primary_untouched(ids: Seq<i64>, length: nat) -> bool {
    forall|id: int| 0 <= id < key_space(length) ==> is_free(ids, id)
}

/// The size of the space that the attempt numbered `attempt` probes: the
/// primary space for the first `16^length` attempts, the fallback space after.
pub open spec fn attempt_span(length: nat, attempt: int) -> int {
    if attempt < key_space(length) {
        key_space(length)
    } else {
        key_space(2 * length)
    }
}

/// The key that the attempt numbered `attempt` probes when it draws `draw`.
pub open spec fn candidate(length: nat, attempt: int, draw: u64) -> int {
    scaled(draw, attempt_span(length, attempt))
}

/// The attempt numbered `attempt` of a search that draws `draws` hits a key
/// that is in use.
pub open spec fn collides(ids: Seq<i64>, length: nat, draws: Seq<u64>, attempt: int) -> bool {
    !is_free(ids, candidate(length, attempt, draws[attempt]))
}

/// The first `upto` attempts of a search that draws `draws` all collide.
pub open spec fn all_collide(ids: Seq<i64>, length: nat, draws: Seq<u64>, upto: int) -> bool {
    forall|j: int| 0 <= j < upto ==> #[trigger] collides(ids, length, draws, j)
}

/// A search that draws `draws` ends at the attempt numbered `attempt`: that
/// one finds a free key and all before it collide.
pub open spec fn settles_at(ids: Seq<i64>, length: nat, draws: Seq<u64>, attempt: int) -> bool {
    &&& 0 <= attempt < draws.len()
    &&& all_collide(ids, length, draws, attempt)
    &&& !collides(ids, length, draws, attempt)
}

/// A search that draws `draws` returns `id`.
pub open spec fn finds(ids: Seq<i64>, length: nat, draws: Seq<u64>, id: int) -> bool {
    exists|attempt: int| #[trigger]
        settles_at(ids, length, draws, attempt) && id == candidate(
            length,
            attempt,
            draws[attempt],
        )
}

/// Every candidate lies in the space that its attempt probes.
pub proof fn lemma_candidate_in_span(length: nat, attempt: int, draw: u64)
    ensures
        0 <= candidate(length, attempt, draw) < attempt_span(length, attempt),
        attempt_span(length, attempt) <= key_space(2 * length),
        attempt < key_space(length) ==> candidate(length, attempt, draw) < key_space(length),
{
    lemma_key_space_grows(length, 2 * length);
    lemma_scaled_bounds(draw, attempt_span(length, attempt));
}

/// Whether `id` is one of `ids`.
pub fn contains_id(ids: &Vec<i64>, id: i64) -> (found: bool)
    ensures
        found == !is_free(ids@, id as int),
{
    let mut at: usize = 0;
    while at < ids.len()
        invariant
            at <= ids.len(),
            forall|i: int| 0 <= i < at ==> ids[i] != id,
        decreases ids.len() - at,
    {
        if ids[at] == id {
            return true;
        }
        at = at + 1;
    }
    false
}

/// The key below `span` that `draw` selects.
pub fn candidate_from(draw: u64, span: i64) -> (key: i64)
    requires
        0 < span,
    ensures
        key == scaled(draw, span as int),
        0 <= key < span,
{
    rng_int_big_from(draw, span - 1)
}

/// One probe: the key below `span` that `draw` selects, unless it is in use.
pub fn probe(ids: &Vec<i64>, span: i64, draw: u64) -> (hit: Option<i64>)
    requires
        0 < span,
    ensures
        match hit {
            Some(key) => key == scaled(draw, span as int) && is_free(ids@, key as int),
            None => !is_free(ids@, scaled(draw, span as int)),
        },
{
    let key: i64 = candidate_from(draw, span);
    if contains_id(ids, key) {
        None
    } else {
        Some(key)
    }
}

/// The search on given draws: attempt `k` draws `draws[k]`, and the first free
/// candidate is returned. `None` means that every attempt collided.
pub fn search(ids: &Vec<i64>, key_length: u32, draws: &Vec<u64>) -> (found: Option<i64>)
    requires
        key_length <= MAX_KEY_LENGTH,
    ensures
        match found {
            Some(id) => finds(ids@, key_length as nat, draws@, id as int),
            None => all_collide(ids@, key_length as nat, draws@, draws.len() as int),
        },
{
    let primary: i64 = key_space_of(key_length);
    let fallback: i64 = key_space_of(2 * key_length);
    let mut attempt: usize = 0;
    while attempt < draws.len()
        invariant
            attempt <= draws.len(),
            primary == key_space(key_length as nat),
            fallback == key_space(2 * (key_length as nat)),
            0 < primary,
            0 < fallback,
            all_collide(ids@, key_length as nat, draws@, attempt as int),
        decreases draws.len() - attempt,
    {
        let span: i64 = if (attempt as u64) < (primary as u64) {
            primary
        } else {
            fallback
        };
        assert(span == attempt_span(key_length as nat, attempt as int));
        match probe(ids, span, draws[attempt]) {
            Some(id) => {
                assert(settles_at(ids@, key_length as nat, draws@, attempt as int));
                return Some(id);
            },
            None => {
                assert(collides(ids@, key_length as nat, draws@, attempt as int));
            },
        }
        attempt = attempt + 1;
    }
    None
}

/// Appending a draw leaves the earlier attempts as they were.
pub proof fn lemma_collisions_extend(ids: Seq<i64>, length: nat, draws: Seq<u64>, draw: u64)
    requires
        all_collide(ids, length, draws, draws.len() as int),
    ensures
        all_collide(ids, length, draws.push(draw), draws.len() as int),
        collides(ids, length, draws.push(draw), draws.len() as int) == !is_free(
            ids,
            candidate(length, draws.len() as int, draw),
        ),
{
    assert forall|j: int| 0 <= j < draws.len() implies #[trigger] collides(
        ids,
        length,
        draws.push(draw),
        j,
    ) by {
        assert(collides(ids, length, draws, j));
        assert(draws.push(draw)[j] == draws[j]);
    }
    assert(draws.push(draw)[draws.len() as int] == draw);
}

/// What a search can return: a free key of the fallback space, which is one of
/// the primary space while the attempts are among the first `16^length`.
pub proof fn lemma_found_key(ids: Seq<i64>, length: nat, draws: Seq<u64>, id: int)
    requires
        finds(ids, length, draws, id),
    ensures
        is_free(ids, id),
        0 <= id < key_space(2 * length),
        draws.len() <= key_space(length) ==> id < key_space(length),
        primary_full(ids, length) ==> key_space(length) <= id,
        primary_untouched(ids, length) ==> id == candidate(length, 0, draws[0]),
{
    let attempt: int = choose|attempt: int| #[trigger]
        settles_at(ids, length, draws, attempt) && id == candidate(
            length,
            attempt,
            draws[attempt],
        );
    lemma_candidate_in_span(length, attempt, draws[attempt]);
    if primary_untouched(ids, length) && attempt > 0 {
        lemma_candidate_in_span(length, 0, draws[0]);
        lemma_key_space_grows(0, length);
        assert(collides(ids, length, draws, 0));
    }
}

/// Some search of at most `budget` attempts returns `id`.
pub open spec fn can_find(ids: Seq<i64>, length: nat, budget: int, id: int) -> bool {
    exists|draws: Seq<u64>| draws.len() <= budget && #[trigger] finds(ids, length, draws, id)
}

/// Some search of `budget` attempts collides every time.
pub open spec fn can_miss(ids: Seq<i64>, length: nat, budget: int) -> bool {
    exists|draws: Seq<u64>|
        draws.len() == budget && #[trigger] all_collide(ids, length, draws, draws.len() as int)
}

/// The search on random draws: up to `16^key_length` probes of the primary
/// space, then up to `patience` probes of the fallback space. `None` means that
/// every probe collided.
///
/// The result is what [`search`] returns on the draws that were made, whatever
/// they were.
pub fn allocate(ids: &Vec<i64>, key_length: u32, patience: u64) -> (found: Option<i64>)
    requires
        key_length <= MAX_KEY_LENGTH,
    ensures
        found matches Some(id) ==> can_find(
            ids@,
            key_length as nat,
            key_space(key_length as nat) + patience,
            id as int,
        ),
        found is None ==> can_miss(
            ids@,
            key_length as nat,
            key_space(key_length as nat) + patience,
        ),
        found matches Some(id) ==> is_free(ids@, id as int) && 0 <= id < key_space(
            2 * (key_length as nat),
        ),
        found matches Some(id) ==> primary_full(ids@, key_length as nat) ==> key_space(
            key_length as nat,
        ) <= id,
        primary_untouched(ids@, key_length as nat) ==> found is Some && found->0 < key_space(
            key_length as nat,
        ),
{
    let ghost length: nat = key_length as nat;
    let primary: i64 = key_space_of(key_length);
    let fallback: i64 = key_space_of(2 * key_length);
    let ghost mut drawn: Seq<u64> = Seq::empty();
    let mut tries: i64 = 0;
    while tries < primary
        invariant
            0 <= tries <= primary,
            length == key_length as nat,
            primary == key_space(length),
            fallback == key_space(2 * length),
            0 < primary,
            0 < fallback,
            drawn.len() == tries,
            all_collide(ids@, length, drawn, drawn.len() as int),
            primary_untouched(ids@, length) ==> tries == 0,
        decreases primary - tries,
    {
        let key: i64 = async_rng_range_int_big(0, primary - 1);
        let ghost draw: u64 = choose|draw: u64|
            key == 0 + #[trigger] spread(draw, (primary - 1) - 0);
        proof {
            lemma_collisions_extend(ids@, length, drawn, draw);
            assert(key == candidate(length, drawn.len() as int, draw));
            drawn = drawn.push(draw);
        }
        if !contains_id(ids, key) {
            proof {
                assert(settles_at(ids@, length, drawn, tries as int));
                assert(finds(ids@, length, drawn, key as int));
                lemma_found_key(ids@, length, drawn, key as int);
            }
            return Some(key);
        }
        tries = tries + 1;
    }
    let mut spent: u64 = 0;
    while spent < patience
        invariant
            spent <= patience,
            length == key_length as nat,
            primary == key_space(length),
            fallback == key_space(2 * length),
            0 < primary,
            0 < fallback,
            drawn.len() == primary + spent,
            all_collide(ids@, length, drawn, drawn.len() as int),
            !primary_untouched(ids@, length),
        decreases patience - spent,
    {
        let key: i64 = async_rng_range_int_big(0, fallback - 1);
        let ghost draw: u64 = choose|draw: u64|
            key == 0 + #[trigger] spread(draw, (fallback - 1) - 0);
        proof {
            lemma_collisions_extend(ids@, length, drawn, draw);
            assert(key == candidate(length, drawn.len() as int, draw));
            drawn = drawn.push(draw);
        }
        if !contains_id(ids, key) {
            proof {
                assert(settles_at(ids@, length, drawn, primary + spent));
                assert(finds(ids@, length, drawn, key as int));
                lemma_found_key(ids@, length, drawn, key as int);
            }
            return Some(key);
        }
        spent = spent + 1;
    }
    assert(can_miss(ids@, length, primary + patience));
    None
}

} // verus!
