//! The seats of a room as a sequence of `(private id, player)` entries in
//! the order they were taken.

use vstd::prelude::*;

use crate::types::{Player, Side};

verus! {

pub type Roster = Seq<(u128, Player)>;

/// No private id holds two seats.
pub open spec fn ids_unique(s: Roster) -> bool {
    forall|i: int, j: int|
        0 <= i < s.len() && 0 <= j < s.len() && (#[trigger] s[i]).0 == (#[trigger] s[j]).0 ==> i
            == j
}

/// Whether `id` holds a seat.
pub open spec fn has_id(s: Roster, id: u128) -> bool {
    exists|i: int| 0 <= i < s.len() && (#[trigger] s[i]).0 == id
}

/// The entry of the seat held by `id`, where there is one.
pub open spec fn slot_of(s: Roster, id: u128) -> int {
    choose|i: int| 0 <= i < s.len() && (#[trigger] s[i]).0 == id
}

/// The player holding the seat of `id`.
pub open spec fn player_of(s: Roster, id: u128) -> Player {
    s[slot_of(s, id)].1
}

/// How many seats `side` has taken.
pub open spec fn seat_count(s: Roster, side: Side) -> nat
    decreases s.len(),
{
    if s.len() == 0 {
        0
    } else {
        seat_count(s.drop_last(), side) + if s.last().1.side == side {
            1nat
        } else {
            0nat
        }
    }
}

/// The roster after the seat of `id`, if any, is given up.
pub open spec fn left(s: Roster, id: u128) -> Roster {
    if has_id(s, id) {
        s.remove(slot_of(s, id))
    } else {
        s
    }
}

pub proof fn lemma_slot_of(s: Roster, i: int)
    requires
        ids_unique(s),
        0 <= i < s.len(),
    ensures
        has_id(s, s[i].0),
        slot_of(s, s[i].0) == i,
{
    let id = s[i].0;
    assert(has_id(s, id));
    let j = slot_of(s, id);
    assert(s[j].0 == s[i].0);
}

pub proof fn lemma_seat_count_push(s: Roster, e: (u128, Player), side: Side)
    ensures
        seat_count(s.push(e), side) == seat_count(s, side) + if e.1.side == side {
            1nat
        } else {
            0nat
        },
{
    assert(s.push(e).drop_last() =~= s);
}

pub proof fn lemma_seat_count_remove(s: Roster, i: int, side: Side)
    requires
        0 <= i < s.len(),
    ensures
        seat_count(s, side) == seat_count(s.remove(i), side) + if s[i].1.side == side {
            1nat
        } else {
            0nat
        },
    decreases s.len(),
{
    if i == s.len() - 1 {
        assert(s.remove(i) =~= s.drop_last());
    } else {
        lemma_seat_count_remove(s.drop_last(), i, side);
        assert(s.remove(i).drop_last() =~= s.drop_last().remove(i));
        assert(s.remove(i).last() == s.last());
    }
}

pub proof fn lemma_unique_remove(s: Roster, i: int)
    requires
        ids_unique(s),
        0 <= i < s.len(),
    ensures
        ids_unique(s.remove(i)),
        forall|k: int| 0 <= k < s.remove(i).len() ==> (#[trigger] s.remove(i)[k]).0 != s[i].0,
{
    let r = s.remove(i);
    assert forall|a: int, b: int|
        0 <= a < r.len() && 0 <= b < r.len() && (#[trigger] r[a]).0 == (#[trigger] r[b]).0 implies a
        == b by {
        let a2 = if a < i {
            a
        } else {
            a + 1
        };
        let b2 = if b < i {
            b
        } else {
            b + 1
        };
        assert(r[a] == s[a2]);
        assert(r[b] == s[b2]);
    }
    assert forall|k: int| 0 <= k < r.len() implies (#[trigger] r[k]).0 != s[i].0 by {
        let k2 = if k < i {
            k
        } else {
            k + 1
        };
        assert(r[k] == s[k2]);
    }
}

/// The private ids of the seats, in order.
pub open spec fn ids_of(s: Roster) -> Seq<u128> {
    s.map_values(|e: (u128, Player)| e.0)
}

/// A seat taken by an id that held none keeps the ids unique and counts
/// one more seat for the joining side.
pub proof fn lemma_push_fresh(s: Roster, id: u128, p: Player, side: Side)
    requires
        ids_unique(s),
        !has_id(s, id),
    ensures
        ids_unique(s.push((id, p))),
        has_id(s.push((id, p)), id),
        player_of(s.push((id, p)), id) == p,
        seat_count(s.push((id, p)), side) == seat_count(s, side) + if p.side == side {
            1nat
        } else {
            0nat
        },
{
    let j = s.push((id, p));
    assert forall|a: int, b: int|
        0 <= a < j.len() && 0 <= b < j.len() && (#[trigger] j[a]).0 == (#[trigger] j[b]).0 implies a
        == b by {
        if a < s.len() {
            assert(j[a] == s[a]);
        }
        if b < s.len() {
            assert(j[b] == s[b]);
        }
    }
    lemma_slot_of(j, j.len() - 1);
    lemma_seat_count_push(s, (id, p), side);
}

/// Distinct values that all occur in `ids` are at most as many as `ids`.
pub proof fn lemma_distinct_within(tried: Seq<u128>, ids: Seq<u128>)
    requires
        tried.no_duplicates(),
        forall|i: int| 0 <= i < tried.len() ==> ids.contains(#[trigger] tried[i]),
    ensures
        tried.len() <= ids.len(),
{
    broadcast use vstd::seq_lib::seq_to_set_is_finite;

    tried.unique_seq_to_set();
    ids.lemma_cardinality_of_set();
    assert(tried.to_set().subset_of(ids.to_set())) by {
        assert forall|v: u128| tried.to_set().contains(v) implies ids.to_set().contains(v) by {
            let i = choose|i: int| 0 <= i < tried.len() && tried[i] == v;
            assert(ids.contains(tried[i]));
        }
    }
    vstd::set_lib::lemma_len_subset(tried.to_set(), ids.to_set());
}

/// With one seat per side, the first player to join a side fills it, so a
/// second join on that side is refused.
pub proof fn lemma_single_seat_fills_side(s: Roster, id: u128, p: Player)
    requires
        ids_unique(s),
        !has_id(s, id),
        seat_count(s, p.side) == 0,
    ensures
        seat_count(s.push((id, p)), p.side) == 1,
{
    lemma_push_fresh(s, id, p, p.side);
}

/// Leaving keeps the ids unique, removes the id, and never adds a seat.
pub proof fn lemma_left(s: Roster, id: u128, side: Side)
    requires
        ids_unique(s),
    ensures
        ids_unique(left(s, id)),
        !has_id(left(s, id), id),
        seat_count(left(s, id), side) <= seat_count(s, side),
{
    if has_id(s, id) {
        let i = slot_of(s, id);
        lemma_unique_remove(s, i);
        lemma_seat_count_remove(s, i, side);
    }
}

} // verus!
