//! The guarantees the operations give beyond their own contracts: proofs
//! relating the mapping, the listings and the store operations.

use vstd::prelude::*;

use crate::model::{RowView, VoteInputView, VoteView, spec_build, spec_row_of_input};
use crate::resolvers::{spec_near, spec_upcoming, spec_within};
use crate::store::{StoreView, lemma_find_index_char, lemma_find_index_spec, spec_find_index};

verus! {

proof fn lemma_contains_push(s: Seq<VoteView>, x: VoteView, v: VoteView)
    requires
        s.contains(v),
    ensures
        s.push(x).contains(v),
{
    let w = choose|w: int| 0 <= w < s.len() && s[w] == v;
    assert(s.push(x)[w] == v);
}

/// A row with no stored location name maps to an opportunity with no
/// location name, never to a default; a stored name passes through
/// unchanged.
pub proof fn lemma_location_name_preserved(r: RowView)
    ensures
        spec_build(r).location.name is None <==> r.location_name is None,
        spec_build(r).location.name == r.location_name,
{
}

/// The upcoming listing excludes every opportunity dated before `now` and
/// includes every row dated at or after it — inclusive at equality.
pub proof fn lemma_upcoming_filter(rows: Seq<RowView>, now: int)
    ensures
        forall|k: int|
            0 <= k < spec_upcoming(rows, now).len() ==> #[trigger] spec_upcoming(rows, now)[k].date
                >= now,
        forall|i: int|
            0 <= i < rows.len() && #[trigger] rows[i].date >= now ==> spec_upcoming(
                rows,
                now,
            ).contains(spec_build(rows[i])),
    decreases rows.len(),
{
    if rows.len() == 0 {
    } else {
        lemma_upcoming_filter(rows.drop_last(), now);
        let rest = spec_upcoming(rows.drop_last(), now);
        let full = spec_upcoming(rows, now);
        assert forall|k: int| 0 <= k < full.len() implies #[trigger] full[k].date >= now by {
            if rows.last().date >= now {
                if k < rest.len() {
                    assert(full[k] == rest[k]);
                } else {
                    assert(full[k] == spec_build(rows.last()));
                }
            } else {
                assert(full[k] == rest[k]);
            }
        }
        assert forall|i: int|
            0 <= i < rows.len() && #[trigger] rows[i].date >= now implies full.contains(
            spec_build(rows[i]),
        ) by {
            if i < rows.len() - 1 {
                assert(rows.drop_last()[i] == rows[i]);
                assert(rest.contains(spec_build(rows[i])));
                if rows.last().date >= now {
                    lemma_contains_push(rest, spec_build(rows.last()), spec_build(rows[i]));
                }
            } else {
                assert(full.last() == spec_build(rows.last()));
                assert(full.contains(spec_build(rows[i])));
            }
        }
    }
}

/// Everything the proximity listing keeps comes from its candidate list:
/// listing near a point never invents an opportunity.
pub proof fn lemma_near_subset(cands: Seq<VoteView>, dists: Seq<Option<u64>>, radius_key: u64)
    requires
        dists.len() == cands.len(),
    ensures
        forall|k: int|
            0 <= k < spec_near(cands, dists, radius_key).len() ==> cands.contains(
                #[trigger] spec_near(cands, dists, radius_key)[k],
            ),
    decreases cands.len(),
{
    if cands.len() == 0 {
    } else {
        lemma_near_subset(cands.drop_last(), dists.drop_last(), radius_key);
        let rest = spec_near(cands.drop_last(), dists.drop_last(), radius_key);
        let full = spec_near(cands, dists, radius_key);
        assert forall|k: int| 0 <= k < full.len() implies cands.contains(#[trigger] full[k]) by {
            if k < rest.len() {
                assert(full[k] == rest[k]);
                assert(cands.drop_last().contains(rest[k]));
                let w = choose|w: int|
                    0 <= w < cands.drop_last().len() && cands.drop_last()[w] == rest[k];
                assert(cands[w] == full[k]);
            } else {
                assert(full[k] == cands.last());
                assert(cands[cands.len() - 1] == full[k]);
            }
        }
    }
}

/// The proximity listing over the upcoming candidates is a subset of the
/// upcoming listing.
pub proof fn lemma_near_point_subset_of_upcoming(
    rows: Seq<RowView>,
    now: int,
    dists: Seq<Option<u64>>,
    radius_key: u64,
)
    requires
        dists.len() == spec_upcoming(rows, now).len(),
    ensures
        forall|k: int|
            0 <= k < spec_near(spec_upcoming(rows, now), dists, radius_key).len() ==> spec_upcoming(
                rows,
                now,
            ).contains(#[trigger] spec_near(spec_upcoming(rows, now), dists, radius_key)[k]),
{
    lemma_near_subset(spec_upcoming(rows, now), dists, radius_key);
}

/// Widening the radius never drops a result: everything within the smaller
/// radius is listed within the larger one too.
pub proof fn lemma_near_monotonic(
    cands: Seq<VoteView>,
    dists: Seq<Option<u64>>,
    r1: u64,
    r2: u64,
)
    requires
        dists.len() == cands.len(),
        r1 <= r2,
    ensures
        forall|v: VoteView| #[trigger]
            spec_near(cands, dists, r1).contains(v) ==> spec_near(cands, dists, r2).contains(v),
    decreases cands.len(),
{
    if cands.len() == 0 {
    } else {
        lemma_near_monotonic(cands.drop_last(), dists.drop_last(), r1, r2);
        let rest1 = spec_near(cands.drop_last(), dists.drop_last(), r1);
        let rest2 = spec_near(cands.drop_last(), dists.drop_last(), r2);
        let s1 = spec_near(cands, dists, r1);
        let s2 = spec_near(cands, dists, r2);
        assert forall|v: VoteView| #[trigger] s1.contains(v) implies s2.contains(v) by {
            let w = choose|w: int| 0 <= w < s1.len() && s1[w] == v;
            if spec_within(dists.last(), r1) {
                assert(spec_within(dists.last(), r2));
                if w < rest1.len() {
                    assert(rest1[w] == v);
                    assert(rest1.contains(v));
                    assert(rest2.contains(v));
                    lemma_contains_push(rest2, cands.last(), v);
                } else {
                    assert(v == cands.last());
                    assert(s2.last() == v);
                    assert(s2.contains(v));
                }
            } else {
                assert(rest1[w] == v);
                assert(rest1.contains(v));
                assert(rest2.contains(v));
                if spec_within(dists.last(), r2) {
                    lemma_contains_push(rest2, cands.last(), v);
                }
            }
        }
    }
}

/// What `NotFound` means: the identifier search lands past the rows exactly
/// when no row carries the identifier — so fetch and delete fail with
/// `NotFound` on precisely the absent identifiers.
pub proof fn lemma_not_found_means_absent(rows: Seq<RowView>, id: int)
    ensures
        spec_find_index(rows, id) == rows.len() <==> (forall|k: int|
            0 <= k < rows.len() ==> #[trigger] rows[k].id != id),
{
    lemma_find_index_spec(rows, id);
    if forall|k: int| 0 <= k < rows.len() ==> #[trigger] rows[k].id != id {
        lemma_find_index_char(rows, id, rows.len() as int);
    }
}

/// A created opportunity is read back as stored: its assigned identifier is
/// fresh, looking it up finds exactly the inserted row, and that row
/// carries the input's fields — the tags in their given order.
pub proof fn lemma_create_then_get(s: StoreView, input: VoteInputView)
    requires
        s.wf(),
        s.next_id < i32::MAX as int,
    ensures
        ({
            let row = spec_row_of_input(input, s.next_id);
            let rows2 = s.rows.push(row);
            &&& spec_find_index(s.rows, s.next_id) == s.rows.len()
            &&& spec_find_index(rows2, s.next_id) == s.rows.len()
            &&& rows2[spec_find_index(rows2, s.next_id)] == row
            &&& spec_build(row).tags == input.tags
            &&& spec_build(row).title == input.title
            &&& spec_build(row).location.name == input.location_name
            &&& spec_build(row).date == input.date
        }),
{
    let row = spec_row_of_input(input, s.next_id);
    let rows2 = s.rows.push(row);
    assert forall|k: int| 0 <= k < s.rows.len() implies rows2[k].id != s.next_id by {
        assert(rows2[k] == s.rows[k]);
        assert(s.rows[k].id < s.next_id);
    }
    lemma_find_index_char(s.rows, s.next_id, s.rows.len() as int);
    assert(rows2[s.rows.len() as int].id == s.next_id);
    lemma_find_index_char(rows2, s.next_id, s.rows.len() as int);
}

/// Deleting an opportunity removes the only row carrying its identifier:
/// a second lookup or delete of the same identifier finds nothing.
pub proof fn lemma_delete_then_not_found(s: StoreView, id: int)
    requires
        s.wf(),
        spec_find_index(s.rows, id) < s.rows.len(),
    ensures
        ({
            let rows2 = s.rows.remove(spec_find_index(s.rows, id));
            spec_find_index(rows2, id) == rows2.len()
        }),
{
    let fi = spec_find_index(s.rows, id);
    lemma_find_index_spec(s.rows, id);
    let rows2 = s.rows.remove(fi);
    s.rows.remove_ensures(fi);
    assert forall|k: int| 0 <= k < rows2.len() implies rows2[k].id != id by {
        if k < fi {
            assert(rows2[k] == s.rows[k]);
        } else {
            assert(rows2[k] == s.rows[k + 1]);
            assert(s.rows[k + 1].id != s.rows[fi].id);
        }
    }
    lemma_find_index_char(rows2, id, rows2.len() as int);
}

} // verus!
