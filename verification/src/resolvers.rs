//! The operations the API exposes: version, upcoming listings, proximity
//! listings, fetch by identifier, create, delete.
//!
//! Distance is not computed here: coordinates are opaque doubles, and the
//! geodesic computation is floating point, which this layer cannot hold.
//! The caller computes, for each upcoming candidate, an order key of its
//! distance from the query point (`None` when the computation does not
//! converge) and an order key of the radius, both on one order-preserving
//! scale; this layer makes every decision from those keys.

use vstd::prelude::*;

use crate::clock::now_utc_micros;
use crate::model::{ApiError, RowView, Vote, VoteInput, VoteView, spec_build, spec_row_of_input};
use crate::store::{Store, spec_find_index};

verus! {

/// The upcoming listing as a mathematical function: the rows dated at or
/// after `now`, in stored order, each mapped to its opportunity.
pub open spec fn spec_upcoming(rows: Seq<RowView>, now: int) -> Seq<VoteView>
    decreases rows.len(),
{
    if rows.len() == 0 {
        Seq::empty()
    } else {
        let rest = spec_upcoming(rows.drop_last(), now);
        if rows.last().date >= now {
            rest.push(spec_build(rows.last()))
        } else {
            rest
        }
    }
}

/// Whether a distance outcome lies within the radius: the computation
/// converged and its key is at most the radius key. A candidate whose
/// distance is unavailable is never within any radius.
pub open spec fn spec_within(dist: Option<u64>, radius_key: u64) -> bool {
    dist matches Some(k) && k <= radius_key
}

/// The proximity listing as a mathematical function: the candidates whose
/// distance outcome lies within the radius, in candidate order.
pub open spec fn spec_near(cands: Seq<VoteView>, dists: Seq<Option<u64>>, radius_key: u64) -> Seq<
    VoteView,
>
    recommends
        dists.len() == cands.len(),
    decreases cands.len(),
{
    if cands.len() == 0 {
        Seq::empty()
    } else {
        let rest = spec_near(cands.drop_last(), dists.drop_last(), radius_key);
        if spec_within(dists.last(), radius_key) {
            rest.push(cands.last())
        } else {
            rest
        }
    }
}

/// The fixed version string of the API.
pub fn api_version() -> (r: &'static str)
    ensures
        r@ == "1.0"@,
{
    "1.0"
}

/// Lists the opportunities dated at or after `now` (inclusive at equality),
/// in stored order.
pub fn votes_at(store: &Store, now: i64) -> (r: Vec<Vote>)
    ensures
        r.deep_view() == spec_upcoming(store@.rows, now as int),
{
    let mut out: Vec<Vote> = Vec::new();
    let n = store.rows.len();
    let mut i: usize = 0;
    proof {
        assert(out.deep_view() =~= spec_upcoming(store@.rows.take(0), now as int));
    }
    while i < n
        invariant
            n == store.rows.len(),
            i <= n,
            out.deep_view() == spec_upcoming(store@.rows.take(i as int), now as int),
        decreases n - i,
    {
        let ghost prefix = out.deep_view();
        if store.rows[i].date >= now {
            out.push(Vote::build(store.rows[i].clone()));
        }
        i = i + 1;
        proof {
            assert(store@.rows.take(i as int).drop_last() =~= store@.rows.take(i - 1));
            assert(store@.rows.take(i as int).last() == store@.rows[i - 1]);
            if store@.rows[i - 1].date >= now as int {
                assert(out.deep_view() =~= prefix.push(spec_build(store@.rows[i - 1])));
            }
        }
    }
    proof {
        assert(store@.rows.take(n as int) =~= store@.rows);
    }
    out
}

/// Lists the opportunities dated at or after the current UTC instant.
pub fn votes(store: &Store) -> (r: Vec<Vote>)
    ensures
        exists|now: int| r.deep_view() == spec_upcoming(store@.rows, now),
{
    let now = now_utc_micros();
    let r = votes_at(store, now);
    proof {
        assert(r.deep_view() == spec_upcoming(store@.rows, now as int));
    }
    r
}

/// Keeps the candidates whose distance outcome lies within the radius, in
/// candidate order; a candidate whose distance did not converge is dropped.
/// `dists[i]` is the distance outcome for `cands[i]`.
pub fn filter_within(cands: &Vec<Vote>, dists: &Vec<Option<u64>>, radius_key: u64) -> (r: Vec<
    Vote,
>)
    requires
        dists@.len() == cands@.len(),
    ensures
        r.deep_view() == spec_near(cands.deep_view(), dists@, radius_key),
{
    let mut out: Vec<Vote> = Vec::new();
    let n = cands.len();
    let mut i: usize = 0;
    proof {
        assert(out.deep_view() =~= spec_near(
            cands.deep_view().take(0),
            dists@.take(0),
            radius_key,
        ));
    }
    while i < n
        invariant
            n == cands.len(),
            dists@.len() == cands@.len(),
            i <= n,
            out.deep_view() == spec_near(
                cands.deep_view().take(i as int),
                dists@.take(i as int),
                radius_key,
            ),
        decreases n - i,
    {
        let ghost prefix = out.deep_view();
        let keep = match dists[i] {
            Some(k) => k <= radius_key,
            None => false,
        };
        if keep {
            out.push(cands[i].clone());
        }
        i = i + 1;
        proof {
            assert(cands.deep_view().take(i as int).drop_last() =~= cands.deep_view().take(
                i - 1,
            ));
            assert(dists@.take(i as int).drop_last() =~= dists@.take(i - 1));
            assert(cands.deep_view().take(i as int).last() == cands.deep_view()[i - 1]);
            assert(dists@.take(i as int).last() == dists@[i - 1]);
            if spec_within(dists@[i - 1], radius_key) {
                assert(out.deep_view() =~= prefix.push(cands.deep_view()[i - 1]));
            }
        }
    }
    proof {
        assert(cands.deep_view().take(n as int) =~= cands.deep_view());
        assert(dists@.take(n as int) =~= dists@);
    }
    out
}

/// Lists the upcoming opportunities within the radius of a point: the
/// upcoming candidates are computed first, then each is kept exactly when
/// its distance outcome lies within the radius. `dists[i]` is the caller's
/// distance outcome for the `i`-th upcoming candidate.
pub fn opportunities_near_me(store: &Store, now: i64, dists: &Vec<Option<u64>>, radius_key: u64) -> (r: Vec<Vote>)
    requires
        dists@.len() == spec_upcoming(store@.rows, now as int).len(),
    ensures
        r.deep_view() == spec_near(spec_upcoming(store@.rows, now as int), dists@, radius_key),
{
    let cands = votes_at(store, now);
    filter_within(&cands, dists, radius_key)
}

/// Fetches the one opportunity carrying `id`; `NotFound` exactly when no
/// row does.
pub fn vote(store: &Store, id: i32) -> (r: Result<Vote, ApiError>)
    ensures
        spec_find_index(store@.rows, id as int) < store@.rows.len() ==> {
            &&& r is Ok
            &&& r->Ok_0@ == spec_build(store@.rows[spec_find_index(store@.rows, id as int)])
        },
        spec_find_index(store@.rows, id as int) == store@.rows.len() ==> {
            &&& r is Err
            &&& r->Err_0 == ApiError::NotFound
        },
{
    match store.load_one(id) {
        Ok(row) => Ok(Vote::build(row)),
        Err(e) => Err(e),
    }
}

/// Creates one opportunity: the store assigns the identifier and the
/// created opportunity is returned as stored, fields passed through
/// unchanged. Fails only when the identifier space is exhausted.
pub fn create_vote(store: &mut Store, new_vote: VoteInput) -> (r: Result<Vote, ApiError>)
    requires
        old(store).wf(),
    ensures
        final(store).wf(),
        old(store)@.next_id < i32::MAX as int ==> {
            &&& r is Ok
            &&& r->Ok_0@ == spec_build(
                spec_row_of_input(new_vote@, old(store)@.next_id),
            )
            &&& final(store)@.rows == old(store)@.rows.push(
                spec_row_of_input(new_vote@, old(store)@.next_id),
            )
            &&& final(store)@.next_id == old(store)@.next_id + 1
        },
        old(store)@.next_id == i32::MAX as int ==> {
            &&& r is Err
            &&& r->Err_0 == ApiError::PersistenceError
            &&& final(store)@ == old(store)@
        },
{
    match store.insert(new_vote) {
        Ok(row) => Ok(Vote::build(row)),
        Err(e) => Err(e),
    }
}

/// Deletes the one opportunity carrying `id` and returns its prior
/// representation; `NotFound` exactly when no row does, and then the store
/// is unchanged.
pub fn delete_vote(store: &mut Store, id: i32) -> (r: Result<Vote, ApiError>)
    requires
        old(store).wf(),
    ensures
        final(store).wf(),
        spec_find_index(old(store)@.rows, id as int) < old(store)@.rows.len() ==> {
            &&& r is Ok
            &&& r->Ok_0@ == spec_build(
                old(store)@.rows[spec_find_index(old(store)@.rows, id as int)],
            )
            &&& final(store)@.rows == old(store)@.rows.remove(
                spec_find_index(old(store)@.rows, id as int),
            )
            &&& final(store)@.next_id == old(store)@.next_id
        },
        spec_find_index(old(store)@.rows, id as int) == old(store)@.rows.len() ==> {
            &&& r is Err
            &&& r->Err_0 == ApiError::NotFound
            &&& final(store)@ == old(store)@
        },
{
    match store.delete_where(id) {
        Ok(row) => Ok(Vote::build(row)),
        Err(e) => Err(e),
    }
}

} // verus!
