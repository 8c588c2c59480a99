//! The Score Normalizer: rewrites every rating's normalized score as the
//! raw score minus that user's mean raw score. A user with no ratings has
//! mean zero, so nothing is divided by zero and nothing fails.

use crate::math::{floor_div_i128, lemma_floor_div_bounds};
use crate::types::{Dataset, Rating, RatingV, UserRatingsV, RAW_SCORE_LIMIT_MILLI};
use vstd::prelude::*;

verus! {

/// The sum of the raw scores of a rating sequence.
pub open spec fn sum_raw(rs: Seq<RatingV>) -> int
    decreases rs.len(),
{
    if rs.len() == 0 {
        0
    } else {
        sum_raw(rs.drop_last()) + rs.last().raw_milli
    }
}

/// The user mean: the floor of the raw-score sum over the rating count, and
/// zero for a user with no ratings.
pub open spec fn mean_raw(rs: Seq<RatingV>) -> int {
    if rs.len() == 0 {
        0
    } else {
        sum_raw(rs) / rs.len() as int
    }
}

/// One rating after normalization against a given mean.
pub open spec fn normalize_rating(r: RatingV, mean: int) -> RatingV {
    RatingV { normalized_milli: r.raw_milli - mean, ..r }
}

/// One user after normalization: every rating rewritten against the user's
/// own mean; identifier, order, titles and raw scores untouched.
pub open spec fn normalize_user(u: UserRatingsV) -> UserRatingsV {
    UserRatingsV {
        user_id: u.user_id,
        ratings: u.ratings.map_values(|r: RatingV| normalize_rating(r, mean_raw(u.ratings))),
    }
}

/// The whole input after normalization, user by user, in order.
pub open spec fn normalize_all(users: Seq<UserRatingsV>) -> Seq<UserRatingsV> {
    users.map_values(|u: UserRatingsV| normalize_user(u))
}

/// Every raw score of the sequence lies within the fixed-point capacity.
pub open spec fn raw_bounded(rs: Seq<RatingV>) -> bool {
    forall|i: int|
        0 <= i < rs.len() ==> -RAW_SCORE_LIMIT_MILLI <= #[trigger] rs[i].raw_milli
            <= RAW_SCORE_LIMIT_MILLI
}

/// Every raw score of every user lies within the fixed-point capacity.
pub open spec fn dataset_raw_bounded(users: Seq<UserRatingsV>) -> bool {
    forall|i: int| 0 <= i < users.len() ==> raw_bounded(#[trigger] users[i].ratings)
}

/// A sum of bounded raw scores is bounded by the count times the bound.
proof fn lemma_sum_raw_bounded(rs: Seq<RatingV>)
    requires
        raw_bounded(rs),
    ensures
        -(rs.len() * RAW_SCORE_LIMIT_MILLI) <= sum_raw(rs) <= rs.len() * RAW_SCORE_LIMIT_MILLI,
    decreases rs.len(),
{
    if rs.len() > 0 {
        assert(raw_bounded(rs.drop_last()));
        lemma_sum_raw_bounded(rs.drop_last());
    }
}

/// The mean of bounded raw scores is itself bounded.
pub proof fn lemma_mean_raw_bounded(rs: Seq<RatingV>)
    requires
        raw_bounded(rs),
    ensures
        -RAW_SCORE_LIMIT_MILLI <= mean_raw(rs) <= RAW_SCORE_LIMIT_MILLI,
{
    if rs.len() > 0 {
        lemma_sum_raw_bounded(rs);
        let n = rs.len() as int;
        assert(n * RAW_SCORE_LIMIT_MILLI >= rs.len() * RAW_SCORE_LIMIT_MILLI);
        lemma_floor_div_bounds(
            sum_raw(rs),
            n,
            -RAW_SCORE_LIMIT_MILLI as int,
            RAW_SCORE_LIMIT_MILLI as int,
        );
    }
}

/// Computes a user's mean raw score in milli-units.
pub fn mean_raw_milli(ratings: &Vec<Rating>) -> (m: i64)
    requires
        raw_bounded(ratings@.map_values(|r: Rating| r@)),
    ensures
        m == mean_raw(ratings@.map_values(|r: Rating| r@)),
        -RAW_SCORE_LIMIT_MILLI <= m <= RAW_SCORE_LIMIT_MILLI,
{
    let ghost rv = ratings@.map_values(|r: Rating| r@);
    if ratings.len() == 0 {
        return 0;
    }
    let mut sum: i128 = 0;
    let mut i: usize = 0;
    while i < ratings.len()
        invariant
            rv == ratings@.map_values(|r: Rating| r@),
            raw_bounded(rv),
            0 <= i <= ratings.len(),
            rv.len() == ratings.len(),
            sum == sum_raw(rv.take(i as int)),
            -(i as int * RAW_SCORE_LIMIT_MILLI) <= sum <= i as int * RAW_SCORE_LIMIT_MILLI,
        decreases ratings.len() - i,
    {
        let raw = ratings[i].raw_milli;
        proof {
            assert(rv[i as int] == ratings@[i as int]@);
            assert(rv.take(i + 1).drop_last() =~= rv.take(i as int));
            assert(rv.take(i + 1).last() == rv[i as int]);
        }
        sum = sum + raw as i128;
        i = i + 1;
    }
    proof {
        assert(rv.take(rv.len() as int) =~= rv);
        lemma_mean_raw_bounded(rv);
    }
    let count = ratings.len();
    let m128 = floor_div_i128(sum, count as i128);
    m128 as i64
}

/// Rewrites every normalized score in place: raw score minus the user's
/// mean. Everything else about the dataset — users, order, identifiers,
/// titles, raw scores — is untouched.
pub fn normalize_scores(dataset: &mut Dataset)
    requires
        dataset_raw_bounded(old(dataset)@),
    ensures
        final(dataset)@ == normalize_all(old(dataset)@),
{
    let ghost orig = dataset@;
    let mut ui: usize = 0;
    while ui < dataset.users.len()
        invariant
            dataset_raw_bounded(orig),
            dataset.users@.len() == orig.len(),
            0 <= ui <= dataset.users@.len(),
            forall|j: int| 0 <= j < ui ==> #[trigger] dataset.users@[j]@ == normalize_user(orig[j]),
            forall|j: int| ui <= j < orig.len() ==> #[trigger] dataset.users@[j]@ == orig[j],
        decreases dataset.users.len() - ui,
    {
        proof {
            assert(dataset.users@[ui as int]@ == orig[ui as int]);
            assert(raw_bounded(orig[ui as int].ratings));
        }
        let ghost u0 = orig[ui as int];
        let mean = mean_raw_milli(&dataset.users[ui].ratings);
        let mut ri: usize = 0;
        while ri < dataset.users[ui].ratings.len()
            invariant
                dataset_raw_bounded(orig),
                dataset.users@.len() == orig.len(),
                0 <= ui < dataset.users@.len(),
                0 <= ri <= dataset.users@[ui as int].ratings@.len(),
                -RAW_SCORE_LIMIT_MILLI <= mean <= RAW_SCORE_LIMIT_MILLI,
                mean == mean_raw(u0.ratings),
                u0 == orig[ui as int],
                forall|j: int|
                    0 <= j < ui ==> #[trigger] dataset.users@[j]@ == normalize_user(orig[j]),
                forall|j: int|
                    ui < j < orig.len() ==> #[trigger] dataset.users@[j]@ == orig[j],
                dataset.users@[ui as int].user_id@ == u0.user_id,
                dataset.users@[ui as int].ratings@.len() == u0.ratings.len(),
                forall|k: int|
                    0 <= k < ri ==> #[trigger] dataset.users@[ui as int].ratings@[k]@
                        == normalize_rating(u0.ratings[k], mean_raw(u0.ratings)),
                forall|k: int|
                    ri <= k < u0.ratings.len() ==> #[trigger] dataset.users@[ui as int].ratings@[k]@
                        == u0.ratings[k],
            decreases dataset.users@[ui as int].ratings@.len() - ri,
        {
            let raw = dataset.users[ui].ratings[ri].raw_milli;
            proof {
                assert(dataset.users@[ui as int].ratings@[ri as int]@ == u0.ratings[ri as int]);
                assert(raw_bounded(u0.ratings));
                assert(
                    -RAW_SCORE_LIMIT_MILLI <= u0.ratings[ri as int].raw_milli
                        <= RAW_SCORE_LIMIT_MILLI
                );
            }
            dataset.users[ui].ratings[ri].normalized_milli = raw - mean;
            ri = ri + 1;
        }
        proof {
            let uv = dataset.users@[ui as int]@;
            let goal = normalize_user(u0);
            assert(uv.ratings =~= goal.ratings);
            assert(uv == goal);
        }
        ui = ui + 1;
    }
    proof {
        assert(dataset@ =~= normalize_all(orig));
    }
}

} // verus!
