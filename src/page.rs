//! Turning the distance of a guess into points.

use vstd::prelude::*;

use crate::db::{update_outcome, update_result, Store};
use crate::error::AppError;
use crate::session::Claims;

verus! {

/// The score of a perfect guess: the highest score there is.
pub const MAX_SCORE: i32 = 5000;

/// Meters of distance that cost one point.
pub const METERS_PER_POINT: u64 = 1000;

/// Points for a guess that missed by `meters`: one point is lost for every
/// whole kilometer, down to a floor of zero.
pub open spec fn score_for(meters: nat) -> int {
    let lost = meters / (METERS_PER_POINT as nat);
    if lost >= MAX_SCORE {
        0
    } else {
        MAX_SCORE - lost
    }
}

/// A guess that is farther away never scores more than a closer one.
pub proof fn lemma_score_monotone(closer: nat, farther: nat)
    requires
        closer <= farther,
    ensures
        score_for(closer) >= score_for(farther),
{
    assert(closer / 1000 <= farther / 1000) by (nonlinear_arith)
        requires
            closer <= farther,
    ;
}

/// A distance of zero earns the maximum, and no distance earns more.
pub proof fn lemma_score_maximum(meters: nat)
    ensures
        score_for(0) == MAX_SCORE,
        0 <= score_for(meters) <= score_for(0),
{
}

/// The distance between a guess and the true city, rounded for display.
pub struct DistancePage {
    pub distance: String,
}

impl DistancePage {
    /// Points for a guess that missed the city by `distance_m` meters.
    pub fn calculate_score(distance_m: u64) -> (r: i32)
        ensures
            r as int == score_for(distance_m as nat),
            0 <= r <= MAX_SCORE,
    {
        let lost = distance_m / METERS_PER_POINT;
        if lost >= MAX_SCORE as u64 {
            0
        } else {
            MAX_SCORE - lost as i32
        }
    }
}


/// Scores a logged-in user's guess that missed the city by `distance_m`
/// meters, and adds the points to the user's total, reranking everyone.
/// Returns the points; on failure the table is unchanged.
pub fn score_guess(store: &mut Store, claims: &Claims, distance_m: u64) -> (r: Result<i32, AppError>)
    ensures
        ({
            let points = score_for(distance_m as nat);
            &&& final(store)@ == update_result(old(store)@, claims.id, points as u32)
            &&& match update_outcome(old(store)@, claims.id, points as u32) {
                Ok(_) => r == Ok::<i32, AppError>(points as i32),
                Err(e) => r == Err::<i32, AppError>(e),
            }
        }),
{
    let points = DistancePage::calculate_score(distance_m);
    match store.update_score(points as u32, claims.id) {
        Ok(()) => Ok(points),
        Err(e) => Err(e),
    }
}

} // verus!
