//! Deterministic score calculations.

use vstd::prelude::*;

use crate::time::{GameDeadline, GameTime};

verus! {

/// Maximum score awarded to an immediate correct guess.
pub const MAX_GUESS_SCORE: u32 = 500;

/// Minimum score awarded to a correct guess before the deadline.
pub const MIN_GUESS_SCORE: u32 = 50;

/// Time-weighted guess score: `500 * remaining / duration` rounded to the
/// nearest integer (with `u64` saturation of the intermediate terms) and
/// clamped to `50..=500`, where `remaining` is the time left before the
/// deadline capped at the turn duration. A zero duration scores 50.
pub open spec fn spec_guess_score(deadline: u64, now: u64, duration_ms: u64) -> u32 {
    if duration_ms == 0 {
        MIN_GUESS_SCORE
    } else {
        let left: int = if deadline >= now {
            deadline - now
        } else {
            0
        };
        let remaining: int = if left <= duration_ms {
            left
        } else {
            duration_ms as int
        };
        let product: int = if 500 * remaining > u64::MAX {
            u64::MAX as int
        } else {
            500 * remaining
        };
        let numerator: int = if product + duration_ms / 2 > u64::MAX {
            u64::MAX as int
        } else {
            product + duration_ms / 2
        };
        let rounded = numerator / (duration_ms as int);
        if rounded < 50 {
            50
        } else if rounded > 500 {
            500
        } else {
            rounded as u32
        }
    }
}

/// Calculates a time-weighted guess score with integer round-to-nearest.
pub fn guess_score(deadline: GameDeadline, now: GameTime, duration_ms: u64) -> (s: u32)
    ensures
        s == spec_guess_score(deadline.0, now.0, duration_ms),
        MIN_GUESS_SCORE <= s <= MAX_GUESS_SCORE,
{
    if duration_ms == 0 {
        return MIN_GUESS_SCORE;
    }
    let left = deadline.remaining_ms(now);
    let remaining = if left <= duration_ms {
        left
    } else {
        duration_ms
    };
    let product: u64 = if remaining > u64::MAX / 500 {
        u64::MAX
    } else {
        500 * remaining
    };
    let numerator = product.saturating_add(duration_ms / 2);
    let rounded = numerator / duration_ms;
    if rounded < MIN_GUESS_SCORE as u64 {
        MIN_GUESS_SCORE
    } else if rounded > MAX_GUESS_SCORE as u64 {
        MAX_GUESS_SCORE
    } else {
        rounded as u32
    }
}

/// Score law: a guess made later in the same turn never scores more than a
/// guess made earlier, and every score lies in `50..=500`.
pub proof fn lemma_guess_score_monotone(deadline: u64, earlier: u64, later: u64, duration_ms: u64)
    requires
        earlier <= later,
    ensures
        spec_guess_score(deadline, later, duration_ms) <= spec_guess_score(
            deadline,
            earlier,
            duration_ms,
        ),
        MIN_GUESS_SCORE <= spec_guess_score(deadline, later, duration_ms) <= MAX_GUESS_SCORE,
{
    if duration_ms > 0 {
        let d = duration_ms as int;
        let left_e: int = if deadline >= earlier {
            deadline - earlier
        } else {
            0
        };
        let left_l: int = if deadline >= later {
            deadline - later
        } else {
            0
        };
        let rem_e: int = if left_e <= d {
            left_e
        } else {
            d
        };
        let rem_l: int = if left_l <= d {
            left_l
        } else {
            d
        };
        assert(rem_l <= rem_e);
        assert(500 * rem_l <= 500 * rem_e) by (nonlinear_arith)
            requires
                rem_l <= rem_e,
        ;
        let prod_e: int = if 500 * rem_e > u64::MAX {
            u64::MAX as int
        } else {
            500 * rem_e
        };
        let prod_l: int = if 500 * rem_l > u64::MAX {
            u64::MAX as int
        } else {
            500 * rem_l
        };
        let num_e: int = if prod_e + d / 2 > u64::MAX {
            u64::MAX as int
        } else {
            prod_e + d / 2
        };
        let num_l: int = if prod_l + d / 2 > u64::MAX {
            u64::MAX as int
        } else {
            prod_l + d / 2
        };
        assert(num_l <= num_e);
        vstd::arithmetic::div_mod::lemma_div_is_ordered(num_l, num_e, d);
    }
}

} // verus!
