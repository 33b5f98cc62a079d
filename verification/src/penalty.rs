use vstd::arithmetic::div_mod::{lemma_div_is_ordered, lemma_div_multiples_vanish};
use vstd::arithmetic::mul::lemma_mul_inequality;
use vstd::prelude::*;

verus! {

/// One hundred percent, in basis points.
pub const MAX_PERCENTAGE: u64 = 10_000;

/// Configured bounds for the early-unlock penalty, in basis points.
///
/// A position whose full remaining lock equals the longest obtainable lock
/// duration pays `max`; one with almost no remaining lock pays close to
/// `min`; between the two the percentage is interpolated linearly.
#[derive(Clone, Copy, Debug, PartialEq, Eq, Structural)]
pub struct PenaltyPercentage {
    pub min: u16,
    pub max: u16,
}

impl PenaltyPercentage {
    /// Both bounds are positive, at most one hundred percent, and ordered.
    pub open spec fn valid(self) -> bool {
        0 < self.min <= self.max <= MAX_PERCENTAGE
    }
}

/// The interpolated penalty percentage (basis points) for shortening a lock
/// by `epochs_to_reduce` epochs, out of a longest obtainable lock of
/// `max_lock_option` epochs.
pub open spec fn penalty_percentage_of(
    min: int,
    max: int,
    epochs_to_reduce: int,
    max_lock_option: int,
) -> int {
    min + (max - min) * epochs_to_reduce / max_lock_option
}

/// The penalty charged on `token_amount` at `percentage` basis points,
/// with truncating division: rounding never favours the token holder.
pub open spec fn penalty_amount_of(token_amount: int, percentage: int) -> int {
    token_amount * percentage / (MAX_PERCENTAGE as int)
}

/// The penalty for reducing `token_amount`'s lock by `epochs_to_reduce`.
pub open spec fn penalty_of(
    token_amount: int,
    epochs_to_reduce: int,
    percentage: PenaltyPercentage,
    max_lock_option: int,
) -> int {
    penalty_amount_of(
        token_amount,
        penalty_percentage_of(
            percentage.min as int,
            percentage.max as int,
            epochs_to_reduce,
            max_lock_option,
        ),
    )
}

/// The penalty charged by the dedicated early-unlock path, which always
/// reduces by the full remaining lock duration.
pub open spec fn early_unlock_penalty_of(
    token_amount: int,
    lock_epochs_remaining: int,
    percentage: PenaltyPercentage,
    max_lock_option: int,
) -> int {
    penalty_of(token_amount, lock_epochs_remaining, percentage, max_lock_option)
}

/// The interpolated percentage never leaves the configured `[min, max]`
/// band while the reduction is at most the longest obtainable lock.
pub proof fn lemma_penalty_percentage_in_band(
    min: int,
    max: int,
    epochs_to_reduce: int,
    max_lock_option: int,
)
    requires
        0 <= min <= max,
        0 <= epochs_to_reduce <= max_lock_option,
        0 < max_lock_option,
    ensures
        min <= penalty_percentage_of(min, max, epochs_to_reduce, max_lock_option) <= max,
{
    lemma_mul_inequality(epochs_to_reduce, max_lock_option, max - min);
    lemma_div_is_ordered(
        (max - min) * epochs_to_reduce,
        (max - min) * max_lock_option,
        max_lock_option,
    );
    lemma_div_multiples_vanish(max - min, max_lock_option);
    vstd::arithmetic::div_mod::lemma_div_pos_is_pos((max - min) * epochs_to_reduce, max_lock_option);
    vstd::arithmetic::mul::lemma_mul_nonnegative(max - min, epochs_to_reduce);
}

/// The penalty never exceeds the token amount itself.
pub proof fn lemma_penalty_le_amount(token_amount: int, percentage: int)
    requires
        0 <= token_amount,
        0 <= percentage <= MAX_PERCENTAGE,
    ensures
        0 <= penalty_amount_of(token_amount, percentage) <= token_amount,
{
    lemma_mul_inequality(percentage, MAX_PERCENTAGE as int, token_amount);
    lemma_div_is_ordered(
        token_amount * percentage,
        token_amount * (MAX_PERCENTAGE as int),
        MAX_PERCENTAGE as int,
    );
    lemma_div_multiples_vanish(token_amount, MAX_PERCENTAGE as int);
    vstd::arithmetic::mul::lemma_mul_nonnegative(token_amount, percentage);
    vstd::arithmetic::div_mod::lemma_div_pos_is_pos(
        token_amount * percentage,
        MAX_PERCENTAGE as int,
    );
}

/// Reducing a lock by its full remaining duration is charged exactly as the
/// dedicated early-unlock path charges it; and when the remaining duration
/// is the longest obtainable lock, both equal the flat maximum-percentage
/// penalty.
pub proof fn lemma_full_reduction_matches_early_unlock(
    token_amount: int,
    lock_epochs_remaining: int,
    percentage: PenaltyPercentage,
    max_lock_option: int,
)
    requires
        0 <= token_amount,
        0 < lock_epochs_remaining <= max_lock_option,
        percentage.valid(),
    ensures
        penalty_of(token_amount, lock_epochs_remaining, percentage, max_lock_option)
            == early_unlock_penalty_of(
            token_amount,
            lock_epochs_remaining,
            percentage,
            max_lock_option,
        ),
        lock_epochs_remaining == max_lock_option ==> penalty_of(
            token_amount,
            lock_epochs_remaining,
            percentage,
            max_lock_option,
        ) == penalty_amount_of(token_amount, percentage.max as int),
{
    if lock_epochs_remaining == max_lock_option {
        let span = percentage.max as int - percentage.min as int;
        vstd::arithmetic::mul::lemma_mul_is_commutative(span, max_lock_option);
        lemma_div_multiples_vanish(span, max_lock_option);
    }
}

/// The penalty is monotonically non-decreasing in the number of epochs the
/// lock is shortened by, for a fixed amount and fixed configuration.
pub proof fn lemma_penalty_monotonic(
    token_amount: int,
    epochs_a: int,
    epochs_b: int,
    percentage: PenaltyPercentage,
    max_lock_option: int,
)
    requires
        0 <= token_amount,
        0 <= epochs_a <= epochs_b,
        0 < max_lock_option,
        percentage.valid(),
    ensures
        penalty_of(token_amount, epochs_a, percentage, max_lock_option) <= penalty_of(
            token_amount,
            epochs_b,
            percentage,
            max_lock_option,
        ),
{
    let span = percentage.max as int - percentage.min as int;
    lemma_mul_inequality(epochs_a, epochs_b, span);
    lemma_div_is_ordered(span * epochs_a, span * epochs_b, max_lock_option);
    let pct_a = penalty_percentage_of(
        percentage.min as int,
        percentage.max as int,
        epochs_a,
        max_lock_option,
    );
    let pct_b = penalty_percentage_of(
        percentage.min as int,
        percentage.max as int,
        epochs_b,
        max_lock_option,
    );
    lemma_mul_inequality(pct_a, pct_b, token_amount);
    lemma_div_is_ordered(token_amount * pct_a, token_amount * pct_b, MAX_PERCENTAGE as int);
}

} // verus!
