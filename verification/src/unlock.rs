use crate::energy::{energy_weight, Energy, EnergyLedger, MAX_EPOCH};
use crate::errors::Error;
use crate::kvmap::KvMap;
use crate::penalty::{
    lemma_penalty_le_amount, lemma_penalty_percentage_in_band, penalty_amount_of, penalty_of,
    PenaltyPercentage, MAX_PERCENTAGE,
};
use vstd::arithmetic::mul::lemma_mul_upper_bound;
use vstd::prelude::*;

verus! {

/// The smallest reduction of a lock period that is accepted.
pub const MIN_EPOCHS_TO_REDUCE: u64 = 1;

/// Epochs per week; pending penalty fees are forwarded at most once per week.
pub const EPOCHS_PER_WEEK: u64 = 7;

/// The reduction granularity: a lock period may only be shortened by whole
/// multiples of this many epochs.
pub const EPOCHS_PER_YEAR: u64 = 360;

/// A quantity of the locked token at one nonce. Nonce `0` is the unlocked,
/// fungible form of the token.
#[derive(Clone, Copy, Debug, PartialEq, Eq, Structural)]
pub struct TokenPayment {
    pub token_nonce: u64,
    pub amount: u64,
}

/// Penalty proceeds of one locked-token nonce, accumulated until they are
/// forwarded to the fees collector.
#[derive(Clone, Copy, Debug, PartialEq, Eq, Structural)]
pub struct NonceAmountPair {
    pub nonce: u64,
    pub amount: u64,
}

impl NonceAmountPair {
    pub fn new(nonce: u64, amount: u64) -> (r: NonceAmountPair)
        ensures
            r == (NonceAmountPair { nonce, amount }),
    {
        NonceAmountPair { nonce, amount }
    }
}

/// The deposit entry point of the downstream fee-distribution contract.
/// The host implements it. Nothing is assumed of what a deposit does beyond
/// being recorded: `deposits` is the implementation's abstract log, and each
/// call appends exactly its own triple, so that callers' contracts can say
/// what was handed over.
pub trait FeesCollectorProxy {
    /// The deposits received so far: collector address, token nonce, amount.
    /// Implementations with observable state override this; the default
    /// stands for one with none.
    open spec fn deposits(&self) -> Seq<(u64, u64, u64)> {
        Seq::empty()
    }

    /// Deposits `amount` locked tokens of nonce `token_nonce` with the
    /// collector contract at `collector_address`.
    fn deposit_swap_fees(&mut self, collector_address: u64, token_nonce: u64, amount: u64)
        ensures
            final(self).deposits() == old(self).deposits().push(
                (collector_address, token_nonce, amount),
            ),
    ;
}

/// The share of `fees_amount` that is burned at `burn_percentage` basis
/// points; the rest is accumulated for the fees collector.
pub open spec fn spec_burned_fee(fees_amount: int, burn_percentage: int) -> int {
    fees_amount * burn_percentage / (MAX_PERCENTAGE as int)
}

/// The pending fee record after depositing `remaining_fee` tokens of nonce
/// `token_nonce` into it: amounts are summed, and the earliest-acquired
/// record keeps its token attributes, so the merged record's maturity is the
/// more conservative one.
pub open spec fn spec_pending_after_deposit(
    pending: Option<NonceAmountPair>,
    token_nonce: u64,
    remaining_fee: u64,
) -> Option<NonceAmountPair> {
    if remaining_fee == 0 {
        pending
    } else {
        match pending {
            None => Some(NonceAmountPair { nonce: token_nonce, amount: remaining_fee }),
            Some(existing) => Some(
                NonceAmountPair {
                    nonce: existing.nonce,
                    amount: (existing.amount + remaining_fee) as u64,
                },
            ),
        }
    }
}

/// Whether a pending fee record fits the fixed integer width after the
/// deposit of `remaining_fee` more tokens.
pub open spec fn spec_deposit_fits(
    pending: Option<NonceAmountPair>,
    remaining_fee: u64,
) -> bool {
    match pending {
        None => true,
        Some(existing) => existing.amount + remaining_fee <= u64::MAX,
    }
}

/// Whether accumulated fees are forwarded now: there is something to
/// forward, a collector is configured, and at least one full week of epochs
/// has elapsed since the last forwarding.
pub open spec fn spec_forward_now(
    pending: Option<NonceAmountPair>,
    collector: Option<u64>,
    last_epoch_sent: u64,
    current_epoch: u64,
) -> bool {
    pending is Some && collector is Some && current_epoch >= last_epoch_sent + EPOCHS_PER_WEEK
}

/// Locking, lock-period reduction and early unlock of token positions, with
/// the penalty configuration, the pending penalty-fee accumulator, and the
/// energy ledger the operations drive.
///
/// Token mint, burn and transfer are host capabilities: the module accounts
/// for amounts and positions, and returns the payment the host must deliver.
pub struct UnlockWithPenaltyModule {
    /// Penalty interpolation bounds; see `PenaltyPercentage`.
    pub penalty_percentage: PenaltyPercentage,
    /// Basis points of each penalty that are burned outright.
    pub fees_burn_percentage: u16,
    /// The fee-distribution contract's address, once configured.
    pub fees_collector_address: Option<u64>,
    /// Penalty proceeds not yet forwarded to the collector.
    pub fees_from_penalty_unlocking: Option<NonceAmountPair>,
    /// The epoch at which fees were last forwarded to the collector.
    pub last_epoch_fee_sent_to_collector: u64,
    /// The longest obtainable lock duration, in epochs.
    pub max_lock_option: u64,
    /// Unlock epoch of every locked-token nonce ever created.
    pub locked_token_attributes: KvMap<u64>,
    /// The next locked-token nonce to be minted; nonces start at 1.
    pub next_nonce: u64,
    /// The energy ledger the lock operations keep up to date.
    pub energy: EnergyLedger,
}

impl UnlockWithPenaltyModule {
    pub open spec fn wf(&self) -> bool {
        &&& self.penalty_percentage.valid()
        &&& self.fees_burn_percentage <= MAX_PERCENTAGE
        &&& 0 < self.max_lock_option <= MAX_EPOCH
        &&& self.last_epoch_fee_sent_to_collector <= MAX_EPOCH
        &&& self.energy.wf()
        &&& self.locked_token_attributes.wf()
        &&& 0 < self.next_nonce
        &&& forall|n: u64|
            #[trigger] self.locked_token_attributes@.contains_key(n) ==> 0 < n < self.next_nonce
                && self.locked_token_attributes@[n] <= MAX_EPOCH
        &&& match self.fees_from_penalty_unlocking {
            Some(p) => p.amount > 0 && self.locked_token_attributes@.contains_key(p.nonce),
            None => true,
        }
    }

    /// No recorded position is locked further ahead than the longest
    /// obtainable lock duration; holds of every reachable state since
    /// locking enforces it and epochs only grow.
    pub open spec fn positions_within_max_lock(&self, current_epoch: u64) -> bool {
        forall|n: u64|
            #[trigger] self.locked_token_attributes@.contains_key(n)
                ==> self.locked_token_attributes@[n] <= current_epoch + self.max_lock_option
    }

    /// What lies within the longest lock as of one epoch lies within it as
    /// of any later epoch: the bound weakens as the host clock advances.
    pub proof fn lemma_positions_within_monotonic(&self, earlier: u64, later: u64)
        requires
            self.positions_within_max_lock(earlier),
            earlier <= later,
        ensures
            self.positions_within_max_lock(later),
    {
    }

    /// The penalty charged for shortening `token_amount`'s lock by
    /// `epochs_to_reduce` epochs under the current configuration.
    pub open spec fn spec_penalty(&self, token_amount: u64, epochs_to_reduce: int) -> int {
        penalty_of(
            token_amount as int,
            epochs_to_reduce,
            self.penalty_percentage,
            self.max_lock_option as int,
        )
    }

    /// The reduce operation's input validation: the nonce names a known
    /// position, the position is not yet unlockable, a requested reduction
    /// lies between one epoch and the full remaining lock, and the payment
    /// is not empty.
    pub open spec fn spec_reduce_valid(
        &self,
        payment: TokenPayment,
        opt_epochs_to_reduce: Option<u64>,
        current_epoch: u64,
    ) -> bool {
        let attrs = self.locked_token_attributes@;
        &&& attrs.contains_key(payment.token_nonce)
        &&& (current_epoch as int) < attrs[payment.token_nonce] as int
        &&& (match opt_epochs_to_reduce {
            Some(e) => MIN_EPOCHS_TO_REDUCE as int <= e as int <= attrs[payment.token_nonce] as int
                - current_epoch as int,
            None => true,
        })
        &&& payment.amount > 0
    }

    /// How many epochs the lock is shortened by: the requested reduction, or
    /// the full remaining lock duration for an early unlock.
    pub open spec fn spec_reduce_epochs(
        &self,
        payment: TokenPayment,
        opt_epochs_to_reduce: Option<u64>,
        current_epoch: u64,
    ) -> int {
        match opt_epochs_to_reduce {
            Some(e) => e as int,
            None => self.locked_token_attributes@[payment.token_nonce] as int - current_epoch as int,
        }
    }

    /// The penalty the reduce operation charges.
    pub open spec fn spec_reduce_penalty(
        &self,
        payment: TokenPayment,
        opt_epochs_to_reduce: Option<u64>,
        current_epoch: u64,
    ) -> int {
        self.spec_penalty(
            payment.amount,
            self.spec_reduce_epochs(payment, opt_epochs_to_reduce, current_epoch),
        )
    }

    /// The position's unlock epoch after the reduction.
    pub open spec fn spec_new_unlock_epoch(
        &self,
        payment: TokenPayment,
        opt_epochs_to_reduce: Option<u64>,
        current_epoch: u64,
    ) -> int {
        self.locked_token_attributes@[payment.token_nonce] as int - self.spec_reduce_epochs(
            payment,
            opt_epochs_to_reduce,
            current_epoch,
        )
    }

    /// Depleting the unlocked position's full energy must neither drive the
    /// user's energy below zero nor remove more tokens than the ledger
    /// records as locked; anything else means the accounting was corrupted.
    pub open spec fn spec_energy_depletion_ok(
        &self,
        user: u64,
        payment: TokenPayment,
        current_epoch: u64,
    ) -> bool {
        let entry = self.energy.entry_or_zero(user, current_epoch);
        let unlock = self.locked_token_attributes@[payment.token_nonce];
        &&& entry.amount - energy_weight(
            payment.amount as int,
            unlock as int,
            current_epoch as int,
        ) >= 0
        &&& payment.amount <= entry.total_locked_tokens
    }

    /// When the reduce operation succeeds: valid inputs, tokens left after
    /// the penalty, uncorrupted energy accounting, and the fixed integer
    /// widths not exceeded (a fresh nonce is available, and the pending fee
    /// record can absorb the deposit).
    pub open spec fn spec_reduce_accepted(
        &self,
        user: u64,
        payment: TokenPayment,
        opt_epochs_to_reduce: Option<u64>,
        current_epoch: u64,
    ) -> bool {
        let pen = self.spec_reduce_penalty(payment, opt_epochs_to_reduce, current_epoch);
        let remaining_fee = (pen - spec_burned_fee(pen, self.fees_burn_percentage as int)) as u64;
        &&& self.spec_reduce_valid(payment, opt_epochs_to_reduce, current_epoch)
        &&& payment.amount as int - pen > 0
        &&& self.spec_energy_depletion_ok(user, payment, current_epoch)
        &&& (self.spec_new_unlock_epoch(payment, opt_epochs_to_reduce, current_epoch)
            > current_epoch as int ==> self.next_nonce < u64::MAX)
        &&& (pen > 0 ==> spec_deposit_fits(self.fees_from_penalty_unlocking, remaining_fee))
    }

    /// The one fault the reduce operation reports, in the order the checks
    /// run: an unknown nonce, a position already unlockable, a reduction out
    /// of range, an empty payment, a penalty that consumes the whole
    /// payment, corrupted energy accounting, and, last, a machine integer
    /// width exceeded. Meaningful only when `spec_reduce_accepted` is false.
    pub open spec fn spec_reduce_error(
        &self,
        user: u64,
        payment: TokenPayment,
        opt_epochs_to_reduce: Option<u64>,
        current_epoch: u64,
    ) -> Error {
        let attrs = self.locked_token_attributes@;
        if !attrs.contains_key(payment.token_nonce) {
            Error::UnknownTokenNonce
        } else if attrs[payment.token_nonce] as int <= current_epoch as int {
            Error::TokenUnlockable
        } else if !(match opt_epochs_to_reduce {
            Some(e) => MIN_EPOCHS_TO_REDUCE as int <= e as int <= attrs[payment.token_nonce] as int
                - current_epoch as int,
            None => true,
        }) {
            Error::InvalidEpochsToReduce
        } else if payment.amount == 0 {
            Error::ZeroAmount
        } else if payment.amount as int - self.spec_reduce_penalty(
            payment,
            opt_epochs_to_reduce,
            current_epoch,
        ) <= 0 {
            Error::NoTokensAfterPenalty
        } else if !self.spec_energy_depletion_ok(user, payment, current_epoch) {
            Error::CorruptedEnergyState
        } else {
            Error::AmountOverflow
        }
    }

    /// The user's energy entry after the reduce operation: the decayed
    /// balance first loses the unlocked position's full energy at its
    /// original unlock epoch, then regains the post-penalty remainder at the
    /// shortened unlock epoch. Deplete-then-add keeps the balance within the
    /// bounds the ledger already held.
    pub open spec fn spec_energy_after_reduce(
        &self,
        user: u64,
        payment: TokenPayment,
        opt_epochs_to_reduce: Option<u64>,
        current_epoch: u64,
    ) -> Energy {
        let entry = self.energy.entry_or_zero(user, current_epoch);
        let unlock = self.locked_token_attributes@[payment.token_nonce];
        let pen = self.spec_reduce_penalty(payment, opt_epochs_to_reduce, current_epoch);
        let out = payment.amount as int - pen;
        let new_unlock = self.spec_new_unlock_epoch(payment, opt_epochs_to_reduce, current_epoch);
        let relocked_amount: int = if new_unlock > current_epoch as int {
            out
        } else {
            0
        };
        Energy {
            amount: (entry.amount - energy_weight(
                payment.amount as int,
                unlock as int,
                current_epoch as int,
            ) + energy_weight(out, new_unlock, current_epoch as int)) as i128,
            last_update_epoch: current_epoch,
            total_locked_tokens: (entry.total_locked_tokens - payment.amount
                + relocked_amount) as u64,
        }
    }

    /// The reduce operation's full contract, shared by `unlock_early` and
    /// `reduce_lock_period`: relates the state, the proxy and the result
    /// after the call to those before it.
    pub open spec fn spec_reduce_post<P: FeesCollectorProxy>(
        pre: Self,
        post: Self,
        pre_proxy: P,
        post_proxy: P,
        user: u64,
        payment: TokenPayment,
        opt_epochs_to_reduce: Option<u64>,
        current_epoch: u64,
        r: Result<TokenPayment, Error>,
    ) -> bool {
        let pen = pre.spec_reduce_penalty(payment, opt_epochs_to_reduce, current_epoch);
        let out = (payment.amount as int - pen) as u64;
        let new_unlock = pre.spec_new_unlock_epoch(payment, opt_epochs_to_reduce, current_epoch);
        let relocked = new_unlock > current_epoch as int;
        let remaining_fee = (pen - spec_burned_fee(pen, pre.fees_burn_percentage as int)) as u64;
        let updated = if pen > 0 {
            spec_pending_after_deposit(
                pre.fees_from_penalty_unlocking,
                payment.token_nonce,
                remaining_fee,
            )
        } else {
            pre.fees_from_penalty_unlocking
        };
        let forwarded = pen > 0 && spec_forward_now(
            updated,
            pre.fees_collector_address,
            pre.last_epoch_fee_sent_to_collector,
            current_epoch,
        );
        &&& post.wf()
        &&& (r is Ok <==> pre.spec_reduce_accepted(
            user,
            payment,
            opt_epochs_to_reduce,
            current_epoch,
        ))
        &&& (r is Err ==> post == pre && post_proxy == pre_proxy)
        &&& (r matches Ok(p) ==> {
            &&& p == (TokenPayment {
                token_nonce: if relocked {
                    pre.next_nonce
                } else {
                    0 as u64
                },
                amount: out,
            })
            &&& post.locked_token_attributes@ == (if relocked {
                pre.locked_token_attributes@.insert(pre.next_nonce, new_unlock as u64)
            } else {
                pre.locked_token_attributes@
            })
            &&& post.next_nonce == (if relocked {
                (pre.next_nonce + 1) as u64
            } else {
                pre.next_nonce
            })
            &&& post.energy@ == pre.energy@.insert(
                user,
                pre.spec_energy_after_reduce(user, payment, opt_epochs_to_reduce, current_epoch),
            )
            &&& post.energy.updated_no_later_than(current_epoch)
            &&& (pre.positions_within_max_lock(current_epoch)
                ==> post.positions_within_max_lock(current_epoch))
            &&& post.fees_from_penalty_unlocking == (if forwarded {
                None::<NonceAmountPair>
            } else {
                updated
            })
            &&& post.last_epoch_fee_sent_to_collector == (if forwarded {
                current_epoch
            } else {
                pre.last_epoch_fee_sent_to_collector
            })
            &&& post.penalty_percentage == pre.penalty_percentage
            &&& post.fees_burn_percentage == pre.fees_burn_percentage
            &&& post.fees_collector_address == pre.fees_collector_address
            &&& post.max_lock_option == pre.max_lock_option
            &&& (!forwarded ==> post_proxy == pre_proxy)
            &&& (forwarded ==> post_proxy.deposits() == pre_proxy.deposits().push(
                (pre.fees_collector_address->0, updated->0.nonce, updated->0.amount),
            ))
        })
        &&& (r is Err ==> r == Err::<TokenPayment, Error>(
            pre.spec_reduce_error(user, payment, opt_epochs_to_reduce, current_epoch),
        ))
    }

    /// Law: reducing a position's lock by exactly its full remaining
    /// duration is charged the same penalty as the dedicated early-unlock
    /// path, which resolves to that full duration itself; and when the
    /// remaining duration is the longest obtainable lock, that penalty is
    /// the flat maximum-percentage penalty.
    pub proof fn lemma_full_reduction_equals_early_unlock(
        &self,
        payment: TokenPayment,
        current_epoch: u64,
    )
        requires
            self.wf(),
            self.positions_within_max_lock(current_epoch),
            self.locked_token_attributes@.contains_key(payment.token_nonce),
            (current_epoch as int) < self.locked_token_attributes@[payment.token_nonce] as int,
        ensures
            ({
                let remaining = (self.locked_token_attributes@[payment.token_nonce]
                    - current_epoch) as u64;
                &&& self.spec_reduce_penalty(payment, Some(remaining), current_epoch)
                    == self.spec_reduce_penalty(payment, None, current_epoch)
                &&& remaining == self.max_lock_option ==> self.spec_reduce_penalty(
                    payment,
                    None,
                    current_epoch,
                ) == penalty_amount_of(payment.amount as int, self.penalty_percentage.max as int)
            }),
    {
        let remaining = (self.locked_token_attributes@[payment.token_nonce] - current_epoch) as u64;
        crate::penalty::lemma_full_reduction_matches_early_unlock(
            payment.amount as int,
            remaining as int,
            self.penalty_percentage,
            self.max_lock_option as int,
        );
    }

    /// A fresh module: the given configuration, no positions, no pending
    /// fees, an empty energy ledger.
    pub fn new(
        min_penalty_percentage: u16,
        max_penalty_percentage: u16,
        fees_burn_percentage: u16,
        max_lock_option: u64,
    ) -> (r: Result<Self, Error>)
        requires
            0 < max_lock_option <= MAX_EPOCH,
        ensures
            r is Ok <==> (0 < min_penalty_percentage <= max_penalty_percentage <= MAX_PERCENTAGE
                && fees_burn_percentage <= MAX_PERCENTAGE),
            r matches Ok(m) ==> m.wf() && m.penalty_percentage == (PenaltyPercentage {
                min: min_penalty_percentage,
                max: max_penalty_percentage,
            }) && m.fees_burn_percentage == fees_burn_percentage && m.fees_collector_address
                is None && m.fees_from_penalty_unlocking is None
                && m.last_epoch_fee_sent_to_collector == 0 && m.max_lock_option == max_lock_option
                && m.next_nonce == 1 && m.energy@ == Map::<u64, Energy>::empty()
                && m.locked_token_attributes@ == Map::<u64, u64>::empty(),
            r is Err ==> r == Err::<Self, Error>(Error::InvalidPercentage),
    {
        if !(min_penalty_percentage > 0 && min_penalty_percentage <= max_penalty_percentage
            && max_penalty_percentage as u64 <= MAX_PERCENTAGE) {
            return Err(Error::InvalidPercentage);
        }
        if fees_burn_percentage as u64 > MAX_PERCENTAGE {
            return Err(Error::InvalidPercentage);
        }
        Ok(
            UnlockWithPenaltyModule {
                penalty_percentage: PenaltyPercentage {
                    min: min_penalty_percentage,
                    max: max_penalty_percentage,
                },
                fees_burn_percentage,
                fees_collector_address: None,
                fees_from_penalty_unlocking: None,
                last_epoch_fee_sent_to_collector: 0,
                max_lock_option,
                locked_token_attributes: KvMap::new(),
                next_nonce: 1,
                energy: EnergyLedger::new(),
            },
        )
    }

    /// Reconfigures the penalty bounds. Both must be positive, at most one
    /// hundred percent, and correctly ordered; otherwise nothing changes.
    pub fn set_penalty_percentage(
        &mut self,
        min_penalty_percentage: u16,
        max_penalty_percentage: u16,
    ) -> (r: Result<(), Error>)
        ensures
            r is Ok <==> (0 < min_penalty_percentage <= max_penalty_percentage <= MAX_PERCENTAGE),
            r is Ok ==> *final(self) == (UnlockWithPenaltyModule {
                penalty_percentage: PenaltyPercentage {
                    min: min_penalty_percentage,
                    max: max_penalty_percentage,
                },
                ..*old(self)
            }),
            r is Err ==> *final(self) == *old(self) && r == Err::<(), Error>(
                Error::InvalidPercentage,
            ),
    {
        let is_min_valid = min_penalty_percentage > 0 && min_penalty_percentage as u64
            <= MAX_PERCENTAGE;
        let is_max_valid = max_penalty_percentage > 0 && max_penalty_percentage as u64
            <= MAX_PERCENTAGE;
        let correct_order = min_penalty_percentage <= max_penalty_percentage;
        if !(is_min_valid && is_max_valid && correct_order) {
            return Err(Error::InvalidPercentage);
        }
        self.penalty_percentage = PenaltyPercentage {
            min: min_penalty_percentage,
            max: max_penalty_percentage,
        };
        Ok(())
    }

    /// Reconfigures how much of each penalty is burned; the rest goes to the
    /// fees collector. Zero is accepted.
    pub fn set_fees_burn_percentage(&mut self, percentage: u16) -> (r: Result<(), Error>)
        ensures
            r is Ok <==> percentage <= MAX_PERCENTAGE,
            r is Ok ==> *final(self) == (UnlockWithPenaltyModule {
                fees_burn_percentage: percentage,
                ..*old(self)
            }),
            r is Err ==> *final(self) == *old(self) && r == Err::<(), Error>(
                Error::InvalidPercentage,
            ),
    {
        if percentage as u64 > MAX_PERCENTAGE {
            return Err(Error::InvalidPercentage);
        }
        self.fees_burn_percentage = percentage;
        Ok(())
    }

    /// Configures the fees collector. The host vouches, through
    /// `is_contract_address`, that the address belongs to a contract.
    pub fn set_fees_collector_address(&mut self, sc_address: u64, is_contract_address: bool) -> (r:
        Result<(), Error>)
        ensures
            r is Ok <==> is_contract_address,
            r is Ok ==> *final(self) == (UnlockWithPenaltyModule {
                fees_collector_address: Some(sc_address),
                ..*old(self)
            }),
            r is Err ==> *final(self) == *old(self) && r == Err::<(), Error>(
                Error::NotContractAddress,
            ),
    {
        if !is_contract_address {
            return Err(Error::NotContractAddress);
        }
        self.fees_collector_address = Some(sc_address);
        Ok(())
    }

    /// The penalty incurred if `token_amount` tokens had their locking
    /// period reduced by `epochs_to_reduce`: the percentage decreases
    /// linearly from the configured maximum (at a full-length lock) down to
    /// the configured minimum.
    pub fn calculate_penalty_amount(&self, token_amount: u64, epochs_to_reduce: u64) -> (r: u64)
        requires
            self.wf(),
            0 < epochs_to_reduce <= self.max_lock_option,
        ensures
            r == self.spec_penalty(token_amount, epochs_to_reduce as int),
            r <= token_amount,
    {
        let min_penalty = self.penalty_percentage.min as u128;
        let max_penalty = self.penalty_percentage.max as u128;
        let max_lock_option = self.max_lock_option as u128;
        proof {
            lemma_mul_upper_bound(
                (max_penalty - min_penalty) as int,
                MAX_PERCENTAGE as int,
                epochs_to_reduce as int,
                MAX_EPOCH as int,
            );
            lemma_penalty_percentage_in_band(
                min_penalty as int,
                max_penalty as int,
                epochs_to_reduce as int,
                max_lock_option as int,
            );
        }
        let percentage = min_penalty + (max_penalty - min_penalty) * (epochs_to_reduce as u128)
            / max_lock_option;
        proof {
            lemma_mul_upper_bound(
                token_amount as int,
                u64::MAX as int,
                percentage as int,
                MAX_PERCENTAGE as int,
            );
            lemma_penalty_le_amount(token_amount as int, percentage as int);
        }
        let penalty = (token_amount as u128) * percentage / (MAX_PERCENTAGE as u128);
        penalty as u64
    }

    /// Locks `amount` tokens for `user` until `unlock_epoch`: mints a fresh
    /// locked-token nonce and credits the position's energy.
    pub fn lock_tokens(&mut self, user: u64, amount: u64, unlock_epoch: u64, current_epoch: u64)
        -> (r: Result<TokenPayment, Error>)
        requires
            old(self).wf(),
            old(self).energy.updated_no_later_than(current_epoch),
            old(self).positions_within_max_lock(current_epoch),
            amount > 0,
            current_epoch < unlock_epoch <= MAX_EPOCH,
            unlock_epoch - current_epoch <= old(self).max_lock_option,
        ensures
            final(self).wf(),
            r is Ok <==> ({
                let entry = old(self).energy.entry_or_zero(user, current_epoch);
                &&& old(self).next_nonce < u64::MAX
                &&& 0 <= entry.amount + energy_weight(
                    amount as int,
                    unlock_epoch as int,
                    current_epoch as int,
                ) <= i128::MAX
                &&& entry.total_locked_tokens + amount <= u64::MAX
            }),
            r is Err ==> *final(self) == *old(self) && r == Err::<TokenPayment, Error>(
                Error::AmountOverflow,
            ),
            r matches Ok(p) ==> {
                let entry = old(self).energy.entry_or_zero(user, current_epoch);
                &&& p == (TokenPayment { token_nonce: old(self).next_nonce, amount })
                &&& final(self).next_nonce == old(self).next_nonce + 1
                &&& final(self).locked_token_attributes@ == old(
                    self,
                ).locked_token_attributes@.insert(old(self).next_nonce, unlock_epoch)
                &&& final(self).energy@ == old(self).energy@.insert(
                    user,
                    Energy {
                        amount: (entry.amount + energy_weight(
                            amount as int,
                            unlock_epoch as int,
                            current_epoch as int,
                        )) as i128,
                        last_update_epoch: current_epoch,
                        total_locked_tokens: (entry.total_locked_tokens + amount) as u64,
                    },
                )
                &&& final(self).energy.updated_no_later_than(current_epoch)
                &&& final(self).positions_within_max_lock(current_epoch)
                &&& final(self).penalty_percentage == old(self).penalty_percentage
                &&& final(self).fees_burn_percentage == old(self).fees_burn_percentage
                &&& final(self).fees_collector_address == old(self).fees_collector_address
                &&& final(self).fees_from_penalty_unlocking == old(
                    self,
                ).fees_from_penalty_unlocking
                &&& final(self).last_epoch_fee_sent_to_collector == old(
                    self,
                ).last_epoch_fee_sent_to_collector
                &&& final(self).max_lock_option == old(self).max_lock_option
            },
    {
        let new_nonce = match self.next_nonce.checked_add(1) {
            Some(_) => self.next_nonce,
            None => {
                return Err(Error::AmountOverflow);
            },
        };
        let mut entry = self.energy.get_updated_energy_entry_for_user(user, current_epoch);
        match entry.add_after_token_lock(amount, unlock_epoch, current_epoch) {
            Ok(()) => {},
            Err(e) => {
                return Err(e);
            },
        }
        if entry.amount < 0 {
            // A fresh lock only adds energy on top of the decayed balance; a
            // negative total would mean the ledger was already corrupted.
            return Err(Error::AmountOverflow);
        }
        self.locked_token_attributes.set(new_nonce, unlock_epoch);
        self.next_nonce = new_nonce + 1;
        match self.energy.set_energy_entry(user, entry) {
            Ok(()) => {},
            Err(_) => {
                proof {
                    assert(false);
                }
            },
        }
        proof {
            assert forall|n: u64| #[trigger] self.locked_token_attributes@.contains_key(n) implies 0 < n
                < self.next_nonce && self.locked_token_attributes@[n] <= MAX_EPOCH by {
                if n != new_nonce {
                    assert(old(self).locked_token_attributes@.contains_key(n));
                    assert(old(self).locked_token_attributes@[n] <= MAX_EPOCH);
                    assert(0 < n < old(self).next_nonce);
                }
            }
            if let Some(p) = self.fees_from_penalty_unlocking {
                assert(self.locked_token_attributes@.contains_key(p.nonce));
            }
        }
        Ok(TokenPayment { token_nonce: new_nonce, amount })
    }

    /// Forwards the accumulated penalty fees to the configured fees
    /// collector and clears the pending record. With nothing pending, or no
    /// collector configured, nothing changes.
    pub fn send_fees_to_collector<P: FeesCollectorProxy>(
        &mut self,
        proxy: &mut P,
        current_epoch: u64,
    ) -> (r: Result<(), Error>)
        requires
            old(self).wf(),
            current_epoch <= MAX_EPOCH,
        ensures
            final(self).wf(),
            r is Ok <==> (old(self).fees_from_penalty_unlocking is Some && old(
                self,
            ).fees_collector_address is Some),
            r is Ok ==> *final(self) == (UnlockWithPenaltyModule {
                fees_from_penalty_unlocking: None,
                last_epoch_fee_sent_to_collector: current_epoch,
                ..*old(self)
            }),
            r is Ok ==> final(proxy).deposits() == old(proxy).deposits().push(
                (
                    old(self).fees_collector_address->0,
                    old(self).fees_from_penalty_unlocking->0.nonce,
                    old(self).fees_from_penalty_unlocking->0.amount,
                ),
            ),
            r is Err ==> *final(self) == *old(self) && *final(proxy) == *old(proxy),
            r == Err::<(), Error>(Error::NoPendingFees) <==> old(self).fees_from_penalty_unlocking
                is None,
            r == Err::<(), Error>(Error::NoCollectorAddress) <==> (old(
                self,
            ).fees_from_penalty_unlocking is Some && old(self).fees_collector_address is None),
    {
        let pending = match self.fees_from_penalty_unlocking {
            Some(p) => p,
            None => {
                return Err(Error::NoPendingFees);
            },
        };
        let collector = match self.fees_collector_address {
            Some(a) => a,
            None => {
                return Err(Error::NoCollectorAddress);
            },
        };
        self.fees_from_penalty_unlocking = None;
        self.last_epoch_fee_sent_to_collector = current_epoch;
        proxy.deposit_swap_fees(collector, pending.nonce, pending.amount);
        Ok(())
    }

    /// Splits `fees_amount` penalty tokens of nonce `token_nonce` into a
    /// burned share and a share merged into the pending fee record, then
    /// forwards the accumulated fees if a collector is configured and at
    /// least a week of epochs has elapsed since the last forwarding.
    /// Burning the tokens themselves is the host's capability; this keeps
    /// the accounting.
    fn burn_penalty<P: FeesCollectorProxy>(
        &mut self,
        proxy: &mut P,
        token_nonce: u64,
        fees_amount: u64,
        current_epoch: u64,
    ) -> (r: Result<(), Error>)
        requires
            old(self).wf(),
            old(self).locked_token_attributes@.contains_key(token_nonce),
            fees_amount > 0,
            current_epoch <= MAX_EPOCH,
        ensures
            final(self).wf(),
            ({
                let remaining = (fees_amount - spec_burned_fee(
                    fees_amount as int,
                    old(self).fees_burn_percentage as int,
                )) as u64;
                let updated = spec_pending_after_deposit(
                    old(self).fees_from_penalty_unlocking,
                    token_nonce,
                    remaining,
                );
                let forwarded = spec_forward_now(
                    updated,
                    old(self).fees_collector_address,
                    old(self).last_epoch_fee_sent_to_collector,
                    current_epoch,
                );
                &&& (r is Ok <==> spec_deposit_fits(
                    old(self).fees_from_penalty_unlocking,
                    remaining,
                ))
                &&& (r is Err ==> *final(self) == *old(self) && *final(proxy) == *old(proxy) && r
                    == Err::<(), Error>(Error::AmountOverflow))
                &&& (r is Ok ==> *final(self) == (UnlockWithPenaltyModule {
                    fees_from_penalty_unlocking: if forwarded {
                        None
                    } else {
                        updated
                    },
                    last_epoch_fee_sent_to_collector: if forwarded {
                        current_epoch
                    } else {
                        old(self).last_epoch_fee_sent_to_collector
                    },
                    ..*old(self)
                }) && (!forwarded ==> *final(proxy) == *old(proxy)) && (forwarded ==> final(proxy).deposits() == old(proxy).deposits().push(
                    (
                        old(self).fees_collector_address->0,
                        updated->0.nonce,
                        updated->0.amount,
                    ),
                )))
            }),
    {
        proof {
            lemma_mul_upper_bound(
                fees_amount as int,
                u64::MAX as int,
                self.fees_burn_percentage as int,
                MAX_PERCENTAGE as int,
            );
            lemma_penalty_le_amount(fees_amount as int, self.fees_burn_percentage as int);
        }
        let burn_amount = ((fees_amount as u128) * (self.fees_burn_percentage as u128) / (
        MAX_PERCENTAGE as u128)) as u64;
        let remaining_amount = fees_amount - burn_amount;
        if remaining_amount > 0 {
            match self.fees_from_penalty_unlocking {
                None => {
                    // first fee deposit since the record was last cleared
                    self.fees_from_penalty_unlocking = Some(
                        NonceAmountPair::new(token_nonce, remaining_amount),
                    );
                },
                Some(_) => {
                    match self.merge_fees_from_penalty(token_nonce, remaining_amount) {
                        Ok(()) => {},
                        Err(e) => {
                            return Err(e);
                        },
                    }
                },
            }
        }
        if self.fees_from_penalty_unlocking.is_some() && self.fees_collector_address.is_some()
            && current_epoch >= self.last_epoch_fee_sent_to_collector + EPOCHS_PER_WEEK {
            match self.send_fees_to_collector(proxy, current_epoch) {
                Ok(()) => {},
                Err(_) => {
                    proof {
                        assert(false);
                    }
                },
            }
        }
        Ok(())
    }

    /// Merges a fresh penalty-fee deposit with the existing pending record:
    /// the amounts are summed, and the existing record — the earliest
    /// acquired of the two — keeps its token attributes, so the merged
    /// record's effective maturity is the more conservative one.
    fn merge_fees_from_penalty(&mut self, token_nonce: u64, new_fee_amount: u64) -> (r: Result<
        (),
        Error,
    >)
        requires
            old(self).wf(),
            old(self).fees_from_penalty_unlocking is Some,
            old(self).locked_token_attributes@.contains_key(token_nonce),
            new_fee_amount > 0,
        ensures
            final(self).wf(),
            ({
                let existing = old(self).fees_from_penalty_unlocking->0;
                &&& (r is Ok <==> existing.amount + new_fee_amount <= u64::MAX)
                &&& (r is Ok ==> *final(self) == (UnlockWithPenaltyModule {
                    fees_from_penalty_unlocking: spec_pending_after_deposit(
                        old(self).fees_from_penalty_unlocking,
                        token_nonce,
                        new_fee_amount,
                    ),
                    ..*old(self)
                }))
                &&& (r is Err ==> *final(self) == *old(self) && r == Err::<(), Error>(
                    Error::AmountOverflow,
                ))
            }),
    {
        let existing = match self.fees_from_penalty_unlocking {
            Some(p) => p,
            None => {
                proof {
                    assert(false);
                }
                NonceAmountPair::new(0, 0)
            },
        };
        let merged = match existing.amount.checked_add(new_fee_amount) {
            Some(v) => v,
            None => {
                return Err(Error::AmountOverflow);
            },
        };
        self.fees_from_penalty_unlocking = Some(NonceAmountPair::new(existing.nonce, merged));
        Ok(())
    }

    /// The number of epochs to shorten the lock by: the requested reduction,
    /// validated against the remaining lock duration, or the full remainder
    /// when none is requested (early unlock).
    fn resolve_opt_epochs_to_reduce(
        &self,
        opt_epochs_to_reduce: Option<u64>,
        original_unlock_epoch: u64,
        current_epoch: u64,
    ) -> (r: Result<u64, Error>)
        ensures
            r matches Ok(e) ==> original_unlock_epoch > current_epoch && (match opt_epochs_to_reduce {
                Some(x) => x == e && MIN_EPOCHS_TO_REDUCE <= x && x as int <= original_unlock_epoch
                    as int - current_epoch as int,
                None => e as int == original_unlock_epoch as int - current_epoch as int,
            }),
            r == Err::<u64, Error>(Error::TokenUnlockable) <==> original_unlock_epoch
                <= current_epoch,
            r == Err::<u64, Error>(Error::InvalidEpochsToReduce) <==> (original_unlock_epoch
                > current_epoch && (match opt_epochs_to_reduce {
                Some(x) => x < MIN_EPOCHS_TO_REDUCE || x as int > original_unlock_epoch as int
                    - current_epoch as int,
                None => false,
            })),
            r is Err ==> r == Err::<u64, Error>(Error::TokenUnlockable) || r == Err::<u64, Error>(
                Error::InvalidEpochsToReduce,
            ),
    {
        if original_unlock_epoch <= current_epoch {
            return Err(Error::TokenUnlockable);
        }
        let lock_epochs_remaining = original_unlock_epoch - current_epoch;
        match opt_epochs_to_reduce {
            Some(epochs_to_reduce) => {
                if epochs_to_reduce >= MIN_EPOCHS_TO_REDUCE && epochs_to_reduce
                    <= lock_epochs_remaining {
                    Ok(epochs_to_reduce)
                } else {
                    Err(Error::InvalidEpochsToReduce)
                }
            },
            None => Ok(lock_epochs_remaining),
        }
    }

    /// Shortens (or, with no requested reduction, terminates) the lock of
    /// the paid-in position: charges the interpolated penalty, burns and
    /// accumulates the penalty's shares, first depletes the user's energy by
    /// the position's full weight at its original unlock epoch and then
    /// re-adds the remainder's weight at the shortened one, and returns the
    /// re-locked (or, if the shortened lock expires now, unlocked) payment.
    /// On any fault nothing changes.
    fn reduce_lock_period_common<P: FeesCollectorProxy>(
        &mut self,
        proxy: &mut P,
        user: u64,
        payment: TokenPayment,
        opt_epochs_to_reduce: Option<u64>,
        current_epoch: u64,
    ) -> (r: Result<TokenPayment, Error>)
        requires
            old(self).wf(),
            old(self).energy.updated_no_later_than(current_epoch),
            old(self).positions_within_max_lock(current_epoch),
            current_epoch <= MAX_EPOCH,
        ensures
            Self::spec_reduce_post(
                *old(self),
                *final(self),
                *old(proxy),
                *final(proxy),
                user,
                payment,
                opt_epochs_to_reduce,
                current_epoch,
                r,
            ),
    {
        let original_unlock_epoch = match self.locked_token_attributes.get(payment.token_nonce) {
            Some(v) => *v,
            None => {
                return Err(Error::UnknownTokenNonce);
            },
        };
        let epochs_to_reduce = match self.resolve_opt_epochs_to_reduce(
            opt_epochs_to_reduce,
            original_unlock_epoch,
            current_epoch,
        ) {
            Ok(e) => e,
            Err(e) => {
                return Err(e);
            },
        };
        if payment.amount == 0 {
            return Err(Error::ZeroAmount);
        }
        proof {
            assert(self.locked_token_attributes@.contains_key(payment.token_nonce));
            assert(self.locked_token_attributes@[payment.token_nonce] <= current_epoch
                + self.max_lock_option);
        }
        let penalty_amount = self.calculate_penalty_amount(payment.amount, epochs_to_reduce);
        let unlocked_amount = payment.amount - penalty_amount;
        if unlocked_amount == 0 {
            return Err(Error::NoTokensAfterPenalty);
        }
        let new_unlock_epoch = original_unlock_epoch - epochs_to_reduce;
        let mut energy = self.energy.get_updated_energy_entry_for_user(user, current_epoch);
        match energy.deplete_after_early_unlock(
            payment.amount,
            original_unlock_epoch,
            current_epoch,
        ) {
            Ok(()) => {},
            Err(e) => {
                return Err(e);
            },
        }
        let relocked = new_unlock_epoch > current_epoch;
        if relocked && self.next_nonce == u64::MAX {
            return Err(Error::AmountOverflow);
        }
        if penalty_amount > 0 {
            match self.burn_penalty(proxy, payment.token_nonce, penalty_amount, current_epoch) {
                Ok(()) => {},
                Err(e) => {
                    return Err(e);
                },
            }
        }
        proof {
            lemma_mul_upper_bound(
                unlocked_amount as int,
                payment.amount as int,
                new_unlock_epoch as int - current_epoch as int,
                original_unlock_epoch as int - current_epoch as int,
            );
            vstd::arithmetic::mul::lemma_mul_nonnegative(
                unlocked_amount as int,
                new_unlock_epoch as int - current_epoch as int,
            );
        }
        match energy.add_after_token_lock(unlocked_amount, new_unlock_epoch, current_epoch) {
            Ok(()) => {},
            Err(_) => {
                proof {
                    assert(false);
                }
            },
        }
        let output_nonce: u64 = if relocked {
            let n = self.next_nonce;
            self.locked_token_attributes.set(n, new_unlock_epoch);
            self.next_nonce = n + 1;
            n
        } else {
            0
        };
        proof {
            let expected = old(self).spec_energy_after_reduce(
                user,
                payment,
                opt_epochs_to_reduce,
                current_epoch,
            );
            let entry0 = old(self).energy.entry_or_zero(user, current_epoch);
            assert(original_unlock_epoch == old(self).locked_token_attributes@[payment.token_nonce]);
            assert(epochs_to_reduce as int == old(self).spec_reduce_epochs(
                payment,
                opt_epochs_to_reduce,
                current_epoch,
            ));
            assert(penalty_amount as int == old(self).spec_reduce_penalty(
                payment,
                opt_epochs_to_reduce,
                current_epoch,
            ));
            assert(new_unlock_epoch as int == old(self).spec_new_unlock_epoch(
                payment,
                opt_epochs_to_reduce,
                current_epoch,
            ));
            if new_unlock_epoch == current_epoch {
                vstd::arithmetic::mul::lemma_mul_basics_2(unlocked_amount as int);
            }
            assert(energy.amount == entry0.amount - energy_weight(
                payment.amount as int,
                original_unlock_epoch as int,
                current_epoch as int,
            ) + energy_weight(
                unlocked_amount as int,
                new_unlock_epoch as int,
                current_epoch as int,
            ));
            assert(energy.amount == expected.amount);
            assert(energy.last_update_epoch == expected.last_update_epoch);
            assert(energy.total_locked_tokens == expected.total_locked_tokens);
        }
        match self.energy.set_energy_entry(user, energy) {
            Ok(()) => {},
            Err(_) => {
                proof {
                    assert(false);
                }
            },
        }
        proof {
            assert forall|n: u64| #[trigger] self.locked_token_attributes@.contains_key(n) implies 0
                < n < self.next_nonce && self.locked_token_attributes@[n] <= MAX_EPOCH by {
                if !(relocked && n == output_nonce) {
                    assert(old(self).locked_token_attributes@.contains_key(n));
                    assert(old(self).locked_token_attributes@[n] <= MAX_EPOCH);
                    assert(0 < n < old(self).next_nonce);
                }
            }
            if let Some(p) = self.fees_from_penalty_unlocking {
                assert(self.locked_token_attributes@.contains_key(p.nonce));
            }
            assert forall|u: u64| self.energy@.contains_key(u) implies (#[trigger] self.energy@[u]).last_update_epoch
                <= current_epoch by {
                if u != user {
                    assert(old(self).energy@.contains_key(u));
                    assert(old(self).energy@[u].last_update_epoch <= current_epoch);
                }
            }
        }
        Ok(TokenPayment { token_nonce: output_nonce, amount: unlocked_amount })
    }

    /// Unlocks the paid-in locked position instantly, for the penalty of
    /// reducing its lock by the full remaining duration.
    pub fn unlock_early<P: FeesCollectorProxy>(
        &mut self,
        proxy: &mut P,
        user: u64,
        payment: TokenPayment,
        current_epoch: u64,
    ) -> (r: Result<TokenPayment, Error>)
        requires
            old(self).wf(),
            old(self).energy.updated_no_later_than(current_epoch),
            old(self).positions_within_max_lock(current_epoch),
            current_epoch <= MAX_EPOCH,
        ensures
            Self::spec_reduce_post(
                *old(self),
                *final(self),
                *old(proxy),
                *final(proxy),
                user,
                payment,
                None::<u64>,
                current_epoch,
                r,
            ),
    {
        self.reduce_lock_period_common(proxy, user, payment, None, current_epoch)
    }

    /// Shortens the paid-in position's locking period by `epochs_to_reduce`,
    /// which must be a whole multiple of the reduction granularity, for the
    /// interpolated penalty.
    pub fn reduce_lock_period<P: FeesCollectorProxy>(
        &mut self,
        proxy: &mut P,
        user: u64,
        payment: TokenPayment,
        epochs_to_reduce: u64,
        current_epoch: u64,
    ) -> (r: Result<TokenPayment, Error>)
        requires
            old(self).wf(),
            old(self).energy.updated_no_later_than(current_epoch),
            old(self).positions_within_max_lock(current_epoch),
            current_epoch <= MAX_EPOCH,
        ensures
            epochs_to_reduce % EPOCHS_PER_YEAR == 0 ==> Self::spec_reduce_post(
                *old(self),
                *final(self),
                *old(proxy),
                *final(proxy),
                user,
                payment,
                Some(epochs_to_reduce),
                current_epoch,
                r,
            ),
            epochs_to_reduce % EPOCHS_PER_YEAR != 0 ==> r == Err::<TokenPayment, Error>(
                Error::NotMultipleOfGranularity,
            ) && *final(self) == *old(self) && *final(proxy) == *old(proxy),
    {
        if epochs_to_reduce % EPOCHS_PER_YEAR != 0 {
            return Err(Error::NotMultipleOfGranularity);
        }
        self.reduce_lock_period_common(proxy, user, payment, Some(epochs_to_reduce), current_epoch)
    }
}

} // verus!
