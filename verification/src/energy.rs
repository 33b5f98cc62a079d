use crate::errors::Error;
use crate::kvmap::KvMap;
use vstd::arithmetic::mul::lemma_mul_upper_bound;
use vstd::prelude::*;

verus! {

/// Upper bound on epoch numbers this library accepts. Epochs are short,
/// host-provided time units; keeping them below `2^32` lets every
/// `amount * epochs` product fit comfortably in the fixed-width integers
/// used here.
pub const MAX_EPOCH: u64 = 0x1_0000_0000;

/// The energy contributed (or withdrawn) by `token_amount` tokens whose
/// lock runs from `current_epoch` to `unlock_epoch`.
pub open spec fn energy_weight(token_amount: int, unlock_epoch: int, current_epoch: int) -> int {
    token_amount * (unlock_epoch - current_epoch)
}

/// A user's energy entry: the decaying weighted balance of their locked
/// tokens. `amount` is signed because it can dip below zero while an
/// operation is in flight; a negative value is never persisted in the
/// ledger.
#[derive(Clone, Copy, Debug, PartialEq, Eq, Structural)]
pub struct Energy {
    pub amount: i128,
    pub last_update_epoch: u64,
    pub total_locked_tokens: u64,
}

impl Energy {
    /// An entry is fit to be persisted when its amount is non-negative.
    pub open spec fn valid(self) -> bool {
        0 <= self.amount
    }

    /// The amount this entry decays to by `epoch`: each locked token loses
    /// one unit of energy per elapsed epoch.
    pub open spec fn decayed_amount(self, epoch: u64) -> int {
        self.amount - (self.total_locked_tokens as int) * (epoch - self.last_update_epoch)
    }

    /// The zero entry, as of `current_epoch`.
    pub fn new_zero(current_epoch: u64) -> (r: Energy)
        ensures
            r.amount == 0,
            r.last_update_epoch == current_epoch,
            r.total_locked_tokens == 0,
    {
        Energy { amount: 0, last_update_epoch: current_epoch, total_locked_tokens: 0 }
    }

    /// Brings the entry up to date: applies the linear decay accumulated
    /// since the last update and stamps the entry with `current_epoch`.
    pub fn deplete(&mut self, current_epoch: u64)
        requires
            0 <= old(self).amount,
            old(self).last_update_epoch <= current_epoch <= MAX_EPOCH,
        ensures
            final(self).amount == old(self).decayed_amount(current_epoch),
            final(self).last_update_epoch == current_epoch,
            final(self).total_locked_tokens == old(self).total_locked_tokens,
    {
        let delta = current_epoch - self.last_update_epoch;
        proof {
            lemma_mul_upper_bound(
                self.total_locked_tokens as int,
                u64::MAX as int,
                delta as int,
                MAX_EPOCH as int,
            );
        }
        let decay = (self.total_locked_tokens as u128) * (delta as u128);
        let amt = self.amount as u128;
        if decay <= amt {
            self.amount = (amt - decay) as i128;
        } else {
            self.amount = -((decay - amt) as i128);
        }
        self.last_update_epoch = current_epoch;
    }

    /// Withdraws the energy of an early-unlocked position: `token_amount`
    /// tokens that would have stayed locked until `prev_unlock_epoch` leave
    /// the entry as of `current_epoch`. The depletion driving the amount
    /// below zero, or removing more tokens than are recorded as locked,
    /// signals corrupted accounting: the entry is left untouched and the
    /// operation must abort.
    pub fn deplete_after_early_unlock(
        &mut self,
        token_amount: u64,
        prev_unlock_epoch: u64,
        current_epoch: u64,
    ) -> (r: Result<(), Error>)
        requires
            current_epoch <= prev_unlock_epoch <= MAX_EPOCH,
        ensures
            r is Ok <==> (0 <= old(self).amount - energy_weight(
                token_amount as int,
                prev_unlock_epoch as int,
                current_epoch as int,
            ) && token_amount <= old(self).total_locked_tokens),
            r is Ok ==> final(self).amount == old(self).amount - energy_weight(
                token_amount as int,
                prev_unlock_epoch as int,
                current_epoch as int,
            ) && final(self).total_locked_tokens == old(self).total_locked_tokens - token_amount
                && final(self).last_update_epoch == old(self).last_update_epoch,
            r is Err ==> *final(self) == *old(self) && r == Err::<(), Error>(
                Error::CorruptedEnergyState,
            ),
    {
        let delta = prev_unlock_epoch - current_epoch;
        proof {
            lemma_mul_upper_bound(
                token_amount as int,
                u64::MAX as int,
                delta as int,
                MAX_EPOCH as int,
            );
        }
        let depletion = (token_amount as u128) * (delta as u128);
        if token_amount > self.total_locked_tokens || self.amount < 0 {
            return Err(Error::CorruptedEnergyState);
        }
        let amt = self.amount as u128;
        if depletion > amt {
            return Err(Error::CorruptedEnergyState);
        }
        self.amount = (amt - depletion) as i128;
        self.total_locked_tokens = self.total_locked_tokens - token_amount;
        Ok(())
    }

    /// Credits the energy of a freshly locked position: `token_amount`
    /// tokens locked until `unlock_epoch`, as of `current_epoch`. A lock
    /// that expires immediately (`unlock_epoch == current_epoch`) carries no
    /// energy and locks nothing: the entry stays as it is.
    pub fn add_after_token_lock(
        &mut self,
        token_amount: u64,
        unlock_epoch: u64,
        current_epoch: u64,
    ) -> (r: Result<(), Error>)
        requires
            current_epoch <= unlock_epoch <= MAX_EPOCH,
        ensures
            r is Ok <==> (unlock_epoch > current_epoch ==> (old(self).amount + energy_weight(
                token_amount as int,
                unlock_epoch as int,
                current_epoch as int,
            ) <= i128::MAX && old(self).total_locked_tokens + token_amount <= u64::MAX)),
            r is Ok && unlock_epoch > current_epoch ==> final(self).amount == old(self).amount
                + energy_weight(token_amount as int, unlock_epoch as int, current_epoch as int)
                && final(self).total_locked_tokens == old(self).total_locked_tokens + token_amount
                && final(self).last_update_epoch == old(self).last_update_epoch,
            unlock_epoch == current_epoch ==> r is Ok && *final(self) == *old(self),
            r is Err ==> *final(self) == *old(self) && r == Err::<(), Error>(Error::AmountOverflow),
    {
        if unlock_epoch == current_epoch {
            return Ok(());
        }
        let delta = unlock_epoch - current_epoch;
        proof {
            lemma_mul_upper_bound(
                token_amount as int,
                u64::MAX as int,
                delta as int,
                MAX_EPOCH as int,
            );
        }
        let gain = ((token_amount as u128) * (delta as u128)) as i128;
        let new_amount = match self.amount.checked_add(gain) {
            Some(v) => v,
            None => {
                return Err(Error::AmountOverflow);
            },
        };
        let new_locked = match self.total_locked_tokens.checked_add(token_amount) {
            Some(v) => v,
            None => {
                return Err(Error::AmountOverflow);
            },
        };
        self.amount = new_amount;
        self.total_locked_tokens = new_locked;
        Ok(())
    }
}

/// The energy ledger: one entry per user, keyed by the user's address.
/// Persisted entries never hold a negative amount.
pub struct EnergyLedger {
    entries: KvMap<Energy>,
}

impl View for EnergyLedger {
    type V = Map<u64, Energy>;

    closed spec fn view(&self) -> Map<u64, Energy> {
        self.entries@
    }
}

impl EnergyLedger {
    /// The user's entry brought up to date at `epoch`; the zero entry if the
    /// user has none.
    pub open spec fn entry_or_zero(&self, user: u64, epoch: u64) -> Energy {
        if self@.contains_key(user) {
            Energy {
                amount: self@[user].decayed_amount(epoch) as i128,
                last_update_epoch: epoch,
                total_locked_tokens: self@[user].total_locked_tokens,
            }
        } else {
            Energy { amount: 0, last_update_epoch: epoch, total_locked_tokens: 0 }
        }
    }

    pub closed spec fn wf(&self) -> bool {
        &&& self.entries.wf()
        &&& forall|u: u64| self.entries@.contains_key(u) ==> (#[trigger] self.entries@[u]).valid()
    }

    /// All entries were last updated no later than `epoch`; holds of every
    /// reachable ledger state because the host epoch clock never goes
    /// backwards.
    pub open spec fn updated_no_later_than(&self, epoch: u64) -> bool {
        forall|u: u64| self@.contains_key(u) ==> (#[trigger] self@[u]).last_update_epoch <= epoch
    }

    /// Law: sequential locks in the same epoch accumulate. Writing the
    /// locked entry twice — as two lock operations in one epoch do — leaves
    /// the user's energy larger by the sum of both contributions,
    /// `a1 * (u1 - epoch) + a2 * (u2 - epoch)`, never by the last one alone;
    /// a claim whose snapshot is taken from this entry therefore pays the
    /// proportional share of that sum.
    pub proof fn lemma_sequential_locks_accumulate(
        first: &EnergyLedger,
        second: &EnergyLedger,
        third: &EnergyLedger,
        user: u64,
        epoch: u64,
        a1: u64,
        u1: u64,
        a2: u64,
        u2: u64,
    )
        requires
            epoch <= u1,
            epoch <= u2,
            0 <= first.entry_or_zero(user, epoch).amount + energy_weight(
                a1 as int,
                u1 as int,
                epoch as int,
            ) + energy_weight(a2 as int, u2 as int, epoch as int) <= i128::MAX,
            first.entry_or_zero(user, epoch).total_locked_tokens + a1 + a2 <= u64::MAX,
            second@ == first@.insert(
                user,
                Energy {
                    amount: (first.entry_or_zero(user, epoch).amount + energy_weight(
                        a1 as int,
                        u1 as int,
                        epoch as int,
                    )) as i128,
                    last_update_epoch: epoch,
                    total_locked_tokens: (first.entry_or_zero(user, epoch).total_locked_tokens
                        + a1) as u64,
                },
            ),
            third@ == second@.insert(
                user,
                Energy {
                    amount: (second.entry_or_zero(user, epoch).amount + energy_weight(
                        a2 as int,
                        u2 as int,
                        epoch as int,
                    )) as i128,
                    last_update_epoch: epoch,
                    total_locked_tokens: (second.entry_or_zero(user, epoch).total_locked_tokens
                        + a2) as u64,
                },
            ),
        ensures
            third.entry_or_zero(user, epoch).amount == first.entry_or_zero(user, epoch).amount
                + energy_weight(a1 as int, u1 as int, epoch as int) + energy_weight(
                a2 as int,
                u2 as int,
                epoch as int,
            ),
            third.entry_or_zero(user, epoch).total_locked_tokens == first.entry_or_zero(
                user,
                epoch,
            ).total_locked_tokens + a1 + a2,
    {
        broadcast use vstd::arithmetic::mul::lemma_mul_basics_2;

        vstd::arithmetic::mul::lemma_mul_nonnegative(a1 as int, u1 as int - epoch as int);
        vstd::arithmetic::mul::lemma_mul_nonnegative(a2 as int, u2 as int - epoch as int);
    }

    /// What was updated no later than one epoch was updated no later than
    /// any later epoch: the bound weakens as the host clock advances.
    pub proof fn lemma_updated_no_later_monotonic(&self, earlier: u64, later: u64)
        requires
            self.updated_no_later_than(earlier),
            earlier <= later,
        ensures
            self.updated_no_later_than(later),
    {
    }

    /// Law: persisted energy entries are never negative. Every operation of
    /// this library that writes the ledger either keeps it well formed or
    /// aborts without writing, so in every reachable ledger state every
    /// user's recorded energy amount is at least zero.
    pub proof fn lemma_entries_never_negative(&self)
        requires
            self.wf(),
        ensures
            forall|u: u64| self@.contains_key(u) ==> (#[trigger] self@[u]).amount >= 0,
    {
        assert forall|u: u64| self@.contains_key(u) implies (#[trigger] self@[u]).amount >= 0 by {
            assert(self.entries@[u].valid());
        }
    }

    pub fn new() -> (r: Self)
        ensures
            r.wf(),
            r@ == Map::<u64, Energy>::empty(),
    {
        EnergyLedger { entries: KvMap::new() }
    }

    /// The user's energy entry brought up to date at `current_epoch`; the
    /// zero entry if the user has none. The returned amount can be negative
    /// when the recorded positions have fully decayed; it is in-flight only
    /// and is validated again before it is persisted.
    pub fn get_updated_energy_entry_for_user(&self, user: u64, current_epoch: u64) -> (r: Energy)
        requires
            self.wf(),
            self.updated_no_later_than(current_epoch),
            current_epoch <= MAX_EPOCH,
        ensures
            r.amount == if self@.contains_key(user) {
                self@[user].decayed_amount(current_epoch)
            } else {
                0
            },
            r.last_update_epoch == current_epoch,
            r.total_locked_tokens == if self@.contains_key(user) {
                self@[user].total_locked_tokens
            } else {
                0 as u64
            },
            r == self.entry_or_zero(user, current_epoch),
    {
        match self.entries.get(user) {
            Some(e) => {
                proof {
                    assert(self.entries@[user].valid());
                    assert(self@[user].last_update_epoch <= current_epoch);
                }
                let mut entry = *e;
                entry.deplete(current_epoch);
                entry
            },
            None => Energy::new_zero(current_epoch),
        }
    }

    /// Persists `energy` as the user's entry. A negative amount signals
    /// corrupted accounting and is refused, leaving the ledger untouched.
    pub fn set_energy_entry(&mut self, user: u64, energy: Energy) -> (r: Result<(), Error>)
        requires
            old(self).wf(),
        ensures
            final(self).wf(),
            r is Ok <==> energy.valid(),
            r is Ok ==> final(self)@ == old(self)@.insert(user, energy),
            r is Err ==> *final(self) == *old(self) && r == Err::<(), Error>(
                Error::CorruptedEnergyState,
            ),
    {
        if energy.amount < 0 {
            return Err(Error::CorruptedEnergyState);
        }
        self.entries.set(user, energy);
        Ok(())
    }

    /// The user's decayed energy at `current_epoch`, required to be strictly
    /// positive and to fit the snapshot width used by the weekly splitter.
    pub fn get_energy_amount_non_zero(&self, user: u64, current_epoch: u64) -> (r: Result<
        u64,
        Error,
    >)
        requires
            self.wf(),
            self.updated_no_later_than(current_epoch),
            current_epoch <= MAX_EPOCH,
        ensures
            ({
                let decayed = if self@.contains_key(user) {
                    self@[user].decayed_amount(current_epoch)
                } else {
                    0
                };
                match r {
                    Ok(v) => v == decayed && 0 < decayed <= u64::MAX,
                    Err(e) => (e == Error::NoEnergy && decayed <= 0) || (e
                        == Error::AmountOverflow && decayed > u64::MAX),
                }
            }),
    {
        let entry = self.get_updated_energy_entry_for_user(user, current_epoch);
        if entry.amount <= 0 {
            return Err(Error::NoEnergy);
        }
        if entry.amount > u64::MAX as i128 {
            return Err(Error::AmountOverflow);
        }
        Ok(entry.amount as u64)
    }
}

} // verus!
