use energy_rewards::energy::Energy;
use energy_rewards::errors::Error;
use energy_rewards::unlock::{
    FeesCollectorProxy, NonceAmountPair, TokenPayment, UnlockWithPenaltyModule,
};

/// A fees collector that records every deposit it receives.
struct RecordingCollector {
    deposits: Vec<(u64, u64, u64)>,
}

impl RecordingCollector {
    fn new() -> RecordingCollector {
        RecordingCollector { deposits: Vec::new() }
    }
}

impl FeesCollectorProxy for RecordingCollector {
    fn deposit_swap_fees(&mut self, collector_address: u64, token_nonce: u64, amount: u64) {
        self.deposits.push((collector_address, token_nonce, amount));
    }
}

#[test]
fn lock_tokens_mints_a_position_and_credits_energy() {
    let mut m = UnlockWithPenaltyModule::new(1000, 5000, 0, 1440).unwrap();
    let payment = m.lock_tokens(1, 1_000_000_000, 31, 1).unwrap();
    assert_eq!(payment, TokenPayment { token_nonce: 1, amount: 1_000_000_000 });
    assert_eq!(m.next_nonce, 2);
    let entry = m.energy.get_updated_energy_entry_for_user(1, 1);
    assert_eq!(entry.amount, 30_000_000_000);
    assert_eq!(entry.total_locked_tokens, 1_000_000_000);
    assert_eq!(entry.last_update_epoch, 1);
}

#[test]
fn unlock_early_depletes_energy_and_charges_the_interpolated_penalty() {
    // A 1_000_000_000 lock with unlock epoch 31, unlocked early at epoch 1:
    // thirty epochs remain out of a longest lock of 1440, with penalty
    // bounds 1000 and 5000 basis points.
    let mut m = UnlockWithPenaltyModule::new(1000, 5000, 0, 1440).unwrap();
    let mut proxy = RecordingCollector::new();
    let payment = m.lock_tokens(1, 1_000_000_000, 31, 1).unwrap();

    let out = m.unlock_early(&mut proxy, 1, payment, 1).unwrap();
    // penalty = 1_000_000_000 * (1000 + 4000 * 30 / 1440) / 10_000
    assert_eq!(out, TokenPayment { token_nonce: 0, amount: 891_700_000 });

    // energy was depleted by 1_000_000_000 * 30 exactly
    let entry = m.energy.get_updated_energy_entry_for_user(1, 1);
    assert_eq!(entry.amount, 0);
    assert_eq!(entry.total_locked_tokens, 0);

    // with a zero burn percentage the whole penalty awaits the collector
    assert_eq!(
        m.fees_from_penalty_unlocking,
        Some(NonceAmountPair { nonce: 1, amount: 108_300_000 })
    );
    assert!(proxy.deposits.is_empty());
}

#[test]
fn reduce_lock_period_relocks_the_remainder() {
    let mut m = UnlockWithPenaltyModule::new(1000, 5000, 5000, 1440).unwrap();
    let mut proxy = RecordingCollector::new();
    let payment = m.lock_tokens(2, 500_000_000, 720, 0).unwrap();

    assert_eq!(
        m.reduce_lock_period(&mut proxy, 2, payment, 100, 0).unwrap_err(),
        Error::NotMultipleOfGranularity
    );

    let out = m.reduce_lock_period(&mut proxy, 2, payment, 360, 0).unwrap();
    // penalty = 500_000_000 * (1000 + 4000 * 360 / 1440) / 10_000 = 100_000_000,
    // and the remainder is re-locked under a fresh nonce at epoch 360
    assert_eq!(out, TokenPayment { token_nonce: 2, amount: 400_000_000 });

    let entry = m.energy.get_updated_energy_entry_for_user(2, 0);
    // deplete 500_000_000 * 720, then add 400_000_000 * 360
    assert_eq!(entry.amount, 144_000_000_000);
    assert_eq!(entry.total_locked_tokens, 400_000_000);

    // half the penalty is burned, half accumulated for the collector
    assert_eq!(
        m.fees_from_penalty_unlocking,
        Some(NonceAmountPair { nonce: 1, amount: 50_000_000 })
    );
}

#[test]
fn merged_fees_keep_the_earliest_acquired_attributes() {
    let mut m = UnlockWithPenaltyModule::new(1000, 5000, 5000, 1440).unwrap();
    let mut proxy = RecordingCollector::new();
    let first = m.lock_tokens(2, 500_000_000, 720, 0).unwrap();
    m.reduce_lock_period(&mut proxy, 2, first, 360, 0).unwrap();
    assert_eq!(
        m.fees_from_penalty_unlocking,
        Some(NonceAmountPair { nonce: 1, amount: 50_000_000 })
    );

    // a later penalty of another nonce merges into the existing record
    let second = m.lock_tokens(3, 100, 360, 0).unwrap();
    assert_eq!(second.token_nonce, 3);
    let out = m.unlock_early(&mut proxy, 3, second, 0).unwrap();
    // penalty = 100 * 2000 / 10_000 = 20; burn 10; accumulate 10
    assert_eq!(out, TokenPayment { token_nonce: 0, amount: 80 });
    assert_eq!(
        m.fees_from_penalty_unlocking,
        Some(NonceAmountPair { nonce: 1, amount: 50_000_010 })
    );
}

#[test]
fn fees_are_forwarded_once_a_week_has_elapsed() {
    let mut m = UnlockWithPenaltyModule::new(1000, 5000, 0, 1440).unwrap();
    let mut proxy = RecordingCollector::new();
    m.set_fees_collector_address(42, true).unwrap();

    let first = m.lock_tokens(5, 10_000, 1000, 2).unwrap();
    // epoch 2 < 0 + 7: the penalty stays pending
    let out = m.unlock_early(&mut proxy, 5, first, 2).unwrap();
    assert_eq!(out.token_nonce, 0);
    assert!(m.fees_from_penalty_unlocking.is_some());
    assert!(proxy.deposits.is_empty());

    // epoch 9 >= 0 + 7: the next penalty deposit triggers the forwarding
    let second = m.lock_tokens(5, 10_000, 1000, 9).unwrap();
    m.unlock_early(&mut proxy, 5, second, 9).unwrap();
    assert_eq!(proxy.deposits.len(), 1);
    let (addr, nonce, _amount) = proxy.deposits[0];
    assert_eq!(addr, 42);
    assert_eq!(nonce, first.token_nonce);
    assert_eq!(m.fees_from_penalty_unlocking, None);
    assert_eq!(m.last_epoch_fee_sent_to_collector, 9);
}

#[test]
fn send_fees_to_collector_requires_pending_fees_and_an_address() {
    let mut m = UnlockWithPenaltyModule::new(1000, 5000, 0, 1440).unwrap();
    let mut proxy = RecordingCollector::new();
    assert_eq!(
        m.send_fees_to_collector(&mut proxy, 3).unwrap_err(),
        Error::NoPendingFees
    );

    let payment = m.lock_tokens(1, 10_000, 31, 1).unwrap();
    m.unlock_early(&mut proxy, 1, payment, 1).unwrap();
    assert!(m.fees_from_penalty_unlocking.is_some());
    assert_eq!(
        m.send_fees_to_collector(&mut proxy, 3).unwrap_err(),
        Error::NoCollectorAddress
    );

    m.set_fees_collector_address(42, true).unwrap();
    let pending = m.fees_from_penalty_unlocking.unwrap();
    m.send_fees_to_collector(&mut proxy, 3).unwrap();
    assert_eq!(m.fees_from_penalty_unlocking, None);
    assert_eq!(m.last_epoch_fee_sent_to_collector, 3);
    assert_eq!(proxy.deposits, vec![(42, pending.nonce, pending.amount)]);
}

#[test]
fn reduce_validation_faults_leave_the_state_unchanged() {
    let mut m = UnlockWithPenaltyModule::new(1000, 5000, 0, 1440).unwrap();
    let mut proxy = RecordingCollector::new();
    let payment = m.lock_tokens(1, 10_000, 31, 1).unwrap();

    let unknown = TokenPayment { token_nonce: 99, amount: 10_000 };
    assert_eq!(
        m.unlock_early(&mut proxy, 1, unknown, 1).unwrap_err(),
        Error::UnknownTokenNonce
    );

    // the position is already unlockable at its unlock epoch
    assert_eq!(
        m.unlock_early(&mut proxy, 1, payment, 31).unwrap_err(),
        Error::TokenUnlockable
    );

    // a reduction beyond the remaining lock is rejected
    assert_eq!(
        m.reduce_lock_period(&mut proxy, 1, payment, 360, 1).unwrap_err(),
        Error::InvalidEpochsToReduce
    );

    let empty = TokenPayment { token_nonce: 1, amount: 0 };
    assert_eq!(m.unlock_early(&mut proxy, 1, empty, 1).unwrap_err(), Error::ZeroAmount);

    // nothing changed while the faults were reported
    let entry = m.energy.get_updated_energy_entry_for_user(1, 1);
    assert_eq!(entry.amount, 300_000);
    assert_eq!(entry.total_locked_tokens, 10_000);
    assert_eq!(m.next_nonce, 2);
}

#[test]
fn full_penalty_that_consumes_the_payment_is_rejected() {
    let mut m = UnlockWithPenaltyModule::new(10_000, 10_000, 0, 1440).unwrap();
    let mut proxy = RecordingCollector::new();
    let payment = m.lock_tokens(1, 10, 1440, 0).unwrap();
    assert_eq!(
        m.unlock_early(&mut proxy, 1, payment, 0).unwrap_err(),
        Error::NoTokensAfterPenalty
    );
}

#[test]
fn depleting_more_than_the_recorded_energy_is_a_corruption_fault() {
    let mut m = UnlockWithPenaltyModule::new(1000, 5000, 0, 1440).unwrap();
    let mut proxy = RecordingCollector::new();
    m.lock_tokens(1, 100, 360, 0).unwrap();
    // the host hands in a payment larger than what was ever locked
    let forged = TokenPayment { token_nonce: 1, amount: 200 };
    assert_eq!(
        m.unlock_early(&mut proxy, 1, forged, 0).unwrap_err(),
        Error::CorruptedEnergyState
    );
    let entry = m.energy.get_updated_energy_entry_for_user(1, 0);
    assert_eq!(entry.amount, 36_000);
}

#[test]
fn energy_entries_decay_linearly_and_can_dip_negative_in_flight() {
    let mut e = Energy { amount: 100, last_update_epoch: 0, total_locked_tokens: 10 };
    e.deplete(5);
    assert_eq!(e.amount, 50);
    assert_eq!(e.last_update_epoch, 5);
    e.deplete(11);
    assert_eq!(e.amount, -10);

    let mut f = Energy { amount: 0, last_update_epoch: 0, total_locked_tokens: 0 };
    f.add_after_token_lock(7, 10, 4).unwrap();
    assert_eq!(f.amount, 42);
    assert_eq!(f.total_locked_tokens, 7);
    assert_eq!(
        f.deplete_after_early_unlock(8, 10, 4).unwrap_err(),
        Error::CorruptedEnergyState
    );
    f.deplete_after_early_unlock(7, 10, 4).unwrap();
    assert_eq!(f.amount, 0);
    assert_eq!(f.total_locked_tokens, 0);
}

#[test]
fn energy_arithmetic_reports_overflow_instead_of_wrapping() {
    let mut e = Energy { amount: i128::MAX, last_update_epoch: 0, total_locked_tokens: 0 };
    assert_eq!(e.add_after_token_lock(1, 1, 0).unwrap_err(), Error::AmountOverflow);
    assert_eq!(e.amount, i128::MAX);

    let mut f = Energy { amount: 0, last_update_epoch: 0, total_locked_tokens: u64::MAX };
    assert_eq!(f.add_after_token_lock(1, 1, 0).unwrap_err(), Error::AmountOverflow);
}

#[test]
fn the_ledger_never_persists_a_negative_entry() {
    let mut m = UnlockWithPenaltyModule::new(1000, 5000, 0, 1440).unwrap();
    let negative = Energy { amount: -1, last_update_epoch: 0, total_locked_tokens: 0 };
    assert_eq!(
        m.energy.set_energy_entry(9, negative).unwrap_err(),
        Error::CorruptedEnergyState
    );
    assert_eq!(m.energy.get_energy_amount_non_zero(9, 0).unwrap_err(), Error::NoEnergy);

    let big = Energy {
        amount: (u64::MAX as i128) + 1,
        last_update_epoch: 0,
        total_locked_tokens: 0,
    };
    m.energy.set_energy_entry(9, big).unwrap();
    assert_eq!(
        m.energy.get_energy_amount_non_zero(9, 0).unwrap_err(),
        Error::AmountOverflow
    );

    let fine = Energy { amount: 5, last_update_epoch: 0, total_locked_tokens: 0 };
    m.energy.set_energy_entry(9, fine).unwrap();
    assert_eq!(m.energy.get_energy_amount_non_zero(9, 0).unwrap(), 5);
}
