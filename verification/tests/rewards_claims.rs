use energy_rewards::errors::Error;
use energy_rewards::fees_splitting::{
    FeesSplittingModule, RewardPayment, TokenAmountPair, WeeklyRewardsSplittingTraitsModule,
};
use energy_rewards::kvmap::KvMap;
use energy_rewards::unlock::UnlockWithPenaltyModule;

/// A collector that serves a fixed reward list and counts its invocations.
struct CountingCollector {
    rewards: Vec<TokenAmountPair>,
    calls: u64,
}

impl CountingCollector {
    fn new(rewards: Vec<TokenAmountPair>) -> CountingCollector {
        CountingCollector { rewards, calls: 0 }
    }
}

impl WeeklyRewardsSplittingTraitsModule for CountingCollector {
    fn collect_rewards_for_week(&mut self, _week: u64) -> Vec<TokenAmountPair> {
        self.calls += 1;
        let mut out = Vec::new();
        let mut i = 0;
        while i < self.rewards.len() {
            out.push(self.rewards[i]);
            i += 1;
        }
        out
    }
}

fn pair(token: u64, amount: u64) -> TokenAmountPair {
    TokenAmountPair { token, amount }
}

#[test]
fn week_totals_are_collected_once_and_cached() {
    let mut m = FeesSplittingModule::new();
    let mut c = CountingCollector::new(vec![pair(11, 1000), pair(12, 250)]);

    let first = m.collect_and_get_rewards_for_week(&mut c, 3);
    assert_eq!(first, vec![pair(11, 1000), pair(12, 250)]);
    assert_eq!(c.calls, 1);

    // the second invocation returns the bit-identical cached value and does
    // not consult the collector again
    let second = m.collect_and_get_rewards_for_week(&mut c, 3);
    assert_eq!(second, first);
    assert_eq!(c.calls, 1);

    // another week is collected on its own first demand
    let other = m.collect_and_get_rewards_for_week(&mut c, 4);
    assert_eq!(other, first);
    assert_eq!(c.calls, 2);
}

#[test]
fn user_rewards_are_floor_proportional_and_skip_zero_shares() {
    let mut m = FeesSplittingModule::new();
    let mut snapshots: KvMap<u64> = KvMap::new();
    snapshots.set(7, 40);
    snapshots.set(8, 60);
    m.user_energy_for_week.set(2, snapshots);
    m.total_energy_for_week.set(2, 100);

    let rewards = vec![pair(11, 100), pair(12, 3), pair(13, 0)];
    let payout = m.get_user_rewards_for_week(7, 2, &rewards);
    // 100 * 40 / 100 = 40; 3 * 40 / 100 = 1; 0 * 40 / 100 omitted
    assert_eq!(
        payout,
        vec![
            RewardPayment { token: 11, amount: 40 },
            RewardPayment { token: 12, amount: 1 },
        ]
    );

    // a user with no snapshot for the week receives nothing
    let nothing = m.get_user_rewards_for_week(9, 2, &rewards);
    assert_eq!(nothing, Vec::<RewardPayment>::new());
}

#[test]
fn add_energy_for_next_week_replaces_the_previous_snapshot() {
    let mut m = FeesSplittingModule::new();
    m.add_energy_for_next_week(7, 0, 50).unwrap();
    m.add_energy_for_next_week(8, 0, 30).unwrap();
    assert_eq!(*m.total_energy_for_week.get(1).unwrap(), 80);
    assert_eq!(*m.total_users_for_week.get(1).unwrap(), 2);

    // a refresh replaces the user's contribution instead of adding to it,
    // and does not count the user twice
    m.add_energy_for_next_week(7, 0, 20).unwrap();
    assert_eq!(*m.total_energy_for_week.get(1).unwrap(), 50);
    assert_eq!(*m.total_users_for_week.get(1).unwrap(), 2);
    assert_eq!(*m.user_energy_for_week.get(1).unwrap().get(7).unwrap(), 20);
    assert_eq!(*m.user_energy_for_week.get(1).unwrap().get(8).unwrap(), 30);
}

#[test]
fn claims_proceed_in_week_order() {
    let mut m = FeesSplittingModule::new();
    let mut c = CountingCollector::new(vec![pair(11, 1000)]);

    // a week ahead of the claim cursor is refused: no week in between can
    // be skipped and silently forfeited
    assert_eq!(
        m.claim_rewards(&mut c, 7, 1, 3, 50).unwrap_err(),
        Error::WeekNotYetClaimable
    );
    assert_eq!(c.calls, 0);

    m.claim_rewards(&mut c, 7, 0, 3, 50).unwrap();
    m.claim_rewards(&mut c, 7, 1, 3, 50).unwrap();
    assert_eq!(m.get_current_claim_progress(7), 2);
}

#[test]
fn claim_validates_the_week_and_the_energy() {
    let mut m = FeesSplittingModule::new();
    let mut c = CountingCollector::new(vec![pair(11, 1000)]);
    assert_eq!(
        m.claim_rewards(&mut c, 7, 2, 1, 50).unwrap_err(),
        Error::InvalidWeek
    );
    assert_eq!(m.claim_rewards(&mut c, 7, 1, 1, 0).unwrap_err(), Error::NoEnergy);
    assert_eq!(c.calls, 0);
}

#[test]
fn claiming_a_week_twice_pays_nothing_the_second_time() {
    let mut m = FeesSplittingModule::new();
    let mut c = CountingCollector::new(vec![pair(11, 1000)]);

    // week 0: no snapshot yet, so no payout, but the cursor and the coming
    // week's snapshot advance
    assert_eq!(m.get_current_claim_progress(7), 0);
    let p0 = m.claim_rewards(&mut c, 7, 0, 0, 50).unwrap();
    assert_eq!(p0, Vec::<RewardPayment>::new());
    assert_eq!(m.get_current_claim_progress(7), 1);

    // week 1: the snapshot of 50 is the whole total, so the full rewards come
    let p1 = m.claim_rewards(&mut c, 7, 1, 1, 50).unwrap();
    assert_eq!(p1, vec![RewardPayment { token: 11, amount: 1000 }]);

    // claiming week 1 again yields zero additional payout
    let p2 = m.claim_rewards(&mut c, 7, 1, 1, 50).unwrap();
    assert_eq!(p2, Vec::<RewardPayment>::new());

    // and the bookkeeping for the coming week is still refreshed
    assert_eq!(*m.user_energy_for_week.get(2).unwrap().get(7).unwrap(), 50);
    assert_eq!(*m.total_energy_for_week.get(2).unwrap(), 50);
}

#[test]
fn distributed_shares_never_exceed_the_recorded_total() {
    let mut m = FeesSplittingModule::new();
    let mut c = CountingCollector::new(vec![pair(11, 10)]);

    // three users register their energy for week 1 by claiming week 0
    m.claim_rewards(&mut c, 100, 0, 0, 30).unwrap();
    m.claim_rewards(&mut c, 200, 0, 0, 50).unwrap();
    m.claim_rewards(&mut c, 300, 0, 0, 21).unwrap();
    assert_eq!(*m.total_energy_for_week.get(1).unwrap(), 101);

    // each user claims week 1; floor division under-distributes, never more
    let a = m.claim_rewards(&mut c, 100, 1, 1, 30).unwrap();
    let b = m.claim_rewards(&mut c, 200, 1, 1, 50).unwrap();
    let d = m.claim_rewards(&mut c, 300, 1, 1, 21).unwrap();
    assert_eq!(a, vec![RewardPayment { token: 11, amount: 2 }]);
    assert_eq!(b, vec![RewardPayment { token: 11, amount: 4 }]);
    assert_eq!(d, vec![RewardPayment { token: 11, amount: 2 }]);
    let handed_out: u64 = a[0].amount + b[0].amount + d[0].amount;
    assert!(handed_out <= 10);
}

#[test]
fn a_claim_reflects_every_lock_of_the_week() {
    // Two sequential locks by the same user, then a claim: the payout must
    // rest on the sum of both locks' energy, not on the last one alone.
    let mut locks = UnlockWithPenaltyModule::new(1000, 5000, 0, 1440).unwrap();
    locks.lock_tokens(9, 100, 11, 1).unwrap();
    locks.lock_tokens(9, 300, 21, 1).unwrap();
    let energy = locks.energy.get_energy_amount_non_zero(9, 1).unwrap();
    // 100 * 10 + 300 * 20
    assert_eq!(energy, 7_000);

    let mut m = FeesSplittingModule::new();
    let mut c = CountingCollector::new(vec![pair(5, 70)]);
    m.claim_rewards(&mut c, 9, 0, 0, energy).unwrap();
    assert_eq!(*m.user_energy_for_week.get(1).unwrap().get(9).unwrap(), 7_000);

    let payout = m.claim_rewards(&mut c, 9, 1, 1, energy).unwrap();
    // the whole pool: with only the last lock counted this would be 60
    assert_eq!(payout, vec![RewardPayment { token: 5, amount: 70 }]);
}

#[test]
fn kvmap_binds_reads_and_removes_keys() {
    let mut m: KvMap<u64> = KvMap::new();
    assert!(m.get(1).is_none());
    m.set(1, 10);
    m.set(2, 20);
    assert_eq!(*m.get(1).unwrap(), 10);
    m.set(1, 11);
    assert_eq!(*m.get(1).unwrap(), 11);
    assert_eq!(m.remove(1), Some(11));
    assert_eq!(m.remove(1), None);
    assert_eq!(*m.get(2).unwrap(), 20);
}
