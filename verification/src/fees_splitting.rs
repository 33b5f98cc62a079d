use crate::errors::Error;
use crate::kvmap::KvMap;
use vstd::prelude::*;

verus! {

/// One reward token and the amount of it accumulated for a week.
#[derive(Clone, Copy, Debug, PartialEq, Eq, Structural)]
pub struct TokenAmountPair {
    pub token: u64,
    pub amount: u64,
}

/// One reward token and the amount of it paid out to a user.
#[derive(Clone, Copy, Debug, PartialEq, Eq, Structural)]
pub struct RewardPayment {
    pub token: u64,
    pub amount: u64,
}

/// The sum of the values of a key-value sequence.
pub open spec fn sum_amounts(s: Seq<(u64, u64)>) -> int
    decreases s.len(),
{
    if s.len() == 0 {
        0
    } else {
        sum_amounts(s.drop_last()) + s.last().1
    }
}

pub proof fn lemma_sum_nonneg(s: Seq<(u64, u64)>)
    ensures
        0 <= sum_amounts(s),
    decreases s.len(),
{
    if s.len() > 0 {
        lemma_sum_nonneg(s.drop_last());
    }
}

pub proof fn lemma_sum_ge_element(s: Seq<(u64, u64)>, i: int)
    requires
        0 <= i < s.len(),
    ensures
        s[i].1 <= sum_amounts(s),
    decreases s.len(),
{
    if i == s.len() - 1 {
        lemma_sum_nonneg(s.drop_last());
    } else {
        lemma_sum_ge_element(s.drop_last(), i);
        assert(s.drop_last()[i] == s[i]);
    }
}

pub proof fn lemma_sum_update(s: Seq<(u64, u64)>, i: int, p: (u64, u64))
    requires
        0 <= i < s.len(),
    ensures
        sum_amounts(s.update(i, p)) == sum_amounts(s) - s[i].1 + p.1,
    decreases s.len(),
{
    let t = s.update(i, p);
    if i == s.len() - 1 {
        assert(t.drop_last() =~= s.drop_last());
    } else {
        assert(t.drop_last() =~= s.drop_last().update(i, p));
        assert(s.drop_last()[i] == s[i]);
        lemma_sum_update(s.drop_last(), i, p);
        assert(t.last() == s.last());
    }
}

pub proof fn lemma_sum_push(s: Seq<(u64, u64)>, p: (u64, u64))
    ensures
        sum_amounts(s.push(p)) == sum_amounts(s) + p.1,
{
    assert(s.push(p).drop_last() =~= s);
}

/// The payout a user with energy snapshot `user_energy` receives out of a
/// week's rewards at total energy `total_energy`: for each reward token, the
/// proportional share with truncating division; zero shares are omitted.
pub open spec fn user_rewards_of(
    total_rewards: Seq<TokenAmountPair>,
    user_energy: u64,
    total_energy: int,
) -> Seq<RewardPayment>
    decreases total_rewards.len(),
{
    if total_rewards.len() == 0 {
        Seq::empty()
    } else {
        let prefix = user_rewards_of(total_rewards.drop_last(), user_energy, total_energy);
        let pair = total_rewards.last();
        let share = if total_energy == 0 {
            0
        } else {
            pair.amount * user_energy / total_energy
        };
        if share > 0 {
            prefix.push(RewardPayment { token: pair.token, amount: share as u64 })
        } else {
            prefix
        }
    }
}

/// A user with no energy for the week receives nothing.
pub proof fn lemma_user_rewards_zero_energy(total_rewards: Seq<TokenAmountPair>, total_energy: int)
    ensures
        user_rewards_of(total_rewards, 0, total_energy) == Seq::<RewardPayment>::empty(),
    decreases total_rewards.len(),
{
    if total_rewards.len() > 0 {
        lemma_user_rewards_zero_energy(total_rewards.drop_last(), total_energy);
        if total_energy != 0 {
            vstd::arithmetic::mul::lemma_mul_basics_1(total_rewards.last().amount as int);
            vstd::arithmetic::div_mod::lemma_div_of0(total_energy);
        }
    }
}

/// Pairwise-distinct reward tokens in a week's total.
pub open spec fn distinct_reward_tokens(s: Seq<TokenAmountPair>) -> bool {
    forall|i: int, j: int| 0 <= i < j < s.len() ==> s[i].token != s[j].token
}

/// Pairwise-distinct tokens in a payout.
pub open spec fn distinct_payout_tokens(s: Seq<RewardPayment>) -> bool {
    forall|i: int, j: int| 0 <= i < j < s.len() ==> s[i].token != s[j].token
}

/// Every token of a payout comes from the rewards it was computed from, and
/// a payout computed from rewards with pairwise-distinct tokens has
/// pairwise-distinct tokens itself: each reward token contributes at most
/// one payment.
pub proof fn lemma_user_rewards_distinct_tokens(
    total_rewards: Seq<TokenAmountPair>,
    user_energy: u64,
    total_energy: int,
)
    ensures
        forall|k: int|
            0 <= k < user_rewards_of(total_rewards, user_energy, total_energy).len()
                ==> exists|i: int|
                0 <= i < total_rewards.len() && #[trigger] total_rewards[i].token == (
                #[trigger] user_rewards_of(total_rewards, user_energy, total_energy)[k]).token,
        distinct_reward_tokens(total_rewards) ==> distinct_payout_tokens(
            user_rewards_of(total_rewards, user_energy, total_energy),
        ),
    decreases total_rewards.len(),
{
    if total_rewards.len() > 0 {
        let s = total_rewards;
        let p = user_rewards_of(s, user_energy, total_energy);
        let pp = user_rewards_of(s.drop_last(), user_energy, total_energy);
        lemma_user_rewards_distinct_tokens(s.drop_last(), user_energy, total_energy);
        assert forall|k: int| 0 <= k < p.len() implies exists|i: int|
            0 <= i < s.len() && #[trigger] s[i].token == (#[trigger] p[k]).token by {
            if k < pp.len() {
                let i = choose|i: int|
                    0 <= i < s.drop_last().len() && #[trigger] s.drop_last()[i].token
                        == pp[k].token;
                assert(s[i].token == p[k].token);
            } else {
                assert(s[s.len() - 1].token == p[k].token);
            }
        }
        if distinct_reward_tokens(s) {
            assert forall|x: int, y: int| 0 <= x < y < s.drop_last().len() implies s.drop_last()[x].token
                != s.drop_last()[y].token by {
                assert(s.drop_last()[x] == s[x] && s.drop_last()[y] == s[y]);
            }
            if p.len() > pp.len() {
                assert forall|m: int| 0 <= m < pp.len() implies pp[m].token != s.last().token by {
                    let i = choose|i: int|
                        0 <= i < s.drop_last().len() && #[trigger] s.drop_last()[i].token
                            == pp[m].token;
                    assert(s[i].token == pp[m].token);
                    assert(s[i].token != s[s.len() - 1].token);
                }
            }
        }
    }
}

/// The fee-accumulation collaborator: collects the rewards accumulated for
/// a week. The host implements it. Two things are assumed of an
/// implementation: it delivers each reward token at most once per call
/// (spec: the token identifiers of a week's total are unique), and
/// `collections` is its abstract log, to which each call appends the week
/// asked for together with exactly the rewards it returned — so that
/// callers' contracts can say when a collection happened and what it
/// produced.
pub trait WeeklyRewardsSplittingTraitsModule {
    /// The collections performed so far: each week asked for, with the
    /// rewards returned for it. Implementations with observable state
    /// override this; the default stands for one with none.
    open spec fn collections(&self) -> Seq<(u64, Seq<TokenAmountPair>)> {
        Seq::empty()
    }

    fn collect_rewards_for_week(&mut self, week: u64) -> (r: Vec<TokenAmountPair>)
        ensures
            distinct_reward_tokens(r@),
            final(self).collections() == old(self).collections().push((week, r@)),
    ;
}

/// Weekly splitting of accumulated reward fees: a write-once cache of each
/// week's total rewards, per-user per-week energy snapshots, the incremental
/// per-week total-energy accumulator, and each user's claim cursor.
pub struct FeesSplittingModule {
    /// Each week's collected rewards; written exactly once, on first demand.
    pub total_rewards_for_week: KvMap<Vec<TokenAmountPair>>,
    /// Week, then user, to the user's energy snapshot for that week.
    pub user_energy_for_week: KvMap<KvMap<u64>>,
    /// Week to the sum of all users' energy snapshots for that week.
    pub total_energy_for_week: KvMap<u128>,
    /// Week to how many users hold an energy snapshot for that week.
    pub total_users_for_week: KvMap<u64>,
    /// Each user's first week not yet claimed.
    pub current_claim_progress: KvMap<u64>,
}

impl FeesSplittingModule {
    /// The week's total energy: the accumulator's value, zero if untouched.
    pub open spec fn spec_total_energy(&self, week: u64) -> int {
        if self.total_energy_for_week@.contains_key(week) {
            self.total_energy_for_week@[week] as int
        } else {
            0
        }
    }

    /// The sum of all users' recorded energy snapshots for the week.
    pub open spec fn spec_users_energy_sum(&self, week: u64) -> int {
        if self.user_energy_for_week@.contains_key(week) {
            sum_amounts(self.user_energy_for_week@[week].kvs())
        } else {
            0
        }
    }

    /// The week's recorded participant count; zero if untouched.
    pub open spec fn spec_total_users(&self, week: u64) -> u64 {
        if self.total_users_for_week@.contains_key(week) {
            self.total_users_for_week@[week]
        } else {
            0
        }
    }

    /// How many users hold an energy snapshot for the week.
    pub open spec fn spec_users_count(&self, week: u64) -> int {
        if self.user_energy_for_week@.contains_key(week) {
            self.user_energy_for_week@[week].kvs().len() as int
        } else {
            0
        }
    }

    /// A user's recorded energy snapshot for a week; zero if none.
    pub open spec fn spec_user_energy(&self, user: u64, week: u64) -> u64 {
        if self.user_energy_for_week@.contains_key(week)
            && self.user_energy_for_week@[week]@.contains_key(user) {
            self.user_energy_for_week@[week]@[user]
        } else {
            0
        }
    }

    /// The week's cached total rewards, if they were computed already.
    pub open spec fn spec_cached_rewards(&self, week: u64) -> Option<Seq<TokenAmountPair>> {
        if self.total_rewards_for_week@.contains_key(week) {
            Some(self.total_rewards_for_week@[week]@)
        } else {
            None
        }
    }

    /// The first week the user has not claimed yet; zero before any claim.
    pub open spec fn spec_claim_progress(&self, user: u64) -> u64 {
        if self.current_claim_progress@.contains_key(user) {
            self.current_claim_progress@[user]
        } else {
            0
        }
    }

    /// The containers are well formed, and for every week the total-energy
    /// accumulator equals the sum of that week's user snapshots — the
    /// incremental bookkeeping never drifts from the per-user records.
    pub open spec fn wf(&self) -> bool {
        &&& self.total_rewards_for_week.wf()
        &&& self.user_energy_for_week.wf()
        &&& self.total_energy_for_week.wf()
        &&& self.total_users_for_week.wf()
        &&& self.current_claim_progress.wf()
        &&& forall|w: u64|
            self.user_energy_for_week@.contains_key(w) ==> (
            #[trigger] self.user_energy_for_week@[w]).wf()
        &&& forall|w: u64| #[trigger] self.spec_total_energy(w) == self.spec_users_energy_sum(w)
        &&& forall|w: u64| #[trigger] self.spec_total_users(w) as int == self.spec_users_count(w)
        &&& forall|w: u64|
            self.total_rewards_for_week@.contains_key(w) ==> distinct_reward_tokens(
                (#[trigger] self.total_rewards_for_week@[w])@,
            )
    }

    pub fn new() -> (r: Self)
        ensures
            r.wf(),
            r.total_rewards_for_week@ == Map::<u64, Vec<TokenAmountPair>>::empty(),
            r.user_energy_for_week@ == Map::<u64, KvMap<u64>>::empty(),
            r.total_energy_for_week@ == Map::<u64, u128>::empty(),
            r.total_users_for_week@ == Map::<u64, u64>::empty(),
            r.current_claim_progress@ == Map::<u64, u64>::empty(),
    {
        FeesSplittingModule {
            total_rewards_for_week: KvMap::new(),
            user_energy_for_week: KvMap::new(),
            total_energy_for_week: KvMap::new(),
            total_users_for_week: KvMap::new(),
            current_claim_progress: KvMap::new(),
        }
    }
}

/// An owned copy of a reward list.
fn copy_token_amounts(v: &Vec<TokenAmountPair>) -> (r: Vec<TokenAmountPair>)
    ensures
        r@ == v@,
{
    let mut r: Vec<TokenAmountPair> = Vec::new();
    let n = v.len();
    let mut i: usize = 0;
    while i < n
        invariant
            n == v@.len(),
            i <= n,
            r@ == v@.take(i as int),
        decreases n - i,
    {
        r.push(v[i]);
        proof {
            assert(v@.take(i + 1 as int).drop_last() =~= v@.take(i as int));
            assert(r@ =~= v@.take(i + 1 as int));
        }
        i += 1;
    }
    proof {
        assert(v@.take(n as int) =~= v@);
    }
    r
}

/// Returns the week's total rewards: the cached value if the week was
/// computed before — in that case neither the module nor the collector is
/// touched — and otherwise the collector's result, which is cached so that
/// the collector runs at most once per week.
pub fn collect_and_get_rewards_for_week_base<C: WeeklyRewardsSplittingTraitsModule>(
    collector: &mut C,
    module: &mut FeesSplittingModule,
    week: u64,
) -> (r: Vec<TokenAmountPair>)
    requires
        old(module).wf(),
    ensures
        final(module).wf(),
        final(module).spec_cached_rewards(week) == Some(r@),
        distinct_reward_tokens(r@),
        match old(module).spec_cached_rewards(week) {
            Some(cached) => r@ == cached && *final(module) == *old(module) && *final(collector)
                == *old(collector),
            None => {
                &&& final(collector).collections() == old(collector).collections().push(
                    (week, r@),
                )
                &&& forall|w: u64|
                    w != week ==> #[trigger] final(module).spec_cached_rewards(w) == old(
                        module,
                    ).spec_cached_rewards(w)
                &&& final(module).user_energy_for_week == old(module).user_energy_for_week
                &&& final(module).total_energy_for_week == old(module).total_energy_for_week
                &&& final(module).total_users_for_week == old(module).total_users_for_week
                &&& final(module).current_claim_progress == old(module).current_claim_progress
            },
        },
{
    let cached = module.total_rewards_for_week.get(week);
    match cached {
        Some(v) => {
            proof {
                assert(distinct_reward_tokens(module.total_rewards_for_week@[week]@));
                assert forall|w: u64| #[trigger] module.spec_total_users(w) as int
                    == module.spec_users_count(w) by {
                    assert(old(module).spec_total_users(w) as int == old(
                        module,
                    ).spec_users_count(w));
                }
            }
            copy_token_amounts(v)
        },
        None => {
            let total_rewards = collector.collect_rewards_for_week(week);
            let result = copy_token_amounts(&total_rewards);
            module.total_rewards_for_week.set(week, total_rewards);
            proof {
                assert forall|w: u64| #[trigger] module.spec_total_energy(w)
                    == module.spec_users_energy_sum(w) by {
                    assert(old(module).spec_total_energy(w) == old(module).spec_users_energy_sum(
                        w,
                    ));
                }
                assert forall|w: u64| module.user_energy_for_week@.contains_key(w) implies (
                #[trigger] module.user_energy_for_week@[w]).wf() by {
                    assert(old(module).user_energy_for_week@.contains_key(w));
                }
                assert forall|w: u64| #[trigger] module.spec_total_users(w) as int
                    == module.spec_users_count(w) by {
                    assert(old(module).spec_total_users(w) as int == old(
                        module,
                    ).spec_users_count(w));
                }
                assert forall|w: u64| module.total_rewards_for_week@.contains_key(w)
                    implies distinct_reward_tokens(
                    (#[trigger] module.total_rewards_for_week@[w])@,
                ) by {
                    if w != week {
                        assert(old(module).total_rewards_for_week@.contains_key(w));
                        assert(distinct_reward_tokens(old(module).total_rewards_for_week@[w]@));
                    }
                }
            }
            result
        },
    }
}

/// A proportional share never exceeds the amount it is taken from.
pub proof fn lemma_share_le_amount(amount: int, user_energy: int, total_energy: int)
    requires
        0 <= amount,
        0 <= user_energy <= total_energy,
        0 < total_energy,
    ensures
        0 <= amount * user_energy / total_energy <= amount,
{
    vstd::arithmetic::mul::lemma_mul_inequality(user_energy, total_energy, amount);
    vstd::arithmetic::mul::lemma_mul_is_commutative(user_energy, amount);
    vstd::arithmetic::mul::lemma_mul_is_commutative(total_energy, amount);
    vstd::arithmetic::div_mod::lemma_div_is_ordered(
        amount * user_energy,
        amount * total_energy,
        total_energy,
    );
    vstd::arithmetic::div_mod::lemma_div_multiples_vanish(amount, total_energy);
    vstd::arithmetic::mul::lemma_mul_is_commutative(amount, total_energy);
    vstd::arithmetic::mul::lemma_mul_nonnegative(amount, user_energy);
    vstd::arithmetic::div_mod::lemma_div_pos_is_pos(amount * user_energy, total_energy);
}

impl FeesSplittingModule {
    /// A user's snapshot never exceeds the week's total energy: the total is
    /// exactly the sum of all snapshots.
    pub proof fn lemma_user_energy_le_total(&self, user: u64, week: u64)
        requires
            self.wf(),
        ensures
            self.spec_user_energy(user, week) <= self.spec_total_energy(week),
            0 <= self.spec_total_energy(week),
    {
        assert(self.spec_total_energy(week) == self.spec_users_energy_sum(week));
        if self.user_energy_for_week@.contains_key(week) {
            let inner = self.user_energy_for_week@[week];
            assert(inner.wf());
            lemma_sum_nonneg(inner.kvs());
            if inner@.contains_key(user) {
                inner.lemma_view_index(user);
                let i = choose|i: int|
                    0 <= i < inner.kvs().len() && inner.kvs()[i] == (user, inner@[user]);
                lemma_sum_ge_element(inner.kvs(), i);
            }
        }
    }

    /// The user's proportional payout out of `total_rewards` for `week`:
    /// for each reward token, `amount * userEnergy / totalEnergy` with
    /// truncating division; zero shares are omitted, and a user with no
    /// energy snapshot for the week receives nothing.
    pub fn get_user_rewards_for_week(
        &self,
        user: u64,
        week: u64,
        total_rewards: &Vec<TokenAmountPair>,
    ) -> (r: Vec<RewardPayment>)
        requires
            self.wf(),
        ensures
            r@ == user_rewards_of(
                total_rewards@,
                self.spec_user_energy(user, week),
                self.spec_total_energy(week),
            ),
            distinct_reward_tokens(total_rewards@) ==> distinct_payout_tokens(r@),
    {
        proof {
            lemma_user_rewards_distinct_tokens(
                total_rewards@,
                self.spec_user_energy(user, week),
                self.spec_total_energy(week),
            );
        }
        let ghost user_energy_spec = self.spec_user_energy(user, week);
        let mut user_rewards: Vec<RewardPayment> = Vec::new();
        let user_energy: u64 = match self.user_energy_for_week.get(week) {
            Some(inner) => {
                proof {
                    assert(self.user_energy_for_week@[week].wf());
                }
                match inner.get(user) {
                    Some(v) => *v,
                    None => 0,
                }
            },
            None => 0,
        };
        if user_energy == 0 {
            proof {
                lemma_user_rewards_zero_energy(
                    total_rewards@,
                    self.spec_total_energy(week),
                );
            }
            return user_rewards;
        }
        let total_energy: u128 = match self.total_energy_for_week.get(week) {
            Some(v) => *v,
            None => 0,
        };
        proof {
            self.lemma_user_energy_le_total(user, week);
        }
        let n = total_rewards.len();
        let mut i: usize = 0;
        while i < n
            invariant
                self.wf(),
                n == total_rewards@.len(),
                i <= n,
                user_energy == self.spec_user_energy(user, week),
                0 < user_energy <= total_energy,
                total_energy == self.spec_total_energy(week),
                user_rewards@ == user_rewards_of(
                    total_rewards@.take(i as int),
                    user_energy,
                    total_energy as int,
                ),
            decreases n - i,
        {
            let weekly_reward = total_rewards[i];
            proof {
                vstd::arithmetic::mul::lemma_mul_upper_bound(
                    weekly_reward.amount as int,
                    u64::MAX as int,
                    user_energy as int,
                    u64::MAX as int,
                );
                lemma_share_le_amount(
                    weekly_reward.amount as int,
                    user_energy as int,
                    total_energy as int,
                );
            }
            let reward_amount = (weekly_reward.amount as u128) * (user_energy as u128) / (
            total_energy as u128);
            if reward_amount > 0 {
                user_rewards.push(
                    RewardPayment { token: weekly_reward.token, amount: reward_amount as u64 },
                );
            }
            proof {
                assert(total_rewards@.take(i + 1 as int).drop_last() =~= total_rewards@.take(
                    i as int,
                ));
                assert(total_rewards@.take(i + 1 as int).last() == total_rewards@[i as int]);
            }
            i += 1;
        }
        proof {
            assert(total_rewards@.take(n as int) =~= total_rewards@);
        }
        user_rewards
    }

    /// Refreshes the user's energy snapshot for the week after the current
    /// one, and keeps that week's total-energy accumulator consistent: the
    /// user's previous contribution leaves the total, the fresh energy joins
    /// it. No other week and no other user is touched.
    pub fn add_energy_for_next_week(
        &mut self,
        user: u64,
        current_week: u64,
        current_energy: u64,
    ) -> (r: Result<(), Error>)
        requires
            old(self).wf(),
            current_week < u64::MAX,
            current_energy > 0,
        ensures
            final(self).wf(),
            ({
                let next_week = (current_week + 1) as u64;
                let previous = old(self).spec_user_energy(user, next_week);
                &&& (r is Ok <==> old(self).spec_total_energy(next_week) - previous
                    + current_energy <= u128::MAX)
                &&& (r is Err ==> *final(self) == *old(self) && r == Err::<(), Error>(
                    Error::AmountOverflow,
                ))
                &&& (r is Ok ==> {
                    &&& final(self).spec_user_energy(user, next_week) == current_energy
                    &&& forall|u: u64, w: u64|
                        !(u == user && w == next_week) ==> #[trigger] final(self).spec_user_energy(
                            u,
                            w,
                        ) == old(self).spec_user_energy(u, w)
                    &&& final(self).spec_total_energy(next_week) == old(self).spec_total_energy(
                        next_week,
                    ) - previous + current_energy
                    &&& forall|w: u64|
                        w != next_week ==> #[trigger] final(self).spec_total_energy(w) == old(
                            self,
                        ).spec_total_energy(w)
                    &&& final(self).spec_total_users(next_week) as int == (if old(
                        self,
                    ).user_energy_for_week@.contains_key(next_week) && old(
                        self,
                    ).user_energy_for_week@[next_week]@.contains_key(user) {
                        old(self).spec_total_users(next_week) as int
                    } else {
                        old(self).spec_total_users(next_week) + 1
                    })
                    &&& forall|w: u64|
                        w != next_week ==> #[trigger] final(self).spec_total_users(w) == old(
                            self,
                        ).spec_total_users(w)
                    &&& final(self).total_rewards_for_week == old(self).total_rewards_for_week
                    &&& final(self).current_claim_progress == old(self).current_claim_progress
                })
            }),
    {
        let next_week = current_week + 1;
        let (previous, was_present): (u64, bool) = match self.user_energy_for_week.get(next_week) {
            Some(inner) => {
                proof {
                    assert(self.user_energy_for_week@[next_week].wf());
                }
                match inner.get(user) {
                    Some(v) => (*v, true),
                    None => (0, false),
                }
            },
            None => (0, false),
        };
        let old_users: u64 = match self.total_users_for_week.get(next_week) {
            Some(v) => *v,
            None => 0,
        };
        let old_total: u128 = match self.total_energy_for_week.get(next_week) {
            Some(v) => *v,
            None => 0,
        };
        proof {
            self.lemma_user_energy_le_total(user, next_week);
        }
        let reduced = old_total - previous as u128;
        let new_total = match reduced.checked_add(current_energy as u128) {
            Some(v) => v,
            None => {
                return Err(Error::AmountOverflow);
            },
        };
        let mut inner: KvMap<u64> = match self.user_energy_for_week.remove(next_week) {
            Some(m) => m,
            None => KvMap::new(),
        };
        let ghost old_kvs = inner.kvs();
        proof {
            if old(self).user_energy_for_week@.contains_key(next_week) {
                assert(old(self).user_energy_for_week@[next_week].wf());
            }
        }
        inner.set(user, current_energy);
        proof {
            if old(self).spec_user_energy(user, next_week) > 0
                || (old(self).user_energy_for_week@.contains_key(next_week)
                && old(self).user_energy_for_week@[next_week]@.contains_key(user)) {
                let i = choose|i: int|
                    0 <= i < old_kvs.len() && old_kvs[i] == (user, previous) && inner.kvs()
                        == old_kvs.update(i, (user, current_energy));
                lemma_sum_update(old_kvs, i, (user, current_energy));
            } else {
                lemma_sum_push(old_kvs, (user, current_energy));
            }
        }
        let new_users: u64 = if was_present {
            old_users
        } else {
            let grown = inner.len();
            proof {
                assert(old(self).spec_total_users(next_week) as int == old(
                    self,
                ).spec_users_count(next_week));
                assert(old_users as int == old_kvs.len());
                assert(grown as int == old_kvs.len() + 1);
            }
            old_users + 1
        };
        self.user_energy_for_week.set(next_week, inner);
        self.total_energy_for_week.set(next_week, new_total);
        self.total_users_for_week.set(next_week, new_users);
        proof {
            assert forall|w: u64| self.user_energy_for_week@.contains_key(w) implies (
            #[trigger] self.user_energy_for_week@[w]).wf() by {
                if w != next_week {
                    assert(old(self).user_energy_for_week@.contains_key(w));
                }
            }
            assert forall|w: u64| #[trigger] self.spec_total_energy(w)
                == self.spec_users_energy_sum(w) by {
                if w != next_week {
                    assert(old(self).spec_total_energy(w) == old(self).spec_users_energy_sum(w));
                }
            }
            assert forall|u: u64, w: u64| !(u == user && w == next_week) implies #[trigger] self
                .spec_user_energy(u, w) == old(self).spec_user_energy(u, w) by {
                if w != next_week {
                    assert(self.user_energy_for_week@.contains_key(w) == old(
                        self,
                    ).user_energy_for_week@.contains_key(w));
                }
            }
            assert forall|w: u64| #[trigger] self.spec_total_users(w) as int
                == self.spec_users_count(w) by {
                assert(old(self).spec_total_users(w) as int == old(self).spec_users_count(w));
                if w != next_week {
                    assert(self.user_energy_for_week@.contains_key(w) == old(
                        self,
                    ).user_energy_for_week@.contains_key(w));
                } else {
                    assert(old_users as int == old_kvs.len());
                }
            }
        }
        Ok(())
    }

    /// See `collect_and_get_rewards_for_week_base`: the week's rewards,
    /// collected on first demand and cached, at most one collection per week.
    pub fn collect_and_get_rewards_for_week<C: WeeklyRewardsSplittingTraitsModule>(
        &mut self,
        collector: &mut C,
        week: u64,
    ) -> (r: Vec<TokenAmountPair>)
        requires
            old(self).wf(),
        ensures
            final(self).wf(),
            final(self).spec_cached_rewards(week) == Some(r@),
            distinct_reward_tokens(r@),
            match old(self).spec_cached_rewards(week) {
                Some(cached) => r@ == cached && *final(self) == *old(self) && *final(collector)
                    == *old(collector),
                None => {
                    &&& final(collector).collections() == old(collector).collections().push(
                        (week, r@),
                    )
                    &&& forall|w: u64|
                        w != week ==> #[trigger] final(self).spec_cached_rewards(w) == old(
                            self,
                        ).spec_cached_rewards(w)
                    &&& final(self).user_energy_for_week == old(self).user_energy_for_week
                    &&& final(self).total_energy_for_week == old(self).total_energy_for_week
                    &&& final(self).total_users_for_week == old(self).total_users_for_week
                    &&& final(self).current_claim_progress == old(self).current_claim_progress
                },
            },
    {
        collect_and_get_rewards_for_week_base(collector, self, week)
    }

    /// The user's claim cursor: the first week not yet claimed.
    pub fn get_current_claim_progress(&self, user: u64) -> (r: u64)
        requires
            self.wf(),
        ensures
            r == self.spec_claim_progress(user),
    {
        match self.current_claim_progress.get(user) {
            Some(v) => *v,
            None => 0,
        }
    }

    /// The payout a claim of `week` yields for `user` out of the week's
    /// rewards `rewards`: nothing when the user's claim cursor has already
    /// passed the week, the proportional share of the user's snapshot
    /// otherwise.
    pub open spec fn spec_claim_payout(
        &self,
        user: u64,
        week: u64,
        rewards: Seq<TokenAmountPair>,
    ) -> Seq<RewardPayment> {
        if week < self.spec_claim_progress(user) {
            Seq::empty()
        } else {
            user_rewards_of(
                rewards,
                self.spec_user_energy(user, week),
                self.spec_total_energy(week),
            )
        }
    }

    /// Claims the user's proportional share of `week`'s reward pool. The
    /// week must not lie in the future, the user must have energy now
    /// (`current_energy`, read from the energy ledger by the caller), and
    /// claims proceed in week order: a week ahead of the user's claim cursor
    /// is refused, so no week between two claims is ever skipped and
    /// silently forfeited. The week's total is computed and cached on first
    /// demand; a week already behind the cursor pays nothing, but the claim
    /// still refreshes the user's energy bookkeeping for the coming week.
    /// On any fault nothing changes.
    pub fn claim_rewards<C: WeeklyRewardsSplittingTraitsModule>(
        &mut self,
        collector: &mut C,
        user: u64,
        week: u64,
        current_week: u64,
        current_energy: u64,
    ) -> (r: Result<Vec<RewardPayment>, Error>)
        requires
            old(self).wf(),
            current_week < u64::MAX,
        ensures
            final(self).wf(),
            r is Ok <==> (week <= current_week && current_energy > 0 && week <= old(
                self,
            ).spec_claim_progress(user) && old(self).spec_total_energy(
                (current_week + 1) as u64,
            ) - old(self).spec_user_energy(user, (current_week + 1) as u64) + current_energy
                <= u128::MAX),
            r is Err ==> *final(self) == *old(self) && *final(collector) == *old(collector),
            r == Err::<Vec<RewardPayment>, Error>(Error::InvalidWeek) <==> week > current_week,
            r == Err::<Vec<RewardPayment>, Error>(Error::NoEnergy) <==> (week <= current_week
                && current_energy == 0),
            r == Err::<Vec<RewardPayment>, Error>(Error::WeekNotYetClaimable) <==> (week
                <= current_week && current_energy > 0 && week > old(self).spec_claim_progress(
                user,
            )),
            r == Err::<Vec<RewardPayment>, Error>(Error::AmountOverflow) <==> (week
                <= current_week && current_energy > 0 && week <= old(self).spec_claim_progress(
                user,
            ) && old(self).spec_total_energy((current_week + 1) as u64) - old(
                self,
            ).spec_user_energy(user, (current_week + 1) as u64) + current_energy > u128::MAX),
            r matches Ok(p) ==> ({
                let next_week = (current_week + 1) as u64;
                let rewards = match final(self).spec_cached_rewards(week) {
                    Some(c) => c,
                    None => Seq::<TokenAmountPair>::empty(),
                };
                &&& final(self).spec_cached_rewards(week) is Some
                &&& p@ == old(self).spec_claim_payout(user, week, rewards)
                &&& distinct_payout_tokens(p@)
                &&& (old(self).spec_cached_rewards(week) matches Some(c) ==> rewards == c
                    && *final(collector) == *old(collector))
                &&& (old(self).spec_cached_rewards(week) is None
                    ==> final(collector).collections() == old(collector).collections().push(
                        (week, rewards),
                    ))
                &&& forall|w: u64|
                    w != week ==> #[trigger] final(self).spec_cached_rewards(w) == old(
                        self,
                    ).spec_cached_rewards(w)
                &&& final(self).spec_claim_progress(user) == (if week < old(
                    self,
                ).spec_claim_progress(user) {
                    old(self).spec_claim_progress(user)
                } else {
                    (week + 1) as u64
                })
                &&& forall|u: u64|
                    u != user ==> #[trigger] final(self).spec_claim_progress(u) == old(
                        self,
                    ).spec_claim_progress(u)
                &&& final(self).spec_user_energy(user, next_week) == current_energy
                &&& forall|u: u64, w: u64|
                    !(u == user && w == next_week) ==> #[trigger] final(self).spec_user_energy(
                        u,
                        w,
                    ) == old(self).spec_user_energy(u, w)
                &&& final(self).spec_total_energy(next_week) == old(self).spec_total_energy(
                    next_week,
                ) - old(self).spec_user_energy(user, next_week) + current_energy
                &&& forall|w: u64|
                    w != next_week ==> #[trigger] final(self).spec_total_energy(w) == old(
                        self,
                    ).spec_total_energy(w)
                &&& final(self).spec_total_users(next_week) as int == (if old(
                    self,
                ).user_energy_for_week@.contains_key(next_week) && old(
                    self,
                ).user_energy_for_week@[next_week]@.contains_key(user) {
                    old(self).spec_total_users(next_week) as int
                } else {
                    old(self).spec_total_users(next_week) + 1
                })
                &&& forall|w: u64|
                    w != next_week ==> #[trigger] final(self).spec_total_users(w) == old(
                        self,
                    ).spec_total_users(w)
            }),
    {
        if week > current_week {
            return Err(Error::InvalidWeek);
        }
        if current_energy == 0 {
            return Err(Error::NoEnergy);
        }
        let progress = match self.current_claim_progress.get(user) {
            Some(v) => *v,
            None => 0,
        };
        if week > progress {
            return Err(Error::WeekNotYetClaimable);
        }
        let already_claimed = week < progress;
        match self.add_energy_for_next_week(user, current_week, current_energy) {
            Ok(()) => {},
            Err(e) => {
                return Err(e);
            },
        }
        let ghost s1 = *self;
        let total_rewards = self.collect_and_get_rewards_for_week(collector, week);
        let ghost s2 = *self;
        let user_rewards = if already_claimed {
            Vec::new()
        } else {
            self.get_user_rewards_for_week(user, week, &total_rewards)
        };
        if !already_claimed {
            self.current_claim_progress.set(user, week + 1);
        }
        proof {
            let ghost next_week = (current_week + 1) as u64;
            assert forall|w: u64| #[trigger] self.spec_total_energy(w)
                == self.spec_users_energy_sum(w) by {
                assert(s2.spec_total_energy(w) == s2.spec_users_energy_sum(w));
            }
            assert forall|w: u64| self.user_energy_for_week@.contains_key(w) implies (
            #[trigger] self.user_energy_for_week@[w]).wf() by {
                assert(s2.user_energy_for_week@.contains_key(w));
                assert(s2.user_energy_for_week@[w].wf());
            }
            assert forall|w: u64| w != week implies #[trigger] self.spec_cached_rewards(w) == old(
                self,
            ).spec_cached_rewards(w) by {
                assert(s2.spec_cached_rewards(w) == s1.spec_cached_rewards(w));
                assert(s1.spec_cached_rewards(w) == old(self).spec_cached_rewards(w));
            }
            assert forall|u: u64, w: u64| !(u == user && w == next_week) implies #[trigger] self
                .spec_user_energy(u, w) == old(self).spec_user_energy(u, w) by {
                assert(s1.spec_user_energy(u, w) == old(self).spec_user_energy(u, w));
                assert(s2.spec_user_energy(u, w) == s1.spec_user_energy(u, w));
            }
            assert forall|w: u64| w != next_week implies #[trigger] self.spec_total_energy(w)
                == old(self).spec_total_energy(w) by {
                assert(s1.spec_total_energy(w) == old(self).spec_total_energy(w));
                assert(s2.spec_total_energy(w) == s1.spec_total_energy(w));
            }
            assert(self.spec_user_energy(user, next_week) == current_energy) by {
                assert(s1.spec_user_energy(user, next_week) == current_energy);
                assert(s2.spec_user_energy(user, next_week) == s1.spec_user_energy(
                    user,
                    next_week,
                ));
            }
            assert(self.spec_total_energy(next_week) == old(self).spec_total_energy(next_week)
                - old(self).spec_user_energy(user, next_week) + current_energy) by {
                assert(s2.spec_total_energy(next_week) == s1.spec_total_energy(next_week));
            }
            assert forall|u: u64| u != user implies #[trigger] self.spec_claim_progress(u) == old(
                self,
            ).spec_claim_progress(u) by {
                assert(s2.spec_claim_progress(u) == s1.spec_claim_progress(u));
                assert(s1.spec_claim_progress(u) == old(self).spec_claim_progress(u));
            }
            assert forall|w: u64| #[trigger] self.spec_total_users(w) as int
                == self.spec_users_count(w) by {
                assert(s2.spec_total_users(w) as int == s2.spec_users_count(w));
            }
            assert forall|w: u64| w != next_week implies #[trigger] self.spec_total_users(w)
                == old(self).spec_total_users(w) by {
                assert(s2.spec_total_users(w) == s1.spec_total_users(w));
                assert(s1.spec_total_users(w) == old(self).spec_total_users(w));
            }
            assert(self.spec_total_users(next_week) == s1.spec_total_users(next_week)) by {
                assert(s2.spec_total_users(next_week) == s1.spec_total_users(next_week));
            }
            if !already_claimed {
                assert(s2.spec_user_energy(user, week) == old(self).spec_user_energy(user, week))
                    by {
                    assert(s1.spec_user_energy(user, week) == old(self).spec_user_energy(
                        user,
                        week,
                    ));
                }
                assert(s2.spec_total_energy(week) == old(self).spec_total_energy(week)) by {
                    assert(s1.spec_total_energy(week) == old(self).spec_total_energy(week));
                }
            }
        }
        Ok(user_rewards)
    }
}

/// The sum, over a sequence of users' energy snapshots, of each user's
/// proportional share of one reward token's weekly amount.
pub open spec fn sum_user_shares(
    amount: u64,
    energies: Seq<(u64, u64)>,
    total_energy: int,
) -> int
    decreases energies.len(),
{
    if energies.len() == 0 {
        0
    } else {
        sum_user_shares(amount, energies.drop_last(), total_energy) + (if total_energy == 0 {
            0
        } else {
            amount * energies.last().1 / total_energy
        })
    }
}

/// Truncating division distributes sub-additively over a sum.
proof fn lemma_div_sum_le(x: int, y: int, d: int)
    requires
        0 <= x,
        0 <= y,
        0 < d,
    ensures
        x / d + y / d <= (x + y) / d,
{
    vstd::arithmetic::div_mod::lemma_remainder_lower(x, d);
    vstd::arithmetic::div_mod::lemma_remainder_lower(y, d);
    let q = x / d + y / d;
    assert((x / d) * d + (y / d) * d == q * d) by {
        vstd::arithmetic::mul::lemma_mul_is_distributive_add_other_way(d, x / d, y / d);
    }
    vstd::arithmetic::div_mod::lemma_div_is_ordered(q * d, x + y, d);
    vstd::arithmetic::div_mod::lemma_div_by_multiple(q, d);
    vstd::arithmetic::mul::lemma_mul_is_commutative(q, d);
}

/// The summed shares stay below the scaled total: distributing `amount`
/// proportionally over snapshots summing to `sum_amounts(energies)` hands
/// out at most `amount * sum / total`.
proof fn lemma_shares_le_scaled(amount: u64, energies: Seq<(u64, u64)>, total_energy: int)
    requires
        0 < total_energy,
    ensures
        0 <= sum_user_shares(amount, energies, total_energy),
        sum_user_shares(amount, energies, total_energy) <= amount * sum_amounts(energies)
            / total_energy,
    decreases energies.len(),
{
    if energies.len() == 0 {
        vstd::arithmetic::div_mod::lemma_div_of0(total_energy);
        vstd::arithmetic::mul::lemma_mul_basics_1(amount as int);
    } else {
        let prefix = energies.drop_last();
        let e = energies.last().1;
        lemma_shares_le_scaled(amount, prefix, total_energy);
        lemma_sum_nonneg(prefix);
        vstd::arithmetic::mul::lemma_mul_nonnegative(amount as int, sum_amounts(prefix));
        vstd::arithmetic::mul::lemma_mul_nonnegative(amount as int, e as int);
        vstd::arithmetic::div_mod::lemma_div_pos_is_pos(amount * (e as int), total_energy);
        lemma_div_sum_le(amount * sum_amounts(prefix), amount * (e as int), total_energy);
        assert(amount * sum_amounts(prefix) + amount * (e as int) == amount * sum_amounts(
            energies,
        )) by {
            vstd::arithmetic::mul::lemma_mul_is_distributive_add(
                amount as int,
                sum_amounts(prefix),
                e as int,
            );
        }
    }
}

/// For any week, distributing one reward token's amount proportionally over
/// user energies that sum to at most the recorded total energy hands out no
/// more than the recorded amount: truncating division may under-distribute,
/// never over-distribute.
pub proof fn lemma_weekly_distribution_bounded(
    amount: u64,
    energies: Seq<(u64, u64)>,
    total_energy: int,
)
    requires
        0 < total_energy,
        sum_amounts(energies) <= total_energy,
    ensures
        0 <= sum_user_shares(amount, energies, total_energy) <= amount,
{
    lemma_shares_le_scaled(amount, energies, total_energy);
    lemma_sum_nonneg(energies);
    vstd::arithmetic::mul::lemma_mul_inequality(
        sum_amounts(energies),
        total_energy,
        amount as int,
    );
    vstd::arithmetic::mul::lemma_mul_is_commutative(sum_amounts(energies), amount as int);
    vstd::arithmetic::mul::lemma_mul_is_commutative(total_energy, amount as int);
    vstd::arithmetic::div_mod::lemma_div_is_ordered(
        amount * sum_amounts(energies),
        amount * total_energy,
        total_energy,
    );
    vstd::arithmetic::div_mod::lemma_div_multiples_vanish(amount as int, total_energy);
    vstd::arithmetic::mul::lemma_mul_is_commutative(amount as int, total_energy);
}

impl FeesSplittingModule {
    /// The law above, applied to a well-formed module: the snapshots of any
    /// week sum to exactly the recorded total, so for every reward token of
    /// the week the users' shares sum to at most the recorded amount.
    pub proof fn lemma_week_distribution_bounded(&self, week: u64, amount: u64)
        requires
            self.wf(),
            0 < self.spec_total_energy(week),
            self.user_energy_for_week@.contains_key(week),
        ensures
            0 <= sum_user_shares(
                amount,
                self.user_energy_for_week@[week].kvs(),
                self.spec_total_energy(week),
            ) <= amount,
    {
        assert(self.spec_total_energy(week) == self.spec_users_energy_sum(week));
        lemma_weekly_distribution_bounded(
            amount,
            self.user_energy_for_week@[week].kvs(),
            self.spec_total_energy(week),
        );
    }

    /// Law: claiming the same week twice pays nothing the second time. A
    /// successful claim leaves `spec_claim_progress(user) > week`, and in
    /// any such state the payout of a claim of `week` is empty, whatever
    /// rewards the week holds.
    pub proof fn lemma_second_claim_pays_nothing(
        &self,
        user: u64,
        week: u64,
        rewards: Seq<TokenAmountPair>,
    )
        requires
            week < self.spec_claim_progress(user),
        ensures
            self.spec_claim_payout(user, week, rewards) == Seq::<RewardPayment>::empty(),
    {
    }
}

/// The week total an invocation of `collect_and_get_rewards_for_week`
/// returns: the cached value when one exists, else what collection produces.
pub open spec fn spec_week_total_result(
    s: &FeesSplittingModule,
    week: u64,
    freshly_collected: Seq<TokenAmountPair>,
) -> Seq<TokenAmountPair> {
    match s.spec_cached_rewards(week) {
        Some(cached) => cached,
        None => freshly_collected,
    }
}

/// Law: the week-total cache is write-once. Once a week's total is cached
/// (as it is after one call of `collect_and_get_rewards_for_week`), every
/// further computation of that week returns the identical value, independent
/// of what a fresh collection would produce — the collector is consulted
/// only the first time.
pub proof fn lemma_week_total_computed_once(
    s: &FeesSplittingModule,
    week: u64,
    fresh_first: Seq<TokenAmountPair>,
    fresh_second: Seq<TokenAmountPair>,
)
    requires
        s.spec_cached_rewards(week) is Some,
    ensures
        spec_week_total_result(s, week, fresh_first) == spec_week_total_result(
            s,
            week,
            fresh_second,
        ),
{
}

} // verus!
