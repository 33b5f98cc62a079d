use vstd::prelude::*;

verus! {

/// Pairwise distinct keys.
pub open spec fn distinct_keys<V>(s: Seq<(u64, V)>) -> bool {
    forall|i: int, j: int| 0 <= i < j < s.len() ==> s[i].0 != s[j].0
}

/// The map described by a sequence of key-value pairs; a later pair wins
/// over an earlier one with the same key.
pub open spec fn seq_to_map<V>(s: Seq<(u64, V)>) -> Map<u64, V>
    decreases s.len(),
{
    if s.len() == 0 {
        Map::empty()
    } else {
        seq_to_map(s.drop_last()).insert(s.last().0, s.last().1)
    }
}

proof fn lemma_map_domain<V>(s: Seq<(u64, V)>)
    ensures
        forall|k: u64|
            seq_to_map(s).contains_key(k) <==> (exists|i: int| 0 <= i < s.len() && #[trigger] s[i].0 == k),
    decreases s.len(),
{
    if s.len() > 0 {
        lemma_map_domain(s.drop_last());
        assert forall|k: u64| seq_to_map(s).contains_key(k) implies (exists|i: int|
            0 <= i < s.len() && #[trigger] s[i].0 == k) by {
            if k == s.last().0 {
                assert(s[s.len() - 1].0 == k);
            } else {
                assert(seq_to_map(s.drop_last()).contains_key(k));
                let i = choose|i: int| 0 <= i < s.drop_last().len() && #[trigger] s.drop_last()[i].0 == k;
                assert(s[i].0 == k);
            }
        }
        assert forall|k: u64| (exists|i: int| 0 <= i < s.len() && #[trigger] s[i].0 == k)
            implies seq_to_map(s).contains_key(k) by {
            let i = choose|i: int| 0 <= i < s.len() && #[trigger] s[i].0 == k;
            if i < s.len() - 1 {
                assert(s.drop_last()[i].0 == k);
                assert(seq_to_map(s.drop_last()).contains_key(k));
            }
        }
    }
}

proof fn lemma_map_found<V>(s: Seq<(u64, V)>, i: int, k: u64)
    requires
        distinct_keys(s),
        0 <= i < s.len(),
        s[i].0 == k,
    ensures
        seq_to_map(s).contains_key(k),
        seq_to_map(s)[k] == s[i].1,
    decreases s.len(),
{
    if i == s.len() - 1 {
    } else {
        assert(s.last().0 != k);
        assert(s.drop_last()[i] == s[i]);
        lemma_map_found(s.drop_last(), i, k);
    }
}

proof fn lemma_map_update<V>(s: Seq<(u64, V)>, i: int, v: V)
    requires
        distinct_keys(s),
        0 <= i < s.len(),
    ensures
        seq_to_map(s.update(i, (s[i].0, v))) == seq_to_map(s).insert(s[i].0, v),
        distinct_keys(s.update(i, (s[i].0, v))),
    decreases s.len(),
{
    let k = s[i].0;
    let t = s.update(i, (k, v));
    assert(distinct_keys(t));
    if i == s.len() - 1 {
        assert(t.drop_last() =~= s.drop_last());
        assert(seq_to_map(t) == seq_to_map(s.drop_last()).insert(k, v));
        assert(seq_to_map(s).insert(k, v) =~= seq_to_map(s.drop_last()).insert(k, v));
    } else {
        assert(t.drop_last() =~= s.drop_last().update(i, (k, v)));
        assert(s.drop_last()[i] == s[i]);
        lemma_map_update(s.drop_last(), i, v);
        assert(t.last() == s.last());
        assert(s.last().0 != k);
        assert(seq_to_map(t) == seq_to_map(s.drop_last()).insert(k, v).insert(
            s.last().0,
            s.last().1,
        ));
        assert(seq_to_map(s.drop_last()).insert(k, v).insert(s.last().0, s.last().1)
            =~= seq_to_map(s.drop_last()).insert(s.last().0, s.last().1).insert(k, v));
    }
}

proof fn lemma_map_push<V>(s: Seq<(u64, V)>, k: u64, v: V)
    requires
        distinct_keys(s),
        forall|i: int| 0 <= i < s.len() ==> s[i].0 != k,
    ensures
        seq_to_map(s.push((k, v))) == seq_to_map(s).insert(k, v),
        distinct_keys(s.push((k, v))),
{
    assert(s.push((k, v)).drop_last() =~= s);
}

proof fn lemma_map_remove<V>(s: Seq<(u64, V)>, i: int)
    requires
        distinct_keys(s),
        0 <= i < s.len(),
    ensures
        seq_to_map(s.remove(i)) == seq_to_map(s).remove(s[i].0),
        distinct_keys(s.remove(i)),
    decreases s.len(),
{
    let k = s[i].0;
    let t = s.remove(i);
    assert forall|x: int, y: int| 0 <= x < y < t.len() implies t[x].0 != t[y].0 by {
        let sx = if x < i { x } else { x + 1 };
        let sy = if y < i { y } else { y + 1 };
        assert(t[x] == s[sx] && t[y] == s[sy]);
    }
    lemma_map_domain(s.drop_last());
    if i == s.len() - 1 {
        assert(t =~= s.drop_last());
        assert(!seq_to_map(s.drop_last()).contains_key(k));
        assert(seq_to_map(s.drop_last()) =~= seq_to_map(s.drop_last()).insert(k, s[i].1).remove(k));
    } else {
        assert(t.drop_last() =~= s.drop_last().remove(i));
        assert(s.drop_last()[i] == s[i]);
        lemma_map_remove(s.drop_last(), i);
        assert(t.last() == s.last());
        assert(s.last().0 != k);
        assert(seq_to_map(t) == seq_to_map(s.drop_last()).remove(k).insert(s.last().0, s.last().1));
        assert(seq_to_map(s.drop_last()).remove(k).insert(s.last().0, s.last().1)
            =~= seq_to_map(s.drop_last()).insert(s.last().0, s.last().1).remove(k));
    }
}

/// An association map from `u64` keys to values, backed by a vector of
/// key-value pairs with pairwise distinct keys. Reads that miss see no
/// entry; writes either replace the entry in place or append a new one.
pub struct KvMap<V> {
    entries: Vec<(u64, V)>,
}

impl<V> View for KvMap<V> {
    type V = Map<u64, V>;

    closed spec fn view(&self) -> Map<u64, V> {
        seq_to_map(self.entries@)
    }
}

impl<V> KvMap<V> {
    /// The underlying key-value pairs, for summing over all entries.
    pub closed spec fn kvs(&self) -> Seq<(u64, V)> {
        self.entries@
    }

    pub closed spec fn wf(&self) -> bool {
        distinct_keys(self.entries@)
    }

    /// Every key of the view is the key of exactly one underlying entry.
    pub proof fn lemma_view_index(&self, k: u64)
        requires
            self.wf(),
            self@.contains_key(k),
        ensures
            exists|i: int|
                0 <= i < self.kvs().len() && self.kvs()[i] == (k, self@[k]),
    {
        lemma_map_domain(self.entries@);
        let i = choose|i: int| 0 <= i < self.entries@.len() && #[trigger] self.entries@[i].0 == k;
        lemma_map_found(self.entries@, i, k);
        assert(self.kvs()[i] == (k, self@[k]));
    }

    pub fn new() -> (r: Self)
        ensures
            r.wf(),
            r@ == Map::<u64, V>::empty(),
            r.kvs() == Seq::<(u64, V)>::empty(),
    {
        KvMap { entries: Vec::new() }
    }

    /// How many keys are bound.
    pub fn len(&self) -> (r: usize)
        ensures
            r == self.kvs().len(),
    {
        self.entries.len()
    }

    pub fn get(&self, k: u64) -> (r: Option<&V>)
        requires
            self.wf(),
        ensures
            match r {
                Some(v) => self@.contains_key(k) && *v == self@[k],
                None => !self@.contains_key(k),
            },
    {
        let n = self.entries.len();
        let mut i: usize = 0;
        while i < n
            invariant
                self.wf(),
                n == self.entries.len(),
                i <= n,
                forall|j: int| 0 <= j < i ==> self.entries@[j].0 != k,
            decreases n - i,
        {
            if self.entries[i].0 == k {
                proof {
                    lemma_map_found(self.entries@, i as int, k);
                }
                return Some(&self.entries[i].1);
            }
            i += 1;
        }
        proof {
            lemma_map_domain(self.entries@);
        }
        None
    }

    /// Binds `k` to `v`, replacing any previous binding.
    pub fn set(&mut self, k: u64, v: V)
        requires
            old(self).wf(),
        ensures
            final(self).wf(),
            final(self)@ == old(self)@.insert(k, v),
            if old(self)@.contains_key(k) {
                exists|i: int|
                    0 <= i < old(self).kvs().len() && old(self).kvs()[i] == (k, old(self)@[k])
                        && final(self).kvs() == old(self).kvs().update(i, (k, v))
            } else {
                final(self).kvs() == old(self).kvs().push((k, v))
            },
    {
        let n = self.entries.len();
        let mut i: usize = 0;
        while i < n
            invariant
                self.wf(),
                self == old(self),
                n == self.entries.len(),
                i <= n,
                forall|j: int| 0 <= j < i ==> self.entries@[j].0 != k,
            decreases n - i,
        {
            if self.entries[i].0 == k {
                let ghost prior = self.entries@;
                proof {
                    lemma_map_found(prior, i as int, k);
                    lemma_map_update(prior, i as int, v);
                }
                self.entries[i] = (k, v);
                proof {
                    assert(prior[i as int] == (k, seq_to_map(prior)[k]));
                    assert(self.entries@ == prior.update(i as int, (k, v)));
                    assert(old(self)@.contains_key(k));
                    assert((i as int) < old(self).kvs().len());
                    assert(old(self).kvs()[i as int] == (k, old(self)@[k]));
                    assert(self.kvs() == old(self).kvs().update(i as int, (k, v)));
                }
                return ;
            }
            i += 1;
        }
        proof {
            lemma_map_domain(self.entries@);
            lemma_map_push(self.entries@, k, v);
        }
        self.entries.push((k, v));
    }

    /// Removes and returns the binding of `k`, if there is one.
    pub fn remove(&mut self, k: u64) -> (r: Option<V>)
        requires
            old(self).wf(),
        ensures
            final(self).wf(),
            match r {
                Some(v) => old(self)@.contains_key(k) && v == old(self)@[k] && final(self)@
                    == old(self)@.remove(k),
                None => !old(self)@.contains_key(k) && *final(self) == *old(self),
            },
    {
        let n = self.entries.len();
        let mut i: usize = 0;
        while i < n
            invariant
                self.wf(),
                self == old(self),
                n == self.entries.len(),
                i <= n,
                forall|j: int| 0 <= j < i ==> self.entries@[j].0 != k,
            decreases n - i,
        {
            if self.entries[i].0 == k {
                proof {
                    lemma_map_found(self.entries@, i as int, k);
                    lemma_map_remove(self.entries@, i as int);
                }
                let pair = self.entries.remove(i);
                return Some(pair.1);
            }
            i += 1;
        }
        proof {
            lemma_map_domain(self.entries@);
        }
        None
    }
}

} // verus!
