//! A keyed store with `(u64, u8)` keys, viewed as a mathematical map.
//!
//! The same shape as [`crate::table`], for values keyed by a pair: a poll
//! id together with a choice id.

use vstd::prelude::*;

verus! {

/// No two entries share a key.
spec fn uniq_keys<V: View>(s: Seq<(u64, u8, V)>) -> bool {
    forall|i: int, j: int|
        #![trigger s[i], s[j]]
        0 <= i < j < s.len() ==> !(s[i].0 == s[j].0 && s[i].1 == s[j].1)
}

/// The map from each key in `s` to the view of the value stored under it.
spec fn map_of<V: View>(s: Seq<(u64, u8, V)>) -> Map<(u64, u8), V::V>
    decreases s.len(),
{
    if s.len() == 0 {
        Map::empty()
    } else {
        map_of(s.drop_last()).insert((s.last().0, s.last().1), s.last().2@)
    }
}

proof fn lemma_map_of_absent<V: View>(s: Seq<(u64, u8, V)>, key: (u64, u8))
    requires
        forall|j: int|
            0 <= j < s.len() ==> !((#[trigger] s[j]).0 == key.0 && s[j].1 == key.1),
    ensures
        !map_of(s).contains_key(key),
    decreases s.len(),
{
    if s.len() > 0 {
        lemma_map_of_absent(s.drop_last(), key);
    }
}

proof fn lemma_map_of_found<V: View>(s: Seq<(u64, u8, V)>, key: (u64, u8), i: int)
    requires
        uniq_keys(s),
        0 <= i < s.len(),
        s[i].0 == key.0,
        s[i].1 == key.1,
    ensures
        map_of(s).contains_key(key),
        map_of(s)[key] == s[i].2@,
    decreases s.len(),
{
    if i < s.len() - 1 {
        lemma_map_of_found(s.drop_last(), key, i);
    }
}

proof fn lemma_map_of_update<V: View>(s: Seq<(u64, u8, V)>, i: int, key: (u64, u8), value: V)
    requires
        uniq_keys(s),
        0 <= i < s.len(),
        s[i].0 == key.0,
        s[i].1 == key.1,
    ensures
        map_of(s.update(i, (key.0, key.1, value))) == map_of(s).insert(key, value@),
    decreases s.len(),
{
    let t = s.update(i, (key.0, key.1, value));
    if i == s.len() - 1 {
        assert(t.drop_last() =~= s.drop_last());
        assert(map_of(s.drop_last()).insert(key, s.last().2@).insert(key, value@)
            =~= map_of(s.drop_last()).insert(key, value@));
    } else {
        lemma_map_of_update(s.drop_last(), i, key, value);
        assert(t.drop_last() =~= s.drop_last().update(i, (key.0, key.1, value)));
        assert(t.last() == s.last());
        assert(map_of(s.drop_last()).insert(key, value@).insert(
            (s.last().0, s.last().1),
            s.last().2@,
        ) =~= map_of(s.drop_last()).insert((s.last().0, s.last().1), s.last().2@).insert(
            key,
            value@,
        ));
    }
}

/// A store of values keyed by a `(u64, u8)` pair, without duplicate keys.
pub struct PairTable<V: View> {
    entries: Vec<(u64, u8, V)>,
}

impl<V: View> View for PairTable<V> {
    type V = Map<(u64, u8), V::V>;

    closed spec fn view(&self) -> Map<(u64, u8), V::V> {
        map_of(self.entries@)
    }
}

impl<V: View> PairTable<V> {
    /// The store never holds two entries with the same key.
    pub closed spec fn wf(&self) -> bool {
        uniq_keys(self.entries@)
    }

    /// An empty store.
    pub fn new() -> (r: Self)
        ensures
            r.wf(),
            r@ == Map::<(u64, u8), V::V>::empty(),
    {
        let r = PairTable { entries: Vec::new() };
        proof {
            assert(r@ =~= Map::<(u64, u8), V::V>::empty());
        }
        r
    }

    /// The index of the entry holding `key`, if any.
    fn find(&self, key: (u64, u8)) -> (r: Option<usize>)
        ensures
            match r {
                Some(i) => i < self.entries@.len() && self.entries@[i as int].0 == key.0
                    && self.entries@[i as int].1 == key.1,
                None => forall|j: int|
                    0 <= j < self.entries@.len() ==> !((#[trigger] self.entries@[j]).0 == key.0
                        && self.entries@[j].1 == key.1),
            },
    {
        let mut i: usize = 0;
        while i < self.entries.len()
            invariant
                i <= self.entries@.len(),
                forall|j: int|
                    0 <= j < i ==> !((#[trigger] self.entries@[j]).0 == key.0
                        && self.entries@[j].1 == key.1),
            decreases self.entries@.len() - i,
        {
            if self.entries[i].0 == key.0 && self.entries[i].1 == key.1 {
                return Some(i);
            }
            i = i + 1;
        }
        None
    }

    /// The value stored under `key`, if any.
    pub fn get(&self, key: (u64, u8)) -> (r: Option<&V>)
        requires
            self.wf(),
        ensures
            match r {
                Some(v) => self@.contains_key(key) && v@ == self@[key],
                None => !self@.contains_key(key),
            },
    {
        match self.find(key) {
            Some(i) => {
                proof {
                    lemma_map_of_found(self.entries@, key, i as int);
                }
                Some(&self.entries[i].2)
            },
            None => {
                proof {
                    lemma_map_of_absent(self.entries@, key);
                }
                None
            },
        }
    }

    /// Whether some value is stored under `key`.
    pub fn contains(&self, key: (u64, u8)) -> (r: bool)
        requires
            self.wf(),
        ensures
            r == self@.contains_key(key),
    {
        self.get(key).is_some()
    }

    /// Stores `value` under `key`, replacing any value stored there before.
    pub fn insert(&mut self, key: (u64, u8), value: V)
        requires
            old(self).wf(),
        ensures
            final(self).wf(),
            final(self)@ == old(self)@.insert(key, value@),
    {
        match self.find(key) {
            Some(i) => {
                proof {
                    lemma_map_of_update(self.entries@, i as int, key, value);
                }
                self.entries.set(i, (key.0, key.1, value));
            },
            None => {
                proof {
                    assert(self.entries@.push((key.0, key.1, value)).drop_last()
                        =~= self.entries@);
                }
                self.entries.push((key.0, key.1, value));
            },
        }
    }
}

} // verus!
