//! A map from package identifier to a value, with unique keys.

use vstd::prelude::*;

verus! {

/// A mapping from identifier to `V`. Keys are unique; inserting under a key
/// that is already present replaces the value.
pub struct Store<V> {
    keys: Vec<String>,
    vals: Vec<V>,
}

/// The map that results from inserting `pairs` in order into an empty store:
/// of two pairs with the same key, the later one stays.
pub open spec fn fold_pairs<V>(pairs: Seq<(Seq<char>, V)>) -> Map<Seq<char>, V>
    decreases pairs.len(),
{
    if pairs.len() == 0 {
        Map::empty()
    } else {
        fold_pairs(pairs.drop_last()).insert(pairs.last().0, pairs.last().1)
    }
}

impl<V> Store<V> {
    /// The keys in the order in which they were first inserted.
    pub closed spec fn key_seq(&self) -> Seq<Seq<char>> {
        Seq::new(self.keys@.len(), |i: int| self.keys@[i]@)
    }

    /// The values, each at the position of its key in `key_seq`.
    pub closed spec fn value_seq(&self) -> Seq<V> {
        self.vals@
    }

    /// No key occurs twice, and every key has its value.
    pub closed spec fn wf(&self) -> bool {
        &&& self.keys@.len() == self.vals@.len()
        &&& forall|i: int, j: int|
            0 <= i < j < self.keys@.len() ==> self.keys@[i]@ != self.keys@[j]@
    }

    /// The store as a mathematical map.
    pub open spec fn view(&self) -> Map<Seq<char>, V> {
        Map::new(
            |k: Seq<char>| self.key_seq().contains(k),
            |k: Seq<char>| self.value_seq()[self.key_seq().index_of(k)],
        )
    }

    /// What a well-formed store's sequences have to do with its map.
    pub proof fn lemma_entries(&self)
        requires
            self.wf(),
        ensures
            self.key_seq().len() == self.value_seq().len(),
            self.key_seq().no_duplicates(),
            forall|i: int|
                0 <= i < self.key_seq().len() ==> self@.contains_key(#[trigger] self.key_seq()[i])
                    && self@[self.key_seq()[i]] == self.value_seq()[i],
            forall|k: Seq<char>| #[trigger]
                self@.contains_key(k) <==> self.key_seq().contains(k),
    {
        let ks = self.key_seq();
        assert forall|i: int| 0 <= i < ks.len() implies self@.contains_key(#[trigger] ks[i])
            && self@[ks[i]] == self.value_seq()[i] by {
            let j = ks.index_of(ks[i]);
            assert(ks.contains(ks[i]));
            assert(0 <= j < ks.len() && ks[j] == ks[i]);
            if j != i {
                if j < i {
                    assert(self.keys@[j]@ != self.keys@[i]@);
                } else {
                    assert(self.keys@[i]@ != self.keys@[j]@);
                }
            }
        }
    }

    pub fn new() -> (s: Self)
        ensures
            s.wf(),
            s@ == Map::<Seq<char>, V>::empty(),
            s.key_seq().len() == 0,
    {
        let s = Store { keys: Vec::new(), vals: Vec::new() };
        assert(s@ =~= Map::<Seq<char>, V>::empty());
        s
    }

    pub fn len(&self) -> (n: usize)
        requires
            self.wf(),
        ensures
            n == self.key_seq().len(),
            n == self@.dom().len(),
            self@.dom().finite(),
    {
        proof {
            self.lemma_entries();
            self.key_seq().unique_seq_to_set();
            assert(self@.dom() =~= self.key_seq().to_set());
        }
        self.keys.len()
    }

    pub fn is_empty(&self) -> (b: bool)
        requires
            self.wf(),
        ensures
            b == (self@.dom() =~= Set::<Seq<char>>::empty()),
            b == (self.key_seq().len() == 0),
    {
        proof {
            self.lemma_entries();
            if self.key_seq().len() > 0 {
                assert(self@.contains_key(self.key_seq()[0]));
            }
        }
        self.keys.len() == 0
    }

    /// The position of `key` among the keys, if it is one.
    fn position(&self, key: &str) -> (r: Option<usize>)
        requires
            self.wf(),
        ensures
            match r {
                Some(i) => i < self.key_seq().len() && self.key_seq()[i as int] == key@,
                None => !self.key_seq().contains(key@),
            },
    {
        let mut i: usize = 0;
        while i < self.keys.len()
            invariant
                i <= self.keys@.len(),
                forall|j: int| 0 <= j < i ==> self.keys@[j]@ != key@,
            decreases self.keys@.len() - i,
        {
            if str_eq(self.keys[i].as_str(), key) {
                return Some(i);
            }
            i += 1;
        }
        None
    }

    pub fn contains_key(&self, key: &str) -> (b: bool)
        requires
            self.wf(),
        ensures
            b == self@.contains_key(key@),
    {
        self.position(key).is_some()
    }

    pub fn get(&self, key: &str) -> (r: Option<&V>)
        requires
            self.wf(),
        ensures
            match r {
                Some(v) => self@.contains_key(key@) && *v == self@[key@],
                None => !self@.contains_key(key@),
            },
    {
        proof {
            self.lemma_entries();
        }
        match self.position(key) {
            Some(i) => Some(&self.vals[i]),
            None => None,
        }
    }

    /// The `i`-th key, in order of first insertion.
    pub fn key_at(&self, i: usize) -> (k: &String)
        requires
            self.wf(),
            i < self.key_seq().len(),
        ensures
            k@ == self.key_seq()[i as int],
    {
        &self.keys[i]
    }

    /// The value of the `i`-th key.
    pub fn value_at(&self, i: usize) -> (v: &V)
        requires
            self.wf(),
            i < self.key_seq().len(),
        ensures
            *v == self.value_seq()[i as int],
            *v == self@[self.key_seq()[i as int]],
    {
        proof {
            self.lemma_entries();
        }
        &self.vals[i]
    }

    /// Puts `val` under `key`. A value that was there before is replaced;
    /// the keys that were there keep their positions.
    pub fn insert(&mut self, key: String, val: V)
        requires
            old(self).wf(),
        ensures
            final(self).wf(),
            final(self)@ == old(self)@.insert(key@, val),
            old(self)@.contains_key(key@) ==> final(self).key_seq() == old(self).key_seq(),
            !old(self)@.contains_key(key@) ==> final(self).key_seq() == old(self).key_seq().push(
                key@,
            ),
    {
        proof {
            self.lemma_entries();
        }
        let ghost before = *self;
        match self.position(key.as_str()) {
            Some(i) => {
                self.vals.set(i, val);
                proof {
                    assert(self.key_seq() =~= before.key_seq());
                    self.lemma_entries();
                    assert(self@ =~= before@.insert(key@, val)) by {
                        assert forall|k: Seq<char>| self@.contains_key(k) implies #[trigger] self@[k]
                            == before@.insert(key@, val)[k] by {
                            let j = self.key_seq().index_of(k);
                            assert(self.key_seq()[j] == k);
                        }
                    }
                }
            },
            None => {
                self.keys.push(key);
                self.vals.push(val);
                proof {
                    assert(self.key_seq() =~= before.key_seq().push(key@));
                    assert forall|i: int, j: int| 0 <= i < j < self.keys@.len() implies self.keys@[i]@
                        != self.keys@[j]@ by {
                        if j == before.keys@.len() {
                            assert(before.key_seq()[i] == before.keys@[i]@);
                            assert(before.key_seq().contains(before.keys@[i]@));
                        } else {
                            assert(before.keys@[i]@ != before.keys@[j]@);
                        }
                    }
                    self.lemma_entries();
                    let n = before.key_seq().len() as int;
                    assert(self.key_seq()[n] == key@);
                    assert(self@ =~= before@.insert(key@, val)) by {
                        assert forall|k: Seq<char>| #[trigger]
                            self@.contains_key(k) <==> before@.insert(key@, val).contains_key(
                                k,
                            ) by {
                            if self.key_seq().contains(k) {
                                let j = self.key_seq().index_of(k);
                                assert(self.key_seq()[j] == k);
                                if j < n {
                                    assert(before.key_seq()[j] == k);
                                }
                            }
                            if before.key_seq().contains(k) {
                                let j = before.key_seq().index_of(k);
                                assert(self.key_seq()[j] == k);
                            }
                        }
                        assert forall|k: Seq<char>| self@.contains_key(k) implies #[trigger] self@[k]
                            == before@.insert(key@, val)[k] by {
                            let j = self.key_seq().index_of(k);
                            assert(self.key_seq()[j] == k);
                            if j < n {
                                assert(before.key_seq()[j] == k);
                                assert(before@[before.key_seq()[j]] == before.value_seq()[j]);
                            }
                        }
                    }
                }
            },
        }
    }
}

/// Equality of string slices, `==` of std's `str`: true exactly when the two
/// hold the same characters in the same order.
#[verifier::external_body]
pub(crate) fn str_eq(a: &str, b: &str) -> (r: bool)
    ensures
        r == (a@ == b@),
{
    a == b
}

/// Folding pairs keeps, for every key that occurs, the value of the last
/// pair with that key, and holds no other key.
pub proof fn lemma_fold_last_wins<V>(pairs: Seq<(Seq<char>, V)>)
    ensures
        forall|k: Seq<char>| #[trigger]
            fold_pairs(pairs).contains_key(k) <==> exists|i: int|
                0 <= i < pairs.len() && (#[trigger] pairs[i]).0 == k,
        forall|i: int|
            0 <= i < pairs.len() && (forall|j: int| i < j < pairs.len() ==> (#[trigger] pairs[j]).0
                != pairs[i].0) ==> fold_pairs(pairs)[(#[trigger] pairs[i]).0] == pairs[i].1,
    decreases pairs.len(),
{
    if pairs.len() > 0 {
        let rest = pairs.drop_last();
        let last = pairs.last();
        lemma_fold_last_wins(rest);
        assert(fold_pairs(pairs) == fold_pairs(rest).insert(last.0, last.1));
        assert forall|k: Seq<char>| #[trigger]
            fold_pairs(pairs).contains_key(k) <==> exists|i: int|
                0 <= i < pairs.len() && (#[trigger] pairs[i]).0 == k by {
            if fold_pairs(pairs).contains_key(k) {
                if k == last.0 {
                    assert(pairs[pairs.len() - 1].0 == k);
                } else {
                    assert(fold_pairs(rest).contains_key(k));
                    let i = choose|i: int| 0 <= i < rest.len() && (#[trigger] rest[i]).0 == k;
                    assert(pairs[i].0 == k);
                }
            }
            if exists|i: int| 0 <= i < pairs.len() && (#[trigger] pairs[i]).0 == k {
                let i = choose|i: int| 0 <= i < pairs.len() && (#[trigger] pairs[i]).0 == k;
                if i < rest.len() {
                    assert(rest[i].0 == k);
                    assert(fold_pairs(rest).contains_key(k));
                }
            }
        }
        assert forall|i: int|
            0 <= i < pairs.len() && (forall|j: int|
                i < j < pairs.len() ==> (#[trigger] pairs[j]).0 != pairs[i].0) implies fold_pairs(
            pairs,
        )[(#[trigger] pairs[i]).0] == pairs[i].1 by {
            if i < rest.len() {
                assert(pairs[pairs.len() - 1].0 != pairs[i].0);
                assert(rest[i] == pairs[i]);
                assert forall|j: int| i < j < rest.len() implies (#[trigger] rest[j]).0
                    != rest[i].0 by {
                    assert(pairs[j].0 != pairs[i].0);
                }
            }
        }
    }
}

} // verus!
