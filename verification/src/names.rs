//! A set of names, such as the executables that a formula provides.

use vstd::prelude::*;
use crate::store::Store;

verus! {

/// A set of strings. Adding a name that is already present changes nothing.
pub struct NameSet {
    inner: Store<()>,
}

impl NameSet {
    /// The names as a mathematical set.
    pub closed spec fn view(&self) -> Set<Seq<char>> {
        self.inner@.dom()
    }

    /// The names in the order in which they were first added.
    pub closed spec fn name_seq(&self) -> Seq<Seq<char>> {
        self.inner.key_seq()
    }

    /// No name is held twice.
    pub closed spec fn wf(&self) -> bool {
        self.inner.wf()
    }

    /// `name_seq` lists the set, each name once.
    pub proof fn lemma_names(&self)
        requires
            self.wf(),
        ensures
            self.name_seq().no_duplicates(),
            forall|n: Seq<char>| #[trigger] self@.contains(n) <==> self.name_seq().contains(n),
            self@.finite(),
            self@.len() == self.name_seq().len(),
    {
        self.inner.lemma_entries();
        self.name_seq().unique_seq_to_set();
        assert(self@ =~= self.name_seq().to_set());
    }

    pub fn new() -> (s: Self)
        ensures
            s.wf(),
            s@ == Set::<Seq<char>>::empty(),
            s.name_seq().len() == 0,
    {
        let s = NameSet { inner: Store::new() };
        assert(s@ =~= Set::<Seq<char>>::empty());
        s
    }

    pub fn len(&self) -> (n: usize)
        requires
            self.wf(),
        ensures
            n == self@.len(),
            n == self.name_seq().len(),
            self@.finite(),
    {
        self.inner.len()
    }

    pub fn is_empty(&self) -> (b: bool)
        requires
            self.wf(),
        ensures
            b == (self@ =~= Set::<Seq<char>>::empty()),
    {
        self.inner.is_empty()
    }

    pub fn contains(&self, name: &str) -> (b: bool)
        requires
            self.wf(),
        ensures
            b == self@.contains(name@),
    {
        self.inner.contains_key(name)
    }

    /// Adds `name`; a name that is already there stays where it is.
    pub fn insert(&mut self, name: String)
        requires
            old(self).wf(),
        ensures
            final(self).wf(),
            final(self)@ == old(self)@.insert(name@),
            old(self)@.contains(name@) ==> final(self).name_seq() == old(self).name_seq(),
            !old(self)@.contains(name@) ==> final(self).name_seq() == old(self).name_seq().push(
                name@,
            ),
    {
        self.inner.insert(name, ());
        assert(self.inner@.dom() =~= old(self).inner@.dom().insert(name@));
    }

    /// The `i`-th name, in order of first addition.
    pub fn get(&self, i: usize) -> (n: &String)
        requires
            self.wf(),
            i < self.name_seq().len(),
        ensures
            n@ == self.name_seq()[i as int],
            self@.contains(n@),
    {
        proof {
            self.inner.lemma_entries();
        }
        self.inner.key_at(i)
    }

    /// A copy that holds the same names in the same order.
    pub fn duplicate(&self) -> (r: Self)
        requires
            self.wf(),
        ensures
            r.wf(),
            r@ == self@,
            r.name_seq() == self.name_seq(),
    {
        let mut r = NameSet::new();
        let n = self.len();
        proof {
            self.lemma_names();
        }
        let mut i: usize = 0;
        while i < n
            invariant
                self.wf(),
                r.wf(),
                n == self.name_seq().len(),
                i <= n,
                self.name_seq().no_duplicates(),
                r.name_seq() == self.name_seq().take(i as int),
                forall|k: Seq<char>| #[trigger] r@.contains(k) <==> self.name_seq().take(i as int).contains(k),
            decreases n - i,
        {
            let name = self.get(i).clone();
            proof {
                let ks = self.name_seq();
                if ks.take(i as int).contains(name@) {
                    let j = ks.take(i as int).index_of(name@);
                    assert(ks[j] == ks[i as int]);
                }
                assert(ks.take(i as int + 1) =~= ks.take(i as int).push(name@));
            }
            r.insert(name);
            i += 1;
            proof {
                r.lemma_names();
            }
        }
        proof {
            assert(self.name_seq().take(n as int) =~= self.name_seq());
            self.lemma_names();
            assert(r@ =~= self@);
        }
        r
    }
}

} // verus!
