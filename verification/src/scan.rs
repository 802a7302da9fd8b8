//! What the package manager left on disk: the entries of its two
//! directories, turned into the receipts and the cask versions installed.

use vstd::prelude::*;
use vstd::string::StrSliceExecFns;
use crate::aggregate::{lemma_take_step, sets_wf};
use crate::brew::{strings, Brew};
use crate::models::Receipt;
use crate::names::NameSet;
use crate::registry::set_views;
use crate::store::{fold_pairs, Store};

verus! {

/// A name that begins with a dot: a hidden entry.
pub open spec fn spec_is_dotfile(name: Seq<char>) -> bool {
    name.len() > 0 && name[0] == '.'
}

/// The names that are not hidden, in their order.
pub open spec fn spec_visible(names: Seq<Seq<char>>) -> Seq<Seq<char>>
    decreases names.len(),
{
    if names.len() == 0 {
        Seq::empty()
    } else if spec_is_dotfile(names.last()) {
        spec_visible(names.drop_last())
    } else {
        spec_visible(names.drop_last()).push(names.last())
    }
}

/// The names that are not hidden, as a set.
pub open spec fn spec_visible_set(names: Seq<Seq<char>>) -> Set<Seq<char>> {
    Set::new(|n: Seq<char>| names.contains(n) && !spec_is_dotfile(n))
}

/// The scanned receipts as pairs of identifier and receipt.
pub open spec fn spec_receipt_pairs(entries: Seq<(String, Receipt)>) -> Seq<(Seq<char>, Receipt)> {
    entries.map_values(|e: (String, Receipt)| (e.0@, e.1))
}

/// The scanned cask directories as pairs of identifier and version set.
pub open spec fn spec_version_pairs(dirs: Seq<(String, Vec<String>)>) -> Seq<
    (Seq<char>, Set<Seq<char>>),
> {
    dirs.map_values(|d: (String, Vec<String>)| (d.0@, spec_visible_set(strings(d.1@))))
}

impl Brew {
    /// The directory under the prefix that holds one entry per installed
    /// formula.
    pub fn receipts_root() -> (r: &'static str)
        ensures
            r@ == "opt"@,
    {
        "opt"
    }

    /// The directory under the prefix that holds one directory per
    /// installed cask.
    pub fn cask_root() -> (r: &'static str)
        ensures
            r@ == "Caskroom"@,
    {
        "Caskroom"
    }

    /// The file in a formula's directory that holds its receipt.
    pub fn receipt_file() -> (r: &'static str)
        ensures
            r@ == "INSTALL_RECEIPT.json"@,
    {
        "INSTALL_RECEIPT.json"
    }

    pub fn is_dotfile(name: &str) -> (r: bool)
        ensures
            r == spec_is_dotfile(name@),
    {
        if name.is_empty() {
            false
        } else {
            name.get_char(0) == '.'
        }
    }

    /// Of the entries of the receipts directory, those whose receipt is to
    /// be read: all but the hidden ones, in their order.
    pub fn receipt_entries(&self, children: &Vec<String>) -> (r: Vec<String>)
        ensures
            strings(r@) == spec_visible(strings(children@)),
    {
        let mut out: Vec<String> = Vec::new();
        let ghost names = strings(children@);
        let mut i: usize = 0;
        assert(strings(out@) =~= spec_visible(names.take(0)));
        while i < children.len()
            invariant
                i <= children@.len(),
                names == strings(children@),
                strings(out@) == spec_visible(names.take(i as int)),
            decreases children@.len() - i,
        {
            let ghost before = out@;
            proof {
                lemma_take_step(names, i as int);
            }
            if !Self::is_dotfile(children[i].as_str()) {
                out.push(children[i].clone());
                assert(strings(out@) =~= strings(before).push(names[i as int]));
            }
            i += 1;
        }
        assert(names.take(i as int) =~= names);
        out
    }

    /// The receipts that were read, each under the name of its entry.
    pub fn eval_installed_formulae_receipts(&self, entries: &Vec<(String, Receipt)>) -> (r: Store<
        Receipt,
    >)
        ensures
            r.wf(),
            r@ == fold_pairs(spec_receipt_pairs(entries@)),
    {
        let mut store: Store<Receipt> = Store::new();
        let mut i: usize = 0;
        while i < entries.len()
            invariant
                i <= entries@.len(),
                store.wf(),
                store@ == fold_pairs(spec_receipt_pairs(entries@).take(i as int)),
            decreases entries@.len() - i,
        {
            proof {
                lemma_take_step(spec_receipt_pairs(entries@), i as int);
            }
            store.insert(entries[i].0.clone(), entries[i].1.duplicate());
            i += 1;
        }
        assert(spec_receipt_pairs(entries@).take(i as int) =~= spec_receipt_pairs(entries@));
        store
    }

    /// The names among `children` that are not hidden.
    pub fn visible_set(&self, children: &Vec<String>) -> (r: NameSet)
        ensures
            r.wf(),
            r@ == spec_visible_set(strings(children@)),
    {
        let mut out = NameSet::new();
        let ghost names = strings(children@);
        let mut i: usize = 0;
        assert(out@ =~= spec_visible_set(names.take(0)));
        while i < children.len()
            invariant
                i <= children@.len(),
                names == strings(children@),
                out.wf(),
                out@ == spec_visible_set(names.take(i as int)),
            decreases children@.len() - i,
        {
            let ghost before = out@;
            proof {
                lemma_take_step(names, i as int);
            }
            if !Self::is_dotfile(children[i].as_str()) {
                out.insert(children[i].clone());
            }
            assert(out@ =~= spec_visible_set(names.take(i as int + 1)));
            i += 1;
        }
        assert(names.take(i as int) =~= names);
        out
    }

    /// The versions found of each cask: for every directory of the cask
    /// root, the names of its entries that are not hidden.
    pub fn eval_installed_casks_versions(&self, dirs: &Vec<(String, Vec<String>)>) -> (r: Store<
        NameSet,
    >)
        ensures
            r.wf(),
            sets_wf(r),
            set_views(r) == fold_pairs(spec_version_pairs(dirs@)),
    {
        let mut store: Store<NameSet> = Store::new();
        let mut i: usize = 0;
        assert(set_views(store) =~= fold_pairs(spec_version_pairs(dirs@).take(0)));
        while i < dirs.len()
            invariant
                i <= dirs@.len(),
                store.wf(),
                forall|k: Seq<char>| store@.contains_key(k) ==> (#[trigger] store@[k]).wf(),
                set_views(store) == fold_pairs(spec_version_pairs(dirs@).take(i as int)),
            decreases dirs@.len() - i,
        {
            let ghost before = store;
            proof {
                lemma_take_step(spec_version_pairs(dirs@), i as int);
            }
            let versions = self.visible_set(&dirs[i].1);
            store.insert(dirs[i].0.clone(), versions);
            assert(set_views(store) =~= set_views(before).insert(dirs@[i as int].0@, versions@));
            i += 1;
        }
        assert(spec_version_pairs(dirs@).take(i as int) =~= spec_version_pairs(dirs@));
        store
    }
}

/// No hidden name is among the visible ones, and every other name is.
pub proof fn lemma_visible(names: Seq<Seq<char>>)
    ensures
        forall|n: Seq<char>| #[trigger]
            spec_visible(names).contains(n) <==> (names.contains(n) && !spec_is_dotfile(n)),
    decreases names.len(),
{
    if names.len() > 0 {
        let rest = names.drop_last();
        let last = names.last();
        lemma_visible(rest);
        let v = spec_visible(rest);
        assert(names =~= rest.push(last));
        assert forall|n: Seq<char>| #[trigger]
            spec_visible(names).contains(n) <==> (names.contains(n) && !spec_is_dotfile(n)) by {
            assert(v.contains(n) <==> (rest.contains(n) && !spec_is_dotfile(n)));
            lemma_push_contains(rest, last, n);
            lemma_push_contains(v, last, n);
        }
    }
}

/// A sequence with one more element holds what it held, and that element.
pub proof fn lemma_push_contains<A>(s: Seq<A>, x: A, a: A)
    ensures
        s.push(x).contains(a) <==> (s.contains(a) || a == x),
{
    if s.push(x).contains(a) {
        let i = s.push(x).index_of(a);
        if i < s.len() {
            assert(s[i] == a);
        }
    }
    if s.contains(a) {
        let i = s.index_of(a);
        assert(s.push(x)[i] == a);
    }
    assert(s.push(x)[s.len() as int] == x);
}

} // verus!
