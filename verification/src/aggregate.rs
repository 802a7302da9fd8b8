//! Joining the catalog, the popularity records, the executables and the
//! local scan into one state.

use vstd::prelude::*;
use vstd::string::StringExecFns;
use crate::brew::Brew;
use crate::models::{
    Cask, CaskBase, Formula, FormulaBase, FormulaView, InstalledCask, InstalledCaskView,
    InstalledFormula, InstalledFormulaView, Popularity, Receipt, State, Tiers,
};
use crate::names::NameSet;
use crate::store::{fold_pairs, Store};

verus! {

/// The popularity record of a formula: the one under its key, else the one
/// under its tap-qualified name, else none.
pub open spec fn spec_popularity_of(
    key: Seq<char>,
    base: FormulaBase,
    popularity: Map<Seq<char>, Popularity>,
) -> Option<Popularity> {
    if popularity.contains_key(key) {
        Some(popularity[key])
    } else if popularity.contains_key(base.spec_qualified_name()) {
        Some(popularity[base.spec_qualified_name()])
    } else {
        None
    }
}

/// The executables of a formula: the set under its key, else the empty set.
pub open spec fn spec_executables_of(
    key: Seq<char>,
    executables: Map<Seq<char>, NameSet>,
) -> Set<Seq<char>> {
    if executables.contains_key(key) {
        executables[key]@
    } else {
        Set::empty()
    }
}

/// A catalog entry with what the popularity source and the executable
/// registry add to it.
pub open spec fn spec_enriched(
    key: Seq<char>,
    base: FormulaBase,
    popularity: Map<Seq<char>, Popularity>,
    executables: Map<Seq<char>, NameSet>,
) -> FormulaView {
    FormulaView {
        base,
        executables: spec_executables_of(key, executables),
        analytics: spec_popularity_of(key, base, popularity),
    }
}

/// Every value of the store is well-formed.
pub open spec fn sets_wf(store: Store<NameSet>) -> bool {
    forall|k: Seq<char>| store@.contains_key(k) ==> (#[trigger] store@[k]).wf()
}

/// Every formula of the store is well-formed.
pub open spec fn formulae_wf(store: Store<Formula>) -> bool {
    forall|k: Seq<char>| store@.contains_key(k) ==> (#[trigger] store@[k]).wf()
}

/// The formula records as pairs of identifier and record.
pub open spec fn spec_formula_pairs(list: Seq<FormulaBase>) -> Seq<(Seq<char>, FormulaBase)> {
    list.map_values(|f: FormulaBase| (f.name@, f))
}

/// The cask records as pairs of identifier and record.
pub open spec fn spec_cask_pairs(list: Seq<CaskBase>) -> Seq<(Seq<char>, CaskBase)> {
    list.map_values(|c: CaskBase| (c.token@, c))
}

/// The popularity records as pairs of identifier and record.
pub open spec fn spec_popularity_pairs(list: Seq<Popularity>) -> Seq<(Seq<char>, Popularity)> {
    list.map_values(|p: Popularity| (p.formula@, p))
}

/// A prefix that is one longer holds what the shorter one holds, and the
/// element that follows it.
pub proof fn lemma_take_step<A>(s: Seq<A>, i: int)
    requires
        0 <= i < s.len(),
    ensures
        s.take(i + 1) == s.take(i).push(s[i]),
        s.take(i + 1).drop_last() == s.take(i),
        s.take(i + 1).last() == s[i],
        forall|k: A| #[trigger] s.take(i + 1).contains(k) <==> (s.take(i).contains(k) || k == s[i]),
{
    assert(s.take(i + 1) =~= s.take(i).push(s[i]));
    assert(s.take(i + 1).drop_last() =~= s.take(i));
    assert forall|k: A| #[trigger] s.take(i + 1).contains(k) <==> (s.take(i).contains(k) || k
        == s[i]) by {
        if s.take(i + 1).contains(k) {
            let j = s.take(i + 1).index_of(k);
            if j < i {
                assert(s.take(i)[j] == k);
            }
        }
        if s.take(i).contains(k) {
            let j = s.take(i).index_of(k);
            assert(s.take(i + 1)[j] == k);
        }
        assert(s.take(i + 1)[i] == s[i]);
    }
}

/// The tap-qualified name of a formula: the tap, a slash, the name.
pub fn qualified_name(base: &FormulaBase) -> (r: String)
    ensures
        r@ == base.spec_qualified_name(),
{
    proof {
        reveal_strlit("/");
    }
    let r = base.tap.clone().concat("/").concat(base.name.as_str());
    assert("/"@ =~= seq!['/']);
    r
}

/// Joins one catalog entry with the two other sources. A source that knows
/// nothing of the formula leaves its part empty.
pub fn enrich(
    key: &str,
    base: FormulaBase,
    popularity: &Store<Popularity>,
    executables: &Store<NameSet>,
) -> (r: Formula)
    requires
        popularity.wf(),
        executables.wf(),
        sets_wf(*executables),
    ensures
        r.wf(),
        r@ == spec_enriched(key@, base, popularity@, executables@),
{
    let found = match executables.get(key) {
        Some(e) => e.duplicate(),
        None => NameSet::new(),
    };
    let analytics = match popularity.get(key) {
        Some(a) => Some(a.duplicate()),
        None => {
            let fallback = qualified_name(&base);
            match popularity.get(fallback.as_str()) {
                Some(a) => Some(a.duplicate()),
                None => None,
            }
        },
    };
    Formula { base, executables: found, analytics }
}

impl Brew {
    /// Folds the records of the bulk catalog into two stores, each record
    /// under its own identifier. Of two records with one identifier the
    /// later stays.
    pub fn eval_all(&self, formulae: &Vec<FormulaBase>, casks: &Vec<CaskBase>) -> (r: State<
        Store<FormulaBase>,
        Store<CaskBase>,
    >)
        ensures
            r.formulae.wf(),
            r.casks.wf(),
            r.formulae@ == fold_pairs(spec_formula_pairs(formulae@)),
            r.casks@ == fold_pairs(spec_cask_pairs(casks@)),
    {
        let mut fs: Store<FormulaBase> = Store::new();
        let mut i: usize = 0;
        while i < formulae.len()
            invariant
                i <= formulae@.len(),
                fs.wf(),
                fs@ == fold_pairs(spec_formula_pairs(formulae@).take(i as int)),
            decreases formulae@.len() - i,
        {
            proof {
                lemma_take_step(spec_formula_pairs(formulae@), i as int);
            }
            let f = formulae[i].duplicate();
            fs.insert(f.name.clone(), f);
            i += 1;
        }
        let mut cs: Store<CaskBase> = Store::new();
        let mut j: usize = 0;
        while j < casks.len()
            invariant
                j <= casks@.len(),
                cs.wf(),
                cs@ == fold_pairs(spec_cask_pairs(casks@).take(j as int)),
            decreases casks@.len() - j,
        {
            proof {
                lemma_take_step(spec_cask_pairs(casks@), j as int);
            }
            let c = casks[j].duplicate();
            cs.insert(c.token.clone(), c);
            j += 1;
        }
        proof {
            assert(spec_formula_pairs(formulae@).take(i as int) =~= spec_formula_pairs(formulae@));
            assert(spec_cask_pairs(casks@).take(j as int) =~= spec_cask_pairs(casks@));
        }
        State { formulae: fs, casks: cs }
    }

    /// Folds the items of the popularity source into a store, each under
    /// the identifier that the source gives it, spelled as the source
    /// spells it.
    pub fn analytics(&self, items: &Vec<Popularity>) -> (r: Store<Popularity>)
        ensures
            r.wf(),
            r@ == fold_pairs(spec_popularity_pairs(items@)),
    {
        let mut store: Store<Popularity> = Store::new();
        let mut i: usize = 0;
        while i < items.len()
            invariant
                i <= items@.len(),
                store.wf(),
                store@ == fold_pairs(spec_popularity_pairs(items@).take(i as int)),
            decreases items@.len() - i,
        {
            proof {
                lemma_take_step(spec_popularity_pairs(items@), i as int);
            }
            let item = items[i].duplicate();
            store.insert(item.formula.clone(), item);
            i += 1;
        }
        proof {
            assert(spec_popularity_pairs(items@).take(i as int) =~= spec_popularity_pairs(items@));
        }
        store
    }
}

impl Brew {
    /// The enriched catalog: every formula of the base catalog with its
    /// executables and its popularity record, every cask as it is. No entry
    /// is added and none is lost.
    pub fn build_all(
        &self,
        base: &State<Store<FormulaBase>, Store<CaskBase>>,
        popularity: &Store<Popularity>,
        executables: &Store<NameSet>,
    ) -> (r: State<Store<Formula>, Store<Cask>>)
        requires
            base.formulae.wf(),
            base.casks.wf(),
            popularity.wf(),
            executables.wf(),
            sets_wf(*executables),
        ensures
            r.formulae.wf(),
            r.casks.wf(),
            formulae_wf(r.formulae),
            r.formulae@.dom() == base.formulae@.dom(),
            r.casks@.dom() == base.casks@.dom(),
            forall|k: Seq<char>| #[trigger]
                r.formulae@.contains_key(k) ==> r.formulae@[k]@ == spec_enriched(
                    k,
                    base.formulae@[k],
                    popularity@,
                    executables@,
                ),
            forall|k: Seq<char>| #[trigger]
                r.casks@.contains_key(k) ==> r.casks@[k].base == base.casks@[k],
    {
        let mut fs: Store<Formula> = Store::new();
        let n = base.formulae.len();
        let ghost fkeys = base.formulae.key_seq();
        let mut i: usize = 0;
        while i < n
            invariant
                i <= n,
                n == fkeys.len(),
                fkeys == base.formulae.key_seq(),
                base.formulae.wf(),
                popularity.wf(),
                executables.wf(),
                sets_wf(*executables),
                fs.wf(),
                formulae_wf(fs),
                forall|k: Seq<char>| #[trigger]
                    fs@.contains_key(k) <==> fkeys.take(i as int).contains(k),
                forall|k: Seq<char>| #[trigger]
                    fs@.contains_key(k) ==> fs@[k]@ == spec_enriched(
                        k,
                        base.formulae@[k],
                        popularity@,
                        executables@,
                    ),
            decreases n - i,
        {
            proof {
                lemma_take_step(fkeys, i as int);
            }
            let key = base.formulae.key_at(i).clone();
            let record = base.formulae.value_at(i).duplicate();
            let formula = enrich(key.as_str(), record, popularity, executables);
            fs.insert(key, formula);
            i += 1;
        }
        let mut cs: Store<Cask> = Store::new();
        let m = base.casks.len();
        let ghost ckeys = base.casks.key_seq();
        let mut j: usize = 0;
        while j < m
            invariant
                j <= m,
                m == ckeys.len(),
                ckeys == base.casks.key_seq(),
                base.casks.wf(),
                cs.wf(),
                forall|k: Seq<char>| #[trigger]
                    cs@.contains_key(k) <==> ckeys.take(j as int).contains(k),
                forall|k: Seq<char>| #[trigger]
                    cs@.contains_key(k) ==> cs@[k].base == base.casks@[k],
            decreases m - j,
        {
            proof {
                lemma_take_step(ckeys, j as int);
            }
            let key = base.casks.key_at(j).clone();
            let record = base.casks.value_at(j).duplicate();
            cs.insert(key, Cask { base: record });
            j += 1;
        }
        proof {
            assert(fkeys.take(n as int) =~= fkeys);
            assert(ckeys.take(m as int) =~= ckeys);
            base.formulae.lemma_entries();
            base.casks.lemma_entries();
            assert(fs@.dom() =~= base.formulae@.dom());
            assert(cs@.dom() =~= base.casks@.dom());
        }
        State { formulae: fs, casks: cs }
    }

    /// The installed formulae: for every receipt whose identifier the
    /// catalog knows, the catalog's entry and the receipt. A receipt that
    /// the catalog does not know is left out.
    pub fn eval_installed_formulae(&self, store: &Store<Formula>, receipts: &Store<Receipt>) -> (r:
        Store<InstalledFormula>)
        requires
            store.wf(),
            formulae_wf(*store),
            receipts.wf(),
        ensures
            r.wf(),
            r@.dom() == receipts@.dom().intersect(store@.dom()),
            forall|k: Seq<char>| #[trigger]
                r@.contains_key(k) ==> r@[k].wf() && r@[k]@ == (InstalledFormulaView {
                    upstream: store@[k]@,
                    receipt: receipts@[k],
                }),
    {
        let mut installed: Store<InstalledFormula> = Store::new();
        let n = receipts.len();
        let ghost keys = receipts.key_seq();
        let mut i: usize = 0;
        while i < n
            invariant
                i <= n,
                n == keys.len(),
                keys == receipts.key_seq(),
                store.wf(),
                formulae_wf(*store),
                receipts.wf(),
                installed.wf(),
                forall|k: Seq<char>| #[trigger]
                    installed@.contains_key(k) <==> (keys.take(i as int).contains(k)
                        && store@.contains_key(k)),
                forall|k: Seq<char>| #[trigger]
                    installed@.contains_key(k) ==> installed@[k].wf() && installed@[k]@ == (
                    InstalledFormulaView { upstream: store@[k]@, receipt: receipts@[k] }),
            decreases n - i,
        {
            proof {
                lemma_take_step(keys, i as int);
            }
            let name = receipts.key_at(i);
            match store.get(name.as_str()) {
                Some(formula) => {
                    let entry = InstalledFormula {
                        upstream: formula.duplicate(),
                        receipt: receipts.value_at(i).duplicate(),
                    };
                    installed.insert(name.clone(), entry);
                },
                None => {},
            }
            i += 1;
        }
        proof {
            assert(keys.take(n as int) =~= keys);
            receipts.lemma_entries();
            assert(installed@.dom() =~= receipts@.dom().intersect(store@.dom()));
        }
        installed
    }

    /// The installed casks: for every scanned cask whose identifier the
    /// catalog knows, the catalog's entry and the versions found. A scanned
    /// cask that the catalog does not know is left out.
    pub fn eval_installed_casks(&self, store: &Store<Cask>, versions: &Store<NameSet>) -> (r: Store<
        InstalledCask,
    >)
        requires
            store.wf(),
            versions.wf(),
            sets_wf(*versions),
        ensures
            r.wf(),
            r@.dom() == versions@.dom().intersect(store@.dom()),
            forall|k: Seq<char>| #[trigger]
                r@.contains_key(k) ==> r@[k].wf() && r@[k]@ == (InstalledCaskView {
                    upstream: store@[k],
                    versions: versions@[k]@,
                }),
    {
        let mut installed: Store<InstalledCask> = Store::new();
        let n = versions.len();
        let ghost keys = versions.key_seq();
        let mut i: usize = 0;
        while i < n
            invariant
                i <= n,
                n == keys.len(),
                keys == versions.key_seq(),
                store.wf(),
                versions.wf(),
                sets_wf(*versions),
                installed.wf(),
                forall|k: Seq<char>| #[trigger]
                    installed@.contains_key(k) <==> (keys.take(i as int).contains(k)
                        && store@.contains_key(k)),
                forall|k: Seq<char>| #[trigger]
                    installed@.contains_key(k) ==> installed@[k].wf() && installed@[k]@ == (
                    InstalledCaskView { upstream: store@[k], versions: versions@[k]@ }),
            decreases n - i,
        {
            proof {
                lemma_take_step(keys, i as int);
                versions.lemma_entries();
            }
            let name = versions.key_at(i);
            match store.get(name.as_str()) {
                Some(cask) => {
                    let entry = InstalledCask {
                        upstream: cask.duplicate(),
                        versions: versions.value_at(i).duplicate(),
                    };
                    installed.insert(name.clone(), entry);
                },
                None => {},
            }
            i += 1;
        }
        proof {
            assert(keys.take(n as int) =~= keys);
            versions.lemma_entries();
            assert(installed@.dom() =~= versions@.dom().intersect(store@.dom()));
        }
        installed
    }

    /// What is installed of a catalog, for both kinds.
    pub fn installed(
        &self,
        all: &State<Store<Formula>, Store<Cask>>,
        receipts: &Store<Receipt>,
        versions: &Store<NameSet>,
    ) -> (r: State<Store<InstalledFormula>, Store<InstalledCask>>)
        requires
            all.formulae.wf(),
            formulae_wf(all.formulae),
            all.casks.wf(),
            receipts.wf(),
            versions.wf(),
            sets_wf(*versions),
        ensures
            r.formulae.wf(),
            r.casks.wf(),
            r.formulae@.dom() == receipts@.dom().intersect(all.formulae@.dom()),
            r.casks@.dom() == versions@.dom().intersect(all.casks@.dom()),
            forall|k: Seq<char>| #[trigger]
                r.formulae@.contains_key(k) ==> r.formulae@[k].wf() && r.formulae@[k]@ == (
                InstalledFormulaView { upstream: all.formulae@[k]@, receipt: receipts@[k] }),
            forall|k: Seq<char>| #[trigger]
                r.casks@.contains_key(k) ==> r.casks@[k].wf() && r.casks@[k]@ == (
                InstalledCaskView { upstream: all.casks@[k], versions: versions@[k]@ }),
    {
        let formulae = self.eval_installed_formulae(&all.formulae, receipts);
        let casks = self.eval_installed_casks(&all.casks, versions);
        State { formulae, casks }
    }

    /// The full state: the enriched catalog, and what is installed of it.
    pub fn state(
        &self,
        base: &State<Store<FormulaBase>, Store<CaskBase>>,
        popularity: &Store<Popularity>,
        executables: &Store<NameSet>,
        receipts: &Store<Receipt>,
        versions: &Store<NameSet>,
    ) -> (r: State<Tiers<Formula, InstalledFormula>, Tiers<Cask, InstalledCask>>)
        requires
            base.formulae.wf(),
            base.casks.wf(),
            popularity.wf(),
            executables.wf(),
            sets_wf(*executables),
            receipts.wf(),
            versions.wf(),
            sets_wf(*versions),
        ensures
            r.formulae.all.wf(),
            r.formulae.installed.wf(),
            r.casks.all.wf(),
            r.casks.installed.wf(),
            formulae_wf(r.formulae.all),
            r.formulae.all@.dom() == base.formulae@.dom(),
            r.casks.all@.dom() == base.casks@.dom(),
            forall|k: Seq<char>| #[trigger]
                r.formulae.all@.contains_key(k) ==> r.formulae.all@[k]@ == spec_enriched(
                    k,
                    base.formulae@[k],
                    popularity@,
                    executables@,
                ),
            forall|k: Seq<char>| #[trigger]
                r.casks.all@.contains_key(k) ==> r.casks.all@[k].base == base.casks@[k],
            r.formulae.installed@.dom() == receipts@.dom().intersect(base.formulae@.dom()),
            r.casks.installed@.dom() == versions@.dom().intersect(base.casks@.dom()),
            forall|k: Seq<char>| #[trigger]
                r.formulae.installed@.contains_key(k) ==> r.formulae.installed@[k].wf()
                    && r.formulae.installed@[k]@ == (InstalledFormulaView {
                    upstream: r.formulae.all@[k]@,
                    receipt: receipts@[k],
                }),
            forall|k: Seq<char>| #[trigger]
                r.casks.installed@.contains_key(k) ==> r.casks.installed@[k].wf()
                    && r.casks.installed@[k]@ == (InstalledCaskView {
                    upstream: r.casks.all@[k],
                    versions: versions@[k]@,
                }),
    {
        let all = self.build_all(base, popularity, executables);
        let installed = self.installed(&all, receipts, versions);
        State {
            formulae: Tiers { all: all.formulae, installed: installed.formulae },
            casks: Tiers { all: all.casks, installed: installed.casks },
        }
    }
}

/// Where the installed keys are the scanned keys that the catalog knows,
/// every installed key is a key of the catalog, a scanned key that the
/// catalog lacks is not installed, and one that it has is.
pub proof fn lemma_installed_within_all<A, I>(tiers: Tiers<A, I>, scan: Set<Seq<char>>)
    requires
        tiers.installed@.dom() == scan.intersect(tiers.all@.dom()),
    ensures
        tiers.installed@.dom().subset_of(tiers.all@.dom()),
        forall|k: Seq<char>|
            scan.contains(k) && !tiers.all@.contains_key(k) ==> !tiers.installed@.contains_key(k),
        forall|k: Seq<char>|
            scan.contains(k) && tiers.all@.contains_key(k) ==> tiers.installed@.contains_key(k),
{
}

/// A formula that the popularity source lists only under its tap-qualified
/// name gets that record.
pub proof fn lemma_popularity_fallback(
    key: Seq<char>,
    base: FormulaBase,
    popularity: Map<Seq<char>, Popularity>,
    executables: Map<Seq<char>, NameSet>,
)
    requires
        !popularity.contains_key(key),
        popularity.contains_key(base.spec_qualified_name()),
    ensures
        spec_enriched(key, base, popularity, executables).analytics == Some(
            popularity[base.spec_qualified_name()],
        ),
{
}

} // verus!
