//! The commands of the terminal program, and what each decides before
//! anything is shown.

use vstd::prelude::*;
use vstd::string::StrSliceExecFns;
use nucleo_matcher::pattern::{Atom, AtomKind, CaseMatching, Normalization};
use crate::aggregate::{formulae_wf, lemma_take_step};
use crate::brew::strings;
use crate::models::{Cask, Formula, InstalledCask, InstalledFormula};
use crate::names::NameSet;
use crate::store::Store;

verus! {

pub struct Cli {
    pub command: Commands,
}

pub enum Commands {
    /// Locate the formulae which provide the given executable.
    Which(Which),
    /// Update the local cache.
    Update(Update),
    /// List installed formulae and casks.
    List(List),
    /// Show information about a formula or cask.
    Info(Info),
    /// Search for formulae and casks.
    Search(Search),
}

pub struct Which {
    pub name: Option<String>,
}

pub struct Update {}

pub struct List {}

pub struct Info {
    pub name: String,
    /// Treat the given name as a cask.
    pub cask: bool,
}

pub struct Search {
    pub name: Option<String>,
}

/// What `Info` found under its name.
#[derive(Clone, Copy, PartialEq, Eq, Structural, Debug)]
pub enum InfoTarget {
    Formula,
    Cask,
    Missing,
}

/// Why a search could not be made.
#[derive(Clone, Copy, PartialEq, Eq, Structural, Debug)]
pub enum SearchError {
    /// A name is longer than the matcher takes.
    NameTooLong,
}

/// One result of a search.
#[derive(Debug)]
pub enum Hit {
    Formula(String),
    Cask(String),
}

pub ghost enum HitView {
    Formula(Seq<char>),
    Cask(Seq<char>),
}

impl Hit {
    pub open spec fn view(&self) -> HitView {
        match self {
            Hit::Formula(n) => HitView::Formula(n@),
            Hit::Cask(n) => HitView::Cask(n@),
        }
    }
}

/// The views of the hits.
pub open spec fn hit_views(hits: Seq<Hit>) -> Seq<HitView> {
    hits.map_values(|h: Hit| h@)
}

/// The names that match the needle, the best match first: what
/// `Atom::match_list` of nucleo_matcher returns for a substring atom that
/// ignores case and normalizes, without the scores.
pub uninterp spec fn spec_ranked(needle: Seq<char>, names: Seq<Seq<char>>) -> Seq<Seq<char>>;

/// The keys, in their order, whose formula provides the executable.
pub open spec fn spec_providers(
    keys: Seq<Seq<char>>,
    all: Map<Seq<char>, Formula>,
    executable: Seq<char>,
) -> Seq<Seq<char>>
    decreases keys.len(),
{
    if keys.len() == 0 {
        Seq::empty()
    } else if all[keys.last()].executables@.contains(executable) {
        spec_providers(keys.drop_last(), all, executable).push(keys.last())
    } else {
        spec_providers(keys.drop_last(), all, executable)
    }
}

/// The names of the formulae that were installed on request, in the order
/// of the records.
pub open spec fn spec_requested(records: Seq<InstalledFormula>) -> Seq<Seq<char>>
    decreases records.len(),
{
    if records.len() == 0 {
        Seq::empty()
    } else if records.last().receipt.installed_on_request {
        spec_requested(records.drop_last()).push(records.last().upstream.base.name@)
    } else {
        spec_requested(records.drop_last())
    }
}

/// What `Info` shows: with the cask flag the cask of that name; without it
/// the formula of that name, or else the cask.
pub open spec fn spec_info_target(
    name: Seq<char>,
    cask: bool,
    formulae: Set<Seq<char>>,
    casks: Set<Seq<char>>,
) -> InfoTarget {
    if cask {
        if casks.contains(name) {
            InfoTarget::Cask
        } else {
            InfoTarget::Missing
        }
    } else if formulae.contains(name) {
        InfoTarget::Formula
    } else if casks.contains(name) {
        InfoTarget::Cask
    } else {
        InfoTarget::Missing
    }
}

/// Every name is short enough for the matcher.
pub open spec fn names_fit(names: Seq<String>) -> bool {
    forall|i: int| 0 <= i < names.len() ==> (#[trigger] names[i])@.len() <= u32::MAX
}

/// The hits of a search: the formulae first, then the casks, each group in
/// the order given.
pub open spec fn spec_hits(formulae: Seq<Seq<char>>, casks: Seq<Seq<char>>) -> Seq<HitView> {
    formulae.map_values(|n: Seq<char>| HitView::Formula(n)) + casks.map_values(
        |n: Seq<char>| HitView::Cask(n),
    )
}

/// Calls `Atom::match_list` of nucleo_matcher with a substring atom made of
/// `needle`, which ignores case and normalizes. The result holds the names
/// that match, ordered by score, and depends on `needle` and `names` alone.
/// The matcher refuses a text of more than `u32::MAX` characters.
#[verifier::external_body]
fn rank(needle: &str, names: Vec<String>) -> (r: Vec<String>)
    requires
        names_fit(names@),
    ensures
        strings(r@) == spec_ranked(needle@, strings(names@)),
{
    let mut matcher = nucleo_matcher::Matcher::new(nucleo_matcher::Config::DEFAULT);
    let atom = Atom::new(
        needle,
        CaseMatching::Ignore,
        Normalization::Smart,
        AtomKind::Substring,
        false,
    );
    atom.match_list(names, &mut matcher).into_iter().map(|(name, _)| name).collect()
}

impl Which {
    /// The formulae that provide the executable asked for, by their keys
    /// and in the store's order; nothing where no executable was named and
    /// the user is to pick one.
    pub fn run(&self, all: &Store<Formula>) -> (r: Option<Vec<String>>)
        requires
            all.wf(),
            formulae_wf(*all),
        ensures
            match (self.name, r) {
                (Some(name), Some(found)) => strings(found@) == spec_providers(
                    all.key_seq(),
                    all@,
                    name@,
                ),
                (None, None) => true,
                _ => false,
            },
    {
        match &self.name {
            None => None,
            Some(name) => {
                let mut found: Vec<String> = Vec::new();
                let n = all.len();
                let ghost keys = all.key_seq();
                let mut i: usize = 0;
                assert(strings(found@) =~= spec_providers(keys.take(0), all@, name@));
                while i < n
                    invariant
                        i <= n,
                        n == keys.len(),
                        keys == all.key_seq(),
                        all.wf(),
                        formulae_wf(*all),
                        strings(found@) == spec_providers(keys.take(i as int), all@, name@),
                    decreases n - i,
                {
                    let ghost before = found@;
                    proof {
                        lemma_take_step(keys, i as int);
                        all.lemma_entries();
                    }
                    if all.value_at(i).executables.contains(name.as_str()) {
                        found.push(all.key_at(i).clone());
                        assert(strings(found@) =~= strings(before).push(keys[i as int]));
                    }
                    i += 1;
                }
                assert(keys.take(i as int) =~= keys);
                Some(found)
            },
        }
    }
}

impl List {
    /// What is listed: the names of the formulae that were installed on
    /// request, then the tokens of all installed casks, both in the stores'
    /// order.
    pub fn run(&self, formulae: &Store<InstalledFormula>, casks: &Store<InstalledCask>) -> (r: (
        Vec<String>,
        Vec<String>,
    ))
        requires
            formulae.wf(),
            casks.wf(),
        ensures
            strings(r.0@) == spec_requested(formulae.value_seq()),
            strings(r.1@) == casks.value_seq().map_values(
                |c: InstalledCask| c.upstream.base.token@,
            ),
    {
        let mut names: Vec<String> = Vec::new();
        let n = formulae.len();
        let ghost records = formulae.value_seq();
        proof {
            formulae.lemma_entries();
            casks.lemma_entries();
        }
        let mut i: usize = 0;
        assert(strings(names@) =~= spec_requested(records.take(0)));
        while i < n
            invariant
                i <= n,
                n == records.len(),
                n == formulae.key_seq().len(),
                records == formulae.value_seq(),
                formulae.wf(),
                strings(names@) == spec_requested(records.take(i as int)),
            decreases n - i,
        {
            let ghost before = names@;
            proof {
                lemma_take_step(records, i as int);
            }
            let record = formulae.value_at(i);
            if record.receipt.installed_on_request {
                names.push(record.upstream.base.name.clone());
                assert(strings(names@) =~= strings(before).push(
                    records[i as int].upstream.base.name@,
                ));
            }
            i += 1;
        }
        assert(records.take(i as int) =~= records);
        let mut tokens: Vec<String> = Vec::new();
        let m = casks.len();
        let ghost installed = casks.value_seq();
        let mut j: usize = 0;
        while j < m
            invariant
                j <= m,
                m == installed.len(),
                m == casks.key_seq().len(),
                installed == casks.value_seq(),
                casks.wf(),
                strings(tokens@) == installed.take(j as int).map_values(
                    |c: InstalledCask| c.upstream.base.token@,
                ),
            decreases m - j,
        {
            let ghost before = tokens@;
            tokens.push(casks.value_at(j).upstream.base.token.clone());
            proof {
                lemma_take_step(installed, j as int);
                assert(strings(tokens@) =~= strings(before).push(
                    installed[j as int].upstream.base.token@,
                ));
                assert(strings(tokens@) =~= installed.take(j as int + 1).map_values(
                    |c: InstalledCask| c.upstream.base.token@,
                ));
            }
            j += 1;
        }
        assert(installed.take(j as int) =~= installed);
        (names, tokens)
    }
}

impl Info {
    /// Which entry is shown for the name.
    pub fn run(&self, formulae: &Store<Formula>, casks: &Store<Cask>) -> (r: InfoTarget)
        requires
            formulae.wf(),
            casks.wf(),
        ensures
            r == spec_info_target(self.name@, self.cask, formulae@.dom(), casks@.dom()),
    {
        if self.cask {
            if casks.contains_key(self.name.as_str()) {
                InfoTarget::Cask
            } else {
                InfoTarget::Missing
            }
        } else if formulae.contains_key(self.name.as_str()) {
            InfoTarget::Formula
        } else if casks.contains_key(self.name.as_str()) {
            InfoTarget::Cask
        } else {
            InfoTarget::Missing
        }
    }
}

impl Search {
    /// Puts the matching formulae before the matching casks.
    pub fn combine(formulae: &Vec<String>, casks: &Vec<String>) -> (r: Vec<Hit>)
        ensures
            hit_views(r@) == spec_hits(strings(formulae@), strings(casks@)),
    {
        let mut hits: Vec<Hit> = Vec::new();
        let ghost fs = strings(formulae@);
        let ghost cs = strings(casks@);
        let mut i: usize = 0;
        assert(hit_views(hits@) =~= spec_hits(fs.take(0), Seq::empty()));
        while i < formulae.len()
            invariant
                i <= formulae@.len(),
                fs == strings(formulae@),
                hit_views(hits@) == spec_hits(fs.take(i as int), Seq::empty()),
            decreases formulae@.len() - i,
        {
            let ghost before = hits@;
            hits.push(Hit::Formula(formulae[i].clone()));
            proof {
                lemma_take_step(fs, i as int);
                assert(hit_views(hits@) =~= hit_views(before).push(HitView::Formula(fs[i as int])));
                assert(fs.take(i as int + 1).map_values(|n: Seq<char>| HitView::Formula(n))
                    =~= fs.take(i as int).map_values(|n: Seq<char>| HitView::Formula(n)).push(
                    HitView::Formula(fs[i as int]),
                ));
                assert(hit_views(hits@) =~= spec_hits(fs.take(i as int + 1), Seq::empty()));
            }
            i += 1;
        }
        assert(fs.take(i as int) =~= fs);
        let mut j: usize = 0;
        assert(hit_views(hits@) =~= spec_hits(fs, cs.take(0)));
        while j < casks.len()
            invariant
                j <= casks@.len(),
                fs == strings(formulae@),
                cs == strings(casks@),
                hit_views(hits@) == spec_hits(fs, cs.take(j as int)),
            decreases casks@.len() - j,
        {
            let ghost before = hits@;
            hits.push(Hit::Cask(casks[j].clone()));
            proof {
                lemma_take_step(cs, j as int);
                assert(hit_views(hits@) =~= hit_views(before).push(HitView::Cask(cs[j as int])));
                assert(cs.take(j as int + 1).map_values(|n: Seq<char>| HitView::Cask(n))
                    =~= cs.take(j as int).map_values(|n: Seq<char>| HitView::Cask(n)).push(
                    HitView::Cask(cs[j as int]),
                ));
                assert(hit_views(hits@) =~= spec_hits(fs, cs.take(j as int + 1)));
            }
            j += 1;
        }
        assert(cs.take(j as int) =~= cs);
        hits
    }

    /// The hits for the name asked for: the formulae that match it, best
    /// first, then the casks that match it, best first; nothing where no
    /// name was given and the user is to pick.
    pub fn run(&self, formulae: Vec<String>, casks: Vec<String>) -> (r: Option<Vec<Hit>>)
        requires
            names_fit(formulae@),
            names_fit(casks@),
        ensures
            match (self.name, r) {
                (Some(name), Some(hits)) => hit_views(hits@) == spec_hits(
                    spec_ranked(name@, strings(formulae@)),
                    spec_ranked(name@, strings(casks@)),
                ),
                (None, None) => true,
                _ => false,
            },
    {
        match &self.name {
            None => None,
            Some(name) => {
                let fs = rank(name.as_str(), formulae);
                let cs = rank(name.as_str(), casks);
                Some(Self::combine(&fs, &cs))
            },
        }
    }

    /// Whether every name is short enough for the matcher.
    pub fn fits(names: &Vec<String>) -> (r: bool)
        ensures
            r == names_fit(names@),
    {
        let mut i: usize = 0;
        while i < names.len()
            invariant
                i <= names@.len(),
                forall|j: int| 0 <= j < i ==> (#[trigger] names@[j])@.len() <= u32::MAX,
            decreases names@.len() - i,
        {
            if names[i].as_str().unicode_len() > 0xffff_ffff {
                return false;
            }
            i += 1;
        }
        true
    }

    /// As `run`, for names of any length: where one is too long for the
    /// matcher, no search is made.
    pub fn checked_run(&self, formulae: Vec<String>, casks: Vec<String>) -> (r: Result<
        Option<Vec<Hit>>,
        SearchError,
    >)
        ensures
            r is Ok <==> names_fit(formulae@) && names_fit(casks@),
            match (self.name, r) {
                (Some(name), Ok(Some(hits))) => hit_views(hits@) == spec_hits(
                    spec_ranked(name@, strings(formulae@)),
                    spec_ranked(name@, strings(casks@)),
                ),
                (None, Ok(None)) => true,
                (_, Err(e)) => e == SearchError::NameTooLong,
                _ => false,
            },
    {
        if Self::fits(&formulae) && Self::fits(&casks) {
            Ok(self.run(formulae, casks))
        } else {
            Err(SearchError::NameTooLong)
        }
    }
}

/// How many executables of a formula are shown by name.
pub const SHOWN_EXECUTABLES: usize = 5;

/// What is shown of a set of executables: its first names, five at most,
/// and the number of those that are left out.
pub fn provides(executables: &NameSet) -> (r: (Vec<String>, usize))
    requires
        executables.wf(),
    ensures
        strings(r.0@) == executables.name_seq().take(
            if executables.name_seq().len() > SHOWN_EXECUTABLES {
                SHOWN_EXECUTABLES as int
            } else {
                executables.name_seq().len() as int
            },
        ),
        r.1 == executables.name_seq().len() - r.0@.len(),
{
    let n = executables.len();
    let shown = if n > SHOWN_EXECUTABLES {
        SHOWN_EXECUTABLES
    } else {
        n
    };
    let mut names: Vec<String> = Vec::new();
    let ghost all = executables.name_seq();
    let mut i: usize = 0;
    assert(strings(names@) =~= all.take(0));
    while i < shown
        invariant
            i <= shown <= n,
            n == all.len(),
            all == executables.name_seq(),
            executables.wf(),
            names@.len() == i,
            strings(names@) == all.take(i as int),
        decreases shown - i,
    {
        let ghost before = names@;
        names.push(executables.get(i).clone());
        proof {
            lemma_take_step(all, i as int);
            assert(strings(names@) =~= strings(before).push(all[i as int]));
        }
        i += 1;
    }
    (names, n - shown)
}

/// Some formula of the catalog provides the executable.
pub open spec fn is_provided(all: Map<Seq<char>, Formula>, executable: Seq<char>) -> bool {
    exists|k: Seq<char>| all.contains_key(k) && (#[trigger] all[k]).executables@.contains(executable)
}

/// One of the first `upto` records provides the executable.
pub open spec fn provided_among(records: Seq<Formula>, upto: int, executable: Seq<char>) -> bool {
    exists|a: int| 0 <= a < upto && (#[trigger] records[a]).executables@.contains(executable)
}

/// The executables that the formulae of the catalog provide, each once.
pub fn all_executables(all: &Store<Formula>) -> (r: NameSet)
    requires
        all.wf(),
        formulae_wf(*all),
    ensures
        r.wf(),
        forall|e: Seq<char>| #[trigger] r@.contains(e) <==> is_provided(all@, e),
{
    let mut out = NameSet::new();
    let n = all.len();
    let ghost records = all.value_seq();
    let ghost keys = all.key_seq();
    proof {
        all.lemma_entries();
    }
    let mut i: usize = 0;
    while i < n
        invariant
            i <= n,
            n == records.len(),
            n == keys.len(),
            records == all.value_seq(),
            keys == all.key_seq(),
            all.wf(),
            formulae_wf(*all),
            out.wf(),
            forall|a: int| 0 <= a < n ==> all@.contains_key(#[trigger] keys[a]) && all@[keys[a]] == records[a],
            forall|e: Seq<char>| #[trigger] out@.contains(e) <==> provided_among(records, i as int, e),
        decreases n - i,
    {
        let formula = all.value_at(i);
        assert(all@.contains_key(keys[i as int]) && all@[keys[i as int]] == records[i as int]);
        let set = &formula.executables;
        let m = set.len();
        let ghost names = set.name_seq();
        let mut j: usize = 0;
        while j < m
            invariant
                j <= m,
                i < n,
                m == names.len(),
                names == set.name_seq(),
                set.wf(),
                out.wf(),
                forall|e: Seq<char>| #[trigger]
                    out@.contains(e) <==> (provided_among(records, i as int, e) || names.take(
                        j as int,
                    ).contains(e)),
            decreases m - j,
        {
            proof {
                lemma_take_step(names, j as int);
            }
            out.insert(set.get(j).clone());
            j += 1;
        }
        proof {
            assert(names.take(m as int) =~= names);
            set.lemma_names();
            assert(set@ == records[i as int].executables@);
            assert forall|e: Seq<char>| #[trigger] out@.contains(e) <==> provided_among(
                records,
                i as int + 1,
                e,
            ) by {
                if provided_among(records, i as int, e) {
                    let a = choose|a: int|
                        0 <= a < i as int && (#[trigger] records[a]).executables@.contains(e);
                    assert(0 <= a < i as int + 1 && records[a].executables@.contains(e));
                }
                if names.contains(e) {
                    assert(records[i as int].executables@.contains(e));
                }
                if provided_among(records, i as int + 1, e) {
                    let a = choose|a: int|
                        0 <= a < i as int + 1 && (#[trigger] records[a]).executables@.contains(e);
                    if a < i as int {
                        assert(provided_among(records, i as int, e));
                    } else {
                        assert(set@.contains(e));
                    }
                }
            }
        }
        i += 1;
    }
    proof {
        assert forall|e: Seq<char>| #[trigger] out@.contains(e) <==> is_provided(all@, e) by {
            if provided_among(records, n as int, e) {
                let a = choose|a: int|
                    0 <= a < n as int && (#[trigger] records[a]).executables@.contains(e);
                assert(all@.contains_key(keys[a]) && all@[keys[a]] == records[a]);
            }
            if is_provided(all@, e) {
                let k = choose|k: Seq<char>|
                    all@.contains_key(k) && (#[trigger] all@[k]).executables@.contains(e);
                let a = keys.index_of(k);
                assert(keys.contains(k));
                assert(keys[a] == k);
                assert(all@[keys[a]] == records[a]);
                assert(records[a].executables@.contains(e));
            }
        }
    }
    out
}

impl Which {
    /// What the user picks from where no executable was named: every
    /// executable that some formula provides, each once, with the keys of
    /// the formulae that provide it, in the store's order.
    pub fn index(all: &Store<Formula>) -> (r: Vec<(String, Vec<String>)>)
        requires
            all.wf(),
            formulae_wf(*all),
        ensures
            forall|i: int|
                0 <= i < r@.len() ==> is_provided(all@, (#[trigger] r@[i]).0@) && strings(r@[i].1@)
                    == spec_providers(all.key_seq(), all@, r@[i].0@),
            forall|i: int, j: int| 0 <= i < j < r@.len() ==> r@[i].0@ != r@[j].0@,
            forall|e: Seq<char>|
                is_provided(all@, e) ==> exists|i: int|
                    0 <= i < r@.len() && (#[trigger] r@[i]).0@ == e,
    {
        let executables = all_executables(all);
        let n = executables.len();
        let ghost names = executables.name_seq();
        proof {
            executables.lemma_names();
        }
        let mut out: Vec<(String, Vec<String>)> = Vec::new();
        let mut i: usize = 0;
        while i < n
            invariant
                i <= n,
                n == names.len(),
                names == executables.name_seq(),
                names.no_duplicates(),
                executables.wf(),
                all.wf(),
                formulae_wf(*all),
                forall|e: Seq<char>| #[trigger] executables@.contains(e) <==> is_provided(all@, e),
                out@.len() == i,
                forall|a: int| 0 <= a < i ==> (#[trigger] out@[a]).0@ == names[a],
                forall|a: int|
                    0 <= a < i ==> strings((#[trigger] out@[a]).1@) == spec_providers(
                        all.key_seq(),
                        all@,
                        names[a],
                    ),
            decreases n - i,
        {
            let name = executables.get(i).clone();
            let which = Which { name: Some(name) };
            let found = match which.run(all) {
                Some(found) => found,
                None => Vec::new(),
            };
            match which.name {
                Some(name) => out.push((name, found)),
                None => {},
            }
            i += 1;
        }
        proof {
            assert forall|e: Seq<char>| is_provided(all@, e) implies exists|i: int|
                0 <= i < out@.len() && (#[trigger] out@[i]).0@ == e by {
                assert(executables@.contains(e));
                assert(names.contains(e));
                let a = names.index_of(e);
                assert(out@[a].0@ == e);
            }
            assert forall|a: int| 0 <= a < out@.len() implies is_provided(
                all@,
                (#[trigger] out@[a]).0@,
            ) by {
                assert(names.contains(names[a]));
                assert(executables@.contains(names[a]));
            }
        }
        out
    }
}

} // verus!
