//! The typed model of formulae, casks and what is installed of them.

use vstd::prelude::*;
use crate::names::NameSet;
use crate::store::Store;

verus! {

/// The version information of a formula.
pub struct FormulaVersions {
    pub stable: String,
}

/// What the bulk catalog says of a formula.
pub struct FormulaBase {
    pub name: String,
    pub desc: String,
    pub homepage: String,
    pub tap: String,
    pub versions: FormulaVersions,
}

/// One record of the popularity source: how often a formula was installed.
pub struct Popularity {
    pub formula: String,
    pub number: u64,
    pub count: String,
    pub percent: String,
}

/// A formula of the catalog together with what the other sources know of it.
pub struct Formula {
    pub base: FormulaBase,
    pub executables: NameSet,
    pub analytics: Option<Popularity>,
}

/// A formula with its set of executables taken as a mathematical set.
pub ghost struct FormulaView {
    pub base: FormulaBase,
    pub executables: Set<Seq<char>>,
    pub analytics: Option<Popularity>,
}

/// The local record of how a formula was installed.
pub struct Receipt {
    pub installed_on_request: bool,
    pub version: String,
}

/// A formula that was found installed: its catalog entry and its receipt.
pub struct InstalledFormula {
    pub upstream: Formula,
    pub receipt: Receipt,
}

pub ghost struct InstalledFormulaView {
    pub upstream: FormulaView,
    pub receipt: Receipt,
}

/// What the bulk catalog says of a cask.
pub struct CaskBase {
    pub token: String,
    pub desc: Option<String>,
    pub homepage: String,
    pub tap: String,
    pub version: String,
}

/// A cask of the catalog. No other source adds to it.
pub struct Cask {
    pub base: CaskBase,
}

/// A cask that was found installed: its catalog entry and the versions on disk.
pub struct InstalledCask {
    pub upstream: Cask,
    pub versions: NameSet,
}

pub ghost struct InstalledCaskView {
    pub upstream: Cask,
    pub versions: Set<Seq<char>>,
}

/// A target of an install or uninstall request.
pub enum Keg {
    Formula(Formula),
    Cask(Cask),
}

/// One value for the formulae and one for the casks.
pub struct State<F, C> {
    pub formulae: F,
    pub casks: C,
}

/// Everything known of one kind, and the part of it that is installed.
pub struct Tiers<A, I> {
    pub all: Store<A>,
    pub installed: Store<I>,
}

impl FormulaVersions {
    pub fn duplicate(&self) -> (r: Self)
        ensures
            r == *self,
    {
        FormulaVersions { stable: self.stable.clone() }
    }
}

impl FormulaBase {
    pub fn duplicate(&self) -> (r: Self)
        ensures
            r == *self,
    {
        FormulaBase {
            name: self.name.clone(),
            desc: self.desc.clone(),
            homepage: self.homepage.clone(),
            tap: self.tap.clone(),
            versions: self.versions.duplicate(),
        }
    }

    /// The key under which the popularity source may list this formula when
    /// it does not list it by its bare name: the tap, a slash, the name.
    pub open spec fn spec_qualified_name(&self) -> Seq<char> {
        self.tap@ + seq!['/'] + self.name@
    }
}

impl Popularity {
    pub fn duplicate(&self) -> (r: Self)
        ensures
            r == *self,
    {
        Popularity {
            formula: self.formula.clone(),
            number: self.number,
            count: self.count.clone(),
            percent: self.percent.clone(),
        }
    }
}

impl Formula {
    pub open spec fn view(&self) -> FormulaView {
        FormulaView {
            base: self.base,
            executables: self.executables@,
            analytics: self.analytics,
        }
    }

    pub open spec fn wf(&self) -> bool {
        self.executables.wf()
    }

    pub fn duplicate(&self) -> (r: Self)
        requires
            self.wf(),
        ensures
            r.wf(),
            r@ == self@,
    {
        let analytics = match &self.analytics {
            Some(a) => Some(a.duplicate()),
            None => None,
        };
        Formula {
            base: self.base.duplicate(),
            executables: self.executables.duplicate(),
            analytics,
        }
    }
}

impl Receipt {
    pub fn duplicate(&self) -> (r: Self)
        ensures
            r == *self,
    {
        Receipt {
            installed_on_request: self.installed_on_request,
            version: self.version.clone(),
        }
    }
}

impl InstalledFormula {
    pub open spec fn view(&self) -> InstalledFormulaView {
        InstalledFormulaView { upstream: self.upstream@, receipt: self.receipt }
    }

    pub open spec fn wf(&self) -> bool {
        self.upstream.wf()
    }
}

impl CaskBase {
    pub fn duplicate(&self) -> (r: Self)
        ensures
            r == *self,
    {
        let desc = match &self.desc {
            Some(d) => Some(d.clone()),
            None => None,
        };
        CaskBase {
            token: self.token.clone(),
            desc,
            homepage: self.homepage.clone(),
            tap: self.tap.clone(),
            version: self.version.clone(),
        }
    }
}

impl Cask {
    pub fn duplicate(&self) -> (r: Self)
        ensures
            r == *self,
    {
        Cask { base: self.base.duplicate() }
    }
}

impl InstalledCask {
    pub open spec fn view(&self) -> InstalledCaskView {
        InstalledCaskView { upstream: self.upstream, versions: self.versions@ }
    }

    pub open spec fn wf(&self) -> bool {
        self.versions.wf()
    }
}

impl Keg {
    /// The identifier by which the package manager knows the target.
    pub open spec fn spec_identifier(&self) -> Seq<char> {
        match self {
            Keg::Formula(f) => f.base.name@,
            Keg::Cask(c) => c.base.token@,
        }
    }

    pub fn identifier(&self) -> (r: &String)
        ensures
            r@ == self.spec_identifier(),
    {
        match self {
            Keg::Formula(f) => &f.base.name,
            Keg::Cask(c) => &c.base.token,
        }
    }
}

} // verus!
