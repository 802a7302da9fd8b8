//! The package manager as this library sees it: where its program is, how it
//! is invoked, and how a mixed batch of targets is handed to it by kind.

use vstd::prelude::*;
use vstd::string::StringExecFns;
use crate::models::{Cask, Formula, Keg};

verus! {

/// Where the package manager's program is and under which prefix it installs.
pub struct Brew {
    pub path: String,
    pub prefix: String,
}

/// What a request asks the package manager to do with its targets.
#[derive(Clone, Copy, PartialEq, Eq, Structural, Debug)]
pub enum Verb {
    Install,
    Uninstall,
}

/// One of the two groups into which a batch of targets falls.
#[derive(Clone, Copy, PartialEq, Eq, Structural, Debug)]
pub enum Partition {
    Formulae,
    Casks,
}

/// How a run of the package manager ended.
#[derive(Clone, Copy, PartialEq, Eq, Structural, Debug)]
pub enum Outcome {
    /// It ran and reported success.
    Succeeded,
    /// It ran and reported failure.
    Failed,
    /// It could not be run at all.
    NotRun,
}

/// Why a request failed.
#[derive(Clone, Copy, PartialEq, Eq, Structural, Debug)]
pub enum MutationError {
    /// The package manager reported failure for this group.
    Rejected(Verb, Partition),
    /// The package manager could not be run for this group.
    Transport(Verb, Partition),
}

/// One run of the package manager: the program, the environment variables
/// to set, and the arguments.
pub struct Invocation {
    pub program: String,
    pub env: Vec<(String, String)>,
    pub args: Vec<String>,
}

pub ghost struct InvocationView {
    pub program: Seq<char>,
    pub env: Seq<(Seq<char>, Seq<char>)>,
    pub args: Seq<Seq<char>>,
}

/// What the caller is to do next.
pub enum Action {
    /// Run the package manager for this group, and report how it ended.
    Run(Partition, Invocation),
    /// Nothing is left to run; this is the request's result.
    Finish(Result<(), MutationError>),
}

pub ghost enum ActionView {
    Run(Partition, InvocationView),
    Finish(Result<(), MutationError>),
}

/// A request split by kind: the identifiers of its formulae and of its
/// casks, each group in the order of the batch.
pub struct Mutation {
    pub verb: Verb,
    pub formulae: Vec<String>,
    pub casks: Vec<String>,
}

/// The characters of each string.
pub open spec fn strings(v: Seq<String>) -> Seq<Seq<char>> {
    v.map_values(|s: String| s@)
}

/// The formulae of a batch, in the batch's order.
pub open spec fn spec_formulae(kegs: Seq<Keg>) -> Seq<Formula>
    decreases kegs.len(),
{
    if kegs.len() == 0 {
        Seq::empty()
    } else {
        match kegs.last() {
            Keg::Formula(f) => spec_formulae(kegs.drop_last()).push(f),
            Keg::Cask(_) => spec_formulae(kegs.drop_last()),
        }
    }
}

/// The casks of a batch, in the batch's order.
pub open spec fn spec_casks(kegs: Seq<Keg>) -> Seq<Cask>
    decreases kegs.len(),
{
    if kegs.len() == 0 {
        Seq::empty()
    } else {
        match kegs.last() {
            Keg::Formula(_) => spec_casks(kegs.drop_last()),
            Keg::Cask(c) => spec_casks(kegs.drop_last()).push(c),
        }
    }
}

/// The identifiers of the batch's formulae, in the batch's order.
pub open spec fn spec_formula_names(kegs: Seq<Keg>) -> Seq<Seq<char>> {
    spec_formulae(kegs).map_values(|f: Formula| f.base.name@)
}

/// The identifiers of the batch's casks, in the batch's order.
pub open spec fn spec_cask_names(kegs: Seq<Keg>) -> Seq<Seq<char>> {
    spec_casks(kegs).map_values(|c: Cask| c.base.token@)
}

/// The variables that keep the package manager from updating itself and
/// from printing hints.
pub open spec fn spec_env() -> Seq<(Seq<char>, Seq<char>)> {
    seq![("HOMEBREW_NO_AUTO_UPDATE"@, "1"@), ("HOMEBREW_NO_ENV_HINTS"@, "1"@)]
}

pub open spec fn spec_verb_word(verb: Verb) -> Seq<char> {
    match verb {
        Verb::Install => "install"@,
        Verb::Uninstall => "uninstall"@,
    }
}

pub open spec fn spec_partition_flag(partition: Partition) -> Seq<char> {
    match partition {
        Partition::Formulae => "--formulae"@,
        Partition::Casks => "--casks"@,
    }
}

/// The text of an error.
pub open spec fn spec_message(e: MutationError) -> Seq<char> {
    match e {
        MutationError::Rejected(Verb::Install, Partition::Formulae) => "failed to install formulae"@,
        MutationError::Rejected(Verb::Install, Partition::Casks) => "failed to install casks"@,
        MutationError::Rejected(Verb::Uninstall, Partition::Formulae) => "failed to uninstall formulae"@,
        MutationError::Rejected(Verb::Uninstall, Partition::Casks) => "failed to uninstall casks"@,
        MutationError::Transport(_, _) => "failed to run the package manager"@,
    }
}

impl MutationError {
    pub fn message(&self) -> (r: String)
        ensures
            r@ == spec_message(*self),
    {
        match self {
            MutationError::Rejected(Verb::Install, Partition::Formulae) => String::from_str(
                "failed to install formulae",
            ),
            MutationError::Rejected(Verb::Install, Partition::Casks) => String::from_str(
                "failed to install casks",
            ),
            MutationError::Rejected(Verb::Uninstall, Partition::Formulae) => String::from_str(
                "failed to uninstall formulae",
            ),
            MutationError::Rejected(Verb::Uninstall, Partition::Casks) => String::from_str(
                "failed to uninstall casks",
            ),
            MutationError::Transport(_, _) => String::from_str("failed to run the package manager"),
        }
    }
}

impl Invocation {
    pub open spec fn view(&self) -> InvocationView {
        InvocationView {
            program: self.program@,
            env: self.env@.map_values(|p: (String, String)| (p.0@, p.1@)),
            args: strings(self.args@),
        }
    }
}

impl Action {
    pub open spec fn view(&self) -> ActionView {
        match self {
            Action::Run(p, i) => ActionView::Run(*p, i@),
            Action::Finish(r) => ActionView::Finish(*r),
        }
    }
}

/// Splits a batch into its formulae and its casks, each in the batch's order.
pub fn split_kegs(kegs: Vec<Keg>) -> (r: (Vec<Formula>, Vec<Cask>))
    ensures
        r.0@ == spec_formulae(kegs@),
        r.1@ == spec_casks(kegs@),
{
    let mut formulae: Vec<Formula> = Vec::new();
    let mut casks: Vec<Cask> = Vec::new();
    let mut rest = kegs;
    let ghost all = rest@;
    // Taken from the end, then put back in order.
    let mut back_formulae: Vec<Formula> = Vec::new();
    let mut back_casks: Vec<Cask> = Vec::new();
    while rest.len() > 0
        invariant
            rest@.len() <= all.len(),
            rest@ == all.take(rest@.len() as int),
            spec_formulae(all) == spec_formulae(rest@) + back_formulae@.reverse(),
            spec_casks(all) == spec_casks(rest@) + back_casks@.reverse(),
        decreases rest@.len(),
    {
        let ghost before = rest@;
        let ghost bf = back_formulae@;
        let ghost bc = back_casks@;
        let keg = rest.pop().unwrap();
        proof {
            assert(rest@ =~= before.drop_last());
            assert(rest@ =~= all.take(rest@.len() as int));
        }
        match keg {
            Keg::Formula(f) => {
                back_formulae.push(f);
                assert(spec_formulae(before.drop_last()).push(f) + bf.reverse() =~= spec_formulae(
                    before.drop_last(),
                ) + bf.push(f).reverse());
            },
            Keg::Cask(c) => {
                back_casks.push(c);
                assert(spec_casks(before.drop_last()).push(c) + bc.reverse() =~= spec_casks(
                    before.drop_last(),
                ) + bc.push(c).reverse());
            },
        }
    }
    assert(spec_formulae(all) =~= back_formulae@.reverse());
    assert(spec_casks(all) =~= back_casks@.reverse());
    while back_formulae.len() > 0
        invariant
            formulae@ + back_formulae@.reverse() == spec_formulae(all),
        decreases back_formulae@.len(),
    {
        let ghost bf = back_formulae@;
        let ghost fs = formulae@;
        let f = back_formulae.pop().unwrap();
        formulae.push(f);
        assert(fs.push(f) + bf.drop_last().reverse() =~= fs + bf.reverse());
    }
    while back_casks.len() > 0
        invariant
            casks@ + back_casks@.reverse() == spec_casks(all),
        decreases back_casks@.len(),
    {
        let ghost bc = back_casks@;
        let ghost cs = casks@;
        let c = back_casks.pop().unwrap();
        casks.push(c);
        assert(cs.push(c) + bc.drop_last().reverse() =~= cs + bc.reverse());
    }
    assert(formulae@ =~= spec_formulae(all));
    assert(casks@ =~= spec_casks(all));
    (formulae, casks)
}

/// The run of the package manager that carries out `verb` on one group.
pub open spec fn spec_invocation(
    program: Seq<char>,
    verb: Verb,
    partition: Partition,
    names: Seq<Seq<char>>,
) -> InvocationView {
    InvocationView {
        program,
        env: spec_env(),
        args: seq![spec_verb_word(verb), spec_partition_flag(partition)] + names,
    }
}

/// The first action of a request: the formulae if there are any, else the
/// casks if there are any, else nothing.
pub open spec fn spec_start(
    program: Seq<char>,
    verb: Verb,
    formulae: Seq<Seq<char>>,
    casks: Seq<Seq<char>>,
) -> ActionView {
    if formulae.len() > 0 {
        ActionView::Run(
            Partition::Formulae,
            spec_invocation(program, verb, Partition::Formulae, formulae),
        )
    } else if casks.len() > 0 {
        ActionView::Run(Partition::Casks, spec_invocation(program, verb, Partition::Casks, casks))
    } else {
        ActionView::Finish(Ok(()))
    }
}

/// The action that follows the run for one group: after a failure the
/// request ends with that group's error; after the formulae succeeded the
/// casks are run if there are any; else the request has succeeded.
pub open spec fn spec_resume(
    program: Seq<char>,
    verb: Verb,
    casks: Seq<Seq<char>>,
    ran: Partition,
    outcome: Outcome,
) -> ActionView {
    match outcome {
        Outcome::Failed => ActionView::Finish(Err(MutationError::Rejected(verb, ran))),
        Outcome::NotRun => ActionView::Finish(Err(MutationError::Transport(verb, ran))),
        Outcome::Succeeded => if ran == Partition::Formulae && casks.len() > 0 {
            ActionView::Run(
                Partition::Casks,
                spec_invocation(program, verb, Partition::Casks, casks),
            )
        } else {
            ActionView::Finish(Ok(()))
        },
    }
}

fn formula_names(formulae: &Vec<Formula>) -> (r: Vec<String>)
    ensures
        strings(r@) == formulae@.map_values(|f: Formula| f.base.name@),
{
    let mut names: Vec<String> = Vec::new();
    let mut i: usize = 0;
    while i < formulae.len()
        invariant
            i <= formulae@.len(),
            strings(names@) == formulae@.take(i as int).map_values(|f: Formula| f.base.name@),
        decreases formulae@.len() - i,
    {
        let ghost before = names@;
        names.push(formulae[i].base.name.clone());
        proof {
            assert(strings(names@) =~= strings(before).push(formulae@[i as int].base.name@));
            assert(formulae@.take(i as int + 1) =~= formulae@.take(i as int).push(formulae@[i as int]));
            assert(strings(names@) =~= formulae@.take(i as int + 1).map_values(
                |f: Formula| f.base.name@,
            ));
        }
        i += 1;
    }
    assert(formulae@.take(i as int) =~= formulae@);
    names
}

fn cask_names(casks: &Vec<Cask>) -> (r: Vec<String>)
    ensures
        strings(r@) == casks@.map_values(|c: Cask| c.base.token@),
{
    let mut names: Vec<String> = Vec::new();
    let mut i: usize = 0;
    while i < casks.len()
        invariant
            i <= casks@.len(),
            strings(names@) == casks@.take(i as int).map_values(|c: Cask| c.base.token@),
        decreases casks@.len() - i,
    {
        let ghost before = names@;
        names.push(casks[i].base.token.clone());
        proof {
            assert(strings(names@) =~= strings(before).push(casks@[i as int].base.token@));
            assert(casks@.take(i as int + 1) =~= casks@.take(i as int).push(casks@[i as int]));
            assert(strings(names@) =~= casks@.take(i as int + 1).map_values(
                |c: Cask| c.base.token@,
            ));
        }
        i += 1;
    }
    assert(casks@.take(i as int) =~= casks@);
    names
}

impl Brew {
    /// The package manager under its usual name, with the prefix that the
    /// environment gives, or `default_prefix` where it gives none.
    pub fn from_env(prefix_env: &str, default_prefix: &str) -> (r: Brew)
        ensures
            r.path@ == "brew"@,
            r.prefix@ == if prefix_env@.len() == 0 {
                default_prefix@
            } else {
                prefix_env@
            },
    {
        let prefix = if prefix_env.is_empty() {
            String::from_str(default_prefix)
        } else {
            String::from_str(prefix_env)
        };
        Brew { path: String::from_str("brew"), prefix }
    }

    /// A run of the package manager with no arguments yet: its program, and
    /// the variables that keep it from updating itself and printing hints.
    pub fn brew(&self) -> (r: Invocation)
        ensures
            r@ == (InvocationView { program: self.path@, env: spec_env(), args: Seq::empty() }),
    {
        let mut env: Vec<(String, String)> = Vec::new();
        env.push((String::from_str("HOMEBREW_NO_AUTO_UPDATE"), String::from_str("1")));
        env.push((String::from_str("HOMEBREW_NO_ENV_HINTS"), String::from_str("1")));
        let r = Invocation { program: self.path.clone(), env, args: Vec::new() };
        proof {
            assert(r@.env =~= spec_env());
            assert(r@.args =~= Seq::<Seq<char>>::empty());
        }
        r
    }

    /// The run that asks the package manager to describe every formula and
    /// cask it knows, in its machine-readable form.
    pub fn describe_all(&self) -> (r: Invocation)
        ensures
            r@ == (InvocationView {
                program: self.path@,
                env: spec_env(),
                args: seq!["info"@, "--eval-all"@, "--json=v2"@],
            }),
    {
        let inv = self.brew();
        let mut args: Vec<String> = Vec::new();
        args.push(String::from_str("info"));
        args.push(String::from_str("--eval-all"));
        args.push(String::from_str("--json=v2"));
        assert(strings(args@) =~= seq!["info"@, "--eval-all"@, "--json=v2"@]);
        Invocation { program: inv.program, env: inv.env, args }
    }

    /// The run that carries out `verb` on the group `names`.
    pub fn invocation(&self, verb: Verb, partition: Partition, names: &Vec<String>) -> (r:
        Invocation)
        ensures
            r@ == spec_invocation(self.path@, verb, partition, strings(names@)),
    {
        let inv = self.brew();
        let word = match verb {
            Verb::Install => String::from_str("install"),
            Verb::Uninstall => String::from_str("uninstall"),
        };
        let flag = match partition {
            Partition::Formulae => String::from_str("--formulae"),
            Partition::Casks => String::from_str("--casks"),
        };
        let mut args: Vec<String> = Vec::new();
        args.push(word);
        args.push(flag);
        let ghost head = seq![spec_verb_word(verb), spec_partition_flag(partition)];
        assert(strings(args@) =~= head);
        let mut i: usize = 0;
        while i < names.len()
            invariant
                i <= names@.len(),
                strings(args@) == head + strings(names@).take(i as int),
            decreases names@.len() - i,
        {
            let ghost before = args@;
            args.push(names[i].clone());
            proof {
                assert(strings(args@) =~= strings(before).push(names@[i as int]@));
                assert(strings(names@).take(i as int + 1) =~= strings(names@).take(i as int).push(
                    names@[i as int]@,
                ));
                assert(strings(args@) =~= head + strings(names@).take(i as int + 1));
            }
            i += 1;
        }
        assert(strings(names@).take(i as int) =~= strings(names@));
        Invocation { program: inv.program, env: inv.env, args }
    }

    /// Splits a batch of targets to install by kind.
    pub fn install(&self, kegs: Vec<Keg>) -> (r: Mutation)
        ensures
            r.verb == Verb::Install,
            strings(r.formulae@) == spec_formula_names(kegs@),
            strings(r.casks@) == spec_cask_names(kegs@),
    {
        let (formulae, casks) = split_kegs(kegs);
        Mutation {
            verb: Verb::Install,
            formulae: formula_names(&formulae),
            casks: cask_names(&casks),
        }
    }

    /// Splits a batch of targets to uninstall by kind.
    pub fn uninstall(&self, kegs: Vec<Keg>) -> (r: Mutation)
        ensures
            r.verb == Verb::Uninstall,
            strings(r.formulae@) == spec_formula_names(kegs@),
            strings(r.casks@) == spec_cask_names(kegs@),
    {
        let (formulae, casks) = split_kegs(kegs);
        Mutation {
            verb: Verb::Uninstall,
            formulae: formula_names(&formulae),
            casks: cask_names(&casks),
        }
    }
}

impl Mutation {
    /// The first thing to do for this request.
    pub fn start(&self, brew: &Brew) -> (r: Action)
        ensures
            r@ == spec_start(brew.path@, self.verb, strings(self.formulae@), strings(self.casks@)),
    {
        if self.formulae.len() > 0 {
            Action::Run(
                Partition::Formulae,
                brew.invocation(self.verb, Partition::Formulae, &self.formulae),
            )
        } else if self.casks.len() > 0 {
            Action::Run(Partition::Casks, brew.invocation(self.verb, Partition::Casks, &self.casks))
        } else {
            Action::Finish(Ok(()))
        }
    }

    /// What to do after the run for the group `ran` ended with `outcome`.
    pub fn resume(&self, brew: &Brew, ran: Partition, outcome: Outcome) -> (r: Action)
        ensures
            r@ == spec_resume(brew.path@, self.verb, strings(self.casks@), ran, outcome),
    {
        match outcome {
            Outcome::Failed => Action::Finish(Err(MutationError::Rejected(self.verb, ran))),
            Outcome::NotRun => Action::Finish(Err(MutationError::Transport(self.verb, ran))),
            Outcome::Succeeded => {
                if ran == Partition::Formulae && self.casks.len() > 0 {
                    Action::Run(
                        Partition::Casks,
                        brew.invocation(self.verb, Partition::Casks, &self.casks),
                    )
                } else {
                    Action::Finish(Ok(()))
                }
            },
        }
    }
}

/// A failure of the formulae ends the request with the formulae's error:
/// the casks are not run, whatever the request holds.
pub proof fn lemma_formula_failure_stops(program: Seq<char>, verb: Verb, casks: Seq<Seq<char>>)
    ensures
        spec_resume(program, verb, casks, Partition::Formulae, Outcome::Failed)
            == ActionView::Finish(Err(MutationError::Rejected(verb, Partition::Formulae))),
        spec_resume(program, verb, casks, Partition::Formulae, Outcome::NotRun)
            == ActionView::Finish(Err(MutationError::Transport(verb, Partition::Formulae))),
{
}

/// Formulae come first: a request is started with its casks only where it
/// holds no formula, and an empty request is finished at once, with
/// success.
pub proof fn lemma_formulae_first(
    program: Seq<char>,
    verb: Verb,
    formulae: Seq<Seq<char>>,
    casks: Seq<Seq<char>>,
)
    ensures
        spec_start(program, verb, formulae, casks) matches ActionView::Run(p, _) ==> (p
            == Partition::Casks <==> formulae.len() == 0),
        formulae.len() == 0 && casks.len() == 0 ==> spec_start(program, verb, formulae, casks)
            == ActionView::Finish(Ok(())),
        forall|ran: Partition, outcome: Outcome|
            !(#[trigger] spec_resume(program, verb, casks, ran, outcome) matches ActionView::Run(
                Partition::Formulae,
                _,
            )),
{
}

} // verus!
