use brewer::brew::{
    split_kegs, Action, Brew, Invocation, Mutation, MutationError, Outcome, Partition, Verb,
};
use brewer::models::{Cask, CaskBase, Formula, FormulaBase, FormulaVersions, Keg};
use brewer::names::NameSet;

fn brew() -> Brew {
    Brew { path: "/usr/local/bin/brew".to_string(), prefix: "/usr/local".to_string() }
}

fn formula(name: &str) -> Keg {
    Keg::Formula(Formula {
        base: FormulaBase {
            name: name.to_string(),
            desc: String::new(),
            homepage: String::new(),
            tap: "homebrew/core".to_string(),
            versions: FormulaVersions { stable: "1".to_string() },
        },
        executables: NameSet::new(),
        analytics: None,
    })
}

fn cask(token: &str) -> Keg {
    Keg::Cask(Cask {
        base: CaskBase {
            token: token.to_string(),
            desc: None,
            homepage: String::new(),
            tap: "homebrew/cask".to_string(),
            version: "1".to_string(),
        },
    })
}

/// Runs a request to its end; `answer` stands for the package manager.
fn drive(
    brew: &Brew,
    request: &Mutation,
    answer: &dyn Fn(Partition) -> Outcome,
) -> (Vec<(Partition, Vec<String>)>, Result<(), MutationError>) {
    let mut calls = Vec::new();
    let mut action = request.start(brew);
    loop {
        match action {
            Action::Finish(result) => return (calls, result),
            Action::Run(partition, Invocation { args, .. }) => {
                calls.push((partition, args));
                action = request.resume(brew, partition, answer(partition));
            }
        }
    }
}

fn strs(list: &[&str]) -> Vec<String> {
    list.iter().map(|s| s.to_string()).collect()
}

#[test]
fn split_kegs_keeps_batch_order_within_each_kind() {
    let (formulae, casks) = split_kegs(vec![formula("a"), cask("x"), formula("b"), cask("y")]);
    let f: Vec<_> = formulae.iter().map(|f| f.base.name.clone()).collect();
    let c: Vec<_> = casks.iter().map(|c| c.base.token.clone()).collect();
    assert_eq!(f, strs(&["a", "b"]));
    assert_eq!(c, strs(&["x", "y"]));
}

#[test]
fn keg_identifier_is_name_or_token() {
    assert_eq!(formula("a").identifier(), "a");
    assert_eq!(cask("x").identifier(), "x");
}

#[test]
fn formula_failure_suppresses_casks() {
    let b = brew();
    let request = b.install(vec![formula("a"), cask("x"), formula("b")]);
    let (calls, result) = drive(&b, &request, &|p| match p {
        Partition::Formulae => Outcome::Failed,
        Partition::Casks => Outcome::Succeeded,
    });
    assert_eq!(calls, vec![(Partition::Formulae, strs(&["install", "--formulae", "a", "b"]))]);
    let error = result.unwrap_err();
    assert_eq!(error, MutationError::Rejected(Verb::Install, Partition::Formulae));
    assert_eq!(error.message(), "failed to install formulae");
}

#[test]
fn empty_batch_runs_nothing_and_succeeds() {
    let b = brew();
    let (calls, result) = drive(&b, &b.install(Vec::new()), &|_| Outcome::Failed);
    assert!(calls.is_empty());
    assert_eq!(result, Ok(()));
    let (calls, result) = drive(&b, &b.uninstall(Vec::new()), &|_| Outcome::Failed);
    assert!(calls.is_empty());
    assert_eq!(result, Ok(()));
}

#[test]
fn formulae_run_before_casks() {
    let b = brew();
    let request = b.uninstall(vec![cask("x"), formula("a"), cask("y")]);
    let (calls, result) = drive(&b, &request, &|_| Outcome::Succeeded);
    assert_eq!(
        calls,
        vec![
            (Partition::Formulae, strs(&["uninstall", "--formulae", "a"])),
            (Partition::Casks, strs(&["uninstall", "--casks", "x", "y"])),
        ]
    );
    assert_eq!(result, Ok(()));
}

#[test]
fn only_casks_runs_casks_alone() {
    let b = brew();
    let request = b.install(vec![cask("x")]);
    let (calls, result) = drive(&b, &request, &|_| Outcome::Succeeded);
    assert_eq!(calls, vec![(Partition::Casks, strs(&["install", "--casks", "x"]))]);
    assert_eq!(result, Ok(()));
}

#[test]
fn cask_failure_is_reported_after_formulae_succeeded() {
    let b = brew();
    let request = b.uninstall(vec![formula("a"), cask("x")]);
    let (calls, result) = drive(&b, &request, &|p| match p {
        Partition::Formulae => Outcome::Succeeded,
        Partition::Casks => Outcome::Failed,
    });
    assert_eq!(calls.len(), 2);
    let error = result.unwrap_err();
    assert_eq!(error, MutationError::Rejected(Verb::Uninstall, Partition::Casks));
    assert_eq!(error.message(), "failed to uninstall casks");
}

#[test]
fn a_run_that_could_not_start_ends_the_request() {
    let b = brew();
    let request = b.install(vec![formula("a"), cask("x")]);
    let (calls, result) = drive(&b, &request, &|_| Outcome::NotRun);
    assert_eq!(calls.len(), 1);
    let error = result.unwrap_err();
    assert_eq!(error, MutationError::Transport(Verb::Install, Partition::Formulae));
    assert_eq!(error.message(), "failed to run the package manager");
}

#[test]
fn every_rejection_has_its_message() {
    assert_eq!(
        MutationError::Rejected(Verb::Install, Partition::Casks).message(),
        "failed to install casks"
    );
    assert_eq!(
        MutationError::Rejected(Verb::Uninstall, Partition::Formulae).message(),
        "failed to uninstall formulae"
    );
}

#[test]
fn invocation_names_program_environment_and_arguments() {
    let b = brew();
    let plain = b.brew();
    assert_eq!(plain.program, "/usr/local/bin/brew");
    assert!(plain.args.is_empty());
    assert_eq!(
        plain.env,
        vec![
            ("HOMEBREW_NO_AUTO_UPDATE".to_string(), "1".to_string()),
            ("HOMEBREW_NO_ENV_HINTS".to_string(), "1".to_string()),
        ]
    );
    let run = b.invocation(Verb::Uninstall, Partition::Casks, &strs(&["x", "y"]));
    assert_eq!(run.program, "/usr/local/bin/brew");
    assert_eq!(run.env, plain.env);
    assert_eq!(run.args, strs(&["uninstall", "--casks", "x", "y"]));
}

#[test]
fn from_env_falls_back_to_the_default_prefix() {
    let b = Brew::from_env("", "/opt/homebrew");
    assert_eq!(b.path, "brew");
    assert_eq!(b.prefix, "/opt/homebrew");
    let b = Brew::from_env("/custom", "/opt/homebrew");
    assert_eq!(b.prefix, "/custom");
}

#[test]
fn describe_all_asks_for_everything_in_machine_readable_form() {
    let run = brew().describe_all();
    assert_eq!(run.program, "/usr/local/bin/brew");
    assert_eq!(run.args, strs(&["info", "--eval-all", "--json=v2"]));
    assert_eq!(run.env.len(), 2);
}
