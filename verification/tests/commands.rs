use brewer::brew::Brew;
use brewer::cli::{provides, Cli, Commands, Hit, Info, InfoTarget, List, Search, Update, Which};
use brewer::models::{CaskBase, FormulaBase, FormulaVersions, Receipt};
use brewer::names::NameSet;
use brewer::store::Store;

fn brew() -> Brew {
    Brew { path: "brew".to_string(), prefix: "/opt/homebrew".to_string() }
}

fn strs(list: &[&str]) -> Vec<String> {
    list.iter().map(|s| s.to_string()).collect()
}

fn formula(name: &str) -> FormulaBase {
    FormulaBase {
        name: name.to_string(),
        desc: String::new(),
        homepage: String::new(),
        tap: "homebrew/core".to_string(),
        versions: FormulaVersions { stable: "1".to_string() },
    }
}

fn cask(token: &str) -> CaskBase {
    CaskBase {
        token: token.to_string(),
        desc: Some("a cask".to_string()),
        homepage: String::new(),
        tap: "homebrew/cask".to_string(),
        version: "1".to_string(),
    }
}

fn pairs(hits: Vec<Hit>) -> Vec<(char, String)> {
    hits.into_iter()
        .map(|h| match h {
            Hit::Formula(n) => ('f', n),
            Hit::Cask(n) => ('c', n),
        })
        .collect()
}

#[test]
fn which_names_the_providers() {
    let b = brew();
    let base = b.eval_all(&vec![formula("git"), formula("wget"), formula("git-lfs")], &vec![]);
    let exes = b.executables("git(2): git git-shell\nwget(1): wget\ngit-lfs(3): git-lfs git\n");
    let all = b.build_all(&base, &Store::new(), &exes);
    let which = Which { name: Some("git".to_string()) };
    assert_eq!(which.run(&all.formulae), Some(strs(&["git", "git-lfs"])));
    let which = Which { name: Some("nothing".to_string()) };
    assert_eq!(which.run(&all.formulae), Some(Vec::new()));
    let which = Which { name: None };
    assert_eq!(which.run(&all.formulae), None);
}

#[test]
fn info_prefers_the_formula_unless_told_otherwise() {
    let b = brew();
    let base = b.eval_all(&vec![formula("git"), formula("both")], &vec![cask("firefox"), cask("both")]);
    let all = b.build_all(&base, &Store::new(), &Store::new());
    let run = |name: &str, cask: bool| {
        Info { name: name.to_string(), cask }.run(&all.formulae, &all.casks)
    };
    assert_eq!(run("git", false), InfoTarget::Formula);
    assert_eq!(run("git", true), InfoTarget::Missing);
    assert_eq!(run("firefox", false), InfoTarget::Cask);
    assert_eq!(run("firefox", true), InfoTarget::Cask);
    assert_eq!(run("both", false), InfoTarget::Formula);
    assert_eq!(run("both", true), InfoTarget::Cask);
    assert_eq!(run("none", false), InfoTarget::Missing);
}

#[test]
fn list_names_formulae_installed_on_request_and_all_casks() {
    let b = brew();
    let base = b.eval_all(&vec![formula("git"), formula("wget"), formula("zlib")], &vec![cask("firefox")]);
    let receipts = b.eval_installed_formulae_receipts(&vec![
        ("zlib".to_string(), Receipt { installed_on_request: false, version: "1".to_string() }),
        ("wget".to_string(), Receipt { installed_on_request: true, version: "1".to_string() }),
        ("git".to_string(), Receipt { installed_on_request: true, version: "1".to_string() }),
    ]);
    let versions = b.eval_installed_casks_versions(&vec![("firefox".to_string(), strs(&["1"]))]);
    let state = b.state(&base, &Store::new(), &Store::<NameSet>::new(), &receipts, &versions);
    let (formulae, casks) = List {}.run(&state.formulae.installed, &state.casks.installed);
    assert_eq!(formulae, strs(&["wget", "git"]));
    assert_eq!(casks, strs(&["firefox"]));
}

#[test]
fn search_puts_matching_formulae_before_matching_casks() {
    let search = Search { name: Some("fire".to_string()) };
    let hits = search
        .run(strs(&["wget", "firewall", "git"]), strs(&["Firefox", "iterm2"]))
        .unwrap();
    assert_eq!(pairs(hits), vec![('f', "firewall".to_string()), ('c', "Firefox".to_string())]);
}

#[test]
fn search_without_a_match_is_empty() {
    let search = Search { name: Some("zzz".to_string()) };
    assert!(search.run(strs(&["wget"]), strs(&["firefox"])).unwrap().is_empty());
    assert!(Search { name: None }.run(strs(&["wget"]), Vec::new()).is_none());
}

#[test]
fn combine_keeps_both_orders() {
    let hits = Search::combine(&strs(&["b", "a"]), &strs(&["y", "x"]));
    assert_eq!(
        pairs(hits),
        vec![
            ('f', "b".to_string()),
            ('f', "a".to_string()),
            ('c', "y".to_string()),
            ('c', "x".to_string()),
        ]
    );
}

#[test]
fn commands_carry_their_arguments() {
    let cli = Cli { command: Commands::Info(Info { name: "git".to_string(), cask: true }) };
    match cli.command {
        Commands::Info(info) => {
            assert_eq!(info.name, "git");
            assert!(info.cask);
        }
        _ => panic!("another command"),
    }
    let cli = Cli { command: Commands::Update(Update {}) };
    assert!(matches!(cli.command, Commands::Update(_)));
}

#[test]
fn provides_shows_five_names_at_most() {
    let mut set = NameSet::new();
    for n in ["a", "b", "c"] {
        set.insert(n.to_string());
    }
    assert_eq!(provides(&set), (strs(&["a", "b", "c"]), 0));
    for n in ["d", "e"] {
        set.insert(n.to_string());
    }
    assert_eq!(provides(&set), (strs(&["a", "b", "c", "d", "e"]), 0));
    for n in ["f", "g"] {
        set.insert(n.to_string());
    }
    assert_eq!(provides(&set), (strs(&["a", "b", "c", "d", "e"]), 2));
    assert_eq!(provides(&NameSet::new()), (Vec::new(), 0));
}

#[test]
fn index_lists_every_executable_once_with_its_providers() {
    let b = brew();
    let base = b.eval_all(&vec![formula("git"), formula("wget"), formula("git-lfs")], &vec![]);
    let exes = b.executables("git(2): git git-shell\nwget(1): wget\ngit-lfs(3): git-lfs git\n");
    let all = b.build_all(&base, &Store::new(), &exes);
    let index = Which::index(&all.formulae);
    assert_eq!(
        index,
        vec![
            ("git".to_string(), strs(&["git", "git-lfs"])),
            ("git-shell".to_string(), strs(&["git"])),
            ("wget".to_string(), strs(&["wget"])),
            ("git-lfs".to_string(), strs(&["git-lfs"])),
        ]
    );
    let nothing = b.build_all(&b.eval_all(&vec![formula("a")], &vec![]), &Store::new(), &Store::new());
    assert!(Which::index(&nothing.formulae).is_empty());
}

#[test]
fn checked_run_searches_names_that_fit() {
    let search = Search { name: Some("get".to_string()) };
    let hits = search.checked_run(strs(&["wget", "git"]), strs(&["widget"])).unwrap().unwrap();
    assert_eq!(pairs(hits), vec![('f', "wget".to_string()), ('c', "widget".to_string())]);
    assert!(Search::fits(&strs(&["a", ""])));
    assert!(Search { name: None }.checked_run(Vec::new(), Vec::new()).unwrap().is_none());
}
