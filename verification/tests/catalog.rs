use brewer::brew::Brew;
use brewer::models::{
    CaskBase, FormulaBase, FormulaVersions, Popularity, Receipt, State,
};
use brewer::names::NameSet;
use brewer::store::Store;

fn brew() -> Brew {
    Brew { path: "brew".to_string(), prefix: "/opt/homebrew".to_string() }
}

fn formula(name: &str, tap: &str) -> FormulaBase {
    FormulaBase {
        name: name.to_string(),
        desc: format!("{name} description"),
        homepage: format!("https://example.org/{name}"),
        tap: tap.to_string(),
        versions: FormulaVersions { stable: "1.0".to_string() },
    }
}

fn cask(token: &str) -> CaskBase {
    CaskBase {
        token: token.to_string(),
        desc: None,
        homepage: format!("https://example.org/{token}"),
        tap: "homebrew/cask".to_string(),
        version: "2.0".to_string(),
    }
}

fn popularity(key: &str, number: u64) -> Popularity {
    Popularity {
        formula: key.to_string(),
        number,
        count: "1,234".to_string(),
        percent: "0.5".to_string(),
    }
}

fn names(list: &[&str]) -> NameSet {
    let mut set = NameSet::new();
    for n in list {
        set.insert(n.to_string());
    }
    set
}

fn keys<V>(store: &Store<V>) -> Vec<String> {
    let mut out = Vec::new();
    for i in 0..store.len() {
        out.push(store.key_at(i).clone());
    }
    out.sort();
    out
}

fn base_catalog() -> State<Store<FormulaBase>, Store<CaskBase>> {
    brew().eval_all(
        &vec![formula("foo", "bar-tap"), formula("wget", "homebrew/core"), formula("git", "homebrew/core")],
        &vec![cask("firefox"), cask("iterm2")],
    )
}

#[test]
fn store_insert_replaces_value_under_same_key() {
    let mut store: Store<u32> = Store::new();
    assert!(store.is_empty());
    store.insert("a".to_string(), 1);
    store.insert("b".to_string(), 2);
    store.insert("a".to_string(), 3);
    assert_eq!(store.len(), 2);
    assert_eq!(store.get("a"), Some(&3));
    assert_eq!(store.get("b"), Some(&2));
    assert_eq!(store.get("c"), None);
    assert!(store.contains_key("b"));
    assert!(!store.contains_key("c"));
    assert_eq!(store.key_at(0), "a");
    assert_eq!(*store.value_at(0), 3);
}

#[test]
fn name_set_ignores_duplicates() {
    let set = names(&["git", "git-shell", "git"]);
    assert_eq!(set.len(), 2);
    assert!(set.contains("git"));
    assert!(set.contains("git-shell"));
    assert!(!set.contains("hg"));
    assert_eq!(set.get(1), "git-shell");
    let copy = set.duplicate();
    assert_eq!(copy.len(), 2);
    assert!(copy.contains("git-shell"));
    assert!(NameSet::new().is_empty());
}

#[test]
fn eval_all_keys_records_by_identifier_and_last_wins() {
    let mut second = formula("wget", "other/tap");
    second.desc = "second".to_string();
    let state = brew().eval_all(
        &vec![formula("wget", "homebrew/core"), formula("git", "homebrew/core"), second],
        &vec![cask("firefox"), cask("firefox")],
    );
    assert_eq!(keys(&state.formulae), vec!["git".to_string(), "wget".to_string()]);
    assert_eq!(state.formulae.get("wget").unwrap().desc, "second");
    assert_eq!(state.formulae.get("wget").unwrap().tap, "other/tap");
    assert_eq!(state.casks.len(), 1);
    assert_eq!(state.casks.get("firefox").unwrap().token, "firefox");
}

#[test]
fn analytics_keeps_the_source_spelling_of_keys() {
    let store = brew().analytics(&vec![
        popularity("wget", 1),
        popularity("bar-tap/foo", 2),
        popularity("wget", 3),
    ]);
    assert_eq!(store.len(), 2);
    assert_eq!(store.get("wget").unwrap().number, 3);
    assert_eq!(store.get("bar-tap/foo").unwrap().number, 2);
    assert!(store.get("foo").is_none());
}

#[test]
fn enrichment_keeps_the_key_set() {
    let base = base_catalog();
    let pop = brew().analytics(&vec![popularity("wget", 1), popularity("unknown", 9)]);
    let mut exes: Store<NameSet> = Store::new();
    exes.insert("git".to_string(), names(&["git", "git-shell"]));
    exes.insert("not-in-catalog".to_string(), names(&["x"]));
    let all = brew().build_all(&base, &pop, &exes);
    assert_eq!(keys(&all.formulae), keys(&base.formulae));
    assert_eq!(keys(&all.casks), keys(&base.casks));
    assert_eq!(all.formulae.len(), 3);
    assert_eq!(all.casks.len(), 2);
    let git = all.formulae.get("git").unwrap();
    assert_eq!(git.base.homepage, "https://example.org/git");
    assert_eq!(git.executables.len(), 2);
    assert!(git.executables.contains("git-shell"));
    assert!(git.analytics.is_none());
    let wget = all.formulae.get("wget").unwrap();
    assert!(wget.executables.is_empty());
    assert_eq!(wget.analytics.as_ref().unwrap().number, 1);
    assert_eq!(all.casks.get("iterm2").unwrap().base.version, "2.0");
}

#[test]
fn popularity_falls_back_to_tap_qualified_name() {
    let base = base_catalog();
    let pop = brew().analytics(&vec![popularity("bar-tap/foo", 7)]);
    let exes: Store<NameSet> = Store::new();
    let all = brew().build_all(&base, &pop, &exes);
    let foo = all.formulae.get("foo").unwrap();
    let record = foo.analytics.as_ref().unwrap();
    assert_eq!(record.formula, "bar-tap/foo");
    assert_eq!(record.number, 7);
}

#[test]
fn popularity_prefers_the_exact_identifier() {
    let base = base_catalog();
    let pop = brew().analytics(&vec![popularity("bar-tap/foo", 7), popularity("foo", 8)]);
    let exes: Store<NameSet> = Store::new();
    let all = brew().build_all(&base, &pop, &exes);
    let record = all.formulae.get("foo").unwrap().analytics.as_ref().unwrap().number;
    assert_eq!(record, 8);
}

#[test]
fn qualified_name_joins_tap_and_name_with_a_slash() {
    let f = formula("foo", "bar-tap");
    assert_eq!(brewer::aggregate::qualified_name(&f), "bar-tap/foo");
}

#[test]
fn installed_keys_are_catalog_keys() {
    let base = base_catalog();
    let pop: Store<Popularity> = Store::new();
    let exes: Store<NameSet> = Store::new();
    let receipts = brew().eval_installed_formulae_receipts(&vec![
        ("wget".to_string(), Receipt { installed_on_request: true, version: "1.21".to_string() }),
        ("stale".to_string(), Receipt { installed_on_request: false, version: "0.1".to_string() }),
    ]);
    let versions = brew().eval_installed_casks_versions(&vec![
        ("firefox".to_string(), vec!["120.0".to_string(), ".metadata".to_string(), "121.0".to_string()]),
        ("gone".to_string(), vec!["1".to_string()]),
    ]);
    let state = brew().state(&base, &pop, &exes, &receipts, &versions);
    assert_eq!(keys(&state.formulae.installed), vec!["wget".to_string()]);
    assert_eq!(keys(&state.casks.installed), vec!["firefox".to_string()]);
    for k in keys(&state.formulae.installed) {
        assert!(state.formulae.all.contains_key(&k));
    }
    for k in keys(&state.casks.installed) {
        assert!(state.casks.all.contains_key(&k));
    }
    assert!(!state.formulae.installed.contains_key("stale"));
    assert!(!state.casks.installed.contains_key("gone"));
    let wget = state.formulae.installed.get("wget").unwrap();
    assert_eq!(wget.upstream.base.name, "wget");
    assert_eq!(wget.receipt.version, "1.21");
    assert!(wget.receipt.installed_on_request);
    let firefox = state.casks.installed.get("firefox").unwrap();
    assert_eq!(firefox.upstream.base.token, "firefox");
    assert_eq!(firefox.versions.len(), 2);
    assert!(firefox.versions.contains("120.0"));
    assert!(firefox.versions.contains("121.0"));
    assert!(!firefox.versions.contains(".metadata"));
    assert_eq!(state.formulae.all.len(), 3);
}

#[test]
fn installed_against_a_given_catalog() {
    let base = base_catalog();
    let all = brew().build_all(&base, &Store::new(), &Store::new());
    let receipts = brew().eval_installed_formulae_receipts(&vec![(
        "git".to_string(),
        Receipt { installed_on_request: false, version: "2.44".to_string() },
    )]);
    let installed = brew().installed(&all, &receipts, &Store::new());
    assert_eq!(installed.formulae.len(), 1);
    assert!(installed.casks.is_empty());
    assert_eq!(installed.formulae.get("git").unwrap().upstream.base.tap, "homebrew/core");
}
