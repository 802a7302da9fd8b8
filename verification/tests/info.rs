use brewer::info::{info_cask, info_formula, Span, Style};
use brewer::models::{
    Cask, CaskBase, Formula, FormulaBase, FormulaVersions, InstalledCask, InstalledFormula, Receipt,
};
use brewer::names::NameSet;

fn names(list: &[&str]) -> NameSet {
    let mut set = NameSet::new();
    for n in list {
        set.insert(n.to_string());
    }
    set
}

fn formula(executables: &[&str]) -> Formula {
    Formula {
        base: FormulaBase {
            name: "git".to_string(),
            desc: "Distributed revision control system".to_string(),
            homepage: "https://git-scm.com".to_string(),
            tap: "homebrew/core".to_string(),
            versions: FormulaVersions { stable: "2.44.0".to_string() },
        },
        executables: names(executables),
        analytics: None,
    }
}

fn cask(desc: Option<&str>) -> Cask {
    Cask {
        base: CaskBase {
            token: "firefox".to_string(),
            desc: desc.map(|d| d.to_string()),
            homepage: "https://www.mozilla.org/firefox/".to_string(),
            tap: "homebrew/cask".to_string(),
            version: "121.0".to_string(),
        },
    }
}

fn text(spans: &[Span]) -> String {
    let mut out = String::new();
    for span in spans {
        match span {
            Span::Text(_, t) => out.push_str(t),
            Span::Count(n) => out.push_str(&n.to_string()),
        }
    }
    out
}

fn styled(spans: &[Span], style: Style) -> Vec<String> {
    let mut out = Vec::new();
    for span in spans {
        if let Span::Text(s, t) = span {
            if *s == style {
                out.push(t.clone());
            }
        }
    }
    out
}

#[test]
fn formula_without_executables_has_no_provides_line() {
    let spans = info_formula(&formula(&[]), None);
    assert_eq!(
        text(&spans),
        "git 2.44.0 (Cask)\nFrom homebrew/core\n\nhttps://git-scm.com\n\nDistributed revision control system\n"
    );
    assert_eq!(styled(&spans, Style::Header), vec!["git".to_string()]);
    assert_eq!(styled(&spans, Style::Tap), vec!["homebrew/core".to_string()]);
    assert_eq!(styled(&spans, Style::Link), vec!["https://git-scm.com".to_string()]);
    assert!(styled(&spans, Style::Executable).is_empty());
}

#[test]
fn installed_formula_shows_the_installed_version() {
    let f = formula(&["git", "git-shell"]);
    let installed = InstalledFormula {
        upstream: formula(&["git", "git-shell"]),
        receipt: Receipt { installed_on_request: true, version: "2.43.0".to_string() },
    };
    let spans = info_formula(&f, Some(&installed));
    assert_eq!(
        text(&spans),
        "git 2.44.0 (Cask) (installed 2.43.0)\nFrom homebrew/core\n\nhttps://git-scm.com\n\nDistributed revision control system\n\nProvides git git-shell\n"
    );
    assert_eq!(styled(&spans, Style::Executable), vec!["git".to_string(), "git-shell".to_string()]);
}

#[test]
fn more_than_five_executables_are_counted() {
    let spans = info_formula(&formula(&["a", "b", "c", "d", "e", "f", "g"]), None);
    assert!(text(&spans).ends_with("\n\nProvides a b c d e and 2 more\n"));
    let spans = info_formula(&formula(&["a", "b", "c", "d", "e"]), None);
    assert!(text(&spans).ends_with("\n\nProvides a b c d e\n"));
}

#[test]
fn cask_shows_its_installed_versions_and_description() {
    let installed = InstalledCask { upstream: cask(Some("Web browser")), versions: names(&["120.0", "121.0"]) };
    let spans = info_cask(&cask(Some("Web browser")), Some(&installed));
    assert_eq!(
        text(&spans),
        "firefox 121.0 (Formula) (installed 120.0, 121.0)\nFrom homebrew/cask\n\nhttps://www.mozilla.org/firefox/\n\nWeb browser\n"
    );
    assert_eq!(styled(&spans, Style::Header), vec!["firefox".to_string()]);
}

#[test]
fn cask_without_description_says_so() {
    let spans = info_cask(&cask(None), None);
    assert_eq!(
        text(&spans),
        "firefox 121.0 (Formula)\nFrom homebrew/cask\n\nhttps://www.mozilla.org/firefox/\n\nNo description\n"
    );
    let installed = InstalledCask { upstream: cask(None), versions: names(&[]) };
    assert!(text(&info_cask(&cask(None), Some(&installed))).starts_with("firefox 121.0 (Formula) (installed )\n"));
}
