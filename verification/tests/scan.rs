use brewer::brew::Brew;
use brewer::models::Receipt;

fn brew() -> Brew {
    Brew { path: "brew".to_string(), prefix: "/opt/homebrew".to_string() }
}

fn strs(list: &[&str]) -> Vec<String> {
    list.iter().map(|s| s.to_string()).collect()
}

#[test]
fn hidden_entries_are_not_scanned() {
    let entries = brew().receipt_entries(&strs(&[".DS_Store", "wget"]));
    assert_eq!(entries, strs(&["wget"]));
}

#[test]
fn visible_entries_keep_their_order() {
    let entries = brew().receipt_entries(&strs(&["b", ".x", "a", "c.d", ""]));
    assert_eq!(entries, strs(&["b", "a", "c.d", ""]));
}

#[test]
fn dotfile_is_a_name_that_begins_with_a_dot() {
    assert!(Brew::is_dotfile(".DS_Store"));
    assert!(Brew::is_dotfile("."));
    assert!(!Brew::is_dotfile(""));
    assert!(!Brew::is_dotfile("a.b"));
    assert!(!Brew::is_dotfile("wget"));
}

#[test]
fn receipts_are_kept_under_their_entry_names() {
    let store = brew().eval_installed_formulae_receipts(&vec![
        ("wget".to_string(), Receipt { installed_on_request: true, version: "1".to_string() }),
        ("git".to_string(), Receipt { installed_on_request: false, version: "2".to_string() }),
        ("wget".to_string(), Receipt { installed_on_request: false, version: "3".to_string() }),
    ]);
    assert_eq!(store.len(), 2);
    assert_eq!(store.get("wget").unwrap().version, "3");
    assert!(!store.get("wget").unwrap().installed_on_request);
    assert_eq!(store.get("git").unwrap().version, "2");
}

#[test]
fn cask_versions_skip_hidden_entries_but_keep_every_cask() {
    let store = brew().eval_installed_casks_versions(&vec![
        ("firefox".to_string(), strs(&["120.0", ".metadata", "121.0", "120.0"])),
        (".hidden-cask".to_string(), strs(&[".x"])),
    ]);
    assert_eq!(store.len(), 2);
    let firefox = store.get("firefox").unwrap();
    assert_eq!(firefox.len(), 2);
    assert!(firefox.contains("120.0"));
    assert!(firefox.contains("121.0"));
    assert!(store.get(".hidden-cask").unwrap().is_empty());
    let set = brew().visible_set(&strs(&[".a", "b"]));
    assert_eq!(set.len(), 1);
    assert!(set.contains("b"));
}

#[test]
fn scanned_places_have_their_fixed_names() {
    assert_eq!(Brew::receipts_root(), "opt");
    assert_eq!(Brew::cask_root(), "Caskroom");
    assert_eq!(Brew::receipt_file(), "INSTALL_RECEIPT.json");
}
