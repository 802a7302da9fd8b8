use brewer::brew::Brew;
use brewer::registry::{lines, parse_line, words};
use brewer::text::{chars_of, find_in, is_whitespace, string_of};

fn brew() -> Brew {
    Brew { path: "brew".to_string(), prefix: "/opt/homebrew".to_string() }
}

#[test]
fn registry_line_gives_identifier_and_set() {
    let store = brew().executables("git(1): git git-shell");
    assert_eq!(store.len(), 1);
    let set = store.get("git").unwrap();
    assert_eq!(set.len(), 2);
    assert!(set.contains("git"));
    assert!(set.contains("git-shell"));
}

#[test]
fn registry_line_without_colon_is_ignored() {
    let store = brew().executables("this line has no colon\nwget(1.21): wget\n");
    assert_eq!(store.len(), 1);
    assert!(store.get("wget").unwrap().contains("wget"));
}

#[test]
fn registry_line_without_parenthesis_is_ignored() {
    let store = brew().executables("wget: wget\ncurl(8): curl\nodd: a(b)\n");
    assert_eq!(store.len(), 1);
    assert!(store.contains_key("curl"));
}

#[test]
fn registry_parenthesis_after_colon_does_not_count() {
    let store = brew().executables("name: exe(1)\n");
    assert!(store.is_empty());
}

#[test]
fn registry_skips_empty_lines_and_ignores_duplicates() {
    let store = brew().executables("\n\na(1): x  x\ty x\n\nb(2):\n");
    assert_eq!(store.len(), 2);
    let a = store.get("a").unwrap();
    assert_eq!(a.len(), 2);
    assert!(a.contains("x"));
    assert!(a.contains("y"));
    assert!(store.get("b").unwrap().is_empty());
}

#[test]
fn registry_later_line_replaces_earlier_one() {
    let store = brew().executables("a(1): x\na(2): y z\n");
    assert_eq!(store.len(), 1);
    let a = store.get("a").unwrap();
    assert!(!a.contains("x"));
    assert!(a.contains("y"));
    assert!(a.contains("z"));
}

#[test]
fn registry_splits_at_first_colon_only() {
    let store = brew().executables("a(1): x:y z\r\n");
    let a = store.get("a").unwrap();
    assert_eq!(a.len(), 2);
    assert!(a.contains("x:y"));
    assert!(a.contains("z"));
}

#[test]
fn registry_of_empty_text_is_empty() {
    assert!(brew().executables("").is_empty());
}

#[test]
fn lines_are_cut_at_newlines() {
    let text = chars_of("ab\n\ncd");
    assert_eq!(lines(&text), vec![(0, 2), (3, 3), (4, 6)]);
    let text = chars_of("ab\n");
    assert_eq!(lines(&text), vec![(0, 2)]);
    assert_eq!(lines(&chars_of("")), Vec::<(usize, usize)>::new());
}

#[test]
fn words_are_separated_by_unicode_whitespace() {
    let text = chars_of(" a\u{3000}bc\td ");
    let set = words(&text, 0, text.len());
    assert_eq!(set.len(), 3);
    assert!(set.contains("a"));
    assert!(set.contains("bc"));
    assert!(set.contains("d"));
}

#[test]
fn whitespace_is_what_std_calls_whitespace() {
    let mut n: u32 = 0;
    while n < 0x3100 {
        if let Some(c) = char::from_u32(n) {
            assert_eq!(is_whitespace(c), c.is_whitespace());
        }
        n += 1;
    }
}

#[test]
fn find_in_gives_first_place() {
    let text = chars_of("a:b:c");
    assert_eq!(find_in(&text, 0, 5, ':'), Some(1));
    assert_eq!(find_in(&text, 2, 5, ':'), Some(3));
    assert_eq!(find_in(&text, 4, 5, ':'), None);
    assert_eq!(string_of(&text, 2, 5), "b:c");
}

#[test]
fn parse_line_reads_one_line() {
    let text = chars_of("x\ngit(1): git\n");
    let (name, set) = parse_line(&text, 2, 13).unwrap();
    assert_eq!(name, "git");
    assert!(set.contains("git"));
    assert!(parse_line(&text, 0, 1).is_none());
}

#[test]
fn chars_of_keeps_non_ascii_characters() {
    assert_eq!(chars_of("aé\u{3000}"), vec!['a', 'é', '\u{3000}']);
}
