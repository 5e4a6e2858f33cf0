use ewe::named::NamedSet;
use ewe::names::{assure_pkg_name, is_name_char, PackageName, ParseNameError, PkgName};

#[test]
fn names_of_letters_digits_and_hyphens_pass() {
    assert_eq!(assure_pkg_name("gcc-12"), Ok("gcc-12"));
    assert_eq!(assure_pkg_name(""), Ok(""));
    assert_eq!(assure_pkg_name("libé"), Ok("libé"));
    assert_eq!(assure_pkg_name("x264"), Ok("x264"));
}

#[test]
fn the_first_character_that_is_not_allowed_is_named() {
    assert_eq!(assure_pkg_name("foo_bar baz"), Err(ParseNameError('_')));
    assert_eq!(assure_pkg_name("a b_c"), Err(ParseNameError(' ')));
    assert_eq!(assure_pkg_name("a.b"), Err(ParseNameError('.')));
    assert_eq!("a+b".parse::<PkgName>().err(), Some(ParseNameError('+')));
}

#[test]
fn name_characters() {
    assert!(is_name_char('-', false));
    assert!(is_name_char('a', true));
    assert!(!is_name_char('_', false));
    assert!(!is_name_char('.', false));
}

#[test]
fn a_name_keeps_its_text() {
    let name: PkgName = "hello-world".parse().unwrap();
    assert_eq!(name.as_str(), "hello-world");
    assert_eq!(name.to_string(), "hello-world");
    let other: PackageName = PkgName::parse("hello-world").unwrap();
    assert!(name == other);
    assert!(name != PkgName::parse("hello").unwrap());
    assert_eq!(name.clone().as_str(), "hello-world");
}

fn name(s: &str) -> PkgName {
    PkgName::parse(s).unwrap()
}

#[test]
fn a_set_keeps_its_names_in_order_and_once() {
    let set: NamedSet<PkgName> = NamedSet::new();
    assert_eq!(set.len(), 0);
    let (set, added) = set.insert(name("zlib"));
    assert!(added);
    let (set, added) = set.insert(name("bash"));
    assert!(added);
    let (set, added) = set.insert(name("make"));
    assert!(added);
    let (set, added) = set.insert(name("bash"));
    assert!(!added);
    assert_eq!(set.len(), 3);
    assert_eq!(set.get(0).as_str(), "bash");
    assert_eq!(set.get(1).as_str(), "make");
    assert_eq!(set.get(2).as_str(), "zlib");
    assert!(set.contains("make"));
    assert!(!set.contains("mak"));
    assert!(!set.contains("makefile"));
}

#[test]
fn names_are_ordered_by_character_code() {
    let mut set: NamedSet<PkgName> = NamedSet::new();
    for n in ["b", "a-", "a", "B", "ab", "a0", "10", "9"] {
        set = set.insert(name(n)).0;
    }
    let mut expected = vec!["b", "a-", "a", "B", "ab", "a0", "10", "9"];
    expected.sort();
    let got: Vec<String> = (0..set.len()).map(|i| set.get(i).to_string()).collect();
    assert_eq!(got, expected);
}

#[test]
fn a_union_holds_the_names_of_both_sets() {
    let mut a: NamedSet<PkgName> = NamedSet::new();
    for n in ["m", "c", "x"] {
        a = a.insert(name(n)).0;
    }
    let mut b: NamedSet<PkgName> = NamedSet::new();
    for n in ["a", "m", "z"] {
        b = b.insert(name(n)).0;
    }
    let u = a.extend_from(&b);
    let got: Vec<String> = (0..u.len()).map(|i| u.get(i).to_string()).collect();
    assert_eq!(got, vec!["a", "c", "m", "x", "z"]);
    let copy = u.duplicate();
    assert_eq!(copy.len(), 5);
    assert_eq!(copy.get(4).as_str(), "z");
    let n = vec!['m'];
    assert_eq!(u.locate(&n), (2, true));
    let n = vec!['n'];
    assert_eq!(u.locate(&n), (3, false));
}
