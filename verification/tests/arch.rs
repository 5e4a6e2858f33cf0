use ewe::arch::{ArchList, EmptyArchList};

fn list(tokens: &[&str]) -> ArchList {
    let raw: Vec<String> = tokens.iter().map(|t| t.to_string()).collect();
    ArchList::from_tokens(&raw).unwrap()
}

fn tokens(list: &ArchList) -> Vec<String> {
    (0..list.len()).map(|i| list.token(i).to_string()).collect()
}

#[test]
fn an_empty_list_is_refused() {
    let raw: Vec<String> = Vec::new();
    assert_eq!(ArchList::from_tokens(&raw).err(), Some(EmptyArchList));
}

#[test]
fn tokens_are_kept_once_and_in_order() {
    let l = list(&["x86_64", "aarch64", "x86_64", "riscv64"]);
    assert_eq!(tokens(&l), vec!["aarch64", "riscv64", "x86_64"]);
    assert_eq!(l.len(), 3);
}

#[test]
fn any_leaves_only_any_and_all() {
    let l = list(&["x86_64", "any", "aarch64"]);
    assert_eq!(tokens(&l), vec!["any"]);
    let l = list(&["x86_64", "any", "all", "aarch64"]);
    assert_eq!(tokens(&l), vec!["all", "any"]);
    let l = list(&["all", "x86_64"]);
    assert_eq!(tokens(&l), vec!["all", "x86_64"]);
}

#[test]
fn any_and_all_cover_every_architecture() {
    assert!(list(&["any"]).contains("x86_64"));
    assert!(list(&["all"]).contains("x86_64"));
    assert!(list(&["x86_64"]).contains("x86_64"));
    assert!(!list(&["aarch64"]).contains("x86_64"));
    assert!(!list(&["aarch64", "riscv64"]).contains("x86"));
}

#[test]
fn all_must_stand_alone_for_a_package() {
    assert!(list(&["all"]).contains_all());
    assert!(!list(&["any"]).contains_all());
    assert!(list(&["all"]).is_valid_for_package());
    assert!(list(&["x86_64", "aarch64"]).is_valid_for_package());
    assert!(list(&["any"]).is_valid_for_package());
    assert!(!list(&["all", "x86_64"]).is_valid_for_package());
    assert!(!list(&["all", "any"]).is_valid_for_package());
}

#[test]
fn a_copy_of_a_list_holds_the_same_tokens() {
    let l = list(&["b", "a"]);
    assert_eq!(tokens(&l.duplicate()), vec!["a", "b"]);
}
