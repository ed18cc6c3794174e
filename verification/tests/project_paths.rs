use deslop_recipes::project::reject_noncanonical_input;

#[test]
fn dot_selects_the_whole_root() {
    assert!(reject_noncanonical_input(".").is_ok());
}

#[test]
fn plain_relative_and_nested_paths_are_canonical() {
    assert!(reject_noncanonical_input("src/lib.rs").is_ok());
    assert!(reject_noncanonical_input("src").is_ok());
    assert!(reject_noncanonical_input("a/./b").is_ok());
}

#[test]
fn leading_dot_and_parent_components_are_refused() {
    assert_eq!(
        reject_noncanonical_input("./src").unwrap_err(),
        "recipe path ./src is not canonical"
    );
    assert_eq!(
        reject_noncanonical_input("src/../lib.rs").unwrap_err(),
        "recipe path src/../lib.rs is not canonical"
    );
    assert!(reject_noncanonical_input("..").is_err());
}
