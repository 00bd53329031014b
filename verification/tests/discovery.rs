use cargo_workspaces::discovery::{
    manifest_pattern, member_list, member_paths, relative_paths, resolved_roots,
};

fn strings(items: &[&str]) -> Vec<String> {
    items.iter().map(|s| s.to_string()).collect()
}

#[test]
fn pattern_matches_manifests_at_any_depth() {
    assert_eq!(manifest_pattern("."), "./**/Cargo.toml");
    assert_eq!(manifest_pattern("/work/ws"), "/work/ws/**/Cargo.toml");
}

#[test]
fn pattern_of_empty_root() {
    assert_eq!(manifest_pattern(""), "/**/Cargo.toml");
}

#[test]
fn resolved_roots_pass_over_failures() {
    let outcomes = vec![None, Some("/r/a".to_string()), None, Some("/r/b".to_string())];
    assert_eq!(resolved_roots(&outcomes), strings(&["/r/a", "/r/b"]));
}

#[test]
fn resolved_roots_hold_each_root_once() {
    let outcomes = vec![
        Some("/r/a".to_string()),
        Some("/r/b".to_string()),
        Some("/r/a".to_string()),
        Some("/r/a".to_string()),
        Some("/r/b".to_string()),
    ];
    assert_eq!(resolved_roots(&outcomes), strings(&["/r/a", "/r/b"]));
}

#[test]
fn resolved_roots_of_nothing() {
    assert_eq!(resolved_roots(&Vec::new()), Vec::<String>::new());
    assert_eq!(resolved_roots(&vec![None, None]), Vec::<String>::new());
}

#[test]
fn members_are_relative_and_sorted() {
    let roots = strings(&["/r/c/sub", "/r/a", "/r/b"]);
    assert_eq!(member_paths(&roots, "/r", false), strings(&["a", "b", "c/sub"]));
}

#[test]
fn one_member_for_each_distinct_root() {
    let roots = strings(&["/r/x/y", "/r/m", "/r/x", "/r/a/b/c", "/r/z"]);
    let members = member_paths(&roots, "/r", false);
    assert_eq!(members.len(), roots.len());
    assert_eq!(members, strings(&["a/b/c", "m", "x", "x/y", "z"]));
}

#[test]
fn a_root_listed_twice_gives_one_member() {
    let roots = strings(&["/r/a", "/r/b", "/r/a"]);
    assert_eq!(member_paths(&roots, "/r", false), strings(&["a", "b"]));
}

#[test]
fn two_spellings_of_one_root_give_one_member() {
    let roots = strings(&["/r/a", "/r/a/"]);
    assert_eq!(member_paths(&roots, "/r", false), strings(&["a"]));
}

#[test]
fn roots_outside_the_workspace_are_dropped() {
    let roots = strings(&["/other/x", "/r/a", "/rr/b", "/"]);
    assert_eq!(member_paths(&roots, "/r", false), strings(&["a"]));
}

#[test]
fn workspace_root_is_no_member_without_a_package() {
    let roots = strings(&["/r", "/r/a"]);
    assert_eq!(member_paths(&roots, "/r", false), strings(&["a"]));
}

#[test]
fn workspace_root_is_a_member_with_a_package() {
    let roots = strings(&["/r/a", "/r"]);
    assert_eq!(member_paths(&roots, "/r", true), strings(&["", "a"]));
}

#[test]
fn workspace_root_alone() {
    let roots = strings(&["/r"]);
    assert_eq!(member_paths(&roots, "/r", true), strings(&[""]));
    assert_eq!(member_paths(&roots, "/r", false), Vec::<String>::new());
}

#[test]
fn no_roots_no_members() {
    assert_eq!(member_paths(&Vec::new(), "/r", true), Vec::<String>::new());
}

#[test]
fn members_are_sorted_by_code_point() {
    let roots = strings(&["/r/b", "/r/B", "/r/a-x", "/r/a/x", "/r/a", "/r/\u{e9}"]);
    assert_eq!(
        member_paths(&roots, "/r", false),
        strings(&["B", "a", "a-x", "a/x", "b", "\u{e9}"])
    );
}

#[test]
fn workspace_root_with_trailing_separator() {
    let roots = strings(&["/r/a", "/r/b"]);
    assert_eq!(member_paths(&roots, "/r/", false), strings(&["a", "b"]));
}

#[test]
fn relative_paths_follow_the_roots() {
    let roots = strings(&["/r/a", "/other", "/r", "/r/c/sub", "r/a"]);
    assert_eq!(
        relative_paths(&roots, "/r"),
        vec![Some("a".to_string()), None, Some(String::new()), Some("c/sub".to_string()), None]
    );
}

#[test]
fn relative_paths_count_whole_components() {
    let roots = strings(&["/root/a", "/r2", "/r/a"]);
    assert_eq!(relative_paths(&roots, "/r"), vec![None, None, Some("a".to_string())]);
}

#[test]
fn member_list_is_sorted_and_without_duplicates() {
    let relatives = vec![
        Some("b".to_string()),
        None,
        Some("a".to_string()),
        Some("b".to_string()),
        Some(String::new()),
        Some("a/b".to_string()),
    ];
    assert_eq!(member_list(&relatives, false), strings(&["a", "a/b", "b"]));
    assert_eq!(member_list(&relatives, true), strings(&["", "a", "a/b", "b"]));
}

#[test]
fn member_list_of_nothing() {
    assert_eq!(member_list(&Vec::new(), true), Vec::<String>::new());
    assert_eq!(member_list(&vec![None, None], true), Vec::<String>::new());
    assert_eq!(member_list(&vec![Some(String::new())], false), Vec::<String>::new());
}
