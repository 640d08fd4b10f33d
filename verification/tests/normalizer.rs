use workspace_hash::pattern::globs_from_workspace_inputs;

#[test]
fn strips_root_marker() {
    let globs = globs_from_workspace_inputs(&["{workspaceRoot}/src/**/*.ts".to_string()]);
    assert_eq!(globs, vec!["src/**/*.ts".to_string()]);
}

#[test]
fn reapplies_negation_marker() {
    let globs = globs_from_workspace_inputs(&["!{workspaceRoot}/project.json".to_string()]);
    assert_eq!(globs, vec!["!project.json".to_string()]);
}

#[test]
fn drops_entries_without_marker() {
    let globs = globs_from_workspace_inputs(&[
        "packages/{package}".to_string(),
        "{workspaceRoot}/a".to_string(),
        "src/**".to_string(),
    ]);
    assert_eq!(globs, vec!["a".to_string()]);
}

#[test]
fn empty_and_bare_negation_are_dropped() {
    let globs = globs_from_workspace_inputs(&["".to_string(), "!".to_string()]);
    assert_eq!(globs, Vec::<String>::new());
}

#[test]
fn keeps_order_and_duplicates() {
    let globs = globs_from_workspace_inputs(&[
        "{workspaceRoot}/b".to_string(),
        "{workspaceRoot}/a".to_string(),
        "{workspaceRoot}/b".to_string(),
    ]);
    assert_eq!(
        globs,
        vec!["b".to_string(), "a".to_string(), "b".to_string()]
    );
}

#[test]
fn marker_must_be_leading() {
    let globs = globs_from_workspace_inputs(&["src/{workspaceRoot}/a".to_string()]);
    assert_eq!(globs, Vec::<String>::new());
}
