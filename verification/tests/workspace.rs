use fallow::workspace::{
    collect_tsconfig_workspaces, dir_name, discover_workspaces, expand_patterns_to_workspaces, is_under, relative_path, split_workspace_patterns, workspace_glob,
    WorkspaceCandidate, WorkspacePackage,
};

fn candidate(dir: &str, name: Option<&str>, deps: &[&str]) -> WorkspaceCandidate {
    WorkspaceCandidate {
        dir: dir.to_string(),
        canonical_dir: dir.to_string(),
        package: Some(WorkspacePackage {
            name: name.map(|n| n.to_string()),
            dependency_names: deps.iter().map(|d| d.to_string()).collect(),
        }),
    }
}

fn bare(dir: &str, canonical: &str) -> WorkspaceCandidate {
    WorkspaceCandidate { dir: dir.to_string(), canonical_dir: canonical.to_string(), package: None }
}

#[test]
fn discover_workspaces_from_tsconfig_references() {
    let root = "/tmp/ws-refs";
    // core has a package.json with a name; ui has none, so its directory names it
    let references = vec![
        candidate("/tmp/ws-refs/packages/core", Some("@project/core"), &[]),
        bare("/tmp/ws-refs/packages/ui", "/tmp/ws-refs/packages/ui"),
    ];
    let workspaces = discover_workspaces(root, root, &vec![], &vec![], &references);
    assert_eq!(workspaces.len(), 2);
    assert!(workspaces.iter().any(|ws| ws.name == "@project/core"));
    assert!(workspaces.iter().any(|ws| ws.name == "ui"));
}

#[test]
fn tsconfig_references_outside_root_rejected() {
    let root = "/tmp/outside-test/project";
    let references = vec![
        bare("/tmp/outside-test/project/packages/core", "/tmp/outside-test/project/packages/core"),
        // "../outside" resolves to a sibling of the project, not inside it
        bare("/tmp/outside-test/project/../outside", "/tmp/outside-test/outside"),
    ];
    let workspaces = discover_workspaces(root, root, &vec![], &vec![], &references);
    assert_eq!(workspaces.len(), 1, "reference outside project root should be rejected: {workspaces:?}");
    assert!(workspaces[0].root.contains("packages/core"));
}

#[test]
fn pattern_matches_without_package_json_are_skipped() {
    let root = "/repo";
    let matches = vec![candidate("/repo/packages/a", Some("a"), &[]), bare("/repo/packages/docs", "/repo/packages/docs")];
    let workspaces = discover_workspaces(root, root, &vec![], &matches, &vec![]);
    assert_eq!(workspaces.len(), 1);
    assert_eq!(workspaces[0].name, "a");
}

#[test]
fn negated_pattern_excludes_workspace() {
    let root = "/repo";
    let matches = vec![candidate("/repo/packages/a", Some("a"), &[]), candidate("/repo/packages/internal", Some("internal"), &[])];
    let negations = vec!["packages/internal".to_string()];
    let workspaces = discover_workspaces(root, root, &negations, &matches, &vec![]);
    let names: Vec<&str> = workspaces.iter().map(|w| w.name.as_str()).collect();
    assert_eq!(names, vec!["a"]);
}

#[test]
fn root_itself_is_not_a_workspace() {
    let root = "/repo";
    let matches = vec![candidate("/repo", Some("root-pkg"), &[]), candidate("/repo/app", Some("app"), &[])];
    let workspaces = discover_workspaces(root, root, &vec![], &matches, &vec![]);
    let names: Vec<&str> = workspaces.iter().map(|w| w.name.as_str()).collect();
    assert_eq!(names, vec!["app"]);
}

#[test]
fn same_directory_found_twice_is_kept_once() {
    let root = "/repo";
    let matches = vec![candidate("/repo/packages/a", Some("a"), &[])];
    let references = vec![candidate("/repo/packages/a", Some("a"), &[])];
    let workspaces = discover_workspaces(root, root, &vec![], &matches, &references);
    assert_eq!(workspaces.len(), 1);
}

#[test]
fn depended_on_workspace_is_internal() {
    let root = "/repo";
    let matches = vec![
        candidate("/repo/packages/app", Some("app"), &["@repo/lib", "react"]),
        candidate("/repo/packages/lib", Some("@repo/lib"), &[]),
    ];
    let workspaces = discover_workspaces(root, root, &vec![], &matches, &vec![]);
    assert_eq!(workspaces.len(), 2);
    assert!(!workspaces[0].is_internal_dependency);
    assert!(workspaces[1].is_internal_dependency);
}

#[test]
fn is_under_is_component_wise() {
    assert!(is_under("/repo/packages/a", "/repo"));
    assert!(is_under("/repo", "/repo"));
    assert!(!is_under("/repository", "/repo"));
    assert!(!is_under("/other", "/repo"));
    assert!(is_under("/anything", "/"));
}

#[test]
fn relative_path_strips_root() {
    assert_eq!(relative_path("/repo/packages/a", "/repo"), "packages/a");
    assert_eq!(relative_path("/repo", "/repo"), "");
    assert_eq!(relative_path("/elsewhere/x", "/repo"), "/elsewhere/x");
    assert_eq!(relative_path("/x/y", "/"), "x/y");
}

#[test]
fn dir_name_is_last_component() {
    assert_eq!(dir_name("/repo/packages/ui"), "ui");
    assert_eq!(dir_name("ui"), "ui");
    assert_eq!(dir_name("/repo/"), "");
}

#[test]
fn split_patterns_separates_negations() {
    let patterns = vec!["packages/*".to_string(), "!packages/internal".to_string(), "apps/*".to_string()];
    let (pos, neg) = split_workspace_patterns(&patterns);
    assert_eq!(pos, vec!["packages/*".to_string(), "apps/*".to_string()]);
    assert_eq!(neg, vec!["packages/internal".to_string()]);
}

#[test]
fn workspace_glob_expands_trailing_slash() {
    assert_eq!(workspace_glob("packages/"), "packages/*");
    assert_eq!(workspace_glob("packages/*"), "packages/*");
}

#[test]
fn pattern_matches_skip_root_negated_and_manifestless_dirs() {
    let root = "/repo";
    let matches = vec![
        candidate("/repo/packages/a", Some("a"), &["b"]),
        candidate("/repo", Some("root"), &[]),
        candidate("/repo/packages/test-utils", Some("tu"), &[]),
        bare("/repo/packages/empty", "/repo/packages/empty"),
        candidate("/repo/packages/b", None, &[]),
    ];
    let negations = vec!["packages/test-*".to_string()];
    let chosen = expand_patterns_to_workspaces(root, root, &negations, &matches);
    let names: Vec<&str> = chosen.iter().map(|c| c.info.name.as_str()).collect();
    assert_eq!(names, vec!["a", "b"]);
    assert_eq!(chosen[0].deps, vec!["b".to_string()]);
}

#[test]
fn tsconfig_references_keep_only_dirs_inside_root() {
    let root = "/repo";
    let references = vec![
        bare("/repo/libs/x", "/repo/libs/x"),
        bare("/repo", "/repo"),
        bare("/other/y", "/other/y"),
    ];
    let chosen = collect_tsconfig_workspaces(root, &references);
    assert_eq!(chosen.len(), 1);
    assert_eq!(chosen[0].info.name, "x");
    assert!(chosen[0].deps.is_empty());
}
