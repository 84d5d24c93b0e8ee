use fallow::dependency_usage::{
    find_type_only_dependencies, find_unused_dependencies, should_skip_dependency, DependencyContext, DependencyLists, DependencyLocation, Manifest,
    UnusedDependency, WorkspaceManifest,
};
use fallow::discover::{DiscoveredFile, EntryPoint, EntryPointSource, FileId};
use fallow::extract::{ImportInfo, ImportedName, Span};
use fallow::graph::ModuleGraph;
use fallow::resolve::{ResolveResult, ResolvedImport, ResolvedModule};

fn strings(names: &[&str]) -> Vec<String> {
    names.iter().map(|n| n.to_string()).collect()
}

/// Empty lists for the five name guards of `should_skip_dependency`.
fn empty_sets() -> (Vec<String>, Vec<String>, Vec<String>, Vec<String>, Vec<String>) {
    (vec![], vec![], vec![], vec![], vec![])
}

#[test]
fn skip_dep_returns_false_when_no_guard_matches() {
    let (root_flagged, script_used, plugin_referenced, ignore_deps, workspace_names) = empty_sets();
    let result = should_skip_dependency(
        "some-package",
        &root_flagged,
        &script_used,
        &plugin_referenced,
        &ignore_deps,
        &workspace_names,
        false,
    );
    assert!(!result);
}

#[test]
fn skip_dep_when_root_flagged() {
    let (mut root_flagged, script_used, plugin_referenced, ignore_deps, workspace_names) = empty_sets();
    root_flagged.push("lodash".to_string());
    assert!(should_skip_dependency(
        "lodash",
        &root_flagged,
        &script_used,
        &plugin_referenced,
        &ignore_deps,
        &workspace_names,
        false,
    ));
}

#[test]
fn skip_dep_when_script_used() {
    let (root_flagged, mut script_used, plugin_referenced, ignore_deps, workspace_names) = empty_sets();
    script_used.push("eslint".to_string());
    assert!(should_skip_dependency(
        "eslint",
        &root_flagged,
        &script_used,
        &plugin_referenced,
        &ignore_deps,
        &workspace_names,
        false,
    ));
}

#[test]
fn skip_dep_when_plugin_referenced() {
    let (root_flagged, script_used, mut plugin_referenced, ignore_deps, workspace_names) = empty_sets();
    plugin_referenced.push("tailwindcss".to_string());
    assert!(should_skip_dependency(
        "tailwindcss",
        &root_flagged,
        &script_used,
        &plugin_referenced,
        &ignore_deps,
        &workspace_names,
        false,
    ));
}

#[test]
fn skip_dep_when_in_ignore_list() {
    let (root_flagged, script_used, plugin_referenced, mut ignore_deps, workspace_names) = empty_sets();
    ignore_deps.push("my-internal-package".to_string());
    assert!(should_skip_dependency(
        "my-internal-package",
        &root_flagged,
        &script_used,
        &plugin_referenced,
        &ignore_deps,
        &workspace_names,
        false,
    ));
}

#[test]
fn skip_dep_when_workspace_name() {
    let (root_flagged, script_used, plugin_referenced, ignore_deps, mut workspace_names) = empty_sets();
    workspace_names.push("@myorg/shared".to_string());
    assert!(should_skip_dependency(
        "@myorg/shared",
        &root_flagged,
        &script_used,
        &plugin_referenced,
        &ignore_deps,
        &workspace_names,
        false,
    ));
}

#[test]
fn skip_dep_when_used_in_workspace() {
    let (root_flagged, script_used, plugin_referenced, ignore_deps, workspace_names) = empty_sets();
    let used_in_workspace = |dep: &str| dep == "react";
    assert!(should_skip_dependency(
        "react",
        &root_flagged,
        &script_used,
        &plugin_referenced,
        &ignore_deps,
        &workspace_names,
        used_in_workspace("react"),
    ));
}

#[test]
fn skip_dep_closure_receives_correct_dep_name() {
    let (root_flagged, script_used, plugin_referenced, ignore_deps, workspace_names) = empty_sets();
    let used_in_workspace = |dep: &str| dep == "axios";
    let result = should_skip_dependency(
        "axios",
        &root_flagged,
        &script_used,
        &plugin_referenced,
        &ignore_deps,
        &workspace_names,
        used_in_workspace("axios"),
    );
    assert!(result);

    let result = should_skip_dependency(
        "express",
        &root_flagged,
        &script_used,
        &plugin_referenced,
        &ignore_deps,
        &workspace_names,
        used_in_workspace("express"),
    );
    assert!(!result);
}

#[test]
fn skip_dep_no_match_with_similar_names() {
    let (mut root_flagged, script_used, plugin_referenced, ignore_deps, workspace_names) = empty_sets();
    root_flagged.push("lodash-es".to_string());
    assert!(!should_skip_dependency(
        "lodash",
        &root_flagged,
        &script_used,
        &plugin_referenced,
        &ignore_deps,
        &workspace_names,
        false,
    ));
}

#[test]
fn skip_dep_multiple_guards_match() {
    let (mut root_flagged, mut script_used, plugin_referenced, ignore_deps, workspace_names) = empty_sets();
    root_flagged.push("eslint".to_string());
    script_used.push("eslint".to_string());
    assert!(should_skip_dependency(
        "eslint",
        &root_flagged,
        &script_used,
        &plugin_referenced,
        &ignore_deps,
        &workspace_names,
        false,
    ));
}

// ---- find_unused_dependencies ----

/// A graph where one entry file imports the given npm packages.
/// One module, `/project/src/index.ts`, importing the given npm packages
/// (each with whether the import is type-only).
fn npm_module(id: u32, path: &str, npm_packages: &[(&str, bool)]) -> ResolvedModule {
    let resolved_imports: Vec<ResolvedImport> = npm_packages
        .iter()
        .enumerate()
        .map(|(i, (name, is_type_only))| ResolvedImport {
            info: ImportInfo {
                source: name.to_string(),
                imported_name: ImportedName::Named("default".to_string()),
                local_name: format!("import_{i}"),
                is_type_only: *is_type_only,
                span: Span::new((i * 20) as u32, (i * 20 + 15) as u32),
            },
            target: ResolveResult::NpmPackage(name.to_string()),
        })
        .collect();
    ResolvedModule {
        file_id: FileId(id),
        path: path.to_string(),
        exports: vec![],
        re_exports: vec![],
        resolved_imports,
        resolved_dynamic_imports: vec![],
        member_accesses: vec![],
        whole_object_uses: vec![],
        has_cjs_exports: false,
    }
}

fn build_graph_with_npm_imports(npm_packages: &[(&str, bool)]) -> ModuleGraph {
    let files = vec![DiscoveredFile { id: FileId(0), path: "/project/src/index.ts".to_string(), size_bytes: 100 }];
    let entry_points =
        vec![EntryPoint { path: "/project/src/index.ts".to_string(), source: EntryPointSource::PackageJsonMain }];
    let resolved_modules = vec![npm_module(0, "/project/src/index.ts", npm_packages)];
    ModuleGraph::build(&resolved_modules, &entry_points, &files)
}

/// The root manifest of `/project` with the given sections.
fn make_pkg(deps: &[&str], dev_deps: &[&str], optional_deps: &[&str]) -> Manifest {
    Manifest {
        path: "/project/package.json".to_string(),
        content: None,
        deps: DependencyLists { production: strings(deps), dev: strings(dev_deps), optional: strings(optional_deps) },
    }
}

/// The analysis context for a graph, with the tooling packages that the
/// plugin registry knows by default.
fn context(graph: &ModuleGraph) -> DependencyContext {
    DependencyContext {
        used_packages: graph.package_usage.iter().map(|(name, _)| name.clone()).collect(),
        script_used: vec![],
        plugin_referenced: vec![],
        plugin_tooling: vec![],
        ignore_deps: vec![],
        workspace_names: vec![],
        known_tooling: strings(&["jest", "vitest"]),
    }
}

fn has(list: &[UnusedDependency], name: &str) -> bool {
    list.iter().any(|d| d.package_name == name)
}

#[test]
fn unused_dep_flagged_when_never_imported() {
    let graph = build_graph_with_npm_imports(&[("react", false)]);
    let pkg = make_pkg(&["react", "lodash"], &[], &[]);
    let (unused, unused_dev, unused_optional) = find_unused_dependencies(&context(&graph), &pkg, &vec![]);
    assert!(has(&unused, "lodash"), "lodash is never imported and should be flagged");
    assert!(!has(&unused, "react"), "react is imported and should NOT be flagged");
    assert!(unused_dev.is_empty());
    assert!(unused_optional.is_empty());
}

#[test]
fn unused_dev_dep_flagged_when_never_imported() {
    let graph = build_graph_with_npm_imports(&[]);
    let pkg = make_pkg(&[], &["jest", "vitest"], &[]);
    let (unused, unused_dev, _) = find_unused_dependencies(&context(&graph), &pkg, &vec![]);
    assert!(unused.is_empty());
    assert!(!has(&unused_dev, "jest"), "jest is a known tooling dep and should be filtered");
    assert!(!has(&unused_dev, "vitest"), "vitest is a known tooling dep and should be filtered");
}

#[test]
fn unused_dev_dep_non_tooling_is_flagged() {
    let graph = build_graph_with_npm_imports(&[]);
    let pkg = make_pkg(&[], &["my-custom-lib"], &[]);
    let (_, unused_dev, _) = find_unused_dependencies(&context(&graph), &pkg, &vec![]);
    assert!(has(&unused_dev, "my-custom-lib"), "non-tooling dev dep should be flagged as unused");
}

#[test]
fn unused_optional_dep_flagged_when_never_imported() {
    let graph = build_graph_with_npm_imports(&[]);
    let pkg = make_pkg(&[], &[], &["sharp"]);
    let (_, _, unused_optional) = find_unused_dependencies(&context(&graph), &pkg, &vec![]);
    assert!(has(&unused_optional, "sharp"), "unused optional dep should be flagged");
}

#[test]
fn implicit_deps_not_flagged_as_unused() {
    let graph = build_graph_with_npm_imports(&[]);
    let pkg = make_pkg(&["react-dom", "@types/node"], &[], &[]);
    let (unused, _, _) = find_unused_dependencies(&context(&graph), &pkg, &vec![]);
    assert!(!has(&unused, "react-dom"), "react-dom is implicit and should not be flagged");
    assert!(!has(&unused, "@types/node"), "@types/node is implicit and should not be flagged");
}

#[test]
fn workspace_package_names_not_flagged() {
    let graph = build_graph_with_npm_imports(&[]);
    let pkg = make_pkg(&["@myorg/shared"], &[], &[]);
    let mut ctx = context(&graph);
    ctx.workspace_names = strings(&["@myorg/shared"]);
    let (unused, _, _) = find_unused_dependencies(&ctx, &pkg, &vec![]);
    assert!(!has(&unused, "@myorg/shared"), "workspace packages should not be flagged as unused");
}

#[test]
fn ignore_dependencies_config_filters_deps() {
    let graph = build_graph_with_npm_imports(&[]);
    let pkg = make_pkg(&["my-internal-pkg"], &[], &[]);
    let mut ctx = context(&graph);
    ctx.ignore_deps = strings(&["my-internal-pkg"]);
    let (unused, _, _) = find_unused_dependencies(&ctx, &pkg, &vec![]);
    assert!(!has(&unused, "my-internal-pkg"), "deps in ignoreDependencies should not be flagged");
}

#[test]
fn plugin_referenced_deps_not_flagged() {
    let graph = build_graph_with_npm_imports(&[]);
    let pkg = make_pkg(&["tailwindcss"], &[], &[]);
    let mut ctx = context(&graph);
    ctx.plugin_referenced = strings(&["tailwindcss"]);
    let (unused, _, _) = find_unused_dependencies(&ctx, &pkg, &vec![]);
    assert!(!has(&unused, "tailwindcss"), "plugin-referenced deps should not be flagged");
}

#[test]
fn plugin_tooling_deps_not_flagged() {
    let graph = build_graph_with_npm_imports(&[]);
    let pkg = make_pkg(&["my-framework-runtime"], &[], &[]);
    let mut ctx = context(&graph);
    ctx.plugin_tooling = strings(&["my-framework-runtime"]);
    let (unused, _, _) = find_unused_dependencies(&ctx, &pkg, &vec![]);
    assert!(!has(&unused, "my-framework-runtime"), "plugin tooling deps should not be flagged");
}

#[test]
fn script_used_packages_not_flagged() {
    let graph = build_graph_with_npm_imports(&[]);
    let pkg = make_pkg(&["concurrently"], &[], &[]);
    let mut ctx = context(&graph);
    ctx.script_used = strings(&["concurrently"]);
    let (unused, _, _) = find_unused_dependencies(&ctx, &pkg, &vec![]);
    assert!(!has(&unused, "concurrently"), "packages used in scripts should not be flagged");
}

#[test]
fn unused_dep_location_is_correct() {
    let graph = build_graph_with_npm_imports(&[]);
    let pkg = make_pkg(&["unused-dep"], &["unused-dev"], &["unused-opt"]);
    let (unused, unused_dev, unused_optional) = find_unused_dependencies(&context(&graph), &pkg, &vec![]);
    assert!(unused
        .iter()
        .any(|d| d.package_name == "unused-dep" && matches!(d.location, DependencyLocation::Dependencies)));
    assert!(unused_dev
        .iter()
        .any(|d| d.package_name == "unused-dev" && matches!(d.location, DependencyLocation::DevDependencies)));
    assert!(unused_optional
        .iter()
        .any(|d| d.package_name == "unused-opt" && matches!(d.location, DependencyLocation::OptionalDependencies)));
}

#[test]
fn scoped_package_subpath_import_recognized_as_used() {
    let graph = build_graph_with_npm_imports(&[("@chakra-ui/react", false)]);
    let pkg = make_pkg(&["@chakra-ui/react"], &[], &[]);
    let (unused, _, _) = find_unused_dependencies(&context(&graph), &pkg, &vec![]);
    assert!(unused.is_empty(), "@chakra-ui/react should be recognized as used via subpath import");
}

#[test]
fn optional_dep_in_peer_deps_also_counts() {
    let graph = build_graph_with_npm_imports(&[("sharp", false)]);
    let pkg = make_pkg(&[], &[], &["sharp"]);
    let (_, _, unused_optional) = find_unused_dependencies(&context(&graph), &pkg, &vec![]);
    assert!(unused_optional.is_empty(), "optional dep that is imported should not be flagged as unused");
}

#[test]
fn no_deps_produces_no_unused() {
    let graph = build_graph_with_npm_imports(&[]);
    let pkg = make_pkg(&[], &[], &[]);
    let (unused, unused_dev, unused_optional) = find_unused_dependencies(&context(&graph), &pkg, &vec![]);
    assert!(unused.is_empty());
    assert!(unused_dev.is_empty());
    assert!(unused_optional.is_empty());
}

#[test]
fn no_imports_flags_all_non_implicit_deps() {
    let graph = build_graph_with_npm_imports(&[]);
    let pkg = make_pkg(&["lodash", "axios"], &[], &[]);
    let (unused, _, _) = find_unused_dependencies(&context(&graph), &pkg, &vec![]);
    assert!(has(&unused, "lodash"));
    assert!(has(&unused, "axios"));
}

// ---- behaviour beyond the single-package cases ----

#[test]
fn reported_line_comes_from_manifest_content() {
    let graph = build_graph_with_npm_imports(&[]);
    let mut pkg = make_pkg(&["lodash"], &[], &[]);
    pkg.content = Some("{\n  \"dependencies\": {\n    \"lodash\": \"^4\"\n  }\n}".to_string());
    let (unused, _, _) = find_unused_dependencies(&context(&graph), &pkg, &vec![]);
    assert_eq!(unused.len(), 1);
    assert_eq!(unused[0].line, 3);
    assert_eq!(unused[0].path, "/project/package.json");
}

#[test]
fn reported_line_is_one_without_content() {
    let graph = build_graph_with_npm_imports(&[]);
    let pkg = make_pkg(&["lodash"], &[], &[]);
    let (unused, _, _) = find_unused_dependencies(&context(&graph), &pkg, &vec![]);
    assert_eq!(unused[0].line, 1);
}

#[test]
fn root_flagged_dep_not_reported_again_in_workspace() {
    let graph = build_graph_with_npm_imports(&[]);
    let pkg = make_pkg(&["lodash"], &[], &[]);
    let ws = WorkspaceManifest {
        manifest: Manifest {
            path: "/project/packages/a/package.json".to_string(),
            content: None,
            deps: DependencyLists { production: strings(&["lodash", "left-pad"]), dev: vec![], optional: vec![] },
        },
        used_in_workspace: vec![],
    };
    let (unused, _, _) = find_unused_dependencies(&context(&graph), &pkg, &vec![ws]);
    let names: Vec<(&str, &str)> = unused.iter().map(|d| (d.package_name.as_str(), d.path.as_str())).collect();
    assert_eq!(names, vec![("lodash", "/project/package.json"), ("left-pad", "/project/packages/a/package.json")]);
}

#[test]
fn workspace_dep_used_by_its_files_not_reported() {
    let graph = build_graph_with_npm_imports(&[]);
    let pkg = make_pkg(&[], &[], &[]);
    let ws = WorkspaceManifest {
        manifest: Manifest {
            path: "/project/packages/a/package.json".to_string(),
            content: None,
            deps: DependencyLists { production: strings(&["zod", "yup"]), dev: vec![], optional: vec![] },
        },
        used_in_workspace: strings(&["zod"]),
    };
    let (unused, _, _) = find_unused_dependencies(&context(&graph), &pkg, &vec![ws]);
    assert_eq!(unused.len(), 1);
    assert_eq!(unused[0].package_name, "yup");
}

// ---- type-only dependencies ----

#[test]
fn type_only_dep_detected_when_all_imports_are_type_only() {
    let modules = vec![npm_module(0, "/project/src/index.ts", &[("zod", true)])];
    let type_only = find_type_only_dependencies(&modules, &make_pkg(&["zod"], &[], &[]), &vec![], &vec![]);
    assert!(
        type_only.iter().any(|d| d.package_name == "zod"),
        "dep used only via `import type` should be flagged as type-only"
    );
}

#[test]
fn type_only_dep_not_detected_when_runtime_import_exists() {
    let modules = vec![
        npm_module(0, "/project/src/index.ts", &[("zod", true)]),
        npm_module(1, "/project/src/other.ts", &[("zod", false)]),
    ];
    let type_only = find_type_only_dependencies(&modules, &make_pkg(&["zod"], &[], &[]), &vec![], &vec![]);
    assert!(type_only.is_empty(), "dep with mixed type-only and runtime imports should NOT be flagged");
}

#[test]
fn type_only_dep_not_detected_when_unused() {
    let modules = vec![npm_module(0, "/project/src/index.ts", &[])];
    let type_only = find_type_only_dependencies(&modules, &make_pkg(&["zod"], &[], &[]), &vec![], &vec![]);
    assert!(type_only.is_empty(), "completely unused deps should not appear in type_only results");
}

#[test]
fn type_only_dep_skips_workspace_packages() {
    let modules = vec![npm_module(0, "/project/src/index.ts", &[("@myorg/types", true)])];
    let type_only = find_type_only_dependencies(
        &modules,
        &make_pkg(&["@myorg/types"], &[], &[]),
        &vec![],
        &strings(&["@myorg/types"]),
    );
    assert!(type_only.is_empty(), "workspace packages should not be flagged as type-only deps");
}

#[test]
fn type_only_dep_skips_ignored_deps() {
    let modules = vec![npm_module(0, "/project/src/index.ts", &[("zod", true)])];
    let type_only = find_type_only_dependencies(&modules, &make_pkg(&["zod"], &[], &[]), &strings(&["zod"]), &vec![]);
    assert!(type_only.is_empty(), "ignored deps should not be flagged as type-only");
}

#[test]
fn type_only_report_points_at_package_json_line() {
    let modules = vec![npm_module(0, "/project/src/index.ts", &[("zod", true), ("react", false)])];
    let mut pkg = make_pkg(&["react", "zod"], &[], &[]);
    pkg.content = Some("{\n  \"dependencies\": {\n    \"react\": \"18\",\n    \"zod\": \"3\"\n  }\n}".to_string());
    let type_only = find_type_only_dependencies(&modules, &pkg, &vec![], &vec![]);
    assert_eq!(type_only.len(), 1);
    assert_eq!(type_only[0].package_name, "zod");
    assert_eq!(type_only[0].path, "/project/package.json");
    assert_eq!(type_only[0].line, 4);
}

#[test]
fn type_only_dependency_is_not_also_unused() {
    let modules = vec![npm_module(0, "/project/src/index.ts", &[("zod", true)])];
    let pkg = make_pkg(&["zod"], &[], &[]);
    let type_only = find_type_only_dependencies(&modules, &pkg, &vec![], &vec![]);
    assert_eq!(type_only.len(), 1);
    let ctx = DependencyContext { used_packages: strings(&["zod"]), ..DependencyContext::default() };
    let (deps, _, _) = find_unused_dependencies(&ctx, &pkg, &vec![]);
    assert!(!has(&deps, "zod"));
}

#[test]
fn built_in_tooling_dev_deps_not_flagged() {
    let graph = build_graph_with_npm_imports(&[]);
    let mut ctx = context(&graph);
    ctx.known_tooling = vec![];
    let pkg = make_pkg(&["typescript"], &["typescript", "@types/node", "eslint-plugin-x", "left-pad"], &[]);
    let (unused, unused_dev, _) = find_unused_dependencies(&ctx, &pkg, &vec![]);
    // the built-in tooling list applies to development dependencies only
    assert!(has(&unused, "typescript"));
    assert!(!has(&unused_dev, "typescript"));
    assert!(!has(&unused_dev, "@types/node"));
    assert!(!has(&unused_dev, "eslint-plugin-x"));
    assert!(has(&unused_dev, "left-pad"));
}
