use fallow::analysis::{
    byte_offset_to_line_col, choose_sites, find_dead_code, find_dead_code_with_resolved, find_duplicate_exports,
    find_unlisted_dependencies, find_unresolved_imports, find_unused_exports, find_unused_files, find_unused_members,
    is_export_ignored, is_suppressed, line_col, AnalysisConfig, DetectConfig, FrameworkRule, FrameworkUsedExports,
    IgnoreExportRule, ImportSite, IssueKind, Suppression, WorkspaceDependencies,
};
use fallow::discover::{DiscoveredFile, EntryPoint, EntryPointSource, FileId};
use fallow::extract::{ExportInfo, ExportName, ImportInfo, ImportedName, MemberAccess, MemberInfo, MemberKind, Span};
use fallow::graph::ModuleGraph;
use fallow::analyze;
use fallow::resolve::{ResolveResult, ResolvedImport, ResolvedModule};

fn import(source: &str, name: ImportedName, local: &str, start: u32, target: ResolveResult) -> ResolvedImport {
    ResolvedImport {
        info: ImportInfo {
            source: source.to_string(),
            imported_name: name,
            local_name: local.to_string(),
            is_type_only: false,
            span: Span::new(start, start + 15),
        },
        target,
    }
}

fn module(id: u32, path: &str, exports: Vec<ExportInfo>, imports: Vec<ResolvedImport>) -> ResolvedModule {
    ResolvedModule {
        file_id: FileId(id),
        path: path.to_string(),
        exports,
        re_exports: vec![],
        resolved_imports: imports,
        resolved_dynamic_imports: vec![],
        member_accesses: vec![],
        whole_object_uses: vec![],
        has_cjs_exports: false,
    }
}

fn export(name: &str, start: u32, type_only: bool, members: Vec<MemberInfo>) -> ExportInfo {
    ExportInfo {
        name: ExportName::Named(name.to_string()),
        local_name: Some(name.to_string()),
        is_type_only: type_only,
        span: Span::new(start, start + 10),
        members,
        super_class: None,
    }
}

fn member(name: &str, kind: MemberKind, start: u32) -> MemberInfo {
    MemberInfo { name: name.to_string(), kind, span: Span::new(start, start + 5), has_decorator: false }
}

fn build(modules: &[ResolvedModule], entry: &str) -> ModuleGraph {
    let files: Vec<DiscoveredFile> = modules
        .iter()
        .map(|m| DiscoveredFile { id: m.file_id, path: m.path.clone(), size_bytes: 100 })
        .collect();
    let entry_points = vec![EntryPoint { path: entry.to_string(), source: EntryPointSource::PackageJsonMain }];
    ModuleGraph::build(&modules.to_vec(), &entry_points, &files)
}

/// One entry file importing the given npm packages.
fn build_graph_with_npm_imports(npm_packages: &[&str]) -> (ModuleGraph, Vec<ResolvedModule>) {
    let imports = npm_packages
        .iter()
        .enumerate()
        .map(|(i, name)| {
            import(name, ImportedName::Named("default".to_string()), &format!("import_{i}"), (i * 20) as u32, ResolveResult::NpmPackage(name.to_string()))
        })
        .collect();
    let modules = vec![module(0, "/project/src/index.ts", vec![], imports)];
    (build(&modules, "/project/src/index.ts"), modules)
}

fn config() -> AnalysisConfig {
    AnalysisConfig {
        root: "/project".to_string(),
        entry_patterns: vec![],
        detect: DetectConfig {
            unused_files: true,
            unused_exports: true,
            unused_types: true,
            unused_enum_members: true,
            unused_class_members: true,
            unused_dependencies: true,
            unused_dev_dependencies: true,
            unused_optional_dependencies: true,
            unlisted_dependencies: true,
            unresolved_imports: true,
            duplicate_exports: true,
        },
        ignore_export_rules: vec![],
        framework_rules: vec![],
        used_class_members: vec![],
    }
}

fn strings(names: &[&str]) -> Vec<String> {
    names.iter().map(|n| n.to_string()).collect()
}

fn unlisted_names(graph: &ModuleGraph, listed: &[&str], workspaces: &[WorkspaceDependencies], tooling: &[&str], prefixes: &[&str], rms: &Vec<ResolvedModule>) -> Vec<String> {
    find_unlisted_dependencies(graph, &strings(listed), &workspaces.to_vec(), &strings(tooling), &strings(prefixes), rms, &vec![])
        .into_iter()
        .map(|d| d.package_name)
        .collect()
}

// ---- unlisted dependencies ----

#[test]
fn unlisted_dep_detected_when_not_in_package_json() {
    let (graph, rms) = build_graph_with_npm_imports(&["axios"]);
    let unlisted = unlisted_names(&graph, &["react"], &[], &[], &[], &rms);
    assert!(unlisted.iter().any(|d| d == "axios"), "axios is imported but not listed, should be unlisted");
}

#[test]
fn listed_dep_not_reported_as_unlisted() {
    let (graph, rms) = build_graph_with_npm_imports(&["react"]);
    assert!(unlisted_names(&graph, &["react"], &[], &[], &[], &rms).is_empty());
}

#[test]
fn dev_dep_not_reported_as_unlisted() {
    // every section of package.json counts as listing the package
    let (graph, rms) = build_graph_with_npm_imports(&["jest"]);
    assert!(unlisted_names(&graph, &["jest"], &[], &[], &[], &rms).is_empty());
}

#[test]
fn builtin_modules_not_reported_as_unlisted() {
    let (graph, rms) = build_graph_with_npm_imports(&["node:fs"]);
    let unlisted = unlisted_names(&graph, &[], &[], &[], &[], &rms);
    assert!(!unlisted.iter().any(|d| d == "node:fs"), "node:fs builtin should not be flagged as unlisted");
}

#[test]
fn virtual_modules_not_reported_as_unlisted() {
    let (graph, rms) = build_graph_with_npm_imports(&["virtual:pwa-register"]);
    assert!(unlisted_names(&graph, &[], &[], &[], &[], &rms).is_empty(), "virtual: modules should not be flagged as unlisted");
}

#[test]
fn workspace_package_names_not_reported_as_unlisted() {
    let (graph, rms) = build_graph_with_npm_imports(&["@myorg/utils"]);
    let ws = vec![WorkspaceDependencies {
        name: "@myorg/utils".to_string(),
        root: "/project/packages/utils".to_string(),
        dependency_names: None,
    }];
    let unlisted = unlisted_names(&graph, &[], &ws, &[], &[], &rms);
    assert!(!unlisted.iter().any(|d| d == "@myorg/utils"), "workspace package names should not be flagged as unlisted");
}

#[test]
fn plugin_virtual_prefixes_not_reported_as_unlisted() {
    let (graph, rms) = build_graph_with_npm_imports(&["@theme/Layout"]);
    let unlisted = unlisted_names(&graph, &[], &[], &[], &["@theme/"], &rms);
    assert!(!unlisted.iter().any(|d| d == "@theme/Layout"), "imports matching virtual module prefixes should not be unlisted");
}

#[test]
fn plugin_tooling_deps_not_reported_as_unlisted() {
    let (graph, rms) = build_graph_with_npm_imports(&["h3"]);
    let unlisted = unlisted_names(&graph, &[], &[], &["h3"], &[], &rms);
    assert!(!unlisted.iter().any(|d| d == "h3"), "plugin tooling deps should not be flagged as unlisted");
}

#[test]
fn peer_dep_not_reported_as_unlisted() {
    // react is listed as a peer dependency only
    let (graph, rms) = build_graph_with_npm_imports(&["react"]);
    assert!(unlisted_names(&graph, &["react"], &[], &[], &[], &rms).is_empty());
}

#[test]
fn unlisted_dep_has_import_sites() {
    let (graph, rms) = build_graph_with_npm_imports(&["unlisted-pkg"]);
    let unlisted = find_unlisted_dependencies(&graph, &vec![], &vec![], &vec![], &vec![], &rms, &vec![]);
    assert_eq!(unlisted.len(), 1);
    assert_eq!(unlisted[0].package_name, "unlisted-pkg");
    assert!(!unlisted[0].imported_from.is_empty(), "unlisted dep should have at least one import site");
    assert_eq!(unlisted[0].imported_from[0].path, "/project/src/index.ts");
}

#[test]
fn path_alias_imports_not_reported_as_unlisted() {
    let (graph, rms) = build_graph_with_npm_imports(&["@/components/Button", "~/utils/helper"]);
    assert!(unlisted_names(&graph, &[], &[], &[], &[], &rms).is_empty(), "path aliases should never be flagged as unlisted dependencies");
}

#[test]
fn package_listed_by_a_workspace_not_reported() {
    let (graph, rms) = build_graph_with_npm_imports(&["zod"]);
    let ws = vec![WorkspaceDependencies {
        name: "web".to_string(),
        root: "/project/packages/web".to_string(),
        dependency_names: Some(strings(&["zod"])),
    }];
    assert!(unlisted_names(&graph, &[], &ws, &[], &[], &rms).is_empty());
}

#[test]
fn unlisted_sites_sorted_by_path_with_line_and_column() {
    let modules = vec![
        module(0, "/project/src/z.ts", vec![], vec![
            import("./b", ImportedName::SideEffect, "", 0, ResolveResult::InternalModule(FileId(1))),
            import("left-pad", ImportedName::Default, "pad", 12, ResolveResult::NpmPackage("left-pad".to_string())),
        ]),
        module(1, "/project/src/b.ts", vec![], vec![import("left-pad", ImportedName::Default, "pad", 3, ResolveResult::NpmPackage("left-pad".to_string()))]),
    ];
    let graph = build(&modules, "/project/src/z.ts");
    let offsets = vec![(FileId(0), vec![0, 10, 30])];
    let unlisted = find_unlisted_dependencies(&graph, &vec![], &vec![], &vec![], &vec![], &modules, &offsets);
    assert_eq!(unlisted.len(), 1);
    let sites: Vec<(&str, u32, u32)> = unlisted[0].imported_from.iter().map(|s| (s.path.as_str(), s.line, s.col)).collect();
    // b.ts has no line table: line 1, column = offset
    assert_eq!(sites, vec![("/project/src/b.ts", 1, 3), ("/project/src/z.ts", 2, 2)]);
}

// ---- unresolved imports ----

fn one_import_module(source: &str, start: u32, target: ResolveResult) -> Vec<ResolvedModule> {
    vec![module(0, "/project/src/index.ts", vec![], vec![import(source, ImportedName::Named("x".to_string()), "x", start, target)])]
}

#[test]
fn unresolved_import_detected() {
    let rms = one_import_module("./missing-file", 0, ResolveResult::Unresolvable("./missing-file".to_string()));
    let unresolved = find_unresolved_imports(&rms, &vec![], &vec![], &vec![]);
    assert_eq!(unresolved.len(), 1);
    assert_eq!(unresolved[0].specifier, "./missing-file");
}

#[test]
fn unresolved_virtual_module_not_reported() {
    let rms = one_import_module("virtual:generated-pages", 0, ResolveResult::Unresolvable("virtual:generated-pages".to_string()));
    assert!(find_unresolved_imports(&rms, &vec![], &vec![], &vec![]).is_empty(), "virtual: module imports should not be flagged as unresolved");
}

#[test]
fn unresolved_import_with_virtual_prefix_not_reported() {
    let rms = one_import_module("#imports", 0, ResolveResult::Unresolvable("#imports".to_string()));
    let unresolved = find_unresolved_imports(&rms, &vec![], &strings(&["#"]), &vec![]);
    assert!(unresolved.is_empty(), "imports matching virtual_prefixes should not be flagged as unresolved");
}

#[test]
fn unresolved_import_suppressed_by_inline_comment() {
    let rms = one_import_module("./broken", 0, ResolveResult::Unresolvable("./broken".to_string()));
    let supps = vec![(FileId(0), vec![Suppression { line: 1, kind: Some(IssueKind::UnresolvedImport) }])];
    assert!(find_unresolved_imports(&rms, &supps, &vec![], &vec![]).is_empty(), "suppressed unresolved import should not be reported");
}

#[test]
fn unresolved_import_file_level_suppression() {
    let rms = one_import_module("./nonexistent", 0, ResolveResult::Unresolvable("./nonexistent".to_string()));
    let supps = vec![(FileId(0), vec![Suppression { line: 0, kind: Some(IssueKind::UnresolvedImport) }])];
    assert!(find_unresolved_imports(&rms, &supps, &vec![], &vec![]).is_empty(), "file-level suppression should suppress all unresolved imports in the file");
}

#[test]
fn suppression_of_other_kind_or_line_does_not_apply() {
    let rms = one_import_module("./broken", 40, ResolveResult::Unresolvable("./broken".to_string()));
    let offsets = vec![(FileId(0), vec![0, 20, 35])];
    let supps = vec![(FileId(0), vec![
        Suppression { line: 3, kind: Some(IssueKind::UnusedExport) },
        Suppression { line: 2, kind: None },
    ])];
    let unresolved = find_unresolved_imports(&rms, &supps, &vec![], &offsets);
    assert_eq!(unresolved.len(), 1);
    assert_eq!((unresolved[0].line, unresolved[0].col), (3, 5));
}

#[test]
fn resolved_import_not_reported_as_unresolved() {
    let rms = vec![module(0, "/project/src/index.ts", vec![], vec![
        import("react", ImportedName::Named("useState".to_string()), "useState", 0, ResolveResult::NpmPackage("react".to_string())),
        import("./utils", ImportedName::Named("helper".to_string()), "helper", 25, ResolveResult::InternalModule(FileId(1))),
    ])];
    assert!(find_unresolved_imports(&rms, &vec![], &vec![], &vec![]).is_empty(), "resolved imports should never appear as unresolved");
}

#[test]
fn multiple_unresolved_imports_collected() {
    let rms = vec![module(0, "/project/src/index.ts", vec![], vec![
        import("./missing-a", ImportedName::Named("a".to_string()), "a", 0, ResolveResult::Unresolvable("./missing-a".to_string())),
        import("./missing-b", ImportedName::Named("b".to_string()), "b", 25, ResolveResult::Unresolvable("./missing-b".to_string())),
    ])];
    let unresolved = find_unresolved_imports(&rms, &vec![], &vec![], &vec![]);
    assert_eq!(unresolved.len(), 2);
    assert!(unresolved.iter().any(|u| u.specifier == "./missing-a"));
    assert!(unresolved.iter().any(|u| u.specifier == "./missing-b"));
}

// ---- positions ----

#[test]
fn line_col_from_line_starts() {
    let starts = vec![0, 10, 25];
    assert_eq!(line_col(&starts, 0), (1, 0));
    assert_eq!(line_col(&starts, 9), (1, 9));
    assert_eq!(line_col(&starts, 10), (2, 0));
    assert_eq!(line_col(&starts, 30), (3, 5));
    let table = vec![(FileId(4), starts)];
    assert_eq!(byte_offset_to_line_col(&table, FileId(4), 12), (2, 2));
    assert_eq!(byte_offset_to_line_col(&table, FileId(5), 12), (1, 12));
}

#[test]
fn suppression_kinds() {
    let supps = vec![Suppression { line: 7, kind: Some(IssueKind::UnusedExport) }];
    assert!(is_suppressed(&supps, 7, IssueKind::UnusedExport));
    assert!(!is_suppressed(&supps, 8, IssueKind::UnusedExport));
    assert!(!is_suppressed(&supps, 7, IssueKind::UnusedFile));
}

#[test]
fn choose_sites_keeps_first_lowest_line_per_file() {
    let site = |p: &str, line: u32, col: u32| ImportSite { path: p.to_string(), line, col };
    let raw = vec![site("/p/b.ts", 5, 1), site("/p/a.ts", 9, 0), site("/p/b.ts", 2, 7), site("/p/b.ts", 2, 9), site("/p/a-b.ts", 1, 0)];
    let out: Vec<(String, u32, u32)> = choose_sites(&raw).into_iter().map(|s| (s.path, s.line, s.col)).collect();
    // after "/p/a", '-' sorts before '.'
    assert_eq!(out, vec![
        ("/p/a-b.ts".to_string(), 1, 0),
        ("/p/a.ts".to_string(), 9, 0),
        ("/p/b.ts".to_string(), 2, 7),
    ]);
}

#[test]
fn choose_sites_orders_by_path_components() {
    let site = |p: &str| ImportSite { path: p.to_string(), line: 1, col: 0 };
    let out: Vec<String> = choose_sites(&vec![site("/p/a-c.ts"), site("/p/a/b.ts")]).into_iter().map(|s| s.path).collect();
    // the component "a" sorts before "a-c.ts"
    assert_eq!(out, vec!["/p/a/b.ts".to_string(), "/p/a-c.ts".to_string()]);
}

// ---- unused files, exports, members, duplicates ----

fn sample() -> (ModuleGraph, Vec<ResolvedModule>) {
    let modules = vec![
        module(0, "/project/src/index.ts", vec![], vec![
            import("./utils", ImportedName::Named("used".to_string()), "used", 0, ResolveResult::InternalModule(FileId(1))),
            import("./enums", ImportedName::Named("Color".to_string()), "C", 20, ResolveResult::InternalModule(FileId(2))),
        ]),
        module(1, "/project/src/utils.ts", vec![export("used", 0, false, vec![]), export("unused", 20, false, vec![]), export("Props", 40, true, vec![])], vec![]),
        module(2, "/project/src/enums.ts", vec![
            export("Color", 0, false, vec![member("Red", MemberKind::EnumMember, 5), member("Blue", MemberKind::EnumMember, 9)]),
            export("used", 30, false, vec![]),
        ], vec![]),
        module(3, "/project/src/orphan.ts", vec![export("used", 0, false, vec![])], vec![]),
    ];
    let mut rms = modules.clone();
    rms[0].member_accesses = vec![MemberAccess { object: "C".to_string(), member: "Red".to_string() }];
    (build(&modules, "/project/src/index.ts"), rms)
}

#[test]
fn unreachable_file_is_unused() {
    let (graph, _) = sample();
    let files: Vec<String> = find_unused_files(&graph).into_iter().map(|f| f.path).collect();
    assert_eq!(files, vec!["/project/src/orphan.ts".to_string()]);
}

#[test]
fn unreferenced_exports_split_by_kind() {
    let (graph, _) = sample();
    let (exports, types) = find_unused_exports(&graph, &config());
    let names: Vec<(&str, &str, u32)> = exports.iter().map(|e| (e.path.as_str(), e.export_name.as_str(), e.line)).collect();
    assert_eq!(names, vec![("/project/src/utils.ts", "unused", 20), ("/project/src/enums.ts", "used", 30)]);
    assert_eq!(types.len(), 1);
    assert_eq!(types[0].export_name, "Props");
    assert!(types[0].is_type_only);
}

#[test]
fn ignore_and_framework_rules_keep_exports() {
    let (graph, _) = sample();
    let mut cfg = config();
    cfg.ignore_export_rules = vec![IgnoreExportRule { file: "src/utils.ts".to_string(), exports: strings(&["*"]) }];
    cfg.framework_rules = vec![FrameworkRule {
        name: "next".to_string(),
        detection: None,
        entry_points: vec![],
        always_used: vec![],
        used_exports: vec![FrameworkUsedExports { file_pattern: "src/enums.ts".to_string(), exports: strings(&["used"]) }],
    }];
    let (exports, types) = find_unused_exports(&graph, &cfg);
    assert!(exports.is_empty());
    assert!(types.is_empty());
    assert!(is_export_ignored(&cfg, "src/utils.ts", &ExportName::Default));
    assert!(!is_export_ignored(&cfg, "src/other.ts", &ExportName::Default));
}

#[test]
fn members_accessed_through_local_alias_are_used() {
    let (graph, rms) = sample();
    let (enums, classes) = find_unused_members(&graph, &rms, &vec![], &vec![], &vec![]);
    let names: Vec<(&str, &str, &str)> = enums.iter().map(|m| (m.parent_name.as_str(), m.member_name.as_str(), m.kind.as_str())).collect();
    assert_eq!(names, vec![("Color", "Blue", "enum_member")]);
    // no line starts are recorded for the file: line 1, the offset as column
    assert_eq!((enums[0].line, enums[0].col), (1, 9));
    assert!(classes.is_empty());
}

#[test]
fn duplicate_exports_across_reachable_files() {
    let (graph, _) = sample();
    let dups = find_duplicate_exports(&graph);
    assert_eq!(dups.len(), 1);
    assert_eq!(dups[0].export_name, "used");
    // the orphan is unreachable, the entry point is skipped
    assert_eq!(dups[0].locations, vec!["/project/src/utils.ts".to_string(), "/project/src/enums.ts".to_string()]);
}

#[test]
fn dead_code_honours_detect_flags() {
    let (graph, rms) = sample();
    let mut cfg = config();
    cfg.detect.unused_exports = false;
    cfg.detect.duplicate_exports = false;
    let results = find_dead_code_with_resolved(&graph, &cfg, &rms, &None, &vec![], &vec![], &vec![]);
    assert_eq!(results.unused_files.len(), 1);
    assert!(results.unused_exports.is_empty());
    assert_eq!(results.unused_types.len(), 1);
    assert_eq!(results.unused_enum_members.len(), 1);
    assert!(results.duplicate_exports.is_empty());
    assert!(results.unused_dependencies.is_empty());
    let without_resolved = find_dead_code(&graph, &cfg, &None);
    // without member accesses both enum members are unused
    assert_eq!(without_resolved.unused_enum_members.len(), 2);
    assert!(without_resolved.unresolved_imports.is_empty());
}

#[test]
fn analyze_runs_entry_discovery_graph_and_dead_code() {
    let modules = vec![
        module(
            0,
            "/project/src/index.ts",
            vec![],
            vec![import("./used", ImportedName::Named("used".to_string()), "used", 0, ResolveResult::InternalModule(FileId(1)))],
        ),
        module(1, "/project/src/used.ts", vec![export("used", 0, false, vec![]), export("spare", 30, false, vec![])], vec![]),
        module(2, "/project/src/dead.ts", vec![export("gone", 0, false, vec![])], vec![]),
    ];
    let files: Vec<DiscoveredFile> = modules
        .iter()
        .map(|m| DiscoveredFile { id: m.file_id, path: m.path.clone(), size_bytes: 100 })
        .collect();
    let mut cfg = config();
    cfg.entry_patterns = vec!["src/index.ts".to_string()];
    let results = analyze(&cfg, &files, &modules, &None, &vec![], &None, &vec![], &vec![], &vec![]);
    let unused: Vec<&str> = results.unused_files.iter().map(|f| f.path.as_str()).collect();
    assert_eq!(unused, vec!["/project/src/dead.ts"]);
    assert!(results.unused_exports.iter().any(|e| e.export_name == "spare"));
    assert!(!results.unused_exports.iter().any(|e| e.export_name == "used"));
}
