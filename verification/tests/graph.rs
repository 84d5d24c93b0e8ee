use fallow::extract::{ExportName, ImportedName, export_matches};

    #[test]
    fn export_matches_named_same() {
        assert!(export_matches(
            &ExportName::Named("foo".to_string()),
            &ImportedName::Named("foo".to_string())
        ));
    }

    #[test]
    fn export_matches_named_different() {
        assert!(!export_matches(
            &ExportName::Named("foo".to_string()),
            &ImportedName::Named("bar".to_string())
        ));
    }

    #[test]
    fn export_matches_default() {
        assert!(export_matches(&ExportName::Default, &ImportedName::Default));
    }

    #[test]
    fn export_matches_named_vs_default() {
        assert!(!export_matches(
            &ExportName::Named("foo".to_string()),
            &ImportedName::Default
        ));
    }

    #[test]
    fn export_matches_default_vs_named() {
        assert!(!export_matches(
            &ExportName::Default,
            &ImportedName::Named("foo".to_string())
        ));
    }

    #[test]
    fn export_matches_namespace_no_match() {
        assert!(!export_matches(
            &ExportName::Named("foo".to_string()),
            &ImportedName::Namespace
        ));
        assert!(!export_matches(
            &ExportName::Default,
            &ImportedName::Namespace
        ));
    }

    #[test]
    fn export_matches_side_effect_no_match() {
        assert!(!export_matches(
            &ExportName::Named("foo".to_string()),
            &ImportedName::SideEffect
        ));
    }


use fallow::discover::{DiscoveredFile, EntryPoint, EntryPointSource, FileId};
use fallow::extract::{ExportInfo, ImportInfo, ReExportInfo, Span};
use fallow::graph::ModuleGraph;
use fallow::resolve::{ResolveResult, ResolvedImport, ResolvedModule, ResolvedReExport};

fn file(id: u32, path: &str, size: u64) -> DiscoveredFile {
    DiscoveredFile { id: FileId(id), path: path.to_string(), size_bytes: size }
}

fn entry(path: &str) -> EntryPoint {
    EntryPoint { path: path.to_string(), source: EntryPointSource::PackageJsonMain }
}

fn import(source: &str, name: ImportedName, local: &str, start: u32, end: u32, target: ResolveResult) -> ResolvedImport {
    ResolvedImport {
        info: ImportInfo {
            source: source.to_string(),
            imported_name: name,
            local_name: local.to_string(),
            is_type_only: false,
            span: Span::new(start, end),
        },
        target,
    }
}

fn export(name: &str, start: u32, end: u32) -> ExportInfo {
    ExportInfo {
        name: ExportName::Named(name.to_string()),
        local_name: Some(name.to_string()),
        is_type_only: false,
        span: Span::new(start, end),
        members: vec![],
        super_class: None,
    }
}

fn module(id: u32, path: &str, exports: Vec<ExportInfo>, imports: Vec<ResolvedImport>) -> ResolvedModule {
    ResolvedModule {
        file_id: FileId(id),
        path: path.to_string(),
        exports,
        re_exports: vec![],
        resolved_imports: imports,
        resolved_dynamic_imports: vec![],
        member_accesses: vec![],
        whole_object_uses: vec![],
        has_cjs_exports: false,
    }
}

fn build_simple_graph() -> ModuleGraph {
    let files = vec![file(0, "/project/src/entry.ts", 100), file(1, "/project/src/utils.ts", 50)];
    let entry_points = vec![entry("/project/src/entry.ts")];
    let resolved_modules = vec![
        module(
            0,
            "/project/src/entry.ts",
            vec![],
            vec![import("./utils", ImportedName::Named("foo".to_string()), "foo", 0, 10, ResolveResult::InternalModule(FileId(1)))],
        ),
        module(1, "/project/src/utils.ts", vec![export("foo", 0, 20), export("bar", 25, 45)], vec![]),
    ];
    ModuleGraph::build(&resolved_modules, &entry_points, &files)
}

fn export_named<'a>(graph: &'a ModuleGraph, module: usize, name: &str) -> &'a fallow::graph::ExportSymbol {
    graph.modules[module].exports.iter().find(|e| e.name.to_text() == name).unwrap()
}

#[test]
fn graph_module_count() {
    let graph = build_simple_graph();
    assert_eq!(graph.module_count(), 2);
}

#[test]
fn graph_edge_count() {
    let graph = build_simple_graph();
    assert_eq!(graph.edge_count(), 1);
}

#[test]
fn graph_entry_point_is_reachable() {
    let graph = build_simple_graph();
    assert!(graph.modules[0].is_entry_point);
    assert!(graph.modules[0].is_reachable);
}

#[test]
fn graph_imported_module_is_reachable() {
    let graph = build_simple_graph();
    assert!(!graph.modules[1].is_entry_point);
    assert!(graph.modules[1].is_reachable);
}

#[test]
fn graph_export_has_reference() {
    let graph = build_simple_graph();
    let foo_export = export_named(&graph, 1, "foo");
    assert!(!foo_export.references.is_empty(), "foo should have references");
}

#[test]
fn graph_unused_export_no_reference() {
    let graph = build_simple_graph();
    let bar_export = export_named(&graph, 1, "bar");
    assert!(bar_export.references.is_empty(), "bar should have no references");
}

#[test]
fn graph_no_namespace_import() {
    let graph = build_simple_graph();
    assert!(!graph.has_namespace_import(FileId(0)));
    assert!(!graph.has_namespace_import(FileId(1)));
}

#[test]
fn graph_has_namespace_import() {
    let files = vec![file(0, "/project/entry.ts", 100), file(1, "/project/utils.ts", 50)];
    let entry_points = vec![entry("/project/entry.ts")];
    let resolved_modules = vec![
        module(
            0,
            "/project/entry.ts",
            vec![],
            vec![import("./utils", ImportedName::Namespace, "utils", 0, 10, ResolveResult::InternalModule(FileId(1)))],
        ),
        module(1, "/project/utils.ts", vec![export("foo", 0, 20)], vec![]),
    ];
    let graph = ModuleGraph::build(&resolved_modules, &entry_points, &files);
    assert!(graph.has_namespace_import(FileId(1)), "utils should have namespace import");
}

#[test]
fn graph_has_namespace_import_out_of_bounds() {
    let graph = build_simple_graph();
    assert!(!graph.has_namespace_import(FileId(999)));
}

#[test]
fn graph_unreachable_module() {
    let files = vec![
        file(0, "/project/entry.ts", 100),
        file(1, "/project/utils.ts", 50),
        file(2, "/project/orphan.ts", 30),
    ];
    let entry_points = vec![entry("/project/entry.ts")];
    let resolved_modules = vec![
        module(
            0,
            "/project/entry.ts",
            vec![],
            vec![import("./utils", ImportedName::Named("foo".to_string()), "foo", 0, 10, ResolveResult::InternalModule(FileId(1)))],
        ),
        module(1, "/project/utils.ts", vec![export("foo", 0, 20)], vec![]),
        module(2, "/project/orphan.ts", vec![export("orphan", 0, 20)], vec![]),
    ];
    let graph = ModuleGraph::build(&resolved_modules, &entry_points, &files);
    assert!(graph.modules[0].is_reachable, "entry should be reachable");
    assert!(graph.modules[1].is_reachable, "utils should be reachable");
    assert!(!graph.modules[2].is_reachable, "orphan should NOT be reachable");
}

#[test]
fn graph_package_usage_tracked() {
    let files = vec![file(0, "/project/entry.ts", 100)];
    let entry_points = vec![entry("/project/entry.ts")];
    let resolved_modules = vec![module(
        0,
        "/project/entry.ts",
        vec![],
        vec![
            import("react", ImportedName::Default, "React", 0, 10, ResolveResult::NpmPackage("react".to_string())),
            import("lodash", ImportedName::Named("merge".to_string()), "merge", 15, 30, ResolveResult::NpmPackage("lodash".to_string())),
        ],
    )];
    let graph = ModuleGraph::build(&resolved_modules, &entry_points, &files);
    let has = |name: &str| graph.package_usage.iter().any(|(k, _)| k == name);
    assert!(has("react"));
    assert!(has("lodash"));
    assert!(!has("express"));
}

#[test]
fn graph_re_export_chain_propagates_references() {
    let files = vec![
        file(0, "/project/entry.ts", 100),
        file(1, "/project/barrel.ts", 50),
        file(2, "/project/source.ts", 50),
    ];
    let entry_points = vec![entry("/project/entry.ts")];
    let mut barrel = module(1, "/project/barrel.ts", vec![export("foo", 0, 20)], vec![]);
    barrel.re_exports = vec![ResolvedReExport {
        info: ReExportInfo {
            source: "./source".to_string(),
            imported_name: "foo".to_string(),
            exported_name: "foo".to_string(),
            is_type_only: false,
        },
        target: ResolveResult::InternalModule(FileId(2)),
    }];
    let resolved_modules = vec![
        module(
            0,
            "/project/entry.ts",
            vec![],
            vec![import("./barrel", ImportedName::Named("foo".to_string()), "foo", 0, 10, ResolveResult::InternalModule(FileId(1)))],
        ),
        barrel,
        module(2, "/project/source.ts", vec![export("foo", 0, 20)], vec![]),
    ];
    let graph = ModuleGraph::build(&resolved_modules, &entry_points, &files);
    let foo_export = export_named(&graph, 2, "foo");
    assert!(
        !foo_export.references.is_empty(),
        "source foo should have propagated references through barrel re-export chain"
    );
}

#[test]
fn graph_empty() {
    let graph = ModuleGraph::build(&vec![], &vec![], &vec![]);
    assert_eq!(graph.module_count(), 0);
    assert_eq!(graph.edge_count(), 0);
}

#[test]
fn graph_cjs_exports_tracked() {
    let files = vec![file(0, "/project/entry.ts", 100)];
    let entry_points = vec![entry("/project/entry.ts")];
    let mut m = module(0, "/project/entry.ts", vec![], vec![]);
    m.has_cjs_exports = true;
    let graph = ModuleGraph::build(&vec![m], &entry_points, &files);
    assert!(graph.modules[0].has_cjs_exports);
}

#[test]
fn graph_reverse_deps_and_edge_ranges() {
    let graph = build_simple_graph();
    assert_eq!(graph.reverse_deps.len(), 2);
    assert_eq!(graph.reverse_deps[1], vec![FileId(0)]);
    assert!(graph.reverse_deps[0].is_empty());
    assert_eq!(graph.modules[0].edge_range, 0..1);
    assert_eq!(graph.modules[1].edge_range, 1..1);
    assert_eq!(graph.entry_points, vec![FileId(0)]);
}

#[test]
fn graph_namespace_import_references_every_export_once() {
    let files = vec![file(0, "/p/a.ts", 1), file(1, "/p/b.ts", 1)];
    let entry_points = vec![entry("/p/a.ts")];
    let resolved_modules = vec![
        module(
            0,
            "/p/a.ts",
            vec![],
            vec![
                import("./b", ImportedName::Named("x".to_string()), "x", 0, 1, ResolveResult::InternalModule(FileId(1))),
                import("./b", ImportedName::Namespace, "b", 2, 3, ResolveResult::InternalModule(FileId(1))),
            ],
        ),
        module(1, "/p/b.ts", vec![export("x", 0, 1), export("y", 2, 3)], vec![]),
    ];
    let graph = ModuleGraph::build(&resolved_modules, &entry_points, &files);
    assert_eq!(graph.edge_count(), 1);
    let x = export_named(&graph, 1, "x");
    assert_eq!(x.references.len(), 1);
    assert_eq!(x.references[0].kind, fallow::graph::ReferenceKind::NamedImport);
    let y = export_named(&graph, 1, "y");
    assert_eq!(y.references.len(), 1);
    assert_eq!(y.references[0].kind, fallow::graph::ReferenceKind::NamespaceImport);
}
