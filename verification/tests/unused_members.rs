use fallow::analysis::{
    find_dead_code, find_unused_members, is_angular_lifecycle_method, is_react_lifecycle_method, AnalysisConfig, DetectConfig,
    IssueKind, Suppression, UnusedMember,
};
use fallow::discover::{DiscoveredFile, EntryPoint, EntryPointSource, FileId};
use fallow::extract::{ExportInfo, ExportName, ImportInfo, ImportedName, MemberAccess, MemberInfo, MemberKind, Span};
use fallow::graph::{ExportSymbol, ModuleGraph, ReferenceKind, SymbolReference};
use fallow::resolve::{ResolveResult, ResolvedImport, ResolvedModule};

fn resolved(id: u32, path: &str) -> ResolvedModule {
    ResolvedModule {
        file_id: FileId(id),
        path: path.to_string(),
        exports: vec![],
        re_exports: vec![],
        resolved_imports: vec![],
        resolved_dynamic_imports: vec![],
        member_accesses: vec![],
        whole_object_uses: vec![],
        has_cjs_exports: false,
    }
}

fn build_graph(file_specs: &[(&str, bool)]) -> ModuleGraph {
    let files: Vec<DiscoveredFile> = file_specs
        .iter()
        .enumerate()
        .map(|(i, (path, _))| DiscoveredFile { id: FileId(i as u32), path: path.to_string(), size_bytes: 0 })
        .collect();
    let entry_points: Vec<EntryPoint> = file_specs
        .iter()
        .filter(|(_, is_entry)| *is_entry)
        .map(|(path, _)| EntryPoint { path: path.to_string(), source: EntryPointSource::ManualEntry })
        .collect();
    let resolved_modules: Vec<ResolvedModule> = files.iter().map(|f| resolved(f.id.0, &f.path)).collect();
    ModuleGraph::build(&resolved_modules, &entry_points, &files)
}

fn make_member(name: &str, kind: MemberKind) -> MemberInfo {
    MemberInfo { name: name.to_string(), kind, span: Span::new(10, 20), has_decorator: false }
}

fn make_export_with_members(name: &str, members: Vec<MemberInfo>, ref_from: Option<u32>) -> ExportSymbol {
    let references = ref_from
        .map(|from| vec![SymbolReference { from_file: FileId(from), kind: ReferenceKind::NamedImport }])
        .unwrap_or_default();
    ExportSymbol {
        name: ExportName::Named(name.to_string()),
        is_type_only: false,
        span: Span::new(0, 10),
        references,
        members,
    }
}

fn import_of(source: &str, imported_name: ImportedName, local: &str, target: u32) -> ResolvedImport {
    ResolvedImport {
        info: ImportInfo {
            source: source.to_string(),
            imported_name,
            local_name: local.to_string(),
            is_type_only: false,
            span: Span::new(0, 30),
        },
        target: ResolveResult::InternalModule(FileId(target)),
    }
}

fn access(object: &str, member: &str) -> MemberAccess {
    MemberAccess { object: object.to_string(), member: member.to_string() }
}

fn run(graph: &ModuleGraph, rms: &[ResolvedModule]) -> (Vec<UnusedMember>, Vec<UnusedMember>) {
    find_unused_members(graph, &rms.to_vec(), &vec![], &vec![], &vec![])
}

#[test]
fn unused_members_empty_graph() {
    let graph = build_graph(&[]);
    let (enum_members, class_members) = run(&graph, &[]);
    assert!(enum_members.is_empty());
    assert!(class_members.is_empty());
}

#[test]
fn unused_enum_member_detected() {
    let mut graph = build_graph(&[("/src/entry.ts", true), ("/src/enums.ts", false)]);
    graph.modules[1].is_reachable = true;
    graph.modules[1].exports = vec![make_export_with_members(
        "Status",
        vec![make_member("Active", MemberKind::EnumMember), make_member("Inactive", MemberKind::EnumMember)],
        Some(0),
    )];
    let (enum_members, class_members) = run(&graph, &[]);
    assert_eq!(enum_members.len(), 2);
    assert!(class_members.is_empty());
    let names: Vec<&str> = enum_members.iter().map(|m| m.member_name.as_str()).collect();
    assert!(names.contains(&"Active"));
    assert!(names.contains(&"Inactive"));
}

#[test]
fn accessed_enum_member_not_flagged() {
    let mut graph = build_graph(&[("/src/entry.ts", true), ("/src/enums.ts", false)]);
    graph.modules[1].is_reachable = true;
    graph.modules[1].exports = vec![make_export_with_members(
        "Status",
        vec![make_member("Active", MemberKind::EnumMember), make_member("Inactive", MemberKind::EnumMember)],
        Some(0),
    )];
    let mut consumer = resolved(0, "/src/entry.ts");
    consumer.resolved_imports = vec![import_of("./enums", ImportedName::Named("Status".to_string()), "Status", 1)];
    consumer.member_accesses = vec![access("Status", "Active")];
    let (enum_members, _) = run(&graph, &[consumer]);
    assert_eq!(enum_members.len(), 1);
    assert_eq!(enum_members[0].member_name, "Inactive");
}

#[test]
fn whole_object_use_skips_all_members() {
    let mut graph = build_graph(&[("/src/entry.ts", true), ("/src/enums.ts", false)]);
    graph.modules[1].is_reachable = true;
    graph.modules[1].exports = vec![make_export_with_members(
        "Status",
        vec![make_member("Active", MemberKind::EnumMember), make_member("Inactive", MemberKind::EnumMember)],
        Some(0),
    )];
    let mut consumer = resolved(0, "/src/entry.ts");
    consumer.resolved_imports = vec![import_of("./enums", ImportedName::Named("Status".to_string()), "Status", 1)];
    consumer.whole_object_uses = vec!["Status".to_string()];
    let (enum_members, class_members) = run(&graph, &[consumer]);
    assert!(enum_members.is_empty());
    assert!(class_members.is_empty());
}

#[test]
fn decorated_class_member_not_flagged() {
    let mut graph = build_graph(&[("/src/entry.ts", true), ("/src/entity.ts", false)]);
    graph.modules[1].is_reachable = true;
    graph.modules[1].exports = vec![make_export_with_members(
        "User",
        vec![MemberInfo {
            name: "name".to_string(),
            kind: MemberKind::ClassProperty,
            span: Span::new(10, 20),
            has_decorator: true,
        }],
        Some(0),
    )];
    let (_, class_members) = run(&graph, &[]);
    assert!(class_members.is_empty());
}

#[test]
fn react_lifecycle_method_not_flagged() {
    let mut graph = build_graph(&[("/src/entry.ts", true), ("/src/component.ts", false)]);
    graph.modules[1].is_reachable = true;
    graph.modules[1].exports = vec![make_export_with_members(
        "MyComponent",
        vec![
            make_member("render", MemberKind::ClassMethod),
            make_member("componentDidMount", MemberKind::ClassMethod),
            make_member("customMethod", MemberKind::ClassMethod),
        ],
        Some(0),
    )];
    let (_, class_members) = run(&graph, &[]);
    assert_eq!(class_members.len(), 1);
    assert_eq!(class_members[0].member_name, "customMethod");
}

#[test]
fn angular_lifecycle_method_not_flagged() {
    let mut graph = build_graph(&[("/src/entry.ts", true), ("/src/component.ts", false)]);
    graph.modules[1].is_reachable = true;
    graph.modules[1].exports = vec![make_export_with_members(
        "AppComponent",
        vec![
            make_member("ngOnInit", MemberKind::ClassMethod),
            make_member("ngOnDestroy", MemberKind::ClassMethod),
            make_member("myHelper", MemberKind::ClassMethod),
        ],
        Some(0),
    )];
    let (_, class_members) = run(&graph, &[]);
    assert_eq!(class_members.len(), 1);
    assert_eq!(class_members[0].member_name, "myHelper");
}

#[test]
fn user_class_member_allowlist_not_flagged() {
    let mut graph = build_graph(&[("/src/entry.ts", true), ("/src/renderer.ts", false)]);
    graph.modules[1].is_reachable = true;
    graph.modules[1].exports = vec![make_export_with_members(
        "MyRendererComponent",
        vec![
            make_member("agInit", MemberKind::ClassMethod),
            make_member("refresh", MemberKind::ClassMethod),
            make_member("customHelper", MemberKind::ClassMethod),
        ],
        Some(0),
    )];
    let allowlist = vec!["agInit".to_string(), "refresh".to_string()];
    let (_, class_members) = find_unused_members(&graph, &vec![], &vec![], &vec![], &allowlist);
    assert_eq!(class_members.len(), 1, "only customHelper should remain unused");
    assert_eq!(class_members[0].member_name, "customHelper");
}

#[test]
fn user_class_member_allowlist_does_not_affect_enums() {
    let mut graph = build_graph(&[("/src/entry.ts", true), ("/src/status.ts", false)]);
    graph.modules[1].is_reachable = true;
    graph.modules[1].exports =
        vec![make_export_with_members("Status", vec![make_member("refresh", MemberKind::EnumMember)], Some(0))];
    let allowlist = vec!["refresh".to_string()];
    let (enum_members, _) = find_unused_members(&graph, &vec![], &vec![], &vec![], &allowlist);
    assert_eq!(enum_members.len(), 1);
    assert_eq!(enum_members[0].member_name, "refresh");
}

#[test]
fn this_member_access_not_flagged() {
    let mut graph = build_graph(&[("/src/entry.ts", true), ("/src/service.ts", false)]);
    graph.modules[1].is_reachable = true;
    graph.modules[1].exports = vec![make_export_with_members(
        "Service",
        vec![make_member("label", MemberKind::ClassProperty), make_member("unused_prop", MemberKind::ClassProperty)],
        Some(0),
    )];
    let mut service = resolved(1, "/src/service.ts");
    service.member_accesses = vec![access("this", "label")];
    let (_, class_members) = run(&graph, &[service]);
    assert_eq!(class_members.len(), 1);
    assert_eq!(class_members[0].member_name, "unused_prop");
}

#[test]
fn unreferenced_export_skips_member_analysis() {
    let mut graph = build_graph(&[("/src/entry.ts", true), ("/src/enums.ts", false)]);
    graph.modules[1].is_reachable = true;
    graph.modules[1].exports =
        vec![make_export_with_members("Status", vec![make_member("Active", MemberKind::EnumMember)], None)];
    let (enum_members, _) = run(&graph, &[]);
    assert!(enum_members.is_empty());
}

#[test]
fn unreachable_module_skips_member_analysis() {
    let mut graph = build_graph(&[("/src/entry.ts", true), ("/src/dead.ts", false)]);
    graph.modules[1].exports =
        vec![make_export_with_members("DeadEnum", vec![make_member("X", MemberKind::EnumMember)], Some(0))];
    let (enum_members, class_members) = run(&graph, &[]);
    assert!(enum_members.is_empty());
    assert!(class_members.is_empty());
}

#[test]
fn entry_point_module_skips_member_analysis() {
    let mut graph = build_graph(&[("/src/entry.ts", true)]);
    graph.modules[0].exports =
        vec![make_export_with_members("EntryEnum", vec![make_member("X", MemberKind::EnumMember)], None)];
    let (enum_members, class_members) = run(&graph, &[]);
    assert!(enum_members.is_empty());
    assert!(class_members.is_empty());
}

#[test]
fn enum_member_kind_routed_to_enum_results() {
    let mut graph = build_graph(&[("/src/entry.ts", true), ("/src/enums.ts", false)]);
    graph.modules[1].is_reachable = true;
    graph.modules[1].exports =
        vec![make_export_with_members("Status", vec![make_member("Active", MemberKind::EnumMember)], Some(0))];
    let (enum_members, class_members) = run(&graph, &[]);
    assert_eq!(enum_members.len(), 1);
    assert_eq!(enum_members[0].kind, "enum_member");
    assert!(class_members.is_empty());
}

#[test]
fn class_member_kind_routed_to_class_results() {
    let mut graph = build_graph(&[("/src/entry.ts", true), ("/src/class.ts", false)]);
    graph.modules[1].is_reachable = true;
    graph.modules[1].exports = vec![make_export_with_members(
        "MyClass",
        vec![make_member("myMethod", MemberKind::ClassMethod), make_member("myProp", MemberKind::ClassProperty)],
        Some(0),
    )];
    let (enum_members, class_members) = run(&graph, &[]);
    assert!(enum_members.is_empty());
    assert_eq!(class_members.len(), 2);
    assert!(class_members.iter().any(|m| m.kind == "class_method"));
    assert!(class_members.iter().any(|m| m.kind == "class_property"));
}

#[test]
fn instance_member_access_not_flagged() {
    let mut graph = build_graph(&[("/src/entry.ts", true), ("/src/service.ts", false)]);
    graph.modules[1].is_reachable = true;
    graph.modules[1].exports = vec![make_export_with_members(
        "MyService",
        vec![make_member("greet", MemberKind::ClassMethod), make_member("unusedMethod", MemberKind::ClassMethod)],
        Some(0),
    )];
    let mut consumer = resolved(0, "/src/entry.ts");
    consumer.resolved_imports =
        vec![import_of("./service", ImportedName::Named("MyService".to_string()), "MyService", 1)];
    consumer.member_accesses = vec![access("MyService", "greet")];
    let (_, class_members) = run(&graph, &[consumer]);
    assert_eq!(class_members.len(), 1);
    assert_eq!(class_members[0].member_name, "unusedMethod");
}

#[test]
fn this_access_does_not_skip_enum_members() {
    let mut graph = build_graph(&[("/src/entry.ts", true), ("/src/enums.ts", false)]);
    graph.modules[1].is_reachable = true;
    graph.modules[1].exports = vec![make_export_with_members(
        "Direction",
        vec![make_member("Up", MemberKind::EnumMember), make_member("Down", MemberKind::EnumMember)],
        Some(0),
    )];
    let mut enums = resolved(1, "/src/enums.ts");
    enums.member_accesses = vec![access("this", "Up")];
    let (enum_members, _) = run(&graph, &[enums]);
    assert_eq!(enum_members.len(), 2);
}

#[test]
fn mixed_enum_and_class_in_same_module() {
    let mut graph = build_graph(&[("/src/entry.ts", true), ("/src/mixed.ts", false)]);
    graph.modules[1].is_reachable = true;
    graph.modules[1].exports = vec![
        make_export_with_members("Status", vec![make_member("Active", MemberKind::EnumMember)], Some(0)),
        make_export_with_members("Service", vec![make_member("doWork", MemberKind::ClassMethod)], Some(0)),
    ];
    let (enum_members, class_members) = run(&graph, &[]);
    assert_eq!(enum_members.len(), 1);
    assert_eq!(enum_members[0].parent_name, "Status");
    assert_eq!(class_members.len(), 1);
    assert_eq!(class_members[0].parent_name, "Service");
}

#[test]
fn local_name_mapped_to_imported_name() {
    let mut graph = build_graph(&[("/src/entry.ts", true), ("/src/enums.ts", false)]);
    graph.modules[1].is_reachable = true;
    graph.modules[1].exports = vec![make_export_with_members(
        "Status",
        vec![make_member("Active", MemberKind::EnumMember), make_member("Inactive", MemberKind::EnumMember)],
        Some(0),
    )];
    let mut consumer = resolved(0, "/src/entry.ts");
    consumer.resolved_imports = vec![import_of("./enums", ImportedName::Named("Status".to_string()), "S", 1)];
    consumer.member_accesses = vec![access("S", "Active")];
    let (enum_members, _) = run(&graph, &[consumer]);
    assert_eq!(enum_members.len(), 1);
    assert_eq!(enum_members[0].member_name, "Inactive");
}

#[test]
fn default_import_maps_to_default_export() {
    let mut graph = build_graph(&[("/src/entry.ts", true), ("/src/enums.ts", false)]);
    graph.modules[1].is_reachable = true;
    graph.modules[1].exports = vec![make_export_with_members(
        "default",
        vec![make_member("X", MemberKind::EnumMember), make_member("Y", MemberKind::EnumMember)],
        Some(0),
    )];
    let mut consumer = resolved(0, "/src/entry.ts");
    consumer.resolved_imports = vec![import_of("./enums", ImportedName::Default, "MyEnum", 1)];
    consumer.member_accesses = vec![access("MyEnum", "X")];
    let (enum_members, _) = run(&graph, &[consumer]);
    assert_eq!(enum_members.len(), 1);
    assert_eq!(enum_members[0].member_name, "Y");
}

#[test]
fn suppressed_enum_member_not_flagged() {
    let mut graph = build_graph(&[("/src/entry.ts", true), ("/src/enums.ts", false)]);
    graph.modules[1].is_reachable = true;
    graph.modules[1].exports =
        vec![make_export_with_members("Status", vec![make_member("Active", MemberKind::EnumMember)], Some(0))];
    // line 1: byte offset 10 is on line 1 when no line starts are recorded
    let supps = vec![(FileId(1), vec![Suppression { line: 1, kind: Some(IssueKind::UnusedEnumMember) }])];
    let (enum_members, _) = find_unused_members(&graph, &vec![], &supps, &vec![], &vec![]);
    assert!(enum_members.is_empty(), "suppressed enum member should not be flagged");
}

#[test]
fn suppressed_class_member_not_flagged() {
    let mut graph = build_graph(&[("/src/entry.ts", true), ("/src/service.ts", false)]);
    graph.modules[1].is_reachable = true;
    graph.modules[1].exports =
        vec![make_export_with_members("Service", vec![make_member("doWork", MemberKind::ClassMethod)], Some(0))];
    let supps = vec![(FileId(1), vec![Suppression { line: 1, kind: Some(IssueKind::UnusedClassMember) }])];
    let (_, class_members) = find_unused_members(&graph, &vec![], &supps, &vec![], &vec![]);
    assert!(class_members.is_empty(), "suppressed class member should not be flagged");
}

#[test]
fn whole_object_use_via_aliased_import() {
    let mut graph = build_graph(&[("/src/entry.ts", true), ("/src/enums.ts", false)]);
    graph.modules[1].is_reachable = true;
    graph.modules[1].exports = vec![make_export_with_members(
        "Status",
        vec![make_member("A", MemberKind::EnumMember), make_member("B", MemberKind::EnumMember)],
        Some(0),
    )];
    let mut consumer = resolved(0, "/src/entry.ts");
    consumer.resolved_imports = vec![import_of("./enums", ImportedName::Named("Status".to_string()), "S", 1)];
    consumer.whole_object_uses = vec!["S".to_string()];
    let (enum_members, _) = run(&graph, &[consumer]);
    assert!(enum_members.is_empty(), "whole object use via alias should suppress all members");
}

#[test]
fn this_field_chained_access_not_flagged() {
    let mut graph = build_graph(&[("/src/main.ts", true), ("/src/service.ts", false)]);
    graph.modules[1].is_reachable = true;
    graph.modules[1].exports = vec![make_export_with_members(
        "MyService",
        vec![make_member("doWork", MemberKind::ClassMethod), make_member("unusedMethod", MemberKind::ClassMethod)],
        Some(0),
    )];
    let mut consumer = resolved(0, "/src/main.ts");
    consumer.resolved_imports =
        vec![import_of("./service", ImportedName::Named("MyService".to_string()), "MyService", 1)];
    consumer.member_accesses = vec![access("MyService", "doWork")];
    let (_, class_members) = run(&graph, &[consumer]);
    assert_eq!(class_members.len(), 1);
    assert_eq!(class_members[0].member_name, "unusedMethod");
}

#[test]
fn export_with_no_members_skipped() {
    let mut graph = build_graph(&[("/src/entry.ts", true), ("/src/utils.ts", false)]);
    graph.modules[1].is_reachable = true;
    graph.modules[1].exports = vec![make_export_with_members("helper", vec![], Some(0))];
    let (enum_members, class_members) = run(&graph, &[]);
    assert!(enum_members.is_empty());
    assert!(class_members.is_empty());
}

// ---- beyond the scenarios above ----

#[test]
fn lifecycle_names_are_recognised() {
    assert!(is_react_lifecycle_method("render"));
    assert!(is_react_lifecycle_method("UNSAFE_componentWillUpdate"));
    assert!(!is_react_lifecycle_method("ngOnInit"));
    assert!(is_angular_lifecycle_method("ngAfterViewChecked"));
    assert!(!is_angular_lifecycle_method("render"));
    assert!(!is_angular_lifecycle_method("ngOnInitialize"));
}

#[test]
fn member_position_comes_from_line_starts() {
    let mut graph = build_graph(&[("/src/entry.ts", true), ("/src/enums.ts", false)]);
    graph.modules[1].is_reachable = true;
    graph.modules[1].exports =
        vec![make_export_with_members("Status", vec![make_member("Active", MemberKind::EnumMember)], Some(0))];
    // lines start at 0, 4 and 8: offset 10 is on line 3, column 2
    let offsets = vec![(FileId(1), vec![0u32, 4, 8])];
    let (enum_members, _) = find_unused_members(&graph, &vec![], &vec![], &offsets, &vec![]);
    assert_eq!((enum_members[0].line, enum_members[0].col), (3, 2));
    // a suppression on another line leaves the member reported
    let supps = vec![(FileId(1), vec![Suppression { line: 1, kind: Some(IssueKind::UnusedEnumMember) }])];
    let (enum_members, _) = find_unused_members(&graph, &vec![], &supps, &offsets, &vec![]);
    assert_eq!(enum_members.len(), 1);
    // one on its line, or for the whole file, suppresses it
    let supps = vec![(FileId(1), vec![Suppression { line: 0, kind: None }])];
    let (enum_members, _) = find_unused_members(&graph, &vec![], &supps, &offsets, &vec![]);
    assert!(enum_members.is_empty());
}

#[test]
fn this_access_in_another_file_does_not_count() {
    let mut graph = build_graph(&[("/src/entry.ts", true), ("/src/service.ts", false)]);
    graph.modules[1].is_reachable = true;
    graph.modules[1].exports =
        vec![make_export_with_members("Service", vec![make_member("label", MemberKind::ClassProperty)], Some(0))];
    let mut other = resolved(0, "/src/entry.ts");
    other.member_accesses = vec![access("this", "label")];
    let (_, class_members) = run(&graph, &[other]);
    assert_eq!(class_members.len(), 1);
}

fn class_export(name: &str, super_class: Option<&str>) -> ExportInfo {
    ExportInfo {
        name: ExportName::Named(name.to_string()),
        local_name: Some(name.to_string()),
        is_type_only: false,
        span: Span::new(0, 10),
        members: vec![],
        super_class: super_class.map(|s| s.to_string()),
    }
}

/// /src/base.ts exports Base; /src/circle.ts imports it and exports
/// `class Circle extends Base`.
fn shapes() -> (ModuleGraph, ResolvedModule, ResolvedModule) {
    let mut graph = build_graph(&[("/src/entry.ts", true), ("/src/base.ts", false), ("/src/circle.ts", false)]);
    graph.modules[1].is_reachable = true;
    graph.modules[2].is_reachable = true;
    graph.modules[1].exports = vec![make_export_with_members(
        "Base",
        vec![make_member("describe", MemberKind::ClassMethod), make_member("area", MemberKind::ClassMethod)],
        Some(2),
    )];
    graph.modules[2].exports = vec![make_export_with_members(
        "Circle",
        vec![make_member("area", MemberKind::ClassMethod), make_member("radius", MemberKind::ClassProperty)],
        Some(0),
    )];
    let mut base = resolved(1, "/src/base.ts");
    base.exports = vec![class_export("Base", None)];
    let mut circle = resolved(2, "/src/circle.ts");
    circle.resolved_imports = vec![import_of("./base", ImportedName::Named("Base".to_string()), "Base", 1)];
    circle.exports = vec![class_export("Circle", Some("Base"))];
    (graph, base, circle)
}

#[test]
fn superclass_this_access_credits_subclass_override() {
    let (graph, mut base, circle) = shapes();
    // Base.describe() calls this.area()
    base.member_accesses = vec![access("this", "area"), access("this", "describe")];
    let (_, class_members) = run(&graph, &[base, circle]);
    let names: Vec<(&str, &str)> =
        class_members.iter().map(|m| (m.parent_name.as_str(), m.member_name.as_str())).collect();
    assert_eq!(names, vec![("Circle", "radius")]);
}

#[test]
fn accesses_cross_the_extends_edge_both_ways() {
    let (graph, base, circle) = shapes();
    let mut entry = resolved(0, "/src/entry.ts");
    entry.member_accesses = vec![access("Circle", "describe"), access("Base", "area")];
    let (_, class_members) = run(&graph, &[entry, base, circle]);
    let names: Vec<(&str, &str)> =
        class_members.iter().map(|m| (m.parent_name.as_str(), m.member_name.as_str())).collect();
    // Circle.describe credits Base.describe; Base.area credits Circle.area
    assert_eq!(names, vec![("Circle", "radius")]);
}

#[test]
fn without_extends_nothing_is_credited() {
    let (graph, mut base, mut circle) = shapes();
    circle.exports = vec![class_export("Circle", None)];
    base.member_accesses = vec![access("this", "area")];
    let (_, class_members) = run(&graph, &[base, circle]);
    let names: Vec<(&str, &str)> =
        class_members.iter().map(|m| (m.parent_name.as_str(), m.member_name.as_str())).collect();
    assert_eq!(names, vec![("Base", "describe"), ("Circle", "area"), ("Circle", "radius")]);
}

#[test]
fn configured_class_members_are_used_in_a_dead_code_run() {
    let mut graph = build_graph(&[("/src/entry.ts", true), ("/src/renderer.ts", false)]);
    graph.modules[1].is_reachable = true;
    graph.modules[1].exports = vec![make_export_with_members(
        "Renderer",
        vec![make_member("agInit", MemberKind::ClassMethod), make_member("helper", MemberKind::ClassMethod)],
        Some(0),
    )];
    let detect = DetectConfig {
        unused_files: true,
        unused_exports: true,
        unused_types: true,
        unused_enum_members: true,
        unused_class_members: true,
        unused_dependencies: true,
        unused_dev_dependencies: true,
        unused_optional_dependencies: true,
        unlisted_dependencies: true,
        unresolved_imports: true,
        duplicate_exports: true,
    };
    let config = AnalysisConfig {
        root: "/".to_string(),
        entry_patterns: vec![],
        detect,
        ignore_export_rules: vec![],
        framework_rules: vec![],
        used_class_members: vec!["agInit".to_string()],
    };
    let results = find_dead_code(&graph, &config, &None);
    let names: Vec<&str> = results.unused_class_members.iter().map(|m| m.member_name.as_str()).collect();
    assert_eq!(names, vec!["helper"]);
}
