use fallow::cache::{cached_to_module, module_to_cached, CacheStore, CachedModule, CACHE_VERSION};
use fallow::discover::FileId;
use fallow::extract::{
    DynamicImportInfo, ExportInfo, ExportName, ImportInfo, ImportedName, MemberAccess, MemberInfo, MemberKind,
    ModuleInfo, ReExportInfo, RequireCallInfo, Span,
};

fn sample_module() -> ModuleInfo {
    ModuleInfo {
        file_id: FileId(3),
        exports: vec![
            ExportInfo {
                name: ExportName::Named("Status".to_string()),
                local_name: Some("Status".to_string()),
                is_type_only: false,
                span: Span::new(10, 40),
                members: vec![
                    MemberInfo { name: "Active".to_string(), kind: MemberKind::EnumMember, span: Span::new(12, 18), has_decorator: false },
                    MemberInfo { name: "run".to_string(), kind: MemberKind::ClassMethod, span: Span::new(20, 24), has_decorator: true },
                ],
                super_class: Some("Base".to_string()),
            },
            ExportInfo { name: ExportName::Default, local_name: None, is_type_only: true, span: Span::new(50, 60), members: vec![], super_class: None },
        ],
        imports: vec![
            ImportInfo {
                source: "./a".to_string(),
                imported_name: ImportedName::Named("x".to_string()),
                local_name: "x".to_string(),
                is_type_only: false,
                span: Span::new(1, 2),
            },
            ImportInfo {
                source: "./b".to_string(),
                imported_name: ImportedName::Namespace,
                local_name: "b".to_string(),
                is_type_only: true,
                span: Span::new(3, 4),
            },
            ImportInfo {
                source: "./c".to_string(),
                imported_name: ImportedName::SideEffect,
                local_name: String::new(),
                is_type_only: false,
                span: Span::new(5, 6),
            },
            ImportInfo {
                source: "./d".to_string(),
                imported_name: ImportedName::Default,
                local_name: "d".to_string(),
                is_type_only: false,
                span: Span::new(7, 8),
            },
        ],
        re_exports: vec![ReExportInfo {
            source: "./e".to_string(),
            imported_name: "*".to_string(),
            exported_name: "*".to_string(),
            is_type_only: false,
        }],
        dynamic_imports: vec![DynamicImportInfo { source: "./lazy".to_string(), span: Span::new(70, 80) }],
        require_calls: vec![RequireCallInfo {
            source: "fs".to_string(),
            span: Span::new(90, 95),
            destructured_names: vec![],
            local_name: Some("fs".to_string()),
        }],
        member_accesses: vec![MemberAccess { object: "Status".to_string(), member: "Active".to_string() }],
        has_cjs_exports: true,
        content_hash: 0xfeed,
    }
}

#[test]
fn module_round_trips_through_the_cache_except_source_spans() {
    let m = sample_module();
    let c = module_to_cached(&m);
    assert_eq!(c.exports[1].name, "default");
    assert!(c.exports[1].is_default);
    assert_eq!(c.exports[0].members[1].kind, "method");
    assert_eq!(c.imports[1].imported_name, "*");
    assert!(c.imports[1].is_namespace);
    assert!(c.imports[2].is_side_effect);
    assert_eq!(c.dynamic_imports, vec!["./lazy".to_string()]);
    let back = cached_to_module(&c, FileId(3));
    assert_eq!(back.content_hash, 0xfeed);
    assert!(back.has_cjs_exports);
    assert!(matches!(back.exports[1].name, ExportName::Default));
    assert_eq!(back.exports[0].span, Span::new(10, 40));
    assert_eq!(back.exports[0].members[0].kind, MemberKind::EnumMember);
    assert!(!back.exports[0].members[0].has_decorator);
    assert!(back.exports[0].members[1].has_decorator);
    assert_eq!(back.exports[0].super_class.as_deref(), Some("Base"));
    assert_eq!(back.exports[1].super_class, None);
    assert!(matches!(back.imports[1].imported_name, ImportedName::Namespace));
    assert!(matches!(back.imports[3].imported_name, ImportedName::Default));
    assert_eq!(back.imports[0].span, Span::new(0, 0));
    assert_eq!(back.dynamic_imports[0].span, Span::new(0, 0));
    assert_eq!(back.require_calls[0].source, "fs");
    let again = module_to_cached(&back);
    assert_eq!(again.imports[0].imported_name, c.imports[0].imported_name);
    assert_eq!(again.exports[0].span_start, 10);
}

#[test]
fn unknown_member_kind_text_reads_as_property() {
    let mut c = module_to_cached(&sample_module());
    c.exports[0].members[0].kind = "weird".to_string();
    let back = cached_to_module(&c, FileId(0));
    assert_eq!(back.exports[0].members[0].kind, MemberKind::ClassProperty);
}

fn cached(hash: u64) -> CachedModule {
    let mut c = module_to_cached(&sample_module());
    c.content_hash = hash;
    c
}

#[test]
fn cache_store_get_checks_the_content_hash() {
    let mut store = CacheStore::new();
    assert!(store.is_empty());
    assert_eq!(store.version(), CACHE_VERSION);
    store.insert("/p/a.ts", cached(1));
    store.insert("/p/b.ts", cached(2));
    assert_eq!(store.len(), 2);
    assert!(store.get("/p/a.ts", 1).is_some());
    assert!(store.get("/p/a.ts", 2).is_none());
    assert!(store.get("/p/c.ts", 1).is_none());
    store.insert("/p/a.ts", cached(5));
    assert_eq!(store.len(), 2);
    assert!(store.get("/p/a.ts", 1).is_none());
    assert_eq!(store.get("/p/a.ts", 5).unwrap().content_hash, 5);
}

#[test]
fn stored_cache_of_another_version_is_ignored() {
    let entries = vec![("/p/a.ts".to_string(), cached(1)), ("/p/a.ts".to_string(), cached(9))];
    assert!(CacheStore::from_stored(CACHE_VERSION + 1, entries.clone()).is_none());
    let store = CacheStore::from_stored(CACHE_VERSION, entries).unwrap();
    assert_eq!(store.len(), 1);
    assert!(store.get("/p/a.ts", 9).is_some());
    assert_eq!(store.entries().len(), 1);
}
