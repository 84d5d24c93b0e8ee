use fallow::discover::FileId;
use fallow::extract::{ImportInfo, ImportedName, ReExportInfo, RequireCallInfo, Span};
use fallow::resolve::{
    extract_package_name, resolve_re_exports, resolve_require_imports, resolve_single_require, resolve_static_imports,
    ResolveResult,
};

fn require(source: &str, names: &[&str], local: Option<&str>) -> RequireCallInfo {
    RequireCallInfo {
        source: source.to_string(),
        span: Span::new(10, 30),
        destructured_names: names.iter().map(|n| n.to_string()).collect(),
        local_name: local.map(|l| l.to_string()),
    }
}

fn is_named(name: &ImportedName, expected: &str) -> bool {
    matches!(name, ImportedName::Named(n) if n == expected)
}

#[test]
fn extract_package_name_scoped() {
    assert_eq!(extract_package_name("react"), "react");
    assert_eq!(extract_package_name("react/jsx-runtime"), "react");
    assert_eq!(extract_package_name("@scope/pkg"), "@scope/pkg");
    assert_eq!(extract_package_name("@scope/pkg/utils"), "@scope/pkg");
    assert_eq!(extract_package_name("@types/node"), "@types/node");
}

#[test]
fn package_name_of_bare_scope_and_empty_specifier() {
    assert_eq!(extract_package_name("@scope"), "@scope");
    assert_eq!(extract_package_name(""), "");
    assert_eq!(extract_package_name("lodash/fp/map"), "lodash");
}

#[test]
fn plain_require_becomes_namespace_import() {
    let imports = resolve_single_require(&require("./util", &[], Some("util")), &ResolveResult::InternalModule(FileId(3)));
    assert_eq!(imports.len(), 1);
    assert!(matches!(imports[0].info.imported_name, ImportedName::Namespace));
    assert_eq!(imports[0].info.local_name, "util");
    assert_eq!(imports[0].info.source, "./util");
    assert_eq!(imports[0].info.span, Span::new(10, 30));
    assert!(!imports[0].info.is_type_only);
    assert!(matches!(imports[0].target, ResolveResult::InternalModule(FileId(3))));
}

#[test]
fn unbound_require_has_empty_local_name() {
    let imports = resolve_single_require(&require("./side", &[], None), &ResolveResult::Unresolvable("./side".to_string()));
    assert_eq!(imports.len(), 1);
    assert_eq!(imports[0].info.local_name, "");
}

#[test]
fn destructured_require_becomes_named_imports() {
    let imports = resolve_single_require(&require("fs", &["readFile", "writeFile"], None), &ResolveResult::NpmPackage("fs".to_string()));
    assert_eq!(imports.len(), 2);
    assert!(is_named(&imports[0].info.imported_name, "readFile"));
    assert_eq!(imports[0].info.local_name, "readFile");
    assert!(is_named(&imports[1].info.imported_name, "writeFile"));
    assert!(matches!(&imports[1].target, ResolveResult::NpmPackage(n) if n == "fs"));
}

#[test]
fn require_calls_resolve_in_order() {
    let calls = vec![require("./a", &["x", "y"], None), require("./b", &[], Some("b"))];
    let targets = vec![ResolveResult::InternalModule(FileId(1)), ResolveResult::InternalModule(FileId(2))];
    let imports = resolve_require_imports(&calls, &targets);
    let sources: Vec<&str> = imports.iter().map(|i| i.info.source.as_str()).collect();
    assert_eq!(sources, vec!["./a", "./a", "./b"]);
    assert!(matches!(imports[2].target, ResolveResult::InternalModule(FileId(2))));
}

#[test]
fn static_imports_and_re_exports_take_their_targets() {
    let imports = vec![ImportInfo {
        source: "./x".to_string(),
        imported_name: ImportedName::Default,
        local_name: "x".to_string(),
        is_type_only: true,
        span: Span::new(0, 5),
    }];
    let resolved = resolve_static_imports(&imports, &vec![ResolveResult::ExternalFile("/elsewhere/x.js".to_string())]);
    assert_eq!(resolved.len(), 1);
    assert!(resolved[0].info.is_type_only);
    assert!(matches!(resolved[0].info.imported_name, ImportedName::Default));
    assert!(matches!(&resolved[0].target, ResolveResult::ExternalFile(p) if p == "/elsewhere/x.js"));

    let re_exports = vec![ReExportInfo {
        source: "./y".to_string(),
        imported_name: "*".to_string(),
        exported_name: "*".to_string(),
        is_type_only: false,
    }];
    let resolved = resolve_re_exports(&re_exports, &vec![ResolveResult::InternalModule(FileId(7))]);
    assert_eq!(resolved[0].info.source, "./y");
    assert!(matches!(resolved[0].target, ResolveResult::InternalModule(FileId(7))));
}

#[test]
fn package_name_of_package_name_is_itself() {
    for spec in ["react/jsx-runtime", "@scope/pkg/utils", "@scope", "lodash", "", "a/b/c"] {
        let once = extract_package_name(spec);
        assert_eq!(extract_package_name(&once), once);
    }
}
