use fallow::analysis::{AnalysisResults, UnresolvedImport, UnusedExport, UnusedFile};
use fallow::diagnostics::{diagnostics_by_file, export_quick_fixes, DiagnosticSeverity};

fn export(path: &str, name: &str, line: u32) -> UnusedExport {
    UnusedExport { path: path.to_string(), export_name: name.to_string(), is_type_only: false, line, col: 0 }
}

fn results() -> AnalysisResults {
    AnalysisResults {
        unused_files: vec![UnusedFile { path: "/p/dead.ts".to_string() }],
        unused_exports: vec![export("/p/a.ts", "foo", 2), export("/p/b.ts", "bär", 1)],
        unused_types: vec![export("/p/a.ts", "Props", 0)],
        unused_enum_members: vec![],
        unused_class_members: vec![],
        unused_dependencies: vec![],
        unused_dev_dependencies: vec![],
        unused_optional_dependencies: vec![],
        unlisted_dependencies: vec![],
        unresolved_imports: vec![UnresolvedImport {
            path: "/p/b.ts".to_string(),
            specifier: "./gone".to_string(),
            line: 3,
            col: 7,
        }],
        duplicate_exports: vec![],
    }
}

#[test]
fn diagnostics_grouped_by_file_in_order() {
    let groups = diagnostics_by_file(&results());
    let files: Vec<&str> = groups.iter().map(|(p, _)| p.as_str()).collect();
    assert_eq!(files, vec!["/p/a.ts", "/p/b.ts", "/p/dead.ts"]);
    let a = &groups[0].1;
    assert_eq!(a.len(), 2);
    assert_eq!(a[0].message, "Export 'foo' is unused");
    assert_eq!((a[0].line, a[0].start_character, a[0].end_character), (1, 0, 3));
    assert_eq!(a[0].code.as_deref(), Some("unused-export"));
    assert_eq!(a[0].severity, DiagnosticSeverity::Hint);
    assert_eq!(a[1].message, "Type export 'Props' is unused");
    // line 0 stays 0
    assert_eq!((a[1].line, a[1].end_character), (0, 0));
    let b = &groups[1].1;
    // the name's length counts UTF-8 bytes
    assert_eq!(b[0].end_character, 4);
    assert_eq!(b[1].message, "Cannot resolve import './gone'");
    assert_eq!((b[1].line, b[1].start_character), (2, 7));
    assert_eq!(b[1].severity, DiagnosticSeverity::Error);
    assert!(!b[1].unnecessary);
    let dead = &groups[2].1;
    assert_eq!(dead[0].message, "File is not reachable from any entry point");
    assert_eq!(dead[0].severity, DiagnosticSeverity::Warning);
}

#[test]
fn quick_fix_removes_export_keyword() {
    let content = "export type Props = {};\n  export default foo;\n";
    let fixes = export_quick_fixes(&results(), "/p/a.ts", content, 0, 10);
    assert_eq!(fixes.len(), 2);
    assert_eq!(fixes[0].title, "Remove unused export `foo`");
    // line 2 (1-based) is "  export default foo;": delete "export default " after the indent
    assert_eq!((fixes[0].line, fixes[0].delete_start, fixes[0].delete_end), (1, 2, 17));
    assert_eq!(fixes[0].diagnostic.message, "Export 'foo' is unused");
    assert!(fixes[0].diagnostic.code.is_none());
    // the type's line 0 stays line 0
    assert_eq!(fixes[1].title, "Remove unused export `Props`");
    assert_eq!((fixes[1].line, fixes[1].delete_start, fixes[1].delete_end), (0, 0, 7));
}

#[test]
fn quick_fixes_respect_file_and_range() {
    let content = "export const a = 1;\nexport const foo = 2;\n";
    assert!(export_quick_fixes(&results(), "/p/other.ts", content, 0, 10).is_empty());
    let fixes = export_quick_fixes(&results(), "/p/a.ts", content, 1, 1);
    assert_eq!(fixes.len(), 1);
    assert_eq!(fixes[0].title, "Remove unused export `foo`");
}
