use fallow::analysis::{AnalysisResults, UnresolvedImport, UnusedExport, UnusedFile};
use fallow::check::{changed_paths, check_exit_code, retain_changed};

fn empty_results() -> AnalysisResults {
    AnalysisResults {
        unused_files: vec![],
        unused_exports: vec![],
        unused_types: vec![],
        unused_enum_members: vec![],
        unused_class_members: vec![],
        unused_dependencies: vec![],
        unused_dev_dependencies: vec![],
        unused_optional_dependencies: vec![],
        unlisted_dependencies: vec![],
        unresolved_imports: vec![],
        duplicate_exports: vec![],
    }
}

fn export(path: &str, name: &str) -> UnusedExport {
    UnusedExport { path: path.to_string(), export_name: name.to_string(), is_type_only: false, line: 1, col: 0 }
}

#[test]
fn git_diff_lines_become_paths_under_root() {
    let paths = changed_paths("/project", "src/a.ts\nsrc/b.ts\r\n");
    assert_eq!(paths, vec!["/project/src/a.ts".to_string(), "/project/src/b.ts".to_string()]);
    assert!(changed_paths("/project", "").is_empty());
    assert_eq!(changed_paths("/project/", "x.ts"), vec!["/project/x.ts".to_string()]);
}

#[test]
fn findings_outside_changed_files_are_dropped() {
    let mut results = empty_results();
    results.unused_files = vec![UnusedFile { path: "/p/a.ts".to_string() }, UnusedFile { path: "/p/b.ts".to_string() }];
    results.unused_exports = vec![export("/p/b.ts", "x"), export("/p/c.ts", "y"), export("/p/b.ts", "z")];
    results.unresolved_imports = vec![UnresolvedImport {
        path: "/p/c.ts".to_string(),
        specifier: "./gone".to_string(),
        line: 2,
        col: 0,
    }];
    let changed = vec!["/p/b.ts".to_string()];
    let kept = retain_changed(results, &changed);
    let files: Vec<&str> = kept.unused_files.iter().map(|f| f.path.as_str()).collect();
    assert_eq!(files, vec!["/p/b.ts"]);
    let exports: Vec<&str> = kept.unused_exports.iter().map(|e| e.export_name.as_str()).collect();
    assert_eq!(exports, vec!["x", "z"]);
    assert!(kept.unresolved_imports.is_empty());
}

#[test]
fn exit_code_follows_findings_only_when_asked() {
    let mut results = empty_results();
    assert!(!results.has_issues());
    assert_eq!(check_exit_code(true, &results), 0);
    results.unused_types = vec![export("/p/t.ts", "T")];
    assert!(results.has_issues());
    assert_eq!(check_exit_code(true, &results), 1);
    assert_eq!(check_exit_code(false, &results), 0);
}

#[test]
fn narrowing_to_changed_files_twice_changes_nothing() {
    let mut results = empty_results();
    results.unused_exports = vec![export("/p/a.ts", "x"), export("/p/b.ts", "y")];
    let changed = vec!["/p/a.ts".to_string()];
    let once = retain_changed(results, &changed);
    let names_once: Vec<String> = once.unused_exports.iter().map(|e| e.export_name.clone()).collect();
    let twice = retain_changed(once, &changed);
    let names_twice: Vec<String> = twice.unused_exports.iter().map(|e| e.export_name.clone()).collect();
    assert_eq!(names_once, vec!["x".to_string()]);
    assert_eq!(names_twice, names_once);
}
