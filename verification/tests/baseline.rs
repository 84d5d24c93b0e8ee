use fallow::analysis::{AnalysisResults, UnusedExport, UnusedFile};
use fallow::baseline::{filter_new_issues, BaselineData};
use fallow::dependency_usage::{DependencyLocation, UnusedDependency};

fn export(path: &str, name: &str) -> UnusedExport {
    UnusedExport { path: path.to_string(), export_name: name.to_string(), is_type_only: false, line: 0, col: 0 }
}

fn dep(name: &str) -> UnusedDependency {
    UnusedDependency {
        package_name: name.to_string(),
        location: DependencyLocation::Dependencies,
        path: "/p/package.json".to_string(),
        line: 1,
    }
}

fn results() -> AnalysisResults {
    AnalysisResults {
        unused_files: vec![UnusedFile { path: "/p/a.ts".to_string() }, UnusedFile { path: "/p/b.ts".to_string() }],
        unused_exports: vec![export("/p/c.ts", "foo"), export("/p/c.ts", "bar")],
        unused_types: vec![export("/p/d.ts", "Props")],
        unused_enum_members: vec![],
        unused_class_members: vec![],
        unused_dependencies: vec![dep("lodash")],
        unused_dev_dependencies: vec![dep("jest")],
        unused_optional_dependencies: vec![dep("sharp")],
        unlisted_dependencies: vec![],
        unresolved_imports: vec![],
        duplicate_exports: vec![],
    }
}

#[test]
fn baseline_keys() {
    let b = BaselineData::from_results(&results());
    assert_eq!(b.unused_files, vec!["/p/a.ts".to_string(), "/p/b.ts".to_string()]);
    assert_eq!(b.unused_exports, vec!["/p/c.ts:foo".to_string(), "/p/c.ts:bar".to_string()]);
    assert_eq!(b.unused_types, vec!["/p/d.ts:Props".to_string()]);
    assert_eq!(b.unused_deps, vec!["lodash".to_string()]);
    assert_eq!(b.unused_dev_deps, vec!["jest".to_string()]);
}

#[test]
fn own_baseline_hides_everything_it_covers() {
    let b = BaselineData::from_results(&results());
    let r = filter_new_issues(results(), &b);
    assert!(r.unused_files.is_empty());
    assert!(r.unused_exports.is_empty());
    assert!(r.unused_types.is_empty());
    assert!(r.unused_dependencies.is_empty());
    assert!(r.unused_dev_dependencies.is_empty());
    // optional dependencies are not part of a baseline
    assert_eq!(r.unused_optional_dependencies.len(), 1);
}

#[test]
fn new_issues_survive_the_baseline() {
    let mut old = results();
    old.unused_files.truncate(1);
    old.unused_exports.truncate(1);
    let b = BaselineData::from_results(&old);
    let r = filter_new_issues(results(), &b);
    let files: Vec<&str> = r.unused_files.iter().map(|f| f.path.as_str()).collect();
    assert_eq!(files, vec!["/p/b.ts"]);
    let exports: Vec<&str> = r.unused_exports.iter().map(|e| e.export_name.as_str()).collect();
    assert_eq!(exports, vec!["bar"]);
}

#[test]
fn empty_baseline_keeps_everything() {
    let empty = BaselineData {
        unused_files: vec![],
        unused_exports: vec![],
        unused_types: vec![],
        unused_deps: vec![],
        unused_dev_deps: vec![],
    };
    let r = filter_new_issues(results(), &empty);
    assert_eq!(r.unused_files.len(), 2);
    assert_eq!(r.unused_exports.len(), 2);
    assert_eq!(r.unused_dependencies.len(), 1);
}
