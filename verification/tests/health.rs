use fallow::health::{
    analyze_health, collect_health_findings, limit_findings, exceeded_threshold, report_health, health_exit_code, retain_in_workspace, sort_findings,
    FunctionComplexity, HealthModule, SortBy,
};
use fallow::health_types::{ExceededThreshold, HealthFinding};

fn func(name: &str, line: u32, cyclomatic: u16, cognitive: u16, line_count: u32) -> FunctionComplexity {
    FunctionComplexity { name: name.to_string(), line, col: 0, cyclomatic, cognitive, line_count }
}

fn module(path: &str, relative: &str, functions: Vec<FunctionComplexity>) -> HealthModule {
    HealthModule { path: path.to_string(), relative: relative.to_string(), functions }
}

fn finding(path: &str, name: &str, cyclomatic: u16, cognitive: u16, line_count: u32) -> HealthFinding {
    HealthFinding {
        path: path.to_string(),
        name: name.to_string(),
        line: 1,
        col: 0,
        cyclomatic,
        cognitive,
        line_count,
        exceeded: ExceededThreshold::Both,
    }
}

fn names(findings: &[HealthFinding]) -> Vec<&str> {
    findings.iter().map(|f| f.name.as_str()).collect()
}

#[test]
fn exceeded_threshold_kinds() {
    assert_eq!(exceeded_threshold(25, 20, 20, 15), Some(ExceededThreshold::Both));
    assert_eq!(exceeded_threshold(25, 10, 20, 15), Some(ExceededThreshold::Cyclomatic));
    assert_eq!(exceeded_threshold(5, 16, 20, 15), Some(ExceededThreshold::Cognitive));
    assert_eq!(exceeded_threshold(20, 15, 20, 15), None);
}

#[test]
fn findings_follow_file_and_function_order() {
    let modules = vec![
        module("/p/src/a.ts", "src/a.ts", vec![func("simple", 1, 2, 1, 5), func("complex", 10, 30, 40, 80)]),
        module("/p/src/b.ts", "src/b.ts", vec![func("tangled", 3, 5, 20, 30)]),
    ];
    let r = collect_health_findings(&modules, &vec![], &None, 20, 15);
    assert_eq!(r.files_analyzed, 2);
    assert_eq!(r.functions_analyzed, 3);
    assert_eq!(names(&r.findings), vec!["complex", "tangled"]);
    assert_eq!(r.findings[0].exceeded, ExceededThreshold::Both);
    assert_eq!(r.findings[0].path, "/p/src/a.ts");
    assert_eq!(r.findings[0].line, 10);
    assert_eq!(r.findings[1].exceeded, ExceededThreshold::Cognitive);
}

#[test]
fn ignored_files_are_not_analyzed() {
    let modules = vec![
        module("/p/src/a.ts", "src/a.ts", vec![func("complex", 1, 30, 40, 80)]),
        module("/p/gen/b.ts", "gen/b.ts", vec![func("generated", 1, 30, 40, 80)]),
    ];
    let r = collect_health_findings(&modules, &vec!["gen/**".to_string()], &None, 20, 15);
    assert_eq!(r.files_analyzed, 1);
    assert_eq!(r.functions_analyzed, 1);
    assert_eq!(names(&r.findings), vec!["complex"]);
}

#[test]
fn only_changed_files_are_analyzed() {
    let modules = vec![
        module("/p/src/a.ts", "src/a.ts", vec![func("complex", 1, 30, 40, 80)]),
        module("/p/src/b.ts", "src/b.ts", vec![func("other", 1, 30, 40, 80)]),
    ];
    let changed = Some(vec!["/p/src/b.ts".to_string()]);
    let r = collect_health_findings(&modules, &vec![], &changed, 20, 15);
    assert_eq!(r.files_analyzed, 1);
    assert_eq!(names(&r.findings), vec!["other"]);
}

#[test]
fn workspace_scope_keeps_files_inside_root() {
    let mut findings = vec![
        finding("/p/packages/a/x.ts", "in_a", 30, 30, 10),
        finding("/p/packages/ab/y.ts", "in_ab", 30, 30, 10),
        finding("/p/packages/a/z.ts", "also_a", 30, 30, 10),
    ];
    retain_in_workspace(&mut findings, "/p/packages/a");
    assert_eq!(names(&findings), vec!["in_a", "also_a"]);
}

#[test]
fn sort_by_cyclomatic_is_descending_and_stable() {
    let mut findings = vec![
        finding("/p/a.ts", "low", 21, 1, 10),
        finding("/p/a.ts", "high_first", 40, 1, 10),
        finding("/p/a.ts", "mid", 30, 1, 10),
        finding("/p/a.ts", "high_second", 40, 1, 10),
    ];
    sort_findings(&mut findings, SortBy::Cyclomatic);
    assert_eq!(names(&findings), vec!["high_first", "high_second", "mid", "low"]);
}

#[test]
fn sort_by_lines_and_cognitive() {
    let mut findings = vec![finding("/p/a.ts", "short", 30, 50, 5), finding("/p/a.ts", "long", 30, 20, 500)];
    sort_findings(&mut findings, SortBy::Lines);
    assert_eq!(names(&findings), vec!["long", "short"]);
    sort_findings(&mut findings, SortBy::Cognitive);
    assert_eq!(names(&findings), vec!["short", "long"]);
}

#[test]
fn exit_code_reflects_remaining_findings() {
    assert_eq!(health_exit_code(0), 0);
    assert_eq!(health_exit_code(3), 1);
}

#[test]
fn health_run_resolves_thresholds_scopes_and_sorts() {
    let modules = vec![
        module("/p/packages/a/x.ts", "packages/a/x.ts", vec![func("mid", 1, 25, 0, 10), func("low", 5, 3, 0, 10)]),
        module("/p/packages/b/y.ts", "packages/b/y.ts", vec![func("other", 1, 40, 0, 10)]),
        module("/p/packages/a/z.ts", "packages/a/z.ts", vec![func("high", 1, 50, 0, 10)]),
    ];
    // the command-line cyclomatic limit overrides the configured 100
    let (mut findings, summary) =
        analyze_health(&modules, &vec![], &None, Some(20), None, 100, 15, Some("/p/packages/a"), SortBy::Cyclomatic);
    assert_eq!(names(&findings), vec!["high", "mid"]);
    assert_eq!(summary.files_analyzed, 3);
    assert_eq!(summary.functions_analyzed, 4);
    assert_eq!(summary.functions_above_threshold, 2);
    assert_eq!((summary.max_cyclomatic_threshold, summary.max_cognitive_threshold), (20, 15));
    limit_findings(&mut findings, Some(1));
    assert_eq!(names(&findings), vec!["high"]);
    limit_findings(&mut findings, Some(5));
    assert_eq!(findings.len(), 1);
    limit_findings(&mut findings, None);
    assert_eq!(findings.len(), 1);
}

#[test]
fn reported_findings_decide_the_exit_code() {
    let mut findings = vec![finding("/p/a.ts", "f", 30, 20, 10), finding("/p/b.ts", "g", 25, 18, 8)];
    assert_eq!(report_health(&mut findings, Some(1)), 1);
    assert_eq!(findings.len(), 1);
    assert_eq!(findings[0].name, "f");
    let mut none: Vec<HealthFinding> = vec![];
    assert_eq!(report_health(&mut none, None), 0);
    // a limit of zero reports nothing and succeeds
    let mut cut = vec![finding("/p/a.ts", "f", 30, 20, 10)];
    assert_eq!(report_health(&mut cut, Some(0)), 0);
    assert!(cut.is_empty());
}
