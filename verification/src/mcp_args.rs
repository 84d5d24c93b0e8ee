//! Command-line argument lists that the MCP server hands to the CLI binary,
//! one builder per tool.
use vstd::prelude::*;

use crate::text::{decimal, str_eq, push_str, to_owned_string, u64_to_string, views};

verus! {

/// Issue type names accepted by the `analyze` tool and the CLI flag each one enables.
pub const ISSUE_TYPE_FLAGS: [(&'static str, &'static str); 10] = [
    ("unused-files", "--unused-files"),
    ("unused-exports", "--unused-exports"),
    ("unused-types", "--unused-types"),
    ("unused-deps", "--unused-deps"),
    ("unused-enum-members", "--unused-enum-members"),
    ("unused-class-members", "--unused-class-members"),
    ("unresolved-imports", "--unresolved-imports"),
    ("unlisted-deps", "--unlisted-deps"),
    ("duplicate-exports", "--duplicate-exports"),
    ("circular-deps", "--circular-deps"),
];

/// Duplication detection modes accepted by the `find_dupes` tool.
pub const VALID_DUPES_MODES: [&'static str; 4] = ["strict", "mild", "weak", "semantic"];

/// Parameters of the `analyze` tool.
#[derive(Debug, Default)]
pub struct AnalyzeParams {
    pub root: Option<String>,
    pub config: Option<String>,
    pub production: Option<bool>,
    pub workspace: Option<String>,
    pub issue_types: Option<Vec<String>>,
    pub baseline: Option<String>,
    pub save_baseline: Option<String>,
    pub no_cache: Option<bool>,
    pub threads: Option<usize>,
}

/// Parameters of the `check_changed` tool.
#[derive(Debug, Default)]
pub struct CheckChangedParams {
    pub root: Option<String>,
    pub since: String,
    pub config: Option<String>,
    pub production: Option<bool>,
    pub workspace: Option<String>,
    pub baseline: Option<String>,
    pub save_baseline: Option<String>,
    pub no_cache: Option<bool>,
    pub threads: Option<usize>,
}

/// Parameters of the `find_dupes` tool. `threshold` holds the decimal text of
/// the similarity threshold as the float formatter writes it (`5.5`, `0`).
#[derive(Debug, Default)]
pub struct FindDupesParams {
    pub root: Option<String>,
    pub config: Option<String>,
    pub workspace: Option<String>,
    pub mode: Option<String>,
    pub min_tokens: Option<usize>,
    pub min_lines: Option<usize>,
    pub threshold: Option<String>,
    pub skip_local: Option<bool>,
    pub cross_language: Option<bool>,
    pub top: Option<usize>,
    pub baseline: Option<String>,
    pub save_baseline: Option<String>,
    pub no_cache: Option<bool>,
    pub threads: Option<usize>,
}

/// Parameters shared by the `fix_preview` and `fix_apply` tools.
#[derive(Debug, Default)]
pub struct FixParams {
    pub root: Option<String>,
    pub config: Option<String>,
    pub production: Option<bool>,
    pub workspace: Option<String>,
    pub no_cache: Option<bool>,
    pub threads: Option<usize>,
}

/// Parameters of the `project_info` tool.
#[derive(Debug, Default)]
pub struct ProjectInfoParams {
    pub root: Option<String>,
    pub config: Option<String>,
}

/// Parameters of the `health` tool.
#[derive(Debug, Default)]
pub struct HealthParams {
    pub root: Option<String>,
    pub config: Option<String>,
    pub max_cyclomatic: Option<u16>,
    pub max_cognitive: Option<u16>,
    pub top: Option<usize>,
    pub sort: Option<String>,
    pub changed_since: Option<String>,
    pub complexity: Option<bool>,
    pub file_scores: Option<bool>,
    pub hotspots: Option<bool>,
    pub targets: Option<bool>,
    pub since: Option<String>,
    pub min_commits: Option<u32>,
    pub workspace: Option<String>,
    pub production: Option<bool>,
    pub save_snapshot: Option<String>,
    pub baseline: Option<String>,
    pub save_baseline: Option<String>,
    pub no_cache: Option<bool>,
    pub threads: Option<usize>,
}

// ---- specification ---------------------------------------------------------

/// `[flag, value]` when the value is present, nothing otherwise.
pub open spec fn value_args(flag: Seq<char>, v: Option<String>) -> Seq<Seq<char>> {
    match v {
        Some(s) => seq![flag, s@],
        None => seq![],
    }
}

/// `[flag]` when the option is set to `true`, nothing otherwise.
pub open spec fn switch_args(flag: Seq<char>, b: Option<bool>) -> Seq<Seq<char>> {
    if b == Some(true) { seq![flag] } else { seq![] }
}

/// `[flag, decimal(n)]` when a number is present, nothing otherwise.
pub open spec fn number_args(flag: Seq<char>, v: Option<nat>) -> Seq<Seq<char>> {
    match v {
        Some(n) => seq![flag, decimal(n)],
        None => seq![],
    }
}

pub open spec fn usize_opt(v: Option<usize>) -> Option<nat> {
    match v { Some(n) => Some(n as nat), None => None }
}

pub open spec fn u16_opt(v: Option<u16>) -> Option<nat> {
    match v { Some(n) => Some(n as nat), None => None }
}

pub open spec fn u32_opt(v: Option<u32>) -> Option<nat> {
    match v { Some(n) => Some(n as nat), None => None }
}

/// The flag of the first entry of the issue-type table at or after `i` named `name`.
pub open spec fn issue_type_flag_from(name: Seq<char>, i: int) -> Option<Seq<char>>
    decreases 10 - i,
{
    if i < 0 || i >= 10 {
        None
    } else if ISSUE_TYPE_FLAGS[i].0@ == name {
        Some(ISSUE_TYPE_FLAGS[i].1@)
    } else {
        issue_type_flag_from(name, i + 1)
    }
}

/// The CLI flag for an issue type name, if the name is known.
pub open spec fn issue_type_flag(name: Seq<char>) -> Option<Seq<char>> {
    issue_type_flag_from(name, 0)
}

/// The issue type names of the table from entry `i` on, each followed by `", "` but the last.
pub open spec fn issue_type_names_from(i: int) -> Seq<char>
    decreases 10 - i,
{
    if i < 0 || i >= 10 {
        seq![]
    } else if i == 9 {
        ISSUE_TYPE_FLAGS[i].0@
    } else {
        ISSUE_TYPE_FLAGS[i].0@ + ", "@ + issue_type_names_from(i + 1)
    }
}

/// Error text for an unknown issue type.
pub open spec fn unknown_issue_type_message(t: Seq<char>) -> Seq<char> {
    "Unknown issue type '"@ + t + "'. Valid values: "@ + issue_type_names_from(0)
}

/// Error text for an unknown duplication mode.
pub open spec fn invalid_mode_message(m: Seq<char>) -> Seq<char> {
    "Invalid mode '"@ + m + "'. Valid values: strict, mild, weak, semantic"@
}

/// Whether `m` is one of the accepted duplication modes.
pub open spec fn is_valid_dupes_mode(m: Seq<char>) -> bool {
    exists|i: int| 0 <= i < 4 && VALID_DUPES_MODES[i]@ == m
}

/// The flags of all given issue types (meaningful when every one is known).
pub open spec fn issue_flags(types: Seq<String>) -> Seq<Seq<char>> {
    types.map_values(|t: String| issue_type_flag(t@).unwrap())
}

/// Flags common to the cache-aware tools.
pub open spec fn global_args(
    baseline: Option<String>,
    save_baseline: Option<String>,
    no_cache: Option<bool>,
    threads: Option<usize>,
) -> Seq<Seq<char>> {
    value_args("--baseline"@, baseline) + value_args("--save-baseline"@, save_baseline)
        + switch_args("--no-cache"@, no_cache) + number_args("--threads"@, usize_opt(threads))
}

pub open spec fn analyze_base() -> Seq<Seq<char>> {
    seq!["dead-code"@, "--format"@, "json"@, "--quiet"@, "--explain"@]
}

/// The argument list of the `analyze` tool before its issue-type flags.
pub open spec fn analyze_args_spec(p: AnalyzeParams) -> Seq<Seq<char>> {
    analyze_base() + value_args("--root"@, p.root) + value_args("--config"@, p.config)
        + switch_args("--production"@, p.production) + value_args("--workspace"@, p.workspace)
        + global_args(p.baseline, p.save_baseline, p.no_cache, p.threads)
}

/// The argument list of the `check_changed` tool.
pub open spec fn check_changed_args_spec(p: CheckChangedParams) -> Seq<Seq<char>> {
    analyze_base() + seq!["--changed-since"@, p.since@] + value_args("--root"@, p.root)
        + value_args("--config"@, p.config) + switch_args("--production"@, p.production)
        + value_args("--workspace"@, p.workspace)
        + global_args(p.baseline, p.save_baseline, p.no_cache, p.threads)
}

/// The argument list of the `find_dupes` tool (for a valid or absent mode).
pub open spec fn find_dupes_args_spec(p: FindDupesParams) -> Seq<Seq<char>> {
    seq!["dupes"@, "--format"@, "json"@, "--quiet"@, "--explain"@]
        + value_args("--root"@, p.root) + value_args("--config"@, p.config)
        + value_args("--workspace"@, p.workspace) + value_args("--mode"@, p.mode)
        + number_args("--min-tokens"@, usize_opt(p.min_tokens))
        + number_args("--min-lines"@, usize_opt(p.min_lines))
        + value_args("--threshold"@, p.threshold)
        + switch_args("--skip-local"@, p.skip_local)
        + switch_args("--cross-language"@, p.cross_language)
        + number_args("--top"@, usize_opt(p.top))
        + global_args(p.baseline, p.save_baseline, p.no_cache, p.threads)
}

/// Flags shared by both fix tools.
pub open spec fn fix_common_spec(p: FixParams) -> Seq<Seq<char>> {
    value_args("--root"@, p.root) + value_args("--config"@, p.config)
        + switch_args("--production"@, p.production) + value_args("--workspace"@, p.workspace)
        + switch_args("--no-cache"@, p.no_cache) + number_args("--threads"@, usize_opt(p.threads))
}

/// The argument list of the `project_info` tool.
pub open spec fn project_info_args_spec(p: ProjectInfoParams) -> Seq<Seq<char>> {
    seq!["list"@, "--format"@, "json"@, "--quiet"@] + value_args("--root"@, p.root)
        + value_args("--config"@, p.config)
}

/// The argument list of the `health` tool.
pub open spec fn health_args_spec(p: HealthParams) -> Seq<Seq<char>> {
    seq!["health"@, "--format"@, "json"@, "--quiet"@, "--explain"@]
        + value_args("--root"@, p.root) + value_args("--config"@, p.config)
        + number_args("--max-cyclomatic"@, u16_opt(p.max_cyclomatic))
        + number_args("--max-cognitive"@, u16_opt(p.max_cognitive))
        + number_args("--top"@, usize_opt(p.top)) + value_args("--sort"@, p.sort)
        + value_args("--changed-since"@, p.changed_since)
        + switch_args("--complexity"@, p.complexity)
        + switch_args("--file-scores"@, p.file_scores)
        + switch_args("--hotspots"@, p.hotspots) + switch_args("--targets"@, p.targets)
        + value_args("--since"@, p.since) + number_args("--min-commits"@, u32_opt(p.min_commits))
        + value_args("--workspace"@, p.workspace) + switch_args("--production"@, p.production)
        + value_args("--save-snapshot"@, p.save_snapshot)
        + global_args(p.baseline, p.save_baseline, p.no_cache, p.threads)
}

// ---- building blocks --------------------------------------------------------

proof fn lemma_views_push(v: Seq<String>, s: String)
    ensures
        views(v.push(s)) == views(v).push(s@),
{
    assert(views(v.push(s)) =~= views(v).push(s@));
}

fn push_lit(args: &mut Vec<String>, a: &str)
    ensures
        views(final(args)@) == views(old(args)@).push(a@),
{
    let s = to_owned_string(a);
    args.push(s);
    proof { lemma_views_push(old(args)@, s); }
}

fn push_value(args: &mut Vec<String>, flag: &str, v: &Option<String>)
    ensures
        views(final(args)@) == views(old(args)@) + value_args(flag@, *v),
{
    match v {
        Some(s) => {
            push_lit(args, flag);
            let c = s.clone();
            let ghost mid = args@;
            args.push(c);
            proof { lemma_views_push(mid, c); }
            assert(views(args@) =~= views(old(args)@) + value_args(flag@, *v));
        },
        None => {
            assert(views(args@) =~= views(old(args)@) + value_args(flag@, *v));
        },
    }
}

fn push_switch(args: &mut Vec<String>, flag: &str, b: Option<bool>)
    ensures
        views(final(args)@) == views(old(args)@) + switch_args(flag@, b),
{
    if b == Some(true) {
        push_lit(args, flag);
        assert(views(args@) =~= views(old(args)@) + switch_args(flag@, b));
    } else {
        assert(views(args@) =~= views(old(args)@) + switch_args(flag@, b));
    }
}

fn push_number(args: &mut Vec<String>, flag: &str, v: Option<u64>)
    ensures
        views(final(args)@) == views(old(args)@) + number_args(flag@, match v { Some(n) => Some(n as nat), None => None }),
{
    match v {
        Some(n) => {
            push_lit(args, flag);
            let s = u64_to_string(n);
            let ghost mid = args@;
            args.push(s);
            proof { lemma_views_push(mid, s); }
            assert(views(args@) =~= views(old(args)@) + number_args(flag@, Some(n as nat)));
        },
        None => {
            assert(views(args@) =~= views(old(args)@) + number_args(flag@, None));
        },
    }
}

fn usize_to_u64(v: Option<usize>) -> (r: Option<u64>)
    ensures
        match r { Some(n) => Some(n as nat), None => None } == usize_opt(v),
{
    match v {
        Some(n) => Some(n as u64),
        None => None,
    }
}

fn push_globals(
    args: &mut Vec<String>,
    baseline: &Option<String>,
    save_baseline: &Option<String>,
    no_cache: Option<bool>,
    threads: Option<usize>,
)
    ensures
        views(final(args)@) == views(old(args)@) + global_args(*baseline, *save_baseline, no_cache, threads),
{
    push_value(args, "--baseline", baseline);
    push_value(args, "--save-baseline", save_baseline);
    push_switch(args, "--no-cache", no_cache);
    push_number(args, "--threads", usize_to_u64(threads));
    assert(views(args@) =~= views(old(args)@) + global_args(*baseline, *save_baseline, no_cache, threads));
}

/// The CLI flag for an issue type name, looked up in [`ISSUE_TYPE_FLAGS`].
pub fn lookup_issue_type_flag(name: &str) -> (r: Option<&'static str>)
    ensures
        match r {
            Some(f) => issue_type_flag(name@) == Some(f@),
            None => issue_type_flag(name@) is None,
        },
{
    let mut i: usize = 0;
    while i < 10
        invariant
            i <= 10,
            issue_type_flag(name@) == issue_type_flag_from(name@, i as int),
        decreases 10 - i,
    {
        let (n, f) = ISSUE_TYPE_FLAGS[i];
        if str_eq(n, name) {
            return Some(f);
        }
        i = i + 1;
    }
    None
}

fn unknown_issue_type_text(t: &str) -> (r: String)
    ensures
        r@ == unknown_issue_type_message(t@),
{
    let mut s = to_owned_string("Unknown issue type '");
    push_str(&mut s, t);
    push_str(&mut s, "'. Valid values: ");
    let ghost head = s@;
    let mut i: usize = 0;
    while i < 10
        invariant
            i <= 10,
            s@ + issue_type_names_from(i as int) == head + issue_type_names_from(0),
            head == "Unknown issue type '"@ + t@ + "'. Valid values: "@,
        decreases 10 - i,
    {
        let (n, _) = ISSUE_TYPE_FLAGS[i];
        let ghost before = s@;
        push_str(&mut s, n);
        if i < 9 {
            push_str(&mut s, ", ");
            assert(s@ + issue_type_names_from(i + 1) == before + issue_type_names_from(i as int));
        } else {
            assert(s@ + issue_type_names_from(i + 1) =~= before + issue_type_names_from(i as int));
        }
        i = i + 1;
    }
    assert(s@ =~= s@ + issue_type_names_from(10));
    s
}

// ---- builders ---------------------------------------------------------------

/// Build CLI arguments for the `analyze` tool. Fails, naming the first
/// unknown issue type and listing the valid ones, when an issue type is unknown.
pub fn build_analyze_args(params: &AnalyzeParams) -> (r: Result<Vec<String>, String>)
    ensures
        match params.issue_types {
            None => r matches Ok(args) && views(args@) == analyze_args_spec(*params),
            Some(types) => match r {
                Ok(args) => (forall|i: int| 0 <= i < types@.len() ==> (#[trigger] issue_type_flag(types@[i]@)) is Some)
                    && views(args@) == analyze_args_spec(*params) + issue_flags(types@),
                Err(msg) => exists|i: int| 0 <= i < types@.len()
                    && (#[trigger] issue_type_flag(types@[i]@)) is None
                    && (forall|j: int| 0 <= j < i ==> (#[trigger] issue_type_flag(types@[j]@)) is Some)
                    && msg@ == unknown_issue_type_message(types@[i]@),
            },
        },
{
    let mut args: Vec<String> = Vec::new();
    push_lit(&mut args, "dead-code");
    push_lit(&mut args, "--format");
    push_lit(&mut args, "json");
    push_lit(&mut args, "--quiet");
    push_lit(&mut args, "--explain");
    push_value(&mut args, "--root", &params.root);
    push_value(&mut args, "--config", &params.config);
    push_switch(&mut args, "--production", params.production);
    push_value(&mut args, "--workspace", &params.workspace);
    push_globals(&mut args, &params.baseline, &params.save_baseline, params.no_cache, params.threads);
    assert(views(args@) =~= analyze_args_spec(*params));
    match &params.issue_types {
        None => Ok(args),
        Some(types) => {
            assert(params.issue_types == Some(*types));
            let ghost base = views(args@);
            let mut i: usize = 0;
            while i < types.len()
                invariant
                    params.issue_types == Some(*types),
                    i <= types@.len(),
                    forall|j: int| 0 <= j < i ==> (#[trigger] issue_type_flag(types@[j]@)) is Some,
                    views(args@) == base + issue_flags(types@.take(i as int)),
                decreases types.len() - i,
            {
                let t = &types[i];
                match lookup_issue_type_flag(t.as_str()) {
                    Some(flag) => {
                        let ghost prev = views(args@);
                        push_lit(&mut args, flag);
                        assert(issue_flags(types@.take(i + 1)) =~= issue_flags(types@.take(i as int)).push(flag@));
                    },
                    None => {
                        return Err(unknown_issue_type_text(t.as_str()));
                    },
                }
                i = i + 1;
            }
            assert(types@.take(types@.len() as int) =~= types@);
            Ok(args)
        },
    }
}

/// Build CLI arguments for the `check_changed` tool.
pub fn build_check_changed_args(params: CheckChangedParams) -> (args: Vec<String>)
    ensures
        views(args@) == check_changed_args_spec(params),
{
    let mut args: Vec<String> = Vec::new();
    push_lit(&mut args, "dead-code");
    push_lit(&mut args, "--format");
    push_lit(&mut args, "json");
    push_lit(&mut args, "--quiet");
    push_lit(&mut args, "--explain");
    push_lit(&mut args, "--changed-since");
    let ghost mid = args@;
    let since = params.since.clone();
    args.push(since);
    proof { lemma_views_push(mid, since); }
    push_value(&mut args, "--root", &params.root);
    push_value(&mut args, "--config", &params.config);
    push_switch(&mut args, "--production", params.production);
    push_value(&mut args, "--workspace", &params.workspace);
    push_globals(&mut args, &params.baseline, &params.save_baseline, params.no_cache, params.threads);
    assert(views(args@) =~= check_changed_args_spec(params));
    args
}

/// Whether a mode is one of [`VALID_DUPES_MODES`].
pub fn is_valid_mode(mode: &str) -> (r: bool)
    ensures
        r == is_valid_dupes_mode(mode@),
{
    let mut i: usize = 0;
    while i < 4
        invariant
            i <= 4,
            forall|j: int| 0 <= j < i ==> VALID_DUPES_MODES[j]@ != mode@,
        decreases 4 - i,
    {
        if str_eq(VALID_DUPES_MODES[i], mode) {
            return true;
        }
        i = i + 1;
    }
    false
}

/// Build CLI arguments for the `find_dupes` tool. Fails exactly when a mode is
/// given that is not one of [`VALID_DUPES_MODES`].
pub fn build_find_dupes_args(params: &FindDupesParams) -> (r: Result<Vec<String>, String>)
    ensures
        match params.mode {
            Some(m) if !is_valid_dupes_mode(m@) => r matches Err(msg) && msg@ == invalid_mode_message(m@),
            _ => r matches Ok(args) && views(args@) == find_dupes_args_spec(*params),
        },
{
    let mut args: Vec<String> = Vec::new();
    push_lit(&mut args, "dupes");
    push_lit(&mut args, "--format");
    push_lit(&mut args, "json");
    push_lit(&mut args, "--quiet");
    push_lit(&mut args, "--explain");
    push_value(&mut args, "--root", &params.root);
    push_value(&mut args, "--config", &params.config);
    push_value(&mut args, "--workspace", &params.workspace);
    if let Some(mode) = &params.mode {
        if !is_valid_mode(mode.as_str()) {
            let mut msg = to_owned_string("Invalid mode '");
            push_str(&mut msg, mode.as_str());
            push_str(&mut msg, "'. Valid values: strict, mild, weak, semantic");
            return Err(msg);
        }
    }
    push_value(&mut args, "--mode", &params.mode);
    push_number(&mut args, "--min-tokens", usize_to_u64(params.min_tokens));
    push_number(&mut args, "--min-lines", usize_to_u64(params.min_lines));
    push_value(&mut args, "--threshold", &params.threshold);
    push_switch(&mut args, "--skip-local", params.skip_local);
    push_switch(&mut args, "--cross-language", params.cross_language);
    push_number(&mut args, "--top", usize_to_u64(params.top));
    push_globals(&mut args, &params.baseline, &params.save_baseline, params.no_cache, params.threads);
    assert(views(args@) =~= find_dupes_args_spec(*params));
    Ok(args)
}

/// Append shared fix flags to the argument list.
pub fn push_fix_common(args: &mut Vec<String>, params: &FixParams)
    ensures
        views(final(args)@) == views(old(args)@) + fix_common_spec(*params),
{
    push_value(args, "--root", &params.root);
    push_value(args, "--config", &params.config);
    push_switch(args, "--production", params.production);
    push_value(args, "--workspace", &params.workspace);
    push_switch(args, "--no-cache", params.no_cache);
    push_number(args, "--threads", usize_to_u64(params.threads));
    assert(views(args@) =~= views(old(args)@) + fix_common_spec(*params));
}

/// The arguments of the `fix_preview` tool.
pub open spec fn fix_preview_args_spec(params: FixParams) -> Seq<Seq<char>> {
    seq!["fix"@, "--dry-run"@, "--format"@, "json"@, "--quiet"@] + fix_common_spec(params)
}

/// The arguments of the `fix_apply` tool.
pub open spec fn fix_apply_args_spec(params: FixParams) -> Seq<Seq<char>> {
    seq!["fix"@, "--yes"@, "--format"@, "json"@, "--quiet"@] + fix_common_spec(params)
}

/// Applying a fix runs the command that its preview runs, confirmed: the
/// two differ only in their second argument, `--yes` for `--dry-run`.
pub proof fn lemma_fix_apply_confirms_preview(params: FixParams)
    ensures
        fix_apply_args_spec(params) == fix_preview_args_spec(params).update(1, "--yes"@),
        fix_preview_args_spec(params)[1] == "--dry-run"@,
{
    assert(fix_apply_args_spec(params) =~= fix_preview_args_spec(params).update(1, "--yes"@));
}

/// Build CLI arguments for the `fix_preview` tool (a dry run).
pub fn build_fix_preview_args(params: &FixParams) -> (args: Vec<String>)
    ensures
        views(args@) == fix_preview_args_spec(*params),
{
    let mut args: Vec<String> = Vec::new();
    push_lit(&mut args, "fix");
    push_lit(&mut args, "--dry-run");
    push_lit(&mut args, "--format");
    push_lit(&mut args, "json");
    push_lit(&mut args, "--quiet");
    assert(views(args@) =~= seq!["fix"@, "--dry-run"@, "--format"@, "json"@, "--quiet"@]);
    push_fix_common(&mut args, params);
    args
}

/// Build CLI arguments for the `fix_apply` tool (applies without prompting).
pub fn build_fix_apply_args(params: &FixParams) -> (args: Vec<String>)
    ensures
        views(args@) == fix_apply_args_spec(*params),
{
    let mut args: Vec<String> = Vec::new();
    push_lit(&mut args, "fix");
    push_lit(&mut args, "--yes");
    push_lit(&mut args, "--format");
    push_lit(&mut args, "json");
    push_lit(&mut args, "--quiet");
    assert(views(args@) =~= seq!["fix"@, "--yes"@, "--format"@, "json"@, "--quiet"@]);
    push_fix_common(&mut args, params);
    args
}

/// Build CLI arguments for the `project_info` tool.
pub fn build_project_info_args(params: &ProjectInfoParams) -> (args: Vec<String>)
    ensures
        views(args@) == project_info_args_spec(*params),
{
    let mut args: Vec<String> = Vec::new();
    push_lit(&mut args, "list");
    push_lit(&mut args, "--format");
    push_lit(&mut args, "json");
    push_lit(&mut args, "--quiet");
    push_value(&mut args, "--root", &params.root);
    push_value(&mut args, "--config", &params.config);
    assert(views(args@) =~= project_info_args_spec(*params));
    args
}

fn u16_to_u64(v: Option<u16>) -> (r: Option<u64>)
    ensures
        match r { Some(n) => Some(n as nat), None => None } == u16_opt(v),
{
    match v { Some(n) => Some(n as u64), None => None }
}

fn u32_to_u64(v: Option<u32>) -> (r: Option<u64>)
    ensures
        match r { Some(n) => Some(n as nat), None => None } == u32_opt(v),
{
    match v { Some(n) => Some(n as u64), None => None }
}

/// Build CLI arguments for the `health` tool.
pub fn build_health_args(params: &HealthParams) -> (args: Vec<String>)
    ensures
        views(args@) == health_args_spec(*params),
{
    let mut args: Vec<String> = Vec::new();
    push_lit(&mut args, "health");
    push_lit(&mut args, "--format");
    push_lit(&mut args, "json");
    push_lit(&mut args, "--quiet");
    push_lit(&mut args, "--explain");
    push_value(&mut args, "--root", &params.root);
    push_value(&mut args, "--config", &params.config);
    push_number(&mut args, "--max-cyclomatic", u16_to_u64(params.max_cyclomatic));
    push_number(&mut args, "--max-cognitive", u16_to_u64(params.max_cognitive));
    push_number(&mut args, "--top", usize_to_u64(params.top));
    push_value(&mut args, "--sort", &params.sort);
    push_value(&mut args, "--changed-since", &params.changed_since);
    push_switch(&mut args, "--complexity", params.complexity);
    push_switch(&mut args, "--file-scores", params.file_scores);
    push_switch(&mut args, "--hotspots", params.hotspots);
    push_switch(&mut args, "--targets", params.targets);
    push_value(&mut args, "--since", &params.since);
    push_number(&mut args, "--min-commits", u32_to_u64(params.min_commits));
    push_value(&mut args, "--workspace", &params.workspace);
    push_switch(&mut args, "--production", params.production);
    push_value(&mut args, "--save-snapshot", &params.save_snapshot);
    push_globals(&mut args, &params.baseline, &params.save_baseline, params.no_cache, params.threads);
    assert(views(args@) =~= health_args_spec(*params));
    args
}

} // verus!
