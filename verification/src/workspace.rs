//! Monorepo workspaces: which workspace directories count, what they are
//! called, and which of them other workspaces depend on.
use vstd::prelude::*;

use crate::text::{
    chars_eq, chars_start_with, copy_string, starts_with, str_chars, string_eq, string_from_chars,
    sub_vec, views,
};

verus! {

/// Workspace configuration for monorepo support.
#[derive(Debug, Clone, Default)]
pub struct WorkspaceConfig {
    /// Additional workspace patterns (beyond what's in root package.json).
    pub patterns: Vec<String>,
}

/// A discovered workspace package.
#[derive(Debug, Clone)]
pub struct WorkspaceInfo {
    /// Workspace root path.
    pub root: String,
    /// Package name from package.json.
    pub name: String,
    /// Whether this workspace is depended on by other workspaces.
    pub is_internal_dependency: bool,
}

/// What a workspace directory's package.json says.
#[derive(Debug, Clone)]
pub struct WorkspacePackage {
    pub name: Option<String>,
    pub dependency_names: Vec<String>,
}

/// A directory that a workspace pattern or a project reference points to.
#[derive(Debug, Clone)]
pub struct WorkspaceCandidate {
    /// The directory as found.
    pub dir: String,
    /// The directory with links and `..` resolved.
    pub canonical_dir: String,
    /// Its package.json, when one was read.
    pub package: Option<WorkspacePackage>,
}

// ---- paths -------------------------------------------------------------

/// Whether `dir` lies under `root`, component-wise (both canonical:
/// absolute, without `.`, `..` or a trailing `/`).
pub open spec fn path_under(dir: Seq<char>, root: Seq<char>) -> bool {
    dir == root || (starts_with(dir, root) && dir.len() > root.len() && (dir[root.len() as int] == '/' || root == "/"@))
}

/// `dir` relative to `root` when it lies under it, else `dir` itself.
pub open spec fn relative_to(dir: Seq<char>, root: Seq<char>) -> Seq<char> {
    if dir == root {
        seq![]
    } else if path_under(dir, root) {
        if root == "/"@ { dir.skip(1) } else { dir.skip(root.len() as int + 1) }
    } else {
        dir
    }
}

/// The last component of a path (empty for a path ending in `/`).
pub open spec fn last_component(p: Seq<char>) -> Seq<char>
    decreases p.len(),
{
    if p.len() == 0 {
        seq![]
    } else if p.last() == '/' {
        seq![]
    } else {
        last_component(p.drop_last()).push(p.last())
    }
}

fn path_under_exec(dir: &Vec<char>, root: &Vec<char>) -> (r: bool)
    ensures
        r == path_under(dir@, root@),
{
    let slash = str_chars("/");
    if chars_eq(dir, root) {
        return true;
    }
    chars_start_with(dir, root) && dir.len() > root.len() && (dir[root.len()] == '/' || chars_eq(root, &slash))
}

/// Whether `dir` lies under `root` (see [`path_under`]).
pub fn is_under(dir: &str, root: &str) -> (r: bool)
    ensures
        r == path_under(dir@, root@),
{
    path_under_exec(&str_chars(dir), &str_chars(root))
}

/// `dir` relative to `root` (see [`relative_to`]).
pub fn relative_path(dir: &str, root: &str) -> (r: String)
    ensures
        r@ == relative_to(dir@, root@),
{
    let d = str_chars(dir);
    let rt = str_chars(root);
    let slash = str_chars("/");
    if chars_eq(&d, &rt) {
        return String::new();
    }
    if path_under_exec(&d, &rt) {
        if chars_eq(&rt, &slash) {
            let rest = sub_vec(&d, 1, d.len());
            assert(rest@ =~= d@.skip(1));
            string_from_chars(&rest)
        } else {
            assert(d@.len() > rt@.len());
            assert(rt.len() < d.len());
            let rest = sub_vec(&d, rt.len() + 1, d.len());
            assert(rest@ =~= d@.skip(rt@.len() as int + 1));
            string_from_chars(&rest)
        }
    } else {
        copy_string(&dir.to_string())
    }
}

/// Extract the directory name as a string, for workspace name fallback.
pub fn dir_name(dir: &str) -> (r: String)
    ensures
        r@ == last_component(dir@),
{
    let d = str_chars(dir);
    let mut start = d.len();
    assert(d@.take(d@.len() as int) =~= d@);
    assert(d@.subrange(d@.len() as int, d@.len() as int) =~= seq![]);
    assert(d@ + seq![] =~= d@);
    while start > 0 && d[start - 1] != '/'
        invariant
            start <= d@.len(),
            last_component(d@) == last_component(d@.take(start as int)) + d@.subrange(start as int, d@.len() as int),
        decreases start,
    {
        proof {
            let t = d@.take(start as int);
            assert(t.drop_last() =~= d@.take(start - 1));
            assert(t.last() == d@[start - 1]);
            assert(d@.subrange(start - 1, d@.len() as int) =~= seq![d@[start - 1]] + d@.subrange(start as int, d@.len() as int));
            assert(last_component(d@.take(start - 1)).push(d@[start - 1]) + d@.subrange(start as int, d@.len() as int)
                =~= last_component(d@.take(start - 1)) + d@.subrange(start - 1, d@.len() as int));
        }
        start = start - 1;
    }
    proof {
        assert(last_component(d@.take(start as int)) =~= seq![]);
        assert(seq![] + d@.subrange(start as int, d@.len() as int) =~= d@.subrange(start as int, d@.len() as int));
    }
    let rest = sub_vec(&d, start, d.len());
    string_from_chars(&rest)
}

// ---- patterns ----------------------------------------------------------

/// The positive patterns, and the negated ones without their `!`, each in
/// order.
pub open spec fn split_patterns(p: Seq<Seq<char>>) -> (Seq<Seq<char>>, Seq<Seq<char>>)
    decreases p.len(),
{
    if p.len() == 0 {
        (seq![], seq![])
    } else {
        let prev = split_patterns(p.drop_last());
        let x = p.last();
        if starts_with(x, "!"@) { (prev.0, prev.1.push(x.skip(1))) } else { (prev.0.push(x), prev.1) }
    }
}

/// Separate positive and negated (`!`) workspace patterns.
pub fn split_workspace_patterns(patterns: &Vec<String>) -> (r: (Vec<String>, Vec<String>))
    ensures
        (views(r.0@), views(r.1@)) == split_patterns(views(patterns@)),
{
    let mut pos: Vec<String> = Vec::new();
    let mut neg: Vec<String> = Vec::new();
    let mut i: usize = 0;
    while i < patterns.len()
        invariant
            i <= patterns@.len(),
            (views(pos@), views(neg@)) == split_patterns(views(patterns@.take(i as int))),
        decreases patterns.len() - i,
    {
        assert(views(patterns@.take(i + 1)).drop_last() =~= views(patterns@.take(i as int)));
        let p = &patterns[i];
        let v = str_chars(p.as_str());
        let bang = str_chars("!");
        proof { reveal_strlit("!"); }
        if chars_start_with(&v, &bang) {
            let rest = sub_vec(&v, 1, v.len());
            assert(rest@ =~= p@.skip(1));
            let ghost before = views(neg@);
            neg.push(string_from_chars(&rest));
            assert(views(neg@) =~= before.push(p@.skip(1)));
        } else {
            let ghost before = views(pos@);
            pos.push(copy_string(p));
            assert(views(pos@) =~= before.push(p@));
        }
        i = i + 1;
    }
    assert(patterns@.take(patterns@.len() as int) =~= patterns@);
    (pos, neg)
}

/// The glob for a workspace pattern: `dir/` means the directories in `dir`.
pub open spec fn workspace_glob_spec(p: Seq<char>) -> Seq<char> {
    if p.len() > 0 && p.last() == '/' { p.push('*') } else { p }
}

/// The glob for a workspace pattern (see [`workspace_glob_spec`]).
pub fn workspace_glob(pattern: &str) -> (r: String)
    ensures
        r@ == workspace_glob_spec(pattern@),
{
    let mut s = crate::text::to_owned_string(pattern);
    proof { reveal_strlit("/"); }
    if crate::text::str_ends_with(pattern, "/") {
        assert(pattern@.subrange(pattern@.len() - 1, pattern@.len() as int)[0] == pattern@.last());
        crate::text::push_char(&mut s, '*');
    } else {
        proof {
            if pattern@.len() > 0 && pattern@.last() == '/' {
                assert(pattern@.subrange(pattern@.len() - 1, pattern@.len() as int) =~= "/"@);
            }
        }
    }
    s
}

/// Whether some glob of the list matches the path; globs that do not
/// compile match nothing.
pub open spec fn excluded_by(globs: Seq<Seq<char>>, path: Seq<char>) -> bool {
    exists|i: int| 0 <= i < globs.len() && #[trigger] crate::regex_support::glob_match_result(globs[i], path) == Some(true)
}

pub(crate) fn excluded_by_exec(globs: &Vec<String>, path: &str) -> (r: bool)
    ensures
        r == excluded_by(views(globs@), path@),
{
    let mut i: usize = 0;
    while i < globs.len()
        invariant
            i <= globs@.len(),
            forall|k: int| 0 <= k < i ==> #[trigger] crate::regex_support::glob_match_result(views(globs@)[k], path@) != Some(true),
        decreases globs.len() - i,
    {
        let m = crate::regex_support::glob_is_match(globs[i].as_str(), path);
        assert(views(globs@)[i as int] == globs@[i as int]@);
        if m == Some(true) {
            return true;
        }
        i = i + 1;
    }
    false
}

// ---- choosing workspaces -----------------------------------------------

/// A chosen workspace, its dependency names and its canonical directory.
pub struct Chosen {
    pub info: WorkspaceInfo,
    pub deps: Vec<String>,
    pub canonical: String,
}

/// The name of a workspace: its package name, else its directory's name.
pub open spec fn workspace_name_of(package_name: Option<String>, dir: Seq<char>) -> Seq<char> {
    match package_name {
        Some(n) => n@,
        None => last_component(dir),
    }
}

/// Whether a pattern-matched directory becomes a workspace: it is not the
/// root itself, no negated pattern excludes it, and it has a package.json.
pub open spec fn pattern_candidate_kept(c: WorkspaceCandidate, root: Seq<char>, canonical_root: Seq<char>, negations: Seq<Seq<char>>) -> bool {
    &&& c.canonical_dir@ != canonical_root
    &&& !excluded_by(negations, relative_to(c.dir@, root))
    &&& c.package is Some
}

/// Whether a referenced directory becomes a workspace: it lies strictly
/// inside the root.
pub open spec fn reference_candidate_kept(c: WorkspaceCandidate, canonical_root: Seq<char>) -> bool {
    c.canonical_dir@ != canonical_root && path_under(c.canonical_dir@, canonical_root)
}

/// `w` is the workspace made from candidate `c`.
pub open spec fn chosen_from(c: WorkspaceCandidate, w: Chosen) -> bool {
    &&& w.info.root@ == c.dir@
    &&& w.info.name@ == match c.package {
        Some(p) => workspace_name_of(p.name, c.dir@),
        None => last_component(c.dir@),
    }
    &&& !w.info.is_internal_dependency
    &&& views(w.deps@) == match c.package {
        Some(p) => views(p.dependency_names@),
        None => seq![],
    }
    &&& w.canonical@ == c.canonical_dir@
}

/// The candidates that are kept, in order.
pub open spec fn kept_candidates(cs: Seq<WorkspaceCandidate>, keep: spec_fn(WorkspaceCandidate) -> bool) -> Seq<WorkspaceCandidate>
    decreases cs.len(),
{
    if cs.len() == 0 {
        seq![]
    } else {
        let prev = kept_candidates(cs.drop_last(), keep);
        if keep(cs.last()) { prev.push(cs.last()) } else { prev }
    }
}

fn copy_strings(v: &Vec<String>) -> (r: Vec<String>)
    ensures
        views(r@) == views(v@),
{
    let mut r: Vec<String> = Vec::new();
    let mut i: usize = 0;
    while i < v.len()
        invariant
            i <= v@.len(),
            views(r@) == views(v@.take(i as int)),
        decreases v.len() - i,
    {
        let ghost before = views(r@);
        r.push(copy_string(&v[i]));
        assert(views(r@) =~= before.push(v@[i as int]@));
        assert(views(v@.take(i + 1)) =~= views(v@.take(i as int)).push(v@[i as int]@));
        i = i + 1;
    }
    assert(v@.take(v@.len() as int) =~= v@);
    r
}

fn choose_candidate(c: &WorkspaceCandidate) -> (w: Chosen)
    ensures
        chosen_from(*c, w),
{
    let (name, deps) = match &c.package {
        Some(p) => {
            let n = match &p.name {
                Some(n) => copy_string(n),
                None => dir_name(c.dir.as_str()),
            };
            (n, copy_strings(&p.dependency_names))
        },
        None => {
            let d: Vec<String> = Vec::new();
            assert(views(d@) =~= seq![]);
            (dir_name(c.dir.as_str()), d)
        },
    };
    Chosen {
        info: WorkspaceInfo { root: copy_string(&c.dir), name, is_internal_dependency: false },
        deps,
        canonical: copy_string(&c.canonical_dir),
    }
}

/// The workspaces that the directories matched by the workspace patterns
/// yield, in order (see [`pattern_candidate_kept`]).
pub fn expand_patterns_to_workspaces(
    root: &str,
    canonical_root: &str,
    negations: &Vec<String>,
    pattern_matches: &Vec<WorkspaceCandidate>,
) -> (r: Vec<Chosen>)
    ensures
        ({
            let kept = kept_candidates(pattern_matches@, |c: WorkspaceCandidate| pattern_candidate_kept(c, root@, canonical_root@, views(negations@)));
            &&& r@.len() == kept.len()
            &&& forall|k: int| 0 <= k < r@.len() ==> chosen_from(kept[k], #[trigger] r@[k])
        }),
{
    let ghost kp = |c: WorkspaceCandidate| pattern_candidate_kept(c, root@, canonical_root@, views(negations@));
    let mut r: Vec<Chosen> = Vec::new();
    let mut i: usize = 0;
    while i < pattern_matches.len()
        invariant
            i <= pattern_matches@.len(),
            kp == (|c: WorkspaceCandidate| pattern_candidate_kept(c, root@, canonical_root@, views(negations@))),
            r@.len() == kept_candidates(pattern_matches@.take(i as int), kp).len(),
            forall|k: int| 0 <= k < r@.len() ==> chosen_from(kept_candidates(pattern_matches@.take(i as int), kp)[k], #[trigger] r@[k]),
        decreases pattern_matches.len() - i,
    {
        assert(pattern_matches@.take(i + 1).drop_last() =~= pattern_matches@.take(i as int));
        let c = &pattern_matches[i];
        let same_root = string_eq(&c.canonical_dir, &canonical_root.to_string());
        let rel = relative_path(c.dir.as_str(), root);
        let excluded = excluded_by_exec(negations, rel.as_str());
        if !same_root && !excluded && c.package.is_some() {
            let w = choose_candidate(c);
            r.push(w);
        }
        i = i + 1;
    }
    assert(pattern_matches@.take(pattern_matches@.len() as int) =~= pattern_matches@);
    r
}

/// The workspaces that the directories named by project references yield,
/// in order (see [`reference_candidate_kept`]).
pub fn collect_tsconfig_workspaces(canonical_root: &str, references: &Vec<WorkspaceCandidate>) -> (r: Vec<Chosen>)
    ensures
        ({
            let kept = kept_candidates(references@, |c: WorkspaceCandidate| reference_candidate_kept(c, canonical_root@));
            &&& r@.len() == kept.len()
            &&& forall|k: int| 0 <= k < r@.len() ==> chosen_from(kept[k], #[trigger] r@[k])
        }),
{
    let ghost kr = |c: WorkspaceCandidate| reference_candidate_kept(c, canonical_root@);
    let mut r: Vec<Chosen> = Vec::new();
    let mut j: usize = 0;
    while j < references.len()
        invariant
            j <= references@.len(),
            kr == (|c: WorkspaceCandidate| reference_candidate_kept(c, canonical_root@)),
            r@.len() == kept_candidates(references@.take(j as int), kr).len(),
            forall|k: int| 0 <= k < r@.len() ==> chosen_from(kept_candidates(references@.take(j as int), kr)[k], #[trigger] r@[k]),
        decreases references.len() - j,
    {
        assert(references@.take(j + 1).drop_last() =~= references@.take(j as int));
        let c = &references[j];
        let same_root = string_eq(&c.canonical_dir, &canonical_root.to_string());
        let inside = is_under(c.canonical_dir.as_str(), canonical_root);
        if !same_root && inside {
            let w = choose_candidate(c);
            r.push(w);
        }
        j = j + 1;
    }
    assert(references@.take(references@.len() as int) =~= references@);
    r
}

/// The workspaces that pattern matches and project references yield, in
/// order: pattern matches first.
pub fn choose_workspaces(
    root: &str,
    canonical_root: &str,
    negations: &Vec<String>,
    pattern_matches: &Vec<WorkspaceCandidate>,
    references: &Vec<WorkspaceCandidate>,
) -> (r: Vec<Chosen>)
    ensures
        ({
            let kept = kept_candidates(pattern_matches@, |c: WorkspaceCandidate| pattern_candidate_kept(c, root@, canonical_root@, views(negations@)))
                + kept_candidates(references@, |c: WorkspaceCandidate| reference_candidate_kept(c, canonical_root@));
            &&& r@.len() == kept.len()
            &&& forall|k: int| 0 <= k < r@.len() ==> chosen_from(kept[k], #[trigger] r@[k])
        }),
{
    let mut r = expand_patterns_to_workspaces(root, canonical_root, negations, pattern_matches);
    let mut more = collect_tsconfig_workspaces(canonical_root, references);
    let ghost a = r@;
    let ghost b = more@;
    r.append(&mut more);
    assert(r@ =~= a + b);
    r
}

/// The first workspace for each canonical directory, in order.
pub open spec fn first_per_directory(ws: Seq<Chosen>) -> Seq<Chosen>
    decreases ws.len(),
{
    if ws.len() == 0 {
        seq![]
    } else {
        let prev = first_per_directory(ws.drop_last());
        if exists|k: int| 0 <= k < prev.len() && (#[trigger] prev[k]).canonical@ == ws.last().canonical@ {
            prev
        } else {
            prev.push(ws.last())
        }
    }
}

/// Whether some workspace depends on a package of this name.
pub open spec fn depended_on(ws: Seq<Chosen>, name: Seq<char>) -> bool {
    exists|k: int, d: int| 0 <= k < ws.len() && 0 <= d < ws[k].deps@.len() && (#[trigger] ws[k].deps@[d])@ == name
}

/// Deduplicate workspaces by canonical path (the first one for a directory
/// stays) and mark those that another workspace depends on.
pub fn mark_internal_dependencies(workspaces: Vec<Chosen>) -> (r: Vec<WorkspaceInfo>)
    ensures
        ({
            let kept = first_per_directory(workspaces@);
            &&& r@.len() == kept.len()
            &&& forall|k: int| 0 <= k < r@.len() ==> {
                let w = #[trigger] r@[k];
                &&& w.root@ == kept[k].info.root@
                &&& w.name@ == kept[k].info.name@
                &&& w.is_internal_dependency == depended_on(kept, kept[k].info.name@)
            }
        }),
{
    let mut kept: Vec<Chosen> = Vec::new();
    let mut ws = workspaces;
    let ghost initial = ws@;
    let mut i: usize = 0;
    while i < ws.len()
        invariant
            i <= ws@.len(),
            ws@.len() == initial.len(),
            forall|j: int| i <= j < initial.len() ==> ws@[j] == initial[j],
            kept@ == first_per_directory(initial.take(i as int)),
        decreases ws.len() - i,
    {
        assert(initial.take(i + 1).drop_last() =~= initial.take(i as int));
        let mut seen = false;
        let mut k: usize = 0;
        while k < kept.len()
            invariant
                k <= kept@.len(),
                i < ws@.len(),
                seen == exists|q: int| 0 <= q < k && (#[trigger] kept@[q]).canonical@ == ws@[i as int].canonical@,
            decreases kept.len() - k,
        {
            if string_eq(&kept[k].canonical, &ws[i].canonical) {
                seen = true;
            }
            k = k + 1;
        }
        let mut taken = Chosen {
            info: WorkspaceInfo { root: String::new(), name: String::new(), is_internal_dependency: false },
            deps: Vec::new(),
            canonical: String::new(),
        };
        ws.set_and_swap(i, &mut taken);
        assert(taken == initial[i as int]);
        if !seen {
            kept.push(taken);
        }
        i = i + 1;
    }
    assert(initial.take(initial.len() as int) =~= initial);
    let ghost kv = kept@;
    let mut r: Vec<WorkspaceInfo> = Vec::new();
    let mut k: usize = 0;
    while k < kept.len()
        invariant
            k <= kept@.len(),
            kept@ == kv,
            r@.len() == k,
            forall|q: int| 0 <= q < k ==> {
                let w = #[trigger] r@[q];
                &&& w.root@ == kv[q].info.root@
                &&& w.name@ == kv[q].info.name@
                &&& w.is_internal_dependency == depended_on(kv, kv[q].info.name@)
            },
        decreases kept.len() - k,
    {
        let name = &kept[k].info.name;
        let mut internal = false;
        let mut a: usize = 0;
        while a < kept.len()
            invariant
                a <= kept@.len(),
                kept@ == kv,
                k < kv.len(),
                *name == kv[k as int].info.name,
                internal == exists|x: int, d: int| 0 <= x < a && 0 <= d < kv[x].deps@.len() && (#[trigger] kv[x].deps@[d])@ == kv[k as int].info.name@,
            decreases kept.len() - a,
        {
            let deps = &kept[a].deps;
            let mut d: usize = 0;
            let ghost before = internal;
            while d < deps.len()
                invariant
                    d <= deps@.len(),
                    deps@ == kv[a as int].deps@,
                    a < kv.len(),
                    k < kv.len(),
                    *name == kv[k as int].info.name,
                    internal == (before || exists|e: int| 0 <= e < d && (#[trigger] deps@[e])@ == kv[k as int].info.name@),
                decreases deps.len() - d,
            {
                if string_eq(&deps[d], name) {
                    internal = true;
                }
                d = d + 1;
            }
            proof {
                assert(internal == exists|x: int, e: int| 0 <= x < a + 1 && 0 <= e < kv[x].deps@.len() && (#[trigger] kv[x].deps@[e])@ == kv[k as int].info.name@) by {
                    if internal && !before {
                        let e = choose|e: int| 0 <= e < d && (#[trigger] deps@[e])@ == kv[k as int].info.name@;
                        assert(kv[a as int].deps@[e]@ == kv[k as int].info.name@);
                    }
                }
            }
            a = a + 1;
        }
        r.push(WorkspaceInfo { root: copy_string(&kept[k].info.root), name: copy_string(name), is_internal_dependency: internal });
        k = k + 1;
    }
    r
}

/// Discover all workspace packages of a monorepo from the directories that
/// its workspace patterns matched and that its project references name:
/// pattern matches first, deduplicated by canonical path, with internal
/// dependencies marked.
pub fn discover_workspaces(
    root: &str,
    canonical_root: &str,
    negations: &Vec<String>,
    pattern_matches: &Vec<WorkspaceCandidate>,
    references: &Vec<WorkspaceCandidate>,
) -> (r: Vec<WorkspaceInfo>)
    ensures
        ({
            let kept = kept_candidates(pattern_matches@, |c: WorkspaceCandidate| pattern_candidate_kept(c, root@, canonical_root@, views(negations@)))
                + kept_candidates(references@, |c: WorkspaceCandidate| reference_candidate_kept(c, canonical_root@));
            exists|chosen: Seq<Chosen>| {
                &&& chosen.len() == kept.len()
                &&& (forall|k: int| 0 <= k < chosen.len() ==> chosen_from(kept[k], #[trigger] chosen[k]))
                &&& r@.len() == first_per_directory(chosen).len()
                &&& forall|k: int| 0 <= k < r@.len() ==> {
                    let w = #[trigger] r@[k];
                    let c = first_per_directory(chosen)[k];
                    &&& w.root@ == c.info.root@
                    &&& w.name@ == c.info.name@
                    &&& w.is_internal_dependency == depended_on(first_per_directory(chosen), c.info.name@)
                }
            }
        }),
{
    let chosen = choose_workspaces(root, canonical_root, negations, pattern_matches, references);
    let ghost cv = chosen@;
    let r = mark_internal_dependencies(chosen);
    assert(cv.len() == cv.len());
    r
}

/// Workspaces kept by deduplication lie in distinct canonical directories,
/// and every canonical directory of the input keeps one workspace.
pub proof fn lemma_first_per_directory(ws: Seq<Chosen>)
    ensures
        forall|i: int, j: int| 0 <= i < j < first_per_directory(ws).len()
            ==> (#[trigger] first_per_directory(ws)[i]).canonical@ != (#[trigger] first_per_directory(ws)[j]).canonical@,
        forall|x: int| 0 <= x < ws.len() ==> exists|k: int| 0 <= k < first_per_directory(ws).len()
            && (#[trigger] first_per_directory(ws)[k]).canonical@ == (#[trigger] ws[x]).canonical@,
    decreases ws.len(),
{
    if ws.len() > 0 {
        let init = ws.drop_last();
        lemma_first_per_directory(init);
        let prev = first_per_directory(init);
        let now = first_per_directory(ws);
        assert forall|x: int| 0 <= x < ws.len() implies exists|k: int| 0 <= k < now.len()
            && (#[trigger] now[k]).canonical@ == (#[trigger] ws[x]).canonical@ by {
            if x < ws.len() - 1 {
                assert(ws[x] == init[x]);
                let k = choose|k: int| 0 <= k < prev.len() && (#[trigger] prev[k]).canonical@ == init[x].canonical@;
                assert(now[k] == prev[k]);
            } else {
                if exists|k: int| 0 <= k < prev.len() && (#[trigger] prev[k]).canonical@ == ws.last().canonical@ {
                    let k = choose|k: int| 0 <= k < prev.len() && (#[trigger] prev[k]).canonical@ == ws.last().canonical@;
                    assert(now[k] == prev[k]);
                } else {
                    assert(now[prev.len() as int] == ws.last());
                }
            }
        }
    }
}

} // verus!
