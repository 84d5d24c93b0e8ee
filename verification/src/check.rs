//! The `check` command around the analysis: narrowing the findings to the
//! files changed since a git ref, and the exit code.
use vstd::prelude::*;

use crate::analysis::{AnalysisResults, UnresolvedImport, UnusedExport, UnusedFile, UnusedMember};
use crate::plugins::{join_path, join_path_exec};
use crate::source_edit::{split_lines, text_lines};
use crate::text::{string_eq, string_from_chars, views};

verus! {

// ---- changed files -------------------------------------------------------

/// The paths that `git diff --name-only` printed, each joined onto the root.
pub open spec fn changed_path_list(root: Seq<char>, git_output: Seq<char>) -> Seq<Seq<char>> {
    text_lines(git_output).map_values(|l: Seq<char>| join_path(root, l))
}

/// The files that `git diff --name-only` reports, as paths under the root,
/// one per line of its output.
pub fn changed_paths(root: &str, git_output: &str) -> (r: Vec<String>)
    ensures
        views(r@) == changed_path_list(root@, git_output@),
{
    let lines = split_lines(git_output);
    let ghost lv = lines@.map_values(|l: Vec<char>| l@);
    let mut r: Vec<String> = Vec::new();
    let mut i: usize = 0;
    while i < lines.len()
        invariant
            i <= lines@.len(),
            lv == lines@.map_values(|l: Vec<char>| l@),
            lv == text_lines(git_output@),
            views(r@) == lv.take(i as int).map_values(|l: Seq<char>| join_path(root@, l)),
        decreases lines.len() - i,
    {
        let line = string_from_chars(&lines[i]);
        let ghost before = views(r@);
        r.push(join_path_exec(root, &line));
        assert(lv[i as int] == lines@[i as int]@);
        assert(views(r@) =~= before.push(join_path(root@, lv[i as int])));
        assert(lv.take(i + 1).map_values(|l: Seq<char>| join_path(root@, l)) =~= lv.take(i as int).map_values(
            |l: Seq<char>| join_path(root@, l),
        ).push(join_path(root@, lv[i as int])));
        i = i + 1;
    }
    assert(lv.take(lv.len() as int) =~= lv);
    r
}

// ---- narrowing findings to changed files ----------------------------------

/// A finding that belongs to one file.
pub trait Located: Sized {
    spec fn located_path(&self) -> Seq<char>;

    fn path_string(&self) -> (r: &String)
        ensures
            r@ == self.located_path(),
    ;

    /// A placeholder value, left behind where a finding is moved out.
    fn vacant() -> Self;
}

impl Located for UnusedFile {
    open spec fn located_path(&self) -> Seq<char> {
        self.path@
    }

    fn path_string(&self) -> (r: &String) {
        &self.path
    }

    fn vacant() -> (r: Self)
        ensures
            r.path@ == Seq::<char>::empty(),
    {
        UnusedFile { path: String::new() }
    }
}

impl Located for UnusedExport {
    open spec fn located_path(&self) -> Seq<char> {
        self.path@
    }

    fn path_string(&self) -> (r: &String) {
        &self.path
    }

    fn vacant() -> (r: Self)
        ensures
            r.path@ == Seq::<char>::empty(),
            r.export_name@ == Seq::<char>::empty(),
            !r.is_type_only,
            r.line == 0,
            r.col == 0,
    {
        UnusedExport { path: String::new(), export_name: String::new(), is_type_only: false, line: 0, col: 0 }
    }
}

impl Located for UnusedMember {
    open spec fn located_path(&self) -> Seq<char> {
        self.path@
    }

    fn path_string(&self) -> (r: &String) {
        &self.path
    }

    fn vacant() -> (r: Self)
        ensures
            r.path@ == Seq::<char>::empty(),
            r.parent_name@ == Seq::<char>::empty(),
            r.member_name@ == Seq::<char>::empty(),
            r.kind@ == Seq::<char>::empty(),
            r.line == 0,
            r.col == 0,
    {
        UnusedMember {
            path: String::new(),
            parent_name: String::new(),
            member_name: String::new(),
            kind: String::new(),
            line: 0,
            col: 0,
        }
    }
}

impl Located for UnresolvedImport {
    open spec fn located_path(&self) -> Seq<char> {
        self.path@
    }

    fn path_string(&self) -> (r: &String) {
        &self.path
    }

    fn vacant() -> (r: Self)
        ensures
            r.path@ == Seq::<char>::empty(),
            r.specifier@ == Seq::<char>::empty(),
            r.line == 0,
            r.col == 0,
    {
        UnresolvedImport { path: String::new(), specifier: String::new(), line: 0, col: 0 }
    }
}

/// The findings whose file is among the changed ones, in order.
pub open spec fn in_changed<T: Located>(v: Seq<T>, changed: Seq<Seq<char>>) -> Seq<T>
    decreases v.len(),
{
    if v.len() == 0 {
        seq![]
    } else {
        let prev = in_changed(v.drop_last(), changed);
        if changed.contains(v.last().located_path()) { prev.push(v.last()) } else { prev }
    }
}

fn is_changed(changed: &Vec<String>, path: &String) -> (r: bool)
    ensures
        r == views(changed@).contains(path@),
{
    let mut k: usize = 0;
    while k < changed.len()
        invariant
            k <= changed@.len(),
            forall|q: int| 0 <= q < k ==> views(changed@)[q] != path@,
        decreases changed.len() - k,
    {
        if string_eq(&changed[k], path) {
            assert(views(changed@)[k as int] == path@);
            return true;
        }
        k = k + 1;
    }
    false
}

fn retain_located<T: Located>(v: Vec<T>, changed: &Vec<String>) -> (r: Vec<T>)
    ensures
        r@ == in_changed(v@, views(changed@)),
{
    let mut v = v;
    let ghost orig = v@;
    let mut r: Vec<T> = Vec::new();
    let mut i: usize = 0;
    while i < v.len()
        invariant
            i <= v@.len(),
            v@.len() == orig.len(),
            forall|j: int| i <= j < orig.len() ==> v@[j] == orig[j],
            r@ == in_changed(orig.take(i as int), views(changed@)),
        decreases v.len() - i,
    {
        assert(orig.take(i + 1).drop_last() =~= orig.take(i as int));
        let mut item = T::vacant();
        v.set_and_swap(i, &mut item);
        if is_changed(changed, item.path_string()) {
            r.push(item);
        }
        i = i + 1;
    }
    assert(orig.take(orig.len() as int) =~= orig);
    r
}

/// Keep only the findings in changed files: unused files, exports, types,
/// enum and class members and unresolved imports; the dependency findings
/// and duplicate exports stay as they are.
pub fn retain_changed(results: AnalysisResults, changed: &Vec<String>) -> (r: AnalysisResults)
    ensures
        r.unused_files@ == in_changed(results.unused_files@, views(changed@)),
        r.unused_exports@ == in_changed(results.unused_exports@, views(changed@)),
        r.unused_types@ == in_changed(results.unused_types@, views(changed@)),
        r.unused_enum_members@ == in_changed(results.unused_enum_members@, views(changed@)),
        r.unused_class_members@ == in_changed(results.unused_class_members@, views(changed@)),
        r.unresolved_imports@ == in_changed(results.unresolved_imports@, views(changed@)),
        r.unused_dependencies == results.unused_dependencies,
        r.unused_dev_dependencies == results.unused_dev_dependencies,
        r.unused_optional_dependencies == results.unused_optional_dependencies,
        r.unlisted_dependencies == results.unlisted_dependencies,
        r.duplicate_exports == results.duplicate_exports,
{
    let AnalysisResults {
        unused_files,
        unused_exports,
        unused_types,
        unused_enum_members,
        unused_class_members,
        unused_dependencies,
        unused_dev_dependencies,
        unused_optional_dependencies,
        unlisted_dependencies,
        unresolved_imports,
        duplicate_exports,
    } = results;
    AnalysisResults {
        unused_files: retain_located(unused_files, changed),
        unused_exports: retain_located(unused_exports, changed),
        unused_types: retain_located(unused_types, changed),
        unused_enum_members: retain_located(unused_enum_members, changed),
        unused_class_members: retain_located(unused_class_members, changed),
        unused_dependencies,
        unused_dev_dependencies,
        unused_optional_dependencies,
        unlisted_dependencies,
        unresolved_imports: retain_located(unresolved_imports, changed),
        duplicate_exports,
    }
}

// ---- exit code ------------------------------------------------------------

/// Whether a run found anything at all.
pub open spec fn any_issue(r: AnalysisResults) -> bool {
    r.unused_files@.len() > 0 || r.unused_exports@.len() > 0 || r.unused_types@.len() > 0
        || r.unused_enum_members@.len() > 0 || r.unused_class_members@.len() > 0
        || r.unused_dependencies@.len() > 0 || r.unused_dev_dependencies@.len() > 0
        || r.unused_optional_dependencies@.len() > 0 || r.unlisted_dependencies@.len() > 0
        || r.unresolved_imports@.len() > 0 || r.duplicate_exports@.len() > 0
}

impl AnalysisResults {
    /// Whether the run found anything.
    pub fn has_issues(&self) -> (r: bool)
        ensures
            r == any_issue(*self),
    {
        self.unused_files.len() > 0 || self.unused_exports.len() > 0 || self.unused_types.len() > 0
            || self.unused_enum_members.len() > 0 || self.unused_class_members.len() > 0
            || self.unused_dependencies.len() > 0 || self.unused_dev_dependencies.len() > 0
            || self.unused_optional_dependencies.len() > 0 || self.unlisted_dependencies.len() > 0
            || self.unresolved_imports.len() > 0 || self.duplicate_exports.len() > 0
    }
}

/// The exit code of `check`: 1 when asked to fail on findings and there are
/// some, else 0.
pub fn check_exit_code(fail_on_issues: bool, results: &AnalysisResults) -> (code: u8)
    ensures
        code == (if fail_on_issues && any_issue(*results) { 1u8 } else { 0u8 }),
{
    if fail_on_issues && results.has_issues() {
        1
    } else {
        0
    }
}

/// How many findings a run holds, of all kinds together.
pub open spec fn finding_count(r: AnalysisResults) -> nat {
    r.unused_files@.len() + r.unused_exports@.len() + r.unused_types@.len() + r.unused_enum_members@.len()
        + r.unused_class_members@.len() + r.unused_dependencies@.len() + r.unused_dev_dependencies@.len()
        + r.unused_optional_dependencies@.len() + r.unlisted_dependencies@.len() + r.unresolved_imports@.len()
        + r.duplicate_exports@.len()
}

/// A run has issues exactly when it holds any finding at all, of whatever
/// kind (an unused file among them), and `check --fail-on-issues` exits 1
/// exactly then.
pub proof fn lemma_issues_are_findings(r: AnalysisResults)
    ensures
        any_issue(r) <==> finding_count(r) > 0,
        r.unused_files@.len() > 0 ==> any_issue(r),
        r.unused_exports@.len() > 0 ==> any_issue(r),
        r.unused_types@.len() > 0 ==> any_issue(r),
        r.unused_enum_members@.len() > 0 ==> any_issue(r),
        r.unused_class_members@.len() > 0 ==> any_issue(r),
        r.unused_dependencies@.len() > 0 ==> any_issue(r),
        r.unused_dev_dependencies@.len() > 0 ==> any_issue(r),
        r.unused_optional_dependencies@.len() > 0 ==> any_issue(r),
        r.unlisted_dependencies@.len() > 0 ==> any_issue(r),
        r.unresolved_imports@.len() > 0 ==> any_issue(r),
        r.duplicate_exports@.len() > 0 ==> any_issue(r),
        (if any_issue(r) { 1u8 } else { 0u8 }) == (if finding_count(r) > 0 { 1u8 } else { 0u8 }),
{
}

// ---- laws ---------------------------------------------------------------

/// Every finding kept when narrowing to changed files lies in a changed
/// file, and each of them was a finding before.
pub proof fn lemma_kept_findings_are_changed<T: Located>(v: Seq<T>, changed: Seq<Seq<char>>)
    ensures
        forall|k: int| 0 <= k < in_changed(v, changed).len() ==> changed.contains(#[trigger] in_changed(v, changed)[k].located_path()),
        forall|k: int| 0 <= k < in_changed(v, changed).len() ==> v.contains(#[trigger] in_changed(v, changed)[k]),
    decreases v.len(),
{
    if v.len() > 0 {
        lemma_kept_findings_are_changed(v.drop_last(), changed);
        let prev = in_changed(v.drop_last(), changed);
        assert forall|k: int| 0 <= k < in_changed(v, changed).len() implies v.contains(#[trigger] in_changed(v, changed)[k]) by {
            if k < prev.len() {
                assert(in_changed(v, changed)[k] == prev[k]);
                let j = choose|j: int| 0 <= j < v.drop_last().len() && v.drop_last()[j] == prev[k];
                assert(v[j] == prev[k]);
            } else {
                assert(v[v.len() - 1] == in_changed(v, changed)[k]);
            }
        }
    }
}

/// Narrowing to changed files a second time changes nothing.
pub proof fn lemma_retain_changed_idempotent<T: Located>(v: Seq<T>, changed: Seq<Seq<char>>)
    ensures
        in_changed(in_changed(v, changed), changed) == in_changed(v, changed),
    decreases v.len(),
{
    if v.len() > 0 {
        lemma_retain_changed_idempotent(v.drop_last(), changed);
        let prev = in_changed(v.drop_last(), changed);
        if changed.contains(v.last().located_path()) {
            let now = prev.push(v.last());
            assert(now.drop_last() =~= prev);
        }
    }
}

} // verus!
