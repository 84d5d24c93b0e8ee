//! Source files and entry points of a project.
use vstd::prelude::*;

use crate::analysis::{
    is_framework_active, lemma_path_lt_irreflexive, lemma_path_lt_total, lemma_path_lt_transitive, path_less, path_lt,
    rule_active, AnalysisConfig, FrameworkRule,
};
use crate::regex_support::{glob_is_match, glob_match_result};
use crate::text::{copy_string, str_chars, string_eq, views};
use crate::workspace::{relative_path, relative_to};

verus! {

/// Compact file identifier.
#[derive(Debug, Clone, Copy, PartialEq, Eq, Hash, Structural)]
pub struct FileId(pub u32);

/// A discovered source file on disk.
#[derive(Debug, Clone)]
pub struct DiscoveredFile {
    /// Unique file index.
    pub id: FileId,
    /// Absolute path.
    pub path: String,
    /// File size in bytes (for sorting largest-first).
    pub size_bytes: u64,
}

/// An entry point into the module graph.
#[derive(Debug, Clone)]
pub struct EntryPoint {
    pub path: String,
    pub source: EntryPointSource,
}

/// Where an entry point was discovered from.
#[derive(Debug, Clone)]
pub enum EntryPointSource {
    PackageJsonMain,
    PackageJsonModule,
    PackageJsonExports,
    PackageJsonBin,
    FrameworkRule { name: String },
    TestFile,
    DefaultIndex,
    ManualEntry,
}

/// Where an entry point was discovered from, as a value.
pub enum SourceView {
    PackageJsonMain,
    PackageJsonModule,
    PackageJsonExports,
    PackageJsonBin,
    FrameworkRule(Seq<char>),
    TestFile,
    DefaultIndex,
    ManualEntry,
}

pub open spec fn source_view(s: EntryPointSource) -> SourceView {
    match s {
        EntryPointSource::PackageJsonMain => SourceView::PackageJsonMain,
        EntryPointSource::PackageJsonModule => SourceView::PackageJsonModule,
        EntryPointSource::PackageJsonExports => SourceView::PackageJsonExports,
        EntryPointSource::PackageJsonBin => SourceView::PackageJsonBin,
        EntryPointSource::FrameworkRule { name } => SourceView::FrameworkRule(name@),
        EntryPointSource::TestFile => SourceView::TestFile,
        EntryPointSource::DefaultIndex => SourceView::DefaultIndex,
        EntryPointSource::ManualEntry => SourceView::ManualEntry,
    }
}

pub type EntryView = (Seq<char>, SourceView);

pub open spec fn entry_view(e: EntryPoint) -> EntryView {
    (e.path@, source_view(e.source))
}

pub open spec fn entry_views(v: Seq<EntryPoint>) -> Seq<EntryView> {
    v.map_values(|e: EntryPoint| entry_view(e))
}

fn copy_source(s: &EntryPointSource) -> (r: EntryPointSource)
    ensures
        source_view(r) == source_view(*s),
{
    match s {
        EntryPointSource::PackageJsonMain => EntryPointSource::PackageJsonMain,
        EntryPointSource::PackageJsonModule => EntryPointSource::PackageJsonModule,
        EntryPointSource::PackageJsonExports => EntryPointSource::PackageJsonExports,
        EntryPointSource::PackageJsonBin => EntryPointSource::PackageJsonBin,
        EntryPointSource::FrameworkRule { name } => EntryPointSource::FrameworkRule { name: copy_string(name) },
        EntryPointSource::TestFile => EntryPointSource::TestFile,
        EntryPointSource::DefaultIndex => EntryPointSource::DefaultIndex,
        EntryPointSource::ManualEntry => EntryPointSource::ManualEntry,
    }
}

// ---- matching files ------------------------------------------------------

/// Whether the glob matches the file's path relative to the root.
pub open spec fn glob_matches_spec(pattern: Seq<char>, path: Seq<char>, root: Seq<char>) -> bool {
    glob_match_result(pattern, relative_to(path, root)) == Some(true)
}

/// Simple glob matching against a file path relative to root.
pub fn glob_matches(pattern: &str, path: &str, root: &str) -> (r: bool)
    ensures
        r == glob_matches_spec(pattern@, path@, root@),
{
    let relative = relative_path(path, root);
    glob_is_match(pattern, relative.as_str()) == Some(true)
}

/// The files matching a glob, each an entry from `source`.
pub open spec fn matching_entries(pattern: Seq<char>, files: Seq<DiscoveredFile>, root: Seq<char>, source: SourceView) -> Seq<EntryView>
    decreases files.len(),
{
    if files.len() == 0 {
        seq![]
    } else {
        let prev = matching_entries(pattern, files.drop_last(), root, source);
        if glob_matches_spec(pattern, files.last().path@, root) { prev.push((files.last().path@, source)) } else { prev }
    }
}

/// The files matching each glob in turn.
pub open spec fn pattern_entries(patterns: Seq<Seq<char>>, files: Seq<DiscoveredFile>, root: Seq<char>, source: SourceView) -> Seq<EntryView>
    decreases patterns.len(),
{
    if patterns.len() == 0 {
        seq![]
    } else {
        pattern_entries(patterns.drop_last(), files, root, source) + matching_entries(patterns.last(), files, root, source)
    }
}

fn push_matching(
    out: &mut Vec<EntryPoint>,
    pattern: &str,
    files: &Vec<DiscoveredFile>,
    root: &str,
    source: &EntryPointSource,
)
    ensures
        entry_views(final(out)@) == entry_views(old(out)@) + matching_entries(pattern@, files@, root@, source_view(*source)),
{
    let ghost base = entry_views(out@);
    let mut i: usize = 0;
    assert(matching_entries(pattern@, files@.take(0), root@, source_view(*source)) =~= seq![]);
    while i < files.len()
        invariant
            i <= files@.len(),
            entry_views(out@) == base + matching_entries(pattern@, files@.take(i as int), root@, source_view(*source)),
        decreases files.len() - i,
    {
        assert(files@.take(i + 1).drop_last() =~= files@.take(i as int));
        if glob_matches(pattern, files[i].path.as_str(), root) {
            let e = EntryPoint { path: copy_string(&files[i].path), source: copy_source(source) };
            let ghost before = out@;
            out.push(e);
            assert(entry_views(out@) =~= entry_views(before).push(entry_view(e)));
        }
        i = i + 1;
    }
    assert(files@.take(files@.len() as int) =~= files@);
}

fn push_pattern_entries(
    out: &mut Vec<EntryPoint>,
    patterns: &Vec<String>,
    files: &Vec<DiscoveredFile>,
    root: &str,
    source: &EntryPointSource,
)
    ensures
        entry_views(final(out)@) == entry_views(old(out)@) + pattern_entries(views(patterns@), files@, root@, source_view(*source)),
{
    let ghost base = entry_views(out@);
    let mut i: usize = 0;
    assert(pattern_entries(views(patterns@).take(0), files@, root@, source_view(*source)) =~= seq![]);
    while i < patterns.len()
        invariant
            i <= patterns@.len(),
            entry_views(out@) == base + pattern_entries(views(patterns@).take(i as int), files@, root@, source_view(*source)),
        decreases patterns.len() - i,
    {
        assert(views(patterns@).take(i + 1).drop_last() =~= views(patterns@).take(i as int));
        assert(views(patterns@).take(i + 1).last() == patterns@[i as int]@);
        push_matching(out, patterns[i].as_str(), files, root, source);
        i = i + 1;
    }
    assert(views(patterns@).take(patterns@.len() as int) =~= views(patterns@));
}

// ---- package.json and framework entries ----------------------------------

/// What the entry-point discovery reads of the package.json: for each of
/// its entry paths, the files it may name (the path itself, then the path
/// with each source extension) with whether each exists; its dependency
/// names; and for each file glob of a framework detection whether a file
/// under the root matches it.
#[derive(Debug, Clone)]
pub struct EntryPackage {
    pub entry_candidates: Vec<Vec<(String, bool)>>,
    pub dependency_names: Vec<String>,
    pub found_globs: Vec<(String, bool)>,
}

pub open spec fn candidates_view(c: Vec<(String, bool)>) -> Seq<(Seq<char>, bool)> {
    c@.map_values(|x: (String, bool)| (x.0@, x.1))
}

/// The first candidate that exists.
pub open spec fn first_existing(c: Seq<(Seq<char>, bool)>) -> Option<Seq<char>>
    decreases c.len(),
{
    if c.len() == 0 {
        None
    } else if c[0].1 {
        Some(c[0].0)
    } else {
        first_existing(c.skip(1))
    }
}

/// The package.json entries: for each entry path its first existing file.
pub open spec fn package_entries(lists: Seq<Vec<(String, bool)>>) -> Seq<EntryView>
    decreases lists.len(),
{
    if lists.len() == 0 {
        seq![]
    } else {
        let prev = package_entries(lists.drop_last());
        match first_existing(candidates_view(lists.last())) {
            Some(p) => prev.push((p, SourceView::PackageJsonMain)),
            None => prev,
        }
    }
}

/// The entries of the framework rules that apply: each rule's entry-point
/// globs, then its always-used globs.
pub open spec fn rule_entries(
    rules: Seq<FrameworkRule>,
    deps: Seq<Seq<char>>,
    found: Seq<(Seq<char>, bool)>,
    files: Seq<DiscoveredFile>,
    root: Seq<char>,
) -> Seq<EntryView>
    decreases rules.len(),
{
    if rules.len() == 0 {
        seq![]
    } else {
        let prev = rule_entries(rules.drop_last(), deps, found, files, root);
        let rule = rules.last();
        if rule_active(rule, deps, found) {
            prev + pattern_entries(views(rule.entry_points@), files, root, SourceView::FrameworkRule(rule.name@))
                + pattern_entries(views(rule.always_used@), files, root, SourceView::FrameworkRule(rule.name@))
        } else {
            prev
        }
    }
}

/// The globs tried for a default index file when nothing else is an entry.
pub open spec fn default_index_patterns() -> Seq<Seq<char>> {
    seq!["src/index.{ts,tsx,js,jsx}"@, "src/main.{ts,tsx,js,jsx}"@, "index.{ts,tsx,js,jsx}"@, "main.{ts,tsx,js,jsx}"@]
}

/// The entries found, before duplicates are dropped: the configured
/// entries, then with a readable package.json its entries and those of the
/// framework rules that apply; the default index files when none was found.
pub open spec fn raw_entries(config: AnalysisConfig, files: Seq<DiscoveredFile>, package: Option<EntryPackage>) -> Seq<EntryView> {
    let root = config.root@;
    let manual = pattern_entries(views(config.entry_patterns@), files, root, SourceView::ManualEntry);
    let found = match package {
        Some(p) => manual + package_entries(p.entry_candidates@) + rule_entries(
            config.framework_rules@,
            views(p.dependency_names@),
            candidates_view(p.found_globs),
            files,
            root,
        ),
        None => manual,
    };
    if found.len() == 0 {
        pattern_entries(default_index_patterns(), files, root, SourceView::DefaultIndex)
    } else {
        found
    }
}

fn first_existing_exec(c: &Vec<(String, bool)>) -> (r: Option<usize>)
    ensures
        match r {
            Some(k) => k < c@.len() && first_existing(candidates_view(*c)) == Some(c@[k as int].0@),
            None => first_existing(candidates_view(*c)) is None,
        },
{
    let ghost cv = candidates_view(*c);
    let mut k: usize = 0;
    assert(cv.skip(0) =~= cv);
    while k < c.len()
        invariant
            k <= c@.len(),
            cv == candidates_view(*c),
            first_existing(cv) == first_existing(cv.skip(k as int)),
        decreases c.len() - k,
    {
        assert(cv.skip(k as int)[0] == cv[k as int]);
        assert(cv.skip(k as int).skip(1) =~= cv.skip(k + 1));
        if c[k].1 {
            return Some(k);
        }
        k = k + 1;
    }
    None
}

fn push_package_entries(out: &mut Vec<EntryPoint>, lists: &Vec<Vec<(String, bool)>>)
    ensures
        entry_views(final(out)@) == entry_views(old(out)@) + package_entries(lists@),
{
    let ghost base = entry_views(out@);
    let mut i: usize = 0;
    assert(package_entries(lists@.take(0)) =~= seq![]);
    while i < lists.len()
        invariant
            i <= lists@.len(),
            entry_views(out@) == base + package_entries(lists@.take(i as int)),
        decreases lists.len() - i,
    {
        assert(lists@.take(i + 1).drop_last() =~= lists@.take(i as int));
        match first_existing_exec(&lists[i]) {
            Some(k) => {
                let e = EntryPoint { path: copy_string(&lists[i][k].0), source: EntryPointSource::PackageJsonMain };
                let ghost before = out@;
                out.push(e);
                assert(entry_views(out@) =~= entry_views(before).push(entry_view(e)));
            },
            None => {},
        }
        i = i + 1;
    }
    assert(lists@.take(lists@.len() as int) =~= lists@);
}

fn push_rule_entries(
    out: &mut Vec<EntryPoint>,
    rules: &Vec<FrameworkRule>,
    p: &EntryPackage,
    files: &Vec<DiscoveredFile>,
    root: &str,
)
    ensures
        entry_views(final(out)@) == entry_views(old(out)@) + rule_entries(
            rules@,
            views(p.dependency_names@),
            candidates_view(p.found_globs),
            files@,
            root@,
        ),
{
    let ghost base = entry_views(out@);
    let ghost deps = views(p.dependency_names@);
    let ghost found = candidates_view(p.found_globs);
    let mut i: usize = 0;
    assert(rule_entries(rules@.take(0), deps, found, files@, root@) =~= seq![]);
    while i < rules.len()
        invariant
            i <= rules@.len(),
            deps == views(p.dependency_names@),
            found == candidates_view(p.found_globs),
            entry_views(out@) == base + rule_entries(rules@.take(i as int), deps, found, files@, root@),
        decreases rules.len() - i,
    {
        assert(rules@.take(i + 1).drop_last() =~= rules@.take(i as int));
        let rule = &rules[i];
        assert(found == p.found_globs@.map_values(|f: (String, bool)| (f.0@, f.1)));
        if is_framework_active(rule, &p.dependency_names, &p.found_globs) {
            let source = EntryPointSource::FrameworkRule { name: copy_string(&rule.name) };
            push_pattern_entries(out, &rule.entry_points, files, root, &source);
            push_pattern_entries(out, &rule.always_used, files, root, &source);
        }
        i = i + 1;
    }
    assert(rules@.take(rules@.len() as int) =~= rules@);
}

// ---- one entry per file --------------------------------------------------

/// Whether entry `k` is the first with its path.
pub open spec fn first_of_path(raw: Seq<EntryView>, k: int) -> bool {
    &&& 0 <= k < raw.len()
    &&& forall|j: int| #![trigger raw[j]] 0 <= j < k ==> raw[j].0 != raw[k].0
}

pub open spec fn is_first_entry(raw: Seq<EntryView>, x: EntryView) -> bool {
    exists|k: int| first_of_path(raw, k) && raw[k] == x
}

pub open spec fn has_entry_path(out: Seq<EntryView>, p: Seq<char>) -> bool {
    exists|a: int| 0 <= a < out.len() && out[a].0 == p
}

pub open spec fn entries_sorted(out: Seq<EntryView>) -> bool {
    forall|a: int, b: int| 0 <= a < b < out.len() ==> path_lt(#[trigger] out[a].0, #[trigger] out[b].0)
}

/// `out` holds, in path order, the first entry of each path of `raw`: the
/// entries sorted stably by path with later duplicates dropped.
pub open spec fn entries_chosen(raw: Seq<EntryView>, out: Seq<EntryView>) -> bool {
    &&& entries_sorted(out)
    &&& forall|a: int| 0 <= a < out.len() ==> #[trigger] is_first_entry(raw, out[a])
    &&& forall|j: int| 0 <= j < raw.len() ==> #[trigger] has_entry_path(out, raw[j].0)
}

proof fn lemma_first_extends(raw: Seq<EntryView>, i: int, k: int)
    requires
        0 <= i < raw.len(),
        first_of_path(raw.take(i), k),
    ensures
        first_of_path(raw.take(i + 1), k),
        raw.take(i + 1)[k] == raw.take(i)[k],
{
    let o = raw.take(i);
    let n = raw.take(i + 1);
    assert forall|j: int| #![trigger n[j]] 0 <= j < k implies n[j].0 != n[k].0 by {
        assert(o[j] == n[j]);
    }
}

proof fn lemma_entry_keep(raw: Seq<EntryView>, i: int, out: Seq<EntryView>, p: int)
    requires
        0 <= i < raw.len(),
        entries_chosen(raw.take(i), out),
        0 <= p < out.len(),
        out[p].0 == raw[i].0,
    ensures
        entries_chosen(raw.take(i + 1), out),
{
    let o = raw.take(i);
    let n = raw.take(i + 1);
    assert forall|a: int| 0 <= a < out.len() implies #[trigger] is_first_entry(n, out[a]) by {
        assert(is_first_entry(o, out[a]));
        let k = choose|k: int| first_of_path(o, k) && o[k] == out[a];
        lemma_first_extends(raw, i, k);
    }
    assert forall|j: int| 0 <= j < n.len() implies #[trigger] has_entry_path(out, n[j].0) by {
        if j < i {
            assert(o[j] == n[j]);
            assert(has_entry_path(out, o[j].0));
        } else {
            assert(out[p].0 == n[j].0);
        }
    }
}

proof fn lemma_entry_insert(raw: Seq<EntryView>, i: int, out: Seq<EntryView>, p: int)
    requires
        0 <= i < raw.len(),
        entries_chosen(raw.take(i), out),
        0 <= p <= out.len(),
        forall|a: int| 0 <= a < p ==> path_lt(#[trigger] out[a].0, raw[i].0),
        p < out.len() ==> path_lt(raw[i].0, out[p].0),
    ensures
        entries_chosen(raw.take(i + 1), out.insert(p, raw[i])),
{
    let o = raw.take(i);
    let n = raw.take(i + 1);
    let s = raw[i];
    let nout = out.insert(p, s);
    assert forall|a: int| 0 <= a < out.len() implies #[trigger] out[a].0 != s.0 && (a >= p ==> path_lt(s.0, out[a].0)) by {
        if a < p {
            assert(path_lt(out[a].0, s.0));
            if out[a].0 == s.0 {
                lemma_path_lt_irreflexive(s.0);
            }
        } else {
            if a > p {
                assert(path_lt(out[p].0, out[a].0));
                lemma_path_lt_transitive(s.0, out[p].0, out[a].0);
            }
            if out[a].0 == s.0 {
                lemma_path_lt_irreflexive(s.0);
            }
        }
    }
    assert forall|a: int, b: int| 0 <= a < b < nout.len() implies path_lt(#[trigger] nout[a].0, #[trigger] nout[b].0) by {
        if b < p {
            assert(path_lt(out[a].0, out[b].0));
        } else if b == p {
            assert(nout[b] == s);
        } else if a < p {
            assert(nout[b] == out[b - 1]);
            assert(path_lt(out[a].0, s.0));
            assert(out[b - 1].0 != s.0);
            lemma_path_lt_transitive(out[a].0, s.0, out[b - 1].0);
        } else if a == p {
            assert(nout[b] == out[b - 1]);
            assert(out[b - 1].0 != s.0);
        } else {
            assert(path_lt(out[a - 1].0, out[b - 1].0));
        }
    }
    assert forall|a: int| 0 <= a < nout.len() implies #[trigger] is_first_entry(n, nout[a]) by {
        if a == p {
            assert forall|j: int| #![trigger n[j]] 0 <= j < i implies n[j].0 != n[i].0 by {
                assert(o[j] == n[j]);
                assert(has_entry_path(out, o[j].0));
                let a2 = choose|a2: int| 0 <= a2 < out.len() && out[a2].0 == o[j].0;
                assert(out[a2].0 != s.0);
            }
            assert(first_of_path(n, i));
            assert(n[i] == nout[a]);
        } else {
            let oa = if a < p { a } else { a - 1 };
            assert(nout[a] == out[oa]);
            assert(is_first_entry(o, out[oa]));
            let k = choose|k: int| first_of_path(o, k) && o[k] == out[oa];
            lemma_first_extends(raw, i, k);
        }
    }
    assert forall|j: int| 0 <= j < n.len() implies #[trigger] has_entry_path(nout, n[j].0) by {
        if j < i {
            assert(o[j] == n[j]);
            assert(has_entry_path(out, o[j].0));
            let a = choose|a: int| 0 <= a < out.len() && out[a].0 == o[j].0;
            if a < p {
                assert(nout[a] == out[a]);
            } else {
                assert(nout[a + 1] == out[a]);
            }
        } else {
            assert(nout[p].0 == n[j].0);
        }
    }
}

/// Sort the entries by path and keep the first of each path.
pub fn dedup_entries(raw: &Vec<EntryPoint>) -> (out: Vec<EntryPoint>)
    ensures
        entries_chosen(entry_views(raw@), entry_views(out@)),
{
    let ghost rv = entry_views(raw@);
    let mut out: Vec<EntryPoint> = Vec::new();
    let mut i: usize = 0;
    assert(entries_chosen(rv.take(0), entry_views(out@)));
    while i < raw.len()
        invariant
            i <= raw@.len(),
            rv == entry_views(raw@),
            entries_chosen(rv.take(i as int), entry_views(out@)),
        decreases raw.len() - i,
    {
        let e = &raw[i];
        let ep = str_chars(e.path.as_str());
        let ghost ov = entry_views(out@);
        assert(rv[i as int] == entry_view(*e));
        let mut p: usize = 0;
        while p < out.len() && path_less(&str_chars(out[p].path.as_str()), &ep)
            invariant
                p <= out@.len(),
                ov == entry_views(out@),
                ep@ == e.path@,
                forall|a: int| 0 <= a < p ==> path_lt(#[trigger] ov[a].0, e.path@),
            decreases out.len() - p,
        {
            p = p + 1;
        }
        if p < out.len() && string_eq(&out[p].path, &e.path) {
            proof { lemma_entry_keep(rv, i as int, ov, p as int); }
        } else {
            proof {
                if p < ov.len() {
                    lemma_path_lt_total(ov[p as int].0, e.path@);
                }
                lemma_entry_insert(rv, i as int, ov, p as int);
            }
            out.insert(p, EntryPoint { path: copy_string(&e.path), source: copy_source(&e.source) });
            assert(entry_views(out@) =~= ov.insert(p as int, rv[i as int]));
        }
        i = i + 1;
    }
    assert(rv.take(rv.len() as int) =~= rv);
    out
}

/// Discover entry points from the configuration, the package.json (when it
/// could be read) and the framework rules that apply, falling back to
/// default index files; one per file, in path order.
pub fn discover_entry_points(config: &AnalysisConfig, files: &Vec<DiscoveredFile>, package: &Option<EntryPackage>) -> (r: Vec<EntryPoint>)
    ensures
        entries_chosen(raw_entries(*config, files@, *package), entry_views(r@)),
{
    let root = config.root.as_str();
    let mut entries: Vec<EntryPoint> = Vec::new();
    assert(entry_views(entries@) =~= seq![]);
    push_pattern_entries(&mut entries, &config.entry_patterns, files, root, &EntryPointSource::ManualEntry);
    match package {
        Some(p) => {
            push_package_entries(&mut entries, &p.entry_candidates);
            push_rule_entries(&mut entries, &config.framework_rules, p, files, root);
        },
        None => {},
    }
    if entries.len() == 0 {
        let mut defaults: Vec<String> = Vec::new();
        defaults.push(crate::text::to_owned_string("src/index.{ts,tsx,js,jsx}"));
        defaults.push(crate::text::to_owned_string("src/main.{ts,tsx,js,jsx}"));
        defaults.push(crate::text::to_owned_string("index.{ts,tsx,js,jsx}"));
        defaults.push(crate::text::to_owned_string("main.{ts,tsx,js,jsx}"));
        assert(views(defaults@) =~= default_index_patterns());
        let ghost before = entry_views(entries@);
        assert(before =~= seq![]);
        push_pattern_entries(&mut entries, &defaults, files, root, &EntryPointSource::DefaultIndex);
        assert(entry_views(entries@) =~= pattern_entries(default_index_patterns(), files@, config.root@, SourceView::DefaultIndex));
    }
    dedup_entries(&entries)
}

/// The entries of a workspace's framework rules that apply: each rule's
/// entry-point globs, relative to the workspace root.
pub open spec fn workspace_rule_entries(
    rules: Seq<FrameworkRule>,
    deps: Seq<Seq<char>>,
    found: Seq<(Seq<char>, bool)>,
    files: Seq<DiscoveredFile>,
    root: Seq<char>,
) -> Seq<EntryView>
    decreases rules.len(),
{
    if rules.len() == 0 {
        seq![]
    } else {
        let prev = workspace_rule_entries(rules.drop_last(), deps, found, files, root);
        let rule = rules.last();
        if rule_active(rule, deps, found) {
            prev + pattern_entries(views(rule.entry_points@), files, root, SourceView::FrameworkRule(rule.name@))
        } else {
            prev
        }
    }
}

/// The entries of a workspace before duplicates are dropped: with a
/// readable package.json, its entries and those of the framework rules
/// that apply to it; none without.
pub open spec fn workspace_raw_entries(
    rules: Seq<FrameworkRule>,
    ws_root: Seq<char>,
    files: Seq<DiscoveredFile>,
    package: Option<EntryPackage>,
) -> Seq<EntryView> {
    match package {
        Some(p) => package_entries(p.entry_candidates@) + workspace_rule_entries(
            rules,
            views(p.dependency_names@),
            candidates_view(p.found_globs),
            files,
            ws_root,
        ),
        None => seq![],
    }
}

/// Discover entry points for a workspace package; one per file, in path
/// order.
pub fn discover_workspace_entry_points(
    ws_root: &str,
    config: &AnalysisConfig,
    all_files: &Vec<DiscoveredFile>,
    package: &Option<EntryPackage>,
) -> (r: Vec<EntryPoint>)
    ensures
        entries_chosen(workspace_raw_entries(config.framework_rules@, ws_root@, all_files@, *package), entry_views(r@)),
{
    let mut entries: Vec<EntryPoint> = Vec::new();
    assert(entry_views(entries@) =~= seq![]);
    match package {
        Some(p) => {
            push_package_entries(&mut entries, &p.entry_candidates);
            let rules = &config.framework_rules;
            let ghost base = entry_views(entries@);
            let ghost deps = views(p.dependency_names@);
            let ghost found = candidates_view(p.found_globs);
            let mut i: usize = 0;
            assert(workspace_rule_entries(rules@.take(0), deps, found, all_files@, ws_root@) =~= seq![]);
            while i < rules.len()
                invariant
                    i <= rules@.len(),
                    deps == views(p.dependency_names@),
                    found == candidates_view(p.found_globs),
                    entry_views(entries@) == base + workspace_rule_entries(rules@.take(i as int), deps, found, all_files@, ws_root@),
                decreases rules.len() - i,
            {
                assert(rules@.take(i + 1).drop_last() =~= rules@.take(i as int));
                let rule = &rules[i];
                assert(found == p.found_globs@.map_values(|f: (String, bool)| (f.0@, f.1)));
                if is_framework_active(rule, &p.dependency_names, &p.found_globs) {
                    let source = EntryPointSource::FrameworkRule { name: copy_string(&rule.name) };
                    push_pattern_entries(&mut entries, &rule.entry_points, all_files, ws_root, &source);
                }
                i = i + 1;
            }
            assert(rules@.take(rules@.len() as int) =~= rules@);
        },
        None => {},
    }
    dedup_entries(&entries)
}

// ---- numbering discovered files -----------------------------------------

pub type FoundView = (Seq<char>, u64);

pub open spec fn discovered_views(v: Seq<DiscoveredFile>) -> Seq<FoundView> {
    v.map_values(|f: DiscoveredFile| (f.path@, f.size_bytes))
}

pub open spec fn found_views(v: Seq<(String, u64)>) -> Seq<FoundView> {
    v.map_values(|f: (String, u64)| (f.0@, f.1))
}

/// The files of size `k`, in order.
pub open spec fn of_size(s: Seq<FoundView>, k: u64) -> Seq<FoundView>
    decreases s.len(),
{
    if s.len() == 0 {
        seq![]
    } else {
        let prev = of_size(s.drop_last(), k);
        if s.last().1 == k { prev.push(s.last()) } else { prev }
    }
}

/// Whether the sizes never increase.
pub open spec fn largest_first(s: Seq<FoundView>) -> bool {
    forall|i: int, j: int| 0 <= i < j < s.len() ==> s[i].1 >= s[j].1
}

proof fn lemma_of_size_add(a: Seq<FoundView>, b: Seq<FoundView>, k: u64)
    ensures
        of_size(a + b, k) == of_size(a, k) + of_size(b, k),
    decreases b.len(),
{
    if b.len() == 0 {
        assert(a + b =~= a);
        assert(of_size(a, k) + seq![] =~= of_size(a, k));
    } else {
        lemma_of_size_add(a, b.drop_last(), k);
        assert((a + b).drop_last() =~= a + b.drop_last());
        assert((a + b).last() == b.last());
    }
}

proof fn lemma_of_size_none(s: Seq<FoundView>, k: u64)
    requires
        forall|i: int| 0 <= i < s.len() ==> (#[trigger] s[i]).1 != k,
    ensures
        of_size(s, k) == Seq::<FoundView>::empty(),
    decreases s.len(),
{
    if s.len() > 0 {
        lemma_of_size_none(s.drop_last(), k);
        assert(s[s.len() - 1].1 != k);
    }
}

proof fn lemma_of_size_push(p: Seq<FoundView>, x: FoundView, k: u64)
    ensures
        of_size(p.push(x), k) == if x.1 == k { of_size(p, k).push(x) } else { of_size(p, k) },
{
    assert(p.push(x).drop_last() =~= p);
    assert(p.push(x).last() == x);
}

proof fn lemma_size_insertion(r: Seq<FoundView>, pos: int, x: FoundView, p: Seq<FoundView>)
    requires
        0 <= pos <= r.len(),
        largest_first(r),
        forall|q: int| 0 <= q < pos ==> (#[trigger] r[q]).1 >= x.1,
        forall|q: int| pos <= q < r.len() ==> (#[trigger] r[q]).1 < x.1,
        forall|k: u64| #[trigger] of_size(r, k) == of_size(p, k),
    ensures
        largest_first(r.insert(pos, x)),
        forall|k: u64| #[trigger] of_size(r.insert(pos, x), k) == of_size(p.push(x), k),
{
    let n = r.insert(pos, x);
    let head = r.subrange(0, pos);
    let tail = r.subrange(pos, r.len() as int);
    let one: Seq<FoundView> = seq![x];
    assert(n =~= head + one + tail);
    assert(r =~= head + tail);
    assert forall|a: int, b: int| 0 <= a < b < n.len() implies n[a].1 >= n[b].1 by {
        if a < pos && b < pos {
            assert(n[a] == r[a] && n[b] == r[b]);
        } else if a < pos && b == pos {
            assert(n[a] == r[a]);
        } else if a < pos {
            assert(n[a] == r[a] && n[b] == r[b - 1]);
        } else if a == pos {
            assert(n[b] == r[b - 1]);
        } else {
            assert(n[a] == r[a - 1] && n[b] == r[b - 1]);
        }
    }
    assert forall|k: u64| #[trigger] of_size(n, k) == of_size(p.push(x), k) by {
        lemma_of_size_add(head + one, tail, k);
        lemma_of_size_add(head, one, k);
        lemma_of_size_add(head, tail, k);
        lemma_of_size_push(Seq::<FoundView>::empty(), x, k);
        assert(Seq::<FoundView>::empty().push(x) =~= one);
        lemma_of_size_push(p, x, k);
        if x.1 == k {
            assert forall|q: int| 0 <= q < tail.len() implies (#[trigger] tail[q]).1 != k by {
                assert(tail[q] == r[pos + q]);
            }
            lemma_of_size_none(tail, k);
            assert(of_size(n, k) =~= of_size(r, k).push(x));
        } else {
            assert(of_size(n, k) =~= of_size(r, k));
        }
    }
}

/// Number the files found by a walk: largest first (files of equal size in
/// the order found), the ids counting up from `start_id`.
pub fn number_files(found: Vec<(String, u64)>, start_id: usize) -> (r: Vec<DiscoveredFile>)
    requires
        start_id + found@.len() <= usize::MAX + 1,
    ensures
        r@.len() == found@.len(),
        largest_first(discovered_views(r@)),
        forall|k: u64|
            #[trigger] of_size(discovered_views(r@), k) == of_size(found_views(found@), k),
        forall|i: int| 0 <= i < r@.len() ==> (#[trigger] r@[i]).id.0 == (start_id + i) as u32,
{
    let mut found = found;
    let ghost initial = found_views(found@);
    let n = found.len();
    let mut sorted: Vec<(String, u64)> = Vec::new();
    let mut i: usize = 0;
    assert(initial.take(0) =~= seq![]);
    while i < n
        invariant
            n == found@.len(),
            i <= n,
            initial.len() == n,
            forall|j: int| i <= j < n ==> found_views(found@)[j] == initial[j],
            sorted@.len() == i,
            largest_first(found_views(sorted@)),
            forall|k: u64| #[trigger] of_size(found_views(sorted@), k) == of_size(initial.take(i as int), k),
        decreases n - i,
    {
        assert(initial.take(i + 1).drop_last() =~= initial.take(i as int));
        let mut x: (String, u64) = (String::new(), 0);
        found.set_and_swap(i, &mut x);
        assert((x.0@, x.1) == initial[i as int]);
        let ghost sv = found_views(sorted@);
        let mut pos: usize = 0;
        while pos < sorted.len() && sorted[pos].1 >= x.1
            invariant
                pos <= sorted@.len(),
                sv == found_views(sorted@),
                forall|q: int| 0 <= q < pos ==> (#[trigger] sv[q]).1 >= x.1,
            decreases sorted.len() - pos,
        {
            pos = pos + 1;
        }
        proof {
            assert forall|q: int| pos <= q < sv.len() implies (#[trigger] sv[q]).1 < x.1 by {
                if pos < sv.len() {
                    assert(sv[pos as int].1 < x.1);
                    if q > pos {
                        assert(sv[pos as int].1 >= sv[q].1);
                    }
                }
            }
            lemma_size_insertion(sv, pos as int, (x.0@, x.1), initial.take(i as int));
            assert(initial.take(i + 1) =~= initial.take(i as int).push((x.0@, x.1)));
        }
        sorted.insert(pos, x);
        assert(found_views(sorted@) =~= sv.insert(pos as int, (x.0@, x.1)));
        i = i + 1;
    }
    assert(initial.take(n as int) =~= initial);
    let ghost sorted_v = found_views(sorted@);
    let mut r: Vec<DiscoveredFile> = Vec::new();
    let mut k: usize = 0;
    while k < n
        invariant
            k <= n,
            sorted@.len() == n,
            sorted_v.len() == n,
            start_id + n <= usize::MAX + 1,
            r@.len() == k,
            forall|j: int| k <= j < n ==> found_views(sorted@)[j] == sorted_v[j],
            discovered_views(r@) == sorted_v.take(k as int),
            forall|q: int| 0 <= q < r@.len() ==> (#[trigger] r@[q]).id.0 == (start_id + q) as u32,
        decreases n - k,
    {
        let mut x: (String, u64) = (String::new(), 0);
        let ghost before_sorted = found_views(sorted@);
        sorted.set_and_swap(k, &mut x);
        assert((x.0@, x.1) == sorted_v[k as int]);
        assert forall|j: int| k + 1 <= j < n implies found_views(sorted@)[j] == sorted_v[j] by {
            assert(found_views(sorted@)[j] == before_sorted[j]);
        }
        let f = DiscoveredFile { id: FileId((start_id + k) as u32), path: x.0, size_bytes: x.1 };
        let ghost before = r@;
        r.push(f);
        assert(discovered_views(r@) =~= discovered_views(before).push((f.path@, f.size_bytes)));
        assert(sorted_v.take(k + 1) =~= sorted_v.take(k as int).push(sorted_v[k as int]));
        k = k + 1;
    }
    assert(sorted_v.take(n as int) =~= sorted_v);
    r
}

} // verus!
