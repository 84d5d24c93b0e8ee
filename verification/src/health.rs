//! Complexity findings: which functions exceed the thresholds, in which
//! files, and in what order they are reported.
use vstd::prelude::*;

use crate::health_types::{ExceededThreshold, HealthFinding};
use crate::text::{copy_string, string_eq, views};
use crate::workspace::{excluded_by, path_under};

verus! {

/// Sort criteria for complexity output.
#[derive(Debug, Clone, Copy, PartialEq, Eq, Structural)]
pub enum SortBy {
    Cyclomatic,
    Cognitive,
    Lines,
}

/// Complexity of one function, as extraction measured it.
#[derive(Debug, Clone)]
pub struct FunctionComplexity {
    pub name: String,
    pub line: u32,
    pub col: u32,
    pub cyclomatic: u16,
    pub cognitive: u16,
    pub line_count: u32,
}

/// The functions of one parsed file.
#[derive(Debug, Clone)]
pub struct HealthModule {
    /// Absolute path.
    pub path: String,
    /// Path relative to the project root (the path itself outside it).
    pub relative: String,
    pub functions: Vec<FunctionComplexity>,
}

/// Which threshold a function exceeds, if any.
pub open spec fn exceeded_spec(cyclomatic: u16, cognitive: u16, max_cyclomatic: u16, max_cognitive: u16) -> Option<ExceededThreshold> {
    if cyclomatic > max_cyclomatic && cognitive > max_cognitive {
        Some(ExceededThreshold::Both)
    } else if cyclomatic > max_cyclomatic {
        Some(ExceededThreshold::Cyclomatic)
    } else if cognitive > max_cognitive {
        Some(ExceededThreshold::Cognitive)
    } else {
        None
    }
}

/// Which threshold a function exceeds, if any.
pub fn exceeded_threshold(cyclomatic: u16, cognitive: u16, max_cyclomatic: u16, max_cognitive: u16) -> (r: Option<ExceededThreshold>)
    ensures
        r == exceeded_spec(cyclomatic, cognitive, max_cyclomatic, max_cognitive),
{
    let exceeds_cyclomatic = cyclomatic > max_cyclomatic;
    let exceeds_cognitive = cognitive > max_cognitive;
    if exceeds_cyclomatic && exceeds_cognitive {
        Some(ExceededThreshold::Both)
    } else if exceeds_cyclomatic {
        Some(ExceededThreshold::Cyclomatic)
    } else if exceeds_cognitive {
        Some(ExceededThreshold::Cognitive)
    } else {
        None
    }
}

/// Whether a file is analyzed: no ignore glob matches its relative path,
/// and it is among the changed files when those are given.
pub open spec fn file_analyzed(m: HealthModule, ignore: Seq<Seq<char>>, changed: Option<Seq<Seq<char>>>) -> bool {
    &&& !excluded_by(ignore, m.relative@)
    &&& match changed {
        Some(c) => c.contains(m.path@),
        None => true,
    }
}

/// `f` is the finding for function `c` of the file at `path`.
pub open spec fn finding_of(path: Seq<char>, c: FunctionComplexity, exceeded: ExceededThreshold, f: HealthFinding) -> bool {
    &&& f.path@ == path
    &&& f.name@ == c.name@
    &&& f.line == c.line
    &&& f.col == c.col
    &&& f.cyclomatic == c.cyclomatic
    &&& f.cognitive == c.cognitive
    &&& f.line_count == c.line_count
    &&& f.exceeded == exceeded
}

/// The functions over a threshold, file by file, as (path, function,
/// threshold exceeded).
pub open spec fn over_threshold(
    ms: Seq<HealthModule>,
    ignore: Seq<Seq<char>>,
    changed: Option<Seq<Seq<char>>>,
    max_cyclomatic: u16,
    max_cognitive: u16,
) -> Seq<(Seq<char>, FunctionComplexity, ExceededThreshold)>
    decreases ms.len(),
{
    if ms.len() == 0 {
        seq![]
    } else {
        let prev = over_threshold(ms.drop_last(), ignore, changed, max_cyclomatic, max_cognitive);
        let m = ms.last();
        if file_analyzed(m, ignore, changed) {
            prev + functions_over(m.path@, m.functions@, max_cyclomatic, max_cognitive)
        } else {
            prev
        }
    }
}

/// The functions of one file over a threshold.
pub open spec fn functions_over(path: Seq<char>, fs: Seq<FunctionComplexity>, max_cyclomatic: u16, max_cognitive: u16) -> Seq<(Seq<char>, FunctionComplexity, ExceededThreshold)>
    decreases fs.len(),
{
    if fs.len() == 0 {
        seq![]
    } else {
        let prev = functions_over(path, fs.drop_last(), max_cyclomatic, max_cognitive);
        let c = fs.last();
        match exceeded_spec(c.cyclomatic, c.cognitive, max_cyclomatic, max_cognitive) {
            Some(e) => prev.push((path, c, e)),
            None => prev,
        }
    }
}

/// The number of analyzed files and of their functions.
pub open spec fn analyzed_counts(ms: Seq<HealthModule>, ignore: Seq<Seq<char>>, changed: Option<Seq<Seq<char>>>) -> (int, int)
    decreases ms.len(),
{
    if ms.len() == 0 {
        (0, 0)
    } else {
        let prev = analyzed_counts(ms.drop_last(), ignore, changed);
        if file_analyzed(ms.last(), ignore, changed) {
            (prev.0 + 1, prev.1 + ms.last().functions@.len())
        } else {
            prev
        }
    }
}

/// What the analyzed files yield.
pub struct HealthCollection {
    pub files_analyzed: usize,
    pub functions_analyzed: usize,
    pub findings: Vec<HealthFinding>,
}

fn in_changed(changed: &Option<Vec<String>>, path: &String) -> (r: bool)
    ensures
        r == match *changed {
            Some(c) => views(c@).contains(path@),
            None => true,
        },
{
    match changed {
        None => true,
        Some(c) => {
            assert(*changed == Some(*c));
            let mut i: usize = 0;
            while i < c.len()
                invariant
                    i <= c@.len(),
                    *changed == Some(*c),
                    forall|k: int| 0 <= k < i ==> c@[k]@ != path@,
                decreases c.len() - i,
            {
                if string_eq(&c[i], path) {
                    assert(views(c@)[i as int] == path@);
                    assert(views(c@).contains(path@));
                    return true;
                }
                i = i + 1;
            }
            proof {
                if views(c@).contains(path@) {
                    let k = choose|k: int| 0 <= k < views(c@).len() && views(c@)[k] == path@;
                    assert(c@[k]@ == path@);
                }
            }
            false
        },
    }
}

pub open spec fn opt_views(o: Option<Vec<String>>) -> Option<Seq<Seq<char>>> {
    match o {
        Some(v) => Some(views(v@)),
        None => None,
    }
}

/// The findings of the analyzed files, in file and function order, with
/// the numbers of analyzed files and functions.
pub fn collect_health_findings(
    modules: &Vec<HealthModule>,
    ignore: &Vec<String>,
    changed: &Option<Vec<String>>,
    max_cyclomatic: u16,
    max_cognitive: u16,
) -> (r: HealthCollection)
    requires
        modules@.len() <= usize::MAX,
        analyzed_counts(modules@, views(ignore@), opt_views(*changed)).1 <= usize::MAX,
    ensures
        r.files_analyzed == analyzed_counts(modules@, views(ignore@), opt_views(*changed)).0,
        r.functions_analyzed == analyzed_counts(modules@, views(ignore@), opt_views(*changed)).1,
        ({
            let over = over_threshold(modules@, views(ignore@), opt_views(*changed), max_cyclomatic, max_cognitive);
            &&& r.findings@.len() == over.len()
            &&& forall|k: int| 0 <= k < over.len() ==> finding_of(over[k].0, over[k].1, over[k].2, #[trigger] r.findings@[k])
        }),
{
    let ghost ig = views(ignore@);
    let ghost ch = opt_views(*changed);
    let mut files_analyzed: usize = 0;
    let mut functions_analyzed: usize = 0;
    let mut findings: Vec<HealthFinding> = Vec::new();
    let mut i: usize = 0;
    while i < modules.len()
        invariant
            i <= modules@.len(),
            ig == views(ignore@),
            ch == opt_views(*changed),
            analyzed_counts(modules@, ig, ch).1 <= usize::MAX,
            files_analyzed == analyzed_counts(modules@.take(i as int), ig, ch).0,
            functions_analyzed == analyzed_counts(modules@.take(i as int), ig, ch).1,
            ({
                let over = over_threshold(modules@.take(i as int), ig, ch, max_cyclomatic, max_cognitive);
                &&& findings@.len() == over.len()
                &&& forall|k: int| 0 <= k < over.len() ==> finding_of(over[k].0, over[k].1, over[k].2, #[trigger] findings@[k])
            }),
        decreases modules.len() - i,
    {
        assert(modules@.take(i + 1).drop_last() =~= modules@.take(i as int));
        proof { lemma_counts_monotone(modules@, ig, ch, i + 1, modules@.len() as int); }
        let m = &modules[i];
        let excluded = crate::workspace::excluded_by_exec(ignore, m.relative.as_str());
        let listed = in_changed(changed, &m.path);
        proof {
            assert(modules@.take(modules@.len() as int) =~= modules@);
            assert(modules@.take(i + 1).last() == *m);
        }
        if !excluded && listed {
            assert(file_analyzed(*m, ig, ch));
            files_analyzed = files_analyzed + 1;
            functions_analyzed = functions_analyzed + m.functions.len();
            let ghost base = over_threshold(modules@.take(i as int), ig, ch, max_cyclomatic, max_cognitive);
            let mut j: usize = 0;
            while j < m.functions.len()
                invariant
                    j <= m.functions@.len(),
                    ({
                        let over = base + functions_over(m.path@, m.functions@.take(j as int), max_cyclomatic, max_cognitive);
                        &&& findings@.len() == over.len()
                        &&& forall|k: int| 0 <= k < over.len() ==> finding_of(over[k].0, over[k].1, over[k].2, #[trigger] findings@[k])
                    }),
                decreases m.functions.len() - j,
            {
                assert(m.functions@.take(j + 1).drop_last() =~= m.functions@.take(j as int));
                let c = &m.functions[j];
                match exceeded_threshold(c.cyclomatic, c.cognitive, max_cyclomatic, max_cognitive) {
                    Some(exceeded) => {
                        let ghost before = findings@;
                        findings.push(HealthFinding {
                            path: copy_string(&m.path),
                            name: copy_string(&c.name),
                            line: c.line,
                            col: c.col,
                            cyclomatic: c.cyclomatic,
                            cognitive: c.cognitive,
                            line_count: c.line_count,
                            exceeded,
                        });
                        proof {
                            let over = base + functions_over(m.path@, m.functions@.take(j + 1), max_cyclomatic, max_cognitive);
                            let prev = base + functions_over(m.path@, m.functions@.take(j as int), max_cyclomatic, max_cognitive);
                            assert(over =~= prev.push((m.path@, *c, exceeded)));
                            assert forall|k: int| 0 <= k < over.len() implies finding_of(over[k].0, over[k].1, over[k].2, #[trigger] findings@[k]) by {
                                if k < prev.len() {
                                    assert(findings@[k] == before[k]);
                                }
                            }
                        }
                    },
                    None => {
                        assert(base + functions_over(m.path@, m.functions@.take(j + 1), max_cyclomatic, max_cognitive)
                            =~= base + functions_over(m.path@, m.functions@.take(j as int), max_cyclomatic, max_cognitive));
                    },
                }
                j = j + 1;
            }
            assert(m.functions@.take(m.functions@.len() as int) =~= m.functions@);
        }
        i = i + 1;
    }
    assert(modules@.take(modules@.len() as int) =~= modules@);
    HealthCollection { files_analyzed, functions_analyzed, findings }
}

proof fn lemma_counts_monotone(ms: Seq<HealthModule>, ig: Seq<Seq<char>>, ch: Option<Seq<Seq<char>>>, a: int, b: int)
    requires
        0 <= a <= b <= ms.len(),
    ensures
        analyzed_counts(ms.take(a), ig, ch).0 <= analyzed_counts(ms.take(b), ig, ch).0,
        analyzed_counts(ms.take(a), ig, ch).1 <= analyzed_counts(ms.take(b), ig, ch).1,
        analyzed_counts(ms.take(a), ig, ch).0 <= a,
    decreases b,
{
    if a < b {
        lemma_counts_monotone(ms, ig, ch, a, b - 1);
        assert(ms.take(b).drop_last() =~= ms.take(b - 1));
    } else if a > 0 {
        lemma_counts_monotone(ms, ig, ch, a - 1, a - 1);
        assert(ms.take(a).drop_last() =~= ms.take(a - 1));
    } else {
        assert(ms.take(0) =~= seq![]);
    }
}

/// The findings inside a workspace root, in order.
pub open spec fn in_workspace(fs: Seq<HealthFinding>, root: Seq<char>) -> Seq<HealthFinding>
    decreases fs.len(),
{
    if fs.len() == 0 {
        seq![]
    } else {
        let prev = in_workspace(fs.drop_last(), root);
        if path_under(fs.last().path@, root) { prev.push(fs.last()) } else { prev }
    }
}

/// Keeps the findings whose file lies inside the workspace root.
pub fn retain_in_workspace(findings: &mut Vec<HealthFinding>, ws_root: &str)
    ensures
        final(findings)@ == in_workspace(old(findings)@, ws_root@),
{
    let mut input: Vec<HealthFinding> = Vec::new();
    std::mem::swap(findings, &mut input);
    let ghost initial = input@;
    let mut i: usize = 0;
    assert(initial.take(0) =~= seq![]);
    while i < input.len()
        invariant
            i <= input@.len(),
            input@.len() == initial.len(),
            forall|j: int| i <= j < initial.len() ==> input@[j] == initial[j],
            findings@ == in_workspace(initial.take(i as int), ws_root@),
        decreases input.len() - i,
    {
        assert(initial.take(i + 1).drop_last() =~= initial.take(i as int));
        let mut f = empty_finding();
        input.set_and_swap(i, &mut f);
        assert(f == initial[i as int]);
        if crate::workspace::is_under(f.path.as_str(), ws_root) {
            findings.push(f);
        }
        i = i + 1;
    }
    assert(initial.take(initial.len() as int) =~= initial);
}

fn empty_finding() -> (r: HealthFinding)
    ensures
        r.path@ == Seq::<char>::empty(),
        r.name@ == Seq::<char>::empty(),
        r.line == 0,
        r.col == 0,
        r.cyclomatic == 0,
        r.cognitive == 0,
        r.line_count == 0,
        r.exceeded == ExceededThreshold::Both,
{
    HealthFinding {
        path: String::new(),
        name: String::new(),
        line: 0,
        col: 0,
        cyclomatic: 0,
        cognitive: 0,
        line_count: 0,
        exceeded: ExceededThreshold::Both,
    }
}

/// The value a finding is sorted by.
pub open spec fn sort_key(f: HealthFinding, by: SortBy) -> int {
    match by {
        SortBy::Cyclomatic => f.cyclomatic as int,
        SortBy::Cognitive => f.cognitive as int,
        SortBy::Lines => f.line_count as int,
    }
}

fn sort_key_exec(f: &HealthFinding, by: SortBy) -> (k: u32)
    ensures
        k == sort_key(*f, by),
{
    match by {
        SortBy::Cyclomatic => f.cyclomatic as u32,
        SortBy::Cognitive => f.cognitive as u32,
        SortBy::Lines => f.line_count,
    }
}

/// The findings whose key is `k`, in order.
pub open spec fn keyed(s: Seq<HealthFinding>, by: SortBy, k: int) -> Seq<HealthFinding>
    decreases s.len(),
{
    if s.len() == 0 {
        seq![]
    } else {
        let prev = keyed(s.drop_last(), by, k);
        if sort_key(s.last(), by) == k { prev.push(s.last()) } else { prev }
    }
}

/// Whether the keys never increase.
pub open spec fn sorted_desc(s: Seq<HealthFinding>, by: SortBy) -> bool {
    forall|i: int, j: int| 0 <= i < j < s.len() ==> sort_key(s[i], by) >= sort_key(s[j], by)
}

proof fn lemma_keyed_add(a: Seq<HealthFinding>, b: Seq<HealthFinding>, by: SortBy, k: int)
    ensures
        keyed(a + b, by, k) == keyed(a, by, k) + keyed(b, by, k),
    decreases b.len(),
{
    if b.len() == 0 {
        assert(a + b =~= a);
        assert(keyed(a, by, k) + seq![] =~= keyed(a, by, k));
    } else {
        lemma_keyed_add(a, b.drop_last(), by, k);
        assert((a + b).drop_last() =~= a + b.drop_last());
        assert((a + b).last() == b.last());
    }
}

proof fn lemma_keyed_below(s: Seq<HealthFinding>, by: SortBy, k: int)
    requires
        forall|i: int| 0 <= i < s.len() ==> sort_key(#[trigger] s[i], by) < k,
    ensures
        keyed(s, by, k) == Seq::<HealthFinding>::empty(),
    decreases s.len(),
{
    if s.len() > 0 {
        lemma_keyed_below(s.drop_last(), by, k);
        assert(sort_key(s[s.len() - 1], by) < k);
    }
}

proof fn lemma_keyed_push(p: Seq<HealthFinding>, x: HealthFinding, by: SortBy, k: int)
    ensures
        keyed(p.push(x), by, k) == if sort_key(x, by) == k { keyed(p, by, k).push(x) } else { keyed(p, by, k) },
{
    assert(p.push(x).drop_last() =~= p);
    assert(p.push(x).last() == x);
}

proof fn lemma_insertion(r: Seq<HealthFinding>, pos: int, x: HealthFinding, by: SortBy, p: Seq<HealthFinding>)
    requires
        0 <= pos <= r.len(),
        sorted_desc(r, by),
        forall|q: int| 0 <= q < pos ==> sort_key(#[trigger] r[q], by) >= sort_key(x, by),
        forall|q: int| pos <= q < r.len() ==> sort_key(#[trigger] r[q], by) < sort_key(x, by),
        forall|k: int| #[trigger] keyed(r, by, k) == keyed(p, by, k),
    ensures
        sorted_desc(r.insert(pos, x), by),
        forall|k: int| #[trigger] keyed(r.insert(pos, x), by, k) == keyed(p.push(x), by, k),
{
    let n = r.insert(pos, x);
    let head = r.subrange(0, pos);
    let tail = r.subrange(pos, r.len() as int);
    let one: Seq<HealthFinding> = seq![x];
    assert(n =~= head + one + tail);
    assert(r =~= head + tail);
    assert forall|a: int, b: int| 0 <= a < b < n.len() implies sort_key(n[a], by) >= sort_key(n[b], by) by {
        if a < pos && b < pos {
            assert(n[a] == r[a] && n[b] == r[b]);
        } else if a < pos && b == pos {
            assert(n[a] == r[a]);
        } else if a < pos {
            assert(n[a] == r[a] && n[b] == r[b - 1]);
        } else if a == pos {
            assert(n[b] == r[b - 1]);
        } else {
            assert(n[a] == r[a - 1] && n[b] == r[b - 1]);
        }
    }
    assert forall|q: int| 0 <= q < tail.len() implies sort_key(#[trigger] tail[q], by) < sort_key(x, by) by {
        assert(tail[q] == r[pos + q]);
    }
    assert forall|k: int| #[trigger] keyed(n, by, k) == keyed(p.push(x), by, k) by {
        lemma_keyed_add(head + one, tail, by, k);
        lemma_keyed_add(head, one, by, k);
        lemma_keyed_add(head, tail, by, k);
        lemma_keyed_push(Seq::<HealthFinding>::empty(), x, by, k);
        assert(Seq::<HealthFinding>::empty().push(x) =~= one);
        lemma_keyed_push(p, x, by, k);
        if sort_key(x, by) == k {
            lemma_keyed_below(tail, by, k);
            assert(keyed(n, by, k) =~= keyed(r, by, k).push(x));
        } else {
            assert(keyed(n, by, k) =~= keyed(r, by, k));
        }
    }
}

proof fn lemma_keyed_nonempty(s: Seq<HealthFinding>, by: SortBy, i: int)
    requires
        0 <= i < s.len(),
    ensures
        keyed(s, by, sort_key(s[i], by)).len() > 0,
    decreases s.len(),
{
    if i < s.len() - 1 {
        assert(s.drop_last()[i] == s[i]);
        lemma_keyed_nonempty(s.drop_last(), by, i);
    }
}

proof fn lemma_keyed_member(s: Seq<HealthFinding>, by: SortBy, k: int)
    requires
        keyed(s, by, k).len() > 0,
    ensures
        exists|i: int| 0 <= i < s.len() && sort_key(#[trigger] s[i], by) == k,
    decreases s.len(),
{
    if sort_key(s.last(), by) != k {
        lemma_keyed_member(s.drop_last(), by, k);
        let i = choose|i: int| 0 <= i < s.drop_last().len() && sort_key(#[trigger] s.drop_last()[i], by) == k;
        assert(s[i] == s.drop_last()[i]);
    } else {
        assert(sort_key(s[s.len() - 1], by) == k);
    }
}

/// A sorted result is determined by what it holds of each key, in order:
/// two sequences sorted highest first whose findings of each key are the
/// same, in the same order, are equal. So the contract of
/// `sort_findings` (and of `analyze_health`) fixes the order of findings
/// with equal keys: the order they came in.
pub proof fn lemma_sorted_by_keys_unique(a: Seq<HealthFinding>, b: Seq<HealthFinding>, by: SortBy)
    requires
        sorted_desc(a, by),
        sorted_desc(b, by),
        forall|k: int| #[trigger] keyed(a, by, k) == keyed(b, by, k),
    ensures
        a == b,
    decreases a.len() + b.len(),
{
    if a.len() == 0 || b.len() == 0 {
        if a.len() > 0 {
            lemma_keyed_nonempty(a, by, 0);
            assert(keyed(b, by, sort_key(a[0], by)) == keyed(a, by, sort_key(a[0], by)));
            lemma_keyed_member(b, by, sort_key(a[0], by));
        } else if b.len() > 0 {
            lemma_keyed_nonempty(b, by, 0);
            assert(keyed(a, by, sort_key(b[0], by)) == keyed(b, by, sort_key(b[0], by)));
            lemma_keyed_member(a, by, sort_key(b[0], by));
        }
        assert(a =~= b);
    } else {
        let ka = sort_key(a.last(), by);
        let kb = sort_key(b.last(), by);
        lemma_keyed_nonempty(a, by, a.len() - 1);
        lemma_keyed_nonempty(b, by, b.len() - 1);
        assert(keyed(b, by, ka) == keyed(a, by, ka));
        assert(keyed(a, by, kb) == keyed(b, by, kb));
        lemma_keyed_member(b, by, ka);
        lemma_keyed_member(a, by, kb);
        let ib = choose|i: int| 0 <= i < b.len() && sort_key(#[trigger] b[i], by) == ka;
        let ia = choose|i: int| 0 <= i < a.len() && sort_key(#[trigger] a[i], by) == kb;
        if ib < b.len() - 1 {
            assert(sort_key(b[ib], by) >= sort_key(b[b.len() - 1], by));
        }
        if ia < a.len() - 1 {
            assert(sort_key(a[ia], by) >= sort_key(a[a.len() - 1], by));
        }
        assert(ka == kb);
        assert(keyed(a, by, ka) == keyed(a.drop_last(), by, ka).push(a.last()));
        assert(keyed(b, by, ka) == keyed(b.drop_last(), by, ka).push(b.last()));
        assert(a.last() == keyed(a, by, ka).last());
        assert(b.last() == keyed(b, by, ka).last());
        assert(a.last() == b.last());
        assert forall|k: int| #[trigger] keyed(a.drop_last(), by, k) == keyed(b.drop_last(), by, k) by {
            assert(keyed(a, by, k) == keyed(b, by, k));
            if k == ka {
                assert(keyed(a.drop_last(), by, k) =~= keyed(a, by, k).drop_last());
                assert(keyed(b.drop_last(), by, k) =~= keyed(b, by, k).drop_last());
            }
        }
        lemma_sorted_by_keys_unique(a.drop_last(), b.drop_last(), by);
        assert(a =~= a.drop_last().push(a.last()));
        assert(b =~= b.drop_last().push(b.last()));
    }
}

/// Sort findings by the chosen complexity, highest first; findings with
/// equal values keep their order.
pub fn sort_findings(findings: &mut Vec<HealthFinding>, by: SortBy)
    ensures
        final(findings)@.len() == old(findings)@.len(),
        sorted_desc(final(findings)@, by),
        forall|k: int| #[trigger] keyed(final(findings)@, by, k) == keyed(old(findings)@, by, k),
{
    let mut input: Vec<HealthFinding> = Vec::new();
    std::mem::swap(findings, &mut input);
    let ghost initial = input@;
    let mut i: usize = 0;
    assert(initial.take(0) =~= seq![]);
    while i < input.len()
        invariant
            i <= input@.len(),
            input@.len() == initial.len(),
            forall|j: int| i <= j < initial.len() ==> input@[j] == initial[j],
            findings@.len() == i,
            sorted_desc(findings@, by),
            forall|k: int| #[trigger] keyed(findings@, by, k) == keyed(initial.take(i as int), by, k),
        decreases input.len() - i,
    {
        assert(initial.take(i + 1).drop_last() =~= initial.take(i as int));
        let mut x = empty_finding();
        input.set_and_swap(i, &mut x);
        assert(x == initial[i as int]);
        let kx = sort_key_exec(&x, by);
        let mut pos: usize = 0;
        while pos < findings.len() && sort_key_exec(&findings[pos], by) >= kx
            invariant
                pos <= findings@.len(),
                forall|q: int| 0 <= q < pos ==> sort_key(#[trigger] findings@[q], by) >= kx,
            decreases findings.len() - pos,
        {
            pos = pos + 1;
        }
        let ghost r = findings@;
        proof {
            assert forall|q: int| pos <= q < r.len() implies sort_key(#[trigger] r[q], by) < kx by {
                if pos < r.len() {
                    assert(sort_key(r[pos as int], by) < kx);
                    if q > pos {
                        assert(sort_key(r[pos as int], by) >= sort_key(r[q], by));
                    }
                }
            }
        }
        findings.insert(pos, x);
        proof {
            lemma_insertion(r, pos as int, x, by, initial.take(i as int));
            assert(initial.take(i + 1) =~= initial.take(i as int).push(x));
        }
        i = i + 1;
    }
    assert(initial.take(initial.len() as int) =~= initial);
}

/// The exit code of a health run: 1 when findings are left to report.
pub fn health_exit_code(remaining_findings: usize) -> (code: u8)
    ensures
        code == (if remaining_findings > 0 { 1u8 } else { 0u8 }),
{
    if remaining_findings > 0 { 1 } else { 0 }
}

/// Summary statistics for the health report.
#[derive(Debug, Clone, Copy)]
pub struct HealthSummary {
    pub files_analyzed: usize,
    pub functions_analyzed: usize,
    /// Functions above a threshold, before any baseline or limit applies.
    pub functions_above_threshold: usize,
    pub max_cyclomatic_threshold: u16,
    pub max_cognitive_threshold: u16,
}

pub open spec fn root_view(root: Option<&str>) -> Option<Seq<char>> {
    match root {
        Some(r) => Some(r@),
        None => None,
    }
}

/// `result` is what a health run reports of the functions over a threshold:
/// their findings (`collected`), only those inside the workspace root when
/// one is given, sorted by the chosen complexity.
pub open spec fn reported_from(
    over: Seq<(Seq<char>, FunctionComplexity, ExceededThreshold)>,
    collected: Seq<HealthFinding>,
    root: Option<Seq<char>>,
    sort: SortBy,
    result: Seq<HealthFinding>,
) -> bool {
    let scoped = match root {
        Some(r) => in_workspace(collected, r),
        None => collected,
    };
    &&& collected.len() == over.len()
    &&& forall|k: int| 0 <= k < over.len() ==> finding_of(over[k].0, over[k].1, over[k].2, #[trigger] collected[k])
    &&& result.len() == scoped.len()
    &&& forall|key: int| #[trigger] keyed(result, sort, key) == keyed(scoped, sort, key)
}

/// A threshold: the one given on the command line, else the configured one.
pub open spec fn resolved_threshold(flag: Option<u16>, configured: u16) -> u16 {
    match flag {
        Some(t) => t,
        None => configured,
    }
}

/// The findings of a health run and their summary: the functions over the
/// resolved thresholds in the analyzed files, only those inside the
/// workspace root when one is given, sorted by the chosen complexity.
pub fn analyze_health(
    modules: &Vec<HealthModule>,
    ignore: &Vec<String>,
    changed: &Option<Vec<String>>,
    max_cyclomatic_flag: Option<u16>,
    max_cognitive_flag: Option<u16>,
    configured_max_cyclomatic: u16,
    configured_max_cognitive: u16,
    workspace_root: Option<&str>,
    sort: SortBy,
) -> (r: (Vec<HealthFinding>, HealthSummary))
    requires
        analyzed_counts(modules@, views(ignore@), opt_views(*changed)).1 <= usize::MAX,
    ensures
        ({
            let max_cyc = resolved_threshold(max_cyclomatic_flag, configured_max_cyclomatic);
            let max_cog = resolved_threshold(max_cognitive_flag, configured_max_cognitive);
            let counts = analyzed_counts(modules@, views(ignore@), opt_views(*changed));
            &&& r.1.files_analyzed == counts.0
            &&& r.1.functions_analyzed == counts.1
            &&& r.1.functions_above_threshold == r.0@.len()
            &&& r.1.max_cyclomatic_threshold == max_cyc
            &&& r.1.max_cognitive_threshold == max_cog
            &&& sorted_desc(r.0@, sort)
        }),
        exists|collected: Seq<HealthFinding>| #[trigger] reported_from(
            over_threshold(
                modules@,
                views(ignore@),
                opt_views(*changed),
                resolved_threshold(max_cyclomatic_flag, configured_max_cyclomatic),
                resolved_threshold(max_cognitive_flag, configured_max_cognitive),
            ),
            collected,
            root_view(workspace_root),
            sort,
            r.0@,
        ),
{
    let max_cyclomatic = match max_cyclomatic_flag {
        Some(t) => t,
        None => configured_max_cyclomatic,
    };
    let max_cognitive = match max_cognitive_flag {
        Some(t) => t,
        None => configured_max_cognitive,
    };
    assert(max_cyclomatic == resolved_threshold(max_cyclomatic_flag, configured_max_cyclomatic));
    assert(max_cognitive == resolved_threshold(max_cognitive_flag, configured_max_cognitive));
    let module_count = modules.len();
    assert(modules@.len() == module_count);
    let collection = collect_health_findings(modules, ignore, changed, max_cyclomatic, max_cognitive);
    let HealthCollection { files_analyzed, functions_analyzed, findings } = collection;
    let mut findings = findings;
    let ghost collected = findings@;
    match workspace_root {
        Some(root) => retain_in_workspace(&mut findings, root),
        None => {},
    }
    let ghost scoped = findings@;
    sort_findings(&mut findings, sort);
    let total = findings.len();
    assert(findings@.len() == scoped.len());
    let summary = HealthSummary {
        files_analyzed,
        functions_analyzed,
        functions_above_threshold: total,
        max_cyclomatic_threshold: max_cyclomatic,
        max_cognitive_threshold: max_cognitive,
    };
    assert(reported_from(
        over_threshold(
            modules@,
            views(ignore@),
            opt_views(*changed),
            resolved_threshold(max_cyclomatic_flag, configured_max_cyclomatic),
            resolved_threshold(max_cognitive_flag, configured_max_cognitive),
        ),
        collected,
        root_view(workspace_root),
        sort,
        findings@,
    ));
    let r = (findings, summary);
    assert(r.0@ == findings@);
    assert(exists|c: Seq<HealthFinding>| #[trigger] reported_from(
        over_threshold(
            modules@,
            views(ignore@),
            opt_views(*changed),
            resolved_threshold(max_cyclomatic_flag, configured_max_cyclomatic),
            resolved_threshold(max_cognitive_flag, configured_max_cognitive),
        ),
        c,
        root_view(workspace_root),
        sort,
        r.0@,
    ));
    r
}

/// Keep the first `top` findings, all of them without a limit.
pub fn limit_findings(findings: &mut Vec<HealthFinding>, top: Option<usize>)
    ensures
        final(findings)@ == match top {
            Some(t) => if t < old(findings)@.len() { old(findings)@.take(t as int) } else { old(findings)@ },
            None => old(findings)@,
        },
{
    match top {
        Some(t) => findings.truncate(t),
        None => {},
    }
}

/// The findings a health run reports, limited to `top`, and the exit code
/// that follows from them: 1 when any remains, else 0.
pub fn report_health(findings: &mut Vec<HealthFinding>, top: Option<usize>) -> (code: u8)
    ensures
        final(findings)@ == match top {
            Some(t) => if t < old(findings)@.len() { old(findings)@.take(t as int) } else { old(findings)@ },
            None => old(findings)@,
        },
        code == (if final(findings)@.len() > 0 { 1u8 } else { 0u8 }),
{
    limit_findings(findings, top);
    health_exit_code(findings.len())
}

} // verus!
