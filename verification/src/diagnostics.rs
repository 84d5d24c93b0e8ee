//! Editor diagnostics for the findings: which ones each file gets, and the
//! quick fixes that remove the `export` keyword of an unused export.
use vstd::prelude::*;

use crate::analysis::{AnalysisResults, UnresolvedImport, UnusedExport, UnusedFile};
use crate::graph::first_appearances;
use crate::source_edit::{split_lines, text_lines, utf8_len, utf8_len_of};
use crate::text::{copy_string, leading_ws, lemma_leading_ws_bound, push_str, starts_with, string_eq, to_owned_string, trim_start};

verus! {

/// How serious a diagnostic is.
#[derive(Debug, Clone, Copy, PartialEq, Eq, Structural)]
pub enum DiagnosticSeverity {
    Error,
    Warning,
    Hint,
}

/// A diagnostic on one line of a file, between two columns.
#[derive(Debug)]
pub struct FileDiagnostic {
    /// 0-based line.
    pub line: u32,
    pub start_character: u32,
    pub end_character: u32,
    pub severity: DiagnosticSeverity,
    pub code: Option<String>,
    pub message: String,
    /// Whether the editor shows the range as unnecessary code.
    pub unnecessary: bool,
}

pub type DiagnosticView = (u32, u32, u32, DiagnosticSeverity, Option<Seq<char>>, Seq<char>, bool);

pub open spec fn diagnostic_view(d: FileDiagnostic) -> DiagnosticView {
    (
        d.line,
        d.start_character,
        d.end_character,
        d.severity,
        match d.code {
            Some(c) => Some(c@),
            None => None,
        },
        d.message@,
        d.unnecessary,
    )
}

pub open spec fn diagnostic_views(v: Seq<FileDiagnostic>) -> Seq<DiagnosticView> {
    v.map_values(|d: FileDiagnostic| diagnostic_view(d))
}

/// The 0-based line of a 1-based one (line 0 stays 0).
pub open spec fn zero_based(line: u32) -> u32 {
    if line > 0 { (line - 1) as u32 } else { 0 }
}

/// The message for an unused export.
pub open spec fn unused_export_message(name: Seq<char>) -> Seq<char> {
    "Export '"@ + name + "' is unused"@
}

pub open spec fn export_event(e: UnusedExport) -> (Seq<char>, DiagnosticView) {
    let line = zero_based(e.line);
    (
        e.path@,
        (line, e.col, (e.col + utf8_len(e.export_name@)) as u32, DiagnosticSeverity::Hint, Some("unused-export"@),
            unused_export_message(e.export_name@), true),
    )
}

pub open spec fn type_event(e: UnusedExport) -> (Seq<char>, DiagnosticView) {
    let line = zero_based(e.line);
    (
        e.path@,
        (line, e.col, e.col, DiagnosticSeverity::Hint, Some("unused-type"@), "Type export '"@ + e.export_name@
            + "' is unused"@, true),
    )
}

pub open spec fn file_event(f: UnusedFile) -> (Seq<char>, DiagnosticView) {
    (
        f.path@,
        (0u32, 0u32, 0u32, DiagnosticSeverity::Warning, Some("unused-file"@),
            "File is not reachable from any entry point"@, true),
    )
}

pub open spec fn unresolved_event(u: UnresolvedImport) -> (Seq<char>, DiagnosticView) {
    let line = zero_based(u.line);
    (
        u.path@,
        (line, u.col, u.col, DiagnosticSeverity::Error, Some("unresolved-import"@), "Cannot resolve import '"@
            + u.specifier@ + "'"@, false),
    )
}

/// The diagnostics of the findings in order: unused exports, unused types,
/// unused files, unresolved imports, each with its file.
pub open spec fn diagnostic_events(r: AnalysisResults) -> Seq<(Seq<char>, DiagnosticView)> {
    r.unused_exports@.map_values(|e: UnusedExport| export_event(e)) + r.unused_types@.map_values(
        |e: UnusedExport| type_event(e),
    ) + r.unused_files@.map_values(|f: UnusedFile| file_event(f)) + r.unresolved_imports@.map_values(
        |u: UnresolvedImport| unresolved_event(u),
    )
}

pub open spec fn event_paths(ev: Seq<(Seq<char>, DiagnosticView)>) -> Seq<Seq<char>> {
    ev.map_values(|e: (Seq<char>, DiagnosticView)| e.0)
}

/// The diagnostics of the events of file `p`, in order.
pub open spec fn diagnostics_of(ev: Seq<(Seq<char>, DiagnosticView)>, p: Seq<char>) -> Seq<DiagnosticView>
    decreases ev.len(),
{
    if ev.len() == 0 {
        seq![]
    } else {
        let prev = diagnostics_of(ev.drop_last(), p);
        if ev.last().0 == p { prev.push(ev.last().1) } else { prev }
    }
}

/// `groups` holds each file of the events once, in order of first
/// appearance, with its diagnostics in order.
pub open spec fn grouped(ev: Seq<(Seq<char>, DiagnosticView)>, groups: Seq<(String, Vec<FileDiagnostic>)>) -> bool {
    let files = first_appearances(event_paths(ev));
    &&& groups.len() == files.len()
    &&& forall|g: int|
        0 <= g < groups.len() ==> (#[trigger] groups[g]).0@ == files[g] && diagnostic_views(groups[g].1@)
            == diagnostics_of(ev, files[g])
}

proof fn lemma_diagnostics_absent(ev: Seq<(Seq<char>, DiagnosticView)>, p: Seq<char>)
    requires
        !event_paths(ev).contains(p),
    ensures
        diagnostics_of(ev, p) == Seq::<DiagnosticView>::empty(),
    decreases ev.len(),
{
    if ev.len() > 0 {
        let d = ev.drop_last();
        assert(event_paths(d) =~= event_paths(ev).drop_last());
        if event_paths(d).contains(p) {
            let k = choose|k: int| 0 <= k < event_paths(d).len() && event_paths(d)[k] == p;
            assert(event_paths(ev)[k] == p);
        }
        assert(event_paths(ev)[ev.len() - 1] == ev.last().0);
        lemma_diagnostics_absent(d, p);
    }
}

/// Add a diagnostic of file `path` to the groups.
fn add_diagnostic(
    groups: &mut Vec<(String, Vec<FileDiagnostic>)>,
    path: &String,
    d: FileDiagnostic,
    Ghost(ev): Ghost<Seq<(Seq<char>, DiagnosticView)>>,
)
    requires
        grouped(ev, old(groups)@),
    ensures
        grouped(ev.push((path@, diagnostic_view(d))), final(groups)@),
{
    let ghost ev2 = ev.push((path@, diagnostic_view(d)));
    let ghost files = first_appearances(event_paths(ev));
    assert(ev2.drop_last() =~= ev);
    assert(event_paths(ev2).drop_last() =~= event_paths(ev));
    assert(event_paths(ev2).last() == path@);
    proof { crate::graph::lemma_first_appearances(event_paths(ev)); }
    let ghost old_groups = groups@;
    let mut g: usize = 0;
    while g < groups.len() && !string_eq(&groups[g].0, path)
        invariant
            g <= groups@.len(),
            groups@ == old_groups,
            grouped(ev, old_groups),
            files == first_appearances(event_paths(ev)),
            forall|q: int| 0 <= q < g ==> files[q] != path@,
        decreases groups.len() - g,
    {
        assert(old_groups[g as int].0@ == files[g as int]);
        g = g + 1;
    }
    let ghost dv = diagnostic_view(d);
    if g < groups.len() {
        assert(old_groups[g as int].0@ == files[g as int]);
        assert(files[g as int] == path@);
        assert(files.contains(path@));
        let mut entry = (String::new(), Vec::new());
        groups.set_and_swap(g, &mut entry);
        let ghost before = entry.1@;
        entry.1.push(d);
        assert(diagnostic_views(entry.1@) =~= diagnostic_views(before).push(dv));
        groups.set(g, entry);
        assert forall|q: int| 0 <= q < groups@.len() implies (#[trigger] groups@[q]).0@ == first_appearances(
            event_paths(ev2),
        )[q] && diagnostic_views(groups@[q].1@) == diagnostics_of(ev2, first_appearances(event_paths(ev2))[q]) by {
            assert(old_groups[q].0@ == files[q]);
            if q != g {
                assert(groups@[q] == old_groups[q]);
                assert(files[q] != files[g as int]);
            }
        }
    } else {
        assert(!files.contains(path@)) by {
            if files.contains(path@) {
                let q = choose|q: int| 0 <= q < files.len() && files[q] == path@;
                assert(old_groups[q].0@ == files[q]);
            }
        }
        assert(!event_paths(ev).contains(path@)) by {
            if event_paths(ev).contains(path@) {
                assert(event_paths(ev).to_set().contains(path@));
                assert(files.to_set().contains(path@));
            }
        }
        proof { lemma_diagnostics_absent(ev, path@); }
        let mut one: Vec<FileDiagnostic> = Vec::new();
        one.push(d);
        assert(diagnostic_views(one@) =~= seq![dv]);
        groups.push((copy_string(path), one));
        assert(first_appearances(event_paths(ev2)) == files.push(path@));
        assert forall|q: int| 0 <= q < groups@.len() implies (#[trigger] groups@[q]).0@ == first_appearances(
            event_paths(ev2),
        )[q] && diagnostic_views(groups@[q].1@) == diagnostics_of(ev2, first_appearances(event_paths(ev2))[q]) by {
            if q < old_groups.len() {
                assert(groups@[q] == old_groups[q]);
                assert(old_groups[q].0@ == files[q]);
                assert(files[q] != path@);
            }
        }
    }
}

fn message_with(before: &str, name: &String, after: &str) -> (r: String)
    ensures
        r@ == before@ + name@ + after@,
{
    let mut m = to_owned_string(before);
    push_str(&mut m, name.as_str());
    push_str(&mut m, after);
    m
}

fn zero_based_exec(line: u32) -> (r: u32)
    ensures
        r == zero_based(line),
{
    if line > 0 { line - 1 } else { 0 }
}

/// Whether the column after an export's name fits the column type.
pub open spec fn name_end_fits(e: UnusedExport) -> bool {
    e.col + utf8_len(e.export_name@) <= u32::MAX
}

fn name_end(e: &UnusedExport) -> (r: u32)
    requires
        name_end_fits(*e),
    ensures
        r == e.col + utf8_len(e.export_name@),
{
    let v = crate::text::str_chars(e.export_name.as_str());
    let len = utf8_len_of(&v, 0, v.len());
    assert(v@.subrange(0, v@.len() as int) =~= e.export_name@);
    (e.col as u128 + len) as u32
}

/// The diagnostics of the findings, grouped by file in order of first
/// appearance; within a file: unused exports, unused types, the unused
/// file itself, unresolved imports, each in order.
pub fn diagnostics_by_file(results: &AnalysisResults) -> (r: Vec<(String, Vec<FileDiagnostic>)>)
    requires
        forall|k: int| 0 <= k < results.unused_exports@.len() ==> name_end_fits(#[trigger] results.unused_exports@[k]),
    ensures
        grouped(diagnostic_events(*results), r@),
{
    let mut groups: Vec<(String, Vec<FileDiagnostic>)> = Vec::new();
    let ghost exports_ev = results.unused_exports@.map_values(|e: UnusedExport| export_event(e));
    let ghost types_ev = results.unused_types@.map_values(|e: UnusedExport| type_event(e));
    let ghost files_ev = results.unused_files@.map_values(|f: UnusedFile| file_event(f));
    let ghost unresolved_ev = results.unresolved_imports@.map_values(|u: UnresolvedImport| unresolved_event(u));
    assert(grouped(seq![], groups@)) by {
        assert(first_appearances(event_paths(seq![])) =~= seq![]);
    }
    let mut i: usize = 0;
    while i < results.unused_exports.len()
        invariant
            i <= results.unused_exports@.len(),
            exports_ev == results.unused_exports@.map_values(|e: UnusedExport| export_event(e)),
            forall|k: int| 0 <= k < results.unused_exports@.len() ==> name_end_fits(#[trigger] results.unused_exports@[k]),
            grouped(exports_ev.take(i as int), groups@),
        decreases results.unused_exports.len() - i,
    {
        let e = &results.unused_exports[i];
        let line = zero_based_exec(e.line);
        assert(name_end_fits(results.unused_exports@[i as int]));
        let d = FileDiagnostic {
            line,
            start_character: e.col,
            end_character: name_end(e),
            severity: DiagnosticSeverity::Hint,
            code: Some(to_owned_string("unused-export")),
            message: message_with("Export '", &e.export_name, "' is unused"),
            unnecessary: true,
        };
        assert(diagnostic_view(d) == export_event(*e).1);
        add_diagnostic(&mut groups, &e.path, d, Ghost(exports_ev.take(i as int)));
        assert(exports_ev.take(i + 1) =~= exports_ev.take(i as int).push(export_event(*e)));
        i = i + 1;
    }
    assert(exports_ev.take(exports_ev.len() as int) =~= exports_ev);
    let mut i: usize = 0;
    while i < results.unused_types.len()
        invariant
            i <= results.unused_types@.len(),
            types_ev == results.unused_types@.map_values(|e: UnusedExport| type_event(e)),
            grouped(exports_ev + types_ev.take(i as int), groups@),
        decreases results.unused_types.len() - i,
    {
        let e = &results.unused_types[i];
        let line = zero_based_exec(e.line);
        let d = FileDiagnostic {
            line,
            start_character: e.col,
            end_character: e.col,
            severity: DiagnosticSeverity::Hint,
            code: Some(to_owned_string("unused-type")),
            message: message_with("Type export '", &e.export_name, "' is unused"),
            unnecessary: true,
        };
        assert(diagnostic_view(d) == type_event(*e).1);
        add_diagnostic(&mut groups, &e.path, d, Ghost(exports_ev + types_ev.take(i as int)));
        assert(exports_ev + types_ev.take(i + 1) =~= (exports_ev + types_ev.take(i as int)).push(type_event(*e)));
        i = i + 1;
    }
    assert(types_ev.take(types_ev.len() as int) =~= types_ev);
    let mut i: usize = 0;
    while i < results.unused_files.len()
        invariant
            i <= results.unused_files@.len(),
            files_ev == results.unused_files@.map_values(|f: UnusedFile| file_event(f)),
            grouped(exports_ev + types_ev + files_ev.take(i as int), groups@),
        decreases results.unused_files.len() - i,
    {
        let f = &results.unused_files[i];
        let d = FileDiagnostic {
            line: 0,
            start_character: 0,
            end_character: 0,
            severity: DiagnosticSeverity::Warning,
            code: Some(to_owned_string("unused-file")),
            message: to_owned_string("File is not reachable from any entry point"),
            unnecessary: true,
        };
        assert(diagnostic_view(d) == file_event(*f).1);
        add_diagnostic(&mut groups, &f.path, d, Ghost(exports_ev + types_ev + files_ev.take(i as int)));
        assert(exports_ev + types_ev + files_ev.take(i + 1) =~= (exports_ev + types_ev + files_ev.take(i as int)).push(
            file_event(*f),
        ));
        i = i + 1;
    }
    assert(files_ev.take(files_ev.len() as int) =~= files_ev);
    let mut i: usize = 0;
    while i < results.unresolved_imports.len()
        invariant
            i <= results.unresolved_imports@.len(),
            unresolved_ev == results.unresolved_imports@.map_values(|u: UnresolvedImport| unresolved_event(u)),
            grouped(exports_ev + types_ev + files_ev + unresolved_ev.take(i as int), groups@),
        decreases results.unresolved_imports.len() - i,
    {
        let u = &results.unresolved_imports[i];
        let line = zero_based_exec(u.line);
        let d = FileDiagnostic {
            line,
            start_character: u.col,
            end_character: u.col,
            severity: DiagnosticSeverity::Error,
            code: Some(to_owned_string("unresolved-import")),
            message: message_with("Cannot resolve import '", &u.specifier, "'"),
            unnecessary: false,
        };
        assert(diagnostic_view(d) == unresolved_event(*u).1);
        add_diagnostic(&mut groups, &u.path, d, Ghost(exports_ev + types_ev + files_ev + unresolved_ev.take(i as int)));
        assert(exports_ev + types_ev + files_ev + unresolved_ev.take(i + 1) =~= (exports_ev + types_ev + files_ev
            + unresolved_ev.take(i as int)).push(unresolved_event(*u)));
        i = i + 1;
    }
    assert(unresolved_ev.take(unresolved_ev.len() as int) =~= unresolved_ev);
    assert(diagnostic_events(*results) =~= exports_ev + types_ev + files_ev + unresolved_ev);
    groups
}

// ---- quick fixes -------------------------------------------------------

/// A quick fix that deletes the `export` keyword of an unused export.
#[derive(Debug)]
pub struct ExportQuickFix {
    pub title: String,
    /// 0-based line of the edit.
    pub line: u32,
    /// The columns of the text to delete.
    pub delete_start: u32,
    pub delete_end: u32,
    pub diagnostic: FileDiagnostic,
}

pub type QuickFixView = (Seq<char>, u32, u32, u32, DiagnosticView);

pub open spec fn quick_fix_view(q: ExportQuickFix) -> QuickFixView {
    (q.title@, q.line, q.delete_start, q.delete_end, diagnostic_view(q.diagnostic))
}

pub open spec fn quick_fix_views(v: Seq<ExportQuickFix>) -> Seq<QuickFixView> {
    v.map_values(|q: ExportQuickFix| quick_fix_view(q))
}

/// The length of the keyword that a line's text starts with:
/// `export default ` or `export `.
pub open spec fn keyword_len(text: Seq<char>) -> Option<nat> {
    if starts_with(text, "export default "@) {
        Some(15)
    } else if starts_with(text, "export "@) {
        Some(7)
    } else {
        None
    }
}

/// Line `l` of the file, empty past its end.
pub open spec fn line_or_empty(lines: Seq<Seq<char>>, l: int) -> Seq<char> {
    if 0 <= l < lines.len() { lines[l] } else { seq![] }
}

/// The quick fix for an unused export of the file whose 0-based line lies
/// in the requested range and starts with an export keyword.
pub open spec fn quick_fix_of(e: UnusedExport, file: Seq<char>, lines: Seq<Seq<char>>, start: u32, end: u32) -> Option<QuickFixView> {
    let l = zero_based(e.line);
    if e.path@ != file || l < start || l > end {
        None
    } else {
        let line = line_or_empty(lines, l as int);
        let indent = utf8_len(line.take(leading_ws(line) as int));
        match keyword_len(trim_start(line)) {
            Some(n) => Some(
                (
                    "Remove unused export `"@ + e.export_name@ + "`"@,
                    l,
                    indent as u32,
                    (indent + n) as u32,
                    (l, e.col, (e.col + utf8_len(e.export_name@)) as u32, DiagnosticSeverity::Hint, None,
                        unused_export_message(e.export_name@), true),
                ),
            ),
            None => None,
        }
    }
}

pub open spec fn quick_fixes(es: Seq<UnusedExport>, file: Seq<char>, lines: Seq<Seq<char>>, start: u32, end: u32) -> Seq<QuickFixView>
    decreases es.len(),
{
    if es.len() == 0 {
        seq![]
    } else {
        let prev = quick_fixes(es.drop_last(), file, lines, start, end);
        match quick_fix_of(es.last(), file, lines, start, end) {
            Some(q) => prev.push(q),
            None => prev,
        }
    }
}

fn quick_fix_for(e: &UnusedExport, file_path: &str, lines: &Vec<Vec<char>>, start: u32, end: u32) -> (r: Option<ExportQuickFix>)
    requires
        name_end_fits(*e),
    ensures
        match r {
            Some(q) => quick_fix_of(*e, file_path@, lines@.map_values(|l: Vec<char>| l@), start, end) == Some(quick_fix_view(q)),
            None => quick_fix_of(*e, file_path@, lines@.map_values(|l: Vec<char>| l@), start, end) is None,
        },
{
    let ghost lv = lines@.map_values(|l: Vec<char>| l@);
    let l = zero_based_exec(e.line);
    if !crate::text::str_eq(e.path.as_str(), file_path) || l < start || l > end {
        return None;
    }
    let empty: Vec<char> = Vec::new();
    let line: &Vec<char> = if (l as usize) < lines.len() { &lines[l as usize] } else { &empty };
    assert(line@ == line_or_empty(lv, l as int));
    let ghost t = line@;
    proof { lemma_leading_ws_bound(t); }
    let mut k: usize = 0;
    while k < line.len() && crate::text::char_is_ws(line[k])
        invariant
            k <= line@.len(),
            line@ == t,
            leading_ws(t) <= t.len(),
            forall|q: int| 0 <= q < leading_ws(t) ==> crate::text::is_ws(#[trigger] t[q]),
            leading_ws(t) < t.len() ==> !crate::text::is_ws(t[leading_ws(t) as int]),
            k <= leading_ws(t),
        decreases line.len() - k,
    {
        k = k + 1;
    }
    assert(k == leading_ws(t));
    let indent = utf8_len_of(line, 0, k);
    assert(t.subrange(0, k as int) =~= t.take(k as int));
    let rest = crate::text::sub_vec(line, k, line.len());
    assert(rest@ =~= trim_start(t));
    proof {
        reveal_strlit("export default ");
        reveal_strlit("export ");
    }
    let n: u128 = if crate::text::chars_start_with(&rest, &crate::text::str_chars("export default ")) {
        15
    } else if crate::text::chars_start_with(&rest, &crate::text::str_chars("export ")) {
        7
    } else {
        return None;
    };
    let diagnostic = FileDiagnostic {
        line: l,
        start_character: e.col,
        end_character: name_end(e),
        severity: DiagnosticSeverity::Hint,
        code: None,
        message: message_with("Export '", &e.export_name, "' is unused"),
        unnecessary: true,
    };
    Some(ExportQuickFix {
        title: message_with("Remove unused export `", &e.export_name, "`"),
        line: l,
        delete_start: indent as u32,
        delete_end: (indent + n) as u32,
        diagnostic,
    })
}

/// The quick fixes for the unused exports, then the unused types, of the
/// file whose lines lie in the requested range.
pub fn export_quick_fixes(
    results: &AnalysisResults,
    file_path: &str,
    file_content: &str,
    range_start_line: u32,
    range_end_line: u32,
) -> (r: Vec<ExportQuickFix>)
    requires
        forall|k: int| 0 <= k < results.unused_exports@.len() ==> name_end_fits(#[trigger] results.unused_exports@[k]),
        forall|k: int| 0 <= k < results.unused_types@.len() ==> name_end_fits(#[trigger] results.unused_types@[k]),
    ensures
        quick_fix_views(r@) == quick_fixes(
            results.unused_exports@ + results.unused_types@,
            file_path@,
            text_lines(file_content@),
            range_start_line,
            range_end_line,
        ),
{
    let lines = split_lines(file_content);
    let ghost lv = lines@.map_values(|l: Vec<char>| l@);
    let ghost all = results.unused_exports@ + results.unused_types@;
    let mut r: Vec<ExportQuickFix> = Vec::new();
    let n = results.unused_exports.len();
    let mut i: usize = 0;
    while i < n
        invariant
            n == results.unused_exports@.len(),
            i <= n,
            all == results.unused_exports@ + results.unused_types@,
            lv == lines@.map_values(|l: Vec<char>| l@),
            forall|k: int| 0 <= k < results.unused_exports@.len() ==> name_end_fits(#[trigger] results.unused_exports@[k]),
            quick_fix_views(r@) == quick_fixes(all.take(i as int), file_path@, lv, range_start_line, range_end_line),
        decreases n - i,
    {
        let e = &results.unused_exports[i];
        assert(*e == all[i as int]);
        assert(all.take(i + 1).drop_last() =~= all.take(i as int));
        assert(name_end_fits(results.unused_exports@[i as int]));
        match quick_fix_for(e, file_path, &lines, range_start_line, range_end_line) {
            Some(q) => {
                let ghost before = r@;
                r.push(q);
                assert(quick_fix_views(r@) =~= quick_fix_views(before).push(quick_fix_view(q)));
            },
            None => {},
        }
        i = i + 1;
    }
    let mut j: usize = 0;
    while j < results.unused_types.len()
        invariant
            n == results.unused_exports@.len(),
            j <= results.unused_types@.len(),
            all == results.unused_exports@ + results.unused_types@,
            lv == lines@.map_values(|l: Vec<char>| l@),
            forall|k: int| 0 <= k < results.unused_types@.len() ==> name_end_fits(#[trigger] results.unused_types@[k]),
            quick_fix_views(r@) == quick_fixes(all.take(n + j), file_path@, lv, range_start_line, range_end_line),
        decreases results.unused_types@.len() - j,
    {
        let e = &results.unused_types[j];
        assert(*e == all[n + j]);
        assert(all.take(n + j + 1).drop_last() =~= all.take(n + j));
        assert(name_end_fits(results.unused_types@[j as int]));
        match quick_fix_for(e, file_path, &lines, range_start_line, range_end_line) {
            Some(q) => {
                let ghost before = r@;
                r.push(q);
                assert(quick_fix_views(r@) =~= quick_fix_views(before).push(quick_fix_view(q)));
            },
            None => {},
        }
        j = j + 1;
    }
    assert(all.take(n + j) =~= all);
    r
}

} // verus!
