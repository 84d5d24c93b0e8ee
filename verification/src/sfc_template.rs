//! Template scanning for Vue and Svelte single-file components: which pieces
//! of the markup are analyzed as expressions or statements, and which names
//! are local (and so shadow imports) where each piece stands.
use vstd::prelude::*;

use crate::extract::{access_view, accesses_view, MemberAccess};
use crate::regex_support::{
    capture_spans, char_index_of_byte, char_range, group_text, ranges_view, regex_capture_spans,
    remove_ranges, spans_view, uncovered_from, whole_match_spans, whole_matches,
};
use crate::sfc_scan::{
    brace_scan, lemma_brace_scan, lemma_tag_scan, lex_start, scan_html_tag, scan_svelte_brace_tag,
    scan_vue_interpolation, tag_scan,
};
use crate::sfc_pattern::{append_all, extract_pattern_binding_names, pattern_binding_names, vviews};
use crate::text::{
    chars_find_from, chars_occur_at, find_from, lemma_find_from, occurs_at, str_chars, is_ws, leading_ws, lemma_leading_ws_bound, trailing_ws, trim_end, chars_eq, chars_find, chars_start_with, find_first, starts_with, string_from_chars, sub_vec,
    trim, trim_chars,
};

verus! {

/// Which component format a source file uses.
#[derive(Debug, Clone, Copy, PartialEq, Eq, Structural)]
pub enum SfcKind {
    Vue,
    Svelte,
}

/// Whether a template snippet is analyzed as an expression or a statement.
#[derive(Debug, Clone, Copy, PartialEq, Eq, Structural)]
pub enum TemplateSnippetKind {
    Expression,
    Statement,
}

/// A piece of template code to analyze, with the names that are local where
/// it stands (such names shadow imported bindings).
#[derive(Debug, Clone)]
pub struct SnippetRequest {
    pub text: Vec<char>,
    pub kind: TemplateSnippetKind,
    pub locals: Vec<Vec<char>>,
}

/// The mathematical value of a [`SnippetRequest`].
pub struct SnippetSpec {
    pub text: Seq<char>,
    pub kind: TemplateSnippetKind,
    pub locals: Seq<Seq<char>>,
}

impl SnippetRequest {
    pub open spec fn spec(&self) -> SnippetSpec {
        SnippetSpec { text: self.text@, kind: self.kind, locals: vviews(self.locals@) }
    }
}

pub open spec fn requests_view(v: Seq<SnippetRequest>) -> Seq<SnippetSpec> {
    v.map_values(|r: SnippetRequest| r.spec())
}

pub open spec fn expression(text: Seq<char>, locals: Seq<Seq<char>>) -> SnippetSpec {
    SnippetSpec { text, kind: TemplateSnippetKind::Expression, locals }
}

pub open spec fn statement(text: Seq<char>, locals: Seq<Seq<char>>) -> SnippetSpec {
    SnippetSpec { text, kind: TemplateSnippetKind::Statement, locals }
}

/// The blocks that open a Svelte scope.
#[derive(Debug, Clone, Copy, PartialEq, Eq, Structural)]
pub enum SvelteBlockKind {
    If,
    Each,
    Await,
    Key,
    Snippet,
    /// The document root.
    Other,
}

/// An open Svelte block and the names it binds.
#[derive(Debug, Clone)]
pub struct SvelteScopeFrame {
    pub kind: SvelteBlockKind,
    pub locals: Vec<Vec<char>>,
}

/// The mathematical value of a [`SvelteScopeFrame`].
pub struct FrameSpec {
    pub kind: SvelteBlockKind,
    pub locals: Seq<Seq<char>>,
}

impl SvelteScopeFrame {
    pub open spec fn spec(&self) -> FrameSpec {
        FrameSpec { kind: self.kind, locals: vviews(self.locals@) }
    }
}

pub open spec fn frames_view(v: Seq<SvelteScopeFrame>) -> Seq<FrameSpec> {
    v.map_values(|f: SvelteScopeFrame| f.spec())
}

/// All names bound by the open frames, outermost first.
pub open spec fn concat_locals(frames: Seq<FrameSpec>) -> Seq<Seq<char>>
    decreases frames.len(),
{
    if frames.len() == 0 {
        seq![]
    } else {
        concat_locals(frames.drop_last()) + frames.last().locals
    }
}

/// A Svelte `{...}` tag by what it does; the payloads are the texts that the
/// tag hands on.
pub enum SvelteTag<T> {
    Empty,
    /// `{/name}`: the trimmed block name.
    Close(T),
    /// `{#if expr}`: the trimmed condition.
    If(T),
    /// `{#each iterable as bindings (key)}`: trimmed iterable, trimmed
    /// bindings, and the trimmed key when present and not blank.
    Each(T, T, Option<T>),
    /// `{#await expr}`: the trimmed promise expression.
    Await(T),
    /// `{:then binding}`: the binding pattern, if any.
    Then(Option<T>),
    /// `{:catch binding}`: the binding pattern, if any.
    Catch(Option<T>),
    /// `{#key expr}`: the trimmed key expression.
    Key(T),
    /// `{#snippet name(params)}`: the parameter list.
    Snippet(T),
    /// `{@html expr}`: the trimmed expression.
    Html(T),
    /// `{@render expr}`: the trimmed expression.
    Render(T),
    /// `{@const stmt}`: the statement as written after `@const`.
    Const(T),
    /// `{@debug expr}`: the trimmed expression.
    Debug(T),
    /// `{:else if expr}`: the trimmed condition.
    ElseIf(T),
    Else,
    /// Any other tag: the tag itself, as an expression.
    Plain(T),
}

pub open spec fn opt_view(o: Option<Vec<char>>) -> Option<Seq<char>> {
    match o {
        Some(v) => Some(v@),
        None => None,
    }
}

pub open spec fn tag_view(t: SvelteTag<Vec<char>>) -> SvelteTag<Seq<char>> {
    match t {
        SvelteTag::Empty => SvelteTag::Empty,
        SvelteTag::Close(x) => SvelteTag::Close(x@),
        SvelteTag::If(x) => SvelteTag::If(x@),
        SvelteTag::Each(a, b, k) => SvelteTag::Each(a@, b@, opt_view(k)),
        SvelteTag::Await(x) => SvelteTag::Await(x@),
        SvelteTag::Then(b) => SvelteTag::Then(opt_view(b)),
        SvelteTag::Catch(b) => SvelteTag::Catch(opt_view(b)),
        SvelteTag::Key(x) => SvelteTag::Key(x@),
        SvelteTag::Snippet(x) => SvelteTag::Snippet(x@),
        SvelteTag::Html(x) => SvelteTag::Html(x@),
        SvelteTag::Render(x) => SvelteTag::Render(x@),
        SvelteTag::Const(x) => SvelteTag::Const(x@),
        SvelteTag::Debug(x) => SvelteTag::Debug(x@),
        SvelteTag::ElseIf(x) => SvelteTag::ElseIf(x@),
        SvelteTag::Else => SvelteTag::Else,
        SvelteTag::Plain(x) => SvelteTag::Plain(x@),
    }
}

/// `{#each iterable as bindings (key)}`.
pub const SVELTE_EACH_PATTERN: &'static str =
    r"(?is)^#each\s+(?P<iterable>.+?)\s+as\s+(?P<bindings>.+?)(?:\s*\((?P<key>.+)\))?$";
/// `{#await expr}`.
pub const SVELTE_AWAIT_PATTERN: &'static str = r"(?is)^#await\s+(?P<expr>.+)$";
/// `{:then binding}`.
pub const SVELTE_THEN_PATTERN: &'static str = r"(?is)^:then(?:\s+(?P<binding>.+))?$";
/// `{:catch binding}`.
pub const SVELTE_CATCH_PATTERN: &'static str = r"(?is)^:catch(?:\s+(?P<binding>.+))?$";
/// `{#snippet name(params)}`.
pub const SVELTE_SNIPPET_PATTERN: &'static str = r"(?is)^#snippet\s+[A-Za-z_$][\w$]*\s*\((?P<params>.*)\)\s*$";

/// The text of capture group `g`, empty when it did not take part.
pub open spec fn group_or_empty(s: Seq<char>, groups: Seq<Option<(usize, usize)>>, g: int) -> Seq<char> {
    match group_text(s, groups, g) {
        Some(t) => t,
        None => seq![],
    }
}

/// How a trimmed Svelte tag is read, given the matches of the block
/// patterns on it: prefixes and patterns are tried in a fixed order and the
/// first that fits decides.
pub open spec fn classify_spec(
    t: Seq<char>,
    each: Seq<Seq<Option<(usize, usize)>>>,
    await_m: Seq<Seq<Option<(usize, usize)>>>,
    then_m: Seq<Seq<Option<(usize, usize)>>>,
    catch_m: Seq<Seq<Option<(usize, usize)>>>,
    snippet_m: Seq<Seq<Option<(usize, usize)>>>,
) -> SvelteTag<Seq<char>> {
    if t.len() == 0 {
        SvelteTag::Empty
    } else if starts_with(t, seq!['/']) {
        SvelteTag::Close(trim(t.skip(1)))
    } else if starts_with(t, seq!['#', 'i', 'f']) {
        SvelteTag::If(trim(t.skip(3)))
    } else if each.len() > 0 {
        SvelteTag::Each(
            trim(group_or_empty(t, each[0], 1)),
            trim(group_or_empty(t, each[0], 2)),
            match group_text(t, each[0], 3) {
                Some(k) => if trim(k).len() > 0 { Some(trim(k)) } else { None },
                None => None,
            },
        )
    } else if await_m.len() > 0 {
        SvelteTag::Await(trim(group_or_empty(t, await_m[0], 1)))
    } else if then_m.len() > 0 {
        SvelteTag::Then(group_text(t, then_m[0], 1))
    } else if catch_m.len() > 0 {
        SvelteTag::Catch(group_text(t, catch_m[0], 1))
    } else if starts_with(t, seq!['#', 'k', 'e', 'y']) {
        SvelteTag::Key(trim(t.skip(4)))
    } else if snippet_m.len() > 0 {
        SvelteTag::Snippet(group_or_empty(t, snippet_m[0], 1))
    } else if starts_with(t, seq!['@', 'h', 't', 'm', 'l']) {
        SvelteTag::Html(trim(t.skip(5)))
    } else if starts_with(t, seq!['@', 'r', 'e', 'n', 'd', 'e', 'r']) {
        SvelteTag::Render(trim(t.skip(7)))
    } else if starts_with(t, seq!['@', 'c', 'o', 'n', 's', 't']) {
        SvelteTag::Const(t.skip(6))
    } else if starts_with(t, seq!['@', 'd', 'e', 'b', 'u', 'g']) {
        SvelteTag::Debug(trim(t.skip(6)))
    } else if starts_with(t, seq![':', 'e', 'l', 's', 'e', ' ', 'i', 'f']) {
        SvelteTag::ElseIf(trim(t.skip(8)))
    } else if starts_with(t, seq![':', 'e', 'l', 's', 'e']) {
        SvelteTag::Else
    } else {
        SvelteTag::Plain(t)
    }
}

/// The characters of `s` from `from` on.
fn tail(s: &Vec<char>, from: usize) -> (r: Vec<char>)
    requires
        from <= s@.len(),
    ensures
        r@ == s@.skip(from as int),
{
    let r = sub_vec(s, from, s.len());
    assert(r@ =~= s@.skip(from as int));
    r
}

fn trimmed_tail(s: &Vec<char>, from: usize) -> (r: Vec<char>)
    requires
        from <= s@.len(),
    ensures
        r@ == trim(s@.skip(from as int)),
{
    let t = tail(s, from);
    trim_chars(&t)
}

fn group_or_empty_chars(s: &Vec<char>, groups: &Vec<Option<(usize, usize)>>, g: usize) -> (r: Vec<char>)
    ensures
        r@ == group_or_empty(s@, groups@, g as int),
{
    match crate::regex_support::group_chars(s, groups, g) {
        Some(t) => t,
        None => Vec::new(),
    }
}

/// Reads a trimmed Svelte tag, given the matches of the block patterns on
/// it (see [`classify_spec`]).
pub fn classify_svelte_tag_with(
    tag: &Vec<char>,
    each: &Vec<Vec<Option<(usize, usize)>>>,
    await_m: &Vec<Vec<Option<(usize, usize)>>>,
    then_m: &Vec<Vec<Option<(usize, usize)>>>,
    catch_m: &Vec<Vec<Option<(usize, usize)>>>,
    snippet_m: &Vec<Vec<Option<(usize, usize)>>>,
) -> (r: SvelteTag<Vec<char>>)
    ensures
        tag_view(r) == classify_spec(
            tag@,
            spans_view(each@),
            spans_view(await_m@),
            spans_view(then_m@),
            spans_view(catch_m@),
            spans_view(snippet_m@),
        ),
{
    let t = tag;
    if t.len() == 0 {
        return SvelteTag::Empty;
    }
    let slash = vec!['/'];
    assert(slash@ =~= seq!['/']);
    if chars_start_with(t, &slash) {
        return SvelteTag::Close(trimmed_tail(t, 1));
    }
    if chars_start_with(t, &vec!['#', 'i', 'f']) {
        return SvelteTag::If(trimmed_tail(t, 3));
    }
    if each.len() > 0 {
        proof { assert(spans_view(each@)[0] == each@[0]@); }
        let groups = &each[0];
        let iterable = group_or_empty_chars(t, groups, 1);
        let bindings = group_or_empty_chars(t, groups, 2);
        let key = match crate::regex_support::group_chars(t, groups, 3) {
            Some(k) => {
                let kt = trim_chars(&k);
                if kt.len() > 0 { Some(kt) } else { None }
            },
            None => None,
        };
        let r = SvelteTag::Each(trim_chars(&iterable), trim_chars(&bindings), key);
        assert(opt_view(key) == match group_text(t@, each@[0]@, 3) {
            Some(k) => if trim(k).len() > 0 { Some(trim(k)) } else { None },
            None => None,
        });
        return r;
    }
    if await_m.len() > 0 {
        proof { assert(spans_view(await_m@)[0] == await_m@[0]@); }
        let e = group_or_empty_chars(t, &await_m[0], 1);
        return SvelteTag::Await(trim_chars(&e));
    }
    if then_m.len() > 0 {
        proof { assert(spans_view(then_m@)[0] == then_m@[0]@); }
        return SvelteTag::Then(crate::regex_support::group_chars(t, &then_m[0], 1));
    }
    if catch_m.len() > 0 {
        proof { assert(spans_view(catch_m@)[0] == catch_m@[0]@); }
        return SvelteTag::Catch(crate::regex_support::group_chars(t, &catch_m[0], 1));
    }
    if chars_start_with(t, &vec!['#', 'k', 'e', 'y']) {
        return SvelteTag::Key(trimmed_tail(t, 4));
    }
    if snippet_m.len() > 0 {
        proof { assert(spans_view(snippet_m@)[0] == snippet_m@[0]@); }
        return SvelteTag::Snippet(group_or_empty_chars(t, &snippet_m[0], 1));
    }
    if chars_start_with(t, &vec!['@', 'h', 't', 'm', 'l']) {
        return SvelteTag::Html(trimmed_tail(t, 5));
    }
    if chars_start_with(t, &vec!['@', 'r', 'e', 'n', 'd', 'e', 'r']) {
        return SvelteTag::Render(trimmed_tail(t, 7));
    }
    if chars_start_with(t, &vec!['@', 'c', 'o', 'n', 's', 't']) {
        return SvelteTag::Const(tail(t, 6));
    }
    if chars_start_with(t, &vec!['@', 'd', 'e', 'b', 'u', 'g']) {
        return SvelteTag::Debug(trimmed_tail(t, 6));
    }
    if chars_start_with(t, &vec![':', 'e', 'l', 's', 'e', ' ', 'i', 'f']) {
        return SvelteTag::ElseIf(trimmed_tail(t, 8));
    }
    if chars_start_with(t, &vec![':', 'e', 'l', 's', 'e']) {
        return SvelteTag::Else;
    }
    let whole = tail(t, 0);
    assert(whole@ =~= t@);
    SvelteTag::Plain(whole)
}


/// Index of the innermost frame of the given kind.
pub open spec fn last_index_of_kind(frames: Seq<FrameSpec>, kind: SvelteBlockKind) -> Option<int>
    decreases frames.len(),
{
    if frames.len() == 0 {
        None
    } else if frames.last().kind == kind {
        Some(frames.len() - 1)
    } else {
        last_index_of_kind(frames.drop_last(), kind)
    }
}

pub proof fn lemma_last_index_of_kind(frames: Seq<FrameSpec>, kind: SvelteBlockKind)
    ensures
        match last_index_of_kind(frames, kind) {
            Some(i) => 0 <= i < frames.len() && frames[i].kind == kind
                && forall|j: int| i < j < frames.len() ==> frames[j].kind != kind,
            None => forall|j: int| 0 <= j < frames.len() ==> frames[j].kind != kind,
        },
    decreases frames.len(),
{
    if frames.len() > 0 && frames.last().kind != kind {
        let d = frames.drop_last();
        lemma_last_index_of_kind(d, kind);
        assert forall|j: int| 0 <= j < frames.len() - 1 implies frames[j] == #[trigger] d[j] by {}
        match last_index_of_kind(d, kind) {
            Some(i) => {
                assert forall|j: int| i < j < frames.len() implies frames[j].kind != kind by {
                    if j < frames.len() - 1 {
                        assert(frames[j] == d[j]);
                    }
                }
            },
            None => {
                assert forall|j: int| 0 <= j < frames.len() implies frames[j].kind != kind by {
                    if j < frames.len() - 1 {
                        assert(frames[j] == d[j]);
                    }
                }
            },
        }
    }
}

/// The block kind that a closing tag `{/name}` names.
pub open spec fn closing_kind(name: Seq<char>) -> Option<SvelteBlockKind> {
    if name == seq!['i', 'f'] {
        Some(SvelteBlockKind::If)
    } else if name == seq!['e', 'a', 'c', 'h'] {
        Some(SvelteBlockKind::Each)
    } else if name == seq!['a', 'w', 'a', 'i', 't'] {
        Some(SvelteBlockKind::Await)
    } else if name == seq!['k', 'e', 'y'] {
        Some(SvelteBlockKind::Key)
    } else if name == seq!['s', 'n', 'i', 'p', 'p', 'e', 't'] {
        Some(SvelteBlockKind::Snippet)
    } else {
        None
    }
}

/// The frames after a closing tag: the innermost frame of the named kind
/// and all frames inside it are dropped; the root frame is never dropped.
pub open spec fn pop_scope_spec(frames: Seq<FrameSpec>, name: Seq<char>) -> Seq<FrameSpec> {
    match closing_kind(name) {
        Some(k) => match last_index_of_kind(frames, k) {
            Some(i) => if i > 0 { frames.take(i) } else { frames },
            None => frames,
        },
        None => frames,
    }
}

/// The names bound by an optional pattern.
pub open spec fn optional_names(b: Option<Seq<char>>) -> Seq<Seq<char>> {
    match b {
        Some(x) => pattern_binding_names(x),
        None => seq![],
    }
}

/// The frames with the innermost `await` frame binding `names` instead.
pub open spec fn set_await_locals(frames: Seq<FrameSpec>, names: Seq<Seq<char>>) -> Seq<FrameSpec> {
    match last_index_of_kind(frames, SvelteBlockKind::Await) {
        Some(i) => frames.update(i, FrameSpec { kind: SvelteBlockKind::Await, locals: names }),
        None => frames,
    }
}

/// The frames with `names` added to the innermost frame.
pub open spec fn extend_last(frames: Seq<FrameSpec>, names: Seq<Seq<char>>) -> Seq<FrameSpec> {
    if frames.len() == 0 {
        frames
    } else {
        frames.update(
            frames.len() - 1,
            FrameSpec { kind: frames.last().kind, locals: frames.last().locals + names },
        )
    }
}

pub open spec fn new_frame(kind: SvelteBlockKind, locals: Seq<Seq<char>>) -> FrameSpec {
    FrameSpec { kind, locals }
}

/// What one Svelte tag does: the frames afterwards, and the snippets it
/// hands to analysis, each with the names local where it stands.
pub open spec fn svelte_step(tag: SvelteTag<Seq<char>>, frames: Seq<FrameSpec>) -> (Seq<FrameSpec>, Seq<SnippetSpec>) {
    let cur = concat_locals(frames);
    match tag {
        SvelteTag::Empty => (frames, seq![]),
        SvelteTag::Else => (frames, seq![]),
        SvelteTag::Close(name) => (pop_scope_spec(frames, name), seq![]),
        SvelteTag::If(e) => (frames.push(new_frame(SvelteBlockKind::If, seq![])), seq![expression(e, cur)]),
        SvelteTag::Each(it, b, key) => {
            let names = pattern_binding_names(b);
            let keyed = match key {
                Some(k) => seq![expression(k, cur + names)],
                None => seq![],
            };
            (frames.push(new_frame(SvelteBlockKind::Each, names)), seq![expression(it, cur)] + keyed)
        },
        SvelteTag::Await(e) => (frames.push(new_frame(SvelteBlockKind::Await, seq![])), seq![expression(e, cur)]),
        SvelteTag::Then(b) => (set_await_locals(frames, optional_names(b)), seq![]),
        SvelteTag::Catch(b) => (set_await_locals(frames, optional_names(b)), seq![]),
        SvelteTag::Key(e) => (frames.push(new_frame(SvelteBlockKind::Key, seq![])), seq![expression(e, cur)]),
        SvelteTag::Snippet(p) => (frames.push(new_frame(SvelteBlockKind::Snippet, pattern_binding_names(p))), seq![]),
        SvelteTag::Html(e) => (frames, seq![expression(e, cur)]),
        SvelteTag::Render(e) => (frames, seq![expression(e, cur)]),
        SvelteTag::Debug(e) => (frames, seq![expression(e, cur)]),
        SvelteTag::ElseIf(e) => (frames, seq![expression(e, cur)]),
        SvelteTag::Plain(e) => (frames, seq![expression(e, cur)]),
        SvelteTag::Const(stmt) => {
            let reqs = seq![statement(trim(stmt), cur)];
            match find_first(stmt, seq!['=']) {
                Some(i) => (extend_last(frames, pattern_binding_names(trim(stmt.take(i)))), reqs),
                None => (frames, reqs),
            }
        },
    }
}

/// All names bound by the open frames, outermost first.
pub fn current_locals(scopes: &Vec<SvelteScopeFrame>) -> (r: Vec<Vec<char>>)
    ensures
        vviews(r@) == concat_locals(frames_view(scopes@)),
{
    let mut r: Vec<Vec<char>> = Vec::new();
    let mut i: usize = 0;
    while i < scopes.len()
        invariant
            i <= scopes@.len(),
            vviews(r@) == concat_locals(frames_view(scopes@).take(i as int)),
        decreases scopes.len() - i,
    {
        proof {
            assert(frames_view(scopes@).take(i + 1).drop_last() =~= frames_view(scopes@).take(i as int));
            assert(frames_view(scopes@).take(i + 1).last() == scopes@[i as int].spec());
        }
        append_all(&mut r, &scopes[i].locals);
        i = i + 1;
    }
    assert(frames_view(scopes@).take(scopes@.len() as int) =~= frames_view(scopes@));
    r
}

fn request(text: Vec<char>, kind: TemplateSnippetKind, locals: Vec<Vec<char>>, out: &mut Vec<SnippetRequest>)
    ensures
        requests_view(final(out)@) == requests_view(old(out)@).push(
            SnippetSpec { text: text@, kind, locals: vviews(locals@) },
        ),
{
    let ghost before = requests_view(out@);
    let r = SnippetRequest { text, kind, locals };
    out.push(r);
    assert(requests_view(out@) =~= before.push(r.spec()));
}

fn frame_kind_eq(a: SvelteBlockKind, b: SvelteBlockKind) -> (r: bool)
    ensures
        r == (a == b),
{
    a == b
}

/// Index of the innermost frame of the given kind.
fn rposition_kind(scopes: &Vec<SvelteScopeFrame>, kind: SvelteBlockKind) -> (r: Option<usize>)
    ensures
        match r {
            Some(i) => last_index_of_kind(frames_view(scopes@), kind) == Some(i as int),
            None => last_index_of_kind(frames_view(scopes@), kind) is None,
        },
{
    let ghost fv = frames_view(scopes@);
    proof { lemma_last_index_of_kind(fv, kind); }
    let mut i = scopes.len();
    while i > 0
        invariant
            i <= scopes@.len(),
            fv == frames_view(scopes@),
            forall|j: int| i <= j < scopes@.len() ==> #[trigger] fv[j].kind != kind,
        decreases i,
    {
        if frame_kind_eq(scopes[i - 1].kind, kind) {
            proof {
                lemma_last_index_of_kind(fv, kind);
                assert(fv[i - 1].kind == kind);
            }
            return Some(i - 1);
        }
        assert(fv[i - 1].kind != kind);
        i = i - 1;
    }
    None
}

/// The block kind that a closing tag names.
fn closing_kind_of(name: &Vec<char>) -> (r: Option<SvelteBlockKind>)
    ensures
        r == closing_kind(name@),
{
    let k_if = vec!['i', 'f'];
    let k_each = vec!['e', 'a', 'c', 'h'];
    let k_await = vec!['a', 'w', 'a', 'i', 't'];
    let k_key = vec!['k', 'e', 'y'];
    let k_snippet = vec!['s', 'n', 'i', 'p', 'p', 'e', 't'];
    if chars_eq(name, &k_if) {
        Some(SvelteBlockKind::If)
    } else if chars_eq(name, &k_each) {
        Some(SvelteBlockKind::Each)
    } else if chars_eq(name, &k_await) {
        Some(SvelteBlockKind::Await)
    } else if chars_eq(name, &k_key) {
        Some(SvelteBlockKind::Key)
    } else if chars_eq(name, &k_snippet) {
        Some(SvelteBlockKind::Snippet)
    } else {
        None
    }
}

/// Closes the innermost open block of the kind that `{/name}` names,
/// together with every block opened inside it; the root stays.
pub fn pop_svelte_scope(scopes: &mut Vec<SvelteScopeFrame>, closing: &Vec<char>)
    ensures
        frames_view(final(scopes)@) == pop_scope_spec(frames_view(old(scopes)@), closing@),
{
    let kind = match closing_kind_of(closing) {
        Some(k) => k,
        None => return,
    };
    proof { lemma_last_index_of_kind(frames_view(scopes@), kind); }
    match rposition_kind(scopes, kind) {
        Some(i) => {
            if i > 0 {
                let ghost before = frames_view(scopes@);
                scopes.truncate(i);
                assert(frames_view(scopes@) =~= before.take(i as int));
            }
        },
        None => {},
    }
}

fn names_of_optional(b: &Option<Vec<char>>) -> (r: Vec<Vec<char>>)
    ensures
        vviews(r@) == optional_names(opt_view(*b)),
{
    match b {
        Some(x) => extract_pattern_binding_names(x),
        None => {
            let r: Vec<Vec<char>> = Vec::new();
            assert(vviews(r@) =~= seq![]);
            r
        },
    }
}

fn set_await_frame(scopes: &mut Vec<SvelteScopeFrame>, names: Vec<Vec<char>>)
    ensures
        frames_view(final(scopes)@) == set_await_locals(frames_view(old(scopes)@), vviews(names@)),
{
    proof { lemma_last_index_of_kind(frames_view(scopes@), SvelteBlockKind::Await); }
    match rposition_kind(scopes, SvelteBlockKind::Await) {
        Some(i) => {
            let ghost before = frames_view(scopes@);
            let f = SvelteScopeFrame { kind: SvelteBlockKind::Await, locals: names };
            scopes.set(i, f);
            assert(frames_view(scopes@) =~= before.update(i as int, f.spec()));
        },
        None => {},
    }
}

fn push_frame(scopes: &mut Vec<SvelteScopeFrame>, kind: SvelteBlockKind, locals: Vec<Vec<char>>)
    ensures
        frames_view(final(scopes)@) == frames_view(old(scopes)@).push(new_frame(kind, vviews(locals@))),
{
    let ghost before = frames_view(scopes@);
    let f = SvelteScopeFrame { kind, locals };
    scopes.push(f);
    assert(frames_view(scopes@) =~= before.push(f.spec()));
}

fn no_names() -> (r: Vec<Vec<char>>)
    ensures
        vviews(r@) == Seq::<Seq<char>>::empty(),
{
    let r: Vec<Vec<char>> = Vec::new();
    assert(vviews(r@) =~= Seq::<Seq<char>>::empty());
    r
}

fn extend_last_frame(scopes: &mut Vec<SvelteScopeFrame>, names: &Vec<Vec<char>>)
    ensures
        frames_view(final(scopes)@) == extend_last(frames_view(old(scopes)@), vviews(names@)),
{
    let n = scopes.len();
    if n == 0 {
        return;
    }
    let ghost before = frames_view(scopes@);
    let kind = scopes[n - 1].kind;
    let mut locals = scopes[n - 1].locals.clone();
    assert(vviews(locals@) =~= vviews(scopes@[n - 1].locals@));
    append_all(&mut locals, names);
    let f = SvelteScopeFrame { kind, locals };
    scopes.set(n - 1, f);
    assert(frames_view(scopes@) =~= before.update(n - 1, f.spec()));
}

/// Applies one classified Svelte tag (see [`svelte_step`]).
pub fn apply_classified_svelte_tag(
    tag: &SvelteTag<Vec<char>>,
    scopes: &mut Vec<SvelteScopeFrame>,
    requests: &mut Vec<SnippetRequest>,
)
    ensures
        frames_view(final(scopes)@) == svelte_step(tag_view(*tag), frames_view(old(scopes)@)).0,
        requests_view(final(requests)@) == requests_view(old(requests)@) + svelte_step(
            tag_view(*tag),
            frames_view(old(scopes)@),
        ).1,
{
    let ghost f0 = frames_view(scopes@);
    let ghost r0 = requests_view(requests@);
    match tag {
        SvelteTag::Empty => {
            assert(r0 + seq![] =~= r0);
        },
        SvelteTag::Else => {
            assert(r0 + seq![] =~= r0);
        },
        SvelteTag::Close(name) => {
            pop_svelte_scope(scopes, name);
            assert(r0 + seq![] =~= r0);
        },
        SvelteTag::If(e) => {
            let cur = current_locals(scopes);
            request(e.clone(), TemplateSnippetKind::Expression, cur, requests);
            push_frame(scopes, SvelteBlockKind::If, no_names());
            assert(requests_view(requests@) =~= r0 + svelte_step(tag_view(*tag), f0).1);
        },
        SvelteTag::Each(it, b, key) => {
            let names = extract_pattern_binding_names(b);
            let cur = current_locals(scopes);
            let mut key_locals = cur.clone();
            assert(vviews(key_locals@) =~= vviews(cur@));
            request(it.clone(), TemplateSnippetKind::Expression, cur, requests);
            match key {
                Some(k) => {
                    append_all(&mut key_locals, &names);
                    request(k.clone(), TemplateSnippetKind::Expression, key_locals, requests);
                },
                None => {},
            }
            push_frame(scopes, SvelteBlockKind::Each, names);
            assert(requests_view(requests@) =~= r0 + svelte_step(tag_view(*tag), f0).1);
        },
        SvelteTag::Await(e) => {
            let cur = current_locals(scopes);
            request(e.clone(), TemplateSnippetKind::Expression, cur, requests);
            push_frame(scopes, SvelteBlockKind::Await, no_names());
            assert(requests_view(requests@) =~= r0 + svelte_step(tag_view(*tag), f0).1);
        },
        SvelteTag::Then(b) => {
            set_await_frame(scopes, names_of_optional(b));
            assert(r0 + seq![] =~= r0);
        },
        SvelteTag::Catch(b) => {
            set_await_frame(scopes, names_of_optional(b));
            assert(r0 + seq![] =~= r0);
        },
        SvelteTag::Key(e) => {
            let cur = current_locals(scopes);
            request(e.clone(), TemplateSnippetKind::Expression, cur, requests);
            push_frame(scopes, SvelteBlockKind::Key, no_names());
            assert(requests_view(requests@) =~= r0 + svelte_step(tag_view(*tag), f0).1);
        },
        SvelteTag::Snippet(p) => {
            push_frame(scopes, SvelteBlockKind::Snippet, extract_pattern_binding_names(p));
            assert(r0 + seq![] =~= r0);
        },
        SvelteTag::Html(e) | SvelteTag::Render(e) | SvelteTag::Debug(e) | SvelteTag::ElseIf(e)
        | SvelteTag::Plain(e) => {
            let cur = current_locals(scopes);
            request(e.clone(), TemplateSnippetKind::Expression, cur, requests);
            assert(requests_view(requests@) =~= r0 + svelte_step(tag_view(*tag), f0).1);
        },
        SvelteTag::Const(stmt) => {
            let cur = current_locals(scopes);
            request(trim_chars(stmt), TemplateSnippetKind::Statement, cur, requests);
            assert(requests_view(requests@) =~= r0 + svelte_step(tag_view(*tag), f0).1);
            let eq = vec!['='];
            assert(eq@ =~= seq!['=']);
            match chars_find(stmt, &eq) {
                Some(i) => {
                    let lhs = sub_vec(stmt, 0, i);
                    assert(lhs@ =~= stmt@.take(i as int));
                    let names = extract_pattern_binding_names(&trim_chars(&lhs));
                    extend_last_frame(scopes, &names);
                },
                None => {},
            }
        },
    }
}


/// How a trimmed Svelte tag is read, the block patterns matched on it.
pub open spec fn svelte_tag_of(t: Seq<char>) -> SvelteTag<Seq<char>> {
    classify_spec(
        t,
        regex_capture_spans(SVELTE_EACH_PATTERN@, t),
        regex_capture_spans(SVELTE_AWAIT_PATTERN@, t),
        regex_capture_spans(SVELTE_THEN_PATTERN@, t),
        regex_capture_spans(SVELTE_CATCH_PATTERN@, t),
        regex_capture_spans(SVELTE_SNIPPET_PATTERN@, t),
    )
}

/// Reads a trimmed Svelte tag, matching the block patterns on it.
pub fn classify_svelte_tag(tag: &Vec<char>) -> (r: SvelteTag<Vec<char>>)
    ensures
        tag_view(r) == svelte_tag_of(tag@),
{
    let s = string_from_chars(tag);
    let each = capture_spans(SVELTE_EACH_PATTERN, s.as_str());
    let await_m = capture_spans(SVELTE_AWAIT_PATTERN, s.as_str());
    let then_m = capture_spans(SVELTE_THEN_PATTERN, s.as_str());
    let catch_m = capture_spans(SVELTE_CATCH_PATTERN, s.as_str());
    let snippet_m = capture_spans(SVELTE_SNIPPET_PATTERN, s.as_str());
    classify_svelte_tag_with(tag, &each, &await_m, &then_m, &catch_m, &snippet_m)
}

/// Applies one trimmed Svelte tag to the open scopes, appending the snippets
/// it hands to analysis.
pub fn apply_svelte_tag(tag: &Vec<char>, scopes: &mut Vec<SvelteScopeFrame>, requests: &mut Vec<SnippetRequest>)
    ensures
        frames_view(final(scopes)@) == svelte_step(svelte_tag_of(tag@), frames_view(old(scopes)@)).0,
        requests_view(final(requests)@) == requests_view(old(requests)@) + svelte_step(
            svelte_tag_of(tag@),
            frames_view(old(scopes)@),
        ).1,
{
    let classified = classify_svelte_tag(tag);
    apply_classified_svelte_tag(&classified, scopes, requests);
}

/// `<!-- ... -->`.
pub const HTML_COMMENT_PATTERN: &'static str = r"(?s)<!--.*?-->";
/// A `<script>` block.
pub const SCRIPT_BLOCK_PATTERN: &'static str =
    r#"(?is)<script\b(?:[^>"']|"[^"]*"|'[^']*')*>(?P<body>[\s\S]*?)</script>"#;
/// A `<style>` block.
pub const STYLE_BLOCK_PATTERN: &'static str =
    r#"(?is)<style\b(?:[^>"']|"[^"]*"|'[^']*')*>(?P<body>[\s\S]*?)</style>"#;
/// A `<template>` block, its content in the group `body`.
pub const TEMPLATE_BLOCK_PATTERN: &'static str =
    r#"(?is)<template\b(?:[^>"']|"[^"]*"|'[^']*')*>(?P<body>[\s\S]*?)</template>"#;

/// The byte spans of comments, scripts and styles in a Svelte source.
pub open spec fn svelte_hidden_spans(src: Seq<char>) -> Seq<(usize, usize)> {
    whole_match_spans(regex_capture_spans(HTML_COMMENT_PATTERN@, src))
        + whole_match_spans(regex_capture_spans(SCRIPT_BLOCK_PATTERN@, src))
        + whole_match_spans(regex_capture_spans(STYLE_BLOCK_PATTERN@, src))
}

/// Byte spans as character ranges of `src`.
pub open spec fn char_ranges(src: Seq<char>, spans: Seq<(usize, usize)>) -> Seq<(int, int)> {
    spans.map_values(|sp: (usize, usize)| char_range(src, sp))
}

/// The markup of a Svelte source: every character outside comments, script
/// blocks and style blocks.
pub open spec fn svelte_markup(src: Seq<char>) -> Seq<char> {
    uncovered_from(src, char_ranges(src, svelte_hidden_spans(src)), 0)
}

fn to_char_ranges(src: &Vec<char>, spans: &Vec<(usize, usize)>) -> (r: Vec<(usize, usize)>)
    ensures
        ranges_view(r@) == char_ranges(src@, spans@),
{
    let mut r: Vec<(usize, usize)> = Vec::new();
    let mut i: usize = 0;
    while i < spans.len()
        invariant
            i <= spans@.len(),
            ranges_view(r@) == char_ranges(src@, spans@.take(i as int)),
        decreases spans.len() - i,
    {
        let (a, b) = spans[i];
        let ca = char_index_of_byte(src, a);
        let cb = char_index_of_byte(src, b);
        let ghost before = ranges_view(r@);
        r.push((ca, cb));
        assert(ranges_view(r@) =~= before.push((ca as int, cb as int)));
        assert(spans@.take(i + 1) =~= spans@.take(i as int).push(spans@[i as int]));
        assert(char_ranges(src@, spans@.take(i + 1)) =~= char_ranges(src@, spans@.take(i as int)).push(
            char_range(src@, spans@[i as int]),
        ));
        i = i + 1;
    }
    assert(spans@.take(spans@.len() as int) =~= spans@);
    r
}

fn append_spans(out: &mut Vec<(usize, usize)>, more: &Vec<(usize, usize)>)
    ensures
        final(out)@ == old(out)@ + more@,
{
    let mut i: usize = 0;
    while i < more.len()
        invariant
            i <= more@.len(),
            out@ == old(out)@ + more@.take(i as int),
        decreases more.len() - i,
    {
        out.push(more[i]);
        assert(more@.take(i + 1) =~= more@.take(i as int).push(more@[i as int]));
        i = i + 1;
    }
    assert(more@.take(more@.len() as int) =~= more@);
}

/// The markup of a Svelte source, without its comments, scripts and styles.
pub fn strip_svelte_non_template_content(source: &Vec<char>) -> (r: Vec<char>)
    ensures
        r@ == svelte_markup(source@),
{
    let s = string_from_chars(source);
    let comments = whole_matches(&capture_spans(HTML_COMMENT_PATTERN, s.as_str()));
    let scripts = whole_matches(&capture_spans(SCRIPT_BLOCK_PATTERN, s.as_str()));
    let styles = whole_matches(&capture_spans(STYLE_BLOCK_PATTERN, s.as_str()));
    let mut hidden: Vec<(usize, usize)> = Vec::new();
    append_spans(&mut hidden, &comments);
    append_spans(&mut hidden, &scripts);
    append_spans(&mut hidden, &styles);
    assert(hidden@ =~= svelte_hidden_spans(source@));
    let ranges = to_char_ranges(source, &hidden);
    remove_ranges(source, &ranges)
}

/// The snippets of Svelte markup from position `i` on, with the scopes open
/// there: each `{` starts a tag that runs to its matching `}`; the walk
/// stops at a tag that is never closed.
pub open spec fn svelte_walk(m: Seq<char>, i: int, frames: Seq<FrameSpec>) -> Seq<SnippetSpec>
    decreases m.len() - i,
{
    if i < 0 || i >= m.len() {
        seq![]
    } else if m[i] != '{' {
        svelte_walk(m, i + 1, frames)
    } else {
        match brace_scan(m, i + 1, lex_start(), false) {
            Some(e) => if i < e < m.len() {
                let step = svelte_step(svelte_tag_of(trim(m.subrange(i + 1, e))), frames);
                step.1 + svelte_walk(m, e + 1, step.0)
            } else {
                seq![]
            },
            None => seq![],
        }
    }
}

/// The root scope of a Svelte document.
pub open spec fn svelte_root() -> Seq<FrameSpec> {
    seq![new_frame(SvelteBlockKind::Other, seq![])]
}

/// The snippets that a Svelte source hands to analysis, in order.
pub open spec fn svelte_template_snippets(src: Seq<char>) -> Seq<SnippetSpec> {
    svelte_walk(svelte_markup(src), 0, svelte_root())
}

/// The snippets that a Svelte source hands to analysis: every `{...}` tag
/// of its markup, read with the names that enclosing blocks bind.
pub fn collect_svelte_template_snippets(source: &Vec<char>) -> (r: Vec<SnippetRequest>)
    ensures
        requests_view(r@) == svelte_template_snippets(source@),
{
    let markup = strip_svelte_non_template_content(source);
    let mut requests: Vec<SnippetRequest> = Vec::new();
    if markup.len() == 0 {
        assert(requests_view(requests@) =~= seq![]);
        return requests;
    }
    let mut scopes: Vec<SvelteScopeFrame> = Vec::new();
    push_frame(&mut scopes, SvelteBlockKind::Other, no_names());
    assert(frames_view(scopes@) =~= svelte_root());
    let mut index: usize = 0;
    while index < markup.len()
        invariant
            index <= markup@.len(),
            markup@ == svelte_markup(source@),
            svelte_template_snippets(source@) == requests_view(requests@) + svelte_walk(
                markup@,
                index as int,
                frames_view(scopes@),
            ),
        decreases markup.len() - index,
    {
        if markup[index] != '{' {
            index = index + 1;
        } else {
            proof { lemma_brace_scan(markup@, index + 1, lex_start(), false); }
            match scan_svelte_brace_tag(&markup, index) {
                Some((tag, next)) => {
                    let ghost r0 = requests_view(requests@);
                    let ghost f0 = frames_view(scopes@);
                    let t = trim_chars(&tag);
                    apply_svelte_tag(&t, &mut scopes, &mut requests);
                    proof {
                        let step = svelte_step(svelte_tag_of(t@), f0);
                        assert(svelte_walk(markup@, index as int, f0) == step.1 + svelte_walk(markup@, next as int, step.0));
                        assert(r0 + (step.1 + svelte_walk(markup@, next as int, step.0))
                            =~= (r0 + step.1) + svelte_walk(markup@, next as int, step.0));
                    }
                    index = next;
                },
                None => {
                    assert(requests_view(requests@) + seq![] =~= requests_view(requests@));
                    return requests;
                },
            }
        }
    }
    assert(requests_view(requests@) + seq![] =~= requests_view(requests@));
    requests
}


// ---- Vue ---------------------------------------------------------------

/// An attribute of a Vue tag: its name and, when it has `=`, its value.
#[derive(Debug, Clone)]
pub struct VueAttr {
    pub name: Vec<char>,
    pub value: Option<Vec<char>>,
}

/// The attributes of a Vue start tag, and whether it closes itself.
#[derive(Debug, Clone)]
pub struct VueTag {
    pub attrs: Vec<VueAttr>,
    pub self_closing: bool,
}

/// The mathematical value of a [`VueAttr`].
pub struct AttrSpec {
    pub name: Seq<char>,
    pub value: Option<Seq<char>>,
}

impl VueAttr {
    pub open spec fn spec(&self) -> AttrSpec {
        AttrSpec { name: self.name@, value: opt_view(self.value) }
    }
}

pub open spec fn attrs_view(v: Seq<VueAttr>) -> Seq<AttrSpec> {
    v.map_values(|a: VueAttr| a.spec())
}

/// Number of leading copies of `c` in `s`.
pub open spec fn leading_run(s: Seq<char>, c: char) -> nat
    decreases s.len(),
{
    if s.len() > 0 && s[0] == c { 1 + leading_run(s.drop_first(), c) } else { 0 }
}

/// Number of trailing copies of `c` in `s`.
pub open spec fn trailing_run(s: Seq<char>, c: char) -> nat
    decreases s.len(),
{
    if s.len() > 0 && s.last() == c { 1 + trailing_run(s.drop_last(), c) } else { 0 }
}

pub proof fn lemma_runs(s: Seq<char>, c: char)
    ensures
        leading_run(s, c) <= s.len(),
        trailing_run(s, c) <= s.len(),
    decreases s.len(),
{
    if s.len() > 0 {
        lemma_runs(s.drop_first(), c);
        lemma_runs(s.drop_last(), c);
    }
}

/// `s` without its leading copies of `c`.
pub open spec fn strip_leading(s: Seq<char>, c: char) -> Seq<char> {
    s.skip(leading_run(s, c) as int)
}

/// `s` without its trailing copies of `c`.
pub open spec fn strip_trailing(s: Seq<char>, c: char) -> Seq<char> {
    s.take(s.len() - trailing_run(s, c))
}

/// The first position at or after `i` holding whitespace, else the length.
pub open spec fn first_ws_from(s: Seq<char>, i: int) -> int
    decreases s.len() - i,
{
    if i < 0 || i >= s.len() { s.len() as int } else if is_ws(s[i]) { i } else { first_ws_from(s, i + 1) }
}

/// The first position at or after `i` holding whitespace or `=`, else the length.
pub open spec fn name_end_from(s: Seq<char>, i: int) -> int
    decreases s.len() - i,
{
    if i < 0 || i >= s.len() { s.len() as int } else if is_ws(s[i]) || s[i] == '=' { i } else { name_end_from(s, i + 1) }
}

/// The first position at or after `i` holding `c`, else the length.
pub open spec fn char_from(s: Seq<char>, i: int, c: char) -> int
    decreases s.len() - i,
{
    if i < 0 || i >= s.len() { s.len() as int } else if s[i] == c { i } else { char_from(s, i + 1, c) }
}

/// `i` moved past whitespace.
pub open spec fn past_ws(s: Seq<char>, i: int) -> int {
    i + leading_ws(s.skip(i))
}

/// The value of an attribute whose name is followed (after whitespace) by
/// position `i`, and the position after it: a quoted value runs to the
/// matching quote (or the end), an unquoted one to whitespace.
pub open spec fn attr_value(s: Seq<char>, i: int) -> (Option<Seq<char>>, int) {
    if 0 <= i < s.len() && s[i] == '=' {
        let j = past_ws(s, i + 1);
        if j < s.len() {
            let q = s[j];
            if q == '\'' || q == '"' {
                let end = char_from(s, j + 1, q);
                (Some(s.subrange(j + 1, end)), if end < s.len() { end + 1 } else { end })
            } else {
                let end = first_ws_from(s, j);
                (Some(s.subrange(j, end)), end)
            }
        } else {
            (None, j)
        }
    } else {
        (None, i)
    }
}

/// The attributes of the tag text `s` from position `i` on.
pub open spec fn attrs_from(s: Seq<char>, i: int) -> Seq<AttrSpec>
    decreases s.len() - i,
{
    if i < 0 || i >= s.len() {
        seq![]
    } else {
        let start = past_ws(s, i);
        if start >= s.len() {
            seq![]
        } else {
            let end = name_end_from(s, start);
            let name = s.subrange(start, end);
            let v = attr_value(s, past_ws(s, end));
            let rest = if i < v.1 <= s.len() { attrs_from(s, v.1) } else { seq![] };
            if name.len() > 0 { seq![AttrSpec { name, value: v.0 }] + rest } else { rest }
        }
    }
}

/// The inside of a tag: without its angle brackets and outer whitespace.
pub open spec fn tag_inner(tag: Seq<char>) -> Seq<char> {
    trim(strip_trailing(strip_leading(tag, '<'), '>'))
}

/// Whether a tag closes itself (`<x />`).
pub open spec fn tag_self_closing(tag: Seq<char>) -> bool {
    let inner = tag_inner(tag);
    inner.len() > 0 && inner.last() == '/'
}

/// The attribute text of a tag: its inside without the closing `/`.
pub open spec fn tag_body(tag: Seq<char>) -> Seq<char> {
    trim_end(strip_trailing(tag_inner(tag), '/'))
}

/// The attributes of a Vue start tag: those after the element name.
pub open spec fn tag_attrs(tag: Seq<char>) -> Seq<AttrSpec> {
    let body = tag_body(tag);
    attrs_from(body, first_ws_from(body, 0))
}

proof fn lemma_scans(s: Seq<char>, i: int, c: char)
    requires
        0 <= i <= s.len(),
    ensures
        i <= first_ws_from(s, i) <= s.len(),
        i <= name_end_from(s, i) <= s.len(),
        i <= char_from(s, i, c) <= s.len(),
        first_ws_from(s, i) < s.len() ==> is_ws(s[first_ws_from(s, i)]),
        name_end_from(s, i) < s.len() ==> (is_ws(s[name_end_from(s, i)]) || s[name_end_from(s, i)] == '='),
    decreases s.len() - i,
{
    if i < s.len() {
        lemma_scans(s, i + 1, c);
    }
}

proof fn lemma_past_ws(s: Seq<char>, i: int)
    requires
        0 <= i <= s.len(),
    ensures
        i <= past_ws(s, i) <= s.len(),
        past_ws(s, i) < s.len() ==> !is_ws(s[past_ws(s, i)]),
        i < s.len() && !is_ws(s[i]) ==> past_ws(s, i) == i,
{
    lemma_leading_ws_bound(s.skip(i));
    if past_ws(s, i) < s.len() {
        assert(s.skip(i)[leading_ws(s.skip(i)) as int] == s[past_ws(s, i)]);
    }
    if i < s.len() && !is_ws(s[i]) {
        assert(s.skip(i)[0] == s[i]);
    }
}

fn first_ws_pos(s: &Vec<char>, from: usize) -> (r: usize)
    requires
        from <= s@.len(),
    ensures
        r == first_ws_from(s@, from as int),
{
    let mut i = from;
    while i < s.len() && !crate::text::char_is_ws(s[i])
        invariant
            from <= i <= s@.len(),
            first_ws_from(s@, from as int) == first_ws_from(s@, i as int),
        decreases s.len() - i,
    {
        i = i + 1;
    }
    i
}

fn name_end_pos(s: &Vec<char>, from: usize) -> (r: usize)
    requires
        from <= s@.len(),
    ensures
        r == name_end_from(s@, from as int),
{
    let mut i = from;
    while i < s.len() && !crate::text::char_is_ws(s[i]) && s[i] != '='
        invariant
            from <= i <= s@.len(),
            name_end_from(s@, from as int) == name_end_from(s@, i as int),
        decreases s.len() - i,
    {
        i = i + 1;
    }
    i
}

fn char_pos(s: &Vec<char>, from: usize, c: char) -> (r: usize)
    requires
        from <= s@.len(),
    ensures
        r == char_from(s@, from as int, c),
{
    let mut i = from;
    while i < s.len() && s[i] != c
        invariant
            from <= i <= s@.len(),
            char_from(s@, from as int, c) == char_from(s@, i as int, c),
        decreases s.len() - i,
    {
        i = i + 1;
    }
    i
}

fn strip_leading_chars(s: &Vec<char>, c: char) -> (r: Vec<char>)
    ensures
        r@ == strip_leading(s@, c),
{
    let mut i: usize = 0;
    assert(s@.skip(0) =~= s@);
    while i < s.len() && s[i] == c
        invariant
            i <= s@.len(),
            leading_run(s@, c) == i + leading_run(s@.skip(i as int), c),
        decreases s.len() - i,
    {
        assert(s@.skip(i as int).drop_first() =~= s@.skip(i + 1));
        i = i + 1;
    }
    proof {
        if i < s@.len() {
            assert(s@.skip(i as int)[0] == s@[i as int]);
        }
    }
    tail(s, i)
}

fn strip_trailing_chars(s: &Vec<char>, c: char) -> (r: Vec<char>)
    ensures
        r@ == strip_trailing(s@, c),
{
    let mut n = s.len();
    assert(s@.take(s@.len() as int) =~= s@);
    while n > 0 && s[n - 1] == c
        invariant
            n <= s@.len(),
            trailing_run(s@, c) == (s@.len() - n) + trailing_run(s@.take(n as int), c),
        decreases n,
    {
        assert(s@.take(n as int).drop_last() =~= s@.take(n - 1));
        n = n - 1;
    }
    proof {
        if n > 0 {
            assert(s@.take(n as int).last() == s@[n - 1]);
        }
    }
    let r = sub_vec(s, 0, n);
    assert(r@ =~= s@.take(n as int));
    r
}

fn trim_end_chars(s: &Vec<char>) -> (r: Vec<char>)
    ensures
        r@ == trim_end(s@),
{
    let mut n = s.len();
    assert(s@.take(s@.len() as int) =~= s@);
    while n > 0 && crate::text::char_is_ws(s[n - 1])
        invariant
            n <= s@.len(),
            trailing_ws(s@) == (s@.len() - n) + trailing_ws(s@.take(n as int)),
        decreases n,
    {
        assert(s@.take(n as int).drop_last() =~= s@.take(n - 1));
        n = n - 1;
    }
    proof {
        if n > 0 {
            assert(s@.take(n as int).last() == s@[n - 1]);
        }
        assert(s@.take(s@.len() as int) =~= s@);
    }
    let r = sub_vec(s, 0, n);
    assert(r@ =~= s@.take(n as int));
    r
}

fn push_attr(out: &mut Vec<VueAttr>, a: VueAttr)
    ensures
        attrs_view(final(out)@) == attrs_view(old(out)@).push(a.spec()),
{
    let ghost before = attrs_view(out@);
    out.push(a);
    assert(attrs_view(out@) =~= before.push(a.spec()));
}

/// Parses a Vue start tag into its attributes (see [`tag_attrs`]).
pub fn parse_vue_tag(tag: &Vec<char>) -> (r: VueTag)
    ensures
        attrs_view(r.attrs@) == tag_attrs(tag@),
        r.self_closing == tag_self_closing(tag@),
{
    let a = strip_leading_chars(tag, '<');
    let b = strip_trailing_chars(&a, '>');
    let inner0 = trim_chars(&b);
    let self_closing = inner0.len() > 0 && inner0[inner0.len() - 1] == '/';
    let c = strip_trailing_chars(&inner0, '/');
    let inner = trim_end_chars(&c);
    let len = inner.len();
    let mut attrs: Vec<VueAttr> = Vec::new();
    proof { lemma_scans(inner@, 0, ' '); }
    let mut index = first_ws_pos(&inner, 0);
    let ghost s = inner@;
    let ghost i0 = index as int;
    assert(attrs_view(attrs@) + attrs_from(s, i0) =~= attrs_from(s, i0));
    while index < len
        invariant
            s == inner@,
            len == s.len(),
            index <= len,
            tag_attrs(tag@) == attrs_from(s, i0),
            attrs_from(s, i0) == attrs_view(attrs@) + attrs_from(s, index as int),
        decreases len - index,
    {
        let ghost i = index as int;
        let start = crate::text::skip_ws(&inner, index);
        proof { lemma_past_ws(s, i); }
        if start >= len {
            assert(attrs_from(s, i) =~= seq![]);
            assert(attrs_from(s, len as int) =~= seq![]);
            index = len;
        } else {
            let end = name_end_pos(&inner, start);
            proof { lemma_scans(s, start as int, ' '); }
            let name = sub_vec(&inner, start, end);
            let after_name = crate::text::skip_ws(&inner, end);
            proof { lemma_past_ws(s, end as int); }
            let mut value: Option<Vec<char>> = None;
            let mut next = after_name;
            if after_name < len && inner[after_name] == '=' {
                let j = crate::text::skip_ws(&inner, after_name + 1);
                proof { lemma_past_ws(s, after_name + 1); }
                next = j;
                if j < len {
                    let q = inner[j];
                    if q == '\'' || q == '"' {
                        let e = char_pos(&inner, j + 1, q);
                        proof { lemma_scans(s, j + 1, q); }
                        value = Some(sub_vec(&inner, j + 1, e));
                        next = if e < len { e + 1 } else { e };
                    } else {
                        let e = first_ws_pos(&inner, j);
                        proof { lemma_scans(s, j as int, q); }
                        value = Some(sub_vec(&inner, j, e));
                        next = e;
                    }
                }
            }
            proof {
                let v = attr_value(s, past_ws(s, end as int));
                assert(opt_view(value) == v.0);
                assert(next == v.1);
                if end == start {
                    assert(s[start as int] == '=');
                    assert(after_name == end);
                }
                assert(i < next);
            }
            let ghost before = attrs_view(attrs@);
            if name.len() > 0 {
                push_attr(&mut attrs, VueAttr { name, value });
                assert(attrs_from(s, i) == seq![AttrSpec { name: name@, value: opt_view(value) }] + attrs_from(s, next as int));
                assert(before + attrs_from(s, i) =~= attrs_view(attrs@) + attrs_from(s, next as int));
            } else {
                assert(attrs_from(s, i) == attrs_from(s, next as int));
            }
            index = next;
        }
    }
    assert(attrs_from(s, index as int) =~= seq![]);
    assert(attrs_view(attrs@) + seq![] =~= attrs_view(attrs@));
    VueTag { attrs, self_closing }
}


fn chars_start_str(v: &Vec<char>, p: &str) -> (r: bool)
    ensures
        r == starts_with(v@, p@),
{
    let pv = str_chars(p);
    chars_start_with(v, &pv)
}

fn chars_eq_str(v: &Vec<char>, p: &str) -> (r: bool)
    ensures
        r == (v@ == p@),
{
    let pv = str_chars(p);
    chars_eq(v, &pv)
}

/// Attributes whose value is a statement (event handlers).
pub open spec fn is_statement_attr(n: Seq<char>) -> bool {
    starts_with(n, "@"@) || starts_with(n, "v-on:"@)
}

/// Attributes whose value is an expression.
pub open spec fn is_expression_attr(n: Seq<char>) -> bool {
    ||| starts_with(n, ":"@)
    ||| starts_with(n, "v-bind:"@)
    ||| n == "v-if"@
    ||| n == "v-else-if"@
    ||| n == "v-show"@
    ||| n == "v-html"@
    ||| n == "v-text"@
    ||| n == "v-memo"@
    ||| n == "v-model"@
    ||| starts_with(n, "v-model:"@)
}

/// Attributes that bind slot props.
pub open spec fn is_slot_attr(n: Seq<char>) -> bool {
    n == "slot-scope"@ || starts_with(n, "v-slot"@) || starts_with(n, "#"@)
}

pub open spec fn is_for_attr(n: Seq<char>) -> bool {
    n == "v-for"@
}

/// Attributes that bind names rather than use them.
pub open spec fn is_scope_attr(n: Seq<char>) -> bool {
    is_for_attr(n) || is_slot_attr(n)
}

/// Whether a Vue attribute holds an event-handler statement.
pub fn is_vue_statement_attr(name: &Vec<char>) -> (r: bool)
    ensures
        r == is_statement_attr(name@),
{
    chars_start_str(name, "@") || chars_start_str(name, "v-on:")
}

/// Whether a Vue attribute holds an expression.
pub fn is_vue_expression_attr(name: &Vec<char>) -> (r: bool)
    ensures
        r == is_expression_attr(name@),
{
    chars_start_str(name, ":") || chars_start_str(name, "v-bind:") || chars_eq_str(name, "v-if")
        || chars_eq_str(name, "v-else-if") || chars_eq_str(name, "v-show") || chars_eq_str(name, "v-html")
        || chars_eq_str(name, "v-text") || chars_eq_str(name, "v-memo") || chars_eq_str(name, "v-model")
        || chars_start_str(name, "v-model:")
}

fn is_vue_slot_attr(name: &Vec<char>) -> (r: bool)
    ensures
        r == is_slot_attr(name@),
{
    chars_eq_str(name, "slot-scope") || chars_start_str(name, "v-slot") || chars_start_str(name, "#")
}

fn is_vue_for_attr(name: &Vec<char>) -> (r: bool)
    ensures
        r == is_for_attr(name@),
{
    chars_eq_str(name, "v-for")
}

/// The index of the first attribute whose name satisfies `p`.
pub open spec fn first_attr_where(attrs: Seq<AttrSpec>, p: spec_fn(Seq<char>) -> bool) -> Option<int>
    decreases attrs.len(),
{
    if attrs.len() == 0 {
        None
    } else if p(attrs[0].name) {
        Some(0)
    } else {
        match first_attr_where(attrs.drop_first(), p) {
            Some(i) => Some(i + 1),
            None => None,
        }
    }
}

/// The value of the first attribute whose name satisfies `p`.
pub open spec fn attr_value_where(attrs: Seq<AttrSpec>, p: spec_fn(Seq<char>) -> bool) -> Option<Seq<char>> {
    match first_attr_where(attrs, p) {
        Some(i) => attrs[i].value,
        None => None,
    }
}

proof fn lemma_first_attr_where(attrs: Seq<AttrSpec>, p: spec_fn(Seq<char>) -> bool, k: int)
    requires
        0 <= k <= attrs.len(),
        forall|j: int| 0 <= j < k ==> !p(#[trigger] attrs[j].name),
    ensures
        k < attrs.len() && p(attrs[k].name) ==> first_attr_where(attrs, p) == Some(k),
        k == attrs.len() ==> first_attr_where(attrs, p) is None,
    decreases k,
{
    if k > 0 {
        let d = attrs.drop_first();
        assert forall|j: int| 0 <= j < k - 1 implies !p(#[trigger] d[j].name) by {
            assert(d[j] == attrs[j + 1]);
        }
        lemma_first_attr_where(d, p, k - 1);
        assert(!p(attrs[0].name));
        if k < attrs.len() {
            assert(d[k - 1] == attrs[k]);
        }
    }
}

fn attr_value_of_first(attrs: &Vec<VueAttr>, want_for: bool) -> (r: Option<Vec<char>>)
    ensures
        opt_view(r) == attr_value_where(
            attrs_view(attrs@),
            if want_for { |n: Seq<char>| is_for_attr(n) } else { |n: Seq<char>| is_slot_attr(n) },
        ),
{
    let ghost p = if want_for { |n: Seq<char>| is_for_attr(n) } else { |n: Seq<char>| is_slot_attr(n) };
    let ghost av = attrs_view(attrs@);
    let mut i: usize = 0;
    while i < attrs.len()
        invariant
            i <= attrs@.len(),
            av == attrs_view(attrs@),
            p == (if want_for { |n: Seq<char>| is_for_attr(n) } else { |n: Seq<char>| is_slot_attr(n) }),
            forall|j: int| 0 <= j < i ==> !p(#[trigger] av[j].name),
        decreases attrs.len() - i,
    {
        let hit = if want_for { is_vue_for_attr(&attrs[i].name) } else { is_vue_slot_attr(&attrs[i].name) };
        assert(av[i as int] == attrs@[i as int].spec());
        if hit {
            proof { lemma_first_attr_where(av, p, i as int); }
            return attrs[i].value.clone();
        }
        i = i + 1;
    }
    proof { lemma_first_attr_where(av, p, i as int); }
    None
}

/// The requests for the attributes' values, in order: event handlers as
/// statements, other expression attributes as expressions; attributes that
/// bind names are skipped.
pub open spec fn attr_requests(attrs: Seq<AttrSpec>, locals: Seq<Seq<char>>) -> Seq<SnippetSpec>
    decreases attrs.len(),
{
    if attrs.len() == 0 {
        seq![]
    } else {
        let prev = attr_requests(attrs.drop_last(), locals);
        let a = attrs.last();
        match a.value {
            Some(e) => if is_scope_attr(a.name) {
                prev
            } else if is_statement_attr(a.name) {
                prev.push(statement(e, locals))
            } else if is_expression_attr(a.name) {
                prev.push(expression(e, locals))
            } else {
                prev
            },
            None => prev,
        }
    }
}

pub open spec fn scopes_view(v: Seq<Vec<Vec<char>>>) -> Seq<Seq<Seq<char>>> {
    v.map_values(|x: Vec<Vec<char>>| vviews(x@))
}

/// All names of the open elements, outermost first.
pub open spec fn concat_scopes(sc: Seq<Seq<Seq<char>>>) -> Seq<Seq<char>>
    decreases sc.len(),
{
    if sc.len() == 0 { seq![] } else { concat_scopes(sc.drop_last()) + sc.last() }
}

/// All names of the open Vue elements, outermost first.
pub fn current_vue_locals(scopes: &Vec<Vec<Vec<char>>>) -> (r: Vec<Vec<char>>)
    ensures
        vviews(r@) == concat_scopes(scopes_view(scopes@)),
{
    let mut r: Vec<Vec<char>> = Vec::new();
    let mut i: usize = 0;
    while i < scopes.len()
        invariant
            i <= scopes@.len(),
            vviews(r@) == concat_scopes(scopes_view(scopes@).take(i as int)),
        decreases scopes.len() - i,
    {
        proof {
            assert(scopes_view(scopes@).take(i + 1).drop_last() =~= scopes_view(scopes@).take(i as int));
        }
        append_all(&mut r, &scopes[i]);
        i = i + 1;
    }
    assert(scopes_view(scopes@).take(scopes@.len() as int) =~= scopes_view(scopes@));
    r
}

/// `{v-for="binding in source"}`: the binding pattern and the source.
pub const VUE_FOR_PATTERN: &'static str = r"(?is)^(?P<binding>.+?)\s+(?:in|of)\s+(?P<source>.+)$";

/// What a parsed Vue start tag does, given the matches of the `v-for`
/// pattern on its `v-for` value: the scopes afterwards (a new scope with
/// the names it binds unless it closes itself) and the snippets it hands to
/// analysis.
pub open spec fn vue_parsed_step(
    attrs: Seq<AttrSpec>,
    self_closing: bool,
    caps: Seq<Seq<Option<(usize, usize)>>>,
    scopes: Seq<Seq<Seq<char>>>,
) -> (Seq<Seq<Seq<char>>>, Seq<SnippetSpec>) {
    let cur = concat_scopes(scopes);
    let for_part: (Seq<SnippetSpec>, Seq<Seq<char>>) = match attr_value_where(attrs, |n: Seq<char>| is_for_attr(n)) {
        Some(v) => if caps.len() > 0 {
            (
                seq![expression(trim(group_or_empty(v, caps[0], 2)), cur)],
                pattern_binding_names(trim(group_or_empty(v, caps[0], 1))),
            )
        } else {
            (seq![], seq![])
        },
        None => (seq![], seq![]),
    };
    let slot_names = match attr_value_where(attrs, |n: Seq<char>| is_slot_attr(n)) {
        Some(v) => pattern_binding_names(v),
        None => seq![],
    };
    let element = for_part.1 + slot_names;
    let reqs = for_part.0 + attr_requests(attrs, cur + element);
    (if self_closing { scopes } else { scopes.push(element) }, reqs)
}

fn copy_names(v: &Vec<Vec<char>>) -> (r: Vec<Vec<char>>)
    ensures
        vviews(r@) == vviews(v@),
{
    let mut r: Vec<Vec<char>> = Vec::new();
    append_all(&mut r, v);
    assert(vviews(r@) =~= vviews(v@));
    r
}

fn attr_requests_exec(attrs: &Vec<VueAttr>, locals: &Vec<Vec<char>>, requests: &mut Vec<SnippetRequest>)
    ensures
        requests_view(final(requests)@) == requests_view(old(requests)@) + attr_requests(attrs_view(attrs@), vviews(locals@)),
{
    let ghost r0 = requests_view(requests@);
    let mut i: usize = 0;
    while i < attrs.len()
        invariant
            i <= attrs@.len(),
            requests_view(requests@) == r0 + attr_requests(attrs_view(attrs@).take(i as int), vviews(locals@)),
        decreases attrs.len() - i,
    {
        proof {
            assert(attrs_view(attrs@).take(i + 1).drop_last() =~= attrs_view(attrs@).take(i as int));
            assert(attrs_view(attrs@).take(i + 1).last() == attrs@[i as int].spec());
        }
        let ghost before = requests_view(requests@);
        let a = &attrs[i];
        match &a.value {
            Some(e) => {
                if is_vue_for_attr(&a.name) || is_vue_slot_attr(&a.name) {
                } else if is_vue_statement_attr(&a.name) {
                    request(e.clone(), TemplateSnippetKind::Statement, copy_names(locals), requests);
                } else if is_vue_expression_attr(&a.name) {
                    request(e.clone(), TemplateSnippetKind::Expression, copy_names(locals), requests);
                }
            },
            None => {},
        }
        proof {
            let pv = attr_requests(attrs_view(attrs@).take(i as int), vviews(locals@));
            let nv = attr_requests(attrs_view(attrs@).take(i + 1), vviews(locals@));
            assert(before == r0 + pv);
            if nv == pv {
                assert(requests_view(requests@) =~= before);
            } else {
                assert(nv.drop_last() == pv);
                assert(requests_view(requests@) =~= before.push(nv.last()));
            }
            assert(requests_view(requests@) =~= r0 + nv);
        }
        i = i + 1;
    }
    assert(attrs_view(attrs@).take(attrs@.len() as int) =~= attrs_view(attrs@));
}


fn push_scope(scopes: &mut Vec<Vec<Vec<char>>>, names: Vec<Vec<char>>)
    ensures
        scopes_view(final(scopes)@) == scopes_view(old(scopes)@).push(vviews(names@)),
{
    let ghost before = scopes_view(scopes@);
    scopes.push(names);
    assert(scopes_view(scopes@) =~= before.push(vviews(names@)));
}

/// Applies a parsed Vue start tag, given the matches of the `v-for` pattern
/// on its `v-for` value (see [`vue_parsed_step`]).
pub fn apply_parsed_vue_tag(
    parsed: &VueTag,
    for_caps: &Vec<Vec<Option<(usize, usize)>>>,
    scopes: &mut Vec<Vec<Vec<char>>>,
    requests: &mut Vec<SnippetRequest>,
)
    ensures
        scopes_view(final(scopes)@) == vue_parsed_step(
            attrs_view(parsed.attrs@),
            parsed.self_closing,
            spans_view(for_caps@),
            scopes_view(old(scopes)@),
        ).0,
        requests_view(final(requests)@) == requests_view(old(requests)@) + vue_parsed_step(
            attrs_view(parsed.attrs@),
            parsed.self_closing,
            spans_view(for_caps@),
            scopes_view(old(scopes)@),
        ).1,
{
    let ghost r0 = requests_view(requests@);
    let ghost sc0 = scopes_view(scopes@);
    let ghost av = attrs_view(parsed.attrs@);
    let ghost cur = concat_scopes(sc0);
    let ghost fc = spans_view(for_caps@);
    let ghost for_part: (Seq<SnippetSpec>, Seq<Seq<char>>) = match attr_value_where(av, |n: Seq<char>| is_for_attr(n)) {
        Some(v) => if fc.len() > 0 {
            (
                seq![expression(trim(group_or_empty(v, fc[0], 2)), cur)],
                pattern_binding_names(trim(group_or_empty(v, fc[0], 1))),
            )
        } else {
            (seq![], seq![])
        },
        None => (seq![], seq![]),
    };
    let ghost slot_names = match attr_value_where(av, |n: Seq<char>| is_slot_attr(n)) {
        Some(v) => pattern_binding_names(v),
        None => seq![],
    };
    let current = current_vue_locals(scopes);
    let mut element: Vec<Vec<char>> = Vec::new();
    match attr_value_of_first(&parsed.attrs, true) {
        Some(value) => {
            if for_caps.len() > 0 {
                proof { assert(fc[0] == for_caps@[0]@); }
                let binding = trim_chars(&group_or_empty_chars(&value, &for_caps[0], 1));
                let source_expr = trim_chars(&group_or_empty_chars(&value, &for_caps[0], 2));
                request(source_expr, TemplateSnippetKind::Expression, copy_names(&current), requests);
                let names = extract_pattern_binding_names(&binding);
                append_all(&mut element, &names);
            }
        },
        None => {},
    }
    assert(requests_view(requests@) =~= r0 + for_part.0);
    assert(vviews(element@) =~= for_part.1);
    match attr_value_of_first(&parsed.attrs, false) {
        Some(value) => {
            let names = extract_pattern_binding_names(&value);
            append_all(&mut element, &names);
        },
        None => {},
    }
    assert(vviews(element@) =~= for_part.1 + slot_names);
    let mut attr_locals = copy_names(&current);
    append_all(&mut attr_locals, &element);
    attr_requests_exec(&parsed.attrs, &attr_locals, requests);
    assert(requests_view(requests@) =~= r0 + (for_part.0 + attr_requests(av, cur + (for_part.1 + slot_names))));
    if !parsed.self_closing {
        push_scope(scopes, element);
    }
}

/// What a Vue tag does to the open scopes and which snippets it hands to
/// analysis: a closing tag closes the innermost scope (never the root);
/// comments, doctypes and processing instructions do nothing; a start tag
/// is parsed and applied with the `v-for` pattern matched on its `v-for`
/// value.
pub open spec fn vue_tag_step(tag: Seq<char>, scopes: Seq<Seq<Seq<char>>>) -> (Seq<Seq<Seq<char>>>, Seq<SnippetSpec>) {
    let t = trim(tag);
    if starts_with(t, "</"@) {
        (if scopes.len() > 1 { scopes.drop_last() } else { scopes }, seq![])
    } else if starts_with(t, "<!"@) || starts_with(t, "<?"@) {
        (scopes, seq![])
    } else {
        let attrs = tag_attrs(t);
        let caps = match attr_value_where(attrs, |n: Seq<char>| is_for_attr(n)) {
            Some(v) => regex_capture_spans(VUE_FOR_PATTERN@, v),
            None => seq![],
        };
        vue_parsed_step(attrs, tag_self_closing(t), caps, scopes)
    }
}

/// Applies one Vue tag (see [`vue_tag_step`]).
pub fn apply_vue_tag(tag: &Vec<char>, scopes: &mut Vec<Vec<Vec<char>>>, requests: &mut Vec<SnippetRequest>)
    ensures
        scopes_view(final(scopes)@) == vue_tag_step(tag@, scopes_view(old(scopes)@)).0,
        requests_view(final(requests)@) == requests_view(old(requests)@) + vue_tag_step(tag@, scopes_view(old(scopes)@)).1,
{
    let trimmed = trim_chars(tag);
    if chars_start_str(&trimmed, "</") {
        if scopes.len() > 1 {
            let ghost before = scopes_view(scopes@);
            scopes.pop();
            assert(scopes_view(scopes@) =~= before.drop_last());
        }
        assert(requests_view(requests@) + seq![] =~= requests_view(requests@));
        return;
    }
    if chars_start_str(&trimmed, "<!") || chars_start_str(&trimmed, "<?") {
        assert(requests_view(requests@) + seq![] =~= requests_view(requests@));
        return;
    }
    let parsed = parse_vue_tag(&trimmed);
    let caps = match attr_value_of_first(&parsed.attrs, true) {
        Some(value) => {
            let s = string_from_chars(&value);
            capture_spans(VUE_FOR_PATTERN, s.as_str())
        },
        None => {
            let none: Vec<Vec<Option<(usize, usize)>>> = Vec::new();
            assert(spans_view(none@) =~= seq![]);
            none
        },
    };
    apply_parsed_vue_tag(&parsed, &caps, scopes, requests);
}

/// The snippets of a Vue template body from position `i` on, with the
/// element scopes open there: comments are skipped, each `{{ ... }}` is an
/// expression, each tag is applied; the walk stops at anything unclosed.
pub open spec fn vue_walk(b: Seq<char>, i: int, scopes: Seq<Seq<Seq<char>>>) -> Seq<SnippetSpec>
    decreases b.len() - i,
{
    if i < 0 || i >= b.len() {
        seq![]
    } else if occurs_at(b, "<!--"@, i) {
        match find_from(b, "-->"@, i + 4) {
            Some(j) => if i < j + 3 <= b.len() { vue_walk(b, j + 3, scopes) } else { seq![] },
            None => seq![],
        }
    } else if occurs_at(b, "{{"@, i) {
        match brace_scan(b, i + 2, lex_start(), true) {
            Some(e) => if i < e + 2 <= b.len() {
                seq![expression(trim(b.subrange(i + 2, e)), concat_scopes(scopes))] + vue_walk(b, e + 2, scopes)
            } else {
                seq![]
            },
            None => seq![],
        }
    } else if b[i] == '<' {
        match tag_scan(b, i + 1, false, false, false) {
            Some(e) => if i < e + 1 <= b.len() {
                let step = vue_tag_step(b.subrange(i, e + 1), scopes);
                step.1 + vue_walk(b, e + 1, step.0)
            } else {
                seq![]
            },
            None => seq![],
        }
    } else {
        vue_walk(b, i + 1, scopes)
    }
}

/// The snippets of one Vue template body.
pub open spec fn vue_body_snippets(body: Seq<char>) -> Seq<SnippetSpec> {
    vue_walk(body, 0, seq![seq![]])
}

/// The snippets that a Vue template body hands to analysis.
pub fn scan_vue_template_body(body: &Vec<char>) -> (r: Vec<SnippetRequest>)
    ensures
        requests_view(r@) == vue_body_snippets(body@),
{
    let mut requests: Vec<SnippetRequest> = Vec::new();
    let mut scopes: Vec<Vec<Vec<char>>> = Vec::new();
    push_scope(&mut scopes, no_names());
    assert(scopes_view(scopes@) =~= seq![seq![]]);
    assert(requests_view(requests@) =~= seq![]);
    let open_comment = str_chars("<!--");
    let close_comment = str_chars("-->");
    let mustache = str_chars("{{");
    let mut index: usize = 0;
    while index < body.len()
        invariant
            index <= body@.len(),
            open_comment@ == "<!--"@,
            close_comment@ == "-->"@,
            mustache@ == "{{"@,
            vue_body_snippets(body@) == requests_view(requests@) + vue_walk(body@, index as int, scopes_view(scopes@)),
        decreases body.len() - index,
    {
        let ghost i = index as int;
        let ghost r0 = requests_view(requests@);
        let ghost sc0 = scopes_view(scopes@);
        if chars_occur_at(body, &open_comment, index) {
            proof { reveal_strlit("<!--"); }
            match chars_find_from(body, &close_comment, index + 4) {
                Some(j) => {
                    proof {
                        lemma_find_from(body@, "-->"@, i + 4);
                        reveal_strlit("-->");
                    }
                    index = j + 3;
                },
                None => {
                    assert(r0 + seq![] =~= r0);
                    return requests;
                },
            }
        } else if chars_occur_at(body, &mustache, index) {
            proof {
                reveal_strlit("{{");
                assert(body@.subrange(i, i + 2)[0] == body@[i]);
                assert(body@.subrange(i, i + 2)[1] == body@[i + 1]);
                lemma_brace_scan(body@, i + 2, lex_start(), true);
            }
            match scan_vue_interpolation(body, index) {
                Some((expr, next)) => {
                    let cur = current_vue_locals(&scopes);
                    request(trim_chars(&expr), TemplateSnippetKind::Expression, cur, &mut requests);
                    proof {
                        assert(r0 + (seq![expression(trim(expr@), concat_scopes(sc0))] + vue_walk(body@, next as int, sc0))
                            =~= requests_view(requests@) + vue_walk(body@, next as int, sc0));
                    }
                    index = next;
                },
                None => {
                    assert(r0 + seq![] =~= r0);
                    return requests;
                },
            }
        } else if body[index] == '<' {
            proof { lemma_tag_scan(body@, i + 1, false, false, false); }
            match scan_html_tag(body, index) {
                Some((tag, next)) => {
                    apply_vue_tag(&tag, &mut scopes, &mut requests);
                    proof {
                        let step = vue_tag_step(tag@, sc0);
                        assert(r0 + (step.1 + vue_walk(body@, next as int, step.0))
                            =~= requests_view(requests@) + vue_walk(body@, next as int, step.0));
                    }
                    index = next;
                },
                None => {
                    assert(r0 + seq![] =~= r0);
                    return requests;
                },
            }
        } else {
            index = index + 1;
        }
    }
    assert(requests_view(requests@) + seq![] =~= requests_view(requests@));
    requests
}

/// Whether byte position `p` lies inside one of the spans.
pub open spec fn inside_any(spans: Seq<(usize, usize)>, p: usize) -> bool {
    exists|k: int| 0 <= k < spans.len() && #[trigger] spans[k].0 <= p && p < spans[k].1
}

/// The snippets of the `<template>` blocks of a Vue source, from match `k`
/// on; a block that starts inside a comment is skipped.
pub open spec fn vue_blocks_from(
    src: Seq<char>,
    blocks: Seq<Seq<Option<(usize, usize)>>>,
    comments: Seq<(usize, usize)>,
    k: int,
) -> Seq<SnippetSpec>
    decreases blocks.len() - k,
{
    if k < 0 || k >= blocks.len() {
        seq![]
    } else {
        let g = blocks[k];
        let outside_comments = g.len() > 0 && match g[0] {
            Some(whole) => !inside_any(comments, whole.0),
            None => false,
        };
        let here = if outside_comments {
            vue_body_snippets(group_or_empty(src, g, 1))
        } else {
            seq![]
        };
        here + vue_blocks_from(src, blocks, comments, k + 1)
    }
}

/// The snippets that a Vue source hands to analysis: those of each
/// `<template>` block that does not start inside a comment.
pub open spec fn vue_template_snippets(src: Seq<char>) -> Seq<SnippetSpec> {
    vue_blocks_from(
        src,
        regex_capture_spans(TEMPLATE_BLOCK_PATTERN@, src),
        whole_match_spans(regex_capture_spans(HTML_COMMENT_PATTERN@, src)),
        0,
    )
}

fn inside_any_exec(spans: &Vec<(usize, usize)>, p: usize) -> (r: bool)
    ensures
        r == inside_any(spans@, p),
{
    let mut i: usize = 0;
    while i < spans.len()
        invariant
            i <= spans@.len(),
            forall|k: int| 0 <= k < i ==> !(#[trigger] spans@[k].0 <= p && p < spans@[k].1),
        decreases spans.len() - i,
    {
        let (a, b) = spans[i];
        if a <= p && p < b {
            assert(spans@[i as int].0 <= p && p < spans@[i as int].1);
            return true;
        }
        i = i + 1;
    }
    false
}

fn append_requests(out: &mut Vec<SnippetRequest>, more: Vec<SnippetRequest>)
    ensures
        requests_view(final(out)@) == requests_view(old(out)@) + requests_view(more@),
{
    let ghost m = requests_view(more@);
    let ghost o = requests_view(out@);
    let mut more = more;
    out.append(&mut more);
    assert(requests_view(out@) =~= o + m);
}

/// The snippets that the `<template>` blocks of a Vue source hand to
/// analysis.
pub fn collect_vue_template_snippets(source: &Vec<char>) -> (r: Vec<SnippetRequest>)
    ensures
        requests_view(r@) == vue_template_snippets(source@),
{
    let s = string_from_chars(source);
    let comments = whole_matches(&capture_spans(HTML_COMMENT_PATTERN, s.as_str()));
    let blocks = capture_spans(TEMPLATE_BLOCK_PATTERN, s.as_str());
    let ghost bv = spans_view(blocks@);
    let mut requests: Vec<SnippetRequest> = Vec::new();
    let mut k: usize = 0;
    assert(requests_view(requests@) =~= seq![]);
    while k < blocks.len()
        invariant
            k <= blocks@.len(),
            bv == spans_view(blocks@),
            comments@ == whole_match_spans(regex_capture_spans(HTML_COMMENT_PATTERN@, source@)),
            bv == regex_capture_spans(TEMPLATE_BLOCK_PATTERN@, source@),
            vue_template_snippets(source@) == requests_view(requests@) + vue_blocks_from(source@, bv, comments@, k as int),
        decreases blocks.len() - k,
    {
        let g = &blocks[k];
        assert(bv[k as int] == g@);
        let ghost r0 = requests_view(requests@);
        let mut taken = false;
        if g.len() > 0 {
            match g[0] {
                Some(whole) => {
                    if !inside_any_exec(&comments, whole.0) {
                        let body = group_or_empty_chars(source, g, 1);
                        let found = scan_vue_template_body(&body);
                        append_requests(&mut requests, found);
                        taken = true;
                    }
                },
                None => {},
            }
        }
        proof {
            if !taken {
                assert(requests_view(requests@) =~= r0 + seq![]);
            }
            assert(r0 + vue_blocks_from(source@, bv, comments@, k as int)
                =~= requests_view(requests@) + vue_blocks_from(source@, bv, comments@, k + 1));
        }
        k = k + 1;
    }
    assert(requests_view(requests@) + seq![] =~= requests_view(requests@));
    requests
}


// ---- results -----------------------------------------------------------

/// The snippets that a component source hands to analysis.
pub open spec fn template_snippets(kind: SfcKind, src: Seq<char>) -> Seq<SnippetSpec> {
    match kind {
        SfcKind::Vue => vue_template_snippets(src),
        SfcKind::Svelte => svelte_template_snippets(src),
    }
}

/// The snippets that a component source hands to analysis, in order.
pub fn collect_template_snippets(kind: SfcKind, source: &Vec<char>) -> (r: Vec<SnippetRequest>)
    ensures
        requests_view(r@) == template_snippets(kind, source@),
{
    match kind {
        SfcKind::Vue => collect_vue_template_snippets(source),
        SfcKind::Svelte => collect_svelte_template_snippets(source),
    }
}

/// What the template of a component uses of its imports.
#[derive(Debug, Clone, Default)]
pub struct TemplateUsage {
    /// Imported bindings that the template references, each once.
    pub used_bindings: Vec<String>,
    /// Static member accesses on imported namespaces, each once.
    pub member_accesses: Vec<MemberAccess>,
    /// Namespaces used as a whole, each once.
    pub whole_object_uses: Vec<String>,
}



/// `acc` followed by those items of `more` that are not yet present, in
/// order, each once.
pub open spec fn dedup_append<A>(acc: Seq<A>, more: Seq<A>) -> Seq<A>
    decreases more.len(),
{
    if more.len() == 0 {
        acc
    } else {
        let x = more[0];
        dedup_append(if acc.contains(x) { acc } else { acc.push(x) }, more.drop_first())
    }
}

/// Whether no item occurs twice.
pub open spec fn distinct<A>(s: Seq<A>) -> bool {
    forall|i: int, j: int| 0 <= i < j < s.len() ==> s[i] != s[j]
}

/// Appending without duplicates keeps a list free of duplicates and holds
/// exactly the items of both lists.
pub proof fn lemma_dedup_append<A>(acc: Seq<A>, more: Seq<A>)
    requires
        distinct(acc),
    ensures
        distinct(dedup_append(acc, more)),
        dedup_append(acc, more).to_set() == acc.to_set() + more.to_set(),
        dedup_append(acc, more).len() >= acc.len(),
        dedup_append(acc, more).take(acc.len() as int) == acc,
    decreases more.len(),
{
    if more.len() > 0 {
        let x = more[0];
        let next = if acc.contains(x) { acc } else { acc.push(x) };
        assert(distinct(next)) by {
            if !acc.contains(x) {
                assert forall|i: int, j: int| 0 <= i < j < next.len() implies next[i] != next[j] by {
                    if j == acc.len() {
                        assert(next[i] == acc[i]);
                    }
                }
            }
        }
        lemma_dedup_append(next, more.drop_first());
        assert(more.to_set() =~= more.drop_first().to_set().insert(x)) by {
            assert forall|y: A| more.to_set().contains(y) implies more.drop_first().to_set().insert(x).contains(y) by {
                let k = choose|k: int| 0 <= k < more.len() && more[k] == y;
                if k > 0 {
                    assert(more.drop_first()[k - 1] == y);
                }
            }
            assert forall|y: A| more.drop_first().to_set().contains(y) implies more.to_set().contains(y) by {
                let k = choose|k: int| 0 <= k < more.drop_first().len() && more.drop_first()[k] == y;
                assert(more[k + 1] == y);
            }
            assert(more[0] == x);
        }
        assert(next.to_set() =~= acc.to_set().insert(x)) by {
            if !acc.contains(x) {
                assert forall|y: A| next.to_set().contains(y) implies acc.to_set().insert(x).contains(y) by {
                    let k = choose|k: int| 0 <= k < next.len() && next[k] == y;
                    if k < acc.len() {
                        assert(acc[k] == y);
                    }
                }
                assert forall|y: A| acc.to_set().insert(x).contains(y) implies next.to_set().contains(y) by {
                    if y == x {
                        assert(next[acc.len() as int] == x);
                    } else {
                        let k = choose|k: int| 0 <= k < acc.len() && acc[k] == y;
                        assert(next[k] == y);
                    }
                }
            } else {
                let k = choose|k: int| 0 <= k < acc.len() && acc[k] == x;
                assert(acc.to_set().contains(x));
            }
        }
        assert(dedup_append(acc, more).to_set() =~= acc.to_set() + more.to_set());
        assert(next.take(acc.len() as int) =~= acc);
        let d = dedup_append(next, more.drop_first());
        assert(d == dedup_append(acc, more));
        assert(d.take(acc.len() as int) =~= acc) by {
            assert forall|i: int| 0 <= i < acc.len() implies d[i] == acc[i] by {
                assert(d.take(next.len() as int)[i] == d[i]);
                assert(next[i] == acc[i]);
            }
        }
    }
}



fn strings_contain(v: &Vec<String>, x: &String) -> (r: bool)
    ensures
        r == crate::text::views(v@).contains(x@),
{
    let mut i: usize = 0;
    while i < v.len()
        invariant
            i <= v@.len(),
            forall|k: int| 0 <= k < i ==> v@[k]@ != x@,
        decreases v.len() - i,
    {
        if crate::text::string_eq(&v[i], x) {
            assert(crate::text::views(v@)[i as int] == x@);
            return true;
        }
        i = i + 1;
    }
    proof {
        if crate::text::views(v@).contains(x@) {
            let k = choose|k: int| 0 <= k < v@.len() && crate::text::views(v@)[k] == x@;
            assert(v@[k]@ == x@);
        }
    }
    false
}

fn merge_strings(into: &mut Vec<String>, more: &Vec<String>)
    ensures
        crate::text::views(final(into)@) == dedup_append(crate::text::views(old(into)@), crate::text::views(more@)),
{
    let ghost m = crate::text::views(more@);
    let mut i: usize = 0;
    assert(m.skip(0) =~= m);
    while i < more.len()
        invariant
            i <= more@.len(),
            m == crate::text::views(more@),
            dedup_append(crate::text::views(old(into)@), m) == dedup_append(crate::text::views(into@), m.skip(i as int)),
        decreases more.len() - i,
    {
        let ghost before = crate::text::views(into@);
        assert(m.skip(i as int).drop_first() =~= m.skip(i + 1));
        assert(m.skip(i as int)[0] == more@[i as int]@);
        if !strings_contain(into, &more[i]) {
            into.push(crate::text::copy_string(&more[i]));
            assert(crate::text::views(into@) =~= before.push(more@[i as int]@));
        }
        i = i + 1;
    }
    assert(m.skip(more@.len() as int) =~= seq![]);
}

fn accesses_contain(v: &Vec<MemberAccess>, x: &MemberAccess) -> (r: bool)
    ensures
        r == accesses_view(v@).contains(access_view(*x)),
{
    let mut i: usize = 0;
    while i < v.len()
        invariant
            i <= v@.len(),
            forall|k: int| 0 <= k < i ==> access_view(v@[k]) != access_view(*x),
        decreases v.len() - i,
    {
        if crate::text::string_eq(&v[i].object, &x.object) && crate::text::string_eq(&v[i].member, &x.member) {
            assert(accesses_view(v@)[i as int] == access_view(*x));
            return true;
        }
        i = i + 1;
    }
    proof {
        if accesses_view(v@).contains(access_view(*x)) {
            let k = choose|k: int| 0 <= k < v@.len() && accesses_view(v@)[k] == access_view(*x);
            assert(access_view(v@[k]) == access_view(*x));
        }
    }
    false
}

fn merge_accesses(into: &mut Vec<MemberAccess>, more: &Vec<MemberAccess>)
    ensures
        accesses_view(final(into)@) == dedup_append(accesses_view(old(into)@), accesses_view(more@)),
{
    let ghost m = accesses_view(more@);
    let mut i: usize = 0;
    assert(m.skip(0) =~= m);
    while i < more.len()
        invariant
            i <= more@.len(),
            m == accesses_view(more@),
            dedup_append(accesses_view(old(into)@), m) == dedup_append(accesses_view(into@), m.skip(i as int)),
        decreases more.len() - i,
    {
        let ghost before = accesses_view(into@);
        assert(m.skip(i as int).drop_first() =~= m.skip(i + 1));
        assert(m.skip(i as int)[0] == access_view(more@[i as int]));
        if !accesses_contain(into, &more[i]) {
            let a = MemberAccess { object: crate::text::copy_string(&more[i].object), member: crate::text::copy_string(&more[i].member) };
            into.push(a);
            assert(accesses_view(into@) =~= before.push(access_view(more@[i as int])));
        }
        i = i + 1;
    }
    assert(m.skip(more@.len() as int) =~= seq![]);
}

impl TemplateUsage {
    /// Whether the template uses nothing.
    pub fn is_empty(&self) -> (r: bool)
        ensures
            r == (self.used_bindings@.len() == 0 && self.member_accesses@.len() == 0
                && self.whole_object_uses@.len() == 0),
    {
        self.used_bindings.len() == 0 && self.member_accesses.len() == 0 && self.whole_object_uses.len() == 0
    }
}

/// Adds what `other` uses to `into`: each list gains the items it lacks, in
/// order, so that nothing is listed twice.
pub fn merge_usage(into: &mut TemplateUsage, other: &TemplateUsage)
    ensures
        crate::text::views(final(into).used_bindings@) == dedup_append(
            crate::text::views(old(into).used_bindings@),
            crate::text::views(other.used_bindings@),
        ),
        accesses_view(final(into).member_accesses@) == dedup_append(
            accesses_view(old(into).member_accesses@),
            accesses_view(other.member_accesses@),
        ),
        crate::text::views(final(into).whole_object_uses@) == dedup_append(
            crate::text::views(old(into).whole_object_uses@),
            crate::text::views(other.whole_object_uses@),
        ),
{
    merge_strings(&mut into.used_bindings, &other.used_bindings);
    merge_accesses(&mut into.member_accesses, &other.member_accesses);
    merge_strings(&mut into.whole_object_uses, &other.whole_object_uses);
}

} // verus!
