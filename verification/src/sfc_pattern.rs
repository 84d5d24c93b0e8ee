//! Splitting of template expressions at top-level delimiters and extraction
//! of the names that a destructuring pattern binds.
use vstd::prelude::*;

use crate::text::trim_chars;
use crate::text::{chars_eq, chars_start_with, trim};
use crate::text::sub_vec;

verus! {

/// The character views of a sequence of character vectors.
pub open spec fn vviews(v: Seq<Vec<char>>) -> Seq<Seq<char>> {
    v.map_values(|x: Vec<char>| x@)
}

pub open spec fn is_open_bracket(c: char) -> bool {
    c == '(' || c == '[' || c == '{'
}

pub open spec fn is_close_bracket(c: char) -> bool {
    c == ')' || c == ']' || c == '}'
}

/// The pieces of `s[start..]` (with `s[i..]` still to scan) between the
/// occurrences of `delim` that are outside quotes and brackets. Quote
/// characters toggle their string state unless inside another kind of
/// string; a backslash inside a string escapes the next character.
pub open spec fn split_scan(
    s: Seq<char>,
    delim: char,
    i: int,
    start: int,
    depth: int,
    sq: bool,
    dq: bool,
    bt: bool,
    esc: bool,
) -> Seq<Seq<char>>
    decreases s.len() - i,
{
    if i < 0 || i >= s.len() {
        seq![s.subrange(start, s.len() as int)]
    } else {
        let ch = s[i];
        if esc {
            split_scan(s, delim, i + 1, start, depth, sq, dq, bt, false)
        } else if ch == '\\' && (sq || dq || bt) {
            split_scan(s, delim, i + 1, start, depth, sq, dq, bt, true)
        } else if ch == '\'' && !dq && !bt {
            split_scan(s, delim, i + 1, start, depth, !sq, dq, bt, false)
        } else if ch == '"' && !sq && !bt {
            split_scan(s, delim, i + 1, start, depth, sq, !dq, bt, false)
        } else if ch == '`' && !sq && !dq {
            split_scan(s, delim, i + 1, start, depth, sq, dq, !bt, false)
        } else if sq || dq || bt {
            split_scan(s, delim, i + 1, start, depth, sq, dq, bt, false)
        } else if is_open_bracket(ch) {
            split_scan(s, delim, i + 1, start, depth + 1, sq, dq, bt, false)
        } else if is_close_bracket(ch) {
            split_scan(s, delim, i + 1, start, depth - 1, sq, dq, bt, false)
        } else if ch == delim && depth == 0 {
            seq![s.subrange(start, i)] + split_scan(s, delim, i + 1, i + 1, depth, sq, dq, bt, false)
        } else {
            split_scan(s, delim, i + 1, start, depth, sq, dq, bt, false)
        }
    }
}

/// The pieces of `s` between its top-level occurrences of `delim`.
pub open spec fn split_top(s: Seq<char>, delim: char) -> Seq<Seq<char>> {
    split_scan(s, delim, 0, 0, 0, false, false, false, false)
}

/// Parts laid end to end with `d` between each two.
pub open spec fn join_with(parts: Seq<Seq<char>>, d: char) -> Seq<char>
    decreases parts.len(),
{
    if parts.len() == 0 {
        seq![]
    } else if parts.len() == 1 {
        parts[0]
    } else {
        parts[0] + seq![d] + join_with(parts.skip(1), d)
    }
}

proof fn lemma_split_scan_join(
    s: Seq<char>,
    delim: char,
    i: int,
    start: int,
    depth: int,
    sq: bool,
    dq: bool,
    bt: bool,
    esc: bool,
)
    requires
        0 <= start <= i <= s.len(),
    ensures
        split_scan(s, delim, i, start, depth, sq, dq, bt, esc).len() >= 1,
        join_with(split_scan(s, delim, i, start, depth, sq, dq, bt, esc), delim) == s.subrange(start, s.len() as int),
    decreases s.len() - i,
{
    if i < s.len() {
        let ch = s[i];
        if esc {
            lemma_split_scan_join(s, delim, i + 1, start, depth, sq, dq, bt, false);
        } else if ch == '\\' && (sq || dq || bt) {
            lemma_split_scan_join(s, delim, i + 1, start, depth, sq, dq, bt, true);
        } else if ch == '\'' && !dq && !bt {
            lemma_split_scan_join(s, delim, i + 1, start, depth, !sq, dq, bt, false);
        } else if ch == '"' && !sq && !bt {
            lemma_split_scan_join(s, delim, i + 1, start, depth, sq, !dq, bt, false);
        } else if ch == '`' && !sq && !dq {
            lemma_split_scan_join(s, delim, i + 1, start, depth, sq, dq, !bt, false);
        } else if sq || dq || bt {
            lemma_split_scan_join(s, delim, i + 1, start, depth, sq, dq, bt, false);
        } else if is_open_bracket(ch) {
            lemma_split_scan_join(s, delim, i + 1, start, depth + 1, sq, dq, bt, false);
        } else if is_close_bracket(ch) {
            lemma_split_scan_join(s, delim, i + 1, start, depth - 1, sq, dq, bt, false);
        } else if ch == delim && depth == 0 {
            let rest = split_scan(s, delim, i + 1, i + 1, depth, sq, dq, bt, false);
            lemma_split_scan_join(s, delim, i + 1, i + 1, depth, sq, dq, bt, false);
            let parts = seq![s.subrange(start, i)] + rest;
            assert(parts.skip(1) =~= rest);
            assert(parts[0] == s.subrange(start, i));
            assert(s.subrange(start, i) + seq![delim] + s.subrange(i + 1, s.len() as int) =~= s.subrange(
                start,
                s.len() as int,
            ));
        } else {
            lemma_split_scan_join(s, delim, i + 1, start, depth, sq, dq, bt, false);
        }
    }
}

/// Joining the top-level parts of `s` with the delimiter gives `s` back:
/// the split loses and adds no character.
pub proof fn lemma_split_top_join(s: Seq<char>, delim: char)
    ensures
        join_with(split_top(s, delim), delim) == s,
{
    lemma_split_scan_join(s, delim, 0, 0, 0, false, false, false, false);
    assert(s.subrange(0, s.len() as int) =~= s);
}

/// Position of the first top-level `delim` in `s[i..]`, if any.
pub open spec fn split_once_scan(s: Seq<char>, delim: char, i: int, depth: int, sq: bool, dq: bool, bt: bool, esc: bool) -> Option<int>
    decreases s.len() - i,
{
    if i < 0 || i >= s.len() {
        None
    } else {
        let ch = s[i];
        if esc {
            split_once_scan(s, delim, i + 1, depth, sq, dq, bt, false)
        } else if ch == '\\' && (sq || dq || bt) {
            split_once_scan(s, delim, i + 1, depth, sq, dq, bt, true)
        } else if ch == '\'' && !dq && !bt {
            split_once_scan(s, delim, i + 1, depth, !sq, dq, bt, false)
        } else if ch == '"' && !sq && !bt {
            split_once_scan(s, delim, i + 1, depth, sq, !dq, bt, false)
        } else if ch == '`' && !sq && !dq {
            split_once_scan(s, delim, i + 1, depth, sq, dq, !bt, false)
        } else if sq || dq || bt {
            split_once_scan(s, delim, i + 1, depth, sq, dq, bt, false)
        } else if is_open_bracket(ch) {
            split_once_scan(s, delim, i + 1, depth + 1, sq, dq, bt, false)
        } else if is_close_bracket(ch) {
            split_once_scan(s, delim, i + 1, depth - 1, sq, dq, bt, false)
        } else if ch == delim && depth == 0 {
            Some(i)
        } else {
            split_once_scan(s, delim, i + 1, depth, sq, dq, bt, false)
        }
    }
}

/// Position of the first top-level `delim` in `s`.
pub open spec fn split_once_pos(s: Seq<char>, delim: char) -> Option<int> {
    split_once_scan(s, delim, 0, 0, false, false, false, false)
}

pub proof fn lemma_split_once_scan(s: Seq<char>, delim: char, i: int, depth: int, sq: bool, dq: bool, bt: bool, esc: bool)
    requires
        0 <= i,
    ensures
        match split_once_scan(s, delim, i, depth, sq, dq, bt, esc) {
            Some(p) => i <= p < s.len() && s[p] == delim,
            None => true,
        },
    decreases s.len() - i,
{
    if i >= s.len() {
    } else {
        let ch = s[i];
        if esc {
            lemma_split_once_scan(s, delim, i + 1, depth, sq, dq, bt, false);
        } else if ch == '\\' && (sq || dq || bt) {
            lemma_split_once_scan(s, delim, i + 1, depth, sq, dq, bt, true);
        } else if ch == '\'' && !dq && !bt {
            lemma_split_once_scan(s, delim, i + 1, depth, !sq, dq, bt, false);
        } else if ch == '"' && !sq && !bt {
            lemma_split_once_scan(s, delim, i + 1, depth, sq, !dq, bt, false);
        } else if ch == '`' && !sq && !dq {
            lemma_split_once_scan(s, delim, i + 1, depth, sq, dq, !bt, false);
        } else if sq || dq || bt {
            lemma_split_once_scan(s, delim, i + 1, depth, sq, dq, bt, false);
        } else if is_open_bracket(ch) {
            lemma_split_once_scan(s, delim, i + 1, depth + 1, sq, dq, bt, false);
        } else if is_close_bracket(ch) {
            lemma_split_once_scan(s, delim, i + 1, depth - 1, sq, dq, bt, false);
        } else if ch == delim && depth == 0 {
        } else {
            lemma_split_once_scan(s, delim, i + 1, depth, sq, dq, bt, false);
        }
    }
}

pub proof fn lemma_split_scan_parts(s: Seq<char>, delim: char, i: int, start: int, depth: int, sq: bool, dq: bool, bt: bool, esc: bool)
    requires
        0 <= start <= i,
        start <= s.len(),
    ensures
        split_scan(s, delim, i, start, depth, sq, dq, bt, esc).len() >= 1,
        forall|k: int| 0 <= k < split_scan(s, delim, i, start, depth, sq, dq, bt, esc).len()
            ==> (#[trigger] split_scan(s, delim, i, start, depth, sq, dq, bt, esc)[k]).len() <= s.len() - start,
        split_scan(s, delim, i, start, depth, sq, dq, bt, esc).len() == 1
            ==> split_scan(s, delim, i, start, depth, sq, dq, bt, esc)[0] == s.subrange(start, s.len() as int),
        split_scan(s, delim, i, start, depth, sq, dq, bt, esc).len() > 1
            ==> forall|k: int| 0 <= k < split_scan(s, delim, i, start, depth, sq, dq, bt, esc).len()
            ==> (#[trigger] split_scan(s, delim, i, start, depth, sq, dq, bt, esc)[k]).len() < s.len() - start,
    decreases s.len() - i,
{
    let r = split_scan(s, delim, i, start, depth, sq, dq, bt, esc);
    if i < 0 || i >= s.len() {
    } else {
        let ch = s[i];
        if esc {
            lemma_split_scan_parts(s, delim, i + 1, start, depth, sq, dq, bt, false);
        } else if ch == '\\' && (sq || dq || bt) {
            lemma_split_scan_parts(s, delim, i + 1, start, depth, sq, dq, bt, true);
        } else if ch == '\'' && !dq && !bt {
            lemma_split_scan_parts(s, delim, i + 1, start, depth, !sq, dq, bt, false);
        } else if ch == '"' && !sq && !bt {
            lemma_split_scan_parts(s, delim, i + 1, start, depth, sq, !dq, bt, false);
        } else if ch == '`' && !sq && !dq {
            lemma_split_scan_parts(s, delim, i + 1, start, depth, sq, dq, !bt, false);
        } else if sq || dq || bt {
            lemma_split_scan_parts(s, delim, i + 1, start, depth, sq, dq, bt, false);
        } else if is_open_bracket(ch) {
            lemma_split_scan_parts(s, delim, i + 1, start, depth + 1, sq, dq, bt, false);
        } else if is_close_bracket(ch) {
            lemma_split_scan_parts(s, delim, i + 1, start, depth - 1, sq, dq, bt, false);
        } else if ch == delim && depth == 0 {
            lemma_split_scan_parts(s, delim, i + 1, i + 1, depth, sq, dq, bt, false);
            let rest = split_scan(s, delim, i + 1, i + 1, depth, sq, dq, bt, false);
            assert(r == seq![s.subrange(start, i)] + rest);
            assert forall|k: int| 0 <= k < r.len() implies (#[trigger] r[k]).len() < s.len() - start by {
                if k > 0 {
                    assert(r[k] == rest[k - 1]);
                }
            }
        } else {
            lemma_split_scan_parts(s, delim, i + 1, start, depth, sq, dq, bt, false);
        }
    }
}

/// Split `source` at its top-level occurrences of `delimiter`.
pub fn split_top_level(source: &Vec<char>, delimiter: char) -> (parts: Vec<Vec<char>>)
    ensures
        vviews(parts@) == split_top(source@, delimiter),
{
    let len = source.len();
    let mut parts: Vec<Vec<char>> = Vec::new();
    let mut start: usize = 0;
    let mut depth: i128 = 0;
    let mut sq = false;
    let mut dq = false;
    let mut bt = false;
    let mut esc = false;
    let mut i: usize = 0;
    while i < len
        invariant
            len == source@.len(),
            start <= i <= len,
            -(i as int) <= depth <= i,
            split_top(source@, delimiter) == vviews(parts@) + split_scan(source@, delimiter, i as int, start as int, depth as int, sq, dq, bt, esc),
        decreases len - i,
    {
        let ch = source[i];
        if esc {
            esc = false;
        } else if ch == '\\' && (sq || dq || bt) {
            esc = true;
        } else if ch == '\'' && !dq && !bt {
            sq = !sq;
        } else if ch == '"' && !sq && !bt {
            dq = !dq;
        } else if ch == '`' && !sq && !dq {
            bt = !bt;
        } else if sq || dq || bt {
        } else if ch == '(' || ch == '[' || ch == '{' {
            depth = depth + 1;
        } else if ch == ')' || ch == ']' || ch == '}' {
            depth = depth - 1;
        } else if ch == delimiter && depth == 0 {
            let piece = sub_vec(source, start, i);
            let ghost before = vviews(parts@);
            parts.push(piece);
            assert(vviews(parts@) =~= before.push(piece@));
            assert(before + split_scan(source@, delimiter, i as int, start as int, depth as int, sq, dq, bt, esc)
                =~= vviews(parts@) + split_scan(source@, delimiter, i + 1, i + 1, depth as int, sq, dq, bt, false));
            start = i + 1;
        }
        i = i + 1;
    }
    let last = sub_vec(source, start, len);
    let ghost before = vviews(parts@);
    parts.push(last);
    assert(vviews(parts@) =~= before.push(last@));
    parts
}

/// Split `source` at its first top-level `delimiter` into the text before and after it.
pub fn split_top_level_once(source: &Vec<char>, delimiter: char) -> (r: Option<(Vec<char>, Vec<char>)>)
    ensures
        match split_once_pos(source@, delimiter) {
            Some(p) => r matches Some((lhs, rhs)) && lhs@ == source@.take(p) && rhs@ == source@.skip(p + 1),
            None => r is None,
        },
{
    let len = source.len();
    let mut depth: i128 = 0;
    let mut sq = false;
    let mut dq = false;
    let mut bt = false;
    let mut esc = false;
    let mut i: usize = 0;
    while i < len
        invariant
            len == source@.len(),
            i <= len,
            -(i as int) <= depth <= i,
            split_once_pos(source@, delimiter) == split_once_scan(source@, delimiter, i as int, depth as int, sq, dq, bt, esc),
        decreases len - i,
    {
        let ch = source[i];
        if esc {
            esc = false;
        } else if ch == '\\' && (sq || dq || bt) {
            esc = true;
        } else if ch == '\'' && !dq && !bt {
            sq = !sq;
        } else if ch == '"' && !sq && !bt {
            dq = !dq;
        } else if ch == '`' && !sq && !dq {
            bt = !bt;
        } else if sq || dq || bt {
        } else if ch == '(' || ch == '[' || ch == '{' {
            depth = depth + 1;
        } else if ch == ')' || ch == ']' || ch == '}' {
            depth = depth - 1;
        } else if ch == delimiter && depth == 0 {
            let lhs = sub_vec(source, 0, i);
            let rhs = sub_vec(source, i + 1, len);
            assert(lhs@ =~= source@.take(i as int));
            assert(rhs@ =~= source@.skip(i + 1));
            return Some((lhs, rhs));
        }
        i = i + 1;
    }
    None
}

/// Whether `s` starts with `open` and ends with `close` (two distinct characters).
pub open spec fn is_wrapped(s: Seq<char>, open: char, close: char) -> bool {
    s.len() >= 2 && s[0] == open && s.last() == close
}

/// `source` without one `open` at the start and one `close` at the end, when it has both.
pub fn strip_wrapping(source: &Vec<char>, open: char, close: char) -> (r: Option<Vec<char>>)
    ensures
        match r {
            Some(inner) => is_wrapped(source@, open, close) && inner@ == source@.subrange(1, source@.len() - 1),
            None => !is_wrapped(source@, open, close),
        },
{
    let len = source.len();
    if len >= 2 && source[0] == open && source[len - 1] == close {
        Some(sub_vec(source, 1, len - 1))
    } else {
        None
    }
}

/// `s` without one pair of outer parentheses.
pub open spec fn trim_outer_parens_spec(s: Seq<char>) -> Seq<char> {
    if is_wrapped(s, '(', ')') { s.subrange(1, s.len() - 1) } else { s }
}

/// `source` without one pair of outer parentheses, when it has them.
pub fn trim_outer_parens(source: &Vec<char>) -> (r: Vec<char>)
    ensures
        r@ == trim_outer_parens_spec(source@),
{
    match strip_wrapping(source, '(', ')') {
        Some(inner) => inner,
        None => {
            let r = sub_vec(source, 0, source.len());
            assert(r@ =~= source@);
            r
        },
    }
}

pub open spec fn is_ident_start(c: char) -> bool {
    ('A' <= c && c <= 'Z') || ('a' <= c && c <= 'z') || c == '_' || c == '$'
}

pub open spec fn is_ident_char(c: char) -> bool {
    is_ident_start(c) || ('0' <= c && c <= '9')
}

/// Whether `s` is a JavaScript identifier in the ASCII subset: a letter, `_`
/// or `$`, followed by letters, digits, `_` or `$`.
pub open spec fn is_valid_identifier(s: Seq<char>) -> bool {
    s.len() >= 1 && is_ident_start(s[0]) && forall|i: int| 1 <= i < s.len() ==> is_ident_char(#[trigger] s[i])
}

/// Whether `source` is an (ASCII) identifier.
pub fn valid_identifier(source: &Vec<char>) -> (r: bool)
    ensures
        r == is_valid_identifier(source@),
{
    if source.len() == 0 {
        return false;
    }
    let first = source[0];
    if !(('A' <= first && first <= 'Z') || ('a' <= first && first <= 'z') || first == '_' || first == '$') {
        return false;
    }
    let mut i: usize = 1;
    while i < source.len()
        invariant
            1 <= i <= source@.len(),
            forall|j: int| 1 <= j < i ==> is_ident_char(#[trigger] source@[j]),
        decreases source.len() - i,
    {
        let c = source[i];
        if !(('A' <= c && c <= 'Z') || ('a' <= c && c <= 'z') || c == '_' || c == '$' || ('0' <= c && c <= '9')) {
            return false;
        }
        i = i + 1;
    }
    true
}

/// Whether `s` holds a comma anywhere.
pub open spec fn has_comma(s: Seq<char>) -> bool {
    exists|i: int| 0 <= i < s.len() && s[i] == ','
}

/// The names bound by a destructuring pattern, with recursion depth bounded
/// by `fuel`. Object patterns take the binding side of `key: binding` and the
/// left side of defaults, skipping a bare `...`; array patterns and
/// comma-separated lists take every element; `name = default` takes `name`;
/// otherwise the pattern binds itself when it is an identifier. A list whose
/// commas all sit inside brackets is treated as a single element.
pub open spec fn binding_names(p0: Seq<char>, fuel: nat) -> Seq<Seq<char>>
    decreases fuel, 0nat,
{
    if fuel == 0 {
        seq![]
    } else {
        let p = trim_outer_parens_spec(trim(p0));
        if p.len() == 0 {
            seq![]
        } else if is_wrapped(p, '{', '}') {
            object_part_names(split_top(p.subrange(1, p.len() - 1), ','), (fuel - 1) as nat)
        } else if is_wrapped(p, '[', ']') {
            list_part_names(split_top(p.subrange(1, p.len() - 1), ','), (fuel - 1) as nat)
        } else if has_comma(p) && split_top(p, ',').len() > 1 {
            list_part_names(split_top(p, ','), (fuel - 1) as nat)
        } else {
            match split_once_pos(p, '=') {
                Some(k) => binding_names(p.take(k), (fuel - 1) as nat),
                None => if is_valid_identifier(p) { seq![p] } else { seq![] },
            }
        }
    }
}

/// The names bound by each element of an array pattern or list.
pub open spec fn list_part_names(parts: Seq<Seq<char>>, fuel: nat) -> Seq<Seq<char>>
    decreases fuel, parts.len(),
{
    if parts.len() == 0 {
        seq![]
    } else {
        list_part_names(parts.drop_last(), fuel) + binding_names(trim(parts.last()), fuel)
    }
}

/// The element of an object pattern with any `...` rest prefix removed.
pub open spec fn object_element(part: Seq<char>) -> Seq<char> {
    let t = trim(part);
    trim(if crate::text::starts_with(t, "..."@) { t.skip(3) } else { t })
}

/// The names bound by each element of an object pattern.
pub open spec fn object_part_names(parts: Seq<Seq<char>>, fuel: nat) -> Seq<Seq<char>>
    decreases fuel, parts.len(),
{
    if parts.len() == 0 {
        seq![]
    } else {
        let t = trim(parts.last());
        let q = object_element(parts.last());
        object_part_names(parts.drop_last(), fuel) + if t.len() == 0 || t == "..."@ {
            seq![]
        } else {
            match split_once_pos(q, ':') {
                Some(k) => binding_names(q.skip(k + 1), fuel),
                None => match split_once_pos(q, '=') {
                    Some(k) => binding_names(q.take(k), fuel),
                    None => binding_names(q, fuel),
                },
            }
        }
    }
}

/// The names bound by a destructuring pattern (see [`binding_names`]); the
/// fuel, the pattern's length, bounds the nesting: every step works on a
/// strictly shorter text.
pub open spec fn pattern_binding_names(p: Seq<char>) -> Seq<Seq<char>> {
    binding_names(p, p.len())
}

/// Appends copies of `more` to `out`.
pub fn append_all(out: &mut Vec<Vec<char>>, more: &Vec<Vec<char>>)
    ensures
        vviews(final(out)@) == vviews(old(out)@) + vviews(more@),
{
    let ghost m = vviews(more@);
    let mut i: usize = 0;
    let n = more.len();
    while i < n
        invariant
            n == more@.len(),
            i <= n,
            vviews(more@) == m,
            vviews(out@) == vviews(old(out)@) + m.take(i as int),
        decreases n - i,
    {
        let x = more[i].clone();
        let ghost before = vviews(out@);
        out.push(x);
        assert(vviews(out@) =~= before.push(x@));
        assert(m.take(i + 1) =~= m.take(i as int).push(m[i as int]));
        i = i + 1;
    }
    assert(m.take(n as int) =~= m);
}

fn has_comma_exec(s: &Vec<char>) -> (r: bool)
    ensures
        r == has_comma(s@),
{
    let mut i: usize = 0;
    while i < s.len()
        invariant
            i <= s@.len(),
            forall|j: int| 0 <= j < i ==> s@[j] != ',',
        decreases s.len() - i,
    {
        if s[i] == ',' {
            return true;
        }
        i = i + 1;
    }
    false
}

fn names_of(p0: &Vec<char>, fuel: usize) -> (r: Vec<Vec<char>>)
    ensures
        vviews(r@) == binding_names(p0@, fuel as nat),
    decreases fuel, 0nat,
{
    if fuel == 0 {
        return Vec::new();
    }
    let t = trim_chars(p0);
    let p = trim_outer_parens(&t);
    if p.len() == 0 {
        return Vec::new();
    }
    if let Some(inner) = strip_wrapping(&p, '{', '}') {
        let parts = split_top_level(&inner, ',');
        assert(vviews(parts@).take(parts@.len() as int) =~= vviews(parts@));
        return object_names(&parts, parts.len(), fuel - 1);
    }
    if let Some(inner) = strip_wrapping(&p, '[', ']') {
        let parts = split_top_level(&inner, ',');
        assert(vviews(parts@).take(parts@.len() as int) =~= vviews(parts@));
        return list_names(&parts, parts.len(), fuel - 1);
    }
    if has_comma_exec(&p) {
        let parts = split_top_level(&p, ',');
        if parts.len() > 1 {
            assert(vviews(parts@).take(parts@.len() as int) =~= vviews(parts@));
            return list_names(&parts, parts.len(), fuel - 1);
        }
    }
    match split_top_level_once(&p, '=') {
        Some((lhs, _)) => names_of(&lhs, fuel - 1),
        None => {
            if valid_identifier(&p) {
                let mut r: Vec<Vec<char>> = Vec::new();
                r.push(p);
                assert(vviews(r@) =~= seq![p@]);
                r
            } else {
                Vec::new()
            }
        },
    }
}

fn list_names(parts: &Vec<Vec<char>>, n: usize, fuel: usize) -> (r: Vec<Vec<char>>)
    requires
        n <= parts@.len(),
    ensures
        vviews(r@) == list_part_names(vviews(parts@).take(n as int), fuel as nat),
    decreases fuel, n,
{
    if n == 0 {
        return Vec::new();
    }
    let mut r = list_names(parts, n - 1, fuel);
    let t = trim_chars(&parts[n - 1]);
    let more = names_of(&t, fuel);
    append_all(&mut r, &more);
    proof {
        let ps = vviews(parts@).take(n as int);
        assert(ps.drop_last() =~= vviews(parts@).take(n - 1));
        assert(ps.last() == parts@[n - 1]@);
    }
    r
}

fn is_three_dots(t: &Vec<char>) -> (r: bool)
    ensures
        r == (t@ == "..."@),
{
    let d: Vec<char> = vec!['.', '.', '.'];
    assert(d@ =~= "..."@) by { reveal_strlit("..."); }
    chars_eq(t, &d)
}

fn object_names(parts: &Vec<Vec<char>>, n: usize, fuel: usize) -> (r: Vec<Vec<char>>)
    requires
        n <= parts@.len(),
    ensures
        vviews(r@) == object_part_names(vviews(parts@).take(n as int), fuel as nat),
    decreases fuel, n,
{
    if n == 0 {
        return Vec::new();
    }
    let mut r = object_names(parts, n - 1, fuel);
    proof {
        let ps = vviews(parts@).take(n as int);
        assert(ps.drop_last() =~= vviews(parts@).take(n - 1));
        assert(ps.last() == parts@[n - 1]@);
    }
    let t = trim_chars(&parts[n - 1]);
    if t.len() == 0 || is_three_dots(&t) {
        assert(vviews(r@) =~= vviews(r@) + Seq::<Seq<char>>::empty());
        return r;
    }
    let dots: Vec<char> = vec!['.', '.', '.'];
    assert(dots@ =~= "..."@) by { reveal_strlit("..."); }
    let rest = if chars_start_with(&t, &dots) { sub_vec(&t, 3, t.len()) } else { sub_vec(&t, 0, t.len()) };
    proof {
        if crate::text::starts_with(t@, "..."@) { assert(rest@ =~= t@.skip(3)); } else { assert(rest@ =~= t@); }
    }
    let q = trim_chars(&rest);
    let more = match split_top_level_once(&q, ':') {
        Some((_, rhs)) => names_of(&rhs, fuel),
        None => match split_top_level_once(&q, '=') {
            Some((lhs, _)) => names_of(&lhs, fuel),
            None => names_of(&q, fuel),
        },
    };
    append_all(&mut r, &more);
    r
}

/// The names bound by a destructuring pattern (see [`pattern_binding_names`]).
pub fn extract_pattern_binding_names(pattern: &Vec<char>) -> (r: Vec<Vec<char>>)
    ensures
        vviews(r@) == pattern_binding_names(pattern@),
{
    names_of(pattern, pattern.len())
}

} // verus!
