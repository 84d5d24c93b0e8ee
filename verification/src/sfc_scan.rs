//! Lexical scanners for single-file-component templates: mustache
//! interpolations, Svelte brace tags and HTML tags. They skip over string
//! literals, escapes and comments so that delimiters inside them do not count.
use vstd::prelude::*;

verus! {

/// The lexer state while scanning an expression.
pub struct LexState {
    /// Depth of `{` nesting inside the expression.
    pub nested: nat,
    pub single: bool,
    pub double: bool,
    pub backtick: bool,
    pub escape: bool,
    pub line_comment: bool,
    pub block_comment: bool,
}

/// The state at the start of an expression.
pub open spec fn lex_start() -> LexState {
    LexState {
        nested: 0,
        single: false,
        double: false,
        backtick: false,
        escape: false,
        line_comment: false,
        block_comment: false,
    }
}

pub open spec fn lex_state(
    nested: nat,
    single: bool,
    double: bool,
    backtick: bool,
    escape: bool,
    line_comment: bool,
    block_comment: bool,
) -> LexState {
    LexState { nested, single, double, backtick, escape, line_comment, block_comment }
}

/// Whether `s[i]` exists and is `c`.
pub open spec fn char_at_is(s: Seq<char>, i: int, c: char) -> bool {
    0 <= i < s.len() && s[i] == c
}

/// Position of the brace that closes an expression scanned from `i` in state
/// `st`. In `vue` mode the closer is the first `}}` at depth zero and depth
/// never goes below zero; otherwise it is the first `}` at depth zero. Braces
/// inside quotes (`'`, `"`, backticks, with backslash escapes), `//` line
/// comments and `/* */` block comments do not count. `None` when the text
/// ends first.
pub open spec fn brace_scan(s: Seq<char>, i: int, st: LexState, vue: bool) -> Option<int>
    decreases s.len() - i,
{
    if i < 0 || i >= s.len() {
        None
    } else {
        let b = s[i];
        if st.line_comment {
            brace_scan(s, i + 1, LexState { line_comment: b != '\n', ..st }, vue)
        } else if st.block_comment {
            if b == '*' && char_at_is(s, i + 1, '/') {
                brace_scan(s, i + 2, LexState { block_comment: false, ..st }, vue)
            } else {
                brace_scan(s, i + 1, st, vue)
            }
        } else if st.escape {
            brace_scan(s, i + 1, LexState { escape: false, ..st }, vue)
        } else if st.single {
            if b == '\\' {
                brace_scan(s, i + 1, LexState { escape: true, ..st }, vue)
            } else {
                brace_scan(s, i + 1, LexState { single: b != '\'', ..st }, vue)
            }
        } else if st.double {
            if b == '\\' {
                brace_scan(s, i + 1, LexState { escape: true, ..st }, vue)
            } else {
                brace_scan(s, i + 1, LexState { double: b != '"', ..st }, vue)
            }
        } else if st.backtick {
            if b == '\\' {
                brace_scan(s, i + 1, LexState { escape: true, ..st }, vue)
            } else {
                brace_scan(s, i + 1, LexState { backtick: b != '`', ..st }, vue)
            }
        } else if b == '/' && char_at_is(s, i + 1, '/') {
            brace_scan(s, i + 2, LexState { line_comment: true, ..st }, vue)
        } else if b == '/' && char_at_is(s, i + 1, '*') {
            brace_scan(s, i + 2, LexState { block_comment: true, ..st }, vue)
        } else if b == '\'' {
            brace_scan(s, i + 1, LexState { single: true, ..st }, vue)
        } else if b == '"' {
            brace_scan(s, i + 1, LexState { double: true, ..st }, vue)
        } else if b == '`' {
            brace_scan(s, i + 1, LexState { backtick: true, ..st }, vue)
        } else if b == '{' {
            brace_scan(s, i + 1, LexState { nested: st.nested + 1, ..st }, vue)
        } else if b == '}' {
            if vue {
                if st.nested == 0 && char_at_is(s, i + 1, '}') {
                    Some(i)
                } else {
                    brace_scan(s, i + 1, LexState { nested: if st.nested == 0 { 0 } else { (st.nested - 1) as nat }, ..st }, vue)
                }
            } else if st.nested == 0 {
                Some(i)
            } else {
                brace_scan(s, i + 1, LexState { nested: (st.nested - 1) as nat, ..st }, vue)
            }
        } else {
            brace_scan(s, i + 1, st, vue)
        }
    }
}

pub proof fn lemma_brace_scan(s: Seq<char>, i: int, st: LexState, vue: bool)
    ensures
        match brace_scan(s, i, st, vue) {
            Some(e) => i <= e < s.len() && s[e] == '}' && (vue ==> char_at_is(s, e + 1, '}')),
            None => true,
        },
    decreases s.len() - i,
{
    if i < 0 || i >= s.len() {
    } else {
        let b = s[i];
        if st.line_comment {
            lemma_brace_scan(s, i + 1, LexState { line_comment: b != '\n', ..st }, vue);
        } else if st.block_comment {
            if b == '*' && char_at_is(s, i + 1, '/') {
                lemma_brace_scan(s, i + 2, LexState { block_comment: false, ..st }, vue);
            } else {
                lemma_brace_scan(s, i + 1, st, vue);
            }
        } else if st.escape {
            lemma_brace_scan(s, i + 1, LexState { escape: false, ..st }, vue);
        } else if st.single {
            if b == '\\' {
                lemma_brace_scan(s, i + 1, LexState { escape: true, ..st }, vue);
            } else {
                lemma_brace_scan(s, i + 1, LexState { single: b != '\'', ..st }, vue);
            }
        } else if st.double {
            if b == '\\' {
                lemma_brace_scan(s, i + 1, LexState { escape: true, ..st }, vue);
            } else {
                lemma_brace_scan(s, i + 1, LexState { double: b != '"', ..st }, vue);
            }
        } else if st.backtick {
            if b == '\\' {
                lemma_brace_scan(s, i + 1, LexState { escape: true, ..st }, vue);
            } else {
                lemma_brace_scan(s, i + 1, LexState { backtick: b != '`', ..st }, vue);
            }
        } else if b == '/' && char_at_is(s, i + 1, '/') {
            lemma_brace_scan(s, i + 2, LexState { line_comment: true, ..st }, vue);
        } else if b == '/' && char_at_is(s, i + 1, '*') {
            lemma_brace_scan(s, i + 2, LexState { block_comment: true, ..st }, vue);
        } else if b == '\'' {
            lemma_brace_scan(s, i + 1, LexState { single: true, ..st }, vue);
        } else if b == '"' {
            lemma_brace_scan(s, i + 1, LexState { double: true, ..st }, vue);
        } else if b == '`' {
            lemma_brace_scan(s, i + 1, LexState { backtick: true, ..st }, vue);
        } else if b == '{' {
            lemma_brace_scan(s, i + 1, LexState { nested: st.nested + 1, ..st }, vue);
        } else if b == '}' {
            if vue {
                if st.nested == 0 && char_at_is(s, i + 1, '}') {
                } else {
                    lemma_brace_scan(s, i + 1, LexState { nested: if st.nested == 0 { 0 } else { (st.nested - 1) as nat }, ..st }, vue);
                }
            } else if st.nested == 0 {
            } else {
                lemma_brace_scan(s, i + 1, LexState { nested: (st.nested - 1) as nat, ..st }, vue);
            }
        } else {
            lemma_brace_scan(s, i + 1, st, vue);
        }
    }
}

/// Runs the brace lexer from `from` and returns the position of the closer.
fn scan_braces(s: &Vec<char>, from: usize, vue: bool) -> (r: Option<usize>)
    requires
        from <= s@.len(),
    ensures
        match r {
            Some(e) => brace_scan(s@, from as int, lex_start(), vue) == Some(e as int),
            None => brace_scan(s@, from as int, lex_start(), vue) is None,
        },
{
    let len = s.len();
    let mut index = from;
    let mut nested: usize = 0;
    let mut single = false;
    let mut double = false;
    let mut backtick = false;
    let mut escape = false;
    let mut line_comment = false;
    let mut block_comment = false;
    while index < len
        invariant
            len == s@.len(),
            from <= index <= len,
            nested <= index,
            brace_scan(s@, from as int, lex_start(), vue) == brace_scan(
                s@,
                index as int,
                lex_state(nested as nat, single, double, backtick, escape, line_comment, block_comment),
                vue,
            ),
        decreases len - index,
    {
        let b = s[index];
        let next_is = |c: char| -> (r: bool)
            ensures
                r == char_at_is(s@, index + 1, c),
        { index + 1 < len && s[index + 1] == c };
        if line_comment {
            if b == '\n' {
                line_comment = false;
            }
            index = index + 1;
        } else if block_comment {
            if b == '*' && next_is('/') {
                block_comment = false;
                index = index + 2;
            } else {
                index = index + 1;
            }
        } else if escape {
            escape = false;
            index = index + 1;
        } else if single {
            if b == '\\' {
                escape = true;
            } else if b == '\'' {
                single = false;
            }
            index = index + 1;
        } else if double {
            if b == '\\' {
                escape = true;
            } else if b == '"' {
                double = false;
            }
            index = index + 1;
        } else if backtick {
            if b == '\\' {
                escape = true;
            } else if b == '`' {
                backtick = false;
            }
            index = index + 1;
        } else if b == '/' && next_is('/') {
            line_comment = true;
            index = index + 2;
        } else if b == '/' && next_is('*') {
            block_comment = true;
            index = index + 2;
        } else {
            if b == '\'' {
                single = true;
            } else if b == '"' {
                double = true;
            } else if b == '`' {
                backtick = true;
            } else if b == '{' {
                nested = nested + 1;
            } else if b == '}' {
                if vue {
                    if nested == 0 && next_is('}') {
                        return Some(index);
                    }
                    if nested > 0 {
                        nested = nested - 1;
                    }
                } else {
                    if nested == 0 {
                        return Some(index);
                    }
                    nested = nested - 1;
                }
            }
            index = index + 1;
        }
    }
    None
}

/// Scan a `{{ ... }}` interpolation that starts at `start`; returns the
/// expression text and the position after the closing `}}`.
pub fn scan_vue_interpolation(source: &Vec<char>, start: usize) -> (r: Option<(Vec<char>, usize)>)
    requires
        start + 2 <= source@.len(),
        source@[start as int] == '{',
        source@[start + 1] == '{',
    ensures
        match brace_scan(source@, start + 2, lex_start(), true) {
            Some(e) => r matches Some((expr, next)) && expr@ == source@.subrange(start + 2, e) && next == e + 2,
            None => r is None,
        },
{
    let len = source.len();
    match scan_braces(source, start + 2, true) {
        Some(e) => {
            proof { lemma_brace_scan(source@, start + 2, lex_start(), true); }
            Some((crate::text::sub_vec(source, start + 2, e), e + 2))
        },
        None => None,
    }
}

/// Scan a Svelte `{ ... }` tag that starts at `start`; returns the text
/// between the braces and the position after the closing `}`.
pub fn scan_svelte_brace_tag(source: &Vec<char>, start: usize) -> (r: Option<(Vec<char>, usize)>)
    requires
        start < source@.len(),
        source@[start as int] == '{',
    ensures
        match brace_scan(source@, start + 1, lex_start(), false) {
            Some(e) => r matches Some((tag, next)) && tag@ == source@.subrange(start + 1, e) && next == e + 1,
            None => r is None,
        },
{
    let len = source.len();
    match scan_braces(source, start + 1, false) {
        Some(e) => {
            proof { lemma_brace_scan(source@, start + 1, lex_start(), false); }
            Some((crate::text::sub_vec(source, start + 1, e), e + 1))
        },
        None => None,
    }
}

/// Position of the `>` that closes an HTML tag scanned from `i`, skipping
/// quoted attribute values (with backslash escapes).
pub open spec fn tag_scan(s: Seq<char>, i: int, single: bool, double: bool, escape: bool) -> Option<int>
    decreases s.len() - i,
{
    if i < 0 || i >= s.len() {
        None
    } else {
        let b = s[i];
        if escape {
            tag_scan(s, i + 1, single, double, false)
        } else if single {
            if b == '\\' { tag_scan(s, i + 1, single, double, true) }
            else { tag_scan(s, i + 1, b != '\'', double, false) }
        } else if double {
            if b == '\\' { tag_scan(s, i + 1, single, double, true) }
            else { tag_scan(s, i + 1, single, b != '"', false) }
        } else if b == '\'' {
            tag_scan(s, i + 1, true, double, false)
        } else if b == '"' {
            tag_scan(s, i + 1, single, true, false)
        } else if b == '>' {
            Some(i)
        } else {
            tag_scan(s, i + 1, single, double, false)
        }
    }
}

pub proof fn lemma_tag_scan(s: Seq<char>, i: int, single: bool, double: bool, escape: bool)
    ensures
        match tag_scan(s, i, single, double, escape) {
            Some(e) => i <= e < s.len() && s[e] == '>',
            None => true,
        },
    decreases s.len() - i,
{
    if i < 0 || i >= s.len() {
    } else {
        let b = s[i];
        if escape {
            lemma_tag_scan(s, i + 1, single, double, false);
        } else if single {
            if b == '\\' { lemma_tag_scan(s, i + 1, single, double, true); }
            else { lemma_tag_scan(s, i + 1, b != '\'', double, false); }
        } else if double {
            if b == '\\' { lemma_tag_scan(s, i + 1, single, double, true); }
            else { lemma_tag_scan(s, i + 1, single, b != '"', false); }
        } else if b == '\'' {
            lemma_tag_scan(s, i + 1, true, double, false);
        } else if b == '"' {
            lemma_tag_scan(s, i + 1, single, true, false);
        } else if b == '>' {
        } else {
            lemma_tag_scan(s, i + 1, single, double, false);
        }
    }
}

/// Scan an HTML tag that starts with `<` at `start`; returns the tag text
/// including both angle brackets and the position after the closing `>`.
pub fn scan_html_tag(source: &Vec<char>, start: usize) -> (r: Option<(Vec<char>, usize)>)
    requires
        start < source@.len(),
        source@[start as int] == '<',
    ensures
        match tag_scan(source@, start + 1, false, false, false) {
            Some(e) => r matches Some((tag, next)) && tag@ == source@.subrange(start as int, e + 1) && next == e + 1,
            None => r is None,
        },
{
    let len = source.len();
    let mut index = start + 1;
    let mut single = false;
    let mut double = false;
    let mut escape = false;
    while index < len
        invariant
            len == source@.len(),
            start < index <= len,
            tag_scan(source@, start + 1, false, false, false) == tag_scan(source@, index as int, single, double, escape),
        decreases len - index,
    {
        let b = source[index];
        if escape {
            escape = false;
        } else if single {
            if b == '\\' { escape = true; } else if b == '\'' { single = false; }
        } else if double {
            if b == '\\' { escape = true; } else if b == '"' { double = false; }
        } else if b == '\'' {
            single = true;
        } else if b == '"' {
            double = true;
        } else if b == '>' {
            return Some((crate::text::sub_vec(source, start, index + 1), index + 1));
        }
        index = index + 1;
    }
    None
}

} // verus!
