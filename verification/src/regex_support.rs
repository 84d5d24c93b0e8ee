//! Regular-expression matching through the `regex` crate, and conversion of
//! the byte offsets it reports into character positions.
use vstd::prelude::*;

verus! {

/// The byte spans of every capture group (group 0 is the whole match) of
/// every successive non-overlapping match of `pattern` in `haystack`, as the
/// `regex` crate reports them; no matches when the pattern does not compile.
pub uninterp spec fn regex_capture_spans(pattern: Seq<char>, haystack: Seq<char>) -> Seq<Seq<Option<(usize, usize)>>>;

pub open spec fn spans_view(v: Seq<Vec<Option<(usize, usize)>>>) -> Seq<Seq<Option<(usize, usize)>>> {
    v.map_values(|x: Vec<Option<(usize, usize)>>| x@)
}

/// Runs `regex::Regex::new(pattern)` and `Regex::captures_iter(haystack)`;
/// claims only that the spans it returns are the named result of the pattern
/// and the haystack. Nothing is stated of what the spans are.
#[verifier::external_body]
pub(crate) fn capture_spans(pattern: &str, haystack: &str) -> (r: Vec<Vec<Option<(usize, usize)>>>)
    ensures
        spans_view(r@) == regex_capture_spans(pattern@, haystack@),
{
    match regex::Regex::new(pattern) {
        Ok(re) => re
            .captures_iter(haystack)
            .map(|c| (0..c.len()).map(|g| c.get(g).map(|m| (m.start(), m.end()))).collect())
            .collect(),
        Err(_) => Vec::new(),
    }
}

/// Number of bytes of the UTF-8 encoding of `c`.
pub open spec fn utf8_len(c: char) -> nat {
    if (c as u32) < 0x80 { 1 }
    else if (c as u32) < 0x800 { 2 }
    else if (c as u32) < 0x10000 { 3 }
    else { 4 }
}

/// The index of the first character at or after `i` at which the UTF-8 byte
/// offset (being `acc` at `i`) reaches `b`; the length when none does.
pub open spec fn char_index_scan(s: Seq<char>, i: int, acc: int, b: int) -> int
    decreases s.len() - i,
{
    if i < 0 || i >= s.len() || acc >= b {
        if i < 0 { 0 } else if i > s.len() { s.len() as int } else { i }
    } else {
        char_index_scan(s, i + 1, acc + utf8_len(s[i]), b)
    }
}

/// The character position of byte offset `b` in the UTF-8 encoding of `s`.
pub open spec fn char_index_of(s: Seq<char>, b: int) -> int {
    char_index_scan(s, 0, 0, b)
}

pub proof fn lemma_char_index_scan(s: Seq<char>, i: int, acc: int, b: int)
    requires
        0 <= i <= s.len(),
    ensures
        i <= char_index_scan(s, i, acc, b) <= s.len(),
    decreases s.len() - i,
{
    if i >= s.len() || acc >= b {
    } else {
        lemma_char_index_scan(s, i + 1, acc + utf8_len(s[i]), b);
    }
}

fn utf8_len_exec(c: char) -> (r: u8)
    ensures
        r == utf8_len(c),
{
    let v = c as u32;
    if v < 0x80 { 1 } else if v < 0x800 { 2 } else if v < 0x10000 { 3 } else { 4 }
}

/// The character position of a UTF-8 byte offset.
pub fn char_index_of_byte(s: &Vec<char>, b: usize) -> (r: usize)
    ensures
        r == char_index_of(s@, b as int),
        r <= s@.len(),
{
    let mut i: usize = 0;
    let mut acc: u128 = 0;
    while i < s.len() && acc < b as u128
        invariant
            i <= s@.len(),
            acc <= b + 4,
            char_index_of(s@, b as int) == char_index_scan(s@, i as int, acc as int, b as int),
        decreases s.len() - i,
    {
        acc = acc + utf8_len_exec(s[i]) as u128;
        i = i + 1;
    }
    proof { lemma_char_index_scan(s@, 0, 0, b as int); }
    i
}

/// A byte span as a character range.
pub open spec fn char_range(s: Seq<char>, span: (usize, usize)) -> (int, int) {
    (char_index_of(s, span.0 as int), char_index_of(s, span.1 as int))
}

/// The text of a byte span.
pub open spec fn span_text(s: Seq<char>, span: (usize, usize)) -> Seq<char> {
    let r = char_range(s, span);
    if r.0 <= r.1 { s.subrange(r.0, r.1) } else { seq![] }
}

/// The characters of a byte span of `s`.
pub fn span_chars(s: &Vec<char>, span: (usize, usize)) -> (r: Vec<char>)
    ensures
        r@ == span_text(s@, span),
{
    let a = char_index_of_byte(s, span.0);
    let b = char_index_of_byte(s, span.1);
    if a <= b {
        crate::text::sub_vec(s, a, b)
    } else {
        Vec::new()
    }
}

/// The whole-match spans (group 0) of a list of matches.
pub open spec fn whole_match_spans(m: Seq<Seq<Option<(usize, usize)>>>) -> Seq<(usize, usize)>
    decreases m.len(),
{
    if m.len() == 0 {
        seq![]
    } else {
        let rest = whole_match_spans(m.drop_last());
        let last = m.last();
        if last.len() > 0 && last[0] is Some { rest.push(last[0]->0) } else { rest }
    }
}

/// The whole-match spans of all matches.
pub fn whole_matches(m: &Vec<Vec<Option<(usize, usize)>>>) -> (r: Vec<(usize, usize)>)
    ensures
        r@ == whole_match_spans(spans_view(m@)),
{
    let mut r: Vec<(usize, usize)> = Vec::new();
    let mut i: usize = 0;
    while i < m.len()
        invariant
            i <= m@.len(),
            r@ == whole_match_spans(spans_view(m@).take(i as int)),
        decreases m.len() - i,
    {
        let g = &m[i];
        proof {
            assert(spans_view(m@).take(i + 1).drop_last() =~= spans_view(m@).take(i as int));
            assert(spans_view(m@).take(i + 1).last() == m@[i as int]@);
        }
        if g.len() > 0 {
            if let Some(sp) = g[0] {
                r.push(sp);
            }
        }
        i = i + 1;
    }
    assert(spans_view(m@).take(m@.len() as int) =~= spans_view(m@));
    r
}

/// The capture groups of the first match, if there is one.
pub open spec fn first_match(m: Seq<Seq<Option<(usize, usize)>>>) -> Option<Seq<Option<(usize, usize)>>> {
    if m.len() > 0 { Some(m[0]) } else { None }
}

/// The text of capture group `g` of a match, when it took part in the match.
pub open spec fn group_text(s: Seq<char>, groups: Seq<Option<(usize, usize)>>, g: int) -> Option<Seq<char>> {
    if 0 <= g < groups.len() && groups[g] is Some { Some(span_text(s, groups[g]->0)) } else { None }
}

/// The characters of capture group `g`, when it took part in the match.
pub fn group_chars(s: &Vec<char>, groups: &Vec<Option<(usize, usize)>>, g: usize) -> (r: Option<Vec<char>>)
    ensures
        match r {
            Some(t) => group_text(s@, groups@, g as int) == Some(t@),
            None => group_text(s@, groups@, g as int) is None,
        },
{
    if g < groups.len() {
        match groups[g] {
            Some(sp) => Some(span_chars(s, sp)),
            None => None,
        }
    } else {
        None
    }
}

/// Whether some range covers position `i`.
pub open spec fn covered(ranges: Seq<(int, int)>, i: int) -> bool {
    exists|k: int| 0 <= k < ranges.len() && #[trigger] ranges[k].0 <= i < ranges[k].1
}

/// The characters of `s` from `i` on that no range covers.
pub open spec fn uncovered_from(s: Seq<char>, ranges: Seq<(int, int)>, i: int) -> Seq<char>
    decreases s.len() - i,
{
    if i < 0 || i >= s.len() {
        seq![]
    } else {
        (if covered(ranges, i) { seq![] } else { seq![s[i]] }) + uncovered_from(s, ranges, i + 1)
    }
}

pub open spec fn ranges_view(r: Seq<(usize, usize)>) -> Seq<(int, int)> {
    r.map_values(|x: (usize, usize)| (x.0 as int, x.1 as int))
}

/// `source` with every character that lies in one of the ranges removed.
pub fn remove_ranges(source: &Vec<char>, ranges: &Vec<(usize, usize)>) -> (r: Vec<char>)
    ensures
        r@ == uncovered_from(source@, ranges_view(ranges@), 0),
{
    let mut out: Vec<char> = Vec::new();
    let mut i: usize = 0;
    while i < source.len()
        invariant
            i <= source@.len(),
            uncovered_from(source@, ranges_view(ranges@), 0) == out@ + uncovered_from(source@, ranges_view(ranges@), i as int),
        decreases source.len() - i,
    {
        let mut hit = false;
        let mut k: usize = 0;
        while k < ranges.len()
            invariant
                k <= ranges@.len(),
                hit == exists|j: int| 0 <= j < k && #[trigger] ranges@[j].0 <= i < ranges@[j].1,
            decreases ranges.len() - k,
        {
            let (a, b) = ranges[k];
            if a <= i && i < b {
                hit = true;
            }
            k = k + 1;
        }
        assert(hit == covered(ranges_view(ranges@), i as int)) by {
            if hit {
                let j = choose|j: int| 0 <= j < ranges@.len() && #[trigger] ranges@[j].0 <= i < ranges@[j].1;
                assert(ranges_view(ranges@)[j] == (ranges@[j].0 as int, ranges@[j].1 as int));
            }
            if covered(ranges_view(ranges@), i as int) {
                let j = choose|j: int| 0 <= j < ranges_view(ranges@).len() && #[trigger] ranges_view(ranges@)[j].0 <= i < ranges_view(ranges@)[j].1;
                assert(ranges_view(ranges@)[j] == (ranges@[j].0 as int, ranges@[j].1 as int));
            }
        }
        let ghost before = out@;
        if !hit {
            out.push(source[i]);
        }
        assert(out@ + uncovered_from(source@, ranges_view(ranges@), i + 1)
            =~= before + uncovered_from(source@, ranges_view(ranges@), i as int));
        i = i + 1;
    }
    assert(out@ =~= out@ + uncovered_from(source@, ranges_view(ranges@), i as int));
    out
}


/// Whether the glob `pattern` matches `path`, as the `globset` crate
/// decides; `None` when the pattern does not compile.
pub uninterp spec fn glob_match_result(pattern: Seq<char>, path: Seq<char>) -> Option<bool>;

/// Runs `globset::Glob::new(pattern)`, adds the glob to a
/// `globset::GlobSetBuilder`, builds the set with `GlobSetBuilder::build` and
/// asks `GlobSet::is_match(path)`. Both a pattern that does not parse and a
/// set that does not compile (its regex over the size limit) come back as
/// `None`: `build` reports them as errors rather than panicking. The contract
/// claims only that the result is the named result of the pattern and the
/// path.
#[verifier::external_body]
pub(crate) fn glob_is_match(pattern: &str, path: &str) -> (r: Option<bool>)
    ensures
        r == glob_match_result(pattern@, path@),
{
    let glob = match globset::Glob::new(pattern) {
        Ok(glob) => glob,
        Err(_) => return None,
    };
    let mut builder = globset::GlobSetBuilder::new();
    builder.add(glob);
    match builder.build() {
        Ok(set) => Some(set.is_match(path)),
        Err(_) => None,
    }
}

} // verus!
