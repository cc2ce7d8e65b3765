//! Line-oriented parser for the `MEMORY` block's `RAM` entry and for
//! `INCLUDE` directives.
//!
//! The parser is deliberately permissive: it scans line by line, tries
//! every occurrence of the token `RAM` on a line, and a line that fails to
//! match — a comment, an unrelated `RAM`-prefixed symbol, an expression
//! that does not evaluate — is simply skipped, never a fatal error.  The
//! first line with a full match wins, and later entries are not consulted.

use vstd::prelude::*;

use crate::expr::eval_expr;
use crate::expr::evaluate_expression_chars;
use crate::text::{
    find_from, find_token, skip_spaces, matches_at, trim, spec_lines, views_of, find_char,
    find_token_in, skip_ws, starts_with_at, trim_range, copy_range, to_chars, split_lines,
    chars_to_string, lemma_find_token_props, is_space, is_space_char,
};

verus! {

/// Entry under the `MEMORY` section in a linker script: the 0-based index
/// of the line it was found on, and its evaluated `ORIGIN` and `LENGTH`.
#[derive(Clone, Copy, Debug, PartialEq, Eq, Structural)]
pub struct MemoryEntry {
    pub line: usize,
    pub origin: u64,
    pub length: u64,
}

impl MemoryEntry {
    /// Exclusive upper bound of the region.
    pub fn end(&self) -> (r: u64)
        requires
            self.origin + self.length <= u64::MAX,
        ensures
            r == self.origin + self.length,
    {
        self.origin + self.length
    }

    /// Inclusive address range `[origin, end]` used for containment tests.
    pub fn span(&self) -> (r: (u64, u64))
        requires
            self.origin + self.length <= u64::MAX,
        ensures
            r.0 == self.origin,
            r.1 == self.origin + self.length,
    {
        (self.origin, self.origin + self.length)
    }
}

/// End of the length expression that starts at `i`: the line runs to a
/// trailing comment, a closing brace, or the end of the text, whichever
/// comes first.
pub open spec fn length_end(t: Seq<char>, i: int) -> int {
    let c = find_token(t, i, "/*"@);
    let b = find_from(t, i, '}');
    if c < b {
        c
    } else {
        b
    }
}

/// Attempts to read `RAM <attrs>? : ORIGIN = <expr>, LENGTH = <expr>`
/// with the `RAM` token at position `p` of the line.
pub open spec fn parse_ram_at(t: Seq<char>, p: int) -> Option<(u64, u64)> {
    let a = p + "RAM"@.len();
    let b = skip_spaces(t, a);
    let c = if 0 <= b < t.len() && t[b] == '(' {
        let q = find_from(t, b, ')');
        if q >= t.len() {
            t.len() as int + 1
        } else {
            skip_spaces(t, q + 1)
        }
    } else {
        b
    };
    if !(0 <= c < t.len() && t[c] == ':') {
        None
    } else {
        let d = skip_spaces(t, c + 1);
        if !matches_at(t, d, "ORIGIN"@) {
            None
        } else {
            let e = skip_spaces(t, d + "ORIGIN"@.len());
            if !(0 <= e < t.len() && t[e] == '=') {
                None
            } else {
                let g = e + 1;
                let comma = find_from(t, g, ',');
                if !(g <= comma < t.len()) {
                    None
                } else {
                    match eval_expr(t.subrange(g, comma)) {
                        None => None,
                        Some(origin) => parse_length_after(t, comma + 1, origin),
                    }
                }
            }
        }
    }
}

/// The `LENGTH = <expr>` tail of an entry, after the comma.
pub open spec fn parse_length_after(t: Seq<char>, i: int, origin: u64) -> Option<(u64, u64)> {
    let h = skip_spaces(t, i);
    if !matches_at(t, h, "LENGTH"@) {
        None
    } else {
        let m = skip_spaces(t, h + "LENGTH"@.len());
        if !(0 <= m < t.len() && t[m] == '=') {
            None
        } else {
            let g = m + 1;
            let stop = length_end(t, g);
            if !(g <= stop <= t.len()) {
                None
            } else {
                match eval_expr(t.subrange(g, stop)) {
                    None => None,
                    Some(length) => Some((origin, length)),
                }
            }
        }
    }
}

/// The `RAM` token at `p` names a region only when it starts a word:
/// at the beginning of the line, or after whitespace or an opening
/// brace.  This keeps regions such as `CCMRAM` from being mistaken for
/// the one this tool manages.
pub open spec fn ram_starts_word(t: Seq<char>, p: int) -> bool {
    p == 0 || is_space(t[p - 1]) || t[p - 1] == '{'
}

/// The first parsable `RAM` entry on the line, trying each word-initial
/// occurrence of the token from `from` on.
pub open spec fn find_ram_match(t: Seq<char>, from: int) -> Option<(u64, u64)>
    decreases t.len() - from,
{
    if !(0 <= from <= t.len()) {
        None
    } else {
        let p = find_token(t, from, "RAM"@);
        if !(from <= p < t.len()) {
            None
        } else {
            let attempt = if ram_starts_word(t, p) {
                parse_ram_at(t, p)
            } else {
                None
            };
            match attempt {
                Some(r) => Some(r),
                None => find_ram_match(t, p + 1),
            }
        }
    }
}

/// What a single line contributes: the evaluated `(origin, length)` of
/// its `RAM` entry, if it has one.
pub open spec fn line_entry(line: Seq<char>) -> Option<(u64, u64)> {
    find_ram_match(line, 0)
}

/// The first line (at or after `i`) holding a `RAM` entry, with the
/// entry's values.
pub open spec fn find_ram_lines(ls: Seq<Seq<char>>, i: int) -> Option<(int, u64, u64)>
    decreases ls.len() - i,
{
    if !(0 <= i < ls.len()) {
        None
    } else {
        match line_entry(ls[i]) {
            Some((o, l)) => Some((i, o, l)),
            None => find_ram_lines(ls, i + 1),
        }
    }
}

/// The `RAM` entry of a whole script: line index and evaluated values of
/// the first match, scanning lines in order.
pub open spec fn find_ram_spec(s: Seq<char>) -> Option<(int, u64, u64)> {
    find_ram_lines(spec_lines(s), 0)
}

/// `INCLUDE` target named on a line, if any: the trimmed line must start
/// with the token, and the trimmed remainder is the file name.
pub open spec fn line_include(line: Seq<char>) -> Option<Seq<char>> {
    let t = trim(line);
    if matches_at(t, 0, "INCLUDE"@) {
        Some(trim(t.subrange("INCLUDE"@.len() as int, t.len() as int)))
    } else {
        None
    }
}

/// The `INCLUDE` targets of the lines at or after `i`, in file order, not
/// deduplicated.
pub open spec fn includes_from(ls: Seq<Seq<char>>, i: int) -> Seq<Seq<char>>
    decreases ls.len() - i,
{
    if !(0 <= i < ls.len()) {
        Seq::empty()
    } else {
        match line_include(ls[i]) {
            Some(name) => seq![name] + includes_from(ls, i + 1),
            None => includes_from(ls, i + 1),
        }
    }
}

/// The `INCLUDE` targets of a whole script.
pub open spec fn includes_spec(s: Seq<char>) -> Seq<Seq<char>> {
    includes_from(spec_lines(s), 0)
}

fn parse_ram_at_exec(t: &Vec<char>, p: usize) -> (r: Option<(u64, u64)>)
    requires
        matches_at(t@, p as int, "RAM"@),
    ensures
        r == parse_ram_at(t@, p as int),
{
    proof {
        reveal_strlit("RAM");
        assert("RAM"@.len() == 3);
    }
    let tlen = t.len();
    proof {
        assert(p + 3 <= tlen);
    }
    let a = p + 3;
    let b = skip_ws(t, a);
    let c: usize;
    if b < t.len() && t[b] == '(' {
        let q = find_char(t, b, ')');
        if q >= t.len() {
            return None;
        }
        c = skip_ws(t, q + 1);
    } else {
        c = b;
    }
    if !(c < t.len() && t[c] == ':') {
        return None;
    }
    let d = skip_ws(t, c + 1);
    if !starts_with_at(t, d, "ORIGIN") {
        return None;
    }
    proof {
        reveal_strlit("ORIGIN");
        assert("ORIGIN"@.len() == 6);
    }
    let e = skip_ws(t, d + 6);
    if !(e < t.len() && t[e] == '=') {
        return None;
    }
    let g = e + 1;
    let comma = find_char(t, g, ',');
    if comma >= t.len() {
        return None;
    }
    let origin_expr = copy_range(t, g, comma);
    let origin: u64;
    match evaluate_expression_chars(&origin_expr) {
        Err(_) => {
            return None;
        },
        Ok(o) => {
            origin = o;
        },
    }
    let h = skip_ws(t, comma + 1);
    if !starts_with_at(t, h, "LENGTH") {
        return None;
    }
    proof {
        reveal_strlit("LENGTH");
        assert("LENGTH"@.len() == 6);
    }
    let m = skip_ws(t, h + 6);
    if !(m < t.len() && t[m] == '=') {
        return None;
    }
    let g2 = m + 1;
    let c_end = find_token_in(t, g2, "/*");
    let b_end = find_char(t, g2, '}');
    let stop = if c_end < b_end {
        c_end
    } else {
        b_end
    };
    let length_expr = copy_range(t, g2, stop);
    match evaluate_expression_chars(&length_expr) {
        Err(_) => None,
        Ok(length) => Some((origin, length)),
    }
}

fn scan_line_for_ram(t: &Vec<char>) -> (r: Option<(u64, u64)>)
    ensures
        r == line_entry(t@),
{
    let mut from: usize = 0;
    loop
        invariant
            0 <= from <= t@.len(),
            find_ram_match(t@, 0) == find_ram_match(t@, from as int),
        decreases t@.len() - from,
    {
        let p = find_token_in(t, from, "RAM");
        if p >= t.len() {
            return None;
        }
        proof {
            lemma_find_token_props(t@, from as int, "RAM"@);
        }
        let at_word_start = p == 0 || is_space_char(t[p - 1]) || t[p - 1] == '{';
        let attempt = if at_word_start {
            parse_ram_at_exec(t, p)
        } else {
            None
        };
        match attempt {
            Some(r) => {
                return Some(r);
            },
            None => {
                from = p + 1;
            },
        }
    }
}

/// Looks for `RAM : ORIGIN = <expr>, LENGTH = <expr>` — with an optional
/// attribute group such as `(xrw)` after the name — and returns the first
/// entry found, with the 0-based index of its line.  Returns `None` when
/// no line of the script declares one.
pub fn find_ram_in_linker_script(s: &str) -> (r: Option<MemoryEntry>)
    ensures
        r matches Some(e) ==> find_ram_spec(s@) == Some((e.line as int, e.origin, e.length))
            && e.line < spec_lines(s@).len(),
        r is None ==> find_ram_spec(s@) is None,
{
    let v = to_chars(s);
    let lines = split_lines(&v);
    let ghost ls = spec_lines(s@);
    let n = lines.len();
    let mut i: usize = 0;
    while i < n
        invariant
            n == lines@.len(),
            views_of(lines@) == ls,
            ls == spec_lines(s@),
            0 <= i <= n,
            find_ram_lines(ls, 0) == find_ram_lines(ls, i as int),
        decreases n - i,
    {
        proof {
            assert(lines@[i as int]@ == ls[i as int]);
        }
        match scan_line_for_ram(&lines[i]) {
            Some((origin, length)) => {
                return Some(MemoryEntry { line: i, origin, length });
            },
            None => {
                i = i + 1;
            },
        }
    }
    None
}

/// Collects the targets of every `INCLUDE` line, in file order, without
/// deduplication.
pub fn get_includes_from_linker_script(s: &str) -> (r: Vec<String>)
    ensures
        r@.map_values(|x: String| x@) == includes_spec(s@),
{
    let v = to_chars(s);
    let lines = split_lines(&v);
    let ghost ls = spec_lines(s@);
    let n = lines.len();
    let mut out: Vec<String> = Vec::new();
    let mut i: usize = 0;
    while i < n
        invariant
            n == lines@.len(),
            views_of(lines@) == ls,
            ls == spec_lines(s@),
            0 <= i <= n,
            includes_from(ls, 0) == out@.map_values(|x: String| x@) + includes_from(ls, i as int),
        decreases n - i,
    {
        proof {
            assert(lines@[i as int]@ == ls[i as int]);
        }
        let line = &lines[i];
        let t = trim_range(line, 0, line.len());
        proof {
            assert(line@.subrange(0, line@.len() as int) =~= line@);
        }
        if starts_with_at(&t, 0, "INCLUDE") {
            proof {
                reveal_strlit("INCLUDE");
                assert("INCLUDE"@.len() == 7);
            }
            let name = trim_range(&t, 7, t.len());
            let name_str = chars_to_string(&name);
            let ghost prev = out@;
            out.push(name_str);
            proof {
                assert(out@.map_values(|x: String| x@) =~= prev.map_values(|x: String| x@)
                    + seq![name@]);
                assert(seq![name@] + includes_from(ls, i + 1) =~= seq![line_include(
                    ls[i as int],
                )->Some_0] + includes_from(ls, i + 1));
                assert(prev.map_values(|x: String| x@) + (seq![name@] + includes_from(ls, i + 1))
                    =~= out@.map_values(|x: String| x@) + includes_from(ls, i + 1));
            }
        } else {
            proof {
                assert(line_include(ls[i as int]) is None);
            }
        }
        i = i + 1;
    }
    proof {
        assert(includes_from(ls, n as int) =~= Seq::<Seq<char>>::empty());
        assert(out@.map_values(|x: String| x@) + Seq::<Seq<char>>::empty() =~= out@.map_values(
            |x: String| x@,
        ));
    }
    out
}

} // verus!
