//! Character-level text utilities shared by the script parser and rewriter.
//!
//! All logic works on `Vec<char>` / `Seq<char>`; the boundary functions
//! `to_chars` and `chars_to_string` convert from and to Rust strings.
//! Whitespace here means the ASCII blanks that appear in linker scripts:
//! space, tab, carriage return and line feed.

use vstd::prelude::*;

verus! {

pub open spec fn is_space(c: char) -> bool {
    c == ' ' || c == '\t' || c == '\r' || c == '\n'
}

/// Index of the first occurrence of `c` at or after `i`, or `s.len()`.
pub open spec fn find_from(s: Seq<char>, i: int, c: char) -> int
    decreases s.len() - i,
{
    if i < 0 || i >= s.len() {
        s.len() as int
    } else if s[i] == c {
        i
    } else {
        find_from(s, i + 1, c)
    }
}

pub proof fn lemma_find_from_props(s: Seq<char>, i: int, c: char)
    requires
        0 <= i <= s.len(),
    ensures
        i <= find_from(s, i, c) <= s.len(),
        find_from(s, i, c) < s.len() ==> s[find_from(s, i, c)] == c,
        forall|j: int| i <= j < find_from(s, i, c) ==> s[j] != c,
    decreases s.len() - i,
{
    if i < s.len() && s[i] != c {
        lemma_find_from_props(s, i + 1, c);
    }
}

/// A position that carries the first-occurrence characterization is
/// exactly `find_from`.
pub proof fn lemma_find_from_is(s: Seq<char>, i: int, c: char, k: int)
    requires
        0 <= i <= k <= s.len(),
        k < s.len() ==> s[k] == c,
        forall|j: int| i <= j < k ==> s[j] != c,
    ensures
        find_from(s, i, c) == k,
    decreases k - i,
{
    if i < k {
        lemma_find_from_is(s, i + 1, c, k);
    }
}

/// First index at or after `i` holding a non-space character, or `s.len()`.
pub open spec fn skip_spaces(s: Seq<char>, i: int) -> int
    decreases s.len() - i,
{
    if i < 0 || i >= s.len() {
        if i < 0 {
            i
        } else {
            s.len() as int
        }
    } else if is_space(s[i]) {
        skip_spaces(s, i + 1)
    } else {
        i
    }
}

pub proof fn lemma_skip_spaces_is(s: Seq<char>, i: int, k: int)
    requires
        0 <= i <= k <= s.len(),
        k < s.len() ==> !is_space(s[k]),
        forall|j: int| i <= j < k ==> is_space(s[j]),
    ensures
        skip_spaces(s, i) == k,
    decreases k - i,
{
    if i < k {
        lemma_skip_spaces_is(s, i + 1, k);
    }
}

/// `p` occurs in `s` starting at position `i`.
pub open spec fn matches_at(s: Seq<char>, i: int, p: Seq<char>) -> bool {
    0 <= i && i + p.len() <= s.len() && s.subrange(i, i + p.len()) == p
}

/// Index of the first occurrence of the token `tok` at or after `from`,
/// or `s.len()` when there is none.
pub open spec fn find_token(s: Seq<char>, from: int, tok: Seq<char>) -> int
    decreases s.len() - from,
{
    if !(0 <= from <= s.len()) {
        s.len() as int
    } else if matches_at(s, from, tok) {
        from
    } else if from >= s.len() {
        s.len() as int
    } else {
        find_token(s, from + 1, tok)
    }
}

pub proof fn lemma_find_token_props(s: Seq<char>, from: int, tok: Seq<char>)
    requires
        0 <= from <= s.len(),
    ensures
        from <= find_token(s, from, tok) <= s.len(),
        find_token(s, from, tok) < s.len() ==> matches_at(s, find_token(s, from, tok), tok),
        forall|j: int| from <= j < find_token(s, from, tok) ==> !matches_at(s, j, tok),
    decreases s.len() - from,
{
    if !matches_at(s, from, tok) && from < s.len() {
        lemma_find_token_props(s, from + 1, tok);
    }
}

pub proof fn lemma_find_token_is(s: Seq<char>, from: int, tok: Seq<char>, k: int)
    requires
        0 <= from <= k <= s.len(),
        k < s.len() ==> matches_at(s, k, tok),
        forall|j: int| from <= j < k ==> !matches_at(s, j, tok),
        k == s.len() ==> !matches_at(s, k, tok),
    ensures
        find_token(s, from, tok) == k,
    decreases k - from,
{
    if from < k {
        lemma_find_token_is(s, from + 1, tok, k);
    }
}

pub open spec fn trim_start(s: Seq<char>) -> Seq<char>
    decreases s.len(),
{
    if s.len() > 0 && is_space(s[0]) {
        trim_start(s.drop_first())
    } else {
        s
    }
}

pub open spec fn trim_end(s: Seq<char>) -> Seq<char>
    decreases s.len(),
{
    if s.len() > 0 && is_space(s.last()) {
        trim_end(s.drop_last())
    } else {
        s
    }
}

/// The string with leading and trailing whitespace removed.
pub open spec fn trim(s: Seq<char>) -> Seq<char> {
    trim_end(trim_start(s))
}

pub proof fn lemma_trim_start_at(s: Seq<char>, lo: int)
    requires
        0 <= lo <= s.len(),
        lo < s.len() ==> !is_space(s[lo]),
        forall|j: int| 0 <= j < lo ==> is_space(s[j]),
    ensures
        trim_start(s) == s.subrange(lo, s.len() as int),
    decreases lo,
{
    if lo == 0 {
        assert(trim_start(s) == s);
        assert(s.subrange(0, s.len() as int) =~= s);
    } else {
        let t = s.drop_first();
        assert(t =~= s.subrange(1, s.len() as int));
        lemma_trim_start_at(t, lo - 1);
        assert(t.subrange(lo - 1, t.len() as int) =~= s.subrange(lo, s.len() as int));
    }
}

pub proof fn lemma_trim_end_at(s: Seq<char>, hi: int)
    requires
        0 <= hi <= s.len(),
        hi > 0 ==> !is_space(s[hi - 1]),
        forall|j: int| hi <= j < s.len() ==> is_space(s[j]),
    ensures
        trim_end(s) == s.subrange(0, hi),
    decreases s.len(),
{
    if hi == s.len() {
        if s.len() > 0 {
            assert(!is_space(s.last()));
        }
        assert(s.subrange(0, s.len() as int) =~= s);
    } else {
        let t = s.drop_last();
        assert(t =~= s.subrange(0, s.len() - 1));
        assert(is_space(s.last()));
        lemma_trim_end_at(t, hi);
        assert(t.subrange(0, hi) =~= s.subrange(0, hi));
    }
}

/// Converts a string to the vector of its characters.
pub fn to_chars(s: &str) -> (r: Vec<char>)
    ensures
        r@ == s@,
{
    let n = s.unicode_len();
    let mut r: Vec<char> = Vec::new();
    let mut i: usize = 0;
    while i < n
        invariant
            n == s@.len(),
            0 <= i <= n,
            r@ == s@.subrange(0, i as int),
        decreases n - i,
    {
        r.push(s.get_char(i));
        proof {
            assert(r@ =~= s@.subrange(0, i + 1));
        }
        i = i + 1;
    }
    proof {
        assert(s@.subrange(0, n as int) =~= s@);
    }
    r
}

/// Relies on `String`'s `FromIterator<char>` implementation: collecting
/// characters yields a string holding exactly those characters in order.
#[verifier::external_body]
pub(crate) fn chars_to_string(v: &Vec<char>) -> (r: String)
    ensures
        r@ == v@,
{
    v.iter().collect()
}

/// Copy of `v[lo..hi]`.
pub fn copy_range(v: &Vec<char>, lo: usize, hi: usize) -> (r: Vec<char>)
    requires
        lo <= hi <= v@.len(),
    ensures
        r@ == v@.subrange(lo as int, hi as int),
{
    let mut r: Vec<char> = Vec::new();
    let mut i: usize = lo;
    while i < hi
        invariant
            lo <= i <= hi <= v@.len(),
            r@ == v@.subrange(lo as int, i as int),
        decreases hi - i,
    {
        r.push(v[i]);
        proof {
            assert(r@ =~= v@.subrange(lo as int, i + 1));
        }
        i = i + 1;
    }
    r
}

pub fn is_space_char(c: char) -> (r: bool)
    ensures
        r == is_space(c),
{
    c == ' ' || c == '\t' || c == '\r' || c == '\n'
}

/// First occurrence of `c` at or after `from`, or `v.len()`.
pub fn find_char(v: &Vec<char>, from: usize, c: char) -> (r: usize)
    requires
        from <= v@.len(),
    ensures
        r == find_from(v@, from as int, c),
        from <= r <= v@.len(),
{
    let mut i: usize = from;
    while i < v.len()
        invariant
            from <= i <= v@.len(),
            forall|j: int| from <= j < i ==> v@[j] != c,
        decreases v@.len() - i,
    {
        if v[i] == c {
            proof {
                lemma_find_from_is(v@, from as int, c, i as int);
            }
            return i;
        }
        i = i + 1;
    }
    proof {
        lemma_find_from_is(v@, from as int, c, v@.len() as int);
    }
    i
}

/// First non-space position at or after `from`, or `v.len()`.
pub fn skip_ws(v: &Vec<char>, from: usize) -> (r: usize)
    requires
        from <= v@.len(),
    ensures
        r == skip_spaces(v@, from as int),
        from <= r <= v@.len(),
{
    let mut i: usize = from;
    while i < v.len() && is_space_char(v[i])
        invariant
            from <= i <= v@.len(),
            forall|j: int| from <= j < i ==> is_space(v@[j]),
        decreases v@.len() - i,
    {
        i = i + 1;
    }
    proof {
        lemma_skip_spaces_is(v@, from as int, i as int);
    }
    i
}

/// Does the literal `p` occur in `v` at position `i`?
pub fn starts_with_at(v: &Vec<char>, i: usize, p: &str) -> (r: bool)
    requires
        i <= v@.len(),
    ensures
        r == matches_at(v@, i as int, p@),
{
    let n = p.unicode_len();
    let vn = v.len();
    if n > vn - i {
        return false;
    }
    let mut j: usize = 0;
    while j < n
        invariant
            vn == v@.len(),
            i + n <= vn,
            n == p@.len(),
            0 <= j <= n,
            forall|t: int| 0 <= t < j ==> v@[i + t] == p@[t],
        decreases n - j,
    {
        if v[i + j] != p.get_char(j) {
            assert(v@.subrange(i as int, i + n) != p@) by {
                assert(v@.subrange(i as int, i + n)[j as int] != p@[j as int]);
            }
            return false;
        }
        j = j + 1;
    }
    proof {
        assert(v@.subrange(i as int, i + n) =~= p@);
    }
    true
}

/// First occurrence of the token `tok` at or after `from`, or `v.len()`.
pub fn find_token_in(v: &Vec<char>, from: usize, tok: &str) -> (r: usize)
    requires
        from <= v@.len(),
    ensures
        r == find_token(v@, from as int, tok@),
        from <= r <= v@.len(),
{
    let n = tok.unicode_len();
    if n == 0 {
        proof {
            if (from as int) < v@.len() {
                assert(v@.subrange(from as int, from as int) =~= tok@);
            }
        }
        return from;
    }
    let mut i: usize = from;
    while i < v.len()
        invariant
            from <= i <= v@.len(),
            forall|j: int| from <= j < i ==> !matches_at(v@, j, tok@),
        decreases v@.len() - i,
    {
        if starts_with_at(v, i, tok) {
            proof {
                lemma_find_token_is(v@, from as int, tok@, i as int);
            }
            return i;
        }
        i = i + 1;
    }
    proof {
        lemma_find_token_is(v@, from as int, tok@, v@.len() as int);
    }
    i
}

/// Copy of `v[lo..hi]` with surrounding whitespace removed.
pub fn trim_range(v: &Vec<char>, lo: usize, hi: usize) -> (r: Vec<char>)
    requires
        lo <= hi <= v@.len(),
    ensures
        r@ == trim(v@.subrange(lo as int, hi as int)),
{
    let ghost s = v@.subrange(lo as int, hi as int);
    let mut a: usize = lo;
    while a < hi && is_space_char(v[a])
        invariant
            lo <= a <= hi <= v@.len(),
            forall|j: int| lo <= j < a ==> is_space(v@[j]),
        decreases hi - a,
    {
        a = a + 1;
    }
    if a == hi {
        proof {
            lemma_trim_start_at(s, s.len() as int);
            assert(trim_start(s) =~= Seq::<char>::empty());
            assert(trim_end(trim_start(s)) == trim_start(s));
            assert(s.subrange(s.len() as int, s.len() as int) =~= Seq::<char>::empty());
        }
        return Vec::new();
    }
    let mut b: usize = hi;
    while b > a && is_space_char(v[b - 1])
        invariant
            a < hi <= v@.len(),
            a <= b <= hi,
            !is_space(v@[a as int]),
            forall|j: int| b <= j < hi ==> is_space(v@[j]),
        decreases b,
    {
        b = b - 1;
    }
    let r = copy_range(v, a, b);
    proof {
        lemma_trim_start_at(s, a - lo);
        let t = s.subrange(a - lo, s.len() as int);
        lemma_trim_end_at(t, b - a);
        assert(t.subrange(0, b - a) =~= v@.subrange(a as int, b as int));
    }
    r
}

/// `Seq<char>` views of a sequence of character vectors.
pub open spec fn views_of(vs: Seq<Vec<char>>) -> Seq<Seq<char>> {
    vs.map_values(|v: Vec<char>| v@)
}

pub open spec fn strip_trailing_cr(s: Seq<char>) -> Seq<char> {
    if s.len() > 0 && s.last() == '\r' {
        s.drop_last()
    } else {
        s
    }
}

/// The lines of `s`, in the sense of Rust's `str::lines`: pieces split at
/// `'\n'`, a carriage return just before the split removed, and no empty
/// final piece for a trailing newline.
pub open spec fn spec_lines(s: Seq<char>) -> Seq<Seq<char>>
    decreases s.len(),
{
    if s.len() == 0 {
        Seq::empty()
    } else {
        let i = find_from(s, 0, '\n');
        if !(0 <= i < s.len()) {
            seq![s]
        } else {
            seq![strip_trailing_cr(s.subrange(0, i))] + spec_lines(
                s.subrange(i + 1, s.len() as int),
            )
        }
    }
}

/// Splits `v[from..]` into lines.
fn split_lines_from(v: &Vec<char>, from: usize) -> (r: Vec<Vec<char>>)
    requires
        from <= v@.len(),
    ensures
        views_of(r@) == spec_lines(v@.subrange(from as int, v@.len() as int)),
    decreases v@.len() - from,
{
    let ghost s = v@.subrange(from as int, v@.len() as int);
    if from == v.len() {
        let r: Vec<Vec<char>> = Vec::new();
        proof {
            assert(s.len() == 0);
            assert(views_of(r@) =~= spec_lines(s));
        }
        return r;
    }
    let nl = find_char(v, from, '\n');
    proof {
        lemma_find_from_props(v@, from as int, '\n');
        lemma_find_from_is(s, 0, '\n', nl - from);
        assert(find_from(s, 0, '\n') == nl - from);
    }
    if nl == v.len() {
        let line = copy_range(v, from, nl);
        let mut r: Vec<Vec<char>> = Vec::new();
        r.push(line);
        proof {
            assert(line@ =~= s);
            assert(views_of(r@) =~= seq![s]);
        }
        return r;
    }
    let mut line = copy_range(v, from, nl);
    proof {
        assert(line@ =~= s.subrange(0, nl - from));
    }
    if line.len() > 0 && line[line.len() - 1] == '\r' {
        line.pop();
    }
    proof {
        assert(line@ =~= strip_trailing_cr(s.subrange(0, nl - from)));
    }
    let mut rest = split_lines_from(v, nl + 1);
    proof {
        assert(v@.subrange(nl + 1, v@.len() as int) =~= s.subrange(
            nl - from + 1,
            s.len() as int,
        ));
    }
    let mut r: Vec<Vec<char>> = Vec::new();
    r.push(line);
    let ghost rest_view = rest@;
    r.append(&mut rest);
    proof {
        assert(views_of(r@) =~= seq![line@] + views_of(rest_view));
        assert(views_of(r@) =~= spec_lines(s));
    }
    r
}

/// Splits a character vector into its lines.
pub fn split_lines(v: &Vec<char>) -> (r: Vec<Vec<char>>)
    ensures
        views_of(r@) == spec_lines(v@),
{
    let r = split_lines_from(v, 0);
    proof {
        assert(v@.subrange(0, v@.len() as int) =~= v@);
    }
    r
}

/// Appends the characters of `v` to `out`.
pub fn append_chars(out: &mut Vec<char>, v: &Vec<char>)
    ensures
        final(out)@ == old(out)@ + v@,
{
    let n = v.len();
    let mut i: usize = 0;
    while i < n
        invariant
            n == v@.len(),
            0 <= i <= n,
            out@ == old(out)@ + v@.subrange(0, i as int),
        decreases n - i,
    {
        out.push(v[i]);
        proof {
            assert(old(out)@ + v@.subrange(0, i + 1) =~= (old(out)@ + v@.subrange(0, i as int)).push(
                v@[i as int],
            ));
        }
        i = i + 1;
    }
    proof {
        assert(v@.subrange(0, n as int) =~= v@);
    }
}

/// Appends the characters of `s` to `out`.
pub fn append_str(out: &mut Vec<char>, s: &str)
    ensures
        final(out)@ == old(out)@ + s@,
{
    let n = s.unicode_len();
    let mut i: usize = 0;
    while i < n
        invariant
            n == s@.len(),
            0 <= i <= n,
            out@ == old(out)@ + s@.subrange(0, i as int),
        decreases n - i,
    {
        out.push(s.get_char(i));
        proof {
            assert(old(out)@ + s@.subrange(0, i + 1) =~= (old(out)@ + s@.subrange(0, i as int)).push(
                s@[i as int],
            ));
        }
        i = i + 1;
    }
    proof {
        assert(s@.subrange(0, n as int) =~= s@);
    }
}

} // verus!
