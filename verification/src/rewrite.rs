//! Script rewriter: reproduces the original script with the matched `RAM`
//! line replaced by a canonical declaration of the planned window.
//!
//! Every other line passes through unchanged, preserving line count and
//! order, so tooling that relies on line numbers in the original is
//! unaffected outside the one rewritten line.  Output lines are joined
//! with `'\n'` and the output ends with one.

use vstd::prelude::*;

use crate::layout::RamWindow;
use crate::text::{spec_lines, views_of, to_chars, split_lines, append_chars, append_str,
    chars_to_string, find_from, lemma_find_from_is, strip_trailing_cr};

verus! {

/// Character for the digit value `d` (lower case above 9).
pub open spec fn digit_char(d: int) -> char {
    if d == 0 {
        '0'
    } else if d == 1 {
        '1'
    } else if d == 2 {
        '2'
    } else if d == 3 {
        '3'
    } else if d == 4 {
        '4'
    } else if d == 5 {
        '5'
    } else if d == 6 {
        '6'
    } else if d == 7 {
        '7'
    } else if d == 8 {
        '8'
    } else if d == 9 {
        '9'
    } else if d == 10 {
        'a'
    } else if d == 11 {
        'b'
    } else if d == 12 {
        'c'
    } else if d == 13 {
        'd'
    } else if d == 14 {
        'e'
    } else if d == 15 {
        'f'
    } else {
        '0'
    }
}

/// Decimal digits of `n`, most significant first, no leading zeros
/// (except for `n == 0` itself).
pub open spec fn dec_chars(n: nat) -> Seq<char>
    decreases n,
{
    if n < 10 {
        seq![digit_char(n as int)]
    } else {
        dec_chars(n / 10) + seq![digit_char((n % 10) as int)]
    }
}

/// Hexadecimal digits of `n`, most significant first, lower case.
pub open spec fn hex_chars(n: nat) -> Seq<char>
    decreases n,
{
    if n < 16 {
        seq![digit_char(n as int)]
    } else {
        hex_chars(n / 16) + seq![digit_char((n % 16) as int)]
    }
}

/// The replacement line: `  RAM : ORIGIN = 0x<hex>, LENGTH = <decimal>`.
pub open spec fn canonical_ram_line(origin: u64, length: u64) -> Seq<char> {
    "  RAM : ORIGIN = 0x"@ + hex_chars(origin as nat) + ", LENGTH = "@ + dec_chars(length as nat)
}

/// The lines joined back into a text, each terminated by `'\n'`.
pub open spec fn unlines(ls: Seq<Seq<char>>) -> Seq<char>
    decreases ls.len(),
{
    if ls.len() == 0 {
        Seq::empty()
    } else {
        ls[0] + seq!['\n'] + unlines(ls.drop_first())
    }
}

/// The rewritten script: the lines of `s` with the line at `index`
/// replaced by the canonical declaration of `w`, joined by newlines.
pub open spec fn rewrite_spec(s: Seq<char>, index: int, w: RamWindow) -> Seq<char> {
    unlines(spec_lines(s).update(index, canonical_ram_line(w.new_origin, w.new_length)))
}

fn digit_char_exec(d: u64) -> (r: char)
    requires
        d < 16,
    ensures
        r == digit_char(d as int),
{
    if d == 0 {
        '0'
    } else if d == 1 {
        '1'
    } else if d == 2 {
        '2'
    } else if d == 3 {
        '3'
    } else if d == 4 {
        '4'
    } else if d == 5 {
        '5'
    } else if d == 6 {
        '6'
    } else if d == 7 {
        '7'
    } else if d == 8 {
        '8'
    } else if d == 9 {
        '9'
    } else if d == 10 {
        'a'
    } else if d == 11 {
        'b'
    } else if d == 12 {
        'c'
    } else if d == 13 {
        'd'
    } else if d == 14 {
        'e'
    } else {
        'f'
    }
}

/// Appends the decimal form of `n`.
pub fn push_dec(out: &mut Vec<char>, n: u64)
    ensures
        final(out)@ == old(out)@ + dec_chars(n as nat),
    decreases n,
{
    if n < 10 {
        out.push(digit_char_exec(n));
        proof {
            assert(old(out)@ + dec_chars(n as nat) =~= old(out)@.push(digit_char(n as int)));
        }
    } else {
        push_dec(out, n / 10);
        out.push(digit_char_exec(n % 10));
        proof {
            assert(old(out)@ + dec_chars(n as nat) =~= (old(out)@ + dec_chars((n / 10) as nat)).push(
                digit_char((n % 10) as int),
            ));
        }
    }
}

/// Appends the hexadecimal form of `n` (no `0x` prefix).
pub fn push_hex(out: &mut Vec<char>, n: u64)
    ensures
        final(out)@ == old(out)@ + hex_chars(n as nat),
    decreases n,
{
    if n < 16 {
        out.push(digit_char_exec(n));
        proof {
            assert(old(out)@ + hex_chars(n as nat) =~= old(out)@.push(digit_char(n as int)));
        }
    } else {
        push_hex(out, n / 16);
        out.push(digit_char_exec(n % 16));
        proof {
            assert(old(out)@ + hex_chars(n as nat) =~= (old(out)@ + hex_chars((n / 16) as nat)).push(
                digit_char((n % 16) as int),
            ));
        }
    }
}

/// Appends the canonical `RAM` line for the window.
fn push_canonical(out: &mut Vec<char>, origin: u64, length: u64)
    ensures
        final(out)@ == old(out)@ + canonical_ram_line(origin, length),
{
    append_str(out, "  RAM : ORIGIN = 0x");
    push_hex(out, origin);
    append_str(out, ", LENGTH = ");
    push_dec(out, length);
    proof {
        assert(old(out)@ + canonical_ram_line(origin, length) =~= ((old(out)@
            + "  RAM : ORIGIN = 0x"@ + hex_chars(origin as nat)) + ", LENGTH = "@) + dec_chars(
            length as nat,
        ));
    }
}

proof fn lemma_unlines_take_step(ls: Seq<Seq<char>>, i: int)
    requires
        0 <= i < ls.len(),
    ensures
        unlines(ls.take(i + 1)) == unlines(ls.take(i)) + ls[i] + seq!['\n'],
    decreases i,
{
    if i == 0 {
        assert(ls.take(1) =~= seq![ls[0]]);
        assert(ls.take(0) =~= Seq::<Seq<char>>::empty());
        assert(seq![ls[0]].drop_first() =~= Seq::<Seq<char>>::empty());
        assert(unlines(seq![ls[0]]) == ls[0] + seq!['\n'] + unlines(Seq::<Seq<char>>::empty()));
        assert(ls[0] + seq!['\n'] + Seq::<char>::empty() =~= Seq::<char>::empty() + ls[0]
            + seq!['\n']);
    } else {
        let tl = ls.drop_first();
        lemma_unlines_take_step(tl, i - 1);
        assert(ls.take(i + 1).drop_first() =~= tl.take(i));
        assert(ls.take(i).drop_first() =~= tl.take(i - 1));
        assert(ls.take(i + 1)[0] == ls[0]);
        assert(ls.take(i)[0] == ls[0]);
        assert(unlines(ls.take(i + 1)) == ls[0] + seq!['\n'] + unlines(tl.take(i)));
        assert(unlines(ls.take(i)) == ls[0] + seq!['\n'] + unlines(tl.take(i - 1)));
        assert(tl[i - 1] == ls[i]);
        assert(ls[0] + seq!['\n'] + (unlines(tl.take(i - 1)) + tl[i - 1] + seq!['\n']) =~= (ls[0]
            + seq!['\n'] + unlines(tl.take(i - 1))) + ls[i] + seq!['\n']);
    }
}

/// A line that splitting will give back unchanged: it holds no newline
/// and does not end in a carriage return (which splitting would strip).
pub open spec fn line_clean(l: Seq<char>) -> bool {
    (forall|j: int| 0 <= j < l.len() ==> l[j] != '\n') && !(l.len() > 0 && l.last() == '\r')
}

/// Lines produced by splitting never contain a newline.
pub proof fn lemma_spec_lines_no_newline(s: Seq<char>)
    ensures
        forall|i: int, j: int|
            0 <= i < spec_lines(s).len() && 0 <= j < spec_lines(s)[i].len() ==> spec_lines(
                s,
            )[i][j] != '\n',
    decreases s.len(),
{
    if s.len() > 0 {
        let k = find_from(s, 0, '\n');
        crate::text::lemma_find_from_props(s, 0, '\n');
        if 0 <= k < s.len() {
            let rest = s.subrange(k + 1, s.len() as int);
            lemma_spec_lines_no_newline(rest);
            let head = strip_trailing_cr(s.subrange(0, k));
            assert(forall|j: int| 0 <= j < head.len() ==> head[j] == s[j]);
            assert(forall|i: int, j: int|
                1 <= i < spec_lines(s).len() && 0 <= j < spec_lines(s)[i].len() ==> spec_lines(
                    s,
                )[i][j] == spec_lines(rest)[i - 1][j]);
        }
    }
}

/// Splitting the joined lines gives the lines back, provided each one is
/// clean in the sense of `line_clean`.
pub proof fn lemma_lines_unlines(ls: Seq<Seq<char>>)
    requires
        forall|i: int| 0 <= i < ls.len() ==> line_clean(#[trigger] ls[i]),
    ensures
        spec_lines(unlines(ls)) == ls,
    decreases ls.len(),
{
    if ls.len() == 0 {
        assert(spec_lines(unlines(ls)) =~= ls);
    } else {
        let tl = ls.drop_first();
        let u = unlines(ls);
        let h = ls[0];
        assert(line_clean(h));
        assert(u == h + seq!['\n'] + unlines(tl));
        assert(u[h.len() as int] == '\n');
        assert(forall|j: int| 0 <= j < h.len() ==> u[j] == h[j]);
        lemma_find_from_is(u, 0, '\n', h.len() as int);
        assert(u.subrange(0, h.len() as int) =~= h);
        assert(strip_trailing_cr(h) == h);
        assert(u.subrange(h.len() as int + 1, u.len() as int) =~= unlines(tl));
        assert(forall|i: int| 0 <= i < tl.len() ==> line_clean(#[trigger] tl[i])) by {
            assert(forall|i: int| 0 <= i < tl.len() ==> tl[i] == ls[i + 1]);
        }
        lemma_lines_unlines(tl);
        assert(spec_lines(u) =~= ls);
    }
}

/// Every character of a decimal rendering is a digit; in particular the
/// rendering is clean and non-empty.
pub proof fn lemma_dec_chars_clean(n: nat)
    ensures
        dec_chars(n).len() > 0,
        forall|j: int|
            0 <= j < dec_chars(n).len() ==> #[trigger] dec_chars(n)[j] != '\n' && dec_chars(
                n,
            )[j] != '\r',
    decreases n,
{
    if n >= 10 {
        lemma_dec_chars_clean(n / 10);
    }
}

/// As `lemma_dec_chars_clean`, for the hexadecimal rendering.
pub proof fn lemma_hex_chars_clean(n: nat)
    ensures
        hex_chars(n).len() > 0,
        forall|j: int|
            0 <= j < hex_chars(n).len() ==> #[trigger] hex_chars(n)[j] != '\n' && hex_chars(
                n,
            )[j] != '\r',
    decreases n,
{
    if n >= 16 {
        lemma_hex_chars_clean(n / 16);
    }
}

/// The canonical replacement line is clean: splitting the rewritten
/// script will give it back exactly.
pub proof fn lemma_canonical_clean(origin: u64, length: u64)
    ensures
        line_clean(canonical_ram_line(origin, length)),
{
    let lit1 = "  RAM : ORIGIN = 0x"@;
    let lit2 = ", LENGTH = "@;
    assert(lit1 =~= seq![
        ' ', ' ', 'R', 'A', 'M', ' ', ':', ' ', 'O', 'R', 'I', 'G', 'I', 'N', ' ', '=', ' ', '0',
        'x',
    ]) by {
        reveal_strlit("  RAM : ORIGIN = 0x");
    }
    assert(lit2 =~= seq![',', ' ', 'L', 'E', 'N', 'G', 'T', 'H', ' ', '=', ' ']) by {
        reveal_strlit(", LENGTH = ");
    }
    lemma_hex_chars_clean(origin as nat);
    lemma_dec_chars_clean(length as nat);
    let hx = hex_chars(origin as nat);
    let dc = dec_chars(length as nat);
    let c = canonical_ram_line(origin, length);
    assert(c == lit1 + hx + lit2 + dc);
    assert forall|j: int| 0 <= j < c.len() implies c[j] != '\n' by {
        if j < lit1.len() {
            assert(c[j] == lit1[j]);
        } else if j < lit1.len() + hx.len() {
            assert(c[j] == hx[j - lit1.len()]);
        } else if j < lit1.len() + hx.len() + lit2.len() {
            assert(c[j] == lit2[j - lit1.len() - hx.len()]);
        } else {
            assert(c[j] == dc[j - lit1.len() - hx.len() - lit2.len()]);
        }
    }
    assert(c.last() == dc.last());
}

/// Rewriting touches exactly one line: splitting the rewritten script
/// yields the lines of the original with only the line at `index`
/// replaced by the canonical declaration.  Lines ending in a stray
/// carriage return (not part of a line ending) are excluded, since
/// splitting would strip that character again.
pub proof fn lemma_rewrite_replaces_one_line(s: Seq<char>, index: int, w: RamWindow)
    requires
        0 <= index < spec_lines(s).len(),
        forall|j: int|
            0 <= j < spec_lines(s).len() && j != index ==> !(#[trigger] spec_lines(s)[j].len() > 0
                && spec_lines(s)[j].last() == '\r'),
    ensures
        spec_lines(rewrite_spec(s, index, w)) == spec_lines(s).update(
            index,
            canonical_ram_line(w.new_origin, w.new_length),
        ),
{
    let l2 = spec_lines(s).update(index, canonical_ram_line(w.new_origin, w.new_length));
    lemma_spec_lines_no_newline(s);
    lemma_canonical_clean(w.new_origin, w.new_length);
    assert(forall|i: int| 0 <= i < l2.len() ==> line_clean(#[trigger] l2[i])) by {
        assert(forall|i: int| 0 <= i < l2.len() && i != index ==> l2[i] == spec_lines(s)[i]);
    }
    lemma_lines_unlines(l2);
}

/// Emits a copy of the script with only the line at `index` replaced by
/// the canonical declaration of the window `w`.  All other lines,
/// comments included, pass through unchanged.
pub fn rewrite_linker_script(s: &str, index: usize, w: RamWindow) -> (r: String)
    requires
        (index as int) < spec_lines(s@).len(),
    ensures
        r@ == rewrite_spec(s@, index as int, w),
{
    let v = to_chars(s);
    let lines = split_lines(&v);
    let ghost l2 = spec_lines(s@).update(
        index as int,
        canonical_ram_line(w.new_origin, w.new_length),
    );
    let n = lines.len();
    let mut out: Vec<char> = Vec::new();
    let mut i: usize = 0;
    while i < n
        invariant
            n == lines@.len(),
            views_of(lines@) == spec_lines(s@),
            (index as int) < n,
            l2 == spec_lines(s@).update(
                index as int,
                canonical_ram_line(w.new_origin, w.new_length),
            ),
            0 <= i <= n,
            out@ == unlines(l2.take(i as int)),
        decreases n - i,
    {
        let ghost before = out@;
        if i == index {
            push_canonical(&mut out, w.new_origin, w.new_length);
        } else {
            proof {
                assert(lines@[i as int]@ == l2[i as int]);
            }
            append_chars(&mut out, &lines[i]);
        }
        out.push('\n');
        proof {
            lemma_unlines_take_step(l2, i as int);
            assert(out@ =~= before + l2[i as int] + seq!['\n']);
        }
        i = i + 1;
    }
    proof {
        assert(l2.take(n as int) =~= l2);
    }
    chars_to_string(&out)
}

} // verus!
