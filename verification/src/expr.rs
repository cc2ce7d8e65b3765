//! Evaluator for linker-script numeric expressions.
//!
//! The grammar is the subset that `MEMORY` declarations use: hexadecimal
//! (`0x`-prefixed) and decimal literals, an optional `K`/`M`/`G` unit
//! suffix attached to a literal (multiplying it by 1024, 1024² or 1024³),
//! the binary operators `+` and `-` applied left to right, and
//! parenthesized sub-expressions.  Intermediate values are signed 64-bit,
//! so `(ORIGIN + 1K) - 512` evaluates correctly even though the
//! subtraction would underflow in unsigned order; only the final result is
//! cast to unsigned.  Anything else — an unknown token, an unbalanced
//! parenthesis, a value outside the signed 64-bit range — is a malformed
//! expression.

use vstd::prelude::*;

use crate::Error;
use crate::text::{skip_spaces, skip_ws, to_chars};

verus! {

pub open spec fn is_dec_digit(c: char) -> bool {
    '0' <= c && c <= '9'
}

pub open spec fn is_hex_digit(c: char) -> bool {
    is_dec_digit(c) || ('a' <= c && c <= 'f') || ('A' <= c && c <= 'F')
}

pub open spec fn digit_ok(c: char, hex: bool) -> bool {
    if hex {
        is_hex_digit(c)
    } else {
        is_dec_digit(c)
    }
}

/// Numeric value of a digit character.
pub open spec fn digit_val(c: char) -> int {
    if is_dec_digit(c) {
        c as int - '0' as int
    } else if 'a' <= c && c <= 'f' {
        c as int - 'a' as int + 10
    } else if 'A' <= c && c <= 'F' {
        c as int - 'A' as int + 10
    } else {
        0
    }
}

pub open spec fn is_unit(c: char) -> bool {
    c == 'K' || c == 'M' || c == 'G'
}

pub open spec fn unit_multiplier(c: char) -> int {
    if c == 'K' {
        1024
    } else if c == 'M' {
        1048576
    } else if c == 'G' {
        1073741824
    } else {
        1
    }
}

/// Accumulates digits of a literal from position `i` into `acc`.  Returns
/// the value and the position just past the last digit, or `None` when the
/// value leaves the signed 64-bit range.
pub open spec fn scan_digits(s: Seq<char>, i: int, hex: bool, acc: int) -> Option<(int, int)>
    decreases s.len() - i,
{
    if 0 <= i < s.len() && digit_ok(s[i], hex) {
        let base: int = if hex {
            16
        } else {
            10
        };
        let acc2 = acc * base + digit_val(s[i]);
        if acc2 > i64::MAX as int {
            None
        } else {
            scan_digits(s, i + 1, hex, acc2)
        }
    } else {
        Some((acc, i))
    }
}

/// A literal at position `i`: `0x` followed by hex digits, or decimal
/// digits.  No leading whitespace is skipped here.
pub open spec fn parse_literal(s: Seq<char>, i: int) -> Option<(int, int)> {
    if 0 <= i && i + 2 < s.len() && s[i] == '0' && (s[i + 1] == 'x' || s[i + 1] == 'X')
        && is_hex_digit(s[i + 2]) {
        scan_digits(s, i + 2, true, 0)
    } else if 0 <= i < s.len() && is_dec_digit(s[i]) {
        scan_digits(s, i, false, 0)
    } else {
        None
    }
}

/// A term: a literal with an optional unit suffix, or a parenthesized
/// sub-expression.  Leading whitespace is skipped.
pub open spec fn parse_term(s: Seq<char>, i: int) -> Option<(int, int)>
    decreases s.len() - i, 0int,
{
    let k = skip_spaces(s, i);
    if !(i <= k < s.len()) {
        None
    } else if s[k] == '(' {
        match parse_expr(s, k + 1) {
            None => None,
            Some((v, j)) => {
                let m = skip_spaces(s, j);
                if j <= m < s.len() && s[m] == ')' {
                    Some((v, m + 1))
                } else {
                    None
                }
            },
        }
    } else {
        match parse_literal(s, k) {
            None => None,
            Some((v, j)) => {
                if 0 <= j < s.len() && is_unit(s[j]) {
                    let v2 = v * unit_multiplier(s[j]);
                    if v2 > i64::MAX as int {
                        None
                    } else {
                        Some((v2, j + 1))
                    }
                } else {
                    Some((v, j))
                }
            },
        }
    }
}

/// The terms after the first, combined left to right with `+` and `-`.
/// Stops (successfully) at the first character that is not an operator;
/// the caller decides whether that ends the expression.
pub open spec fn parse_expr_rest(s: Seq<char>, i: int, acc: int) -> Option<(int, int)>
    decreases s.len() - i, 1int,
{
    let k = skip_spaces(s, i);
    if !(i <= k) {
        None
    } else if k >= s.len() {
        Some((acc, k))
    } else if s[k] == '+' || s[k] == '-' {
        match parse_term(s, k + 1) {
            None => None,
            Some((v, j)) => {
                let acc2 = if s[k] == '+' {
                    acc + v
                } else {
                    acc - v
                };
                if acc2 > i64::MAX as int || acc2 < i64::MIN as int {
                    None
                } else if j <= k || j > s.len() {
                    None
                } else {
                    parse_expr_rest(s, j, acc2)
                }
            },
        }
    } else {
        Some((acc, k))
    }
}

/// A full expression: a term followed by `+`/`-` continuations.
pub open spec fn parse_expr(s: Seq<char>, i: int) -> Option<(int, int)>
    decreases s.len() - i, 2int,
{
    match parse_term(s, i) {
        None => None,
        Some((v, j)) => {
            if j < i || j > s.len() {
                None
            } else {
                parse_expr_rest(s, j, v)
            }
        },
    }
}

/// Two's-complement reading of a signed 64-bit value as unsigned.
pub open spec fn to_u64(v: int) -> u64 {
    if v >= 0 {
        v as u64
    } else {
        (v + 0x10000000000000000) as u64
    }
}

/// The value of a whole expression string, if it is well formed: the
/// parsed value, cast to unsigned, provided parsing consumed every
/// character.
pub open spec fn eval_expr(s: Seq<char>) -> Option<u64> {
    match parse_expr(s, 0) {
        None => None,
        Some((v, j)) => {
            if j == s.len() {
                Some(to_u64(v))
            } else {
                None
            }
        },
    }
}

/// `int` image of an executable parse result.
pub open spec fn parse_view(r: Option<(i64, usize)>) -> Option<(int, int)> {
    match r {
        None => None,
        Some((v, j)) => Some((v as int, j as int)),
    }
}

fn digit_value(c: char, hex: bool) -> (r: Option<u32>)
    ensures
        r is Some <==> digit_ok(c, hex),
        r matches Some(d) ==> d == digit_val(c) && d < 16,
{
    if '0' <= c && c <= '9' {
        Some(c as u32 - '0' as u32)
    } else if hex && 'a' <= c && c <= 'f' {
        Some(c as u32 - 'a' as u32 + 10)
    } else if hex && 'A' <= c && c <= 'F' {
        Some(c as u32 - 'A' as u32 + 10)
    } else {
        None
    }
}

fn scan_digits_exec(v: &Vec<char>, start: usize, hex: bool) -> (r: Option<(i64, usize)>)
    requires
        start <= v@.len(),
    ensures
        parse_view(r) == scan_digits(v@, start as int, hex, 0),
        r matches Some(p) ==> start <= p.1 <= v@.len() && p.0 >= 0,
{
    let base: i128 = if hex {
        16
    } else {
        10
    };
    let mut i: usize = start;
    let mut acc: i64 = 0;
    loop
        invariant
            start <= i <= v@.len(),
            0 <= acc,
            hex ==> base == 16,
            !hex ==> base == 10,
            scan_digits(v@, start as int, hex, 0) == scan_digits(v@, i as int, hex, acc as int),
        decreases v@.len() - i,
    {
        if i >= v.len() {
            return Some((acc, i));
        }
        match digit_value(v[i], hex) {
            None => {
                return Some((acc, i));
            },
            Some(d) => {
                let a2: i128 = acc as i128 * base + d as i128;
                if a2 > i64::MAX as i128 {
                    return None;
                }
                acc = a2 as i64;
                i = i + 1;
            },
        }
    }
}

fn parse_literal_exec(v: &Vec<char>, i: usize) -> (r: Option<(i64, usize)>)
    requires
        i <= v@.len(),
    ensures
        parse_view(r) == parse_literal(v@, i as int),
        r matches Some(p) ==> i <= p.1 <= v@.len() && p.0 >= 0,
{
    if i < v.len() && v[i] == '0' && i + 1 < v.len() && (v[i + 1] == 'x' || v[i + 1] == 'X') && i
        + 2 < v.len() && matches!(digit_value(v[i + 2], true), Some(_)) {
        scan_digits_exec(v, i + 2, true)
    } else if i < v.len() && matches!(digit_value(v[i], false), Some(_)) {
        scan_digits_exec(v, i, false)
    } else {
        None
    }
}

fn unit_mult(c: char) -> (r: i64)
    ensures
        r == unit_multiplier(c),
        1 <= r <= 1073741824,
{
    if c == 'K' {
        1024
    } else if c == 'M' {
        1048576
    } else if c == 'G' {
        1073741824
    } else {
        1
    }
}

fn parse_term_exec(v: &Vec<char>, i: usize) -> (r: Option<(i64, usize)>)
    requires
        i <= v@.len(),
    ensures
        parse_view(r) == parse_term(v@, i as int),
        r matches Some(p) ==> i <= p.1 <= v@.len(),
    decreases v@.len() - i, 0int,
{
    let k = skip_ws(v, i);
    if k >= v.len() {
        return None;
    }
    if v[k] == '(' {
        match parse_expr_exec(v, k + 1) {
            None => None,
            Some((val, j)) => {
                let m = skip_ws(v, j);
                if m < v.len() && v[m] == ')' {
                    Some((val, m + 1))
                } else {
                    None
                }
            },
        }
    } else {
        match parse_literal_exec(v, k) {
            None => None,
            Some((val, j)) => {
                if j < v.len() && (v[j] == 'K' || v[j] == 'M' || v[j] == 'G') {
                    let m = unit_mult(v[j]);
                    proof {
                        assert(0 <= val as int * m as int <= 0x7fffffffffffffffint
                            * 0x40000000int) by (nonlinear_arith)
                            requires
                                0 <= val as int <= 0x7fffffffffffffffint,
                                1 <= m as int <= 0x40000000int,
                        ;
                    }
                    let p: i128 = val as i128 * m as i128;
                    if p > i64::MAX as i128 {
                        None
                    } else {
                        Some((p as i64, j + 1))
                    }
                } else {
                    Some((val, j))
                }
            },
        }
    }
}

fn parse_expr_exec(v: &Vec<char>, i: usize) -> (r: Option<(i64, usize)>)
    requires
        i <= v@.len(),
    ensures
        parse_view(r) == parse_expr(v@, i as int),
        r matches Some(p) ==> i <= p.1 <= v@.len(),
    decreases v@.len() - i, 2int,
{
    let first = parse_term_exec(v, i);
    match first {
        None => None,
        Some((val, j)) => {
            let mut acc: i64 = val;
            let mut pos: usize = j;
            loop
                invariant
                    i <= j <= pos <= v@.len(),
                    parse_expr_rest(v@, pos as int, acc as int) == parse_expr_rest(
                        v@,
                        j as int,
                        val as int,
                    ),
                    parse_expr(v@, i as int) == parse_expr_rest(v@, j as int, val as int),
                decreases v@.len() - pos,
            {
                let k = skip_ws(v, pos);
                if k >= v.len() {
                    return Some((acc, k));
                }
                if v[k] == '+' || v[k] == '-' {
                    match parse_term_exec(v, k + 1) {
                        None => {
                            return None;
                        },
                        Some((tv, tj)) => {
                            let a2: i128 = if v[k] == '+' {
                                acc as i128 + tv as i128
                            } else {
                                acc as i128 - tv as i128
                            };
                            if a2 > i64::MAX as i128 || a2 < i64::MIN as i128 {
                                return None;
                            }
                            acc = a2 as i64;
                            pos = tj;
                        },
                    }
                } else {
                    return Some((acc, k));
                }
            }
        },
    }
}

/// Evaluates a linker-script numeric expression to an unsigned 64-bit
/// value, or reports it malformed.  The region parser treats the failure
/// as "this line did not match" rather than a fatal error.
pub fn evaluate_expression(s: &str) -> (r: Result<u64, Error>)
    ensures
        r matches Ok(u) ==> eval_expr(s@) == Some(u),
        r is Err ==> eval_expr(s@) is None && r == Err::<u64, Error>(Error::MalformedExpression),
{
    let v = to_chars(s);
    evaluate_expression_chars(&v)
}

/// As `evaluate_expression`, over a character vector.
pub fn evaluate_expression_chars(v: &Vec<char>) -> (r: Result<u64, Error>)
    ensures
        r matches Ok(u) ==> eval_expr(v@) == Some(u),
        r is Err ==> eval_expr(v@) is None && r == Err::<u64, Error>(Error::MalformedExpression),
{
    match parse_expr_exec(v, 0) {
        None => Err(Error::MalformedExpression),
        Some((val, j)) => {
            if j == v.len() {
                let r: u64 = if val >= 0 {
                    val as u64
                } else {
                    ((val as i128) + 0x10000000000000000i128) as u64
                };
                Ok(r)
            } else {
                Err(Error::MalformedExpression)
            }
        },
    }
}

} // verus!
