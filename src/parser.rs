use vstd::prelude::*;

use crate::chars_of;
use crate::glyphs::{
    digit_of_glyph, glyph_digit, hundred_glyph_test, is_hundred_glyph, is_magnitude_glyph,
    is_ten_glyph, is_thousand_glyph, is_zero_glyph, magnitude_glyph_test, ten_glyph_test,
    thousand_glyph_test, zero_glyph_test, HUNDRED_MILLION_GLYPH, TEN_THOUSAND_GLYPH,
};
use crate::Number;

verus! {

// The grammar. Each rule reads `s` from position `i` and, where it matches,
// gives the value it read and the position just after it.

/// The first position at or after `i` that does not hold a zero glyph.
pub open spec fn zeros_end(s: Seq<char>, i: int) -> int
    decreases s.len() - i,
{
    if 0 <= i < s.len() && is_zero_glyph(s[i]) {
        zeros_end(s, i + 1)
    } else {
        i
    }
}

pub open spec fn digit_at(s: Seq<char>, i: int) -> Option<int> {
    if 0 <= i < s.len() {
        glyph_digit(s[i])
    } else {
        None
    }
}

pub open spec fn holds_at(s: Seq<char>, i: int, c: char) -> bool {
    0 <= i < s.len() && s[i] == c
}

/// One digit: a run of zero glyphs, then a digit glyph one to nine.
/// A run of zeros with no digit glyph after it reads as `d`.
pub open spec fn one_num(s: Seq<char>, i: int, d: int) -> Option<(int, int)> {
    let j = zeros_end(s, i);
    match digit_at(s, j) {
        Some(v) => Some((v, j + 1)),
        None => if j > i {
            Some((d, j))
        } else {
            None
        },
    }
}

/// A digit, then a thousand glyph.
pub open spec fn thousands_term(s: Seq<char>, i: int) -> Option<(int, int)> {
    match one_num(s, i, 0) {
        Some((n, p)) => if 0 <= p < s.len() && is_thousand_glyph(s[p]) {
            Some((1000 * n, p + 1))
        } else {
            None
        },
        None => None,
    }
}

/// A digit, then a hundred glyph.
pub open spec fn hundreds_term(s: Seq<char>, i: int) -> Option<(int, int)> {
    match one_num(s, i, 0) {
        Some((n, p)) => if 0 <= p < s.len() && is_hundred_glyph(s[p]) {
            Some((100 * n, p + 1))
        } else {
            None
        },
        None => None,
    }
}

/// A ten glyph, with the digit before it optional (one where it is left out).
pub open spec fn tens_term(s: Seq<char>, i: int) -> Option<(int, int)> {
    match one_num(s, i, 1) {
        Some((n, p)) => if 0 <= p < s.len() && is_ten_glyph(s[p]) {
            Some((10 * n, p + 1))
        } else {
            None
        },
        None => if 0 <= i < s.len() && is_ten_glyph(s[i]) {
            Some((10, i + 1))
        } else {
            None
        },
    }
}

pub open spec fn end_or(t: Option<(int, int)>, i: int) -> int {
    match t {
        Some((_, e)) => e,
        None => i,
    }
}

pub open spec fn value_or_zero(t: Option<(int, int)>) -> int {
    match t {
        Some((v, _)) => v,
        None => 0,
    }
}

/// A group below ten thousand: optional thousands, hundreds, tens and units
/// terms in that order, at least one of them present, summed.
#[verifier::opaque]
pub open spec fn k_number(s: Seq<char>, i: int) -> Option<(int, int)> {
    let a = thousands_term(s, i);
    let p1 = end_or(a, i);
    let b = hundreds_term(s, p1);
    let p2 = end_or(b, p1);
    let c = tens_term(s, p2);
    let p3 = end_or(c, p2);
    let d = one_num(s, p3, 0);
    let p4 = end_or(d, p3);
    if a is None && b is None && c is None && d is None {
        None
    } else {
        Some((value_or_zero(a) + value_or_zero(b) + value_or_zero(c) + value_or_zero(d), p4))
    }
}

/// A group below a hundred million: a group, then optionally the ten-thousand
/// glyph and a second group (zero where it is left out).
pub open spec fn wan_number(s: Seq<char>, i: int) -> Option<(int, int)> {
    match k_number(s, i) {
        Some((w, p)) => if holds_at(s, p, TEN_THOUSAND_GLYPH) {
            match k_number(s, p + 1) {
                Some((n, q)) => Some((w * 10000 + n, q)),
                None => Some((w * 10000, p + 1)),
            }
        } else {
            Some((w, p))
        },
        None => None,
    }
}

/// What follows the first group of a number: each hundred-million glyph,
/// with the group after it (zero where it is left out), shifts the value
/// read so far, `acc`, eight decimal places up and adds that group.
pub open spec fn yi_tail(s: Seq<char>, acc: int, p: int) -> (int, int)
    decreases s.len() - p,
{
    if holds_at(s, p, HUNDRED_MILLION_GLYPH) {
        match wan_number(s, p + 1) {
            Some((n, q)) => {
                proof {
                    lemma_wan_number_bounds(s, p + 1);
                }
                yi_tail(s, acc * 100000000 + n, q)
            },
            None => yi_tail(s, acc * 100000000, p + 1),
        }
    } else {
        (acc, p)
    }
}

/// A whole numeral written in glyphs.
pub open spec fn yi_number(s: Seq<char>, i: int) -> Option<(int, int)> {
    match wan_number(s, i) {
        Some((w, p)) => Some(yi_tail(s, w, p)),
        None => None,
    }
}

pub open spec fn is_ascii_digit(c: char) -> bool {
    '0' <= c <= '9'
}

/// The first position at or after `i` that does not hold an ASCII digit.
pub open spec fn ascii_digits_end(s: Seq<char>, i: int) -> int
    decreases s.len() - i,
{
    if 0 <= i < s.len() && is_ascii_digit(s[i]) {
        ascii_digits_end(s, i + 1)
    } else {
        i
    }
}

/// The value of the ASCII decimal digits in `s[i..j]`.
pub open spec fn decimal_value(s: Seq<char>, i: int, j: int) -> int
    decreases j - i,
{
    if j <= i {
        0
    } else {
        decimal_value(s, i, j - 1) * 10 + (s[j - 1] as int - '0' as int)
    }
}

/// A number: a run of ASCII digits, or else a numeral written in glyphs.
pub open spec fn raw_number(s: Seq<char>, i: int) -> Option<(int, int)> {
    if 0 <= i < s.len() && is_ascii_digit(s[i]) {
        let e = ascii_digits_end(s, i);
        Some((decimal_value(s, i, e), e))
    } else {
        yi_number(s, i)
    }
}

/// The digit a glyph stands for when numerals are read digit by digit:
/// zero glyphs are 0, magnitude glyphs 1, digit glyphs their value.
pub open spec fn hard_digit(c: char) -> Option<int> {
    if is_zero_glyph(c) {
        Some(0)
    } else if is_magnitude_glyph(c) {
        Some(1)
    } else {
        glyph_digit(c)
    }
}

/// The first position at or after `i` that holds no glyph read digit by digit.
pub open spec fn hard_end(s: Seq<char>, i: int) -> int
    decreases s.len() - i,
{
    if 0 <= i < s.len() && hard_digit(s[i]) is Some {
        hard_end(s, i + 1)
    } else {
        i
    }
}

/// The value of `s[i..j]` read digit by digit.
pub open spec fn hard_value(s: Seq<char>, i: int, j: int) -> int
    decreases j - i,
{
    if j <= i {
        0
    } else {
        hard_value(s, i, j - 1) * 10 + hard_digit(s[j - 1])->0
    }
}

/// A numeral read digit by digit: one or more glyphs, each one decimal digit.
pub open spec fn hard_digits(s: Seq<char>, i: int) -> Option<(int, int)> {
    let e = hard_end(s, i);
    if e > i {
        Some((hard_value(s, i, e), e))
    } else {
        None
    }
}

/// What was expected where reading a numeral failed.
#[derive(Clone, Copy, Debug, PartialEq, Eq, Hash, Structural)]
pub enum Expected {
    /// The text does not start with a numeral: an ASCII digit, a digit glyph,
    /// a zero glyph or a ten glyph was expected.
    Numeral,
    /// The numeral read is too large for a `Number`.
    ValidNumber,
}

impl Expected {
    /// A short description of what was expected.
    pub fn describe(&self) -> (r: &'static str)
        ensures
            *self == Expected::Numeral ==> r@ == "a numeral"@,
            *self == Expected::ValidNumber ==> r@ == "a number that fits in 64 bits"@,
    {
        match self {
            Expected::Numeral => "a numeral",
            Expected::ValidNumber => "a number that fits in 64 bits",
        }
    }
}

/// Why a numeral could not be read: where (a character offset into the
/// text) and what was expected there.
#[derive(Clone, Copy, Debug, PartialEq, Eq, Hash, Structural)]
pub struct ParseError {
    pub offset: usize,
    pub expected: Expected,
}

/// `v` as a `Number`, where it fits in one.
pub open spec fn capped(v: int) -> Option<u64> {
    if 0 <= v <= u64::MAX {
        Some(v as u64)
    } else {
        None
    }
}

/// What reading `text` gives when the grammar's outcome on its characters
/// is `m`: the value and the rest of the text; an error at offset 0 where
/// nothing matched; an error at the numeral's end where it is too large.
pub open spec fn outcome_of<'a>(
    text: &'a str,
    m: Option<(int, int)>,
    r: Result<(Number, &'a str), ParseError>,
) -> bool {
    match m {
        None => r == Err::<(Number, &'a str), ParseError>(
            ParseError { offset: 0, expected: Expected::Numeral },
        ),
        Some((v, e)) => if 0 <= v <= u64::MAX {
            &&& r is Ok
            &&& r->Ok_0.0 == v
            &&& r->Ok_0.1@ == text@.subrange(e, text@.len() as int)
        } else {
            r == Err::<(Number, &'a str), ParseError>(
                ParseError { offset: e as usize, expected: Expected::ValidNumber },
            )
        },
    }
}

/// A rule's result as read by the executable parser, in the grammar's terms.
pub open spec fn lifted(r: Option<(u64, usize)>) -> Option<(int, int)> {
    match r {
        Some((v, e)) => Some((v as int, e as int)),
        None => None,
    }
}

/// The executable parser's result `r` agrees with the grammar's result `m`,
/// the value held only where it fits in a `Number`.
pub open spec fn lifted_capped(r: Option<(Option<u64>, usize)>, m: Option<(int, int)>) -> bool {
    match m {
        Some((v, e)) => r matches Some((c, f)) && c == capped(v) && f == e,
        None => r is None,
    }
}

pub proof fn lemma_zeros_end(s: Seq<char>, i: int)
    requires
        0 <= i <= s.len(),
    ensures
        i <= zeros_end(s, i) <= s.len(),
        forall|k: int| i <= k < zeros_end(s, i) ==> is_zero_glyph(#[trigger] s[k]),
        zeros_end(s, i) < s.len() ==> !is_zero_glyph(s[zeros_end(s, i)]),
    decreases s.len() - i,
{
    if i < s.len() && is_zero_glyph(s[i]) {
        lemma_zeros_end(s, i + 1);
    }
}

pub proof fn lemma_one_num_bounds(s: Seq<char>, i: int, d: int)
    requires
        0 <= i <= s.len(),
        0 <= d <= 9,
    ensures
        one_num(s, i, d) matches Some((v, e)) ==> 0 <= v <= 9 && i < e <= s.len(),
{
    lemma_zeros_end(s, i);
}

pub proof fn lemma_k_number_bounds(s: Seq<char>, i: int)
    requires
        0 <= i <= s.len(),
    ensures
        k_number(s, i) matches Some((v, e)) ==> 0 <= v <= 9999 && i < e <= s.len(),
{
    reveal(k_number);
    let a = thousands_term(s, i);
    let p1 = end_or(a, i);
    lemma_one_num_bounds(s, i, 0);
    lemma_one_num_bounds(s, p1, 0);
    let b = hundreds_term(s, p1);
    let p2 = end_or(b, p1);
    lemma_one_num_bounds(s, p2, 1);
    let c = tens_term(s, p2);
    let p3 = end_or(c, p2);
    lemma_one_num_bounds(s, p3, 0);
}

pub proof fn lemma_wan_number_bounds(s: Seq<char>, i: int)
    requires
        0 <= i <= s.len(),
    ensures
        wan_number(s, i) matches Some((v, e)) ==> 0 <= v <= 99999999 && i < e <= s.len(),
{
    lemma_k_number_bounds(s, i);
    if let Some((w, p)) = k_number(s, i) {
        if holds_at(s, p, TEN_THOUSAND_GLYPH) {
            lemma_k_number_bounds(s, p + 1);
        }
    }
}

fn read_one_num(s: &Vec<char>, i: usize, d: u64) -> (r: Option<(u64, usize)>)
    requires
        i <= s@.len(),
        d <= 9,
    ensures
        lifted(r) == one_num(s@, i as int, d as int),
{
    let mut j = i;
    while j < s.len() && zero_glyph_test(s[j])
        invariant
            i <= j <= s@.len(),
            zeros_end(s@, j as int) == zeros_end(s@, i as int),
        decreases s@.len() - j,
    {
        j = j + 1;
    }
    if j < s.len() {
        if let Some(v) = digit_of_glyph(s[j]) {
            return Some((v, j + 1));
        }
    }
    if j > i {
        Some((d, j))
    } else {
        None
    }
}

fn read_thousands(s: &Vec<char>, i: usize) -> (r: Option<(u64, usize)>)
    requires
        i <= s@.len(),
    ensures
        lifted(r) == thousands_term(s@, i as int),
{
    proof {
        lemma_one_num_bounds(s@, i as int, 0);
    }
    match read_one_num(s, i, 0) {
        Some((n, p)) => if p < s.len() && thousand_glyph_test(s[p]) {
            Some((1000 * n, p + 1))
        } else {
            None
        },
        None => None,
    }
}

fn read_hundreds(s: &Vec<char>, i: usize) -> (r: Option<(u64, usize)>)
    requires
        i <= s@.len(),
    ensures
        lifted(r) == hundreds_term(s@, i as int),
{
    proof {
        lemma_one_num_bounds(s@, i as int, 0);
    }
    match read_one_num(s, i, 0) {
        Some((n, p)) => if p < s.len() && hundred_glyph_test(s[p]) {
            Some((100 * n, p + 1))
        } else {
            None
        },
        None => None,
    }
}

fn read_tens(s: &Vec<char>, i: usize) -> (r: Option<(u64, usize)>)
    requires
        i <= s@.len(),
    ensures
        lifted(r) == tens_term(s@, i as int),
{
    proof {
        lemma_one_num_bounds(s@, i as int, 1);
    }
    match read_one_num(s, i, 1) {
        Some((n, p)) => if p < s.len() && ten_glyph_test(s[p]) {
            Some((10 * n, p + 1))
        } else {
            None
        },
        None => if i < s.len() && ten_glyph_test(s[i]) {
            Some((10, i + 1))
        } else {
            None
        },
    }
}

fn read_k_number(s: &Vec<char>, i: usize) -> (r: Option<(u64, usize)>)
    requires
        i <= s@.len(),
    ensures
        lifted(r) == k_number(s@, i as int),
{
    proof {
        reveal(k_number);
        lemma_k_number_bounds(s@, i as int);
        lemma_one_num_bounds(s@, i as int, 0);
    }
    let a = read_thousands(s, i);
    let p1 = match a {
        Some((_, e)) => e,
        None => i,
    };
    proof {
        lemma_one_num_bounds(s@, p1 as int, 0);
    }
    let b = read_hundreds(s, p1);
    let p2 = match b {
        Some((_, e)) => e,
        None => p1,
    };
    proof {
        lemma_one_num_bounds(s@, p2 as int, 1);
    }
    let c = read_tens(s, p2);
    let p3 = match c {
        Some((_, e)) => e,
        None => p2,
    };
    proof {
        lemma_one_num_bounds(s@, p3 as int, 0);
    }
    let d = read_one_num(s, p3, 0);
    let p4 = match d {
        Some((_, e)) => e,
        None => p3,
    };
    if a.is_none() && b.is_none() && c.is_none() && d.is_none() {
        return None;
    }
    let mut total: u64 = 0;
    if let Some((v, _)) = a {
        total = total + v;
    }
    if let Some((v, _)) = b {
        total = total + v;
    }
    if let Some((v, _)) = c {
        total = total + v;
    }
    if let Some((v, _)) = d {
        total = total + v;
    }
    Some((total, p4))
}

fn read_wan_number(s: &Vec<char>, i: usize) -> (r: Option<(u64, usize)>)
    requires
        i <= s@.len(),
    ensures
        lifted(r) == wan_number(s@, i as int),
{
    proof {
        lemma_k_number_bounds(s@, i as int);
    }
    match read_k_number(s, i) {
        Some((w, p)) => if p < s.len() && s[p] == TEN_THOUSAND_GLYPH {
            proof {
                lemma_k_number_bounds(s@, p + 1);
            }
            match read_k_number(s, p + 1) {
                Some((n, q)) => Some((w * 10000 + n, q)),
                None => Some((w * 10000, p + 1)),
            }
        } else {
            Some((w, p))
        },
        None => None,
    }
}

fn read_yi_number(s: &Vec<char>, i: usize) -> (r: Option<(Option<u64>, usize)>)
    requires
        i <= s@.len(),
    ensures
        lifted_capped(r, yi_number(s@, i as int)),
        r matches Some((_, e)) ==> e <= s@.len(),
{
    proof {
        lemma_wan_number_bounds(s@, i as int);
    }
    let (w, p0) = match read_wan_number(s, i) {
        Some(x) => x,
        None => {
            return None;
        },
    };
    let mut acc: Option<u64> = Some(w);
    let ghost mut so_far: int = w as int;
    let mut p = p0;
    while p < s.len() && s[p] == HUNDRED_MILLION_GLYPH
        invariant
            p <= s@.len(),
            so_far >= 0,
            acc == capped(so_far),
            yi_tail(s@, so_far, p as int) == yi_tail(s@, w as int, p0 as int),
        decreases s@.len() - p,
    {
        proof {
            lemma_wan_number_bounds(s@, p + 1);
        }
        let n: u64 = match read_wan_number(s, p + 1) {
            Some((n, q)) => {
                p = q;
                n
            },
            None => {
                p = p + 1;
                0
            },
        };
        proof {
            assert(so_far * 100000000 >= so_far) by (nonlinear_arith)
                requires
                    so_far >= 0,
            ;
            so_far = so_far * 100000000 + n;
        }
        acc = match acc {
            Some(a) => match a.checked_mul(100000000) {
                Some(b) => b.checked_add(n),
                None => None,
            },
            None => None,
        };
    }
    Some((acc, p))
}

fn ascii_digit_test(c: char) -> (r: bool)
    ensures
        r == is_ascii_digit(c),
{
    '0' <= c && c <= '9'
}

fn read_ascii_digits(s: &Vec<char>, i: usize) -> (r: (Option<u64>, usize))
    requires
        i <= s@.len(),
    ensures
        r.0 == capped(decimal_value(s@, i as int, ascii_digits_end(s@, i as int))),
        r.1 == ascii_digits_end(s@, i as int),
        r.1 <= s@.len(),
{
    let mut acc: Option<u64> = Some(0);
    let mut j = i;
    while j < s.len() && ascii_digit_test(s[j])
        invariant
            i <= j <= s@.len(),
            ascii_digits_end(s@, j as int) == ascii_digits_end(s@, i as int),
            decimal_value(s@, i as int, j as int) >= 0,
            acc == capped(decimal_value(s@, i as int, j as int)),
        decreases s@.len() - j,
    {
        let ghost so_far = decimal_value(s@, i as int, j as int);
        let digit = (s[j] as u32 - '0' as u32) as u64;
        assert(decimal_value(s@, i as int, j + 1) == so_far * 10 + digit);
        assert(so_far * 10 >= so_far) by (nonlinear_arith)
            requires
                so_far >= 0,
        ;
        acc = match acc {
            Some(a) => match a.checked_mul(10) {
                Some(b) => b.checked_add(digit),
                None => None,
            },
            None => None,
        };
        j = j + 1;
    }
    (acc, j)
}

fn read_raw_number(s: &Vec<char>, i: usize) -> (r: Option<(Option<u64>, usize)>)
    requires
        i <= s@.len(),
    ensures
        lifted_capped(r, raw_number(s@, i as int)),
        r matches Some((_, e)) ==> e <= s@.len(),
{
    if i < s.len() && ascii_digit_test(s[i]) {
        Some(read_ascii_digits(s, i))
    } else {
        read_yi_number(s, i)
    }
}

fn read_hard_digits(s: &Vec<char>, i: usize) -> (r: Option<(Option<u64>, usize)>)
    requires
        i <= s@.len(),
    ensures
        lifted_capped(r, hard_digits(s@, i as int)),
        r matches Some((_, e)) ==> e <= s@.len(),
{
    let mut acc: Option<u64> = Some(0);
    let mut j = i;
    while j < s.len() && hard_digit_of(s[j]).is_some()
        invariant
            i <= j <= s@.len(),
            hard_end(s@, j as int) == hard_end(s@, i as int),
            hard_value(s@, i as int, j as int) >= 0,
            acc == capped(hard_value(s@, i as int, j as int)),
        decreases s@.len() - j,
    {
        let ghost so_far = hard_value(s@, i as int, j as int);
        let digit = match hard_digit_of(s[j]) {
            Some(d) => d,
            None => 0,
        };
        assert(hard_value(s@, i as int, j + 1) == so_far * 10 + digit);
        assert(so_far * 10 >= so_far) by (nonlinear_arith)
            requires
                so_far >= 0,
        ;
        acc = match acc {
            Some(a) => match a.checked_mul(10) {
                Some(b) => b.checked_add(digit),
                None => None,
            },
            None => None,
        };
        j = j + 1;
    }
    if j > i {
        Some((acc, j))
    } else {
        None
    }
}

fn hard_digit_of(c: char) -> (r: Option<u64>)
    ensures
        match hard_digit(c) {
            Some(d) => r == Some(d as u64),
            None => r is None,
        },
{
    if zero_glyph_test(c) {
        Some(0)
    } else if magnitude_glyph_test(c) {
        Some(1)
    } else {
        digit_of_glyph(c)
    }
}

/// Reads the numeral at the start of `text`: a run of ASCII digits, or a
/// numeral written in glyphs with its magnitudes. Gives its value and the
/// text after it, whatever that text holds.
pub fn number(text: &str) -> (r: Result<(Number, &str), ParseError>)
    ensures
        outcome_of(text, raw_number(text@, 0), r),
{
    let s = chars_of(text);
    match read_raw_number(&s, 0) {
        None => Err(ParseError { offset: 0, expected: Expected::Numeral }),
        Some((Some(v), e)) => {
            let rest = text.substring_char(e, s.len());
            let r: Result<(Number, &str), ParseError> = Ok((v, rest));
            r
        },
        Some((None, e)) => Err(ParseError { offset: e, expected: Expected::ValidNumber }),
    }
}

/// Reads the glyphs at the start of `text` one decimal digit each (zero
/// glyphs 0, magnitude glyphs 1, digit glyphs their value). Gives the value
/// of those digits and the text after them.
pub fn hard_number(text: &str) -> (r: Result<(Number, &str), ParseError>)
    ensures
        outcome_of(text, hard_digits(text@, 0), r),
{
    let s = chars_of(text);
    match read_hard_digits(&s, 0) {
        None => Err(ParseError { offset: 0, expected: Expected::Numeral }),
        Some((Some(v), e)) => Ok((v, text.substring_char(e, s.len()))),
        Some((None, e)) => Err(ParseError { offset: e, expected: Expected::ValidNumber }),
    }
}

} // verus!
