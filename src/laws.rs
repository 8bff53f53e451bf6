use vstd::prelude::*;

use crate::format::{digit_step, group_from, pow10, render, zh_text, Spacing};
use crate::glyphs::{
    glyph_digit, is_hundred_glyph, is_ten_glyph, is_thousand_glyph, is_zero_glyph, GlyphSet,
    HUNDRED_MILLION_GLYPH, TEN_THOUSAND_GLYPH, ZERO_GLYPH,
};
use crate::parser::{
    end_or, hard_digit, hard_digits, hard_end, hundreds_term, lemma_zeros_end, is_ascii_digit, k_number, value_or_zero, one_num, raw_number, tens_term, thousands_term,
    wan_number, yi_number, yi_tail, zeros_end,
};

verus! {

/// `t` stands in `s` from position `p` on.
pub open spec fn occurs_at(s: Seq<char>, p: int, t: Seq<char>) -> bool {
    0 <= p && p + t.len() <= s.len() && s.subrange(p, p + t.len()) == t
}

/// At position `e` the text ends or a ten-thousand or hundred-million glyph stands.
pub open spec fn group_boundary(s: Seq<char>, e: int) -> bool {
    e == s.len() || (0 <= e < s.len() && (s[e] == TEN_THOUSAND_GLYPH || s[e]
        == HUNDRED_MILLION_GLYPH))
}

/// At position `e` the text ends or a hundred-million glyph stands.
pub open spec fn segment_boundary(s: Seq<char>, e: int) -> bool {
    e == s.len() || (0 <= e < s.len() && s[e] == HUNDRED_MILLION_GLYPH)
}

proof fn lemma_occurs_split(s: Seq<char>, p: int, a: Seq<char>, b: Seq<char>)
    requires
        occurs_at(s, p, a + b),
    ensures
        occurs_at(s, p, a),
        occurs_at(s, p + a.len(), b),
{
    let whole = s.subrange(p, p + (a + b).len());
    assert(s.subrange(p, p + a.len()) =~= whole.subrange(0, a.len() as int));
    assert(whole.subrange(0, a.len() as int) =~= a);
    assert(s.subrange(p + a.len(), p + a.len() + b.len()) =~= whole.subrange(
        a.len() as int,
        (a + b).len() as int,
    ));
    assert(whole.subrange(a.len() as int, (a + b).len() as int) =~= b);
}

proof fn lemma_glyph_classes(set: GlyphSet, d: int, k: int)
    requires
        1 <= d <= 9,
        1 <= k <= 3,
    ensures
        glyph_digit(set.spec_digit(d)) == Some(d),
        !is_zero_glyph(set.spec_digit(d)),
        glyph_digit(set.spec_magnitude(k)) is None,
        !is_zero_glyph(set.spec_magnitude(k)),
        is_thousand_glyph(set.spec_magnitude(k)) == (k == 3),
        is_hundred_glyph(set.spec_magnitude(k)) == (k == 2),
        is_ten_glyph(set.spec_magnitude(k)) == (k == 1),
        is_zero_glyph(ZERO_GLYPH),
        glyph_digit(TEN_THOUSAND_GLYPH) is None,
        glyph_digit(HUNDRED_MILLION_GLYPH) is None,
        !is_zero_glyph(TEN_THOUSAND_GLYPH),
        !is_zero_glyph(HUNDRED_MILLION_GLYPH),
        !is_thousand_glyph(TEN_THOUSAND_GLYPH) && !is_thousand_glyph(HUNDRED_MILLION_GLYPH),
        !is_hundred_glyph(TEN_THOUSAND_GLYPH) && !is_hundred_glyph(HUNDRED_MILLION_GLYPH),
        !is_ten_glyph(TEN_THOUSAND_GLYPH) && !is_ten_glyph(HUNDRED_MILLION_GLYPH),
{
}

/// Nothing that a group starts with stands at a group boundary.
proof fn lemma_boundary_reads_nothing(s: Seq<char>, e: int, x: int)
    requires
        group_boundary(s, e),
    ensures
        one_num(s, e, x) is None,
        !(0 <= e < s.len() && is_ten_glyph(s[e])),
        thousands_term(s, e) is None,
        hundreds_term(s, e) is None,
        tens_term(s, e) is None,
        k_number(s, e) is None,
{
    reveal(k_number);
    lemma_glyph_classes(GlyphSet::Standard, 1, 1);
    assert(zeros_end(s, e) == e);
}

/// How the parser's digit rule reads the text written for one nonzero digit
/// `d` in position `j` of a group.
proof fn lemma_token(s: Seq<char>, p: int, d: int, j: int, st: Spacing, set: GlyphSet, x: int)
    requires
        1 <= d <= 9,
        0 <= j <= 3,
        occurs_at(s, p, digit_step(d, j, st, set).0),
    ensures
        ({
            let t = digit_step(d, j, st, set).0;
            if st == Spacing::Start && d == 1 && j == 1 {
                &&& t.len() == 1
                &&& is_ten_glyph(s[p])
                &&& one_num(s, p, x) is None
            } else if j == 0 {
                one_num(s, p, x) == Some((d, p + t.len()))
            } else {
                &&& t.len() >= 2
                &&& one_num(s, p, x) == Some((d, p + t.len() - 1))
                &&& s[p + t.len() - 1] == set.spec_magnitude(j)
            }
        }),
{
    let t = digit_step(d, j, st, set).0;
    lemma_glyph_classes(set, d, if j == 0 { 1 } else { j });
    assert(s.subrange(p, p + t.len()) == t);
    assert(forall|k: int| 0 <= k < t.len() ==> s[p + k] == #[trigger] t[k]) by {
        assert forall|k: int| 0 <= k < t.len() implies s[p + k] == #[trigger] t[k] by {
            assert(s.subrange(p, p + t.len())[k] == s[p + k]);
        }
    }
    if st == Spacing::Start && d == 1 && j == 1 {
        assert(t =~= seq![set.spec_magnitude(1)]);
        assert(s[p] == t[0]);
        assert(zeros_end(s, p) == p);
    } else if st == Spacing::GapPending {
        assert(s[p] == t[0]);
        assert(s[p + 1] == t[1]);
        assert(zeros_end(s, p + 1) == p + 1);
        assert(zeros_end(s, p) == p + 1);
        if j > 0 {
            assert(s[p + t.len() - 1] == t[t.len() - 1]);
        }
    } else {
        assert(s[p] == t[0]);
        assert(zeros_end(s, p) == p);
        if j > 0 {
            assert(s[p + t.len() - 1] == t[t.len() - 1]);
        }
    }
}

/// The term of the group rule for position `m` of a group (0 units, 1 tens,
/// 2 hundreds, 3 thousands).
spec fn term(s: Seq<char>, p: int, m: int) -> Option<(int, int)> {
    if m == 3 {
        thousands_term(s, p)
    } else if m == 2 {
        hundreds_term(s, p)
    } else if m == 1 {
        tens_term(s, p)
    } else {
        one_num(s, p, 0)
    }
}

spec fn digit_of(n: int, k: int) -> int {
    n / pow10(k) % 10
}

proof fn lemma_group_unfold(n: int, k: int, st: Spacing, set: GlyphSet)
    requires
        0 <= k <= 3,
    ensures
        ({
            let (t, st1) = digit_step(digit_of(n, k), k, st, set);
            let rest = group_from(n, k - 1, st1, set);
            &&& group_from(n, k, st, set).0 == t + rest.0
            &&& group_from(n, k, st, set).1 == rest.1
            &&& (digit_of(n, k) == 0 <==> t.len() == 0)
        }),
{
    assert(group_from(n, -1, st, set).0 =~= Seq::<char>::empty());
}

/// Where the text written for the positions `k` down to 0 of a group
/// stands, the terms of the group rule for higher positions read nothing.
proof fn lemma_higher_terms_fail(s: Seq<char>, p: int, n: int, k: int, st: Spacing, set: GlyphSet)
    requires
        -1 <= k <= 3,
        occurs_at(s, p, group_from(n, k, st, set).0),
        group_boundary(s, p + group_from(n, k, st, set).0.len()),
    ensures
        forall|m: int| k < m <= 3 ==> #[trigger] term(s, p, m) is None,
    decreases k + 1,
{
    if k < 0 {
        assert(group_from(n, k, st, set).0.len() == 0);
        lemma_boundary_reads_nothing(s, p, 0);
        lemma_boundary_reads_nothing(s, p, 1);
    } else {
        lemma_group_unfold(n, k, st, set);
        let d = digit_of(n, k);
        let (t, st1) = digit_step(d, k, st, set);
        let rest = group_from(n, k - 1, st1, set);
        lemma_occurs_split(s, p, t, rest.0);
        if d == 0 {
            lemma_higher_terms_fail(s, p, n, k - 1, st1, set);
        } else {
            lemma_token(s, p, d, k, st, set, 0);
            lemma_token(s, p, d, k, st, set, 1);
            lemma_glyph_classes(set, d, if k == 0 { 1 } else { k });
            if k == 0 {
                lemma_group_unfold(n, 0, st, set);
                assert(rest.0.len() == 0);
                lemma_boundary_reads_nothing(s, p + t.len(), 0);
            }
        }
    }
}

/// The term of the group rule for position `k` reads the text written for
/// the digit in that position.
proof fn lemma_term_reads(s: Seq<char>, p: int, n: int, k: int, st: Spacing, set: GlyphSet)
    requires
        0 <= k <= 3,
        occurs_at(s, p, group_from(n, k, st, set).0),
        group_boundary(s, p + group_from(n, k, st, set).0.len()),
    ensures
        term(s, p, k) == if digit_of(n, k) != 0 {
            Some(
                (
                    digit_of(n, k) * pow10(k),
                    p + digit_step(digit_of(n, k), k, st, set).0.len(),
                ),
            )
        } else {
            None
        },
{
    lemma_group_unfold(n, k, st, set);
    let d = digit_of(n, k);
    let (t, st1) = digit_step(d, k, st, set);
    let rest = group_from(n, k - 1, st1, set);
    lemma_occurs_split(s, p, t, rest.0);
    if d == 0 {
        lemma_higher_terms_fail(s, p, n, k - 1, st1, set);
        assert(term(s, p, k) is None);
    } else {
        lemma_token(s, p, d, k, st, set, 0);
        lemma_token(s, p, d, k, st, set, 1);
        lemma_glyph_classes(set, d, if k == 0 { 1 } else { k });
    }
}

/// The parser's group rule reads the text written for a group `n` (from
/// one to 9999) back as `n`, and stops where it ends.
proof fn lemma_group_reads(s: Seq<char>, i: int, n: int, st: Spacing, set: GlyphSet)
    requires
        1 <= n <= 9999,
        occurs_at(s, i, group_from(n, 3, st, set).0),
        group_boundary(s, i + group_from(n, 3, st, set).0.len()),
    ensures
        k_number(s, i) == Some((n, i + group_from(n, 3, st, set).0.len())),
{
    let (t3, s3) = digit_step(digit_of(n, 3), 3, st, set);
    let (t2, s2) = digit_step(digit_of(n, 2), 2, s3, set);
    let (t1, s1) = digit_step(digit_of(n, 1), 1, s2, set);
    let (t0, s0) = digit_step(digit_of(n, 0), 0, s1, set);
    lemma_group_unfold(n, 3, st, set);
    lemma_group_unfold(n, 2, s3, set);
    lemma_group_unfold(n, 1, s2, set);
    lemma_group_unfold(n, 0, s1, set);
    let g2 = group_from(n, 2, s3, set).0;
    let g1 = group_from(n, 1, s2, set).0;
    let g0 = group_from(n, 0, s1, set).0;
    let p1 = i + t3.len();
    let p2 = p1 + t2.len();
    let p3 = p2 + t1.len();
    lemma_occurs_split(s, i, t3, g2);
    lemma_occurs_split(s, p1, t2, g1);
    lemma_occurs_split(s, p2, t1, g0);
    lemma_term_reads(s, i, n, 3, st, set);
    lemma_term_reads(s, p1, n, 2, s3, set);
    lemma_term_reads(s, p2, n, 1, s2, set);
    lemma_term_reads(s, p3, n, 0, s1, set);
    lemma_group_digits(n);
    reveal(k_number);
    let a = thousands_term(s, i);
    let b = hundreds_term(s, p1);
    let c = tens_term(s, p2);
    let d = one_num(s, p3, 0);
    assert(end_or(a, i) == p1);
    assert(end_or(b, p1) == p2);
    assert(end_or(c, p2) == p3);
    assert(end_or(d, p3) == i + group_from(n, 3, st, set).0.len());
    assert(value_or_zero(a) + value_or_zero(b) + value_or_zero(c) + value_or_zero(d) == n);
}

proof fn lemma_group_digits(n: int)
    requires
        1 <= n <= 9999,
    ensures
        n == 1000 * digit_of(n, 3) + 100 * digit_of(n, 2) + 10 * digit_of(n, 1) + digit_of(n, 0),
        digit_of(n, 3) != 0 || digit_of(n, 2) != 0 || digit_of(n, 1) != 0 || digit_of(n, 0) != 0,
{
    assert(pow10(0) == 1 && pow10(1) == 10 && pow10(2) == 100 && pow10(3) == 1000);
    assert(n == 1000 * (n / 1000 % 10) + 100 * (n / 100 % 10) + 10 * (n / 10 % 10) + n / 1 % 10)
        by (nonlinear_arith)
        requires
            1 <= n <= 9999,
    ;
    assert(n / 1000 % 10 != 0 || n / 100 % 10 != 0 || n / 10 % 10 != 0 || n / 1 % 10 != 0)
        by (nonlinear_arith)
        requires
            1 <= n <= 9999,
    ;
}

proof fn lemma_zero_group_empty(k: int, st: Spacing, set: GlyphSet)
    requires
        -1 <= k <= 3,
    ensures
        group_from(0, k, st, set).0.len() == 0,
    decreases k + 1,
{
    if k >= 0 {
        lemma_group_unfold(0, k, st, set);
        let (t, st1) = digit_step(digit_of(0, k), k, st, set);
        lemma_zero_group_empty(k - 1, st1, set);
    }
}

/// The parser's rule for numbers below a hundred million reads the text
/// written for `u` back as `u`, and stops where it ends.
proof fn lemma_segment_reads(s: Seq<char>, i: int, u: nat, st: Spacing, set: GlyphSet)
    requires
        1 <= u < 100000000,
        occurs_at(s, i, render(u, st, set).0),
        segment_boundary(s, i + render(u, st, set).0.len()),
    ensures
        wan_number(s, i) == Some((u as int, i + render(u, st, set).0.len())),
{
    let e = i + render(u, st, set).0.len();
    if u < 10000 {
        assert(render(u, st, set) == group_from(u as int, 3, st, set));
        lemma_group_reads(s, i, u as int, st, set);
    } else {
        let hi = u / 10000;
        let lo = u % 10000;
        let (th, st1) = render(hi, st, set);
        let (tl, st2) = render(lo, st1, set);
        assert(1 <= hi <= 9999 && lo <= 9999);
        assert(render(hi, st, set) == group_from(hi as int, 3, st, set));
        assert(render(lo, st1, set) == group_from(lo as int, 3, st1, set));
        assert(render(u, st, set).0 == th + seq![TEN_THOUSAND_GLYPH] + tl);
        lemma_occurs_split(s, i, th + seq![TEN_THOUSAND_GLYPH], tl);
        lemma_occurs_split(s, i, th, seq![TEN_THOUSAND_GLYPH]);
        let p = i + th.len();
        assert(s.subrange(p, p + 1)[0] == s[p]);
        assert(s[p] == TEN_THOUSAND_GLYPH);
        lemma_group_reads(s, i, hi as int, st, set);
        if lo >= 1 {
            lemma_group_reads(s, p + 1, lo as int, st1, set);
        } else {
            lemma_zero_group_empty(3, st1, set);
            lemma_boundary_reads_nothing(s, p + 1, 0);
        }
    }
}

/// The parser's rule for whole numerals reads the text written for `v`
/// back, up to its end, as the fold that continues from `v` there.
proof fn lemma_numeral_reads(s: Seq<char>, i: int, v: nat, st: Spacing, set: GlyphSet)
    requires
        v >= 1,
        occurs_at(s, i, render(v, st, set).0),
        segment_boundary(s, i + render(v, st, set).0.len()),
    ensures
        yi_number(s, i) == Some(yi_tail(s, v as int, i + render(v, st, set).0.len())),
    decreases v,
{
    let e = i + render(v, st, set).0.len();
    if v < 100000000 {
        lemma_segment_reads(s, i, v, st, set);
    } else {
        let h = v / 100000000;
        let l = v % 100000000;
        let (th, st1) = render(h, st, set);
        let (tl, st2) = render(l, st1, set);
        assert(render(v, st, set).0 == th + seq![HUNDRED_MILLION_GLYPH] + tl);
        lemma_occurs_split(s, i, th + seq![HUNDRED_MILLION_GLYPH], tl);
        lemma_occurs_split(s, i, th, seq![HUNDRED_MILLION_GLYPH]);
        let p = i + th.len();
        assert(s.subrange(p, p + 1)[0] == s[p]);
        assert(s[p] == HUNDRED_MILLION_GLYPH);
        lemma_numeral_reads(s, i, h, st, set);
        if l >= 1 {
            lemma_segment_reads(s, p + 1, l, st1, set);
            assert(yi_tail(s, h as int, p) == yi_tail(s, (h * 100000000 + l) as int, e));
        } else {
            lemma_zero_group_empty(3, st1, set);
            lemma_boundary_reads_nothing(s, p + 1, 0);
            assert(wan_number(s, p + 1) is None);
            assert(yi_tail(s, h as int, p) == yi_tail(s, (h * 100000000) as int, p + 1));
        }
        assert(v == h * 100000000 + l);
    }
}

/// Where the group rule reads something, the text starts with a zero, digit
/// or ten glyph.
proof fn lemma_group_start(s: Seq<char>, i: int)
    requires
        0 <= i <= s.len(),
        k_number(s, i) is Some,
    ensures
        i < s.len(),
        is_zero_glyph(s[i]) || glyph_digit(s[i]) is Some || is_ten_glyph(s[i]),
{
    reveal(k_number);
    if !(i < s.len() && (is_zero_glyph(s[i]) || glyph_digit(s[i]) is Some || is_ten_glyph(s[i]))) {
        assert(zeros_end(s, i) == i);
        assert(one_num(s, i, 0) is None);
        assert(one_num(s, i, 1) is None);
    }
}

/// Reading back the numeral written for any number, in either glyph set,
/// gives that number, and the whole numeral is read.
pub proof fn round_trip(v: nat, set: GlyphSet)
    ensures
        raw_number(zh_text(v, set), 0) == Some((v as int, zh_text(v, set).len() as int)),
{
    let s = zh_text(v, set);
    lemma_glyph_classes(set, 1, 1);
    if v == 0 {
        assert(s == seq![ZERO_GLYPH]);
        assert(zeros_end(s, 1) == 1);
        assert(zeros_end(s, 0) == 1);
        assert(one_num(s, 0, 0) == Some((0int, 1int)));
        assert(one_num(s, 0, 1) == Some((1int, 1int)));
        assert(one_num(s, 1, 0) is None);
        reveal(k_number);
        assert(k_number(s, 0) == Some((0int, 1int)));
    } else {
        assert(s.subrange(0, s.len() as int) =~= s);
        lemma_numeral_reads(s, 0, v, Spacing::Start, set);
        lemma_group_start(s, 0);
    }
}

/// A character that a numeral can start with: an ASCII digit, a zero or
/// digit glyph, or a ten glyph.
pub open spec fn starts_numeral(c: char) -> bool {
    is_ascii_digit(c) || is_zero_glyph(c) || glyph_digit(c) is Some || is_ten_glyph(c)
}

/// Text holds a numeral at its start exactly when its first character can
/// start one; otherwise reading it fails at offset 0.
pub proof fn numeral_needs_leading_token(s: Seq<char>)
    ensures
        raw_number(s, 0) is None <==> (s.len() == 0 || !starts_numeral(s[0])),
        hard_digits(s, 0) is None <==> (s.len() == 0 || hard_digit(s[0]) is None),
{
    reveal(k_number);
    if s.len() > 0 && starts_numeral(s[0]) && !is_ascii_digit(s[0]) {
        if is_zero_glyph(s[0]) {
            lemma_zeros_end(s, 0);
        }
        assert(wan_number(s, 0) is Some);
    } else if s.len() == 0 || !starts_numeral(s[0]) {
        assert(zeros_end(s, 0) == 0);
        assert(one_num(s, 0, 0) is None);
        assert(one_num(s, 0, 1) is None);
    }
    if s.len() > 0 && hard_digit(s[0]) is Some {
        assert(hard_end(s, 0) == hard_end(s, 1));
        lemma_hard_end(s, 1);
    }
}

proof fn lemma_hard_end(s: Seq<char>, i: int)
    requires
        0 <= i <= s.len(),
    ensures
        hard_end(s, i) >= i,
    decreases s.len() - i,
{
    if i < s.len() && hard_digit(s[i]) is Some {
        lemma_hard_end(s, i + 1);
    }
}

} // verus!
