use vstd::prelude::*;

use crate::glyphs::{GlyphSet, HUNDRED_MILLION_GLYPH, TEN_THOUSAND_GLYPH, ZERO_GLYPH};
use crate::Number;

verus! {

/// What has been written so far in one rendering: nothing yet; something,
/// then a zero digit that was skipped and must be marked before the next
/// digit; something, with no zero skipped since.
#[derive(Clone, Copy, Debug, PartialEq, Eq, Hash, Structural)]
pub enum Spacing {
    Start,
    GapPending,
    Emitted,
}

pub open spec fn pow10(k: int) -> int {
    if k <= 0 {
        1
    } else if k == 1 {
        10
    } else if k == 2 {
        100
    } else {
        1000
    }
}

/// The text for digit `d` in position `k` of a group (0 units, 1 tens,
/// 2 hundreds, 3 thousands), and the spacing after it.
pub open spec fn digit_step(d: int, k: int, st: Spacing, set: GlyphSet) -> (Seq<char>, Spacing) {
    if d == 0 {
        (seq![], if st == Spacing::Start { Spacing::Start } else { Spacing::GapPending })
    } else {
        let zero = if st == Spacing::GapPending { seq![ZERO_GLYPH] } else { seq![] };
        let digit = if st == Spacing::Start && d == 1 && k == 1 {
            seq![]
        } else {
            seq![set.spec_digit(d)]
        };
        let mag = if k == 0 { seq![] } else { seq![set.spec_magnitude(k)] };
        (zero + digit + mag, Spacing::Emitted)
    }
}

/// The text for the digits of `n` in positions `k` down to 0.
pub open spec fn group_from(n: int, k: int, st: Spacing, set: GlyphSet) -> (Seq<char>, Spacing)
    decreases k + 1,
{
    if k < 0 {
        (seq![], st)
    } else {
        let (t, st1) = digit_step(n / pow10(k) % 10, k, st, set);
        let (rest, st2) = group_from(n, k - 1, st1, set);
        (t + rest, st2)
    }
}

/// The text for `v`, written after text that left spacing `st`, and the
/// spacing after it. Below ten thousand, a group; above, the part above the
/// ten-thousand or hundred-million mark, the mark's glyph, and the part
/// below it.
pub open spec fn render(v: nat, st: Spacing, set: GlyphSet) -> (Seq<char>, Spacing)
    decreases v,
{
    if v < 10000 {
        group_from(v as int, 3, st, set)
    } else if v < 100000000 {
        let (hi, st1) = render(v / 10000, st, set);
        let (lo, st2) = render(v % 10000, st1, set);
        (hi + seq![TEN_THOUSAND_GLYPH] + lo, st2)
    } else {
        let (hi, st1) = render(v / 100000000, st, set);
        let (lo, st2) = render(v % 100000000, st1, set);
        (hi + seq![HUNDRED_MILLION_GLYPH] + lo, st2)
    }
}

/// The numeral for `v` in glyph set `set`.
pub open spec fn zh_text(v: nat, set: GlyphSet) -> Seq<char> {
    if v == 0 {
        seq![ZERO_GLYPH]
    } else {
        render(v, Spacing::Start, set).0
    }
}

/// Relies on `String::push`: appends one character.
#[verifier::external_body]
fn push_char(s: &mut String, c: char)
    ensures
        final(s)@ == old(s)@.push(c),
{
    s.push(c)
}

fn write_group(n: u64, st: &mut Spacing, set: GlyphSet, out: &mut String)
    requires
        n < 10000,
    ensures
        final(out)@ == old(out)@ + group_from(n as int, 3, *old(st), set).0,
        *final(st) == group_from(n as int, 3, *old(st), set).1,
{
    let ghost whole = group_from(n as int, 3, *st, set);
    let ghost start = out@;
    let mut k: u64 = 4;
    while k > 0
        invariant
            k <= 4,
            start + whole.0 == out@ + group_from(n as int, k - 1, *st, set).0,
            whole.1 == group_from(n as int, k - 1, *st, set).1,
        decreases k,
    {
        k = k - 1;
        let ghost before = out@;
        let ghost st0 = *st;
        let p: u64 = if k == 0 {
            1
        } else if k == 1 {
            10
        } else if k == 2 {
            100
        } else {
            1000
        };
        let d = n / p % 10;
        if d == 0 {
            if *st != Spacing::Start {
                *st = Spacing::GapPending;
            }
        } else {
            if *st == Spacing::GapPending {
                push_char(out, ZERO_GLYPH);
            }
            if !(*st == Spacing::Start && d == 1 && k == 1) {
                push_char(out, set.digit(d));
            }
            if k > 0 {
                push_char(out, set.magnitude(k));
            }
            *st = Spacing::Emitted;
        }
        proof {
            let step = digit_step(d as int, k as int, st0, set);
            assert(out@ =~= before + step.0);
            assert(*st == step.1);
            let rest = group_from(n as int, k - 1, *st, set);
            assert(group_from(n as int, k as int, st0, set) == (step.0 + rest.0, rest.1));
            assert(before + group_from(n as int, k as int, st0, set).0 =~= out@ + rest.0);
        }
    }
    assert(group_from(n as int, -1, *st, set).0 =~= seq![]);
}

fn write_value(v: u64, st: &mut Spacing, set: GlyphSet, out: &mut String)
    ensures
        final(out)@ == old(out)@ + render(v as nat, *old(st), set).0,
        *final(st) == render(v as nat, *old(st), set).1,
    decreases v, 1int,
{
    if v < 10000 {
        write_group(v, st, set, out);
    } else if v < 100000000 {
        write_chain(v, 10000, TEN_THOUSAND_GLYPH, st, set, out);
    } else {
        write_chain(v, 100000000, HUNDRED_MILLION_GLYPH, st, set, out);
    }
}

fn write_chain(v: u64, pow: u64, glyph: char, st: &mut Spacing, set: GlyphSet, out: &mut String)
    requires
        (pow == 10000 && glyph == TEN_THOUSAND_GLYPH && 10000 <= v < 100000000) || (pow
            == 100000000 && glyph == HUNDRED_MILLION_GLYPH && 100000000 <= v),
    ensures
        final(out)@ == old(out)@ + render(v as nat, *old(st), set).0,
        *final(st) == render(v as nat, *old(st), set).1,
    decreases v, 0int,
{
    let ghost start = out@;
    let ghost st0 = *st;
    write_value(v / pow, st, set, out);
    let ghost mid = out@;
    push_char(out, glyph);
    write_value(v % pow, st, set, out);
    proof {
        let hi = render((v / pow) as nat, st0, set);
        let lo = render((v % pow) as nat, hi.1, set);
        assert(render(v as nat, st0, set) == (hi.0 + seq![glyph] + lo.0, lo.1));
        assert(out@ =~= start + (hi.0 + seq![glyph] + lo.0));
    }
}

/// Appends the numeral for `num`, written in glyph set `set`, to `out`.
pub fn write_number(num: Number, set: GlyphSet, out: &mut String)
    ensures
        final(out)@ == old(out)@ + zh_text(num as nat, set),
{
    if num == 0 {
        push_char(out, ZERO_GLYPH);
    } else {
        let mut st = Spacing::Start;
        write_value(num, &mut st, set, out);
    }
}

/// The numeral for `num`, written in glyph set `set`.
pub fn format_number(num: Number, set: GlyphSet) -> (r: String)
    ensures
        r@ == zh_text(num as nat, set),
{
    let mut out = String::new();
    write_number(num, set, &mut out);
    assert(out@ =~= zh_text(num as nat, set));
    out
}

} // verus!
