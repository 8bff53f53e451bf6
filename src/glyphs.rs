use vstd::prelude::*;

verus! {

/// The glyph written after a ten-thousand group.
pub const TEN_THOUSAND_GLYPH: char = '万';

/// The glyph written after a hundred-million group.
pub const HUNDRED_MILLION_GLYPH: char = '亿';

/// The glyph that stands for zero in both glyph sets.
pub const ZERO_GLYPH: char = '零';

/// Glyphs that read as zero.
pub open spec fn is_zero_glyph(c: char) -> bool {
    c == '零' || c == '〇'
}

/// The value of a glyph that reads as one of the digits one to nine,
/// including the financial and historical variants.
pub open spec fn glyph_digit(c: char) -> Option<int> {
    if c == '一' || c == '壹' || c == '弌' || c == '幺' {
        Some(1)
    } else if c == '二' || c == '贰' || c == '弍' || c == '两' {
        Some(2)
    } else if c == '三' || c == '叁' || c == '弎' {
        Some(3)
    } else if c == '四' || c == '肆' {
        Some(4)
    } else if c == '五' || c == '伍' {
        Some(5)
    } else if c == '六' || c == '陆' {
        Some(6)
    } else if c == '七' || c == '柒' {
        Some(7)
    } else if c == '八' || c == '捌' {
        Some(8)
    } else if c == '九' || c == '玖' {
        Some(9)
    } else {
        None
    }
}

pub open spec fn is_ten_glyph(c: char) -> bool {
    c == '十' || c == '拾'
}

pub open spec fn is_hundred_glyph(c: char) -> bool {
    c == '百' || c == '佰' || c == '陌'
}

pub open spec fn is_thousand_glyph(c: char) -> bool {
    c == '千' || c == '仟' || c == '阡'
}

/// Any glyph that multiplies what stands before it.
pub open spec fn is_magnitude_glyph(c: char) -> bool {
    is_ten_glyph(c) || is_hundred_glyph(c) || is_thousand_glyph(c) || c == TEN_THOUSAND_GLYPH
        || c == HUNDRED_MILLION_GLYPH
}

pub fn zero_glyph_test(c: char) -> (r: bool)
    ensures
        r == is_zero_glyph(c),
{
    c == '零' || c == '〇'
}

pub fn digit_of_glyph(c: char) -> (r: Option<u64>)
    ensures
        match glyph_digit(c) {
            Some(d) => r == Some(d as u64),
            None => r is None,
        },
{
    if c == '一' || c == '壹' || c == '弌' || c == '幺' {
        Some(1)
    } else if c == '二' || c == '贰' || c == '弍' || c == '两' {
        Some(2)
    } else if c == '三' || c == '叁' || c == '弎' {
        Some(3)
    } else if c == '四' || c == '肆' {
        Some(4)
    } else if c == '五' || c == '伍' {
        Some(5)
    } else if c == '六' || c == '陆' {
        Some(6)
    } else if c == '七' || c == '柒' {
        Some(7)
    } else if c == '八' || c == '捌' {
        Some(8)
    } else if c == '九' || c == '玖' {
        Some(9)
    } else {
        None
    }
}

pub fn ten_glyph_test(c: char) -> (r: bool)
    ensures
        r == is_ten_glyph(c),
{
    c == '十' || c == '拾'
}

pub fn hundred_glyph_test(c: char) -> (r: bool)
    ensures
        r == is_hundred_glyph(c),
{
    c == '百' || c == '佰' || c == '陌'
}

pub fn thousand_glyph_test(c: char) -> (r: bool)
    ensures
        r == is_thousand_glyph(c),
{
    c == '千' || c == '仟' || c == '阡'
}

pub fn magnitude_glyph_test(c: char) -> (r: bool)
    ensures
        r == is_magnitude_glyph(c),
{
    ten_glyph_test(c) || hundred_glyph_test(c) || thousand_glyph_test(c) || c == TEN_THOUSAND_GLYPH
        || c == HUNDRED_MILLION_GLYPH
}

/// The two tables of glyphs that numbers are written in.
#[derive(Clone, Copy, Debug, PartialEq, Eq, Hash, Structural)]
pub enum GlyphSet {
    /// The everyday glyphs: 一 二 三 ... 十 百 千.
    Standard,
    /// The financial glyphs, hard to alter: 壹 贰 叁 ... 拾 佰 仟.
    Financial,
}

impl GlyphSet {
    /// The glyph this set writes for digit `d` (0 to 9).
    pub open spec fn spec_digit(self, d: int) -> char {
        match self {
            GlyphSet::Standard => if d == 1 {
                '一'
            } else if d == 2 {
                '二'
            } else if d == 3 {
                '三'
            } else if d == 4 {
                '四'
            } else if d == 5 {
                '五'
            } else if d == 6 {
                '六'
            } else if d == 7 {
                '七'
            } else if d == 8 {
                '八'
            } else if d == 9 {
                '九'
            } else {
                ZERO_GLYPH
            },
            GlyphSet::Financial => if d == 1 {
                '壹'
            } else if d == 2 {
                '贰'
            } else if d == 3 {
                '叁'
            } else if d == 4 {
                '肆'
            } else if d == 5 {
                '伍'
            } else if d == 6 {
                '陆'
            } else if d == 7 {
                '柒'
            } else if d == 8 {
                '捌'
            } else if d == 9 {
                '玖'
            } else {
                ZERO_GLYPH
            },
        }
    }

    /// The glyph this set writes for ten (`k == 1`), hundred (`k == 2`) or
    /// thousand (`k == 3`).
    pub open spec fn spec_magnitude(self, k: int) -> char {
        match self {
            GlyphSet::Standard => if k == 1 {
                '十'
            } else if k == 2 {
                '百'
            } else {
                '千'
            },
            GlyphSet::Financial => if k == 1 {
                '拾'
            } else if k == 2 {
                '佰'
            } else {
                '仟'
            },
        }
    }

    pub fn digit(self, d: u64) -> (r: char)
        requires
            d < 10,
        ensures
            r == self.spec_digit(d as int),
    {
        match self {
            GlyphSet::Standard => if d == 1 {
                '一'
            } else if d == 2 {
                '二'
            } else if d == 3 {
                '三'
            } else if d == 4 {
                '四'
            } else if d == 5 {
                '五'
            } else if d == 6 {
                '六'
            } else if d == 7 {
                '七'
            } else if d == 8 {
                '八'
            } else if d == 9 {
                '九'
            } else {
                ZERO_GLYPH
            },
            GlyphSet::Financial => if d == 1 {
                '壹'
            } else if d == 2 {
                '贰'
            } else if d == 3 {
                '叁'
            } else if d == 4 {
                '肆'
            } else if d == 5 {
                '伍'
            } else if d == 6 {
                '陆'
            } else if d == 7 {
                '柒'
            } else if d == 8 {
                '捌'
            } else if d == 9 {
                '玖'
            } else {
                ZERO_GLYPH
            },
        }
    }

    pub fn magnitude(self, k: u64) -> (r: char)
        requires
            1 <= k <= 3,
        ensures
            r == self.spec_magnitude(k as int),
    {
        match self {
            GlyphSet::Standard => if k == 1 {
                '十'
            } else if k == 2 {
                '百'
            } else {
                '千'
            },
            GlyphSet::Financial => if k == 1 {
                '拾'
            } else if k == 2 {
                '佰'
            } else {
                '仟'
            },
        }
    }
}

} // verus!
