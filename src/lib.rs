use vstd::prelude::*;
use vstd::std_specs::iter::IteratorSpec;

pub mod eol;
pub mod format;
pub mod glyphs;
pub mod laws;
pub mod parser;

pub use eol::get_eol;
pub use format::{format_number, write_number, zh_text};
pub use glyphs::GlyphSet;
pub use parser::{hard_number, number, Expected, ParseError};

verus! {

/// The integers that numerals are read into and written from.
pub type Number = u64;

/// The characters of `s`, in order.
pub(crate) fn chars_of(s: &str) -> (r: Vec<char>)
    ensures
        r@ == s@,
{
    let n = s.unicode_len();
    let mut it = s.chars();
    let mut v: Vec<char> = Vec::new();
    let mut i: usize = 0;
    while i < n
        invariant
            n == s@.len(),
            i == v@.len(),
            v@ + it.remaining() == s@,
        decreases n - i,
    {
        let ghost before = it.remaining();
        let c = it.next();
        assert(before.len() > 0);
        if let Some(c) = c {
            v.push(c);
            assert(v@ + it.remaining() =~= s@);
        }
        i = i + 1;
    }
    v
}

/// Appends the numeral for `num`, in the standard glyphs, to `out`.
pub fn fmt_zh_num(num: Number, out: &mut String)
    ensures
        final(out)@ == old(out)@ + zh_text(num as nat, GlyphSet::Standard),
{
    write_number(num, GlyphSet::Standard, out)
}

/// Appends the numeral for `num`, in the financial glyphs, to `out`.
pub fn fmt_zh_num_upper(num: Number, out: &mut String)
    ensures
        final(out)@ == old(out)@ + zh_text(num as nat, GlyphSet::Financial),
{
    write_number(num, GlyphSet::Financial, out)
}

/// The numeral for `num` in the standard glyphs: `to_zh_num(10086)` is
/// "一万零八十六".
pub fn to_zh_num(num: Number) -> (r: String)
    ensures
        r@ == zh_text(num as nat, GlyphSet::Standard),
{
    format_number(num, GlyphSet::Standard)
}

/// The numeral for `num` in the financial glyphs: `to_zh_num_upper(10086)`
/// is "壹万零捌拾陆".
pub fn to_zh_num_upper(num: Number) -> (r: String)
    ensures
        r@ == zh_text(num as nat, GlyphSet::Financial),
{
    format_number(num, GlyphSet::Financial)
}

/// A number that is shown as its numeral in the standard glyphs.
#[derive(Clone, Copy, Debug, PartialEq, Eq, PartialOrd, Ord, Hash, Structural)]
pub struct ZhNum(pub Number);

impl ZhNum {
    /// The numeral for the number held.
    pub fn to_string(&self) -> (r: String)
        ensures
            r@ == zh_text(self.0 as nat, GlyphSet::Standard),
    {
        to_zh_num(self.0)
    }
}

/// A number that is shown as its numeral in the financial glyphs.
#[derive(Clone, Copy, Debug, PartialEq, Eq, PartialOrd, Ord, Hash, Structural)]
pub struct ZhNumUpper(pub Number);

impl ZhNumUpper {
    /// The numeral for the number held.
    pub fn to_string(&self) -> (r: String)
        ensures
            r@ == zh_text(self.0 as nat, GlyphSet::Financial),
    {
        to_zh_num_upper(self.0)
    }
}

} // verus!
