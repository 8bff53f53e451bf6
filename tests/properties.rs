use zh_num::parser::{hard_number, number};
use zh_num::{
    fmt_zh_num, fmt_zh_num_upper, format_number, to_zh_num, to_zh_num_upper, write_number,
    get_eol, Expected, GlyphSet, ParseError, ZhNum, ZhNumUpper,
};

fn round_trips(v: u64) {
    let lower = to_zh_num(v);
    assert_eq!(number(&lower), Ok((v, "")), "{v} -> {lower}");
    let upper = to_zh_num_upper(v);
    assert_eq!(number(&upper), Ok((v, "")), "{v} -> {upper}");
}

#[test]
fn zero_is_the_zero_glyph() {
    assert_eq!(to_zh_num(0), "零");
    assert_eq!(to_zh_num_upper(0), "零");
    assert_eq!(number(&to_zh_num(0)), Ok((0, "")));
    assert_eq!(number(&to_zh_num_upper(0)), Ok((0, "")));
}

#[test]
fn round_trip_small_values() {
    for v in 0..10000 {
        round_trips(v);
    }
}

#[test]
fn round_trip_multiples_of_ten_thousand() {
    for k in 0..10000 {
        round_trips(k * 10000);
    }
}

#[test]
fn round_trip_multiples_of_hundred_million() {
    for k in 0..10000 {
        round_trips(k * 100000000);
    }
    for k in (10000..100_000_000_000).step_by(7_777_777) {
        round_trips(k * 100000000);
    }
}

#[test]
fn round_trip_near_ten_to_the_sixteen() {
    let base: u64 = 10_000_000_000_000_000;
    for v in base - 1000..base + 1000 {
        round_trips(v);
    }
    round_trips(u64::MAX);
    round_trips(u64::MAX - 1);
}

#[test]
fn ten_is_written_without_one_only_in_front() {
    assert_eq!(to_zh_num(10), "十");
    assert_eq!(to_zh_num(11), "十一");
    assert_eq!(to_zh_num(110), "一百一十");
    assert_eq!(to_zh_num(101), "一百零一");
    assert_eq!(to_zh_num(100010), "十万零一十");
    assert_eq!(to_zh_num_upper(10), "拾");
    assert_eq!(to_zh_num_upper(110), "壹佰壹拾");
}

#[test]
fn hundred_million_glyphs_chain() {
    let v: u64 = 10_000_000_000_000_000;
    assert_eq!(to_zh_num(v), "一亿亿");
    assert_eq!(number("一亿亿"), Ok((v, "")));
    assert_eq!(to_zh_num(v + 1), "一亿亿零一");
}

#[test]
fn zero_elided_forms_read_alike() {
    assert_eq!(number("一万零十三"), Ok((10013, "")));
    assert_eq!(number("一万零一十三"), Ok((10013, "")));
    assert_eq!(number("一万十三"), Ok((10013, "")));
}

#[test]
fn digit_synonyms_read_alike() {
    assert_eq!(number("两千零一"), Ok((2001, "")));
    assert_eq!(number("贰千零一"), Ok((2001, "")));
    assert_eq!(number("二千零一"), Ok((2001, "")));
    assert_eq!(number("弍仟〇一"), Ok((2001, "")));
}

#[test]
fn digit_wise_reading() {
    assert_eq!(hard_number("一零零十三"), Ok((10013, "")));
    assert_eq!(hard_number("一零零八六章"), Ok((10086, "章")));
    assert_eq!(hard_number("一零零十三章"), Ok((10013, "章")));
    assert_eq!(hard_number("零零零章"), Ok((0, "章")));
    assert_eq!(hard_number("百零零章"), Ok((100, "章")));
    assert_eq!(hard_number("壹拾〇"), Ok((110, "")));
}

#[test]
fn rest_of_the_text_is_returned() {
    assert_eq!(number("一万零十三章"), Ok((10013, "章")));
    assert_eq!(number("一万零十三 and more"), Ok((10013, " and more")));
    assert_eq!(number("123abc"), Ok((123, "abc")));
    assert_eq!(number("千"), Err(ParseError { offset: 0, expected: Expected::Numeral }));
}

#[test]
fn no_numeral_fails_at_offset_zero() {
    let e = ParseError { offset: 0, expected: Expected::Numeral };
    assert_eq!(number("章"), Err(e));
    assert_eq!(number(""), Err(e));
    assert_eq!(number("万一"), Err(e));
    assert_eq!(hard_number("abc"), Err(e));
    assert_eq!(hard_number(""), Err(e));
}

#[test]
fn too_large_numbers_fail_at_their_end() {
    assert_eq!(number("18446744073709551615x"), Ok((u64::MAX, "x")));
    assert_eq!(
        number("18446744073709551616x"),
        Err(ParseError { offset: 20, expected: Expected::ValidNumber })
    );
    assert_eq!(
        number("一亿亿亿章"),
        Err(ParseError { offset: 4, expected: Expected::ValidNumber })
    );
    assert_eq!(
        hard_number("二二二二二二二二二二二二二二二二二二二二"),
        Err(ParseError { offset: 20, expected: Expected::ValidNumber })
    );
    assert_eq!(
        hard_number("一二三四五六七八九零一二三四五六七八九"),
        Ok((1234567890123456789, ""))
    );
}

#[test]
fn writers_append() {
    let mut s = String::from("第");
    fmt_zh_num(10086, &mut s);
    assert_eq!(s, "第一万零八十六");
    let mut u = String::from("第");
    fmt_zh_num_upper(10086, &mut u);
    assert_eq!(u, "第壹万零捌拾陆");
    let mut w = String::new();
    write_number(0, GlyphSet::Financial, &mut w);
    assert_eq!(w, "零");
}

#[test]
fn glyph_sets_and_wrappers() {
    assert_eq!(to_zh_num(10086), "一万零八十六");
    assert_eq!(to_zh_num_upper(10086), "壹万零捌拾陆");
    assert_eq!(format_number(3612277, GlyphSet::Financial), "叁佰陆拾壹万贰仟贰佰柒拾柒");
    assert_eq!(format_number(123456789, GlyphSet::Standard), "一亿二千三百四十五万六千七百八十九");
    assert_eq!(ZhNum(83362).to_string(), to_zh_num(83362));
    assert_eq!(ZhNumUpper(83362).to_string(), to_zh_num_upper(83362));
}

#[test]
fn error_descriptions() {
    assert_eq!(Expected::Numeral.describe(), "a numeral");
    assert_eq!(Expected::ValidNumber.describe(), "a number that fits in 64 bits");
}

#[test]
fn line_endings() {
    assert_eq!(get_eol("一万\r\n"), "\r\n");
    assert_eq!(get_eol("一万\n"), "\n");
    assert_eq!(get_eol("一万"), "");
    assert_eq!(get_eol(""), "");
    assert_eq!(get_eol("\r"), "");
    assert_eq!(get_eol("\n\r"), "");
}
