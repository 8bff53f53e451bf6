use zh_num::parser::number;
use zh_num::{to_zh_num, to_zh_num_upper};

#[test]
fn test_parse() {
    let datas = [
        ("零", 0),
        ("一", 1),
        ("十", 10),
        ("二十", 20),
        ("二百二十", 220),
        ("两千零一", 2001),
        ("两千一", 2001),
        ("两千一百", 2100),
        ("零万", 0),
        ("三万", 30000),
        ("十万", 100000),
        ("十一", 11),
        ("二十一", 21),
        ("三百六十八", 368),
        ("一万两千三百四十五", 12345),
        ("一亿两千三百四十五万六千七百八十九", 123456789),
        ("五十五", 55),
        ("五十", 50),
        ("一十", 10),
        ("三十", 30),
        ("六百六十六", 666),
        ("一万一", 10001),
        ("一亿一", 100000001),
        ("一亿零一", 100000001),
        ("十亿零一", 1000000001),
        ("十四亿零一", 1400000001),
        ("一十四亿零一", 1400000001),
        ("二十四亿零一", 2400000001),
        ("九十四亿零一", 9400000001),
        ("一百零四亿零一", 10400000001),
        ("一百四亿零一", 10400000001),
        ("一千零四亿零一", 100400000001),
        ("一千亿零一", 100000000001),
        ("一千亿", 100000000000),
        ("一万亿零一", 1000000000001),
        ("一万一百", 10100),
        ("一万零一百", 10100),
        ("一万一百一", 10101),
        ("一万零一百一", 10101),
        ("一万零一百零一", 10101),
        ("一万零一", 10001),
        ("一千零一", 1001),
        ("一百零一", 101),
        ("一十零一", 11),
        ("十零一", 11),
        ("一万十", 10010),
        ("一万零十", 10010),
        ("一万零一十", 10010),
        ("一万零一十三", 10013),
        ("一万零十三", 10013),
        ("一万两千", 12000),
        ("一万两千否", 12000),
        ("零否", 0),
        ("一亿", 1_0000_0000),
        ("一亿零一", 1_0000_0001),
        ("一亿零一十", 1_0000_0010),
        ("一亿零一百", 1_0000_0100),
        ("一亿零一千", 1_0000_1000),
        ("一亿零一万", 1_0001_0000),
        ("一亿零十万", 1_0010_0000),
        ("一亿零一十万", 1_0010_0000),
        ("一万亿零一十万", 1_0000_0010_0000),
        ("一亿亿", 1_0000_0000_0000_0000),
        ("一亿亿零一", 1_0000_0000_0000_0001),
        ("一亿三亿零一", 1_0000_0003_0000_0001),
        ("一亿零三亿零一", 1_0000_0003_0000_0001),
        ("陆仟零柒", 6007),
        ("叁佰陆拾壹万贰仟贰佰柒拾柒", 3612277),
        ("伍万零壹拾贰", 50012),
    ];
    for (src, num) in datas {
        assert_eq!(number(src).map(|x| x.0), Ok(num), "{src} -> {num}");
    }
}

#[test]
fn test_to_zh() {
    let datas = [
        (0, "零"),
        (2, "二"),
        (9, "九"),
        (10, "十"),
        (11, "十一"),
        (20, "二十"),
        (21, "二十一"),
        (100, "一百"),
        (101, "一百零一"),
        (109, "一百零九"),
        (110, "一百一十"),
        (111, "一百一十一"),
        (121, "一百二十一"),
        (120, "一百二十"),
        (220, "二百二十"),
        (999, "九百九十九"),
        (990, "九百九十"),
        (909, "九百零九"),
        (1000, "一千"),
        (1001, "一千零一"),
        (1010, "一千零一十"),
        (1011, "一千零一十一"),
        (10000, "一万"),
        (10011, "一万零一十一"),
        (10021, "一万零二十一"),
        (20021, "二万零二十一"),
        (200021, "二十万零二十一"),
        (210021, "二十一万零二十一"),
        (210210, "二十一万零二百一十"),
        (212100, "二十一万二千一百"),
        (212101, "二十一万二千一百零一"),
        (883868, "八十八万三千八百六十八"),
        (1_0000_0000, "一亿"),
        (1_0000_0001, "一亿零一"),
        (1_1000_0000, "一亿一千万"),
        (1_0100_0000, "一亿零一百万"),
        (1_0010_0000, "一亿零一十万"),
        (1_0001_0000, "一亿零一万"),
        (10_0001_0000, "十亿零一万"),
        (100_0001_0000, "一百亿零一万"),
        (1000_0001_0000, "一千亿零一万"),
        (1_0000_0001_0000, "一万亿零一万"),
        (10_0000_0001_0000, "十万亿零一万"),
        (100_0000_0001_0000, "一百万亿零一万"),
        (1000_0000_0001_0000, "一千万亿零一万"),
        (1_0000_0000_0001_0000, "一亿亿零一万"),
        (10_0000_0000_0001_0000, "十亿亿零一万"),
        (14_0000_0000_0001_0000, "十四亿亿零一万"),
        (10_1000_0000_0001_0000, "十亿零一千万亿零一万"),
        (100_0000_0000_0001_0000, "一百亿亿零一万"),
        (200_0000_0000_0001_0000, "二百亿亿零一万"),
        (1000_0000_0000_0001_0000, "一千亿亿零一万"),
        (1300_0000_0000_0001_0000, "一千三百亿亿零一万"),
        (1030_0000_0000_0001_0000, "一千零三十亿亿零一万"),
        (1003_0000_0000_0001_0000, "一千零三亿亿零一万"),
        (1003_3000_0000_0001_0000, "一千零三亿三千万亿零一万"),
        (1003_0300_0000_0001_0000, "一千零三亿零三百万亿零一万"),
        (1_0000_0000_0000, "一万亿"),
        (1_0001_0000_0000, "一万零一亿"),
        (1_0000_0000_0000_0000, "一亿亿"),
    ];
    for (src, num) in datas {
        assert_eq!(to_zh_num(src), num, "{src} -> {num}");
    }
}

#[test]
fn test_upper_number_parse() {
    (0..150)
        .chain((150..10000).step_by(23))
        .chain((10000..10000000).step_by(292))
        .chain((10000000..1000000000).step_by(38004))
        .chain(1000000000..=1000000200)
        .for_each(|n| {
            let s = to_zh_num_upper(n);
            assert_eq!(number(&s), Ok((n, "")));
        });
}
