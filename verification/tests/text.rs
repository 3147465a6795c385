use update_supervisor::text::{char_is_whitespace, parse_i32, trim};

#[test]
fn trim_cuts_surrounding_whitespace() {
    assert_eq!(trim("  v3\n"), "v3");
    assert_eq!(trim("v3"), "v3");
    assert_eq!(trim("\t a b \r\n"), "a b");
    assert_eq!(trim(""), "");
    assert_eq!(trim(" \n\t "), "");
    assert_eq!(trim("\u{3000}v\u{e9}\u{a0}"), "v\u{e9}");
}

#[test]
fn whitespace_is_what_std_calls_whitespace() {
    let mut n: u32 = 0;
    while n <= 0x10FFFF {
        if let Some(c) = char::from_u32(n) {
            assert_eq!(char_is_whitespace(c), c.is_whitespace(), "U+{:04X}", n);
        }
        n += 1;
    }
}

#[test]
fn trim_agrees_with_std() {
    let samples = [
        "", " ", "a", " a", "a ", " a ", "\n\nab\tcd\n", "\u{2003}x\u{2003}", "x\u{200b}",
        "\u{85}1.2.3\u{85}", " \u{1680} ", "v  5",
    ];
    for s in samples {
        assert_eq!(trim(s), s.trim(), "{:?}", s);
    }
}

#[test]
fn parse_i32_reads_signed_decimals() {
    assert_eq!(parse_i32("0"), Some(0));
    assert_eq!(parse_i32("4242"), Some(4242));
    assert_eq!(parse_i32("+17"), Some(17));
    assert_eq!(parse_i32("-17"), Some(-17));
    assert_eq!(parse_i32("-0"), Some(0));
    assert_eq!(parse_i32("007"), Some(7));
    assert_eq!(parse_i32("2147483647"), Some(i32::MAX));
    assert_eq!(parse_i32("-2147483648"), Some(i32::MIN));
    assert_eq!(parse_i32("00000000000000000000000000012"), Some(12));
}

#[test]
fn parse_i32_rejects_everything_else() {
    assert_eq!(parse_i32(""), None);
    assert_eq!(parse_i32("+"), None);
    assert_eq!(parse_i32("-"), None);
    assert_eq!(parse_i32("2147483648"), None);
    assert_eq!(parse_i32("-2147483649"), None);
    assert_eq!(parse_i32("99999999999999999999999999"), None);
    assert_eq!(parse_i32("12a"), None);
    assert_eq!(parse_i32("a12"), None);
    assert_eq!(parse_i32(" 12"), None);
    assert_eq!(parse_i32("12 "), None);
    assert_eq!(parse_i32("1-2"), None);
    assert_eq!(parse_i32("--2"), None);
    assert_eq!(parse_i32("+-2"), None);
    assert_eq!(parse_i32("1_000"), None);
    assert_eq!(parse_i32("0x10"), None);
    assert_eq!(parse_i32("\u{0661}\u{0662}"), None);
    assert_eq!(parse_i32("not-a-pid"), None);
}

#[test]
fn parse_i32_agrees_with_std() {
    let samples = [
        "", "+", "-", "0", "-0", "+0", "1", "-1", "12345", "2147483647", "2147483648",
        "-2147483648", "-2147483649", "0000000001", "4294967296", "1e3", "1.0", " 1", "1\n",
        "9223372036854775808", "+2147483647", "+2147483648", "\u{ff11}",
    ];
    for s in samples {
        assert_eq!(parse_i32(s), s.parse::<i32>().ok(), "{:?}", s);
    }
}
