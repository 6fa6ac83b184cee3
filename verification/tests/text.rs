use wallpaper_controller::text::{
    append_unsigned, chars_of, copy_range, decimal_string, parse_i64, parse_unsigned,
    replace_char, split_ranges, strip_range, trim_range,
};

fn chars(text: &str) -> Vec<char> {
    text.chars().collect()
}

fn signed(text: &str) -> Option<i64> {
    let text = chars(text);
    parse_i64(&text, 0, text.len())
}

fn unsigned(text: &str, max: u64) -> Option<u64> {
    let text = chars(text);
    parse_unsigned(&text, 0, text.len(), max)
}

#[test]
fn decimal_notation_of_signed_numbers() {
    assert_eq!(decimal_string(0), "0");
    assert_eq!(decimal_string(7), "7");
    assert_eq!(decimal_string(10), "10");
    assert_eq!(decimal_string(-1), "-1");
    assert_eq!(decimal_string(1234567890), "1234567890");
    assert_eq!(decimal_string(i64::MAX), "9223372036854775807");
    assert_eq!(decimal_string(i64::MIN), "-9223372036854775808");
}

#[test]
fn decimal_notation_agrees_with_the_standard_one() {
    let mut n: i64 = -1500;
    while n <= 1500 {
        assert_eq!(decimal_string(n), n.to_string());
        n += 1;
    }
}

#[test]
fn decimal_notation_is_appended() {
    let mut out = String::from("n=");
    append_unsigned(&mut out, 405);
    append_unsigned(&mut out, 0);
    append_unsigned(&mut out, u64::MAX);
    assert_eq!(out, "n=405018446744073709551615");
}

#[test]
fn characters_of_a_text() {
    assert_eq!(chars_of(""), Vec::<char>::new());
    assert_eq!(chars_of("aß越"), vec!['a', 'ß', '越']);
}

#[test]
fn signed_numbers_are_read() {
    assert_eq!(signed("0"), Some(0));
    assert_eq!(signed("-0"), Some(0));
    assert_eq!(signed("+0"), Some(0));
    assert_eq!(signed("42"), Some(42));
    assert_eq!(signed("+42"), Some(42));
    assert_eq!(signed("-42"), Some(-42));
    assert_eq!(signed("000000000000000000000000000042"), Some(42));
    assert_eq!(signed("9223372036854775807"), Some(i64::MAX));
    assert_eq!(signed("-9223372036854775808"), Some(i64::MIN));
}

#[test]
fn what_is_no_signed_number_is_refused() {
    for text in ["", "+", "-", "--1", "+-1", "-+1", "1-", "1 ", " 1", "1_000", "0x1", "1.0",
        "9223372036854775808", "-9223372036854775809", "99999999999999999999999999", "٣", "1e3"]
    {
        assert_eq!(signed(text), None);
    }
}

#[test]
fn signed_reading_agrees_with_the_standard_parser() {
    let alphabet = ['+', '-', '0', '1', '9', ' ', 'a'];
    for a in alphabet {
        for b in alphabet {
            for c in alphabet {
                for text in [
                    format!("{a}"),
                    format!("{a}{b}"),
                    format!("{a}{b}{c}"),
                    format!("{a}{b}{c}922337203685477580{a}"),
                ] {
                    assert_eq!(signed(&text), text.parse::<i64>().ok());
                    assert_eq!(unsigned(&text, u64::MAX), text.parse::<u64>().ok());
                    assert_eq!(
                        unsigned(&text, 255),
                        text.parse::<u8>().ok().map(|value| value as u64)
                    );
                    assert_eq!(
                        unsigned(&text, 0xffff_ffff),
                        text.parse::<u32>().ok().map(|value| value as u64)
                    );
                }
            }
        }
    }
}

#[test]
fn unsigned_numbers_are_read_up_to_the_limit() {
    assert_eq!(unsigned("0", 0), Some(0));
    assert_eq!(unsigned("1", 0), None);
    assert_eq!(unsigned("100", 100), Some(100));
    assert_eq!(unsigned("101", 100), None);
    assert_eq!(unsigned("+100", 100), Some(100));
    assert_eq!(unsigned("-0", 100), None);
    assert_eq!(unsigned("-1", 100), None);
    assert_eq!(unsigned("18446744073709551615", u64::MAX), Some(u64::MAX));
    assert_eq!(unsigned("18446744073709551616", u64::MAX), None);
    assert_eq!(unsigned("", 5), None);
    assert_eq!(unsigned("+", 5), None);
}

#[test]
fn numbers_are_read_from_a_part_of_a_text() {
    let text = chars("ab-12cd");
    assert_eq!(parse_i64(&text, 2, 5), Some(-12));
    assert_eq!(parse_i64(&text, 3, 5), Some(12));
    assert_eq!(parse_i64(&text, 2, 6), None);
    assert_eq!(parse_i64(&text, 3, 3), None);
    assert_eq!(parse_unsigned(&text, 3, 4, 9), Some(1));
}

#[test]
fn white_space_is_trimmed_at_both_ends() {
    let text = chars(" \t a b\u{a0}\n");
    assert_eq!(trim_range(&text, 0, text.len()), (3, 6));
    assert_eq!(trim_range(&text, 4, 5), (5, 5));
    assert_eq!(trim_range(&text, 3, 6), (3, 6));
    let blank = chars(" \r\n ");
    let (from, to) = trim_range(&blank, 0, blank.len());
    assert_eq!(from, to);
    assert_eq!(trim_range(&chars(""), 0, 0), (0, 0));
}

#[test]
fn trimming_agrees_with_the_standard_one() {
    for text in ["", " ", "a", " a", "a ", "  a b  ", "\u{2003}x\u{3000}", "\u{feff}x", "x\u{200b}"]
    {
        let all = chars(text);
        let (from, to) = trim_range(&all, 0, all.len());
        let trimmed: String = all[from..to].iter().collect();
        assert_eq!(trimmed, text.trim());
    }
}

#[test]
fn text_is_split_at_every_separator() {
    assert_eq!(split_ranges(&chars(""), ','), vec![(0, 0)]);
    assert_eq!(split_ranges(&chars("a"), ','), vec![(0, 1)]);
    assert_eq!(split_ranges(&chars(","), ','), vec![(0, 0), (1, 1)]);
    assert_eq!(split_ranges(&chars("a,bc,"), ','), vec![(0, 1), (2, 4), (5, 5)]);
    assert_eq!(split_ranges(&chars(",,a"), ','), vec![(0, 0), (1, 1), (2, 3)]);
}

#[test]
fn splitting_agrees_with_the_standard_one() {
    for text in ["", ",", "a,b", ",a,,b,", "no separator", "ä,ö,ü"] {
        let all = chars(text);
        let pieces: Vec<String> = split_ranges(&all, ',')
            .iter()
            .map(|range| all[range.0..range.1].iter().collect())
            .collect();
        let expected: Vec<String> = text.split(',').map(|piece| piece.to_string()).collect();
        assert_eq!(pieces, expected);
    }
}

#[test]
fn characters_are_replaced() {
    assert_eq!(replace_char("", '"', "\\\""), "");
    assert_eq!(replace_char("plain", '"', "\\\""), "plain");
    assert_eq!(replace_char("\"", '"', "\\\""), "\\\"");
    assert_eq!(replace_char("say \"hi\" now", '"', "\\\""), "say \\\"hi\\\" now");
    assert_eq!(replace_char("a-b-c", '-', ""), "abc");
    assert_eq!(replace_char("--", '-', "+-"), "+-+-");
    assert_eq!(replace_char("äxö", 'x', "ß"), "äßö");
}

#[test]
fn replacing_agrees_with_the_standard_one() {
    for text in ["", "\"", "\"\"", "a\"b", "\"a\"", "none", "ü\"ü"] {
        assert_eq!(replace_char(text, '"', "\\\""), text.replace('"', "\\\""));
    }
}

#[test]
fn quotes_are_stripped_at_both_ends() {
    let text = chars("\"\"1234\"");
    assert_eq!(strip_range(&text, 0, text.len(), '"'), (2, 6));
    let inner = chars("a\"b");
    assert_eq!(strip_range(&inner, 0, inner.len(), '"'), (0, 3));
    let only = chars("\"\"\"");
    let (from, to) = strip_range(&only, 0, only.len(), '"');
    assert_eq!(from, to);
}

#[test]
fn part_of_a_text_is_copied() {
    let text = chars("abcdef");
    assert_eq!(copy_range(&text, 2, 4), vec!['c', 'd']);
    assert_eq!(copy_range(&text, 3, 3), Vec::<char>::new());
    assert_eq!(copy_range(&text, 0, 6), text);
}
