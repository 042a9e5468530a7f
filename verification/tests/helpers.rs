use pirula_time::arith::{floor_sqrt, round_div};
use pirula_time::decimal::{append_decimal, append_two_digits, digit_of, parse_unsigned};
use pirula_time::text::{chars_of, find_from, join_range, split_ranges};

fn chars(text: &str) -> Vec<char> {
    text.chars().collect()
}

#[test]
fn digit_of_tells_digits_from_other_characters() {
    assert_eq!(digit_of('0'), Some(0));
    assert_eq!(digit_of('7'), Some(7));
    assert_eq!(digit_of('9'), Some(9));
    assert_eq!(digit_of('/'), None);
    assert_eq!(digit_of(':'), None);
    assert_eq!(digit_of('a'), None);
    assert_eq!(digit_of('٣'), None);
}

#[test]
fn parse_unsigned_reads_a_part_of_the_text() {
    let text = chars("ab+0123cd");
    assert_eq!(parse_unsigned(&text, 2, 7), Some(123));
    assert_eq!(parse_unsigned(&text, 3, 7), Some(123));
    assert_eq!(parse_unsigned(&text, 3, 5), Some(1));
    assert_eq!(parse_unsigned(&text, 2, 3), None);
    assert_eq!(parse_unsigned(&text, 4, 4), None);
    assert_eq!(parse_unsigned(&text, 1, 7), None);
    assert_eq!(parse_unsigned(&text, 3, 8), None);
    assert_eq!(parse_unsigned(&chars("++1"), 0, 3), None);
    assert_eq!(parse_unsigned(&chars("1+1"), 0, 3), None);
}

#[test]
fn parse_unsigned_limits() {
    assert_eq!(parse_unsigned(&chars("18446744073709551615"), 0, 20), Some(u64::MAX));
    assert_eq!(parse_unsigned(&chars("18446744073709551616"), 0, 20), None);
    assert_eq!(parse_unsigned(&chars("000000000000000000000000001"), 0, 27), Some(1));
    assert_eq!(parse_unsigned(&chars("99999999999999999999x"), 0, 21), None);
}

#[test]
fn append_decimal_writes_the_shortest_numeral() {
    let mut out = String::from("n=");
    append_decimal(&mut out, 0);
    assert_eq!(out, "n=0");
    append_decimal(&mut out, 907);
    assert_eq!(out, "n=0907");
    let mut out = String::new();
    append_decimal(&mut out, u64::MAX);
    assert_eq!(out, "18446744073709551615");
}

#[test]
fn append_two_digits_pads_one_digit() {
    let mut out = String::new();
    append_two_digits(&mut out, 0);
    append_two_digits(&mut out, 7);
    append_two_digits(&mut out, 10);
    append_two_digits(&mut out, 123);
    assert_eq!(out, "000710123");
}

#[test]
fn chars_of_gives_every_character() {
    assert_eq!(chars_of("PT5é"), vec!['P', 'T', '5', 'é']);
    assert!(chars_of("").is_empty());
}

#[test]
fn find_from_gives_the_first_place_or_the_length() {
    let text = chars("a:b:c");
    assert_eq!(find_from(&text, 0, ':'), 1);
    assert_eq!(find_from(&text, 1, ':'), 1);
    assert_eq!(find_from(&text, 2, ':'), 3);
    assert_eq!(find_from(&text, 4, ':'), 5);
    assert_eq!(find_from(&text, 5, ':'), 5);
    assert_eq!(find_from(&text, 0, 'x'), 5);
}

#[test]
fn split_ranges_gives_one_field_more_than_separators() {
    assert_eq!(split_ranges(&chars("01:02:03"), ':'), vec![(0, 2), (3, 5), (6, 8)]);
    assert_eq!(split_ranges(&chars("abc"), ':'), vec![(0, 3)]);
    assert_eq!(split_ranges(&chars(""), ':'), vec![(0, 0)]);
    assert_eq!(split_ranges(&chars(":"), ':'), vec![(0, 0), (1, 1)]);
    assert_eq!(split_ranges(&chars("a::b:"), ':'), vec![(0, 1), (2, 2), (3, 4), (5, 5)]);
}

#[test]
fn join_range_puts_the_separator_between_neighbours() {
    let parts: Vec<String> = ["a", "bb", "", "c"].iter().map(|p| p.to_string()).collect();
    assert_eq!(join_range(&parts, 0, 4, ","), "a,bb,,c");
    assert_eq!(join_range(&parts, 1, 2, ","), "bb");
    assert_eq!(join_range(&parts, 2, 4, ","), ",c");
    assert_eq!(join_range(&parts, 3, 3, ","), "");
}

#[test]
fn floor_sqrt_cuts_the_root() {
    assert_eq!(floor_sqrt(0), 0);
    assert_eq!(floor_sqrt(1), 1);
    assert_eq!(floor_sqrt(3), 1);
    assert_eq!(floor_sqrt(4), 2);
    assert_eq!(floor_sqrt(66), 8);
    assert_eq!(floor_sqrt(99), 9);
    assert_eq!(floor_sqrt(100), 10);
    assert_eq!(floor_sqrt((1u128 << 64) - 1), (1u64 << 32) - 1);
    assert_eq!(floor_sqrt(1u128 << 64), 1u64 << 32);
    assert_eq!(floor_sqrt(u128::MAX), u64::MAX);
    assert_eq!(floor_sqrt(u64::MAX as u128 * u64::MAX as u128), u64::MAX);
    assert_eq!(floor_sqrt(u64::MAX as u128 * u64::MAX as u128 - 1), u64::MAX - 1);
}

#[test]
fn round_div_goes_to_the_nearest_and_to_the_even_of_two() {
    assert_eq!(round_div(7, 2), 4);
    assert_eq!(round_div(5, 2), 2);
    assert_eq!(round_div(1, 2), 0);
    assert_eq!(round_div(3, 2), 2);
    assert_eq!(round_div(10, 3), 3);
    assert_eq!(round_div(11, 3), 4);
    assert_eq!(round_div(0, 9), 0);
    assert_eq!(round_div(9, 1), 9);
    assert_eq!(round_div(u128::MAX, 1), u128::MAX);
    assert_eq!(round_div(u128::MAX, u128::MAX), 1);
    assert_eq!(round_div(u128::MAX - 1, u128::MAX), 1);
    assert_eq!(round_div(u128::MAX / 2, u128::MAX), 0);
    assert_eq!(round_div(u128::MAX, 2), 1u128 << 127);
}
