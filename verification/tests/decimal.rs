use organizer::decimal::{decimal_string, parse_number};

#[test]
fn parse_number_reads_digits() {
    assert_eq!(parse_number("0"), Some(0));
    assert_eq!(parse_number("7"), Some(7));
    assert_eq!(parse_number("2019"), Some(2019));
}

#[test]
fn parse_number_takes_leading_zeros() {
    assert_eq!(parse_number("0042"), Some(42));
    assert_eq!(parse_number("000"), Some(0));
}

#[test]
fn parse_number_takes_one_plus_sign() {
    assert_eq!(parse_number("+2020"), Some(2020));
    assert_eq!(parse_number("++2020"), None);
    assert_eq!(parse_number("+"), None);
    assert_eq!(parse_number("20+20"), None);
}

#[test]
fn parse_number_refuses_a_minus_sign() {
    assert_eq!(parse_number("-5"), None);
    assert_eq!(parse_number("-0"), None);
    assert_eq!(parse_number("-"), None);
}

#[test]
fn parse_number_refuses_the_empty_text() {
    assert_eq!(parse_number(""), None);
}

#[test]
fn parse_number_refuses_what_is_no_digit() {
    assert_eq!(parse_number("MMXX"), None);
    assert_eq!(parse_number("20a0"), None);
    assert_eq!(parse_number(" 2020"), None);
    assert_eq!(parse_number("2020 "), None);
    assert_eq!(parse_number("2020.0"), None);
    assert_eq!(parse_number("٢٠٢٠"), None);
    assert_eq!(parse_number("２０２０"), None);
}

#[test]
fn parse_number_reads_up_to_the_largest_usize() {
    let largest = usize::MAX.to_string();
    assert_eq!(parse_number(&largest), Some(usize::MAX));
}

#[test]
fn parse_number_refuses_what_does_not_fit() {
    assert_eq!(parse_number("340282366920938463463374607431768211456"), None);
    let mut above = usize::MAX.to_string();
    above.push('0');
    assert_eq!(parse_number(&above), None);
    let largest = usize::MAX.to_string();
    let (head, last) = largest.split_at(largest.len() - 1);
    let digit: u32 = last.parse().unwrap();
    if digit < 9 {
        let next = format!("{}{}", head, digit + 1);
        assert_eq!(parse_number(&next), None);
    }
}

#[test]
fn parse_number_agrees_with_the_standard_library() {
    let tokens = [
        "", "0", "1", "+1", "-1", "+", "-", "++1", "+-1", "12345", "0012", "1_000", "1e3", "0x10",
        " 1", "1 ", "2019", "99999999999999999999999999999", "18446744073709551615",
        "18446744073709551616", "4294967295", "4294967296", "abc", "１２",
    ];
    for token in tokens {
        let expected: Option<usize> = token.parse::<usize>().ok();
        assert_eq!(parse_number(token), expected, "token {:?}", token);
    }
}

#[test]
fn decimal_string_writes_single_digits() {
    assert_eq!(decimal_string(0), "0");
    assert_eq!(decimal_string(5), "5");
    assert_eq!(decimal_string(9), "9");
}

#[test]
fn decimal_string_writes_without_leading_zeros() {
    assert_eq!(decimal_string(10), "10");
    assert_eq!(decimal_string(2019), "2019");
    assert_eq!(decimal_string(1000000), "1000000");
}

#[test]
fn decimal_string_writes_the_largest_usize() {
    assert_eq!(decimal_string(usize::MAX), usize::MAX.to_string());
}

#[test]
fn reading_what_was_written_gives_the_number_back() {
    let numbers = [0usize, 1, 9, 10, 11, 99, 100, 1980, 2019, 65535, usize::MAX - 1, usize::MAX];
    for n in numbers {
        assert_eq!(parse_number(&decimal_string(n)), Some(n));
    }
}
