use lmaobgd::number::parse_i32;
use lmaobgd::results::num_list;

#[test]
fn correct_list_positions() {
    assert_eq!(num_list("Câu đúng: 1, 3, 5"), vec![1, 3, 5]);
}

#[test]
fn list_without_digits_is_empty() {
    assert_eq!(num_list("Câu sai:"), Vec::<usize>::new());
    assert_eq!(num_list(""), Vec::<usize>::new());
}

#[test]
fn runs_are_maximal() {
    assert_eq!(num_list("12 34,5;678"), vec![12, 34, 5, 678]);
    assert_eq!(num_list("a1b22c333"), vec![1, 22, 333]);
    assert_eq!(num_list("42"), vec![42]);
    assert_eq!(num_list("x42"), vec![42]);
    assert_eq!(num_list("42x"), vec![42]);
}

#[test]
fn leading_zeros_and_zero() {
    assert_eq!(num_list("007, 0, 000"), vec![7, 0, 0]);
}

#[test]
fn signs_and_points_separate() {
    assert_eq!(num_list("-3 +4 1.5"), vec![3, 4, 1, 5]);
}

#[test]
fn other_scripts_are_no_digits() {
    // Arabic-Indic and full-width digits
    assert_eq!(num_list("١٢٣ １２３ 9"), vec![9]);
}

#[test]
fn numbers_beyond_the_word_are_left_out() {
    let max = usize::MAX.to_string();
    assert_eq!(num_list(&max), vec![usize::MAX]);
    let text = format!("1 {}0 2 99999999999999999999999999999999 3", max);
    assert_eq!(num_list(&text), vec![1, 2, 3]);
    let padded = format!("000000000000000000000000000000{}", max);
    assert_eq!(num_list(&padded), vec![usize::MAX]);
}

#[test]
fn identifiers() {
    assert_eq!(parse_i32("0"), Some(0));
    assert_eq!(parse_i32("12345"), Some(12345));
    assert_eq!(parse_i32("-17"), Some(-17));
    assert_eq!(parse_i32("+17"), Some(17));
    assert_eq!(parse_i32("-0"), Some(0));
    assert_eq!(parse_i32("0042"), Some(42));
    assert_eq!(parse_i32("2147483647"), Some(i32::MAX));
    assert_eq!(parse_i32("-2147483648"), Some(i32::MIN));
}

#[test]
fn bad_identifiers() {
    assert_eq!(parse_i32(""), None);
    assert_eq!(parse_i32("-"), None);
    assert_eq!(parse_i32("+"), None);
    assert_eq!(parse_i32(" 1"), None);
    assert_eq!(parse_i32("1 "), None);
    assert_eq!(parse_i32("1a"), None);
    assert_eq!(parse_i32("--1"), None);
    assert_eq!(parse_i32("1-"), None);
    assert_eq!(parse_i32("١"), None);
    assert_eq!(parse_i32("2147483648"), None);
    assert_eq!(parse_i32("-2147483649"), None);
    assert_eq!(parse_i32("99999999999999999999999999"), None);
    assert_eq!(parse_i32("-99999999999999999999999999"), None);
}

#[test]
fn identifiers_agree_with_the_standard_parser() {
    let samples = [
        "7", "-7", "+7", "", "+", "-", "00", "-00", "1_000", "0x10", "2147483647", "2147483648",
        "-2147483648", "-2147483649", "12 ", "\n12", "٣", "3.0", "+-3", "000000000000000000001",
    ];
    for s in samples {
        assert_eq!(parse_i32(s), s.parse::<i32>().ok(), "on {:?}", s);
    }
}
