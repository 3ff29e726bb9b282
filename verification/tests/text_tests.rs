use copypathtool::text::{decimal_i64, decimal_u64, decimal_width2_i64, parse_i32_str, same_text, wide_nul};

fn s(v: Vec<char>) -> String {
    v.into_iter().collect()
}

#[test]
fn decimal_numbers() {
    assert_eq!(s(decimal_u64(0)), "0");
    assert_eq!(s(decimal_u64(1234567890)), "1234567890");
    assert_eq!(s(decimal_u64(u64::MAX)), u64::MAX.to_string());
    assert_eq!(s(decimal_i64(-42)), "-42");
    assert_eq!(s(decimal_i64(i64::MIN)), i64::MIN.to_string());
}

#[test]
fn two_digit_numbers_match_format() {
    for n in [-100i64, -10, -9, -1, 0, 1, 9, 10, 99, 100, 2147483647] {
        assert_eq!(s(decimal_width2_i64(n)), format!("{:02}", n));
    }
}

#[test]
fn parse_matches_std() {
    for t in ["0", "-0", "+0", "12", "-12", "+", "-", "", "1a", "2147483647", "2147483648", "-2147483648", "-2147483649", "0000000000000000000001"] {
        assert_eq!(parse_i32_str(t), t.parse::<i32>().ok());
    }
}

#[test]
fn wide_strings() {
    assert_eq!(wide_nul("A"), vec![65u16, 0]);
    assert_eq!(wide_nul("中"), vec![0x4e2du16, 0]);
    assert_eq!(wide_nul("\u{1F600}"), vec![0xD83Du16, 0xDE00, 0]);
    assert_eq!(wide_nul(""), vec![0u16]);
    let t = "C:\\路徑\\😀.txt";
    let mut expected: Vec<u16> = t.encode_utf16().collect();
    expected.push(0);
    assert_eq!(wide_nul(t), expected);
}

#[test]
fn text_equality() {
    assert!(same_text("--cmd", "--cmd"));
    assert!(!same_text("--cmd", "--cm"));
    assert!(!same_text("--cmd", "--CMD"));
}
