use firewall_manager::numbers::{decimal_text, parse_i32_text, parse_timeout};

#[test]
fn parses_like_std() {
    let samples = [
        "", "0", "30", "-5", "+7", "-", "+", "--1", "+-1", " 1", "1 ", "12a", "2147483647", "2147483648",
        "-2147483648", "-2147483649", "0000000000000000000042", "99999999999999999999", "-0", "٣",
    ];
    for s in samples.iter() {
        assert_eq!(parse_i32_text(s), s.parse::<i32>().ok(), "input {:?}", s);
    }
}

#[test]
fn timeout_defaults_to_zero() {
    assert_eq!(parse_timeout("0"), 0);
    assert_eq!(parse_timeout("3600"), 3600);
    assert_eq!(parse_timeout("forever"), 0);
    assert_eq!(parse_timeout(""), 0);
    assert_eq!(parse_timeout("-2147483648"), i32::MIN);
    assert_eq!(parse_timeout("2147483648"), 0);
}

#[test]
fn decimal_matches_to_string() {
    for n in [0usize, 1, 9, 10, 11, 99, 100, 12345, usize::MAX] {
        assert_eq!(decimal_text(n), n.to_string());
    }
}
