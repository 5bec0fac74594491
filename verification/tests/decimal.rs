use playground::decimal::{i32_to_string, parse_i32, prefixed_i32, push_decimal_u64, u64_to_string};

#[test]
fn formats_like_display() {
    for n in [0, 7, 10, 42, -1, -10, 2024, i32::MAX, i32::MIN] {
        assert_eq!(i32_to_string(n), n.to_string());
    }
    assert_eq!(u64_to_string(0), "0");
    assert_eq!(u64_to_string(u64::MAX), u64::MAX.to_string());
    let mut s = String::from("x=");
    push_decimal_u64(&mut s, 1234567890);
    assert_eq!(s, "x=1234567890");
    assert_eq!(prefixed_i32("task", -3), "task-3");
}

#[test]
fn parses_like_str_parse() {
    let cases: [&str; 16] = [
        "0", "375", "+12", "-7", "007", "-0", "2147483647", "-2147483648", "2147483648",
        "-2147483649", "", "+", "-", "12a", " 1", "99999999999999999999",
    ];
    for c in cases {
        assert_eq!(parse_i32(c.as_bytes()), c.parse::<i32>().ok(), "input {:?}", c);
    }
}

#[test]
fn parse_reads_back_what_format_writes() {
    for n in [0, 1, -1, 3112, -7445, i32::MAX, i32::MIN] {
        assert_eq!(parse_i32(i32_to_string(n).as_bytes()), Some(n));
    }
}

#[test]
fn parse_rejects_non_ascii_digits() {
    assert_eq!(parse_i32("١٢".as_bytes()), None);
    assert_eq!(parse_i32(&[0xff, 0x31]), None);
}
