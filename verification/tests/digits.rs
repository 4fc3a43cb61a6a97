use lemmy_know::digits::{i32_to_string, parse_i32, u32_to_string};

#[test]
fn formats_small_numbers() {
    assert_eq!("0", u32_to_string(0).as_str());
    assert_eq!("7", u32_to_string(7).as_str());
    assert_eq!("10", u32_to_string(10).as_str());
    assert_eq!("4294967295", u32_to_string(4294967295).as_str());
}

#[test]
fn formats_signed_numbers() {
    assert_eq!("0", i32_to_string(0).as_str());
    assert_eq!("42", i32_to_string(42).as_str());
    assert_eq!("-1", i32_to_string(-1).as_str());
    assert_eq!("2147483647", i32_to_string(2147483647).as_str());
    assert_eq!("-2147483648", i32_to_string(-2147483648).as_str());
}

#[test]
fn parses_canonical_forms() {
    assert_eq!(Some(0), parse_i32("0"));
    assert_eq!(Some(42), parse_i32("42"));
    assert_eq!(Some(-1), parse_i32("-1"));
    assert_eq!(Some(2147483647), parse_i32("2147483647"));
    assert_eq!(Some(-2147483648), parse_i32("-2147483648"));
}

#[test]
fn rejects_non_canonical_forms() {
    assert_eq!(None, parse_i32(""));
    assert_eq!(None, parse_i32("-"));
    assert_eq!(None, parse_i32("007"));
    assert_eq!(None, parse_i32("-0"));
    assert_eq!(None, parse_i32("+5"));
    assert_eq!(None, parse_i32("12a"));
    assert_eq!(None, parse_i32("2147483648"));
    assert_eq!(None, parse_i32("-2147483649"));
    assert_eq!(None, parse_i32("99999999999999999999"));
}

#[test]
fn format_then_parse_roundtrips() {
    let values: Vec<i32> = vec![0, 1, -1, 9, 10, -10, 123456, -654321, 2147483647, -2147483648];
    for v in values {
        assert_eq!(Some(v), parse_i32(i32_to_string(v).as_str()));
    }
}
