use wsclip::numinfo::{group, parse_i64, print_info, print_int_info, split_radix, InfoLine};

fn pairs(lines: &[InfoLine]) -> Vec<(String, String)> {
    lines.iter().map(|l| (l.label.clone(), l.value.clone())).collect()
}

fn p(a: &str, b: &str) -> (String, String) {
    (a.to_string(), b.to_string())
}

#[test]
fn group_pads_to_full_groups() {
    assert_eq!(group("101", 4), "0101");
    assert_eq!(group("11111", 4), "0001 1111");
    assert_eq!(group("10101010", 4), "1010 1010");
    assert_eq!(group("", 4), "");
    assert_eq!(group("abcdefg", 3), "00a bcd efg");
}

#[test]
fn parse_in_radixes() {
    assert_eq!(parse_i64("ff", 16), Ok(255));
    assert_eq!(parse_i64("FF", 16), Ok(255));
    assert_eq!(parse_i64("101", 2), Ok(5));
    assert_eq!(parse_i64("-42", 10), Ok(-42));
    assert_eq!(parse_i64("+7", 10), Ok(7));
    assert_eq!(parse_i64("9223372036854775807", 10), Ok(i64::MAX));
    assert_eq!(parse_i64("-9223372036854775808", 10), Ok(i64::MIN));
}

#[test]
fn parse_errors_name_the_radix() {
    let e = parse_i64("12z", 16).unwrap_err();
    assert!(e.starts_with("failed to parse integer with radix 16: "));
    assert!(e.len() > "failed to parse integer with radix 16: ".len());
    assert!(parse_i64("", 10).is_err());
    assert!(parse_i64("-", 10).is_err());
    assert!(parse_i64("2", 2).is_err());
    let e = parse_i64("9223372036854775808", 10).unwrap_err();
    assert!(e.starts_with("failed to parse integer with radix 10: "));
}

#[test]
fn info_of_small_value() {
    assert_eq!(
        pairs(&print_int_info(255)),
        vec![
            p("Decimal-32", "255"),
            p("Decimal-64", "255"),
            p("Hex", "0xff"),
            p("Binary", "1111 1111"),
        ]
    );
    assert_eq!(
        pairs(&print_int_info(5)),
        vec![
            p("Decimal-32", "5"),
            p("Decimal-64", "5"),
            p("Hex", "0x5"),
            p("Binary", "0101"),
        ]
    );
}

#[test]
fn info_of_zero() {
    assert_eq!(
        pairs(&print_int_info(0)),
        vec![
            p("Decimal-32", "0"),
            p("Decimal-64", "0"),
            p("Hex", "0x0"),
            p("Binary", "0000"),
        ]
    );
}

#[test]
fn info_of_minus_one() {
    assert_eq!(
        pairs(&print_int_info(-1)),
        vec![
            p("Signed-32", "-1"),
            p("Unsigned-32", "4294967295"),
            p("Signed-64", "-1"),
            p("Unsigned-64", "18446744073709551615"),
            p("Hex-32", "0xffffffff"),
            p("Hex-64", "0xffffffffffffffff"),
            p("Binary-32", "1111 1111 1111 1111 1111 1111 1111 1111"),
            p(
                "Binary-64",
                "1111 1111 1111 1111 1111 1111 1111 1111 1111 1111 1111 1111 1111 1111 1111 1111"
            ),
        ]
    );
}

#[test]
fn info_of_value_above_32_bits() {
    assert_eq!(
        pairs(&print_int_info(0x1_8000_0000)),
        vec![
            p("Signed-32", "-2147483648"),
            p("Unsigned-32", "2147483648"),
            p("Decimal-64", "6442450944"),
            p("Hex-32", "0x80000000"),
            p("Hex-64", "0x180000000"),
            p("Binary-32", "1000 0000 0000 0000 0000 0000 0000 0000"),
            p("Binary-64", "0001 1000 0000 0000 0000 0000 0000 0000 0000"),
        ]
    );
}

#[test]
fn info_of_i64_min() {
    let lines = pairs(&print_int_info(i64::MIN));
    assert_eq!(lines[0], p("Decimal-32", "0"));
    assert_eq!(lines[1], p("Signed-64", "-9223372036854775808"));
    assert_eq!(lines[2], p("Unsigned-64", "9223372036854775808"));
    assert_eq!(lines[4], p("Hex-64", "0x8000000000000000"));
}

#[test]
fn radix_of_argument() {
    assert_eq!(split_radix("0xff"), ("ff", 16));
    assert_eq!(split_radix("xff"), ("ff", 16));
    assert_eq!(split_radix("0x10"), ("0x10", 10));
    assert_eq!(split_radix("0b101"), ("101", 2));
    assert_eq!(split_radix("123"), ("123", 10));
    assert_eq!(split_radix(""), ("", 10));
}

#[test]
fn info_of_float_bits() {
    let one_f32 = 1.0f32.to_bits();
    let one_f64 = 1.0f64.to_bits();
    assert_eq!(
        pairs(&print_info(one_f32, one_f64)),
        vec![
            p("Decimal-32", "1065353216"),
            p("Decimal-64", "4607182418800017408"),
            p("Hex-32", "0x3f800000"),
            p("Hex-64", "0x3ff0000000000000"),
            p("Binary-32", "0011 1111 1000 0000 0000 0000 0000 0000"),
            p(
                "Binary-64",
                "0011 1111 1111 0000 0000 0000 0000 0000 0000 0000 0000 0000 0000 0000 0000 0000"
            ),
        ]
    );
}

#[test]
fn info_of_negative_float_bits() {
    let bits = (-2.0f64).to_bits();
    let lines = pairs(&print_info((-2.0f32).to_bits(), bits));
    assert_eq!(lines[0], p("Signed-32", "-1073741824"));
    assert_eq!(lines[1], p("Unsigned-32", "3221225472"));
    assert_eq!(lines[2], p("Signed-64", "-4611686018427387904"));
    assert_eq!(lines[3], p("Unsigned-64", "13835058055282163712"));
}
