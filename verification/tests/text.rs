use cch24::text::push_decimal;

fn decimal(n: u32) -> String {
    let mut out = String::new();
    push_decimal(&mut out, n);
    out
}

#[test]
fn numbers_are_written_in_decimal_digits() {
    assert_eq!(decimal(0), "0");
    assert_eq!(decimal(7), "7");
    assert_eq!(decimal(9), "9");
    assert_eq!(decimal(10), "10");
    assert_eq!(decimal(99), "99");
    assert_eq!(decimal(100), "100");
    assert_eq!(decimal(255), "255");
    assert_eq!(decimal(1203), "1203");
    assert_eq!(decimal(u32::MAX), "4294967295");
    for n in 0..2000u32 {
        assert_eq!(decimal(n), n.to_string());
    }
}

#[test]
fn digits_are_appended() {
    let mut out = String::from("top:");
    push_decimal(&mut out, 250);
    out.push_str("px");
    assert_eq!(out, "top:250px");
}
