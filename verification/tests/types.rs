//! Tests for the fixed-point length type.

use millsim::types::Micrometer;

fn um(m: &str) -> Micrometer {
    Micrometer::parse(m).unwrap().1
}

#[test]
fn um_format() {
    let um = Micrometer(7042);
    let s = um.to_text();
    assert_eq!(s.as_str(), "7.042");
    let um = Micrometer(-7042);
    let s = um.to_text();
    assert_eq!(s.as_str(), "-7.042");
}

#[test]
fn um_format_keeps_sign_below_one_millimeter() {
    assert_eq!(Micrometer(-420).to_text().as_str(), "-0.420");
    assert_eq!(Micrometer(-999).to_text().as_str(), "-0.999");
    assert_eq!(Micrometer(-1).to_text().as_str(), "-0.001");
    assert_eq!(Micrometer(420).to_text().as_str(), "0.420");
    assert_eq!(Micrometer(0).to_text().as_str(), "0.000");
}

#[test]
fn um_parse() {
    assert_eq!(um("1"), Micrometer(1000));
    assert_eq!(um("+1"), Micrometer(1000));
    assert_eq!(um("-1"), Micrometer(-1000));
    assert_eq!(um("1."), Micrometer(1000));
    assert_eq!(um("+1."), Micrometer(1000));
    assert_eq!(um("-1."), Micrometer(-1000));

    assert_eq!(um("1.1"), Micrometer(1100));
    assert_eq!(um("1.01"), Micrometer(1010));
    assert_eq!(um("1.001"), Micrometer(1001));
    assert_eq!(um("1.0001"), Micrometer(1000));
    assert_eq!(um("-1.1"), Micrometer(-1100));
    assert_eq!(um("-1.01"), Micrometer(-1010));
    assert_eq!(um("-1.001"), Micrometer(-1001));
    assert_eq!(um("-1.0001"), Micrometer(-1000));
    assert_eq!(um("-1.1000000"), Micrometer(-1100));

    assert_eq!(um(".42"), Micrometer(420));
    assert_eq!(um("-.42"), Micrometer(-420));
}

#[test]
fn um_parse_consumed() {
    let (used, v) = Micrometer::parse("12.5X").unwrap();
    assert_eq!(used, 4);
    assert_eq!(v, Micrometer(12500));
    assert!(Micrometer::parse("x12").is_none());
    assert!(Micrometer::parse("-").is_none());
    assert!(Micrometer::parse(".").is_none());
    // The integer part must fit `u32`.
    assert!(Micrometer::parse("4294967296").is_none());
    assert_eq!(um("4294967295"), Micrometer(4_294_967_295_000));
}

#[test]
fn um_round_trip() {
    for s in ["1.1", "0.042", "+7.", "12.3456", "-3.25", "150", "0", "-.42", "-0.5", "-0."] {
        let v = um(s);
        let back = um(&v.to_text());
        assert_eq!(v, back);
    }
    assert_eq!(um("1.1").to_text(), "1.100");
    assert_eq!(um("+1").to_text(), "1.000");
    assert_eq!(um("-12.0009").to_text(), "-12.000");
    assert_eq!(um("-.42").to_text(), "-0.420");
    assert_eq!(um("-0.").to_text(), "0.000");
}

#[test]
fn um_checked_arithmetic() {
    assert_eq!(
        Micrometer(2).checked_add(Micrometer(40)),
        Some(Micrometer(42))
    );
    assert_eq!(Micrometer(i64::MAX).checked_add(Micrometer(1)), None);
    assert_eq!(
        Micrometer(2).checked_sub(Micrometer(40)),
        Some(Micrometer(-38))
    );
    assert_eq!(Micrometer(i64::MIN).checked_sub(Micrometer(1)), None);
}
