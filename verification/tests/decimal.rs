use ireina::decimal::{mean_of_two, Price, MAX_SCALE};
use rust_decimal::Decimal;
use std::str::FromStr;

fn price(text: &str) -> Price {
    Price::parse(text).unwrap()
}

fn to_decimal(p: &Price) -> Decimal {
    let (hi, mid, lo) = p.limbs();
    let mut d = Decimal::from_parts(lo, mid, hi, p.is_negative(), p.scale());
    d.set_sign_negative(p.is_negative());
    d
}

#[test]
fn parse_reads_what_rust_decimal_reads() {
    for text in ["0", "1", "-1", "42.50", "0.00000001", "79228162514264337593543950335", "1e3"] {
        let p = price(text);
        assert_eq!(to_decimal(&p), Decimal::from_str(text).unwrap());
        assert_eq!(to_decimal(&p).to_string(), Decimal::from_str(text).unwrap().to_string());
    }
}

#[test]
fn parse_keeps_sign_limbs_and_scale() {
    let p = price("-12345.6789");
    assert!(p.is_negative());
    assert_eq!(p.scale(), 4);
    assert_eq!(p.limbs(), (0, 0, 123456789));
    let q = price("18446744073709551616");
    assert_eq!(q.limbs(), (1, 0, 0));
    assert_eq!(q.scale(), 0);
    assert!(!q.is_negative());
}

#[test]
fn parse_hands_on_the_refusal() {
    assert_eq!(Price::parse(""), Err("Invalid decimal: empty".to_string()));
    let refusal = Price::parse("twelve").unwrap_err();
    assert_eq!(refusal, Decimal::from_str("twelve").unwrap_err().to_string());
    assert_ne!(refusal, "twelve");
}

#[test]
fn new_refuses_a_scale_out_of_range() {
    assert!(Price::new(false, 0, 0, 1, MAX_SCALE).is_some());
    assert!(Price::new(false, 0, 0, 1, MAX_SCALE + 1).is_none());
    assert!(Price::new(true, 7, 8, 9, 0).is_some());
}

#[test]
fn new_builds_from_limbs() {
    let p = Price::new(true, 0, 0, 1500, 3).unwrap();
    assert_eq!(p, price("-1.500"));
    assert_eq!(to_decimal(&p), Decimal::new(-1500, 3));
}

#[test]
fn from_u32_is_the_whole_number() {
    assert_eq!(Price::from_u32(2), price("2"));
    assert_eq!(Price::from_u32(0).limbs(), (0, 0, 0));
}

#[test]
fn at_most_compares_values() {
    assert!(price("1").at_most(&price("2")));
    assert!(!price("2").at_most(&price("1")));
    assert!(price("1.50").at_most(&price("1.5")));
    assert!(price("1.5").at_most(&price("1.50")));
    assert!(price("-2").at_most(&price("-1")));
    assert!(!price("-1").at_most(&price("-2")));
    assert!(price("-0.01").at_most(&price("0")));
    assert!(price("0.09").at_most(&price("0.1")));
    assert!(!price("0.1").at_most(&price("0.09")));
}

#[test]
fn a_signed_zero_is_zero() {
    let negative_zero = Price::new(true, 0, 0, 0, 2).unwrap();
    assert!(negative_zero.same_value(&price("0")));
    assert!(negative_zero.at_most(&price("0")));
    assert!(price("0").at_most(&negative_zero));
    assert_ne!(negative_zero, price("0.00"));
}

#[test]
fn same_value_ignores_how_a_price_is_written() {
    assert!(price("1.0").same_value(&price("1.00")));
    assert_ne!(price("1.0"), price("1.00"));
    assert!(!price("1.0").same_value(&price("1.01")));
}

#[test]
fn mean_of_two_is_half_the_sum() {
    assert_eq!(mean_of_two(&price("1"), &price("3")), Some(price("2")));
    assert!(mean_of_two(&price("1"), &price("2")).unwrap().same_value(&price("1.5")));
    assert!(mean_of_two(&price("-1"), &price("1")).unwrap().same_value(&price("0")));
    assert!(mean_of_two(&price("10.5"), &price("0.25")).unwrap().same_value(&price("5.375")));
    assert!(!mean_of_two(&price("10.5"), &price("0.25")).unwrap().same_value(&price("10.5")));
}

#[test]
fn mean_of_two_is_what_rust_decimal_computes() {
    for (a, b) in [("1", "3"), ("0.1", "0.2"), ("100.25", "-7"), ("1", "0.0000000000000000000000000001")] {
        let expected = (Decimal::from_str(a).unwrap() + Decimal::from_str(b).unwrap()) / Decimal::TWO;
        let mean = mean_of_two(&price(a), &price(b)).unwrap();
        assert_eq!(to_decimal(&mean).to_string(), expected.to_string());
    }
}

#[test]
fn mean_of_two_beyond_the_range_is_none() {
    let largest = Price::new(false, u32::MAX, u32::MAX, u32::MAX, 0).unwrap();
    assert_eq!(mean_of_two(&largest, &largest), None);
    assert_eq!(mean_of_two(&largest, &price("-1")).map(|p| to_decimal(&p)),
        Some((Decimal::MAX - Decimal::ONE) / Decimal::TWO));
}
