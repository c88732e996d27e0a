use purpleair_exporter::aqi::{estimate, exceeds_aqi_scale};
use purpleair_exporter::decimal::parse_decimal;

fn est(s: &str) -> i32 {
    estimate(parse_decimal(s).unwrap())
}

#[test]
fn test_pm_2_5_aqi_estimate() {
    assert_eq!(est("9.5"), 40);
    assert_eq!(est("11"), 46);
    assert_eq!(est("12"), 50);
    assert_eq!(est("12.1"), 51);
    assert_eq!(est("15"), 57);
    assert_eq!(est("30"), 89);
    assert_eq!(est("35.4"), 100);
    assert_eq!(est("35.5"), 101);
    assert_eq!(est("50"), 137);
    assert_eq!(est("55.4"), 150);
    assert_eq!(est("55.5"), 151);
    assert_eq!(est("100"), 174);
    assert_eq!(est("150.4"), 200);
    assert_eq!(est("150.5"), 201);
    assert_eq!(est("175"), 225);
    assert_eq!(est("200"), 250);
    assert_eq!(est("201"), 251);
    assert_eq!(est("250"), 300);
    assert_eq!(est("251"), 301);
    assert_eq!(est("300"), 350);
    assert_eq!(est("350"), 400);
    assert_eq!(est("351"), 401);
    assert_eq!(est("400"), 434);
    assert_eq!(est("500"), 500);
    // These are above the scale
    assert_eq!(est("501"), 501);
    assert_eq!(est("550"), 501);
    assert_eq!(est("900"), 503);
}

#[test]
fn test_low_band_is_rounded_ramp() {
    // round(v * 50 / 12) for v in the lowest band.
    assert_eq!(est("0"), 0);
    assert_eq!(est("1.2"), 5);
    assert_eq!(est("6"), 25);
    // 0.12 * 50 / 12 == 0.5: rounding is half away from zero.
    assert_eq!(est("0.12"), 1);
    assert_eq!(est("12"), 50);
}

#[test]
fn test_boundary_ownership() {
    // 35.4 belongs to the second band, 35.5 to the third.
    assert_eq!(est("35.4"), 100);
    assert_eq!(est("35.5"), 101);
    // The first band owns its upper edge too.
    assert_eq!(est("12"), 50);
    assert_eq!(est("12.1"), 51);
}

#[test]
fn test_monotone_below_table_top() {
    let samples = [
        "0", "0.1", "1", "5", "11.9", "12", "12.1", "20", "35.4", "35.5", "55.4", "55.5", "100",
        "150.4", "150.5", "250.4", "250.5", "350.4", "350.5", "500.4", "500.5", "700", "5000",
        "99999.8",
    ];
    let mut last = i32::MIN;
    for s in samples {
        let v = est(s);
        assert!(v >= last, "estimate({}) = {} dropped below {}", s, v, last);
        last = v;
    }
}

#[test]
fn test_out_of_scale() {
    assert!(!exceeds_aqi_scale(parse_decimal("500.4").unwrap()));
    assert!(exceeds_aqi_scale(parse_decimal("500.5").unwrap()));
    assert!(exceeds_aqi_scale(parse_decimal("900").unwrap()));
    assert_eq!(est("500.5"), 501);
    assert_eq!(est("550"), 501);
    // Past the table's end the index is pinned to 501.
    assert_eq!(est("99999.9"), 501);
    assert_eq!(est("123456"), 501);
}

#[test]
fn test_negative_input_is_total() {
    // round(-1 * 50 / 12) == round(-4.1667) == -4
    assert_eq!(est("-1"), -4);
    assert_eq!(est("-0.12"), -1);
    assert_eq!(est("-0"), 0);
}

#[test]
fn test_estimate_is_deterministic() {
    for s in ["0", "12", "35.4", "150.5", "900", "99999.9", "-3.5"] {
        let r = parse_decimal(s).unwrap();
        assert_eq!(estimate(r), estimate(r));
    }
}
