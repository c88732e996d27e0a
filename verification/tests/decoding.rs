use purpleair_exporter::decimal::{i64_dec_string, parse_decimal, parse_i64, Reading};
use purpleair_exporter::sensor::{decode_sensor, DecodeError, FieldName, RawSensorRecord};

fn units(s: &str) -> i64 {
    parse_decimal(s).unwrap().units
}

#[test]
fn test_parse_decimal_values() {
    assert_eq!(units("12.0"), 120000);
    assert_eq!(units("12"), 120000);
    assert_eq!(units("12."), 120000);
    assert_eq!(units(".5"), 5000);
    assert_eq!(units("0.1234"), 1234);
    assert_eq!(units("0.12340000"), 1234);
    assert_eq!(units("-0.5"), -5000);
    assert_eq!(units("+3"), 30000);
    assert_eq!(units("-0.0"), 0);
    assert_eq!(units("00012.50"), 125000);
    assert_eq!(units("99999.9"), 999999000);
}

#[test]
fn test_parse_decimal_rejects() {
    assert!(parse_decimal("").is_none());
    assert!(parse_decimal("-").is_none());
    assert!(parse_decimal("+").is_none());
    assert!(parse_decimal(".").is_none());
    assert!(parse_decimal("-.").is_none());
    assert!(parse_decimal("1.2.3").is_none());
    assert!(parse_decimal("12a").is_none());
    assert!(parse_decimal("a12").is_none());
    assert!(parse_decimal("1e3").is_none());
    assert!(parse_decimal(" 12").is_none());
    // A fifth fractional digit is held only when it is zero.
    assert!(parse_decimal("0.12345").is_none());
}

#[test]
fn test_parse_decimal_range() {
    assert_eq!(units("922337203685476"), 922_337_203_685_476 * 10000);
    assert!(parse_decimal("922337203685477").is_none());
    assert_eq!(units("-922337203685476.9999"), -9223372036854769999);
}

#[test]
fn test_parse_i64_values() {
    assert_eq!(parse_i64("0"), Some(0));
    assert_eq!(parse_i64("123"), Some(123));
    assert_eq!(parse_i64("+5"), Some(5));
    assert_eq!(parse_i64("-123"), Some(-123));
    assert_eq!(parse_i64("9223372036854775807"), Some(i64::MAX));
    assert_eq!(parse_i64("-9223372036854775808"), Some(i64::MIN));
    assert_eq!(parse_i64("0009"), Some(9));
}

#[test]
fn test_parse_i64_rejects() {
    assert_eq!(parse_i64(""), None);
    assert_eq!(parse_i64("-"), None);
    assert_eq!(parse_i64("12.0"), None);
    assert_eq!(parse_i64("9223372036854775808"), None);
    assert_eq!(parse_i64("-9223372036854775809"), None);
    assert_eq!(parse_i64("12x"), None);
}

#[test]
fn test_i64_dec_string() {
    assert_eq!(i64_dec_string(0), "0");
    assert_eq!(i64_dec_string(7), "7");
    assert_eq!(i64_dec_string(1052), "1052");
    assert_eq!(i64_dec_string(-12), "-12");
    assert_eq!(i64_dec_string(i64::MAX), "9223372036854775807");
    assert_eq!(i64_dec_string(i64::MIN), "-9223372036854775808");
}

fn complete_raw() -> RawSensorRecord {
    RawSensorRecord {
        id: Some(1),
        label: Some("A".to_string()),
        lat: Some("1".to_string()),
        lon: Some("2".to_string()),
        pm2_5_value: Some("12.0".to_string()),
        uptime: None,
        last_seen: Some(1000),
        temp_f: None,
        humidity: None,
        pressure: None,
        p_0_3_um: Some("0".to_string()),
        p_0_5_um: Some("0".to_string()),
        p_1_0_um: Some("0".to_string()),
        p_2_5_um: Some("0".to_string()),
        p_5_0_um: Some("0".to_string()),
        p_10_0_um: Some("0".to_string()),
        pm1_0_cf_1: Some("0".to_string()),
        pm2_5_cf_1: Some("0".to_string()),
        pm10_0_cf_1: Some("0".to_string()),
        pm1_0_atm: Some("0".to_string()),
        pm2_5_atm: Some("0".to_string()),
        pm10_0_atm: Some("0".to_string()),
    }
}

#[test]
fn test_decode_optional_fields_absent() {
    let snap = decode_sensor(&complete_raw()).unwrap();
    assert_eq!(snap.id, 1);
    assert_eq!(snap.label, "A");
    assert_eq!(snap.lat_text, "1");
    assert_eq!(snap.lon_text, "2");
    assert_eq!(snap.pm2_5, Reading { units: 120000 });
    assert_eq!(snap.last_seen, 1000);
    // Absent means absent, not zero.
    assert!(snap.uptime.is_none());
    assert!(snap.temp_f.is_none());
    assert!(snap.humidity.is_none());
    assert!(snap.pressure.is_none());
}

#[test]
fn test_decode_optional_fields_present() {
    let mut raw = complete_raw();
    raw.uptime = Some("3600".to_string());
    raw.temp_f = Some("68.5".to_string());
    raw.humidity = Some("40".to_string());
    raw.pressure = Some("1013.25".to_string());
    let snap = decode_sensor(&raw).unwrap();
    assert_eq!(snap.uptime, Some(3600));
    assert_eq!(snap.temp_f, Some(Reading { units: 685000 }));
    assert_eq!(snap.humidity, Some(Reading { units: 400000 }));
    assert_eq!(snap.pressure, Some(Reading { units: 10132500 }));
}

#[test]
fn test_decode_missing_required_fields() {
    let mut raw = complete_raw();
    raw.id = None;
    assert_eq!(decode_sensor(&raw).unwrap_err(), DecodeError::MissingField(FieldName::Id));

    let mut raw = complete_raw();
    raw.label = None;
    assert_eq!(decode_sensor(&raw).unwrap_err(), DecodeError::MissingField(FieldName::Label));

    let mut raw = complete_raw();
    raw.lat = None;
    assert_eq!(decode_sensor(&raw).unwrap_err(), DecodeError::MissingField(FieldName::Lat));

    let mut raw = complete_raw();
    raw.lon = None;
    assert_eq!(decode_sensor(&raw).unwrap_err(), DecodeError::MissingField(FieldName::Lon));

    let mut raw = complete_raw();
    raw.pm2_5_value = None;
    assert_eq!(decode_sensor(&raw).unwrap_err(), DecodeError::MissingField(FieldName::Pm25Value));

    let mut raw = complete_raw();
    raw.last_seen = None;
    assert_eq!(decode_sensor(&raw).unwrap_err(), DecodeError::MissingField(FieldName::LastSeen));

    let mut raw = complete_raw();
    raw.p_0_3_um = None;
    assert_eq!(decode_sensor(&raw).unwrap_err(), DecodeError::MissingField(FieldName::P03Um));

    let mut raw = complete_raw();
    raw.pm10_0_atm = None;
    assert_eq!(decode_sensor(&raw).unwrap_err(), DecodeError::MissingField(FieldName::Pm100Atm));
}

#[test]
fn test_decode_malformed_numerics() {
    let mut raw = complete_raw();
    raw.pm2_5_value = Some("12,0".to_string());
    assert_eq!(decode_sensor(&raw).unwrap_err(), DecodeError::MalformedNumber(FieldName::Pm25Value));

    let mut raw = complete_raw();
    raw.uptime = Some("12.0".to_string());
    assert_eq!(decode_sensor(&raw).unwrap_err(), DecodeError::MalformedNumber(FieldName::Uptime));

    let mut raw = complete_raw();
    raw.temp_f = Some("warm".to_string());
    assert_eq!(decode_sensor(&raw).unwrap_err(), DecodeError::MalformedNumber(FieldName::TempF));

    let mut raw = complete_raw();
    raw.humidity = Some("".to_string());
    assert_eq!(decode_sensor(&raw).unwrap_err(), DecodeError::MalformedNumber(FieldName::Humidity));

    let mut raw = complete_raw();
    raw.pressure = Some("10-13".to_string());
    assert_eq!(decode_sensor(&raw).unwrap_err(), DecodeError::MalformedNumber(FieldName::Pressure));
}

#[test]
fn test_decode_reports_first_failure() {
    let mut raw = complete_raw();
    raw.label = None;
    raw.pm2_5_value = Some("bad".to_string());
    // Presence is checked before coercion, `label` before `pm2_5_value`.
    assert_eq!(decode_sensor(&raw).unwrap_err(), DecodeError::MissingField(FieldName::Label));
}

#[test]
fn test_decode_present_but_zero_is_kept() {
    let mut raw = complete_raw();
    raw.humidity = Some("0".to_string());
    let snap = decode_sensor(&raw).unwrap();
    assert_eq!(snap.humidity, Some(Reading { units: 0 }));
    assert!(snap.temp_f.is_none());
}
