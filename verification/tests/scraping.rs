use std::collections::HashMap;

use purpleair_exporter::decimal::Reading;
use purpleair_exporter::metrics::{project, GaugeValue, MetricFamily, MetricWrite};
use purpleair_exporter::scrape::{scrape_body, upstream_show_param, ScrapeError, ScrapeOutcome};
use purpleair_exporter::sensor::{decode_sensor, DecodeError, FieldName, RawSensorRecord,
    SensorSnapshot};

/// One `results` element with the required particulate fields filled in;
/// `extra` adds further fields; the caller supplies the leading comma.
fn sensor_json(id: u32, label: &str, pm: &str, extra: &str) -> String {
    let head = format!(
        r#"{{"ID":{},"Label":"{}","Lat":1.0,"Lon":2.0,"PM2_5Value":"{}","LastSeen":1000,"#,
        id, label, pm
    );
    let particulates = r#""p_0_3_um":"0","p_0_5_um":"0","p_1_0_um":"0","p_2_5_um":"0","p_5_0_um":"0","p_10_0_um":"0","pm1_0_cf_1":"0","pm2_5_cf_1":"0","pm10_0_cf_1":"0","pm1_0_atm":"0","pm2_5_atm":"0","pm10_0_atm":"0""#;
    format!("{}{}{}{}", head, particulates, extra, "}")
}

fn body_of(sensors: &[String]) -> Vec<u8> {
    format!(r#"{{"results":[{}]}}"#, sensors.join(",")).into_bytes()
}

fn find<'a>(
    writes: &'a [MetricWrite],
    family: MetricFamily,
    labels: &[&str],
) -> Option<&'a MetricWrite> {
    writes.iter().find(|w| {
        w.family == family && w.labels.len() == labels.len()
            && w.labels.iter().zip(labels.iter()).all(|(a, b)| a.as_str() == *b)
    })
}

#[test]
fn test_scrape_single_sensor() {
    let body = body_of(&[sensor_json(1, "A", "12.0", "")]);
    let outcome = scrape_body(&body).unwrap();
    assert!(outcome.results_found);
    assert!(outcome.warnings.is_empty());

    let w = &outcome.writes;
    let pm = find(w, MetricFamily::Pm25Value, &["1", "A"]).unwrap();
    assert_eq!(pm.value, GaugeValue::Dec(Reading { units: 120000 }));
    let aqi = find(w, MetricFamily::Pm25Aqi, &["1", "A"]).unwrap();
    assert_eq!(aqi.value, GaugeValue::Int(50));
    let seen = find(w, MetricFamily::LastSeen, &["1", "A"]).unwrap();
    assert_eq!(seen.value, GaugeValue::Int(1000));
    let info = find(w, MetricFamily::Info, &["1", "A", "1", "2"]).unwrap();
    assert_eq!(info.value, GaugeValue::Int(1));
    // No optional reading was present, so none is written.
    assert!(find(w, MetricFamily::Uptime, &["1", "A"]).is_none());
    assert!(find(w, MetricFamily::Temperature, &["1", "A"]).is_none());
    assert!(find(w, MetricFamily::Humidity, &["1", "A"]).is_none());
    assert!(find(w, MetricFamily::Pressure, &["1", "A"]).is_none());
    assert_eq!(w.len(), 4);
}

#[test]
fn test_scrape_optional_fields() {
    let body = body_of(&[sensor_json(
        7,
        "B",
        "35.5",
        r#","Uptime":"3600","temp_f":"68.5","humidity":"40","pressure":"1013.25""#,
    )]);
    let outcome = scrape_body(&body).unwrap();
    let w = &outcome.writes;
    assert_eq!(w.len(), 8);
    // Uptime is written first, as an integer parsed from its string form.
    assert_eq!(w[0].family, MetricFamily::Uptime);
    assert_eq!(w[0].value, GaugeValue::Int(3600));
    let aqi = find(w, MetricFamily::Pm25Aqi, &["7", "B"]).unwrap();
    assert_eq!(aqi.value, GaugeValue::Int(101));
    let t = find(w, MetricFamily::Temperature, &["7", "B"]).unwrap();
    assert_eq!(t.value, GaugeValue::Dec(Reading { units: 685000 }));
    let h = find(w, MetricFamily::Humidity, &["7", "B"]).unwrap();
    assert_eq!(h.value, GaugeValue::Dec(Reading { units: 400000 }));
    let p = find(w, MetricFamily::Pressure, &["7", "B"]).unwrap();
    assert_eq!(p.value, GaugeValue::Dec(Reading { units: 10132500 }));
}

#[test]
fn test_scrape_missing_results_key() {
    let outcome = scrape_body(br#"{"other":[]}"#).unwrap();
    assert!(!outcome.results_found);
    assert!(outcome.writes.is_empty());
    assert!(outcome.warnings.is_empty());
}

#[test]
fn test_scrape_results_not_an_array() {
    let outcome = scrape_body(br#"{"results":5}"#).unwrap();
    assert!(outcome.results_found);
    assert!(outcome.writes.is_empty());
}

#[test]
fn test_scrape_empty_results() {
    let outcome = scrape_body(br#"{"results":[]}"#).unwrap();
    assert!(outcome.results_found);
    assert!(outcome.writes.is_empty());
}

#[test]
fn test_scrape_bad_envelope() {
    assert_eq!(scrape_body(b"not json").unwrap_err(), ScrapeError::BadEnvelope);
    assert_eq!(scrape_body(b"").unwrap_err(), ScrapeError::BadEnvelope);
}

#[test]
fn test_scrape_decode_failure_aborts() {
    // The second record has no Label: the whole scrape fails and no
    // writes are handed out, not even the first sensor's.
    let bad = sensor_json(2, "B", "1.0", "").replace(r#""Label":"B","#, "");
    let body = body_of(&[sensor_json(1, "A", "12.0", ""), bad]);
    assert_eq!(
        scrape_body(&body).unwrap_err(),
        ScrapeError::Sensor(DecodeError::MissingField(FieldName::Label))
    );
}

#[test]
fn test_scrape_wrong_field_shape_fails() {
    // PM2_5Value must be a string-encoded number, not a JSON number.
    let body =
        br#"{"results":[{"ID":1,"Label":"A","Lat":1.0,"Lon":2.0,"PM2_5Value":12.0,"LastSeen":1000,"p_0_3_um":"0","p_0_5_um":"0","p_1_0_um":"0","p_2_5_um":"0","p_5_0_um":"0","p_10_0_um":"0","pm1_0_cf_1":"0","pm2_5_cf_1":"0","pm10_0_cf_1":"0","pm1_0_atm":"0","pm2_5_atm":"0","pm10_0_atm":"0"}]}"#;
    assert_eq!(
        scrape_body(body).unwrap_err(),
        ScrapeError::Sensor(DecodeError::MissingField(FieldName::Pm25Value))
    );
}

#[test]
fn test_scrape_out_of_scale_warning() {
    let body = body_of(&[sensor_json(1, "A", "550.0", "")]);
    let outcome = scrape_body(&body).unwrap();
    assert_eq!(outcome.warnings, vec![Reading { units: 5500000 }]);
    let aqi = find(&outcome.writes, MetricFamily::Pm25Aqi, &["1", "A"]).unwrap();
    assert_eq!(aqi.value, GaugeValue::Int(501));
}

fn apply(registry: &mut HashMap<(MetricFamily, Vec<String>), GaugeValue>, o: &ScrapeOutcome) {
    for w in &o.writes {
        registry.insert((w.family, w.labels.clone()), w.value);
    }
}

#[test]
fn test_stale_values_are_retained() {
    // Sensor "1" reports in the first scrape and disappears in the
    // second: its last written values stay in the registry untouched.
    let mut registry: HashMap<(MetricFamily, Vec<String>), GaugeValue> = HashMap::new();
    let first = scrape_body(&body_of(&[sensor_json(1, "A", "12.0", "")])).unwrap();
    apply(&mut registry, &first);
    let second = scrape_body(&body_of(&[sensor_json(2, "B", "35.4", "")])).unwrap();
    apply(&mut registry, &second);

    let key = (MetricFamily::Pm25Value, vec!["1".to_string(), "A".to_string()]);
    assert_eq!(registry.get(&key), Some(&GaugeValue::Dec(Reading { units: 120000 })));
    let key = (MetricFamily::Pm25Aqi, vec!["1".to_string(), "A".to_string()]);
    assert_eq!(registry.get(&key), Some(&GaugeValue::Int(50)));
    let key = (MetricFamily::Pm25Value, vec!["2".to_string(), "B".to_string()]);
    assert_eq!(registry.get(&key), Some(&GaugeValue::Dec(Reading { units: 354000 })));
}

#[test]
fn test_upsert_overwrites_prior_value() {
    let mut registry: HashMap<(MetricFamily, Vec<String>), GaugeValue> = HashMap::new();
    let first = scrape_body(&body_of(&[sensor_json(1, "A", "12.0", "")])).unwrap();
    apply(&mut registry, &first);
    let second = scrape_body(&body_of(&[sensor_json(1, "A", "35.4", "")])).unwrap();
    apply(&mut registry, &second);
    let key = (MetricFamily::Pm25Value, vec!["1".to_string(), "A".to_string()]);
    assert_eq!(registry.get(&key), Some(&GaugeValue::Dec(Reading { units: 354000 })));
}

#[test]
fn test_upstream_show_param() {
    let r = upstream_show_param(&b"123,456,789".to_vec());
    assert_eq!(r, b"123|456|789".to_vec());
    assert_eq!(upstream_show_param(&b"42".to_vec()), b"42".to_vec());
    assert_eq!(upstream_show_param(&Vec::new()), Vec::<u8>::new());
}

fn snapshot_with_everything() -> SensorSnapshot {
    let raw = RawSensorRecord {
        id: Some(-3),
        label: Some("roof".to_string()),
        lat: Some("1.5".to_string()),
        lon: Some("-2.25".to_string()),
        pm2_5_value: Some("55.5".to_string()),
        uptime: Some("60".to_string()),
        last_seen: Some(99),
        temp_f: Some("70".to_string()),
        humidity: Some("51".to_string()),
        pressure: Some("990".to_string()),
        p_0_3_um: Some("1".to_string()),
        p_0_5_um: Some("2".to_string()),
        p_1_0_um: Some("3".to_string()),
        p_2_5_um: Some("4".to_string()),
        p_5_0_um: Some("5".to_string()),
        p_10_0_um: Some("6".to_string()),
        pm1_0_cf_1: Some("7".to_string()),
        pm2_5_cf_1: Some("8".to_string()),
        pm10_0_cf_1: Some("9".to_string()),
        pm1_0_atm: Some("10".to_string()),
        pm2_5_atm: Some("11".to_string()),
        pm10_0_atm: Some("12".to_string()),
    };
    decode_sensor(&raw).unwrap()
}

#[test]
fn test_projection_order_and_labels() {
    let snap = snapshot_with_everything();
    let w = project(&snap);
    assert_eq!(w.len(), 8);
    let fams: Vec<MetricFamily> = w.iter().map(|x| x.family).collect();
    assert_eq!(
        fams,
        vec![
            MetricFamily::Uptime,
            MetricFamily::LastSeen,
            MetricFamily::Info,
            MetricFamily::Pm25Value,
            MetricFamily::Pm25Aqi,
            MetricFamily::Temperature,
            MetricFamily::Humidity,
            MetricFamily::Pressure,
        ]
    );
    for (i, x) in w.iter().enumerate() {
        if i == 2 {
            assert_eq!(x.labels, vec!["-3", "roof", "1.5", "-2.25"]);
        } else {
            assert_eq!(x.labels, vec!["-3", "roof"]);
        }
    }
    assert_eq!(w[0].value, GaugeValue::Int(60));
    assert_eq!(w[1].value, GaugeValue::Int(99));
    assert_eq!(w[2].value, GaugeValue::Int(1));
    assert_eq!(w[3].value, GaugeValue::Dec(Reading { units: 555000 }));
    assert_eq!(w[4].value, GaugeValue::Int(151));
    assert_eq!(w[5].value, GaugeValue::Dec(Reading { units: 700000 }));
    assert_eq!(w[6].value, GaugeValue::Dec(Reading { units: 510000 }));
    assert_eq!(w[7].value, GaugeValue::Dec(Reading { units: 9900000 }));
}
