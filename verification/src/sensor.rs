//! Sensor record decoding.
//!
//! One upstream record arrives as a loosely typed object: integers, strings,
//! string-encoded numerics, and optional fields.  [`RawSensorRecord`] holds
//! exactly what was found on the wire, field by field, with `None` for a
//! field that was absent or of the wrong shape.  [`decode_sensor`] turns a
//! raw record into a typed [`SensorSnapshot`] or fails with the first
//! missing required field or malformed numeric string, checked in a fixed
//! order.

use vstd::prelude::*;
use crate::decimal::{dec_parses, dec_units, i64_dec_str, i64_dec_string, int_str_parses_i64,
    int_str_value, parse_decimal, parse_i64, Reading};

verus! {

/// The wire fields of one sensor record.
#[derive(Clone, Copy, PartialEq, Eq, Structural, Debug)]
pub enum FieldName {
    Id,
    Label,
    Lat,
    Lon,
    Pm25Value,
    Uptime,
    LastSeen,
    TempF,
    Humidity,
    Pressure,
    P03Um,
    P05Um,
    P10Um,
    P25Um,
    P50Um,
    P100Um,
    Pm10Cf1,
    Pm25Cf1,
    Pm100Cf1,
    Pm10Atm,
    Pm25Atm,
    Pm100Atm,
}

/// Why one sensor record failed to decode.
#[derive(Clone, Copy, PartialEq, Eq, Structural, Debug)]
pub enum DecodeError {
    /// A required field was absent or not of the expected shape.
    MissingField(FieldName),
    /// A string-encoded numeric did not parse.
    MalformedNumber(FieldName),
}

/// One sensor record as found on the wire: every field optional, numerics
/// still in their string form, `lat`/`lon` as the decimal text of the JSON
/// number.
#[derive(Clone, Debug)]
pub struct RawSensorRecord {
    pub id: Option<i64>,
    pub label: Option<String>,
    pub lat: Option<String>,
    pub lon: Option<String>,
    pub pm2_5_value: Option<String>,
    pub uptime: Option<String>,
    pub last_seen: Option<i64>,
    pub temp_f: Option<String>,
    pub humidity: Option<String>,
    pub pressure: Option<String>,
    pub p_0_3_um: Option<String>,
    pub p_0_5_um: Option<String>,
    pub p_1_0_um: Option<String>,
    pub p_2_5_um: Option<String>,
    pub p_5_0_um: Option<String>,
    pub p_10_0_um: Option<String>,
    pub pm1_0_cf_1: Option<String>,
    pub pm2_5_cf_1: Option<String>,
    pub pm10_0_cf_1: Option<String>,
    pub pm1_0_atm: Option<String>,
    pub pm2_5_atm: Option<String>,
    pub pm10_0_atm: Option<String>,
}

/// The raw particulate-count and mass fields, carried through unparsed.
#[derive(Clone, Debug)]
pub struct ParticulateText {
    pub p_0_3_um: String,
    pub p_0_5_um: String,
    pub p_1_0_um: String,
    pub p_2_5_um: String,
    pub p_5_0_um: String,
    pub p_10_0_um: String,
    pub pm1_0_cf_1: String,
    pub pm2_5_cf_1: String,
    pub pm10_0_cf_1: String,
    pub pm1_0_atm: String,
    pub pm2_5_atm: String,
    pub pm10_0_atm: String,
}

/// One sensor's typed reading at scrape time.  Immutable once built; absent
/// optional readings stay absent, never zero.
#[derive(Clone, Debug)]
pub struct SensorSnapshot {
    pub id: i64,
    pub label: String,
    pub lat_text: String,
    pub lon_text: String,
    pub pm2_5: Reading,
    pub uptime: Option<i64>,
    pub last_seen: i64,
    pub temp_f: Option<Reading>,
    pub humidity: Option<Reading>,
    pub pressure: Option<Reading>,
    pub particulates: ParticulateText,
}

impl SensorSnapshot {
    /// The sensor id as it is written into the `id` metric label.
    pub fn id_string(&self) -> (s: String)
        ensures
            s@ == i64_dec_str(self.id as int),
    {
        i64_dec_string(self.id)
    }
}

/// Every required field is present.
pub open spec fn raw_complete(r: RawSensorRecord) -> bool {
    &&& r.id is Some
    &&& r.label is Some
    &&& r.lat is Some
    &&& r.lon is Some
    &&& r.pm2_5_value is Some
    &&& r.last_seen is Some
    &&& r.p_0_3_um is Some
    &&& r.p_0_5_um is Some
    &&& r.p_1_0_um is Some
    &&& r.p_2_5_um is Some
    &&& r.p_5_0_um is Some
    &&& r.p_10_0_um is Some
    &&& r.pm1_0_cf_1 is Some
    &&& r.pm2_5_cf_1 is Some
    &&& r.pm10_0_cf_1 is Some
    &&& r.pm1_0_atm is Some
    &&& r.pm2_5_atm is Some
    &&& r.pm10_0_atm is Some
}

/// Every string-encoded numeric parses: PM2.5 always, the optional
/// readings wherever they are present.
pub open spec fn raw_numerics_ok(r: RawSensorRecord) -> bool {
    &&& dec_parses(r.pm2_5_value->0@)
    &&& (r.uptime is Some ==> int_str_parses_i64(r.uptime->0@))
    &&& (r.temp_f is Some ==> dec_parses(r.temp_f->0@))
    &&& (r.humidity is Some ==> dec_parses(r.humidity->0@))
    &&& (r.pressure is Some ==> dec_parses(r.pressure->0@))
}

/// Exactly the records [`decode_sensor`] accepts.
pub open spec fn raw_decodes(r: RawSensorRecord) -> bool {
    raw_complete(r) && raw_numerics_ok(r)
}

/// The error [`decode_sensor`] reports for a rejected record: the first
/// failing check, in the fixed order presence-then-coercion.
pub open spec fn decode_error_of(r: RawSensorRecord) -> DecodeError {
    if r.id is None {
        DecodeError::MissingField(FieldName::Id)
    } else if r.label is None {
        DecodeError::MissingField(FieldName::Label)
    } else if r.lat is None {
        DecodeError::MissingField(FieldName::Lat)
    } else if r.lon is None {
        DecodeError::MissingField(FieldName::Lon)
    } else if r.pm2_5_value is None {
        DecodeError::MissingField(FieldName::Pm25Value)
    } else if r.last_seen is None {
        DecodeError::MissingField(FieldName::LastSeen)
    } else if r.p_0_3_um is None {
        DecodeError::MissingField(FieldName::P03Um)
    } else if r.p_0_5_um is None {
        DecodeError::MissingField(FieldName::P05Um)
    } else if r.p_1_0_um is None {
        DecodeError::MissingField(FieldName::P10Um)
    } else if r.p_2_5_um is None {
        DecodeError::MissingField(FieldName::P25Um)
    } else if r.p_5_0_um is None {
        DecodeError::MissingField(FieldName::P50Um)
    } else if r.p_10_0_um is None {
        DecodeError::MissingField(FieldName::P100Um)
    } else if r.pm1_0_cf_1 is None {
        DecodeError::MissingField(FieldName::Pm10Cf1)
    } else if r.pm2_5_cf_1 is None {
        DecodeError::MissingField(FieldName::Pm25Cf1)
    } else if r.pm10_0_cf_1 is None {
        DecodeError::MissingField(FieldName::Pm100Cf1)
    } else if r.pm1_0_atm is None {
        DecodeError::MissingField(FieldName::Pm10Atm)
    } else if r.pm2_5_atm is None {
        DecodeError::MissingField(FieldName::Pm25Atm)
    } else if r.pm10_0_atm is None {
        DecodeError::MissingField(FieldName::Pm100Atm)
    } else if !dec_parses(r.pm2_5_value->0@) {
        DecodeError::MalformedNumber(FieldName::Pm25Value)
    } else if r.uptime is Some && !int_str_parses_i64(r.uptime->0@) {
        DecodeError::MalformedNumber(FieldName::Uptime)
    } else if r.temp_f is Some && !dec_parses(r.temp_f->0@) {
        DecodeError::MalformedNumber(FieldName::TempF)
    } else if r.humidity is Some && !dec_parses(r.humidity->0@) {
        DecodeError::MalformedNumber(FieldName::Humidity)
    } else {
        DecodeError::MalformedNumber(FieldName::Pressure)
    }
}

/// The snapshot a decodable record yields.
pub open spec fn snapshot_of(r: RawSensorRecord) -> SensorSnapshot {
    SensorSnapshot {
        id: r.id->0,
        label: r.label->0,
        lat_text: r.lat->0,
        lon_text: r.lon->0,
        pm2_5: Reading { units: dec_units(r.pm2_5_value->0@) as i64 },
        uptime: if r.uptime is Some {
            Some(int_str_value(r.uptime->0@) as i64)
        } else {
            None
        },
        last_seen: r.last_seen->0,
        temp_f: if r.temp_f is Some {
            Some(Reading { units: dec_units(r.temp_f->0@) as i64 })
        } else {
            None
        },
        humidity: if r.humidity is Some {
            Some(Reading { units: dec_units(r.humidity->0@) as i64 })
        } else {
            None
        },
        pressure: if r.pressure is Some {
            Some(Reading { units: dec_units(r.pressure->0@) as i64 })
        } else {
            None
        },
        particulates: ParticulateText {
            p_0_3_um: r.p_0_3_um->0,
            p_0_5_um: r.p_0_5_um->0,
            p_1_0_um: r.p_1_0_um->0,
            p_2_5_um: r.p_2_5_um->0,
            p_5_0_um: r.p_5_0_um->0,
            p_10_0_um: r.p_10_0_um->0,
            pm1_0_cf_1: r.pm1_0_cf_1->0,
            pm2_5_cf_1: r.pm2_5_cf_1->0,
            pm10_0_cf_1: r.pm10_0_cf_1->0,
            pm1_0_atm: r.pm1_0_atm->0,
            pm2_5_atm: r.pm2_5_atm->0,
            pm10_0_atm: r.pm10_0_atm->0,
        },
    }
}

/// Decode one raw record into a snapshot.  Succeeds exactly when every
/// required field is present and every string-encoded numeric parses;
/// otherwise reports the first failing field.  Absent optional readings
/// stay `None` in the snapshot.
pub fn decode_sensor(raw: &RawSensorRecord) -> (r: Result<SensorSnapshot, DecodeError>)
    ensures
        r is Ok <==> raw_decodes(*raw),
        r matches Ok(s) ==> s == snapshot_of(*raw),
        r matches Err(e) ==> e == decode_error_of(*raw),
{
    let id: i64 = match raw.id {
        Some(v) => v,
        None => {
            return Err(DecodeError::MissingField(FieldName::Id));
        },
    };
    let label: String = match &raw.label {
        Some(s) => s.clone(),
        None => {
            return Err(DecodeError::MissingField(FieldName::Label));
        },
    };
    let lat_text: String = match &raw.lat {
        Some(s) => s.clone(),
        None => {
            return Err(DecodeError::MissingField(FieldName::Lat));
        },
    };
    let lon_text: String = match &raw.lon {
        Some(s) => s.clone(),
        None => {
            return Err(DecodeError::MissingField(FieldName::Lon));
        },
    };
    let pm_text: &String = match &raw.pm2_5_value {
        Some(s) => s,
        None => {
            return Err(DecodeError::MissingField(FieldName::Pm25Value));
        },
    };
    let last_seen: i64 = match raw.last_seen {
        Some(v) => v,
        None => {
            return Err(DecodeError::MissingField(FieldName::LastSeen));
        },
    };
    let p_0_3_um: String = match &raw.p_0_3_um {
        Some(s) => s.clone(),
        None => {
            return Err(DecodeError::MissingField(FieldName::P03Um));
        },
    };
    let p_0_5_um: String = match &raw.p_0_5_um {
        Some(s) => s.clone(),
        None => {
            return Err(DecodeError::MissingField(FieldName::P05Um));
        },
    };
    let p_1_0_um: String = match &raw.p_1_0_um {
        Some(s) => s.clone(),
        None => {
            return Err(DecodeError::MissingField(FieldName::P10Um));
        },
    };
    let p_2_5_um: String = match &raw.p_2_5_um {
        Some(s) => s.clone(),
        None => {
            return Err(DecodeError::MissingField(FieldName::P25Um));
        },
    };
    let p_5_0_um: String = match &raw.p_5_0_um {
        Some(s) => s.clone(),
        None => {
            return Err(DecodeError::MissingField(FieldName::P50Um));
        },
    };
    let p_10_0_um: String = match &raw.p_10_0_um {
        Some(s) => s.clone(),
        None => {
            return Err(DecodeError::MissingField(FieldName::P100Um));
        },
    };
    let pm1_0_cf_1: String = match &raw.pm1_0_cf_1 {
        Some(s) => s.clone(),
        None => {
            return Err(DecodeError::MissingField(FieldName::Pm10Cf1));
        },
    };
    let pm2_5_cf_1: String = match &raw.pm2_5_cf_1 {
        Some(s) => s.clone(),
        None => {
            return Err(DecodeError::MissingField(FieldName::Pm25Cf1));
        },
    };
    let pm10_0_cf_1: String = match &raw.pm10_0_cf_1 {
        Some(s) => s.clone(),
        None => {
            return Err(DecodeError::MissingField(FieldName::Pm100Cf1));
        },
    };
    let pm1_0_atm: String = match &raw.pm1_0_atm {
        Some(s) => s.clone(),
        None => {
            return Err(DecodeError::MissingField(FieldName::Pm10Atm));
        },
    };
    let pm2_5_atm: String = match &raw.pm2_5_atm {
        Some(s) => s.clone(),
        None => {
            return Err(DecodeError::MissingField(FieldName::Pm25Atm));
        },
    };
    let pm10_0_atm: String = match &raw.pm10_0_atm {
        Some(s) => s.clone(),
        None => {
            return Err(DecodeError::MissingField(FieldName::Pm100Atm));
        },
    };
    let pm2_5: Reading = match parse_decimal(pm_text.as_str()) {
        Some(d) => d,
        None => {
            return Err(DecodeError::MalformedNumber(FieldName::Pm25Value));
        },
    };
    let uptime: Option<i64> = match &raw.uptime {
        Some(s) => match parse_i64(s.as_str()) {
            Some(v) => Some(v),
            None => {
                return Err(DecodeError::MalformedNumber(FieldName::Uptime));
            },
        },
        None => None,
    };
    let temp_f: Option<Reading> = match &raw.temp_f {
        Some(s) => match parse_decimal(s.as_str()) {
            Some(d) => Some(d),
            None => {
                return Err(DecodeError::MalformedNumber(FieldName::TempF));
            },
        },
        None => None,
    };
    let humidity: Option<Reading> = match &raw.humidity {
        Some(s) => match parse_decimal(s.as_str()) {
            Some(d) => Some(d),
            None => {
                return Err(DecodeError::MalformedNumber(FieldName::Humidity));
            },
        },
        None => None,
    };
    let pressure: Option<Reading> = match &raw.pressure {
        Some(s) => match parse_decimal(s.as_str()) {
            Some(d) => Some(d),
            None => {
                return Err(DecodeError::MalformedNumber(FieldName::Pressure));
            },
        },
        None => None,
    };
    Ok(
        SensorSnapshot {
            id,
            label,
            lat_text,
            lon_text,
            pm2_5,
            uptime,
            last_seen,
            temp_f,
            humidity,
            pressure,
            particulates: ParticulateText {
                p_0_3_um,
                p_0_5_um,
                p_1_0_um,
                p_2_5_um,
                p_5_0_um,
                p_10_0_um,
                pm1_0_cf_1,
                pm2_5_cf_1,
                pm10_0_cf_1,
                pm1_0_atm,
                pm2_5_atm,
                pm10_0_atm,
            },
        },
    )
}

} // verus!
