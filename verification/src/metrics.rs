//! Projection of a sensor snapshot onto labeled gauge writes.
//!
//! Each snapshot yields a fixed series of upserts into the shared metric
//! registry: uptime (when present), last-seen, the info presence gauge, the
//! PM2.5 value, its AQI estimate, and the optional temperature, humidity
//! and pressure readings.  Every write carries the `[id, label]` pair; the
//! info gauge adds the coordinates.  The registry itself is an outside
//! collaborator: this module only decides the writes.

use vstd::prelude::*;
use crate::aqi::{aqi_value, estimate};
use crate::decimal::{i64_dec_str, Reading};
use crate::sensor::SensorSnapshot;

verus! {

/// The gauge families the pipeline writes.
#[derive(Clone, Copy, PartialEq, Eq, Hash, Structural, Debug)]
pub enum MetricFamily {
    /// UTC timestamp for the sensor's last-seen time.
    LastSeen,
    /// Sensor uptime in seconds.
    Uptime,
    /// Constant-1 presence gauge carrying the coordinates as labels.
    Info,
    /// The reported PM2.5 particulate mass.
    Pm25Value,
    /// The AQI estimated from the PM2.5 value.
    Pm25Aqi,
    /// Reported temperature in Fahrenheit.
    Temperature,
    /// Reported relative humidity in percent.
    Humidity,
    /// Reported pressure.
    Pressure,
}

/// The value written into a gauge: an integer or a fixed-point reading.
#[derive(Clone, Copy, PartialEq, Eq, Structural, Debug)]
pub enum GaugeValue {
    Int(i64),
    Dec(Reading),
}

/// One upsert: a family, its label values in order, and the new value.
#[derive(Clone, Debug)]
pub struct MetricWrite {
    pub family: MetricFamily,
    pub labels: Vec<String>,
    pub value: GaugeValue,
}

/// The mathematical form of one write: label values as character
/// sequences.
pub ghost struct WriteSpec {
    pub family: MetricFamily,
    pub labels: Seq<Seq<char>>,
    pub value: GaugeValue,
}

pub open spec fn write_matches(w: MetricWrite, ws: WriteSpec) -> bool {
    &&& w.family == ws.family
    &&& w.labels@.len() == ws.labels.len()
    &&& forall|i: int| 0 <= i < ws.labels.len() ==> w.labels@[i]@ == ws.labels[i]
    &&& w.value == ws.value
}

pub open spec fn writes_match(v: Seq<MetricWrite>, ws: Seq<WriteSpec>) -> bool {
    &&& v.len() == ws.len()
    &&& forall|i: int| 0 <= i < ws.len() ==> write_matches(v[i], ws[i])
}

/// The writes one snapshot yields, in order: uptime when present, then
/// last-seen, info, PM2.5 value and AQI, then each optional reading that
/// is present.
pub open spec fn projection_spec(s: SensorSnapshot) -> Seq<WriteSpec> {
    let idt = i64_dec_str(s.id as int);
    let common = seq![idt, s.label@];
    (if s.uptime is Some {
        seq![
            WriteSpec {
                family: MetricFamily::Uptime,
                labels: common,
                value: GaugeValue::Int(s.uptime->0),
            },
        ]
    } else {
        Seq::<WriteSpec>::empty()
    }) + seq![
        WriteSpec { family: MetricFamily::LastSeen, labels: common, value: GaugeValue::Int(s.last_seen) },
        WriteSpec {
            family: MetricFamily::Info,
            labels: seq![idt, s.label@, s.lat_text@, s.lon_text@],
            value: GaugeValue::Int(1),
        },
        WriteSpec { family: MetricFamily::Pm25Value, labels: common, value: GaugeValue::Dec(s.pm2_5) },
        WriteSpec {
            family: MetricFamily::Pm25Aqi,
            labels: common,
            value: GaugeValue::Int(aqi_value(s.pm2_5.units as int) as i64),
        },
    ] + (if s.temp_f is Some {
        seq![
            WriteSpec {
                family: MetricFamily::Temperature,
                labels: common,
                value: GaugeValue::Dec(s.temp_f->0),
            },
        ]
    } else {
        Seq::<WriteSpec>::empty()
    }) + (if s.humidity is Some {
        seq![
            WriteSpec {
                family: MetricFamily::Humidity,
                labels: common,
                value: GaugeValue::Dec(s.humidity->0),
            },
        ]
    } else {
        Seq::<WriteSpec>::empty()
    }) + (if s.pressure is Some {
        seq![
            WriteSpec {
                family: MetricFamily::Pressure,
                labels: common,
                value: GaugeValue::Dec(s.pressure->0),
            },
        ]
    } else {
        Seq::<WriteSpec>::empty()
    })
}

/// Compute the gauge writes for one snapshot, in the order
/// [`projection_spec`] gives them.
pub fn project(s: &SensorSnapshot) -> (w: Vec<MetricWrite>)
    ensures
        writes_match(w@, projection_spec(*s)),
{
    let idt: String = s.id_string();
    let mut out: Vec<MetricWrite> = Vec::new();
    if let Some(u) = s.uptime {
        out.push(
            MetricWrite {
                family: MetricFamily::Uptime,
                labels: vec![idt.clone(), s.label.clone()],
                value: GaugeValue::Int(u),
            },
        );
    }
    out.push(
        MetricWrite {
            family: MetricFamily::LastSeen,
            labels: vec![idt.clone(), s.label.clone()],
            value: GaugeValue::Int(s.last_seen),
        },
    );
    out.push(
        MetricWrite {
            family: MetricFamily::Info,
            labels: vec![
                idt.clone(),
                s.label.clone(),
                s.lat_text.clone(),
                s.lon_text.clone(),
            ],
            value: GaugeValue::Int(1),
        },
    );
    out.push(
        MetricWrite {
            family: MetricFamily::Pm25Value,
            labels: vec![idt.clone(), s.label.clone()],
            value: GaugeValue::Dec(s.pm2_5),
        },
    );
    let aqi: i32 = estimate(s.pm2_5);
    out.push(
        MetricWrite {
            family: MetricFamily::Pm25Aqi,
            labels: vec![idt.clone(), s.label.clone()],
            value: GaugeValue::Int(aqi as i64),
        },
    );
    if let Some(t) = s.temp_f {
        out.push(
            MetricWrite {
                family: MetricFamily::Temperature,
                labels: vec![idt.clone(), s.label.clone()],
                value: GaugeValue::Dec(t),
            },
        );
    }
    if let Some(h) = s.humidity {
        out.push(
            MetricWrite {
                family: MetricFamily::Humidity,
                labels: vec![idt.clone(), s.label.clone()],
                value: GaugeValue::Dec(h),
            },
        );
    }
    if let Some(p) = s.pressure {
        out.push(
            MetricWrite {
                family: MetricFamily::Pressure,
                labels: vec![idt.clone(), s.label.clone()],
                value: GaugeValue::Dec(p),
            },
        );
    }
    proof {
        let ws = projection_spec(*s);
        assert forall|i: int| 0 <= i < ws.len() implies write_matches(out@[i], ws[i]) by {
        }
    }
    out
}

} // verus!
