//! Scrape orchestration.
//!
//! A scrape hands this module the upstream response body.  The body is
//! parsed as a JSON document through `serde_json`; the `results` array, when
//! present, is walked record by record.  Each record is collected into a
//! plain [`RawSensorRecord`], decoded, and projected onto gauge writes.  A
//! missing `results` key is not an error — it reports success with zero
//! writes — while a record that fails to decode aborts the whole scrape, so
//! no partial set of writes is ever published.
//!
//! The calls into `serde_json` stand behind trusted wrappers.  Each is a
//! deterministic function of its arguments, so each result carries a name
//! (`json_doc_of`, `json_key_of`, …) that the wrappers' contracts apply;
//! over those names [`scrape_post`] pins the whole outcome of a scrape,
//! case by case, and everything that decides — field collection,
//! decoding, projection, the abort rule — is verified.

use vstd::prelude::*;
use crate::aqi::{aqi_exceeds_scale, exceeds_aqi_scale};
use crate::decimal::Reading;
use crate::metrics::{projection_spec, project, writes_match, MetricWrite, WriteSpec};
use crate::sensor::{decode_error_of, decode_sensor, raw_decodes, snapshot_of, DecodeError,
    RawSensorRecord};

verus! {

#[verifier::external_type_specification]
#[verifier::external_body]
pub struct ExJsonValue(serde_json::Value);

// Each `serde_json` call below is a deterministic function of its
// arguments alone (with the crate's default features a document parses to
// the same `Value` on every machine, and every accessor is a pure read),
// so its result carries a name that the wrappers' contracts apply.

/// The document a byte string parses to, or `None` when it is not valid
/// JSON.
pub uninterp spec fn json_doc_of(body: Seq<u8>) -> Option<serde_json::Value>;

/// The value under a key of a JSON object; `None` for a missing key or a
/// non-object.
pub uninterp spec fn json_key_of(v: serde_json::Value, key: Seq<char>) -> Option<
    serde_json::Value,
>;

/// The elements of a JSON array; `None` for any other value.
pub uninterp spec fn json_elements_of(v: serde_json::Value) -> Option<Seq<serde_json::Value>>;

/// The integer a JSON integer holds, when it fits `i64`; `None` otherwise
/// (floats included).
pub uninterp spec fn json_int_of(v: serde_json::Value) -> Option<i64>;

/// The text of a JSON string; `None` for any other value.
pub uninterp spec fn json_text_of(v: serde_json::Value) -> Option<Seq<char>>;

/// The decimal label text of a JSON number; `None` for any other value.
pub uninterp spec fn json_number_label_of(v: serde_json::Value) -> Option<Seq<char>>;

/// Relies on `serde_json::from_slice::<Value>`: the parsed document when
/// the body is valid JSON, `None` otherwise; a function of the bytes
/// alone.
#[verifier::external_body]
fn parse_json_document(body: &[u8]) -> (r: Option<serde_json::Value>)
    ensures
        r == json_doc_of(body@),
{
    serde_json::from_slice(body).ok()
}

/// Relies on `serde_json::Value::get`: the value under a key of a JSON
/// object, `None` for a missing key or a non-object.
#[verifier::external_body]
fn json_get<'a>(v: &'a serde_json::Value, key: &str) -> (r: Option<&'a serde_json::Value>)
    ensures
        r is Some <==> json_key_of(*v, key@) is Some,
        r matches Some(x) ==> *x == json_key_of(*v, key@)->0,
{
    v.get(key)
}

/// Relies on `serde_json::Value::as_array`: the elements of a JSON array,
/// `None` for any other value.
#[verifier::external_body]
fn json_as_array<'a>(v: &'a serde_json::Value) -> (r: Option<&'a Vec<serde_json::Value>>)
    ensures
        r is Some <==> json_elements_of(*v) is Some,
        r matches Some(a) ==> a@ == json_elements_of(*v)->0,
{
    v.as_array()
}

/// Relies on `serde_json::Value::as_i64`: the integer when the value is a
/// JSON integer that fits `i64`, `None` otherwise (floats included).
#[verifier::external_body]
fn json_as_i64(v: &serde_json::Value) -> (r: Option<i64>)
    ensures
        r == json_int_of(*v),
{
    v.as_i64()
}

/// Relies on `serde_json::Value::as_str`: the text when the value is a
/// JSON string, `None` otherwise.
#[verifier::external_body]
fn json_as_string(v: &serde_json::Value) -> (r: Option<String>)
    ensures
        r is Some <==> json_text_of(*v) is Some,
        r matches Some(s) ==> s@ == json_text_of(*v)->0,
{
    v.as_str().map(str::to_owned)
}

/// Relies on `serde_json::Value::as_f64` and the `Display` form of `f64`:
/// the decimal text of a JSON number, as a coordinate label is written;
/// deterministic (Rust renders a float the same way everywhere).
#[verifier::external_body]
fn json_number_text(v: &serde_json::Value) -> (r: Option<String>)
    ensures
        r is Some <==> json_number_label_of(*v) is Some,
        r matches Some(s) ==> s@ == json_number_label_of(*v)->0,
{
    v.as_f64().map(|f| format!("{}", f))
}

/// The integer under `key`, read through [`json_key_of`] and
/// [`json_int_of`].
pub open spec fn field_int_spec(v: serde_json::Value, key: Seq<char>) -> Option<i64> {
    match json_key_of(v, key) {
        Some(x) => json_int_of(x),
        None => None,
    }
}

/// The string under `key`, read through [`json_key_of`] and
/// [`json_text_of`].
pub open spec fn field_text_spec(v: serde_json::Value, key: Seq<char>) -> Option<Seq<char>> {
    match json_key_of(v, key) {
        Some(x) => json_text_of(x),
        None => None,
    }
}

/// The number label under `key`, read through [`json_key_of`] and
/// [`json_number_label_of`].
pub open spec fn field_number_label_spec(v: serde_json::Value, key: Seq<char>) -> Option<
    Seq<char>,
> {
    match json_key_of(v, key) {
        Some(x) => json_number_label_of(x),
        None => None,
    }
}

/// An optional owned string carries exactly an optional text.
pub open spec fn opt_text_matches(o: Option<String>, t: Option<Seq<char>>) -> bool {
    &&& o is Some <==> t is Some
    &&& o is Some ==> o->0@ == t->0
}

fn field_i64(v: &serde_json::Value, key: &str) -> (r: Option<i64>)
    ensures
        r == field_int_spec(*v, key@),
{
    match json_get(v, key) {
        Some(x) => json_as_i64(x),
        None => None,
    }
}

fn field_string(v: &serde_json::Value, key: &str) -> (r: Option<String>)
    ensures
        opt_text_matches(r, field_text_spec(*v, key@)),
{
    match json_get(v, key) {
        Some(x) => json_as_string(x),
        None => None,
    }
}

fn field_number_text(v: &serde_json::Value, key: &str) -> (r: Option<String>)
    ensures
        opt_text_matches(r, field_number_label_spec(*v, key@)),
{
    match json_get(v, key) {
        Some(x) => json_number_text(x),
        None => None,
    }
}

/// The record a `results` element carries: each wire field read from its
/// key, absent or wrongly shaped fields as `None`.
pub open spec fn raw_record_matches(r: RawSensorRecord, v: serde_json::Value) -> bool {
    &&& r.id == field_int_spec(v, "ID"@)
    &&& opt_text_matches(r.label, field_text_spec(v, "Label"@))
    &&& opt_text_matches(r.lat, field_number_label_spec(v, "Lat"@))
    &&& opt_text_matches(r.lon, field_number_label_spec(v, "Lon"@))
    &&& opt_text_matches(r.pm2_5_value, field_text_spec(v, "PM2_5Value"@))
    &&& opt_text_matches(r.uptime, field_text_spec(v, "Uptime"@))
    &&& r.last_seen == field_int_spec(v, "LastSeen"@)
    &&& opt_text_matches(r.temp_f, field_text_spec(v, "temp_f"@))
    &&& opt_text_matches(r.humidity, field_text_spec(v, "humidity"@))
    &&& opt_text_matches(r.pressure, field_text_spec(v, "pressure"@))
    &&& opt_text_matches(r.p_0_3_um, field_text_spec(v, "p_0_3_um"@))
    &&& opt_text_matches(r.p_0_5_um, field_text_spec(v, "p_0_5_um"@))
    &&& opt_text_matches(r.p_1_0_um, field_text_spec(v, "p_1_0_um"@))
    &&& opt_text_matches(r.p_2_5_um, field_text_spec(v, "p_2_5_um"@))
    &&& opt_text_matches(r.p_5_0_um, field_text_spec(v, "p_5_0_um"@))
    &&& opt_text_matches(r.p_10_0_um, field_text_spec(v, "p_10_0_um"@))
    &&& opt_text_matches(r.pm1_0_cf_1, field_text_spec(v, "pm1_0_cf_1"@))
    &&& opt_text_matches(r.pm2_5_cf_1, field_text_spec(v, "pm2_5_cf_1"@))
    &&& opt_text_matches(r.pm10_0_cf_1, field_text_spec(v, "pm10_0_cf_1"@))
    &&& opt_text_matches(r.pm1_0_atm, field_text_spec(v, "pm1_0_atm"@))
    &&& opt_text_matches(r.pm2_5_atm, field_text_spec(v, "pm2_5_atm"@))
    &&& opt_text_matches(r.pm10_0_atm, field_text_spec(v, "pm10_0_atm"@))
}

/// Collect the wire fields of one `results` element.  A field that is
/// absent or not of the expected JSON shape is collected as `None`; the
/// decoder decides what that means.
fn raw_record_of_value(v: &serde_json::Value) -> (r: RawSensorRecord)
    ensures
        raw_record_matches(r, *v),
{
    RawSensorRecord {
        id: field_i64(v, "ID"),
        label: field_string(v, "Label"),
        lat: field_number_text(v, "Lat"),
        lon: field_number_text(v, "Lon"),
        pm2_5_value: field_string(v, "PM2_5Value"),
        uptime: field_string(v, "Uptime"),
        last_seen: field_i64(v, "LastSeen"),
        temp_f: field_string(v, "temp_f"),
        humidity: field_string(v, "humidity"),
        pressure: field_string(v, "pressure"),
        p_0_3_um: field_string(v, "p_0_3_um"),
        p_0_5_um: field_string(v, "p_0_5_um"),
        p_1_0_um: field_string(v, "p_1_0_um"),
        p_2_5_um: field_string(v, "p_2_5_um"),
        p_5_0_um: field_string(v, "p_5_0_um"),
        p_10_0_um: field_string(v, "p_10_0_um"),
        pm1_0_cf_1: field_string(v, "pm1_0_cf_1"),
        pm2_5_cf_1: field_string(v, "pm2_5_cf_1"),
        pm10_0_cf_1: field_string(v, "pm10_0_cf_1"),
        pm1_0_atm: field_string(v, "pm1_0_atm"),
        pm2_5_atm: field_string(v, "pm2_5_atm"),
        pm10_0_atm: field_string(v, "pm10_0_atm"),
    }
}

/// Why a scrape failed.
#[derive(Clone, Copy, PartialEq, Eq, Structural, Debug)]
pub enum ScrapeError {
    /// The response body was not a valid JSON document.
    BadEnvelope,
    /// One sensor record failed to decode; nothing was published.
    Sensor(DecodeError),
}

/// What a successful scrape decided: the gauge writes in order, whether
/// the `results` key was found at all, and the PM2.5 readings past the AQI
/// table's range, each to be reported as a warning.
#[derive(Clone, Debug)]
pub struct ScrapeOutcome {
    pub writes: Vec<MetricWrite>,
    pub results_found: bool,
    pub warnings: Vec<Reading>,
}

pub open spec fn all_records_decode(rs: Seq<RawSensorRecord>) -> bool {
    forall|i: int| 0 <= i < rs.len() ==> raw_decodes(rs[i])
}

/// The concatenated gauge writes of a batch, one projection per record.
pub open spec fn batch_writes(rs: Seq<RawSensorRecord>) -> Seq<WriteSpec>
    decreases rs.len(),
{
    if rs.len() == 0 {
        Seq::<WriteSpec>::empty()
    } else {
        projection_spec(snapshot_of(rs[0])) + batch_writes(rs.drop_first())
    }
}

/// The out-of-scale PM2.5 readings of a batch, in record order.
pub open spec fn batch_warnings(rs: Seq<RawSensorRecord>) -> Seq<Reading>
    decreases rs.len(),
{
    if rs.len() == 0 {
        Seq::<Reading>::empty()
    } else {
        (if aqi_exceeds_scale(snapshot_of(rs[0]).pm2_5.units as int) {
            seq![snapshot_of(rs[0]).pm2_5]
        } else {
            Seq::<Reading>::empty()
        }) + batch_warnings(rs.drop_first())
    }
}

/// The decode error of the first record that fails, which aborts the
/// batch.
pub open spec fn batch_error(rs: Seq<RawSensorRecord>) -> DecodeError
    decreases rs.len(),
{
    if rs.len() == 0 {
        DecodeError::MissingField(crate::sensor::FieldName::Id)
    } else if !raw_decodes(rs[0]) {
        decode_error_of(rs[0])
    } else {
        batch_error(rs.drop_first())
    }
}

proof fn lemma_writes_match_concat(
    v1: Seq<MetricWrite>,
    v2: Seq<MetricWrite>,
    w1: Seq<WriteSpec>,
    w2: Seq<WriteSpec>,
)
    requires
        writes_match(v1, w1),
        writes_match(v2, w2),
    ensures
        writes_match(v1 + v2, w1 + w2),
{
    assert forall|i: int| 0 <= i < (w1 + w2).len() implies crate::metrics::write_matches(
        (v1 + v2)[i],
        (w1 + w2)[i],
    ) by {
        if i < w1.len() {
            assert((v1 + v2)[i] == v1[i]);
            assert((w1 + w2)[i] == w1[i]);
        } else {
            assert((v1 + v2)[i] == v2[i - w1.len()]);
            assert((w1 + w2)[i] == w2[i - w1.len()]);
        }
    }
}

proof fn lemma_batch_writes_snoc(rs: Seq<RawSensorRecord>, x: RawSensorRecord)
    ensures
        batch_writes(rs.push(x)) == batch_writes(rs) + projection_spec(snapshot_of(x)),
        batch_warnings(rs.push(x)) == batch_warnings(rs) + (if aqi_exceeds_scale(
            snapshot_of(x).pm2_5.units as int,
        ) {
            seq![snapshot_of(x).pm2_5]
        } else {
            Seq::<Reading>::empty()
        }),
    decreases rs.len(),
{
    let tail = if aqi_exceeds_scale(snapshot_of(x).pm2_5.units as int) {
        seq![snapshot_of(x).pm2_5]
    } else {
        Seq::<Reading>::empty()
    };
    if rs.len() == 0 {
        assert(rs.push(x).drop_first() =~= Seq::<RawSensorRecord>::empty());
        assert(rs.push(x)[0] == x);
        assert(rs.push(x).len() == 1);
        assert(batch_writes(rs.push(x)) == projection_spec(snapshot_of(x)) + batch_writes(
            Seq::<RawSensorRecord>::empty(),
        ));
        assert(batch_writes(Seq::<RawSensorRecord>::empty()) == Seq::<WriteSpec>::empty());
        assert(batch_writes(rs) == Seq::<WriteSpec>::empty());
        assert(projection_spec(snapshot_of(x)) + Seq::<WriteSpec>::empty() =~= Seq::<
            WriteSpec,
        >::empty() + projection_spec(snapshot_of(x)));
        assert(batch_warnings(rs.push(x)) == tail + batch_warnings(
            Seq::<RawSensorRecord>::empty(),
        ));
        assert(tail + Seq::<Reading>::empty() =~= Seq::<Reading>::empty() + tail);
        assert(batch_warnings(rs) == Seq::<Reading>::empty());
    } else {
        assert(rs.push(x).drop_first() =~= rs.drop_first().push(x));
        assert(rs.push(x)[0] == rs[0]);
        assert(rs.push(x).len() == rs.len() + 1);
        lemma_batch_writes_snoc(rs.drop_first(), x);
        assert(batch_writes(rs.push(x)) == projection_spec(snapshot_of(rs[0])) + (batch_writes(
            rs.drop_first(),
        ) + projection_spec(snapshot_of(x))));
        assert(batch_writes(rs) == projection_spec(snapshot_of(rs[0])) + batch_writes(
            rs.drop_first(),
        ));
        assert(projection_spec(snapshot_of(rs[0])) + (batch_writes(rs.drop_first())
            + projection_spec(snapshot_of(x))) =~= (projection_spec(snapshot_of(rs[0]))
            + batch_writes(rs.drop_first())) + projection_spec(snapshot_of(x)));
        let head = if aqi_exceeds_scale(snapshot_of(rs[0]).pm2_5.units as int) {
            seq![snapshot_of(rs[0]).pm2_5]
        } else {
            Seq::<Reading>::empty()
        };
        assert(batch_warnings(rs.push(x)) == head + (batch_warnings(rs.drop_first()) + tail));
        assert(batch_warnings(rs) == head + batch_warnings(rs.drop_first()));
        assert(head + (batch_warnings(rs.drop_first()) + tail) =~= (head + batch_warnings(
            rs.drop_first(),
        )) + tail);
    }
}

proof fn lemma_batch_error_at(rs: Seq<RawSensorRecord>, i: int)
    requires
        0 <= i < rs.len(),
        forall|j: int| 0 <= j < i ==> raw_decodes(rs[j]),
        !raw_decodes(rs[i]),
    ensures
        batch_error(rs) == decode_error_of(rs[i]),
    decreases i,
{
    if i == 0 {
    } else {
        assert(raw_decodes(rs[0]));
        assert(forall|j: int| 0 <= j < i - 1 ==> rs.drop_first()[j] == rs[j + 1]);
        assert(rs.drop_first()[i - 1] == rs[i]);
        lemma_batch_error_at(rs.drop_first(), i - 1);
    }
}

/// Decode every record of a batch and project the snapshots onto gauge
/// writes, in record order.  Succeeds exactly when every record decodes;
/// the first failing record aborts the batch with its decode error and
/// nothing is handed out.  Alongside the writes come the out-of-scale
/// PM2.5 readings, each of which the caller reports as a warning.
pub fn process_records(records: &Vec<RawSensorRecord>) -> (r: Result<
    (Vec<MetricWrite>, Vec<Reading>),
    DecodeError,
>)
    ensures
        r is Ok <==> all_records_decode(records@),
        r matches Ok(p) ==> writes_match(p.0@, batch_writes(records@)) && p.1@ == batch_warnings(
            records@,
        ),
        r matches Err(e) ==> e == batch_error(records@),
{
    let mut out: Vec<MetricWrite> = Vec::new();
    let mut warnings: Vec<Reading> = Vec::new();
    let mut i: usize = 0;
    while i < records.len()
        invariant
            0 <= i as int <= records@.len(),
            forall|j: int| 0 <= j < i as int ==> raw_decodes(records@[j]),
            writes_match(out@, batch_writes(records@.take(i as int))),
            warnings@ == batch_warnings(records@.take(i as int)),
        decreases records@.len() - i,
    {
        let record = &records[i];
        match decode_sensor(record) {
            Ok(snap) => {
                let mut ws = project(&snap);
                let ghost old_out = out@;
                let ghost old_warn = warnings@;
                let ghost ws_view = ws@;
                out.append(&mut ws);
                let warned = exceeds_aqi_scale(snap.pm2_5);
                if warned {
                    warnings.push(snap.pm2_5);
                }
                proof {
                    lemma_batch_writes_snoc(records@.take(i as int), records@[i as int]);
                    assert(records@.take(i as int).push(records@[i as int]) =~= records@.take(
                        i as int + 1,
                    ));
                    lemma_writes_match_concat(
                        old_out,
                        ws_view,
                        batch_writes(records@.take(i as int)),
                        projection_spec(snapshot_of(records@[i as int])),
                    );
                    if warned {
                        assert(warnings@ =~= old_warn + seq![snap.pm2_5]);
                    } else {
                        assert(warnings@ =~= old_warn + Seq::<Reading>::empty());
                    }
                }
            },
            Err(e) => {
                proof {
                    lemma_batch_error_at(records@, i as int);
                }
                return Err(e);
            },
        }
        i = i + 1;
    }
    proof {
        assert(records@.take(records@.len() as int) =~= records@);
    }
    Ok((out, warnings))
}

/// A record sequence carries exactly the wire fields of an array of
/// `results` elements, in order.
pub open spec fn records_match(rs: Seq<RawSensorRecord>, vals: Seq<serde_json::Value>) -> bool {
    &&& rs.len() == vals.len()
    &&& forall|i: int| 0 <= i < vals.len() ==> raw_record_matches(rs[i], vals[i])
}

/// What a scrape result must be for a given batch of records: the batch's
/// writes and warnings on success, the first decode error otherwise, never
/// a partial publication.
pub open spec fn batch_post(rs: Seq<RawSensorRecord>, r: Result<ScrapeOutcome, ScrapeError>) -> bool {
    if all_records_decode(rs) {
        &&& r is Ok
        &&& r->Ok_0.results_found
        &&& writes_match(r->Ok_0.writes@, batch_writes(rs))
        &&& r->Ok_0.warnings@ == batch_warnings(rs)
    } else {
        r == Err::<ScrapeOutcome, ScrapeError>(ScrapeError::Sensor(batch_error(rs)))
    }
}

/// What [`scrape_body`] must return for a given body, case by case over
/// the parse: an invalid document is [`ScrapeError::BadEnvelope`]; a
/// document without a `results` key succeeds with `results_found ==
/// false` and nothing written; a `results` value that is not an array
/// succeeds with nothing written; an array is processed as the batch of
/// records it carries.
pub open spec fn scrape_post(body: Seq<u8>, r: Result<ScrapeOutcome, ScrapeError>) -> bool {
    match json_doc_of(body) {
        None => r == Err::<ScrapeOutcome, ScrapeError>(ScrapeError::BadEnvelope),
        Some(doc) => match json_key_of(doc, "results"@) {
            None => {
                &&& r is Ok
                &&& !r->Ok_0.results_found
                &&& r->Ok_0.writes@.len() == 0
                &&& r->Ok_0.warnings@.len() == 0
            },
            Some(results) => match json_elements_of(results) {
                None => {
                    &&& r is Ok
                    &&& r->Ok_0.results_found
                    &&& r->Ok_0.writes@.len() == 0
                    &&& r->Ok_0.warnings@.len() == 0
                },
                Some(vals) => exists|rs: Seq<RawSensorRecord>|
                    records_match(rs, vals) && batch_post(rs, r),
            },
        },
    }
}

/// Run one scrape over an upstream response body.
///
/// Every outside call this makes is a function of its arguments alone, so
/// the whole outcome is pinned over the named parse results: see
/// [`scrape_post`].  Two record sequences that match the same array agree
/// in everything the batch specifications read, so the witness in
/// [`scrape_post`] leaves nothing open.
pub fn scrape_body(body: &[u8]) -> (r: Result<ScrapeOutcome, ScrapeError>)
    ensures
        scrape_post(body@, r),
        r matches Ok(o) ==> (!o.results_found ==> o.writes@.len() == 0 && o.warnings@.len()
            == 0),
{
    let doc: serde_json::Value = match parse_json_document(body) {
        Some(v) => v,
        None => {
            return Err(ScrapeError::BadEnvelope);
        },
    };
    let results: &serde_json::Value = match json_get(&doc, "results") {
        Some(v) => v,
        None => {
            return Ok(
                ScrapeOutcome { writes: Vec::new(), results_found: false, warnings: Vec::new() },
            );
        },
    };
    let arr: &Vec<serde_json::Value> = match json_as_array(results) {
        Some(a) => a,
        None => {
            return Ok(
                ScrapeOutcome { writes: Vec::new(), results_found: true, warnings: Vec::new() },
            );
        },
    };
    let ghost vals = json_elements_of(json_key_of(json_doc_of(body@)->0, "results"@)->0)->0;
    proof {
        assert(arr@ == vals);
    }
    let mut records: Vec<RawSensorRecord> = Vec::new();
    let mut i: usize = 0;
    while i < arr.len()
        invariant
            0 <= i as int <= arr@.len(),
            records@.len() == i as int,
            forall|k: int| 0 <= k < i as int ==> raw_record_matches(records@[k], arr@[k]),
        decreases arr@.len() - i,
    {
        records.push(raw_record_of_value(&arr[i]));
        i = i + 1;
    }
    proof {
        assert(records_match(records@, vals));
    }
    let res: Result<ScrapeOutcome, ScrapeError> = match process_records(&records) {
        Ok((writes, warnings)) => Ok(ScrapeOutcome { writes, results_found: true, warnings }),
        Err(e) => Err(ScrapeError::Sensor(e)),
    };
    proof {
        assert(batch_post(records@, res));
        assert(scrape_post(body@, res)) by {
            assert(records_match(records@, vals) && batch_post(records@, res));
        }
    }
    res
}

/// Translate the configured comma-separated sensor-id list into the
/// upstream query's own separator: every `,` becomes `|`, every other
/// byte is kept as it is.
pub fn upstream_show_param(ids: &Vec<u8>) -> (r: Vec<u8>)
    ensures
        r@.len() == ids@.len(),
        forall|i: int|
            0 <= i < ids@.len() ==> r@[i] == (if ids@[i] == 44u8 {
                124u8
            } else {
                ids@[i]
            }),
{
    let mut out: Vec<u8> = Vec::new();
    let mut i: usize = 0;
    while i < ids.len()
        invariant
            0 <= i as int <= ids@.len(),
            out@.len() == i as int,
            forall|k: int|
                0 <= k < i as int ==> out@[k] == (if ids@[k] == 44u8 {
                    124u8
                } else {
                    ids@[k]
                }),
        decreases ids@.len() - i,
    {
        let b: u8 = ids[i];
        if b == 44 {
            out.push(124);
        } else {
            out.push(b);
        }
        i = i + 1;
    }
    out
}

} // verus!
