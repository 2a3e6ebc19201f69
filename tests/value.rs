use stoolap_bind::error::StoolapError;
use stoolap_bind::value::{
    classify, encode_datetime, py_to_value, value_to_py, DateFields, HostDateTime, HostKind,
    HostOut, HostValue, SqlValue, TypeProbes, Zone,
};

fn noon() -> DateFields {
    DateFields { year: 2024, month: 1, day: 1, hour: 12, minute: 0, second: 0, micro: 0 }
}

fn host_dt(fields: DateFields, zone: Zone) -> HostDateTime {
    HostDateTime { fields, zone, epoch_micros: None, iso: "iso-text".to_string() }
}

#[test]
fn naive_timestamp_is_read_as_utc() {
    let v = encode_datetime(host_dt(noon(), Zone::Naive));
    assert!(matches!(v, SqlValue::Timestamp(1704110400000000)));
}

#[test]
fn aware_timestamp_subtracts_offset() {
    let v = encode_datetime(host_dt(noon(), Zone::Offset(5 * 3600)));
    assert!(matches!(v, SqlValue::Timestamp(1704092400000000)));
}

#[test]
fn timestamp_keeps_microseconds() {
    let mut f = noon();
    f.micro = 123456;
    let v = encode_datetime(host_dt(f, Zone::Naive));
    assert!(matches!(v, SqlValue::Timestamp(1704110400123456)));
}

#[test]
fn invalid_fields_fall_back_to_epoch_reading() {
    let mut f = noon();
    f.month = 2;
    f.day = 30;
    let mut h = host_dt(f, Zone::Naive);
    h.epoch_micros = Some(42);
    assert!(matches!(encode_datetime(h), SqlValue::Timestamp(42)));
}

#[test]
fn unknown_offset_without_epoch_falls_back_to_text() {
    let v = encode_datetime(host_dt(noon(), Zone::Unknown));
    assert!(matches!(&v, SqlValue::Text(s) if s == "iso-text"));
}

#[test]
fn leap_day_is_valid_only_in_leap_years() {
    let mut f = noon();
    f.month = 2;
    f.day = 29;
    assert!(matches!(encode_datetime(host_dt(f, Zone::Naive)), SqlValue::Timestamp(_)));
    f.year = 2023;
    assert!(matches!(encode_datetime(host_dt(f, Zone::Naive)), SqlValue::Text(_)));
}

#[test]
fn timestamp_decodes_to_utc_fields() {
    match value_to_py(SqlValue::Timestamp(1704092400000000)) {
        HostOut::DateTime(f) => assert_eq!(
            f,
            DateFields { year: 2024, month: 1, day: 1, hour: 7, minute: 0, second: 0, micro: 0 }
        ),
        _ => panic!("expected a datetime"),
    }
}

#[test]
fn utc_timestamp_round_trips() {
    let mut f = noon();
    f.micro = 999999;
    let v = py_to_value(HostValue::DateTime(host_dt(f, Zone::Offset(0)))).unwrap();
    match value_to_py(v) {
        HostOut::DateTime(g) => assert_eq!(g, f),
        _ => panic!("expected a datetime"),
    }
}

#[test]
fn scalars_round_trip() {
    assert!(matches!(value_to_py(py_to_value(HostValue::Bool(true)).unwrap()), HostOut::Bool(true)));
    assert!(matches!(value_to_py(py_to_value(HostValue::Int(-5)).unwrap()), HostOut::Int(-5)));
    let bits = 2.5f64.to_bits();
    assert!(matches!(value_to_py(py_to_value(HostValue::Float(bits)).unwrap()), HostOut::Float(b) if b == bits));
    assert!(matches!(
        value_to_py(py_to_value(HostValue::Str("héllo".to_string())).unwrap()),
        HostOut::Str(s) if s == "héllo"
    ));
    assert!(matches!(value_to_py(py_to_value(HostValue::Null).unwrap()), HostOut::Null));
}

#[test]
fn boolean_stays_boolean() {
    assert!(matches!(py_to_value(HostValue::Bool(false)), Ok(SqlValue::Boolean(false))));
}

#[test]
fn json_comes_back_as_text() {
    let v = py_to_value(HostValue::Json("{\"a\": 1}".to_string())).unwrap();
    assert!(matches!(&v, SqlValue::Json(_)));
    assert!(matches!(value_to_py(v), HostOut::Str(s) if s == "{\"a\": 1}"));
}

#[test]
fn vector_comes_back_as_float_list() {
    let bits = vec![0.5f32.to_bits(), 1.5f32.to_bits()];
    let v = py_to_value(HostValue::Vector(bits.clone())).unwrap();
    assert!(matches!(value_to_py(v), HostOut::FloatList(b) if b == bits));
}

#[test]
fn unsupported_type_is_rejected() {
    assert!(matches!(
        py_to_value(HostValue::Unsupported("object".to_string())),
        Err(StoolapError::UnsupportedType(t)) if t == "object"
    ));
}

fn no_probe() -> TypeProbes {
    TypeProbes {
        none: false,
        boolean: false,
        integer: false,
        float: false,
        string: false,
        datetime: false,
        vector: false,
        structure: false,
    }
}

#[test]
fn boolean_probe_wins_over_integer() {
    let mut p = no_probe();
    p.boolean = true;
    p.integer = true;
    assert_eq!(classify(&p), HostKind::Bool);
    p.boolean = false;
    assert_eq!(classify(&p), HostKind::Int);
}

#[test]
fn no_probe_means_unsupported() {
    assert_eq!(classify(&no_probe()), HostKind::Unsupported);
    let mut p = no_probe();
    p.structure = true;
    assert_eq!(classify(&p), HostKind::Json);
    p.none = true;
    assert_eq!(classify(&p), HostKind::Null);
}
