use vstd::prelude::*;

use chrono::{Datelike, Timelike};

use crate::error::StoolapError;
use vstd::arithmetic::div_mod::{
    lemma_fundamental_div_mod, lemma_fundamental_div_mod_converse, lemma_mod_bound,
};

verus! {

/// Earliest instant the engine can store: -262143-01-01T00:00:00Z, in microseconds
/// since the Unix epoch.
pub const MIN_INSTANT_MICROS: i64 = -8334601228800000000;

/// Latest instant the engine can store: +262142-12-31T23:59:59.999999Z.
pub const MAX_INSTANT_MICROS: i64 = 8210266876799999999;

pub const MICROS_PER_SECOND: i64 = 1000000;

pub const MIN_YEAR: i32 = -262143;

pub const MAX_YEAR: i32 = 262142;

/// Calendar fields of a date and time of day, read as wall-clock values.
#[derive(Clone, Copy, Debug, PartialEq, Eq, Structural)]
pub struct DateFields {
    pub year: i32,
    pub month: u32,
    pub day: u32,
    pub hour: u32,
    pub minute: u32,
    pub second: u32,
    /// Microseconds within the second; up to 1_999_999 on a leap second.
    pub micro: u32,
}

pub open spec fn is_leap_year(y: int) -> bool {
    (y % 4 == 0 && y % 100 != 0) || y % 400 == 0
}

pub open spec fn days_in_month(y: int, m: int) -> int {
    if m == 2 {
        if is_leap_year(y) {
            29
        } else {
            28
        }
    } else if m == 4 || m == 6 || m == 9 || m == 11 {
        30
    } else {
        31
    }
}

/// Days from 1970-01-01 to the given proleptic Gregorian date.
pub open spec fn days_from_civil(y: int, m: int, d: int) -> int {
    let y1 = if m <= 2 { y - 1 } else { y };
    let era = y1 / 400;
    let yoe = y1 - era * 400;
    let mp = (m + 9) % 12;
    let doy = (153 * mp + 2) / 5 + d - 1;
    let doe = yoe * 365 + yoe / 4 - yoe / 100 + doy;
    era * 146097 + doe - 719468
}

/// The fields name an existing date within the engine's year range and a time of
/// day; a microsecond count past one second is a leap second and needs second 59.
pub open spec fn fields_valid(f: DateFields) -> bool {
    &&& MIN_YEAR <= f.year <= MAX_YEAR
    &&& 1 <= f.month <= 12
    &&& 1 <= f.day <= days_in_month(f.year as int, f.month as int)
    &&& f.hour < 24 && f.minute < 60 && f.second < 60
    &&& (f.micro < 1000000 || (f.second == 59 && f.micro < 2000000))
}

/// Microseconds since the Unix epoch of the fields read as UTC.
pub open spec fn civil_micros(f: DateFields) -> int {
    let days = days_from_civil(f.year as int, f.month as int, f.day as int);
    let secs = days * 86400 + f.hour * 3600 + f.minute * 60 + f.second;
    secs * 1000000 + f.micro
}

pub open spec fn instant_in_range(m: int) -> bool {
    MIN_INSTANT_MICROS <= m <= MAX_INSTANT_MICROS
}

/// Relies on chrono's `NaiveDate::from_ymd_opt` and `NaiveDate::and_hms_micro_opt`
/// (both `None` exactly on fields that name no date or time) and on
/// `DateTime::timestamp_micros` (non-leap seconds since the epoch times a million,
/// plus the sub-second microseconds).
#[verifier::external_body]
fn naive_micros(f: &DateFields) -> (r: Option<i64>)
    ensures
        r.is_some() == fields_valid(*f),
        r matches Some(m) ==> m == civil_micros(*f),
{
    let d = chrono::NaiveDate::from_ymd_opt(f.year, f.month, f.day)?;
    let t = d.and_hms_micro_opt(f.hour, f.minute, f.second, f.micro)?;
    Some(t.and_utc().timestamp_micros())
}

/// Relies on chrono's `DateTime::from_timestamp_micros` (`None` exactly outside
/// the representable years) and on the calendar accessors of the UTC date and time.
#[verifier::external_body]
fn utc_fields(m: i64) -> (r: Option<DateFields>)
    ensures
        r.is_some() == instant_in_range(m as int),
        r matches Some(f) ==> fields_valid(f) && f.micro < 1000000 && civil_micros(f) == m,
{
    let t = chrono::DateTime::from_timestamp_micros(m)?;
    Some(DateFields {
        year: t.year(),
        month: t.month(),
        day: t.day(),
        hour: t.hour(),
        minute: t.minute(),
        second: t.second(),
        micro: t.timestamp_subsec_micros(),
    })
}

/// The engine's closed set of values. Floating-point numbers are held as their
/// IEEE-754 bit patterns (`binary64` for `Float`, `binary32` for each element of
/// `Vector`); a timestamp is a UTC instant in microseconds since the Unix epoch.
#[derive(Clone, Debug)]
pub enum SqlValue {
    Null,
    Boolean(bool),
    Integer(i64),
    Float(u64),
    Text(String),
    Timestamp(i64),
    Vector(Vec<u32>),
    Json(String),
}

impl SqlValue {
    /// A timestamp lies within the engine's range.
    pub open spec fn wf(&self) -> bool {
        match self {
            SqlValue::Timestamp(m) => instant_in_range(*m as int),
            _ => true,
        }
    }
}

/// How a host timestamp relates to UTC.
#[derive(Clone, Copy, Debug, PartialEq, Eq, Structural)]
pub enum Zone {
    /// No timezone attached: the wall-clock fields are read as UTC.
    Naive,
    /// A timezone with this offset east of UTC, in seconds.
    Offset(i64),
    /// A timezone attached that reports no offset.
    Unknown,
}

/// A host timestamp: its wall-clock fields, its zone, the host's own reading of it
/// as microseconds since the epoch (if it has one), and its ISO-8601 text.
#[derive(Clone, Debug)]
pub struct HostDateTime {
    pub fields: DateFields,
    pub zone: Zone,
    pub epoch_micros: Option<i64>,
    pub iso: String,
}

/// A host value, as the host's type probes classify it. The probes run in the
/// order of the variants: null, boolean (before integer, since a host boolean may
/// also be an integer), integer, float, string, timestamp, vector wrapper, and a
/// mapping or sequence, which the host hands over as its JSON text.
#[derive(Clone, Debug)]
pub enum HostValue {
    Null,
    Bool(bool),
    Int(i64),
    Float(u64),
    Str(String),
    DateTime(HostDateTime),
    Vector(Vec<u32>),
    Json(String),
    /// No probe matched; carries the host's name of the type.
    Unsupported(String),
}

/// Which of the host's type probes accept a value. A host may accept more than one
/// (a boolean may also pass as an integer).
#[derive(Clone, Copy, Debug, PartialEq, Eq, Structural)]
pub struct TypeProbes {
    pub none: bool,
    pub boolean: bool,
    pub integer: bool,
    pub float: bool,
    pub string: bool,
    pub datetime: bool,
    pub vector: bool,
    /// A mapping or a sequence, encoded as JSON.
    pub structure: bool,
}

/// The kind of host value that decides its encoding.
#[derive(Clone, Copy, Debug, PartialEq, Eq, Structural)]
pub enum HostKind {
    Null,
    Bool,
    Int,
    Float,
    Str,
    DateTime,
    Vector,
    Json,
    Unsupported,
}

/// The first probe that accepts, in the fixed order null, boolean, integer, float,
/// string, timestamp, vector, mapping or sequence.
pub open spec fn first_kind(p: TypeProbes) -> HostKind {
    if p.none {
        HostKind::Null
    } else if p.boolean {
        HostKind::Bool
    } else if p.integer {
        HostKind::Int
    } else if p.float {
        HostKind::Float
    } else if p.string {
        HostKind::Str
    } else if p.datetime {
        HostKind::DateTime
    } else if p.vector {
        HostKind::Vector
    } else if p.structure {
        HostKind::Json
    } else {
        HostKind::Unsupported
    }
}

/// Picks the kind of a host value from its probes, in the fixed order; a boolean is
/// a boolean even where the host also takes it for an integer.
pub fn classify(p: &TypeProbes) -> (r: HostKind)
    ensures
        r == first_kind(*p),
{
    if p.none {
        HostKind::Null
    } else if p.boolean {
        HostKind::Bool
    } else if p.integer {
        HostKind::Int
    } else if p.float {
        HostKind::Float
    } else if p.string {
        HostKind::Str
    } else if p.datetime {
        HostKind::DateTime
    } else if p.vector {
        HostKind::Vector
    } else if p.structure {
        HostKind::Json
    } else {
        HostKind::Unsupported
    }
}

/// A value handed back to the host.
#[derive(Clone, Debug)]
pub enum HostOut {
    Null,
    Bool(bool),
    Int(i64),
    Float(u64),
    Str(String),
    /// A timezone-aware UTC timestamp.
    DateTime(DateFields),
    /// A list of floats, as `binary32` bit patterns.
    FloatList(Vec<u32>),
}

/// The UTC instant that a host timestamp's fields and zone denote, if they denote one
/// within the engine's range.
pub open spec fn structured_instant(h: HostDateTime) -> Option<int> {
    let offset = match h.zone {
        Zone::Naive => Some(0int),
        Zone::Offset(o) => Some(o as int),
        Zone::Unknown => None,
    };
    match offset {
        Some(o) => {
            let m = civil_micros(h.fields) - o * 1000000;
            if fields_valid(h.fields) && instant_in_range(m) {
                Some(m)
            } else {
                None
            }
        },
        None => None,
    }
}

/// The encoding of a host timestamp: the instant of its fields and zone; failing
/// that, the host's epoch reading; failing that, its ISO-8601 text.
pub open spec fn encode_datetime_spec(h: HostDateTime) -> SqlValue {
    match structured_instant(h) {
        Some(m) => SqlValue::Timestamp(m as i64),
        None => match h.epoch_micros {
            Some(e) if instant_in_range(e as int) => SqlValue::Timestamp(e),
            _ => SqlValue::Text(h.iso),
        },
    }
}

pub open spec fn encode_spec(h: HostValue) -> Result<SqlValue, StoolapError> {
    match h {
        HostValue::Null => Ok(SqlValue::Null),
        HostValue::Bool(b) => Ok(SqlValue::Boolean(b)),
        HostValue::Int(i) => Ok(SqlValue::Integer(i)),
        HostValue::Float(f) => Ok(SqlValue::Float(f)),
        HostValue::Str(s) => Ok(SqlValue::Text(s)),
        HostValue::DateTime(d) => Ok(encode_datetime_spec(d)),
        HostValue::Vector(v) => Ok(SqlValue::Vector(v)),
        HostValue::Json(j) => Ok(SqlValue::Json(j)),
        HostValue::Unsupported(t) => Err(StoolapError::UnsupportedType(t)),
    }
}

/// Encodes a host timestamp as an engine value.
pub fn encode_datetime(h: HostDateTime) -> (r: SqlValue)
    ensures
        r == encode_datetime_spec(h),
        r.wf(),
{
    let offset: Option<i64> = match h.zone {
        Zone::Naive => Some(0),
        Zone::Offset(o) => Some(o),
        Zone::Unknown => None,
    };
    if let Some(o) = offset {
        if let Some(local) = naive_micros(&h.fields) {
            let m: i128 = local as i128 - (o as i128) * (MICROS_PER_SECOND as i128);
            if MIN_INSTANT_MICROS as i128 <= m && m <= MAX_INSTANT_MICROS as i128 {
                return SqlValue::Timestamp(m as i64);
            }
        }
    }
    match h.epoch_micros {
        Some(e) if MIN_INSTANT_MICROS <= e && e <= MAX_INSTANT_MICROS => SqlValue::Timestamp(e),
        _ => SqlValue::Text(h.iso),
    }
}

/// Encodes a host value as an engine value, or fails on an unsupported type.
pub fn py_to_value(h: HostValue) -> (r: Result<SqlValue, StoolapError>)
    ensures
        r == encode_spec(h),
        r matches Ok(v) ==> v.wf(),
{
    match h {
        HostValue::Null => Ok(SqlValue::Null),
        HostValue::Bool(b) => Ok(SqlValue::Boolean(b)),
        HostValue::Int(i) => Ok(SqlValue::Integer(i)),
        HostValue::Float(f) => Ok(SqlValue::Float(f)),
        HostValue::Str(s) => Ok(SqlValue::Text(s)),
        HostValue::DateTime(d) => Ok(encode_datetime(d)),
        HostValue::Vector(v) => Ok(SqlValue::Vector(v)),
        HostValue::Json(j) => Ok(SqlValue::Json(j)),
        HostValue::Unsupported(t) => Err(StoolapError::UnsupportedType(t)),
    }
}

/// What the host receives for an engine value. A timestamp comes back as UTC fields
/// that denote the same instant; JSON comes back as its text, not parsed.
pub open spec fn decode_matches(v: SqlValue, o: HostOut) -> bool {
    match v {
        SqlValue::Null => o == HostOut::Null,
        SqlValue::Boolean(b) => o == HostOut::Bool(b),
        SqlValue::Integer(i) => o == HostOut::Int(i),
        SqlValue::Float(f) => o == HostOut::Float(f),
        SqlValue::Text(s) => o == HostOut::Str(s),
        SqlValue::Timestamp(m) => match o {
            HostOut::DateTime(f) => fields_valid(f) && f.micro < 1000000 && civil_micros(f) == m,
            _ => false,
        },
        SqlValue::Vector(x) => o == HostOut::FloatList(x),
        SqlValue::Json(j) => o == HostOut::Str(j),
    }
}

/// Decodes an engine value for the host.
pub fn value_to_py(v: SqlValue) -> (r: HostOut)
    requires
        v.wf(),
    ensures
        decode_matches(v, r),
{
    match v {
        SqlValue::Null => HostOut::Null,
        SqlValue::Boolean(b) => HostOut::Bool(b),
        SqlValue::Integer(i) => HostOut::Int(i),
        SqlValue::Float(f) => HostOut::Float(f),
        SqlValue::Text(s) => HostOut::Str(s),
        SqlValue::Timestamp(m) => {
            let f = utc_fields(m);
            match f {
                Some(f) => HostOut::DateTime(f),
                None => HostOut::Null,
            }
        },
        SqlValue::Vector(x) => HostOut::FloatList(x),
        SqlValue::Json(j) => HostOut::Str(j),
    }
}

/// The host value that a scalar comes back as: the same boolean, integer, float or
/// string.
pub open spec fn same_scalar(h: HostValue, o: HostOut) -> bool {
    match h {
        HostValue::Bool(b) => o == HostOut::Bool(b),
        HostValue::Int(i) => o == HostOut::Int(i),
        HostValue::Float(f) => o == HostOut::Float(f),
        HostValue::Str(s) => o == HostOut::Str(s),
        _ => false,
    }
}

/// A boolean, integer, float or string survives encoding and decoding unchanged.
pub proof fn lemma_scalar_round_trip(h: HostValue, o: HostOut)
    requires
        h is Bool || h is Int || h is Float || h is Str,
        decode_matches(encode_spec(h)->Ok_0, o),
    ensures
        encode_spec(h) is Ok,
        same_scalar(h, o),
{
}

/// A timestamp whose fields and zone denote an instant in the engine's range comes
/// back from encoding and decoding as UTC fields of that same instant, without a
/// leap-second count.
pub proof fn lemma_timestamp_round_trip(d: HostDateTime, o: HostOut)
    requires
        structured_instant(d) is Some,
        decode_matches(encode_spec(HostValue::DateTime(d))->Ok_0, o),
    ensures
        o matches HostOut::DateTime(f) && fields_valid(f) && f.micro < 1000000 && civil_micros(f)
            == structured_instant(d)->Some_0,
{
}

/// Days from 0000-03-01 to the first of March of year `k` (proleptic Gregorian): the
/// March-based count that `days_from_civil` builds on.
pub open spec fn march_base(k: int) -> int {
    let era = k / 400;
    let yoe = k - era * 400;
    era * 146097 + yoe * 365 + yoe / 4 - yoe / 100
}

pub open spec fn year_len(y: int) -> int {
    if is_leap_year(y) {
        366
    } else {
        365
    }
}

/// Days before the first of month `m` within its year.
pub open spec fn days_before_month(y: int, m: int) -> int {
    let l = if is_leap_year(y) { 1int } else { 0int };
    if m <= 1 {
        0
    } else if m == 2 {
        31
    } else if m == 3 {
        59 + l
    } else if m == 4 {
        90 + l
    } else if m == 5 {
        120 + l
    } else if m == 6 {
        151 + l
    } else if m == 7 {
        181 + l
    } else if m == 8 {
        212 + l
    } else if m == 9 {
        243 + l
    } else if m == 10 {
        273 + l
    } else if m == 11 {
        304 + l
    } else if m == 12 {
        334 + l
    } else {
        365 + l
    }
}

proof fn lemma_floor_step(r: int, k: int)
    requires
        k > 0,
    ensures
        r / k - (r - 1) / k == (if r % k == 0 {
            1int
        } else {
            0int
        }),
{
    let a = (r - 1) / k;
    let b = (r - 1) % k;
    lemma_fundamental_div_mod(r - 1, k);
    lemma_mod_bound(r - 1, k);
    if b == k - 1 {
        assert(r == (a + 1) * k + 0) by (nonlinear_arith)
            requires
                r - 1 == k * a + b,
                b == k - 1,
        ;
        lemma_fundamental_div_mod_converse(r, k, a + 1, 0);
    } else {
        lemma_fundamental_div_mod_converse(r, k, a, b + 1);
    }
}

proof fn lemma_mod_shift(y: int, q: int, r: int, k: int, c: int)
    requires
        k > 0,
        400 == k * c,
        y == 400 * q + r,
    ensures
        y % k == r % k,
{
    lemma_fundamental_div_mod(r, k);
    assert(y == k * (c * q + r / k) + r % k) by (nonlinear_arith)
        requires
            400 == k * c,
            y == 400 * q + r,
            r == k * (r / k) + r % k,
    ;
    lemma_fundamental_div_mod_converse(y, k, c * q + r / k, r % k);
}

proof fn lemma_march_base_step(y: int)
    ensures
        march_base(y) - march_base(y - 1) == year_len(y),
{
    let q = y / 400;
    let r = y % 400;
    lemma_fundamental_div_mod(y, 400);
    lemma_mod_shift(y, q, r, 4, 100);
    lemma_mod_shift(y, q, r, 100, 4);
    if r >= 1 {
        lemma_fundamental_div_mod_converse(y - 1, 400, q, r - 1);
        lemma_floor_step(r, 4);
        lemma_floor_step(r, 100);
        assert(march_base(y) == q * 146097 + r * 365 + r / 4 - r / 100);
        assert(march_base(y - 1) == q * 146097 + (r - 1) * 365 + (r - 1) / 4 - (r - 1) / 100);
    } else {
        lemma_fundamental_div_mod_converse(y - 1, 400, q - 1, 399);
        assert(march_base(y) == q * 146097);
        assert(march_base(y - 1) == (q - 1) * 146097 + 399int * 365 + 399int / 4 - 399int / 100);
    }
}

proof fn lemma_days_from_civil_split(y: int, m: int, d: int)
    requires
        1 <= m <= 12,
    ensures
        days_from_civil(y, m, d) == days_from_civil(y, 1, 1) + days_before_month(y, m) + d - 1,
{
    lemma_march_base_step(y);
}

proof fn lemma_year_start_step(y: int)
    ensures
        days_from_civil(y + 1, 1, 1) == days_from_civil(y, 1, 1) + year_len(y),
{
    lemma_march_base_step(y);
}

proof fn lemma_year_start_mono(y: int, z: int)
    requires
        y < z,
    ensures
        days_from_civil(y, 1, 1) + year_len(y) <= days_from_civil(z, 1, 1),
    decreases z - y,
{
    lemma_year_start_step(y);
    if y + 1 < z {
        lemma_year_start_mono(y + 1, z);
    }
}

proof fn lemma_date_in_year(y: int, m: int, d: int)
    requires
        1 <= m <= 12,
        1 <= d <= days_in_month(y, m),
    ensures
        days_from_civil(y, 1, 1) <= days_from_civil(y, m, d) < days_from_civil(y, 1, 1)
            + year_len(y),
{
    lemma_days_from_civil_split(y, m, d);
}

proof fn lemma_date_injective(y: int, m: int, d: int, y2: int, m2: int, d2: int)
    requires
        1 <= m <= 12,
        1 <= d <= days_in_month(y, m),
        1 <= m2 <= 12,
        1 <= d2 <= days_in_month(y2, m2),
        days_from_civil(y, m, d) == days_from_civil(y2, m2, d2),
    ensures
        y == y2 && m == m2 && d == d2,
{
    lemma_date_in_year(y, m, d);
    lemma_date_in_year(y2, m2, d2);
    if y < y2 {
        lemma_year_start_mono(y, y2);
    } else if y2 < y {
        lemma_year_start_mono(y2, y);
    } else {
        lemma_days_from_civil_split(y, m, d);
        lemma_days_from_civil_split(y, m2, d2);
    }
}

proof fn lemma_split_unique(a: int, b: int, c: int, e: int, k: int)
    requires
        k > 0,
        0 <= b < k,
        0 <= e < k,
        a * k + b == c * k + e,
    ensures
        a == c && b == e,
{
    let x = a * k + b;
    lemma_fundamental_div_mod_converse(x, k, a, b);
    lemma_fundamental_div_mod_converse(x, k, c, e);
}

/// Two valid field sets without a leap-second count that denote the same instant
/// are the same fields.
pub proof fn lemma_civil_micros_injective(f: DateFields, g: DateFields)
    requires
        fields_valid(f),
        fields_valid(g),
        f.micro < 1000000,
        g.micro < 1000000,
        civil_micros(f) == civil_micros(g),
    ensures
        f == g,
{
    let df = days_from_civil(f.year as int, f.month as int, f.day as int);
    let dg = days_from_civil(g.year as int, g.month as int, g.day as int);
    let tf = f.hour * 3600 + f.minute * 60 + f.second;
    let tg = g.hour * 3600 + g.minute * 60 + g.second;
    lemma_split_unique(df * 86400 + tf, f.micro as int, dg * 86400 + tg, g.micro as int, 1000000);
    lemma_split_unique(df, tf, dg, tg, 86400);
    lemma_split_unique(
        f.hour as int,
        f.minute * 60 + f.second,
        g.hour as int,
        g.minute * 60 + g.second,
        3600,
    );
    lemma_split_unique(f.minute as int, f.second as int, g.minute as int, g.second as int, 60);
    lemma_date_injective(
        f.year as int,
        f.month as int,
        f.day as int,
        g.year as int,
        g.month as int,
        g.day as int,
    );
}

/// A timestamp read as UTC (naive, or with a zero offset), with valid fields at
/// microsecond precision and within the engine's range, comes back from encoding and
/// decoding with exactly the same fields.
pub proof fn lemma_utc_timestamp_round_trip(d: HostDateTime, o: HostOut)
    requires
        d.zone == Zone::Naive || d.zone == Zone::Offset(0),
        fields_valid(d.fields),
        d.fields.micro < 1000000,
        instant_in_range(civil_micros(d.fields)),
        decode_matches(encode_spec(HostValue::DateTime(d))->Ok_0, o),
    ensures
        o == HostOut::DateTime(d.fields),
{
    let f = o->DateTime_0;
    lemma_civil_micros_injective(f, d.fields);
}

} // verus!
