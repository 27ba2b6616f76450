use chrono::{Duration, NaiveDate, NaiveDateTime};
use mysql_async::FromValueError;
use mysql_async::Value as MySqlValue;
use vstd::prelude::*;

verus! {

/// A value as the SQL driver holds it. Nothing in this library reads what is
/// inside but through [`raw_value`].
#[verifier::external_type_specification]
#[verifier::external_body]
pub struct ExMySqlValue(MySqlValue);

/// The SQL driver's error for a value that cannot be converted.
#[verifier::external_type_specification]
#[verifier::external_body]
pub struct ExFromValueError(FromValueError);

/// A date of the calendar, as `chrono` holds it.
#[verifier::external_type_specification]
#[verifier::external_body]
pub struct ExNaiveDate(NaiveDate);

/// A date and a time of day without a time zone, as `chrono` holds them.
#[verifier::external_type_specification]
#[verifier::external_body]
pub struct ExNaiveDateTime(NaiveDateTime);

/// A span of time, as `chrono` holds it.
#[verifier::external_type_specification]
#[verifier::external_body]
pub struct ExDuration(Duration);

/// What a value of the SQL driver holds, variant by variant. The two kinds
/// of floating-point numbers are held by their bits.
#[derive(Clone, Debug, PartialEq, Eq)]
pub enum RawValue {
    Null,
    Bytes(Vec<u8>),
    Int(i64),
    UInt(u64),
    /// The bits of a floating-point number of 32 bits.
    Float(u32),
    /// The bits of a floating-point number of 64 bits.
    Double(u64),
    /// year, month, day, hour, minutes, seconds, micro seconds
    Date(u16, u8, u8, u8, u8, u8, u32),
    /// is negative, days, hours, minutes, seconds, micro seconds
    Time(bool, u32, u8, u8, u8, u32),
}

/// What a value of the SQL driver holds.
pub uninterp spec fn raw_of(value: MySqlValue) -> RawValue;

/// The date that `chrono` makes of a year, a month and a day, or `None` where
/// the calendar has no such day.
pub uninterp spec fn civil_date(year: i32, month: u32, day: u32) -> Option<NaiveDate>;

/// The date and time that `chrono` makes of a date and an hour, a minute, a
/// second and a microsecond, or `None` where the day has no such time.
pub uninterp spec fn civil_date_time(
    date: NaiveDate,
    hour: u32,
    min: u32,
    sec: u32,
    micro: u32,
) -> Option<NaiveDateTime>;

/// The length of a span of time in nanoseconds, negative for a span that
/// goes back.
pub uninterp spec fn duration_nanos(duration: Duration) -> int;

/// The longest span of time that `chrono` holds, in nanoseconds: as many
/// milliseconds as the greatest `i64`.
pub open spec fn max_duration_nanos() -> int {
    i64::MAX * 1_000_000
}

/// The whole seconds of a length in nanoseconds, rounded towards zero.
pub open spec fn whole_seconds(nanos: int) -> int {
    if nanos >= 0 {
        nanos / 1_000_000_000
    } else {
        -((-nanos) / 1_000_000_000)
    }
}

/// Copies what a value of the SQL driver holds, variant by variant; a
/// floating-point number by its bits (`to_bits`).
#[verifier::external_body]
pub(crate) fn raw_value(value: &MySqlValue) -> (raw: RawValue)
    ensures
        raw == raw_of(*value),
{
    match value {
        MySqlValue::NULL => RawValue::Null,
        MySqlValue::Bytes(bytes) => RawValue::Bytes(bytes.clone()),
        MySqlValue::Int(v) => RawValue::Int(*v),
        MySqlValue::UInt(v) => RawValue::UInt(*v),
        MySqlValue::Float(v) => RawValue::Float(v.to_bits()),
        MySqlValue::Double(v) => RawValue::Double(v.to_bits()),
        MySqlValue::Date(y, m, d, h, i, s, u) => RawValue::Date(*y, *m, *d, *h, *i, *s, *u),
        MySqlValue::Time(n, d, h, i, s, u) => RawValue::Time(*n, *d, *h, *i, *s, *u),
    }
}

/// Calls `NaiveDate::from_ymd_opt`.
#[verifier::external_body]
fn naive_date(year: i32, month: u32, day: u32) -> (date: Option<NaiveDate>)
    ensures
        date == civil_date(year, month, day),
{
    NaiveDate::from_ymd_opt(year, month, day)
}

/// Calls `NaiveDate::and_hms_micro_opt`.
#[verifier::external_body]
fn naive_date_time(date: NaiveDate, hour: u32, min: u32, sec: u32, micro: u32) -> (date_time: Option<
    NaiveDateTime,
>)
    ensures
        date_time == civil_date_time(date, hour, min, sec, micro),
{
    date.and_hms_micro_opt(hour, min, sec, micro)
}

/// Calls `Duration::new`, which makes the span of `secs` seconds and `nanos`
/// nanoseconds more, or `None` where `nanos` is a second or more or the span
/// is longer than `chrono` can hold.
#[verifier::external_body]
fn duration_new(secs: i64, nanos: u32) -> (duration: Option<Duration>)
    ensures
        duration.is_some() == (nanos < 1_000_000_000 && -max_duration_nanos() <= secs
            * 1_000_000_000 + nanos <= max_duration_nanos()),
        duration matches Some(made) ==> duration_nanos(made) == secs * 1_000_000_000 + nanos,
{
    Duration::new(secs, nanos)
}

/// Calls `Duration::num_seconds`, which returns the whole seconds of the
/// span, rounded towards zero.
#[verifier::external_body]
fn duration_num_seconds(duration: &Duration) -> (secs: i64)
    ensures
        secs == whole_seconds(duration_nanos(*duration)),
{
    duration.num_seconds()
}

/// Calls `Duration::subsec_nanos`, which returns the nanoseconds that the
/// span holds beyond its whole seconds: less than a second, and negative for
/// a span that goes back.
#[verifier::external_body]
fn duration_subsec_nanos(duration: &Duration) -> (nanos: i32)
    ensures
        nanos == duration_nanos(*duration) - whole_seconds(duration_nanos(*duration))
            * 1_000_000_000,
{
    duration.subsec_nanos()
}

impl RawValue {
    /// The length in nanoseconds of the time that the value holds.
    pub open spec fn time_nanos(self) -> int {
        match self {
            RawValue::Time(is_negative, days, hours, minutes, seconds, micro_seconds) => {
                let length = (((days * 24 + hours) * 60 + minutes) * 60 + seconds)
                    * 1_000_000_000 + micro_seconds * 1_000;
                if is_negative {
                    -length
                } else {
                    length
                }
            },
            _ => 0,
        }
    }

    /// The date and time that `chrono` makes of the date that the value
    /// holds, or `None` where there is no such day or no such time of day.
    pub open spec fn date_time(self) -> Option<NaiveDateTime> {
        match self {
            RawValue::Date(year, month, day, hour, minutes, seconds, micro_seconds) => {
                match civil_date(year as i32, month as u32, day as u32) {
                    Some(date) => civil_date_time(
                        date,
                        hour as u32,
                        minutes as u32,
                        seconds as u32,
                        micro_seconds,
                    ),
                    None => None,
                }
            },
            _ => None,
        }
    }

    /// Whether the value can be typed: every value can, but a date that the
    /// calendar does not have.
    pub open spec fn converts(self) -> bool {
        self is Date ==> self.date_time() is Some
    }

    /// Whether `value` is the value, typed.
    pub open spec fn types_to(self, value: Value) -> bool {
        match self {
            RawValue::Null => value is Null,
            RawValue::Bytes(bytes) => value == Value::Bytes(bytes),
            RawValue::Int(v) => value == Value::Int(v),
            RawValue::UInt(v) => value == Value::UInt(v),
            RawValue::Float(bits) => value == Value::Float(bits),
            RawValue::Double(bits) => value == Value::Double(bits),
            RawValue::Date(..) => self.date_time() == Some(value->Date_0) && value is Date,
            RawValue::Time(..) => value matches Value::Time(duration) && duration_nanos(duration)
                == self.time_nanos(),
        }
    }
}

/// Programmer-friendly model of the SQL driver's value type.
#[derive(Debug, PartialEq)]
pub enum Value {
    /// Value was `NULL` in the database.
    Null,
    Bytes(Vec<u8>),
    Int(i64),
    UInt(u64),
    /// The bits of a floating-point number of 32 bits.
    Float(u32),
    /// The bits of a floating-point number of 64 bits.
    Double(u64),
    /// `DateTime` without a time zone.
    Date(NaiveDateTime),
    /// Time offset or duration.
    Time(Duration),
}

impl Value {
    /// Whether the two values hold the same: the same bytes, or the same
    /// number, date or time.
    pub open spec fn same(self, other: Value) -> bool {
        match (self, other) {
            (Value::Bytes(bytes), Value::Bytes(others)) => bytes@ == others@,
            _ => self == other,
        }
    }
}

impl Clone for Value {
    fn clone(&self) -> (copy: Self)
        ensures
            copy.same(*self),
    {
        match self {
            Value::Null => Value::Null,
            Value::Bytes(bytes) => {
                let copy = bytes.clone();
                assert(copy@ =~= bytes@);
                Value::Bytes(copy)
            },
            Value::Int(v) => Value::Int(*v),
            Value::UInt(v) => Value::UInt(*v),
            Value::Float(bits) => Value::Float(*bits),
            Value::Double(bits) => Value::Double(*bits),
            Value::Date(date_time) => Value::Date(*date_time),
            Value::Time(duration) => Value::Time(*duration),
        }
    }
}

/// Returns the span of time of a length in nanoseconds.
fn duration_of(nanos: i128) -> (duration: Option<Duration>)
    ensures
        duration is Some <==> -max_duration_nanos() <= nanos <= max_duration_nanos(),
        duration matches Some(made) ==> duration_nanos(made) == nanos,
{
    if nanos > 9_223_372_036_854_775_807_000_000i128 || nanos
        < -9_223_372_036_854_775_807_000_000i128 {
        return None;
    }
    let length: i128 = if nanos < 0 {
        -nanos
    } else {
        nanos
    };
    let whole: i128 = length / 1_000_000_000i128;
    let rest: i128 = length % 1_000_000_000i128;
    if nanos >= 0 {
        duration_new(whole as i64, rest as u32)
    } else if rest == 0 {
        duration_new((-whole) as i64, 0)
    } else {
        duration_new((-whole - 1) as i64, (1_000_000_000i128 - rest) as u32)
    }
}

impl Value {
    /// Types a value.
    ///
    /// A date must be one that the calendar has: see [`Value::try_from_raw`]
    /// for a value of which this is not known.
    pub fn from_raw(raw: RawValue) -> (value: Value)
        requires
            raw.converts(),
        ensures
            raw.types_to(value),
    {
        match raw {
            RawValue::Null => Value::Null,
            RawValue::Bytes(bytes) => Value::Bytes(bytes),
            RawValue::Int(v) => Value::Int(v),
            RawValue::UInt(v) => Value::UInt(v),
            RawValue::Float(bits) => Value::Float(bits),
            RawValue::Double(bits) => Value::Double(bits),
            RawValue::Date(year, month, day, hour, minutes, seconds, micro_seconds) => {
                let date = naive_date(year as i32, month as u32, day as u32);
                let date_time = naive_date_time(
                    date.unwrap(),
                    hour as u32,
                    minutes as u32,
                    seconds as u32,
                    micro_seconds,
                );
                Value::Date(date_time.unwrap())
            },
            RawValue::Time(is_negative, days, hours, minutes, seconds, micro_seconds) => {
                let whole: i128 = ((days as i128 * 24 + hours as i128) * 60 + minutes as i128)
                    * 60 + seconds as i128;
                let length: i128 = whole * 1_000_000_000i128 + micro_seconds as i128 * 1_000;
                let nanos: i128 = if is_negative {
                    -length
                } else {
                    length
                };
                Value::Time(duration_of(nanos).unwrap())
            },
        }
    }

    /// Returns whether the value can be typed: whether it is no date, or a
    /// date that the calendar has.
    pub fn can_convert(raw: &RawValue) -> (converts: bool)
        ensures
            converts == raw.converts(),
    {
        match raw {
            RawValue::Date(year, month, day, hour, minutes, seconds, micro_seconds) => {
                match naive_date(*year as i32, *month as u32, *day as u32) {
                    None => false,
                    Some(date) => naive_date_time(
                        date,
                        *hour as u32,
                        *minutes as u32,
                        *seconds as u32,
                        *micro_seconds,
                    ).is_some(),
                }
            },
            _ => true,
        }
    }

    /// Types a value, or returns `None` for a date that the calendar does
    /// not have.
    pub fn try_from_raw(raw: RawValue) -> (value: Option<Value>)
        ensures
            value is Some <==> raw.converts(),
            value matches Some(typed) ==> raw.types_to(typed),
    {
        if Value::can_convert(&raw) {
            Some(Value::from_raw(raw))
        } else {
            None
        }
    }

    /// Types a value of the SQL driver, or returns `None` for a date that
    /// the calendar does not have.
    pub fn try_from_mysql(value: &MySqlValue) -> (typed: Option<Value>)
        ensures
            typed is Some <==> raw_of(*value).converts(),
            typed matches Some(typed) ==> raw_of(*value).types_to(typed),
    {
        Value::try_from_raw(raw_value(value))
    }
}

/// Splits a span of time into whole seconds and the nanoseconds beyond
/// them, both negative for a span that goes back: what a
/// [`Value::Time`] is written as.
pub fn serialize(duration: &Duration) -> (parts: (i64, i64))
    ensures
        parts.0 == whole_seconds(duration_nanos(*duration)),
        parts.0 * 1_000_000_000 + parts.1 == duration_nanos(*duration),
{
    let secs = duration_num_seconds(duration);
    let nanos = duration_subsec_nanos(duration);
    (secs, nanos as i64)
}

/// Makes a span of time of seconds and nanoseconds, as they are read for a
/// [`Value::Time`]. Returns `None` where the span is longer than `chrono` can
/// hold.
pub fn deserialize(secs: i64, nanos: i64) -> (duration: Option<Duration>)
    ensures
        duration is Some <==> -max_duration_nanos() <= secs * 1_000_000_000 + nanos
            <= max_duration_nanos(),
        duration matches Some(made) ==> duration_nanos(made) == secs * 1_000_000_000 + nanos,
{
    duration_of(secs as i128 * 1_000_000_000i128 + nanos as i128)
}

/// A value of the SQL driver on its way to a [`Value`].
#[derive(Debug)]
pub struct ValueIr(MySqlValue);

impl ValueIr {
    /// The value of the SQL driver that is held.
    pub closed spec fn held(self) -> MySqlValue {
        self.0
    }

    /// Takes any value of the SQL driver.
    pub fn new(value: MySqlValue) -> (ir: Result<ValueIr, FromValueError>)
        ensures
            ir matches Ok(taken) && taken.held() == value,
    {
        Ok(ValueIr(value))
    }

    /// Types the value.
    ///
    /// A date must be one that the calendar has: see
    /// [`ValueIr::try_commit`] for a value of which this is not known.
    pub fn commit(self) -> (value: Value)
        requires
            raw_of(self.held()).converts(),
        ensures
            raw_of(self.held()).types_to(value),
    {
        Value::from_raw(raw_value(&self.0))
    }

    /// Types the value, or gives it back where it is a date that the
    /// calendar does not have.
    pub fn try_commit(self) -> (value: Result<Value, MySqlValue>)
        ensures
            match value {
                Ok(typed) => raw_of(self.held()).converts() && raw_of(self.held()).types_to(typed),
                Err(given_back) => !raw_of(self.held()).converts() && given_back == self.held(),
            },
    {
        if Value::can_convert(&raw_value(&self.0)) {
            Ok(self.commit())
        } else {
            Err(self.0)
        }
    }

    /// Gives the value of the SQL driver back.
    pub fn rollback(self) -> (value: MySqlValue)
        ensures
            value == self.held(),
    {
        self.0
    }
}

} // verus!
