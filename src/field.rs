use vstd::prelude::*;
use vstd::arithmetic::power2::*;
use crate::bits::{BitBuffer, field_value, lemma_bits_value_bound, signed_field_value, window_fits};

verus! {

/// Reading of a raw field: unsigned, or two's complement when `signed`.
pub open spec fn raw_field(bits: Seq<bool>, offset: int, width: int, signed: bool) -> int {
    if signed {
        signed_field_value(bits, offset, width)
    } else {
        field_value(bits, offset, width) as int
    }
}

/// The validity rule shared by every field: a raw value inside `min ..= max`
/// is present and shifted by `bias`; anything else is "not available".
pub open spec fn validated(raw: int, min: int, max: int, bias: int) -> Option<i64> {
    if min <= raw && raw <= max {
        Some((raw + bias) as i64)
    } else {
        None
    }
}

/// What a field at `offset` of `width` bits decodes to under the rule `min`, `max`, `bias`.
pub open spec fn field_spec(
    bits: Seq<bool>,
    offset: int,
    width: int,
    signed: bool,
    min: int,
    max: int,
    bias: int,
) -> Option<i64> {
    validated(raw_field(bits, offset, width, signed), min, max, bias)
}

/// Largest bias a field may carry.
pub const MAX_BIAS: i64 = 0x1_0000_0000;

proof fn lemma_raw_field_bound(bits: Seq<bool>, offset: int, width: int, signed: bool)
    requires
        0 <= offset,
        offset + width <= bits.len(),
        1 <= width <= 32,
    ensures
        -0x1_0000_0000 < raw_field(bits, offset, width, signed) < 0x1_0000_0000,
{
    lemma_bits_value_bound(bits.subrange(offset, offset + width));
    lemma_pow2_strictly_increases(width as nat, 33);
    if width < 32 {
        lemma_pow2_strictly_increases(width as nat, 32);
    }
    lemma2_to64();
}

/// The one generic field decoder: reads the raw value, applies the validity
/// rule and the bias. Scales are carried by the unit of the result.
pub fn decode_field(
    buf: &BitBuffer,
    offset: usize,
    width: usize,
    signed: bool,
    min: i64,
    max: i64,
    bias: i64,
) -> (r: Option<i64>)
    requires
        window_fits(buf@.len(), offset as nat, width as nat),
        1 <= width <= 32,
        -MAX_BIAS <= bias <= MAX_BIAS,
    ensures
        r == field_spec(buf@, offset as int, width as int, signed, min as int, max as int, bias as int),
{
    proof {
        lemma_raw_field_bound(buf@, offset as int, width as int, signed);
    }
    let raw: i64 = if signed {
        buf.read_signed(offset, width)
    } else {
        buf.read_unsigned(offset, width) as i64
    };
    if min <= raw && raw <= max {
        Some(raw + bias)
    } else {
        None
    }
}

/// A raw value at the top of its valid range decodes to a value, one above it
/// and one below the bottom decode to absence.
pub proof fn lemma_validity_boundary(min: int, max: int, bias: int)
    requires
        min <= max,
    ensures
        validated(max, min, max, bias) == Some((max + bias) as i64),
        validated(min, min, max, bias) == Some((min + bias) as i64),
        validated(max + 1, min, max, bias) is None,
        validated(min - 1, min, max, bias) is None,
{
}

pub open spec fn opt_u8(o: Option<i64>) -> Option<u8> {
    match o {
        Some(v) => Some(v as u8),
        None => None,
    }
}

pub open spec fn opt_u16(o: Option<i64>) -> Option<u16> {
    match o {
        Some(v) => Some(v as u16),
        None => None,
    }
}

pub open spec fn opt_i16(o: Option<i64>) -> Option<i16> {
    match o {
        Some(v) => Some(v as i16),
        None => None,
    }
}

pub open spec fn opt_i32(o: Option<i64>) -> Option<i32> {
    match o {
        Some(v) => Some(v as i32),
        None => None,
    }
}

pub fn narrow_u8(o: Option<i64>) -> (r: Option<u8>)
    requires
        o matches Some(v) ==> 0 <= v <= u8::MAX,
    ensures
        r == opt_u8(o),
{
    match o {
        Some(v) => Some(v as u8),
        None => None,
    }
}

pub fn narrow_u16(o: Option<i64>) -> (r: Option<u16>)
    requires
        o matches Some(v) ==> 0 <= v <= u16::MAX,
    ensures
        r == opt_u16(o),
{
    match o {
        Some(v) => Some(v as u16),
        None => None,
    }
}

pub fn narrow_i16(o: Option<i64>) -> (r: Option<i16>)
    requires
        o matches Some(v) ==> i16::MIN <= v <= i16::MAX,
    ensures
        r == opt_i16(o),
{
    match o {
        Some(v) => Some(v as i16),
        None => None,
    }
}

pub fn narrow_i32(o: Option<i64>) -> (r: Option<i32>)
    requires
        o matches Some(v) ==> i32::MIN <= v <= i32::MAX,
    ensures
        r == opt_i32(o),
{
    match o {
        Some(v) => Some(v as i32),
        None => None,
    }
}

/// Minutes of arc in half a turn (180 degrees).
pub const HALF_TURN_MINUTES: i32 = 10800;

/// The next longitude of a chain, in minutes: the anchor plus the delta,
/// reflected to the western side when the sum passes 180 degrees. An absent
/// anchor or delta leaves the result absent.
pub open spec fn chain_longitude_spec(anchor: Option<i32>, delta: Option<i64>) -> Option<i32> {
    match (anchor, delta) {
        (Some(a), Some(d)) => {
            let s = a + d;
            if s > 10800 {
                Some((s - 21600) as i32)
            } else {
                Some(s as i32)
            }
        },
        _ => None,
    }
}

/// The next latitude of a chain, in minutes: the anchor plus the delta; absent
/// when either is absent.
pub open spec fn chain_latitude_spec(anchor: Option<i32>, delta: Option<i64>) -> Option<i32> {
    match (anchor, delta) {
        (Some(a), Some(d)) => Some((a + d) as i32),
        _ => None,
    }
}

/// A longitude in minutes within [-180, 180] degrees.
pub open spec fn longitude_in_range(o: Option<i32>) -> bool {
    o matches Some(v) ==> -10800 <= v <= 10800
}

/// A chain delta: one to fifty-nine minutes.
pub open spec fn delta_in_range(o: Option<i64>) -> bool {
    o matches Some(d) ==> 1 <= d <= 59
}

pub fn chain_longitude(anchor: Option<i32>, delta: Option<i64>) -> (r: Option<i32>)
    requires
        longitude_in_range(anchor),
        delta_in_range(delta),
    ensures
        r == chain_longitude_spec(anchor, delta),
        longitude_in_range(r),
{
    match (anchor, delta) {
        (Some(a), Some(d)) => {
            let s = a + d as i32;
            if s > HALF_TURN_MINUTES {
                Some(s - 2 * HALF_TURN_MINUTES)
            } else {
                Some(s)
            }
        },
        _ => None,
    }
}

pub fn chain_latitude(anchor: Option<i32>, delta: Option<i64>) -> (r: Option<i32>)
    requires
        anchor matches Some(a) ==> -0x1000_0000 <= a <= 0x1000_0000,
        delta_in_range(delta),
    ensures
        r == chain_latitude_spec(anchor, delta),
{
    match (anchor, delta) {
        (Some(a), Some(d)) => Some(a + d as i32),
        _ => None,
    }
}

/// A chained longitude that passes 180 degrees is reflected into [-180, 180)
/// degrees; one that does not stays within [-180, 180].
pub proof fn lemma_longitude_wraparound(anchor: i32, delta: i64)
    requires
        -10800 <= anchor <= 10800,
        1 <= delta <= 59,
    ensures
        chain_longitude_spec(Some(anchor), Some(delta)) matches Some(v) && -10800 <= v <= 10800
            && (anchor + delta > 10800 ==> v < 10800 && v == anchor + delta - 21600),
{
}

/// First year that chrono's calendar holds.
pub const CALENDAR_MIN_YEAR: i32 = -262143;

/// Last year that chrono's calendar holds.
pub const CALENDAR_MAX_YEAR: i32 = 262142;

pub open spec fn is_leap_year(y: int) -> bool {
    y % 4 == 0 && (y % 100 != 0 || y % 400 == 0)
}

/// Days of month `m` of year `y` in the proleptic Gregorian calendar.
pub open spec fn days_in_month(y: int, m: int) -> int {
    if m == 2 {
        if is_leap_year(y) {
            29
        } else {
            28
        }
    } else if m == 4 || m == 6 || m == 9 || m == 11 {
        30
    } else {
        31
    }
}

/// Whether the calendar date `y-m-d` exists and lies in chrono's year range.
pub open spec fn civil_date_exists(y: int, m: int, d: int) -> bool {
    CALENDAR_MIN_YEAR <= y <= CALENDAR_MAX_YEAR && 1 <= m <= 12 && 1 <= d <= days_in_month(y, m)
}

/// Relies on chrono's `NaiveDate::from_ymd_opt`: it returns a date exactly when
/// the year is in its range, the month is 1 to 12 and the day exists in that month.
#[verifier::external_body]
fn date_exists(year: i32, month: u32, day: u32) -> (r: bool)
    ensures
        r == civil_date_exists(year as int, month as int, day as int),
{
    chrono::NaiveDate::from_ymd_opt(year, month, day).is_some()
}

/// Relies on chrono's `NaiveTime::from_hms_opt`: with zero seconds it returns
/// a time exactly when the hour is below 24 and the minute below 60.
#[verifier::external_body]
fn time_exists(hour: u32, minute: u32) -> (r: bool)
    ensures
        r == (hour < 24 && minute < 60),
{
    chrono::NaiveTime::from_hms_opt(hour, minute, 0).is_some()
}

/// A UTC instant to the minute (seconds are always zero).
#[derive(Clone, Copy, Debug, PartialEq, Eq, Structural)]
pub struct Timestamp {
    pub year: i32,
    pub month: u32,
    pub day: u32,
    pub hour: u32,
    pub minute: u32,
}

/// The year and month of the moment a sentence is decoded, used to complete
/// dates that the payload gives only in part. The caller reads its clock and
/// hands the reading in, so that decoding itself depends on no global state.
#[derive(Clone, Copy, Debug, PartialEq, Eq, Structural)]
pub struct ClockReading {
    pub year: i32,
    pub month: u32,
}

/// The instant `year-month-day hour:minute`, or absence when it does not exist.
pub open spec fn calendar_time(year: i32, month: u32, day: u32, hour: u32, minute: u32) -> Option<
    Timestamp,
> {
    if civil_date_exists(year as int, month as int, day as int) && hour < 24 && minute < 60 {
        Some(Timestamp { year, month, day, hour, minute })
    } else {
        None
    }
}

/// Builds a timestamp from its parts, absent when the date or the time does not exist.
pub fn make_timestamp(year: i32, month: u32, day: u32, hour: u32, minute: u32) -> (r: Option<
    Timestamp,
>)
    ensures
        r == calendar_time(year, month, day, hour, minute),
{
    if date_exists(year, month, day) && time_exists(hour, minute) {
        Some(Timestamp { year, month, day, hour, minute })
    } else {
        None
    }
}

/// A time given as minute (6 bits), hour (5 bits) and day (5 bits) from
/// `offset`, in the year and month of `now`.
pub open spec fn day_time_spec(bits: Seq<bool>, offset: int, now: ClockReading) -> Option<Timestamp> {
    calendar_time(
        now.year,
        now.month,
        field_value(bits, offset + 11, 5) as u32,
        field_value(bits, offset + 6, 5) as u32,
        field_value(bits, offset, 6) as u32,
    )
}

pub fn decode_day_time(buf: &BitBuffer, offset: usize, now: ClockReading) -> (r: Option<Timestamp>)
    requires
        offset + 16 <= buf@.len(),
    ensures
        r == day_time_spec(buf@, offset as int, now),
{
    proof {
        lemma_bits_value_bound(buf@.subrange(offset + 11, offset + 16));
        lemma_bits_value_bound(buf@.subrange(offset + 6, offset + 11));
        lemma_bits_value_bound(buf@.subrange(offset as int, offset + 6));
        lemma2_to64();
    }
    let _ = buf.len();
    let minute = buf.read_unsigned(offset, 6) as u32;
    let hour = buf.read_unsigned(offset + 6, 5) as u32;
    let day = buf.read_unsigned(offset + 11, 5) as u32;
    make_timestamp(now.year, now.month, day, hour, minute)
}

/// Wind speed in knots: 7 bits, at most 120.
pub const WIND_SPEED_MAX: i64 = 120;
/// Directions in degrees: 9 bits, at most 359.
pub const DIRECTION_MAX: i64 = 359;
/// Air temperature in tenths of a degree Celsius: 11 bits signed, -600 to 600.
pub const AIR_TEMPERATURE_MIN: i64 = -600;
pub const AIR_TEMPERATURE_MAX: i64 = 600;
/// Sea temperature in tenths of a degree Celsius: 11 bits signed, -100 to 600.
pub const SEA_TEMPERATURE_MIN: i64 = -100;
pub const SEA_TEMPERATURE_MAX: i64 = 600;
/// Air pressure: 9 bits, at most 400, counted from 800 hPa.
pub const PRESSURE_MAX: i64 = 400;
pub const PRESSURE_BASE: i64 = 800;
/// Visibility, current speed and wave height in tenths: 8 bits, at most 250.
pub const TENTHS_MAX: i64 = 250;
/// Water level in tenths of a metre: 9 bits signed, -250 to 250.
pub const WATER_LEVEL_MIN: i64 = -250;
pub const WATER_LEVEL_MAX: i64 = 250;
/// Relative humidity in percent: 7 bits, at most 99.
pub const HUMIDITY_MAX: i64 = 99;
/// Anchor coordinates in minutes: 13 bits, at most 7200, counted from
/// 60 degrees east and from 50 degrees south.
pub const ANCHOR_MAX: i64 = 7200;
pub const ANCHOR_LONGITUDE_BASE: i64 = 3600;
pub const ANCHOR_LATITUDE_BASE: i64 = -3000;
/// Chain deltas in minutes: 7 bits, 1 to 59.
pub const DELTA_MIN: i64 = 1;
pub const DELTA_MAX: i64 = 59;
/// Precise coordinates in ten-thousandths of a minute: 28 (longitude) or
/// 27 (latitude) bits signed, within 180 and 90 degrees.
pub const PRECISE_LONGITUDE_MAX: i64 = 108_000_000;
pub const PRECISE_LATITUDE_MAX: i64 = 54_000_000;

pub open spec fn wind_speed_spec(b: Seq<bool>, o: int) -> Option<u8> {
    opt_u8(field_spec(b, o, 7, false, 0, WIND_SPEED_MAX as int, 0))
}

pub open spec fn direction_spec(b: Seq<bool>, o: int) -> Option<u16> {
    opt_u16(field_spec(b, o, 9, false, 0, DIRECTION_MAX as int, 0))
}

pub open spec fn air_temperature_spec(b: Seq<bool>, o: int) -> Option<i16> {
    opt_i16(field_spec(b, o, 11, true, AIR_TEMPERATURE_MIN as int, AIR_TEMPERATURE_MAX as int, 0))
}

pub open spec fn sea_temperature_spec(b: Seq<bool>, o: int) -> Option<i16> {
    opt_i16(field_spec(b, o, 11, true, SEA_TEMPERATURE_MIN as int, SEA_TEMPERATURE_MAX as int, 0))
}

pub open spec fn pressure_spec(b: Seq<bool>, o: int) -> Option<u16> {
    opt_u16(field_spec(b, o, 9, false, 0, PRESSURE_MAX as int, PRESSURE_BASE as int))
}

pub open spec fn tenths_spec(b: Seq<bool>, o: int) -> Option<u8> {
    opt_u8(field_spec(b, o, 8, false, 0, TENTHS_MAX as int, 0))
}

pub open spec fn water_level_spec(b: Seq<bool>, o: int) -> Option<i16> {
    opt_i16(field_spec(b, o, 9, true, WATER_LEVEL_MIN as int, WATER_LEVEL_MAX as int, 0))
}

pub open spec fn humidity_spec(b: Seq<bool>, o: int) -> Option<u8> {
    opt_u8(field_spec(b, o, 7, false, 0, HUMIDITY_MAX as int, 0))
}

pub open spec fn anchor_longitude_spec(b: Seq<bool>, o: int) -> Option<i32> {
    opt_i32(field_spec(b, o, 13, false, 0, ANCHOR_MAX as int, ANCHOR_LONGITUDE_BASE as int))
}

pub open spec fn anchor_latitude_spec(b: Seq<bool>, o: int) -> Option<i32> {
    opt_i32(field_spec(b, o, 13, false, 0, ANCHOR_MAX as int, ANCHOR_LATITUDE_BASE as int))
}

pub open spec fn delta_spec(b: Seq<bool>, o: int) -> Option<i64> {
    field_spec(b, o, 7, false, DELTA_MIN as int, DELTA_MAX as int, 0)
}

pub open spec fn precise_longitude_spec(b: Seq<bool>, o: int) -> Option<i32> {
    opt_i32(field_spec(b, o, 28, true, -PRECISE_LONGITUDE_MAX as int, PRECISE_LONGITUDE_MAX as int, 0))
}

pub open spec fn precise_latitude_spec(b: Seq<bool>, o: int) -> Option<i32> {
    opt_i32(field_spec(b, o, 27, true, -PRECISE_LATITUDE_MAX as int, PRECISE_LATITUDE_MAX as int, 0))
}

/// Every threshold above sits exactly where the field table puts it: the last
/// valid raw value decodes to a value and the next one to absence.
pub proof fn lemma_field_thresholds()
    ensures
        validated(120, 0, WIND_SPEED_MAX as int, 0) == Some(120i64),
        validated(121, 0, WIND_SPEED_MAX as int, 0) is None,
        validated(359, 0, DIRECTION_MAX as int, 0) == Some(359i64),
        validated(360, 0, DIRECTION_MAX as int, 0) is None,
        validated(600, AIR_TEMPERATURE_MIN as int, AIR_TEMPERATURE_MAX as int, 0) == Some(600i64),
        validated(601, AIR_TEMPERATURE_MIN as int, AIR_TEMPERATURE_MAX as int, 0) is None,
        validated(-600, AIR_TEMPERATURE_MIN as int, AIR_TEMPERATURE_MAX as int, 0) == Some(-600i64),
        validated(-601, AIR_TEMPERATURE_MIN as int, AIR_TEMPERATURE_MAX as int, 0) is None,
        validated(-100, SEA_TEMPERATURE_MIN as int, SEA_TEMPERATURE_MAX as int, 0) == Some(-100i64),
        validated(-101, SEA_TEMPERATURE_MIN as int, SEA_TEMPERATURE_MAX as int, 0) is None,
        validated(600, SEA_TEMPERATURE_MIN as int, SEA_TEMPERATURE_MAX as int, 0) == Some(600i64),
        validated(601, SEA_TEMPERATURE_MIN as int, SEA_TEMPERATURE_MAX as int, 0) is None,
        validated(400, 0, PRESSURE_MAX as int, PRESSURE_BASE as int) == Some(1200i64),
        validated(401, 0, PRESSURE_MAX as int, PRESSURE_BASE as int) is None,
        validated(250, 0, TENTHS_MAX as int, 0) == Some(250i64),
        validated(251, 0, TENTHS_MAX as int, 0) is None,
        validated(250, WATER_LEVEL_MIN as int, WATER_LEVEL_MAX as int, 0) == Some(250i64),
        validated(251, WATER_LEVEL_MIN as int, WATER_LEVEL_MAX as int, 0) is None,
        validated(-250, WATER_LEVEL_MIN as int, WATER_LEVEL_MAX as int, 0) == Some(-250i64),
        validated(-251, WATER_LEVEL_MIN as int, WATER_LEVEL_MAX as int, 0) is None,
        validated(99, 0, HUMIDITY_MAX as int, 0) == Some(99i64),
        validated(100, 0, HUMIDITY_MAX as int, 0) is None,
        validated(7200, 0, ANCHOR_MAX as int, ANCHOR_LONGITUDE_BASE as int) == Some(10800i64),
        validated(7201, 0, ANCHOR_MAX as int, ANCHOR_LONGITUDE_BASE as int) is None,
        validated(7200, 0, ANCHOR_MAX as int, ANCHOR_LATITUDE_BASE as int) == Some(4200i64),
        validated(7201, 0, ANCHOR_MAX as int, ANCHOR_LATITUDE_BASE as int) is None,
        validated(59, DELTA_MIN as int, DELTA_MAX as int, 0) == Some(59i64),
        validated(60, DELTA_MIN as int, DELTA_MAX as int, 0) is None,
        validated(1, DELTA_MIN as int, DELTA_MAX as int, 0) == Some(1i64),
        validated(0, DELTA_MIN as int, DELTA_MAX as int, 0) is None,
        validated(108_000_000, -PRECISE_LONGITUDE_MAX as int, PRECISE_LONGITUDE_MAX as int, 0)
            == Some(108_000_000i64),
        validated(108_000_001, -PRECISE_LONGITUDE_MAX as int, PRECISE_LONGITUDE_MAX as int, 0) is None,
        validated(-108_000_001, -PRECISE_LONGITUDE_MAX as int, PRECISE_LONGITUDE_MAX as int, 0) is None,
        validated(54_000_000, -PRECISE_LATITUDE_MAX as int, PRECISE_LATITUDE_MAX as int, 0)
            == Some(54_000_000i64),
        validated(54_000_001, -PRECISE_LATITUDE_MAX as int, PRECISE_LATITUDE_MAX as int, 0) is None,
{
}

pub fn wind_speed(buf: &BitBuffer, o: usize) -> (r: Option<u8>)
    requires
        o + 7 <= buf@.len(),
    ensures
        r == wind_speed_spec(buf@, o as int),
{
    narrow_u8(decode_field(buf, o, 7, false, 0, WIND_SPEED_MAX, 0))
}

pub fn direction(buf: &BitBuffer, o: usize) -> (r: Option<u16>)
    requires
        o + 9 <= buf@.len(),
    ensures
        r == direction_spec(buf@, o as int),
{
    narrow_u16(decode_field(buf, o, 9, false, 0, DIRECTION_MAX, 0))
}

pub fn air_temperature(buf: &BitBuffer, o: usize) -> (r: Option<i16>)
    requires
        o + 11 <= buf@.len(),
    ensures
        r == air_temperature_spec(buf@, o as int),
{
    narrow_i16(decode_field(buf, o, 11, true, AIR_TEMPERATURE_MIN, AIR_TEMPERATURE_MAX, 0))
}

pub fn sea_temperature(buf: &BitBuffer, o: usize) -> (r: Option<i16>)
    requires
        o + 11 <= buf@.len(),
    ensures
        r == sea_temperature_spec(buf@, o as int),
{
    narrow_i16(decode_field(buf, o, 11, true, SEA_TEMPERATURE_MIN, SEA_TEMPERATURE_MAX, 0))
}

pub fn pressure(buf: &BitBuffer, o: usize) -> (r: Option<u16>)
    requires
        o + 9 <= buf@.len(),
    ensures
        r == pressure_spec(buf@, o as int),
{
    narrow_u16(decode_field(buf, o, 9, false, 0, PRESSURE_MAX, PRESSURE_BASE))
}

pub fn tenths(buf: &BitBuffer, o: usize) -> (r: Option<u8>)
    requires
        o + 8 <= buf@.len(),
    ensures
        r == tenths_spec(buf@, o as int),
{
    narrow_u8(decode_field(buf, o, 8, false, 0, TENTHS_MAX, 0))
}

pub fn water_level(buf: &BitBuffer, o: usize) -> (r: Option<i16>)
    requires
        o + 9 <= buf@.len(),
    ensures
        r == water_level_spec(buf@, o as int),
{
    narrow_i16(decode_field(buf, o, 9, true, WATER_LEVEL_MIN, WATER_LEVEL_MAX, 0))
}

pub fn humidity(buf: &BitBuffer, o: usize) -> (r: Option<u8>)
    requires
        o + 7 <= buf@.len(),
    ensures
        r == humidity_spec(buf@, o as int),
{
    narrow_u8(decode_field(buf, o, 7, false, 0, HUMIDITY_MAX, 0))
}

pub fn anchor_longitude(buf: &BitBuffer, o: usize) -> (r: Option<i32>)
    requires
        o + 13 <= buf@.len(),
    ensures
        r == anchor_longitude_spec(buf@, o as int),
        longitude_in_range(r),
        r matches Some(v) ==> v >= ANCHOR_LONGITUDE_BASE,
{
    narrow_i32(decode_field(buf, o, 13, false, 0, ANCHOR_MAX, ANCHOR_LONGITUDE_BASE))
}

pub fn anchor_latitude(buf: &BitBuffer, o: usize) -> (r: Option<i32>)
    requires
        o + 13 <= buf@.len(),
    ensures
        r == anchor_latitude_spec(buf@, o as int),
        r matches Some(v) ==> ANCHOR_LATITUDE_BASE <= v <= ANCHOR_LATITUDE_BASE + ANCHOR_MAX,
{
    narrow_i32(decode_field(buf, o, 13, false, 0, ANCHOR_MAX, ANCHOR_LATITUDE_BASE))
}

pub fn delta(buf: &BitBuffer, o: usize) -> (r: Option<i64>)
    requires
        o + 7 <= buf@.len(),
    ensures
        r == delta_spec(buf@, o as int),
        delta_in_range(r),
{
    decode_field(buf, o, 7, false, DELTA_MIN, DELTA_MAX, 0)
}

pub fn precise_longitude(buf: &BitBuffer, o: usize) -> (r: Option<i32>)
    requires
        o + 28 <= buf@.len(),
    ensures
        r == precise_longitude_spec(buf@, o as int),
{
    narrow_i32(decode_field(buf, o, 28, true, -PRECISE_LONGITUDE_MAX, PRECISE_LONGITUDE_MAX, 0))
}

pub fn precise_latitude(buf: &BitBuffer, o: usize) -> (r: Option<i32>)
    requires
        o + 27 <= buf@.len(),
    ensures
        r == precise_latitude_spec(buf@, o as int),
{
    narrow_i32(decode_field(buf, o, 27, true, -PRECISE_LATITUDE_MAX, PRECISE_LATITUDE_MAX, 0))
}

/// A code of at most 8 bits, where every raw value is meaningful.
pub fn read_u8(buf: &BitBuffer, o: usize, width: usize) -> (r: u8)
    requires
        o + width <= buf@.len(),
        width <= 8,
    ensures
        r as nat == field_value(buf@, o as int, width as int),
{
    proof {
        lemma_bits_value_bound(buf@.subrange(o as int, o + width));
        lemma2_to64();
        if width < 8 {
            lemma_pow2_strictly_increases(width as nat, 8);
        }
    }
    buf.read_unsigned(o, width) as u8
}

/// A code of at most 16 bits, where every raw value is meaningful.
pub fn read_u16(buf: &BitBuffer, o: usize, width: usize) -> (r: u16)
    requires
        o + width <= buf@.len(),
        width <= 16,
    ensures
        r as nat == field_value(buf@, o as int, width as int),
{
    proof {
        lemma_bits_value_bound(buf@.subrange(o as int, o + width));
        lemma2_to64();
        if width < 16 {
            lemma_pow2_strictly_increases(width as nat, 16);
        }
    }
    buf.read_unsigned(o, width) as u16
}

/// An identifier of at most 32 bits, where every raw value is meaningful.
pub fn read_u32(buf: &BitBuffer, o: usize, width: usize) -> (r: u32)
    requires
        o + width <= buf@.len(),
        width <= 32,
    ensures
        r as nat == field_value(buf@, o as int, width as int),
{
    proof {
        lemma_bits_value_bound(buf@.subrange(o as int, o + width));
        lemma2_to64();
        if width < 32 {
            lemma_pow2_strictly_increases(width as nat, 32);
        }
    }
    buf.read_unsigned(o, width) as u32
}

/// A coordinate in minutes of arc, given in ten-thousandths of a minute (the
/// unit of the precise coordinates).
pub open spec fn fine_minutes(o: Option<i32>) -> Option<i64> {
    match o {
        Some(v) => Some((v * 10000) as i64),
        None => None,
    }
}

/// A precise coordinate, already in ten-thousandths of a minute.
pub open spec fn fine_precise(o: Option<i32>) -> Option<i64> {
    match o {
        Some(v) => Some(v as i64),
        None => None,
    }
}

pub fn to_fine_minutes(o: Option<i32>) -> (r: Option<i64>)
    ensures
        r == fine_minutes(o),
{
    match o {
        Some(v) => Some(v as i64 * 10000),
        None => None,
    }
}

pub fn to_fine_precise(o: Option<i32>) -> (r: Option<i64>)
    ensures
        r == fine_precise(o),
{
    match o {
        Some(v) => Some(v as i64),
        None => None,
    }
}

} // verus!
