//! Real-time-clock register decoding.
//!
//! The battery-backed clock hands out one byte per register; the shell
//! reads them from the CMOS ports (waiting until no update is in
//! progress) and passes the raw bytes here. Depending on a status bit the
//! bytes are either plain binary or binary-coded decimal, the hour byte
//! additionally carrying a 12-hour flag in its top bit; the two-digit
//! year counts from 2000. The decoded fields are validated and turned
//! into a calendar value of the `time` crate.

use vstd::pervasive::unreached;
use vstd::prelude::*;

verus! {

/// Format string for rendering a decoded clock reading.
pub const DATE_TIME_FORMAT_EN: &'static str = "[year]-[month]-[day] [hour]:[minute]:[second]";

/// The clock registers this driver reads, by conventional CMOS address.
#[derive(Debug, Clone, Copy, PartialEq, Eq, Structural)]
pub enum TimeRegister {
    Second,
    Minute,
    Hour,
    Day,
    Month,
    Year,
    A,
    B,
}

impl TimeRegister {
    /// The CMOS address of this register.
    pub fn address(self) -> (r: u8)
        ensures
            r == spec_register_address(self),
    {
        match self {
            TimeRegister::Second => 0x00,
            TimeRegister::Minute => 0x02,
            TimeRegister::Hour => 0x04,
            TimeRegister::Day => 0x07,
            TimeRegister::Month => 0x08,
            TimeRegister::Year => 0x09,
            TimeRegister::A => 0x0A,
            TimeRegister::B => 0x0B,
        }
    }
}

/// The CMOS address of each clock register.
pub open spec fn spec_register_address(r: TimeRegister) -> u8 {
    match r {
        TimeRegister::Second => 0x00,
        TimeRegister::Minute => 0x02,
        TimeRegister::Hour => 0x04,
        TimeRegister::Day => 0x07,
        TimeRegister::Month => 0x08,
        TimeRegister::Year => 0x09,
        TimeRegister::A => 0x0A,
        TimeRegister::B => 0x0B,
    }
}

/// Whether a status-A byte reports an update in progress (bit 6); the
/// registers must not be read until this clears, or they may be torn.
pub fn rtc_update_in_progress(status_a: u8) -> (r: bool)
    ensures
        r == (status_a & 0x40 != 0),
{
    status_a & 0x40 != 0
}

/// One raw reading of all clock registers.
#[derive(Debug, Clone, Copy, PartialEq, Eq, Structural)]
pub struct RtcRaw {
    pub register_b: u8,
    pub second: u8,
    pub minute: u8,
    pub hour: u8,
    pub day: u8,
    pub month: u8,
    pub year: u8,
}

/// A decoded clock reading: plain calendar and time-of-day fields.
#[derive(Debug, Clone, Copy, PartialEq, Eq, Structural)]
pub struct RtcDateTime {
    pub year: i32,
    pub month: u8,
    pub day: u8,
    pub hour: u8,
    pub minute: u8,
    pub second: u8,
}

/// Whether a status-B byte reports plain binary register values (bit 2);
/// otherwise they are binary-coded decimal.
pub open spec fn spec_binary_mode(register_b: u8) -> bool {
    register_b & 0x04 != 0
}

/// A binary-coded-decimal byte as a number: low nibble is the ones
/// digit, high nibble the tens digit.
pub open spec fn spec_bcd(b: u8) -> u8 {
    ((b & 0x0F) + (b / 16) * 10) as u8
}

/// The hour byte decoded: the low nibble and the tens bits carry the
/// digits, and the top bit (the 12-hour-mode flag) is preserved.
pub open spec fn spec_bcd_hour(h: u8) -> u8 {
    (((h & 0x0F) + ((h & 0x70) / 16) * 10) as u8) | (h & 0x80)
}

/// The decoded reading: each register taken as-is in binary mode, and
/// converted from binary-coded decimal otherwise; the two-digit year
/// counts from 2000.
pub open spec fn spec_decoded(raw: RtcRaw) -> RtcDateTime {
    if spec_binary_mode(raw.register_b) {
        RtcDateTime {
            year: (2000 + raw.year) as i32,
            month: raw.month,
            day: raw.day,
            hour: raw.hour,
            minute: raw.minute,
            second: raw.second,
        }
    } else {
        RtcDateTime {
            year: (2000 + spec_bcd(raw.year)) as i32,
            month: spec_bcd(raw.month),
            day: spec_bcd(raw.day),
            hour: spec_bcd_hour(raw.hour),
            minute: spec_bcd(raw.minute),
            second: spec_bcd(raw.second),
        }
    }
}

/// Decode one binary-coded-decimal byte.
fn bcd(b: u8) -> (r: u8)
    ensures
        r == spec_bcd(b),
{
    proof {
        assert(b & 0x0F <= 0x0F) by (bit_vector);
    }
    (b & 0x0F) + (b / 16) * 10
}

/// Decode the hour byte, preserving the 12-hour-mode flag.
fn bcd_hour(h: u8) -> (r: u8)
    ensures
        r == spec_bcd_hour(h),
{
    proof {
        assert(h & 0x0F <= 0x0F && h & 0x70 <= 0x70) by (bit_vector);
    }
    ((h & 0x0F) + ((h & 0x70) / 16) * 10) | (h & 0x80)
}

/// Decode a raw register reading into plain calendar and time fields.
pub fn decode_rtc(raw: RtcRaw) -> (d: RtcDateTime)
    ensures
        d == spec_decoded(raw),
{
    if raw.register_b & 0x04 != 0 {
        RtcDateTime {
            year: 2000 + raw.year as i32,
            month: raw.month,
            day: raw.day,
            hour: raw.hour,
            minute: raw.minute,
            second: raw.second,
        }
    } else {
        RtcDateTime {
            year: 2000 + bcd(raw.year) as i32,
            month: bcd(raw.month),
            day: bcd(raw.day),
            hour: bcd_hour(raw.hour),
            minute: bcd(raw.minute),
            second: bcd(raw.second),
        }
    }
}

/// A leap year in the proleptic Gregorian calendar.
pub open spec fn spec_is_leap_year(year: int) -> bool {
    year % 4 == 0 && (year % 100 != 0 || year % 400 == 0)
}

/// Days in a calendar year.
pub open spec fn spec_days_in_year(year: int) -> int {
    if spec_is_leap_year(year) {
        366
    } else {
        365
    }
}

/// Days in one month of a year (months counted 1 through 12).
pub open spec fn spec_days_in_month(year: int, month: int) -> int {
    if month == 2 {
        if spec_is_leap_year(year) {
            29
        } else {
            28
        }
    } else if month == 4 || month == 6 || month == 9 || month == 11 {
        30
    } else {
        31
    }
}

/// Days of the year before the first day of a month.
pub open spec fn spec_days_before_month(year: int, month: int) -> int
    decreases month,
{
    if month <= 1 {
        0
    } else {
        spec_days_before_month(year, month - 1) + spec_days_in_month(year, month - 1)
    }
}

/// The day of the year (1-based) of a calendar date.
pub open spec fn spec_ordinal(year: int, month: int, day: int) -> int {
    spec_days_before_month(year, month) + day
}

/// A calendar date that exists, within the year range the calendar
/// library supports.
pub open spec fn spec_valid_date(year: int, month: int, day: int) -> bool {
    &&& -9999 <= year <= 9999
    &&& 1 <= month <= 12
    &&& 1 <= day <= spec_days_in_month(year, month)
}

/// A time of day with in-range components.
pub open spec fn spec_valid_time(hour: int, minute: int, second: int) -> bool {
    &&& 0 <= hour <= 23
    &&& 0 <= minute <= 59
    &&& 0 <= second <= 59
}

/// A decoded reading whose date exists and whose time is in range.
pub open spec fn spec_valid_rtc(d: RtcDateTime) -> bool {
    &&& spec_valid_date(d.year as int, d.month as int, d.day as int)
    &&& spec_valid_time(d.hour as int, d.minute as int, d.second as int)
}

/// The days before any month never exceed a year's length.
proof fn lemma_days_before_month_bound(year: int, month: int)
    requires
        1 <= month <= 13,
    ensures
        0 <= spec_days_before_month(year, month) <= 366,
        month <= 12 ==> spec_days_before_month(year, month) + spec_days_in_month(year, month)
            <= spec_days_in_year(year),
    decreases month,
{
    if month > 1 {
        lemma_days_before_month_bound(year, month - 1);
    }
    reveal_with_fuel(spec_days_before_month, 14);
}

/// A date that exists has an ordinal day inside its year.
pub proof fn lemma_valid_date_ordinal(year: int, month: int, day: int)
    requires
        spec_valid_date(year, month, day),
    ensures
        1 <= spec_ordinal(year, month, day) <= spec_days_in_year(year),
{
    lemma_days_before_month_bound(year, month);
}

/// Days in one month of a year.
pub fn days_in_month(year: i32, month: u8) -> (r: u8)
    requires
        1 <= month <= 12,
        -9999 <= year <= 9999,
    ensures
        r == spec_days_in_month(year as int, month as int),
{
    if month == 2 {
        // Work on a shifted non-negative year so the machine remainder
        // agrees with the mathematical one; 10000 is a multiple of 400.
        let y = year + 10000;
        let leap = y % 4 == 0 && (y % 100 != 0 || y % 400 == 0);
        proof {
            vstd::arithmetic::div_mod::lemma_mod_multiples_vanish(2500, year as int, 4);
            vstd::arithmetic::div_mod::lemma_mod_multiples_vanish(100, year as int, 100);
            vstd::arithmetic::div_mod::lemma_mod_multiples_vanish(25, year as int, 400);
        }
        if leap {
            29
        } else {
            28
        }
    } else if month == 4 || month == 6 || month == 9 || month == 11 {
        30
    } else {
        31
    }
}

/// Whether a decoded reading is a real calendar date and time; the shell
/// checks this before building a calendar value, since a torn or corrupt
/// register read may hold any bytes.
pub fn rtc_valid(d: &RtcDateTime) -> (r: bool)
    ensures
        r == spec_valid_rtc(*d),
{
    if !(-9999 <= d.year && d.year <= 9999) {
        return false;
    }
    if !(1 <= d.month && d.month <= 12) {
        return false;
    }
    if !(1 <= d.day && d.day <= days_in_month(d.year, d.month)) {
        return false;
    }
    d.hour <= 23 && d.minute <= 59 && d.second <= 59
}

/// The day of the year (1-based) of a date that exists.
pub fn day_ordinal(year: i32, month: u8, day: u8) -> (r: u16)
    requires
        spec_valid_date(year as int, month as int, day as int),
    ensures
        r == spec_ordinal(year as int, month as int, day as int),
        1 <= r <= spec_days_in_year(year as int),
{
    let mut sum: u16 = 0;
    let mut m: u8 = 1;
    while m < month
        invariant
            -9999 <= year <= 9999,
            1 <= m <= month <= 12,
            sum == spec_days_before_month(year as int, m as int),
            0 <= sum <= 366,
        decreases month - m,
    {
        proof {
            lemma_days_before_month_bound(year as int, m as int + 1);
        }
        sum = sum + days_in_month(year, m) as u16;
        m = m + 1;
    }
    proof {
        lemma_valid_date_ordinal(year as int, month as int, day as int);
    }
    sum + day as u16
}

#[verifier::external_type_specification]
#[verifier::external_body]
pub struct ExDate(time::Date);

#[verifier::external_type_specification]
#[verifier::external_body]
pub struct ExTime(time::Time);

#[verifier::external_type_specification]
#[verifier::external_body]
pub struct ExPlainDateTime(time::PlainDateTime);

#[verifier::external_type_specification]
#[verifier::external_body]
pub struct ExComponentRange(time::error::ComponentRange);

/// Relies on time::Date::from_ordinal_date: it returns a date exactly
/// when the year is within the supported range and the ordinal day lies
/// inside that year (1 through 365, or 366 in a leap year).
#[verifier::external_body]
fn date_from_ordinal(year: i32, ordinal: u16) -> (r: Result<time::Date, time::error::ComponentRange>)
    ensures
        (r is Ok) == (-9999 <= year <= 9999 && 1 <= ordinal <= spec_days_in_year(year as int)),
{
    time::Date::from_ordinal_date(year, ordinal)
}

/// Relies on time::Time::from_hms: it returns a time of day exactly when
/// every component is in range.
#[verifier::external_body]
fn time_from_hms(hour: u8, minute: u8, second: u8) -> (r: Result<time::Time, time::error::ComponentRange>)
    ensures
        (r is Ok) == (hour <= 23 && minute <= 59 && second <= 59),
{
    time::Time::from_hms(hour, minute, second)
}

/// Relies on time::Date::with_time: it combines a date and a time of day
/// into a date-time; it always succeeds.
#[verifier::external_body]
fn date_with_time(date: time::Date, time_of_day: time::Time) -> time::PrimitiveDateTime {
    date.with_time(time_of_day)
}

/// Build the calendar value of a raw clock reading: decode the
/// registers, turn the date into its day-of-year form, and combine date
/// and time. The caller must have checked the decoded reading with
/// `rtc_valid`; on a reading that is no real date or time this core, like
/// the boot path around it, treats the clock as broken and panics in the
/// shell instead of calling here.
pub fn read_rtc(raw: RtcRaw) -> time::PrimitiveDateTime
    requires
        spec_valid_rtc(spec_decoded(raw)),
{
    let d = decode_rtc(raw);
    let ordinal = day_ordinal(d.year, d.month, d.day);
    let date = match date_from_ordinal(d.year, ordinal) {
        Ok(date) => date,
        Err(_) => unreached(),
    };
    let time_of_day = match time_from_hms(d.hour, d.minute, d.second) {
        Ok(t) => t,
        Err(_) => unreached(),
    };
    date_with_time(date, time_of_day)
}

} // verus!
