use greg_os::rtc::{
    day_ordinal, days_in_month, decode_rtc, read_rtc, rtc_update_in_progress, rtc_valid,
    RtcDateTime, RtcRaw, TimeRegister,
};

fn bcd_raw() -> RtcRaw {
    // BCD mode (bit 2 of status B clear): 2023-05-17 10:30:45.
    RtcRaw {
        register_b: 0x00,
        second: 0x45,
        minute: 0x30,
        hour: 0x10,
        day: 0x17,
        month: 0x05,
        year: 0x23,
    }
}

fn binary_raw() -> RtcRaw {
    // Binary mode (bit 2 of status B set): 2023-05-17 10:30:45.
    RtcRaw {
        register_b: 0x04,
        second: 45,
        minute: 30,
        hour: 10,
        day: 17,
        month: 5,
        year: 23,
    }
}

#[test]
fn register_addresses() {
    assert_eq!(TimeRegister::Second.address(), 0x00);
    assert_eq!(TimeRegister::Minute.address(), 0x02);
    assert_eq!(TimeRegister::Hour.address(), 0x04);
    assert_eq!(TimeRegister::Day.address(), 0x07);
    assert_eq!(TimeRegister::Month.address(), 0x08);
    assert_eq!(TimeRegister::Year.address(), 0x09);
    assert_eq!(TimeRegister::A.address(), 0x0A);
    assert_eq!(TimeRegister::B.address(), 0x0B);
}

#[test]
fn update_in_progress_bit() {
    assert!(rtc_update_in_progress(0b0100_0000));
    assert!(!rtc_update_in_progress(0b1011_1111));
}

#[test]
fn bcd_decoding() {
    let d = decode_rtc(bcd_raw());
    assert_eq!(
        d,
        RtcDateTime { year: 2023, month: 5, day: 17, hour: 10, minute: 30, second: 45 }
    );
}

#[test]
fn binary_decoding_passes_through() {
    let d = decode_rtc(binary_raw());
    assert_eq!(
        d,
        RtcDateTime { year: 2023, month: 5, day: 17, hour: 10, minute: 30, second: 45 }
    );
}

#[test]
fn hour_keeps_pm_flag() {
    // 0x80 marks PM in 12-hour mode; 0x11 is 11 o'clock in BCD.
    let raw = RtcRaw { hour: 0x91, ..bcd_raw() };
    let d = decode_rtc(raw);
    assert_eq!(d.hour, 0x80 | 11);
}

#[test]
fn month_lengths_and_leap_years() {
    assert_eq!(days_in_month(2023, 2), 28);
    assert_eq!(days_in_month(2024, 2), 29);
    assert_eq!(days_in_month(1900, 2), 28);
    assert_eq!(days_in_month(2000, 2), 29);
    assert_eq!(days_in_month(2023, 4), 30);
    assert_eq!(days_in_month(2023, 12), 31);
}

#[test]
fn ordinal_day_of_year() {
    assert_eq!(day_ordinal(2023, 1, 1), 1);
    assert_eq!(day_ordinal(2023, 3, 1), 60);
    assert_eq!(day_ordinal(2024, 3, 1), 61);
    assert_eq!(day_ordinal(2023, 12, 31), 365);
    assert_eq!(day_ordinal(2024, 12, 31), 366);
}

#[test]
fn validity_checks() {
    let good = decode_rtc(binary_raw());
    assert!(rtc_valid(&good));
    assert!(!rtc_valid(&RtcDateTime { month: 13, ..good }));
    assert!(!rtc_valid(&RtcDateTime { day: 32, ..good }));
    assert!(!rtc_valid(&RtcDateTime { day: 29, month: 2, year: 2023, ..good }));
    assert!(rtc_valid(&RtcDateTime { day: 29, month: 2, year: 2024, ..good }));
    assert!(!rtc_valid(&RtcDateTime { hour: 24, ..good }));
    assert!(!rtc_valid(&RtcDateTime { minute: 60, ..good }));
    assert!(!rtc_valid(&RtcDateTime { second: 60, ..good }));
}

#[test]
fn read_rtc_builds_the_calendar_value() {
    let expected = time::Date::from_calendar_date(2023, time::Month::May, 17)
        .unwrap()
        .with_time(time::Time::from_hms(10, 30, 45).unwrap());
    assert_eq!(read_rtc(bcd_raw()), expected);
    assert_eq!(read_rtc(binary_raw()), expected);
}

#[test]
fn read_rtc_leap_day() {
    let raw = RtcRaw {
        register_b: 0x04,
        second: 0,
        minute: 0,
        hour: 23,
        day: 29,
        month: 2,
        year: 24,
    };
    let expected = time::Date::from_calendar_date(2024, time::Month::February, 29)
        .unwrap()
        .with_time(time::Time::from_hms(23, 0, 0).unwrap());
    assert_eq!(read_rtc(raw), expected);
}
