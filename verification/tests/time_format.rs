use poratake_daemon_win::time_format::format_system_time;

#[test]
fn formats_the_unix_epoch() {
    assert_eq!(format_system_time(0, 0), "1970-01-01T00:00:00.000Z");
}

#[test]
fn formats_a_leap_day_with_milliseconds() {
    let millis: u64 = 1_709_209_845_123;
    assert_eq!(
        format_system_time(millis / 1000, (millis % 1000) as u32),
        "2024-02-29T12:30:45.123Z"
    );
}

#[test]
fn formats_a_date_after_a_century_boundary() {
    assert_eq!(
        format_system_time(1_000_000_000, 0),
        "2001-09-09T01:46:40.000Z"
    );
}

#[test]
fn formats_the_last_day_of_a_year_and_the_first_of_the_next() {
    assert_eq!(format_system_time(1_704_067_199, 999), "2023-12-31T23:59:59.999Z");
    assert_eq!(format_system_time(1_704_067_200, 0), "2024-01-01T00:00:00.000Z");
}

#[test]
fn formats_a_non_leap_century_and_a_leap_quadricentennial() {
    // 2100-03-01T00:00:00Z follows 2100-02-28, 2000-02-29 exists.
    assert_eq!(format_system_time(4_107_542_400, 0), "2100-03-01T00:00:00.000Z");
    assert_eq!(format_system_time(951_782_400, 7), "2000-02-29T00:00:00.007Z");
}

#[test]
fn pads_years_to_four_digits_and_widens_beyond() {
    assert_eq!(format_system_time(253_402_300_800, 0), "10000-01-01T00:00:00.000Z");
}

fn days_from_civil(year: i64, month: i64, day: i64) -> i64 {
    let y = if month <= 2 { year - 1 } else { year };
    let era = y.div_euclid(400);
    let yoe = y - era * 400;
    let mp = (month + 9) % 12;
    let doy = (153 * mp + 2) / 5 + day - 1;
    let doe = yoe * 365 + yoe / 4 - yoe / 100 + doy;
    era * 146_097 + doe - 719_468
}

#[test]
fn timestamps_read_back_to_the_same_instant() {
    for secs in [0u64, 59, 86_399, 951_782_400, 1_709_209_845, 4_107_542_399, 253_402_300_799] {
        let text = format_system_time(secs, 42);
        let field = |from: usize, to: usize| text[from..to].parse::<i64>().unwrap();
        let (year, month, day) = (field(0, 4), field(5, 7), field(8, 10));
        let (hour, minute, second) = (field(11, 13), field(14, 16), field(17, 19));
        assert!(hour < 24 && minute < 60 && second < 60);
        let back = days_from_civil(year, month, day) * 86_400 + hour * 3_600 + minute * 60 + second;
        assert_eq!(back, secs as i64, "{text}");
        assert!(text.ends_with(".042Z"));
    }
}
