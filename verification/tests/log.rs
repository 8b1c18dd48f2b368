use esp_sender::log::{log_line, timestamp_is_valid, LogBook, Timestamp};

fn at(year: i32, month: u32, day: u32, hour: u32, minute: u32, second: u32) -> Timestamp {
    Timestamp { year, month, day, hour, minute, second }
}

#[test]
fn entries_are_stamped_and_kept_in_order() {
    let mut book = LogBook::new();
    assert_eq!(book.len(), 0);
    let e = book.record(&at(2025, 1, 2, 3, 4, 5), "[SYS] Esp_Mon v2.0 starting...");
    assert_eq!(e, "[2025-01-02 03:04:05] [SYS] Esp_Mon v2.0 starting...");
    book.record(&at(2025, 1, 2, 23, 59, 59), "[GPU] No NVIDIA GPU");
    assert_eq!(book.len(), 2);
    assert_eq!(book.entry(0), "[2025-01-02 03:04:05] [SYS] Esp_Mon v2.0 starting...");
    assert_eq!(book.entry(1), "[2025-01-02 23:59:59] [GPU] No NVIDIA GPU");
}

#[test]
fn empty_message_entry() {
    assert_eq!(log_line(&at(1999, 12, 31, 0, 0, 0), ""), "[1999-12-31 00:00:00] ");
}

#[test]
fn years_outside_four_digits() {
    assert_eq!(log_line(&at(7, 3, 4, 5, 6, 7), "m"), "[0007-03-04 05:06:07] m");
    assert_eq!(log_line(&at(12345, 3, 4, 5, 6, 7), "m"), "[+12345-03-04 05:06:07] m");
    assert_eq!(log_line(&at(-1, 3, 4, 5, 6, 7), "m"), "[-0001-03-04 05:06:07] m");
}

#[test]
fn calendar_validity() {
    assert!(timestamp_is_valid(&at(2024, 2, 29, 12, 0, 0)));
    assert!(!timestamp_is_valid(&at(2023, 2, 29, 12, 0, 0)));
    assert!(!timestamp_is_valid(&at(1900, 2, 29, 12, 0, 0)));
    assert!(timestamp_is_valid(&at(2000, 2, 29, 12, 0, 0)));
    assert!(!timestamp_is_valid(&at(2025, 4, 31, 12, 0, 0)));
    assert!(!timestamp_is_valid(&at(2025, 13, 1, 12, 0, 0)));
    assert!(!timestamp_is_valid(&at(2025, 1, 0, 12, 0, 0)));
    assert!(!timestamp_is_valid(&at(2025, 1, 1, 24, 0, 0)));
    assert!(!timestamp_is_valid(&at(300000, 1, 1, 0, 0, 0)));
    assert!(timestamp_is_valid(&at(-4, 2, 29, 0, 0, 0)));
}

#[test]
fn stamps_agree_with_chrono_for_every_day_of_a_leap_year() {
    let mut d = chrono::NaiveDate::from_ymd_opt(2024, 1, 1).unwrap();
    use_chrono_dates(&mut d);
}

fn use_chrono_dates(d: &mut chrono::NaiveDate) {
    for _ in 0..366 {
        let t = at(chrono::Datelike::year(d), chrono::Datelike::month(d), chrono::Datelike::day(d), 13, 7, 9);
        assert!(timestamp_is_valid(&t));
        let expected = format!("[{}] x", d.and_hms_opt(13, 7, 9).unwrap().format("%Y-%m-%d %H:%M:%S"));
        assert_eq!(log_line(&t, "x"), expected);
        *d = d.succ_opt().unwrap();
    }
}
