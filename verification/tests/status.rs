use esp_sender::prayer::{
    calc_method_for, madhab_for, madhab_label, method_label, prayer_info, prayer_name, AsrMadhab,
    CalcMethod, PrayerKind,
};
use esp_sender::status::{
    discovery_step, display_online, idle_after_cycle, monitor_check, DiscoveryStep, MonitorCheck,
    DISCOVERY_WINDOW_NANOS, pairing_window_open, route_after_serial, saved_notice_visible,
    serial_retry_due, service_address, status_report, Route, SerialWrite,
};

const SEC: u128 = 1_000_000_000;

#[test]
fn serial_retry_timing() {
    assert!(!serial_retry_due(false, 5 * SEC));
    assert!(serial_retry_due(false, 5 * SEC + 1));
    assert!(!serial_retry_due(true, 60 * SEC));
}

#[test]
fn pairing_lasts_ten_seconds() {
    assert!(pairing_window_open(0));
    assert!(pairing_window_open(10 * SEC - 1));
    assert!(!pairing_window_open(10 * SEC));
}

#[test]
fn cycle_sleeps_the_rest_of_the_interval() {
    assert_eq!(idle_after_cycle(300_000_000, 800), 500_000_000);
    assert_eq!(idle_after_cycle(800_000_000, 800), 0);
    assert_eq!(idle_after_cycle(900_000_000, 800), 0);
    assert_eq!(idle_after_cycle(0, u64::MAX), u64::MAX as u128 * 1_000_000);
}

#[test]
fn online_window() {
    assert!(display_online(0));
    assert!(display_online(3 * SEC - 1));
    assert!(!display_online(3 * SEC));
    assert!(!display_online(60 * SEC));
}

#[test]
fn saved_notice() {
    assert!(saved_notice_visible(2 * SEC));
    assert!(!saved_notice_visible(3 * SEC));
}

#[test]
fn tray_follows_status_changes() {
    assert_eq!(status_report(false, false, "10.0.0.7:1234", "COM10"), None);
    assert_eq!(status_report(true, true, "10.0.0.7:1234", "COM10"), None);
    assert_eq!(
        status_report(false, true, "10.0.0.7:1234", "COM10").unwrap(),
        "PC Monitor v2.0\nStatus: Online\nTarget: 10.0.0.7:1234\nPort: COM10"
    );
    assert_eq!(
        status_report(true, false, "x", "COM3").unwrap(),
        "PC Monitor v2.0\nStatus: Offline\nTarget: x\nPort: COM3"
    );
}

#[test]
fn service_addresses() {
    assert_eq!(service_address("192.168.0.181", 1234), "192.168.0.181:1234");
    assert_eq!(service_address("fe80::1", 80), "fe80::1:80");
    assert_eq!(service_address("h", 0), "h:0");
}

#[test]
fn serial_is_preferred() {
    assert_eq!(route_after_serial(SerialWrite::Written), Route { drop_port: false, send_udp: false });
    assert_eq!(route_after_serial(SerialWrite::Failed), Route { drop_port: true, send_udp: true });
    assert_eq!(route_after_serial(SerialWrite::NoPort), Route { drop_port: false, send_udp: true });
}

#[test]
fn method_codes() {
    assert_eq!(calc_method_for(0), CalcMethod::UmmAlQura);
    assert_eq!(calc_method_for(1), CalcMethod::UmmAlQura);
    assert_eq!(calc_method_for(2), CalcMethod::MuslimWorldLeague);
    assert_eq!(calc_method_for(3), CalcMethod::NorthAmerica);
    assert_eq!(calc_method_for(4), CalcMethod::Egyptian);
    assert_eq!(calc_method_for(99), CalcMethod::Egyptian);
    assert_eq!(madhab_for(0), AsrMadhab::Shafi);
    assert_eq!(madhab_for(1), AsrMadhab::Hanafi);
    assert_eq!(madhab_for(7), AsrMadhab::Hanafi);
}

#[test]
fn labels() {
    assert_eq!(method_label(0), "UAE (Abu Dhabi)");
    assert_eq!(method_label(1), "Umm Al-Qura (KSA)");
    assert_eq!(method_label(2), "Muslim World League");
    assert_eq!(method_label(3), "ISNA (North America)");
    assert_eq!(method_label(4), "Egyptian");
    assert_eq!(method_label(12), "Egyptian");
    assert_eq!(madhab_label(0), "Shafi / Maliki / Hanbali");
    assert_eq!(madhab_label(1), "Hanafi");
}

#[test]
fn prayer_names() {
    assert_eq!(prayer_name(PrayerKind::Fajr), "Fajr");
    assert_eq!(prayer_name(PrayerKind::FajrTomorrow), "Fajr");
    assert_eq!(prayer_name(PrayerKind::Sunrise), "Sunrise");
    assert_eq!(prayer_name(PrayerKind::Dhuhr), "Dhuhr");
    assert_eq!(prayer_name(PrayerKind::Asr), "Asr");
    assert_eq!(prayer_name(PrayerKind::Maghrib), "Maghrib");
    assert_eq!(prayer_name(PrayerKind::Isha), "Isha");
    assert_eq!(prayer_name(PrayerKind::Qiyam), "Qiyam");
}

#[test]
fn prayer_summary() {
    let info = prayer_info(Some((PrayerKind::Maghrib, 1234)));
    assert_eq!(info.next_name, "Maghrib");
    assert_eq!(info.countdown_secs, 1234);
    let late = prayer_info(Some((PrayerKind::Isha, -3)));
    assert_eq!(late.countdown_secs, 0);
    let none = prayer_info(None);
    assert_eq!(none.next_name, "");
    assert_eq!(none.countdown_secs, 0);
}

#[test]
fn discovery_takes_first_answer() {
    match discovery_step(0, Some(("192.168.0.42", 1234))) {
        DiscoveryStep::Found(a) => assert_eq!(a, "192.168.0.42:1234"),
        other => panic!("{:?}", other),
    }
    // An answer that arrives as the window closes still counts.
    match discovery_step(9 * SEC, Some(("fe80::2", 80))) {
        DiscoveryStep::Found(a) => assert_eq!(a, "fe80::2:80"),
        other => panic!("{:?}", other),
    }
}

#[test]
fn discovery_waits_then_gives_up() {
    assert!(matches!(discovery_step(0, None), DiscoveryStep::Wait));
    assert!(matches!(discovery_step(5 * SEC - 1, None), DiscoveryStep::Wait));
    assert!(matches!(discovery_step(5 * SEC, None), DiscoveryStep::GiveUp));
    assert_eq!(DISCOVERY_WINDOW_NANOS, 5 * SEC);
}

#[test]
fn missing_monitor_warned_once_per_outage() {
    assert_eq!(monitor_check(false, false), MonitorCheck { warn: true, warned: true });
    assert_eq!(monitor_check(true, false), MonitorCheck { warn: false, warned: true });
    assert_eq!(monitor_check(true, true), MonitorCheck { warn: false, warned: false });
    assert_eq!(monitor_check(false, true), MonitorCheck { warn: false, warned: false });
}

#[test]
fn pairing_cadence() {
    assert_eq!(esp_sender::status::PAIR_RESEND_NANOS, 2 * SEC);
}
