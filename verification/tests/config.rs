use esp_sender::config::{
    autostart_command, default_latitude_bits, default_longitude_bits, default_madhab,
    default_prayer_method, default_temp_limit, key_from_draws, generate_pairing_key, AppConfig,
};

#[test]
fn defaults() {
    let c = AppConfig::default();
    assert_eq!(c.com_port, "COM10");
    assert_eq!(c.baud_rate, 115200);
    assert_eq!(c.esp_ip, "auto");
    assert!(!c.auto_start);
    assert_eq!(c.interval_ms, 800);
    assert_eq!(c.hmac_key, "");
    assert_eq!(c.cpu_temp_limit, 85);
    assert_eq!(c.gpu_temp_limit, 85);
    assert_eq!(f64::from_bits(c.latitude_bits), 24.4539);
    assert_eq!(f64::from_bits(c.longitude_bits), 54.3773);
    assert_eq!(c.prayer_method, 0);
    assert_eq!(c.madhab, 0);
}

#[test]
fn field_defaults() {
    assert_eq!(default_temp_limit(), 85);
    assert_eq!(f64::from_bits(default_latitude_bits()), 24.4539);
    assert_eq!(f64::from_bits(default_longitude_bits()), 54.3773);
    assert_eq!(default_prayer_method(), 0);
    assert_eq!(default_madhab(), 0);
}

#[test]
fn discovery_is_wanted_for_auto_or_empty() {
    let mut c = AppConfig::default();
    assert!(c.needs_discovery());
    c.esp_ip = String::new();
    assert!(c.needs_discovery());
    c.esp_ip = "192.168.1.20:1234".to_string();
    assert!(!c.needs_discovery());
    c.esp_ip = "AUTO".to_string();
    assert!(!c.needs_discovery());
}

#[test]
fn found_display_is_kept() {
    let mut c = AppConfig::default();
    let save = c.apply_discovery(Some("10.0.0.7:1234".to_string()));
    assert!(save);
    assert_eq!(c.esp_ip, "10.0.0.7:1234");
    assert_eq!(c.com_port, "COM10");
}

#[test]
fn missing_display_falls_back() {
    let mut c = AppConfig::default();
    let save = c.apply_discovery(None);
    assert!(!save);
    assert_eq!(c.esp_ip, "192.168.0.181:1234");
}

#[test]
fn pairing_key_is_generated_once() {
    let mut c = AppConfig::default();
    assert!(c.ensure_pairing_key());
    assert_eq!(c.hmac_key.chars().count(), 64);
    assert!(c.hmac_key.chars().all(|ch| ch.is_ascii_alphanumeric()));
    let key = c.hmac_key.clone();
    assert!(!c.ensure_pairing_key());
    assert_eq!(c.hmac_key, key);
}

#[test]
fn set_key_is_kept() {
    let mut c = AppConfig::default();
    c.hmac_key = "mine".to_string();
    assert!(!c.ensure_pairing_key());
    assert_eq!(c.hmac_key, "mine");
}

#[test]
fn generated_keys_differ() {
    assert_ne!(generate_pairing_key(), generate_pairing_key());
}

#[test]
fn key_spells_draws() {
    assert_eq!(key_from_draws(&b"aZ09".to_vec()), "aZ09");
    assert_eq!(key_from_draws(&Vec::new()), "");
}

#[test]
fn autostart_registration() {
    let add = autostart_command(true, "C:\\Tools\\Esp_Sender.exe");
    assert_eq!(
        add,
        vec![
            "add",
            "HKEY_CURRENT_USER\\Software\\Microsoft\\Windows\\CurrentVersion\\Run",
            "/v",
            "EspSender",
            "/t",
            "REG_SZ",
            "/d",
            "\"C:\\Tools\\Esp_Sender.exe\"",
            "/f"
        ]
    );
    let delete = autostart_command(false, "ignored");
    assert_eq!(
        delete,
        vec![
            "delete",
            "HKEY_CURRENT_USER\\Software\\Microsoft\\Windows\\CurrentVersion\\Run",
            "/v",
            "EspSender",
            "/f"
        ]
    );
}
