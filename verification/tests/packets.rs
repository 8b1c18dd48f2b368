use esp_sender::packet::{append_signature, pair_packet, stat_body, telemetry_packet, Telemetry};
use esp_sender::prayer::PrayerData;
use hmac::{Hmac, Mac};
use sha2::Sha256;

fn sample(hour: u32, countdown: i64) -> Telemetry {
    Telemetry {
        cpu_load: "12".to_string(),
        ram_load: "48".to_string(),
        gpu_load: "3".to_string(),
        cpu_temp: "55".to_string(),
        gpu_temp: "41".to_string(),
        disk_used: "73".to_string(),
        net_down: "120".to_string(),
        net_up: "8".to_string(),
        vram_used: "21".to_string(),
        rtt_ms: 14,
        hour,
        minute: 5,
        second: 9,
        window: "Visual Studio Code".to_string(),
        timestamp_ms: 1718000000123,
        top_cpu: "code.exe:12;chrome.exe:4".to_string(),
        top_ram: "chrome.exe:1.2;code.exe:0.8".to_string(),
        cpu_temp_limit: 85,
        gpu_temp_limit: 90,
        prayer: PrayerData { next_name: "Asr".to_string(), countdown_secs: countdown },
    }
}

const BODY_13: &str = "STAT|12|48|3|55|41|73|120|8|21|14|01:05:09 PM|Visual Studio Code|1718000000123|code.exe:12;chrome.exe:4|chrome.exe:1.2;code.exe:0.8|85|90|Asr|3600";

#[test]
fn stat_body_lists_fields_in_order() {
    assert_eq!(stat_body(&sample(13, 3600)), BODY_13);
}

#[test]
fn window_title_is_filtered_in_the_line() {
    let mut t = sample(13, 3600);
    t.window = "Sign in - My Bank".to_string();
    assert!(stat_body(&t).contains("|Privacy Restricted|"));
    t.window = "A very long document title that goes on.txt".to_string();
    assert!(stat_body(&t).contains("|A very long document title ...|"));
}

#[test]
fn clock_uses_twelve_hour_dial() {
    assert!(stat_body(&sample(0, 0)).contains("|12:05:09 AM|"));
    assert!(stat_body(&sample(12, 0)).contains("|12:05:09 PM|"));
    assert!(stat_body(&sample(11, 0)).contains("|11:05:09 AM|"));
    assert!(stat_body(&sample(23, 0)).contains("|11:05:09 PM|"));
}

#[test]
fn negative_countdown_is_signed() {
    assert!(stat_body(&sample(1, -42)).ends_with("|Asr|-42"));
    assert!(stat_body(&sample(1, i64::MIN)).ends_with("|Asr|-9223372036854775808"));
}

#[test]
fn unsigned_packet_is_body_and_newline() {
    assert_eq!(telemetry_packet(&sample(13, 3600), ""), format!("{}\n", BODY_13));
}

#[test]
fn signed_packet_carries_hmac_of_body() {
    let key = "s3cret-ключ";
    let packet = telemetry_packet(&sample(13, 3600), key);
    let mut mac = Hmac::<Sha256>::new_from_slice(key.as_bytes()).unwrap();
    mac.update(BODY_13.as_bytes());
    let tag = mac.finalize().into_bytes();
    let hex: String = tag.iter().map(|b| format!("{:02x}", b)).collect();
    assert_eq!(packet, format!("{}|HMAC={}\n", BODY_13, hex));
    assert_eq!(packet.chars().count(), BODY_13.chars().count() + 71);
}

#[test]
fn signature_matches_rfc4231_vector() {
    // RFC 4231, test case 2: key "Jefe", data "what do ya want for nothing?".
    let mut mac = Hmac::<Sha256>::new_from_slice(b"Jefe").unwrap();
    mac.update(b"what do ya want for nothing?");
    let tag = mac.finalize().into_bytes();
    let line = append_signature("what do ya want for nothing?", &tag);
    assert_eq!(
        line,
        "what do ya want for nothing?|HMAC=5bdcc146bf60754e6a042426089575c75a003f089d2739839dec58b964ec3843\n"
    );
}

#[test]
fn append_signature_renders_lower_hex() {
    assert_eq!(append_signature("X", &[0x00, 0x0f, 0xa0, 0xff]), "X|HMAC=000fa0ff\n");
    assert_eq!(append_signature("", &[]), "|HMAC=\n");
}

#[test]
fn pair_packet_announces_key() {
    assert_eq!(pair_packet("abc123"), "PAIR|abc123\n");
    assert_eq!(pair_packet(""), "PAIR|\n");
}
