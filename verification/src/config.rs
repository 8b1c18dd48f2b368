//! The sender's settings, their defaults, and the decisions taken on them at
//! start-up: finding the display, creating the pairing key, registering the
//! program to start with Windows.

use vstd::prelude::*;
use rand::Rng;
use crate::text::{push_char, same_text, views};

verus! {

/// The sender's settings. The coordinates of the prayer-time location are
/// kept as the IEEE-754 bit patterns of their `f64` values in degrees.
#[derive(Clone, Debug)]
pub struct AppConfig {
    pub com_port: String,
    pub baud_rate: u32,
    pub esp_ip: String,
    pub auto_start: bool,
    pub interval_ms: u64,
    pub hmac_key: String,
    pub cpu_temp_limit: u32,
    pub gpu_temp_limit: u32,
    pub latitude_bits: u64,
    pub longitude_bits: u64,
    pub prayer_method: u32,
    pub madhab: u32,
}

/// Length, in characters, of a generated pairing key.
pub const PAIRING_KEY_CHARS: usize = 64;

/// Bits of 24.4539, the latitude of Abu Dhabi.
pub const ABU_DHABI_LATITUDE_BITS: u64 = 0x40387432ca57a787;

/// Bits of 54.3773, the longitude of Abu Dhabi.
pub const ABU_DHABI_LONGITUDE_BITS: u64 = 0x404b304b5dcc63f1;

/// Temperature limit, in degrees Celsius, when the settings name none.
pub fn default_temp_limit() -> (limit: u32)
    ensures
        limit == 85,
{
    85
}

/// Latitude when the settings name none (Abu Dhabi), as `f64` bits.
pub fn default_latitude_bits() -> (bits: u64)
    ensures
        bits == ABU_DHABI_LATITUDE_BITS,
{
    ABU_DHABI_LATITUDE_BITS
}

/// Longitude when the settings name none (Abu Dhabi), as `f64` bits.
pub fn default_longitude_bits() -> (bits: u64)
    ensures
        bits == ABU_DHABI_LONGITUDE_BITS,
{
    ABU_DHABI_LONGITUDE_BITS
}

/// Prayer-time method when the settings name none: 0, the UAE setting
/// (calculated with Umm al-Qura).
pub fn default_prayer_method() -> (code: u32)
    ensures
        code == 0,
{
    0
}

/// School when the settings name none: 0, Shafi.
pub fn default_madhab() -> (code: u32)
    ensures
        code == 0,
{
    0
}

/// The settings written on first start.
pub open spec fn is_default_config(c: AppConfig) -> bool {
    &&& c.com_port@ == "COM10"@
    &&& c.baud_rate == 115200
    &&& c.esp_ip@ == "auto"@
    &&& !c.auto_start
    &&& c.interval_ms == 800
    &&& c.hmac_key@ == Seq::<char>::empty()
    &&& c.cpu_temp_limit == 85
    &&& c.gpu_temp_limit == 85
    &&& c.latitude_bits == ABU_DHABI_LATITUDE_BITS
    &&& c.longitude_bits == ABU_DHABI_LONGITUDE_BITS
    &&& c.prayer_method == 0
    &&& c.madhab == 0
}

impl Default for AppConfig {
    fn default() -> (c: Self)
        ensures
            is_default_config(c),
    {
        AppConfig {
            com_port: String::from_str("COM10"),
            baud_rate: 115200,
            esp_ip: String::from_str("auto"),
            auto_start: false,
            interval_ms: 800,
            hmac_key: String::new(),
            cpu_temp_limit: default_temp_limit(),
            gpu_temp_limit: default_temp_limit(),
            latitude_bits: default_latitude_bits(),
            longitude_bits: default_longitude_bits(),
            prayer_method: default_prayer_method(),
            madhab: default_madhab(),
        }
    }
}

/// Address used when the display is to be found automatically and is not.
pub open spec fn fallback_address() -> Seq<char> {
    "192.168.0.181:1234"@
}

/// An ASCII letter or digit.
pub open spec fn is_alphanumeric_ascii(c: char) -> bool {
    ('a' <= c && c <= 'z') || ('A' <= c && c <= 'Z') || ('0' <= c && c <= '9')
}

/// Draws one byte from `rand`'s `Alphanumeric` distribution with the
/// thread-local generator (`rand::rng().sample(Alphanumeric)`). Every outcome
/// is an ASCII letter or digit; which one is left to chance. The generator's
/// first use in a thread panics if the operating system has no entropy to
/// seed it.
#[verifier::external_body]
fn random_alphanumeric() -> (b: u8)
    ensures
        is_alphanumeric_ascii(b as char),
{
    rand::rng().sample(rand::distr::Alphanumeric)
}

/// The key spelled by a run of drawn bytes, one character per byte.
pub fn key_from_draws(draws: &Vec<u8>) -> (key: String)
    ensures
        key@ == draws@.map_values(|b: u8| b as char),
{
    let mut key = String::new();
    let mut i: usize = 0;
    while i < draws.len()
        invariant
            i <= draws.len(),
            key@ == draws@.take(i as int).map_values(|b: u8| b as char),
        decreases draws.len() - i,
    {
        push_char(&mut key, draws[i] as char);
        assert(draws@.take(i + 1).map_values(|b: u8| b as char) =~= draws@.take(i as int).map_values(
            |b: u8| b as char,
        ).push(draws@[i as int] as char));
        i = i + 1;
    }
    assert(draws@.take(draws.len() as int) =~= draws@);
    key
}

/// A fresh pairing key: `PAIRING_KEY_CHARS` random ASCII letters and digits.
pub fn generate_pairing_key() -> (key: String)
    ensures
        key@.len() == PAIRING_KEY_CHARS,
        forall|i: int| 0 <= i < key@.len() ==> is_alphanumeric_ascii(#[trigger] key@[i]),
{
    let mut draws: Vec<u8> = Vec::new();
    let mut i: usize = 0;
    while i < PAIRING_KEY_CHARS
        invariant
            i <= PAIRING_KEY_CHARS,
            draws@.len() == i,
            forall|k: int| 0 <= k < draws@.len() ==> is_alphanumeric_ascii(#[trigger] draws@[k] as char),
        decreases PAIRING_KEY_CHARS - i,
    {
        draws.push(random_alphanumeric());
        i = i + 1;
    }
    key_from_draws(&draws)
}

/// The other settings are the same.
pub open spec fn same_except_address(a: AppConfig, b: AppConfig) -> bool {
    &&& a.com_port == b.com_port
    &&& a.baud_rate == b.baud_rate
    &&& a.auto_start == b.auto_start
    &&& a.interval_ms == b.interval_ms
    &&& a.hmac_key == b.hmac_key
    &&& a.cpu_temp_limit == b.cpu_temp_limit
    &&& a.gpu_temp_limit == b.gpu_temp_limit
    &&& a.latitude_bits == b.latitude_bits
    &&& a.longitude_bits == b.longitude_bits
    &&& a.prayer_method == b.prayer_method
    &&& a.madhab == b.madhab
}

/// The other settings are the same.
pub open spec fn same_except_key(a: AppConfig, b: AppConfig) -> bool {
    &&& a.com_port == b.com_port
    &&& a.baud_rate == b.baud_rate
    &&& a.esp_ip == b.esp_ip
    &&& a.auto_start == b.auto_start
    &&& a.interval_ms == b.interval_ms
    &&& a.cpu_temp_limit == b.cpu_temp_limit
    &&& a.gpu_temp_limit == b.gpu_temp_limit
    &&& a.latitude_bits == b.latitude_bits
    &&& a.longitude_bits == b.longitude_bits
    &&& a.prayer_method == b.prayer_method
    &&& a.madhab == b.madhab
}

impl AppConfig {
    /// The display is to be found on the network: the address is `auto` or
    /// empty.
    pub open spec fn wants_discovery(&self) -> bool {
        self.esp_ip@ == "auto"@ || self.esp_ip@.len() == 0
    }

    /// Whether the display must be looked for on the network.
    pub fn needs_discovery(&self) -> (wanted: bool)
        ensures
            wanted == self.wants_discovery(),
    {
        self.esp_ip.as_str().is_empty() || same_text(self.esp_ip.as_str(), "auto")
    }

    /// Takes the outcome of a network search: a found address replaces the
    /// setting and is to be saved (`true`); otherwise the fallback address is
    /// used for this run and nothing is saved (`false`).
    pub fn apply_discovery(&mut self, found: Option<String>) -> (save: bool)
        ensures
            same_except_address(*old(self), *final(self)),
            match found {
                Some(addr) => save && final(self).esp_ip@ == addr@,
                None => !save && final(self).esp_ip@ == fallback_address(),
            },
    {
        match found {
            Some(addr) => {
                self.esp_ip = addr;
                true
            },
            None => {
                self.esp_ip = String::from_str("192.168.0.181:1234");
                false
            },
        }
    }

    /// Makes sure there is a key to pair with: an empty key is replaced by a
    /// freshly generated one and the settings are to be saved (`true`); a key
    /// that is set is kept (`false`).
    pub fn ensure_pairing_key(&mut self) -> (generated: bool)
        ensures
            same_except_key(*old(self), *final(self)),
            generated == (old(self).hmac_key@.len() == 0),
            !generated ==> final(self).hmac_key == old(self).hmac_key,
            generated ==> final(self).hmac_key@.len() == PAIRING_KEY_CHARS,
            generated ==> forall|i: int|
                0 <= i < final(self).hmac_key@.len() ==> is_alphanumeric_ascii(
                    #[trigger] final(self).hmac_key@[i],
                ),
    {
        if self.hmac_key.as_str().is_empty() {
            self.hmac_key = generate_pairing_key();
            true
        } else {
            false
        }
    }
}

/// The registry key under which programs that start with Windows are listed.
pub open spec fn run_key() -> Seq<char> {
    "HKEY_CURRENT_USER\\Software\\Microsoft\\Windows\\CurrentVersion\\Run"@
}

/// Arguments to `reg` that add the program, started as `exe`, to the start-up
/// list, or remove it.
pub open spec fn autostart_args(enable: bool, exe: Seq<char>) -> Seq<Seq<char>> {
    if enable {
        seq![
            "add"@,
            run_key(),
            "/v"@,
            "EspSender"@,
            "/t"@,
            "REG_SZ"@,
            "/d"@,
            seq!['"'] + exe + seq!['"'],
            "/f"@,
        ]
    } else {
        seq!["delete"@, run_key(), "/v"@, "EspSender"@, "/f"@]
    }
}

/// The `reg` command line that makes the start-up registration follow the
/// `auto_start` setting, for the program at `exe`.
pub fn autostart_command(enable: bool, exe: &str) -> (args: Vec<String>)
    ensures
        views(args@) == autostart_args(enable, exe@),
{
    let mut args: Vec<String> = Vec::new();
    if enable {
        args.push(String::from_str("add"));
        args.push(String::from_str("HKEY_CURRENT_USER\\Software\\Microsoft\\Windows\\CurrentVersion\\Run"));
        args.push(String::from_str("/v"));
        args.push(String::from_str("EspSender"));
        args.push(String::from_str("/t"));
        args.push(String::from_str("REG_SZ"));
        args.push(String::from_str("/d"));
        let mut quoted = String::new();
        push_char(&mut quoted, '"');
        quoted.append(exe);
        push_char(&mut quoted, '"');
        assert(quoted@ =~= seq!['"'] + exe@ + seq!['"']);
        args.push(quoted);
        args.push(String::from_str("/f"));
    } else {
        args.push(String::from_str("delete"));
        args.push(String::from_str("HKEY_CURRENT_USER\\Software\\Microsoft\\Windows\\CurrentVersion\\Run"));
        args.push(String::from_str("/v"));
        args.push(String::from_str("EspSender"));
        args.push(String::from_str("/f"));
    }
    assert(views(args@) =~= autostart_args(enable, exe@));
    args
}

} // verus!
