//! The datagrams the sender transmits: the pairing announcement and the
//! telemetry line, optionally authenticated with HMAC-SHA256.

use vstd::prelude::*;
use vstd::utf8::encode_utf8;
use hmac::{Hmac, Mac};
use sha2::Sha256;
use crate::prayer::PrayerData;
use crate::privacy::{display_title, shown_title};
use crate::text::{dec_digits, joined, push_char, push_decimal};

verus! {

/// One sample of everything the display shows. The nine gauges are already
/// rendered as whole numbers of percent, degrees or KiB/s; the clock is the
/// local wall-clock time; `window` is the foreground window's title as the
/// system reports it (it is filtered before it is sent).
pub struct Telemetry {
    pub cpu_load: String,
    pub ram_load: String,
    pub gpu_load: String,
    pub cpu_temp: String,
    pub gpu_temp: String,
    pub disk_used: String,
    pub net_down: String,
    pub net_up: String,
    pub vram_used: String,
    pub rtt_ms: u128,
    pub hour: u32,
    pub minute: u32,
    pub second: u32,
    pub window: String,
    pub timestamp_ms: u128,
    pub top_cpu: String,
    pub top_ram: String,
    pub cpu_temp_limit: u32,
    pub gpu_temp_limit: u32,
    pub prayer: PrayerData,
}

/// The clock fields name a time of day.
pub open spec fn valid_clock(hour: u32, minute: u32, second: u32) -> bool {
    hour < 24 && minute < 60 && second < 60
}

/// Whether the clock fields name a time of day.
pub fn valid_clock_fields(hour: u32, minute: u32, second: u32) -> (valid: bool)
    ensures
        valid == valid_clock(hour, minute, second),
{
    hour < 24 && minute < 60 && second < 60
}

/// Two decimal digits of `v`, where `v < 100`.
pub open spec fn two_digits(v: nat) -> Seq<char> {
    seq![((v / 10) + 48) as char, ((v % 10) + 48) as char]
}

/// The hour on a twelve-hour dial: 12 for midnight and noon.
pub open spec fn hour_on_dial(hour: nat) -> nat {
    if hour % 12 == 0 {
        12
    } else {
        hour % 12
    }
}

/// `hh:mm:ss AM` or `hh:mm:ss PM`, the hour on a twelve-hour dial.
pub open spec fn clock_text(hour: u32, minute: u32, second: u32) -> Seq<char> {
    two_digits(hour_on_dial(hour as nat)) + seq![':'] + two_digits(minute as nat) + seq![':']
        + two_digits(second as nat) + seq![' '] + (if hour >= 12 {
        seq!['P', 'M']
    } else {
        seq!['A', 'M']
    })
}

/// Renders a time of day with `chrono`'s `%I:%M:%S %p` format: the
/// twelve-hour hour, minutes and seconds, each as two zero-padded digits,
/// then `AM` or `PM`.
#[verifier::external_body]
fn format_clock(hour: u32, minute: u32, second: u32) -> (text: String)
    requires
        valid_clock(hour, minute, second),
    ensures
        text@ == clock_text(hour, minute, second),
{
    match chrono::NaiveTime::from_hms_opt(hour, minute, second) {
        Some(t) => t.format("%I:%M:%S %p").to_string(),
        None => String::new(),
    }
}

/// A decimal rendering of a signed number.
pub open spec fn signed_digits(v: int) -> Seq<char> {
    if v < 0 {
        seq!['-'] + dec_digits((-v) as nat)
    } else {
        dec_digits(v as nat)
    }
}

/// The telemetry line without its line end: `STAT` and the fields, each
/// after a `|`.
pub open spec fn stat_text(t: Telemetry) -> Seq<char> {
    "STAT"@ + seq!['|'] + t.cpu_load@ + seq!['|'] + t.ram_load@ + seq!['|'] + t.gpu_load@
        + seq!['|'] + t.cpu_temp@ + seq!['|'] + t.gpu_temp@ + seq!['|'] + t.disk_used@ + seq!['|']
        + t.net_down@ + seq!['|'] + t.net_up@ + seq!['|'] + t.vram_used@ + seq!['|'] + dec_digits(
        t.rtt_ms as nat,
    ) + seq!['|'] + clock_text(t.hour, t.minute, t.second) + seq!['|'] + shown_title(t.window@) + seq!['|']
        + dec_digits(t.timestamp_ms as nat) + seq!['|'] + t.top_cpu@ + seq!['|'] + t.top_ram@
        + seq!['|'] + dec_digits(t.cpu_temp_limit as nat) + seq!['|'] + dec_digits(
        t.gpu_temp_limit as nat,
    ) + seq!['|'] + t.prayer.next_name@ + seq!['|'] + signed_digits(t.prayer.countdown_secs as int)
}

fn push_field(out: &mut String, field: &str)
    ensures
        final(out)@ == old(out)@ + seq!['|'] + field@,
{
    push_char(out, '|');
    out.append(field);
}

fn push_number_field(out: &mut String, n: u128)
    ensures
        final(out)@ == old(out)@ + seq!['|'] + dec_digits(n as nat),
{
    push_char(out, '|');
    push_decimal(out, n);
}

/// The telemetry line without its line end.
pub fn stat_body(t: &Telemetry) -> (body: String)
    requires
        valid_clock(t.hour, t.minute, t.second),
    ensures
        body@ == stat_text(*t),
{
    let mut out = String::from_str("STAT");
    push_field(&mut out, t.cpu_load.as_str());
    push_field(&mut out, t.ram_load.as_str());
    push_field(&mut out, t.gpu_load.as_str());
    push_field(&mut out, t.cpu_temp.as_str());
    push_field(&mut out, t.gpu_temp.as_str());
    push_field(&mut out, t.disk_used.as_str());
    push_field(&mut out, t.net_down.as_str());
    push_field(&mut out, t.net_up.as_str());
    push_field(&mut out, t.vram_used.as_str());
    push_number_field(&mut out, t.rtt_ms);
    let clock = format_clock(t.hour, t.minute, t.second);
    push_field(&mut out, clock.as_str());
    let window = display_title(t.window.as_str());
    push_field(&mut out, window.as_str());
    push_number_field(&mut out, t.timestamp_ms);
    push_field(&mut out, t.top_cpu.as_str());
    push_field(&mut out, t.top_ram.as_str());
    push_number_field(&mut out, t.cpu_temp_limit as u128);
    push_number_field(&mut out, t.gpu_temp_limit as u128);
    push_field(&mut out, t.prayer.next_name.as_str());
    push_char(&mut out, '|');
    let c = t.prayer.countdown_secs;
    if c < 0 {
        push_char(&mut out, '-');
        push_decimal(&mut out, (0i128 - c as i128) as u128);
    } else {
        push_decimal(&mut out, c as u128);
    }
    out
}

/// The HMAC-SHA256 tag of `msg` under `key`.
pub uninterp spec fn hmac_sha256_tag(key: Seq<u8>, msg: Seq<u8>) -> Seq<u8>;

/// Computes HMAC-SHA256 with the `hmac` and `sha2` crates
/// (`Hmac::<Sha256>::new_from_slice`, `update`, `finalize`). The tag depends
/// on the key and the message alone and is 32 bytes long; a key of any
/// length is accepted, so the error arm is never taken.
#[verifier::external_body]
fn hmac_sha256(key: &[u8], msg: &[u8]) -> (tag: Vec<u8>)
    ensures
        tag@ == hmac_sha256_tag(key@, msg@),
        tag@.len() == 32,
{
    match <Hmac<Sha256> as Mac>::new_from_slice(key) {
        Ok(mut mac) => {
            mac.update(msg);
            mac.finalize().into_bytes().to_vec()
        },
        Err(_) => Vec::new(),
    }
}

/// Lower-case hexadecimal digit for `d < 16`.
pub open spec fn hex_digit(d: nat) -> char {
    if d < 10 {
        (d + 48) as char
    } else {
        (d + 87) as char
    }
}

/// Lower-case hexadecimal text of `bytes`, two digits per byte, high nibble
/// first.
pub open spec fn hex_text(bytes: Seq<u8>) -> Seq<char>
    decreases bytes.len(),
{
    if bytes.len() == 0 {
        Seq::empty()
    } else {
        hex_text(bytes.drop_last()) + seq![
            hex_digit((bytes.last() / 16) as nat),
            hex_digit((bytes.last() % 16) as nat),
        ]
    }
}

/// `hex::encode`: two lower-case hexadecimal digits for each byte, high
/// nibble first.
#[verifier::external_body]
fn hex_encode(bytes: &[u8]) -> (text: String)
    ensures
        text@ == hex_text(bytes@),
{
    hex::encode(bytes)
}

/// A line as sent: without a key the line and a line end; with a key the line,
/// `|HMAC=`, the hexadecimal HMAC-SHA256 tag of the line's UTF-8 bytes under
/// the key's UTF-8 bytes, and a line end.
pub open spec fn framed_text(body: Seq<char>, key: Seq<char>) -> Seq<char> {
    if key.len() == 0 {
        body + seq!['\n']
    } else {
        body + "|HMAC="@ + hex_text(hmac_sha256_tag(encode_utf8(key), encode_utf8(body)))
            + seq!['\n']
    }
}

/// A lower-case hexadecimal digit.
pub open spec fn is_lower_hex(c: char) -> bool {
    ('0' <= c && c <= '9') || ('a' <= c && c <= 'f')
}

/// Hexadecimal text has two digits per byte, all of them lower-case
/// hexadecimal digits.
pub proof fn hex_text_shape(bytes: Seq<u8>)
    ensures
        hex_text(bytes).len() == 2 * bytes.len(),
        forall|i: int| 0 <= i < hex_text(bytes).len() ==> is_lower_hex(#[trigger] hex_text(bytes)[i]),
    decreases bytes.len(),
{
    if bytes.len() > 0 {
        hex_text_shape(bytes.drop_last());
        let h = hex_text(bytes);
        let p = hex_text(bytes.drop_last());
        assert forall|i: int| 0 <= i < h.len() implies is_lower_hex(#[trigger] h[i]) by {
            if i < p.len() {
                assert(h[i] == p[i]);
            }
        }
    }
}

/// `body` followed by `|HMAC=`, the hexadecimal form of `tag`, and a line
/// end.
pub fn append_signature(body: &str, tag: &[u8]) -> (line: String)
    ensures
        line@ == body@ + "|HMAC="@ + hex_text(tag@) + seq!['\n'],
{
    let mut out = String::from_str(body);
    let sig = hex_encode(tag);
    out.append("|HMAC=");
    out.append(sig.as_str());
    push_char(&mut out, '\n');
    out
}

fn frame_line(body: &str, key: &str) -> (line: String)
    ensures
        line@ == framed_text(body@, key@),
        key@.len() != 0 ==> line@.len() == body@.len() + 71,
{
    if key.is_empty() {
        let mut out = String::from_str(body);
        push_char(&mut out, '\n');
        out
    } else {
        let tag = hmac_sha256(key.as_bytes(), body.as_bytes());
        proof {
            hex_text_shape(tag@);
            reveal_strlit("|HMAC=");
        }
        append_signature(body, tag.as_slice())
    }
}

/// The telemetry datagram, signed when `key` is not empty.
pub fn telemetry_packet(t: &Telemetry, key: &str) -> (packet: String)
    requires
        valid_clock(t.hour, t.minute, t.second),
    ensures
        packet@ == framed_text(stat_text(*t), key@),
        key@.len() != 0 ==> packet@.len() == stat_text(*t).len() + 71,
{
    let body = stat_body(t);
    frame_line(body.as_str(), key)
}

/// The pairing announcement that hands the display the shared key.
pub fn pair_packet(key: &str) -> (packet: String)
    ensures
        packet@ == "PAIR|"@ + key@ + seq!['\n'],
{
    let mut out = String::from_str("PAIR|");
    out.append(key);
    push_char(&mut out, '\n');
    out
}


/// Signing only appends: a datagram begins with exactly the line it carries,
/// ends with a line end, and without a key it is that line and the line end.
pub proof fn signing_only_appends(body: Seq<char>, key: Seq<char>)
    ensures
        framed_text(body, key).take(body.len() as int) == body,
        framed_text(body, key).last() == '\n',
        framed_text(body, Seq::empty()) == body.push('\n'),
{
    assert(framed_text(body, key).take(body.len() as int) =~= body);
    assert(framed_text(body, Seq::empty()) =~= body.push('\n'));
}


/// The clock field is eleven characters, `hh:mm:ss AM` or `hh:mm:ss PM`:
/// the hour on a twelve-hour dial (12 for midnight and noon), the minute and
/// the second, each as two decimal digits, then `AM` before noon and `PM`
/// from noon on.
pub proof fn clock_field_layout(hour: u32, minute: u32, second: u32)
    requires
        hour < 24,
        minute < 60,
        second < 60,
    ensures
        clock_text(hour, minute, second).len() == 11,
        clock_text(hour, minute, second)[0] == (if hour % 12 == 0 {
            '1'
        } else {
            ((hour % 12) / 10 + 48) as char
        }),
        clock_text(hour, minute, second)[1] == (if hour % 12 == 0 {
            '2'
        } else {
            ((hour % 12) % 10 + 48) as char
        }),
        clock_text(hour, minute, second)[2] == ':',
        clock_text(hour, minute, second)[3] == (minute / 10 + 48) as char,
        clock_text(hour, minute, second)[4] == (minute % 10 + 48) as char,
        clock_text(hour, minute, second)[5] == ':',
        clock_text(hour, minute, second)[6] == (second / 10 + 48) as char,
        clock_text(hour, minute, second)[7] == (second % 10 + 48) as char,
        clock_text(hour, minute, second)[8] == ' ',
        clock_text(hour, minute, second)[9] == (if hour < 12 {
            'A'
        } else {
            'P'
        }),
        clock_text(hour, minute, second)[10] == 'M',
{
}

/// The value of a lower-case hexadecimal digit.
pub open spec fn nibble_value(c: char) -> int {
    if '0' <= c && c <= '9' {
        c as int - 48
    } else {
        c as int - 87
    }
}

/// `s` spells the bytes `b` in lower-case hexadecimal, two digits per byte,
/// high nibble first.
pub open spec fn spells_in_hex(s: Seq<char>, b: Seq<u8>) -> bool {
    &&& s.len() == 2 * b.len()
    &&& forall|i: int|
        0 <= i < b.len() ==> is_lower_hex(s[2 * i]) && is_lower_hex(s[2 * i + 1]) && nibble_value(
            s[2 * i],
        ) * 16 + nibble_value(s[2 * i + 1]) == #[trigger] b[i]
}

proof fn lemma_hex_text_spells(b: Seq<u8>)
    ensures
        spells_in_hex(hex_text(b), b),
    decreases b.len(),
{
    hex_text_shape(b);
    if b.len() > 0 {
        lemma_hex_text_spells(b.drop_last());
        hex_text_shape(b.drop_last());
        let h = hex_text(b);
        let p = hex_text(b.drop_last());
        assert forall|i: int|
            0 <= i < b.len() implies is_lower_hex(h[2 * i]) && is_lower_hex(h[2 * i + 1])
                && nibble_value(h[2 * i]) * 16 + nibble_value(h[2 * i + 1]) == #[trigger] b[i] by {
            if i < b.len() - 1 {
                assert(h[2 * i] == p[2 * i]);
                assert(h[2 * i + 1] == p[2 * i + 1]);
                assert(b[i] == b.drop_last()[i]);
            } else {
                let x = b.last();
                assert(h[2 * i] == hex_digit((x / 16) as nat));
                assert(h[2 * i + 1] == hex_digit((x % 16) as nat));
                assert(x == (x / 16) * 16 + x % 16);
            }
        }
    }
}

/// A signed datagram is the line, `|HMAC=`, the 32-byte HMAC-SHA256 tag
/// computed under the UTF-8 bytes of the whole key over the UTF-8 bytes of
/// the line, spelled in lower-case hexadecimal, and a line end.
pub proof fn signature_is_hmac_of_the_whole_key(body: Seq<char>, key: Seq<char>)
    requires
        key.len() > 0,
    ensures
        framed_text(body, key).take(body.len() as int) == body,
        framed_text(body, key).subrange(body.len() as int, body.len() as int + 6) == "|HMAC="@,
        spells_in_hex(
            framed_text(body, key).subrange(body.len() as int + 6, framed_text(body, key).len() - 1),
            hmac_sha256_tag(encode_utf8(key), encode_utf8(body)),
        ),
        framed_text(body, key).last() == '\n',
{
    reveal_strlit("|HMAC=");
    let tag = hmac_sha256_tag(encode_utf8(key), encode_utf8(body));
    let f = framed_text(body, key);
    lemma_hex_text_spells(tag);
    assert(f.take(body.len() as int) =~= body);
    assert(f.subrange(body.len() as int, body.len() as int + 6) =~= "|HMAC="@);
    assert(f.subrange(body.len() as int + 6, f.len() - 1) =~= hex_text(tag));
}


/// The telemetry line is `STAT` and twenty fields joined by `|`, in this
/// order: CPU, RAM and GPU load, CPU and GPU temperature, disk use, download
/// and upload rate, VRAM use, round trip, clock, filtered window title,
/// timestamp, top CPU and top RAM processes, CPU and GPU temperature limits,
/// next prayer and countdown.
pub proof fn stat_line_field_order(t: Telemetry)
    ensures
        stat_text(t) == joined(
            seq![
                "STAT"@,
                t.cpu_load@,
                t.ram_load@,
                t.gpu_load@,
                t.cpu_temp@,
                t.gpu_temp@,
                t.disk_used@,
                t.net_down@,
                t.net_up@,
                t.vram_used@,
                dec_digits(t.rtt_ms as nat),
                clock_text(t.hour, t.minute, t.second),
                shown_title(t.window@),
                dec_digits(t.timestamp_ms as nat),
                t.top_cpu@,
                t.top_ram@,
                dec_digits(t.cpu_temp_limit as nat),
                dec_digits(t.gpu_temp_limit as nat),
                t.prayer.next_name@,
                signed_digits(t.prayer.countdown_secs as int),
            ],
            seq!['|'],
        ),
{
    let f = seq![
        "STAT"@,
        t.cpu_load@,
        t.ram_load@,
        t.gpu_load@,
        t.cpu_temp@,
        t.gpu_temp@,
        t.disk_used@,
        t.net_down@,
        t.net_up@,
        t.vram_used@,
        dec_digits(t.rtt_ms as nat),
        clock_text(t.hour, t.minute, t.second),
        shown_title(t.window@),
        dec_digits(t.timestamp_ms as nat),
        t.top_cpu@,
        t.top_ram@,
        dec_digits(t.cpu_temp_limit as nat),
        dec_digits(t.gpu_temp_limit as nat),
        t.prayer.next_name@,
        signed_digits(t.prayer.countdown_secs as int),
    ];
    lemma_joined_is_prefix(f, 20);
    assert(f.take(20) =~= f);
    lemma_stat_prefix_full(t, f);
}

proof fn lemma_joined_is_prefix(f: Seq<Seq<char>>, k: int)
    requires
        1 <= k <= f.len(),
    ensures
        joined(f.take(k), seq!['|']) == stat_prefix(f, k),
    decreases k,
{
    if k > 1 {
        lemma_joined_is_prefix(f, k - 1);
        assert(f.take(k).drop_last() =~= f.take(k - 1));
    }
}

/// The first `k` fields of `f`, each after the first preceded by `|`.
spec fn stat_prefix(f: Seq<Seq<char>>, k: int) -> Seq<char>
    decreases k,
{
    if k <= 1 {
        f[0]
    } else {
        stat_prefix(f, k - 1) + seq!['|'] + f[k - 1]
    }
}

proof fn lemma_stat_prefix_full(t: Telemetry, f: Seq<Seq<char>>)
    requires
        f == seq![
            "STAT"@,
            t.cpu_load@,
            t.ram_load@,
            t.gpu_load@,
            t.cpu_temp@,
            t.gpu_temp@,
            t.disk_used@,
            t.net_down@,
            t.net_up@,
            t.vram_used@,
            dec_digits(t.rtt_ms as nat),
            clock_text(t.hour, t.minute, t.second),
            shown_title(t.window@),
            dec_digits(t.timestamp_ms as nat),
            t.top_cpu@,
            t.top_ram@,
            dec_digits(t.cpu_temp_limit as nat),
            dec_digits(t.gpu_temp_limit as nat),
            t.prayer.next_name@,
            signed_digits(t.prayer.countdown_secs as int),
        ],
    ensures
        stat_prefix(f, 20) == stat_text(t),
{
    reveal_with_fuel(stat_prefix, 21);
    assert(stat_prefix(f, 20) =~= stat_text(t));
}

} // verus!
