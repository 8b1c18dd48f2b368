//! Prayer-time settings and what the display is told about the next prayer.
//! The astronomical calculation itself works on floating-point coordinates
//! and is done outside this library; here are the choices that feed it and
//! the summary that comes out of it.

use vstd::prelude::*;

verus! {

/// Calculation method for prayer times.
#[derive(Clone, Copy, Debug, PartialEq, Eq, Structural)]
pub enum CalcMethod {
    UmmAlQura,
    MuslimWorldLeague,
    NorthAmerica,
    Egyptian,
}

/// School of jurisprudence, which decides the time of the afternoon prayer.
#[derive(Clone, Copy, Debug, PartialEq, Eq, Structural)]
pub enum AsrMadhab {
    Shafi,
    Hanafi,
}

/// The prayers a day's schedule names.
#[derive(Clone, Copy, Debug, PartialEq, Eq, Structural)]
pub enum PrayerKind {
    Fajr,
    Sunrise,
    Dhuhr,
    Asr,
    Maghrib,
    Isha,
    Qiyam,
    FajrTomorrow,
}

/// The next prayer as the display shows it: its name and the whole seconds
/// until it begins.
#[derive(Clone, Debug)]
pub struct PrayerData {
    pub next_name: String,
    pub countdown_secs: i64,
}

/// The method a settings code stands for. Code 0, labelled after the UAE,
/// uses Umm al-Qura, the method the UAE and Saudi authorities publish; 1 is
/// Umm al-Qura too, 2 Muslim World League, 3 North America, anything else
/// Egyptian.
pub open spec fn method_of(code: u32) -> CalcMethod {
    if code == 0 || code == 1 {
        CalcMethod::UmmAlQura
    } else if code == 2 {
        CalcMethod::MuslimWorldLeague
    } else if code == 3 {
        CalcMethod::NorthAmerica
    } else {
        CalcMethod::Egyptian
    }
}

/// The school a settings code stands for: 0 Shafi, anything else Hanafi.
pub open spec fn madhab_of(code: u32) -> AsrMadhab {
    if code == 0 {
        AsrMadhab::Shafi
    } else {
        AsrMadhab::Hanafi
    }
}

/// How the settings window names a method.
pub open spec fn method_title(m: CalcMethod) -> Seq<char> {
    match m {
        CalcMethod::UmmAlQura => "Umm Al-Qura (KSA)"@,
        CalcMethod::MuslimWorldLeague => "Muslim World League"@,
        CalcMethod::NorthAmerica => "ISNA (North America)"@,
        CalcMethod::Egyptian => "Egyptian"@,
    }
}

/// How the settings window names a school.
pub open spec fn madhab_title(m: AsrMadhab) -> Seq<char> {
    match m {
        AsrMadhab::Shafi => "Shafi / Maliki / Hanbali"@,
        AsrMadhab::Hanafi => "Hanafi"@,
    }
}

/// The name the display shows for a prayer; tomorrow's dawn prayer is shown
/// as `Fajr`.
pub open spec fn prayer_title(p: PrayerKind) -> Seq<char> {
    match p {
        PrayerKind::Fajr | PrayerKind::FajrTomorrow => "Fajr"@,
        PrayerKind::Sunrise => "Sunrise"@,
        PrayerKind::Dhuhr => "Dhuhr"@,
        PrayerKind::Asr => "Asr"@,
        PrayerKind::Maghrib => "Maghrib"@,
        PrayerKind::Isha => "Isha"@,
        PrayerKind::Qiyam => "Qiyam"@,
    }
}

/// The calculation method selected by a settings code.
pub fn calc_method_for(code: u32) -> (m: CalcMethod)
    ensures
        m == method_of(code),
{
    match code {
        0 | 1 => CalcMethod::UmmAlQura,
        2 => CalcMethod::MuslimWorldLeague,
        3 => CalcMethod::NorthAmerica,
        _ => CalcMethod::Egyptian,
    }
}

/// The school selected by a settings code.
pub fn madhab_for(code: u32) -> (m: AsrMadhab)
    ensures
        m == madhab_of(code),
{
    match code {
        0 => AsrMadhab::Shafi,
        _ => AsrMadhab::Hanafi,
    }
}

/// The label the settings window shows for a method code.
pub fn method_label(code: u32) -> (label: &'static str)
    ensures
        label@ == (if code == 0 {
            "UAE (Abu Dhabi)"@
        } else if code == 1 {
            "Umm Al-Qura (KSA)"@
        } else if code == 2 {
            "Muslim World League"@
        } else if code == 3 {
            "ISNA (North America)"@
        } else {
            "Egyptian"@
        }),
{
    match code {
        0 => "UAE (Abu Dhabi)",
        1 => "Umm Al-Qura (KSA)",
        2 => "Muslim World League",
        3 => "ISNA (North America)",
        _ => "Egyptian",
    }
}

/// The label the settings window shows for a school code.
pub fn madhab_label(code: u32) -> (label: &'static str)
    ensures
        label@ == (if code == 0 {
            "Shafi / Maliki / Hanbali"@
        } else {
            "Hanafi"@
        }),
{
    match code {
        0 => "Shafi / Maliki / Hanbali",
        _ => "Hanafi",
    }
}

/// The name the display shows for a prayer.
pub fn prayer_name(p: PrayerKind) -> (name: &'static str)
    ensures
        name@ == prayer_title(p),
{
    match p {
        PrayerKind::Fajr | PrayerKind::FajrTomorrow => "Fajr",
        PrayerKind::Sunrise => "Sunrise",
        PrayerKind::Dhuhr => "Dhuhr",
        PrayerKind::Asr => "Asr",
        PrayerKind::Maghrib => "Maghrib",
        PrayerKind::Isha => "Isha",
        PrayerKind::Qiyam => "Qiyam",
    }
}

/// Summarises a day's schedule for the display. `next` is the upcoming
/// prayer with the whole seconds until it (negative when it has begun), or
/// `None` when the schedule could not be calculated; then the name is empty
/// and the countdown zero. The countdown never goes below zero.
pub fn prayer_info(next: Option<(PrayerKind, i64)>) -> (info: PrayerData)
    ensures
        match next {
            Some((p, secs)) => info.next_name@ == prayer_title(p) && info.countdown_secs == (
            if secs > 0 {
                secs
            } else {
                0
            }),
            None => info.next_name@ == Seq::<char>::empty() && info.countdown_secs == 0,
        },
{
    match next {
        Some((p, secs)) => PrayerData {
            next_name: String::from_str(prayer_name(p)),
            countdown_secs: if secs > 0 {
                secs
            } else {
                0
            },
        },
        None => PrayerData { next_name: String::new(), countdown_secs: 0 },
    }
}

/// The settings window names the method that the calculation uses: for
/// codes 1 and up the label is the method's own name, and code 0, labelled
/// after the UAE, calculates exactly as code 1 (Umm al-Qura).
pub proof fn method_label_matches_method(code: u32)
    ensures
        code != 0 ==> method_title(method_of(code)) == (if code == 1 {
            "Umm Al-Qura (KSA)"@
        } else if code == 2 {
            "Muslim World League"@
        } else if code == 3 {
            "ISNA (North America)"@
        } else {
            "Egyptian"@
        }),
        method_of(0) == method_of(1),
        madhab_title(madhab_of(code)) == (if code == 0 {
            "Shafi / Maliki / Hanbali"@
        } else {
            "Hanafi"@
        }),
{
}

} // verus!
