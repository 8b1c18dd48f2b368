//! The audit trail: every event of a run, time-stamped, kept in the order
//! it happened, from the start of the program on.

use vstd::prelude::*;
use crate::packet::{two_digits, valid_clock};
use crate::text::{dec_digits, decimal_digits_spell_the_number, digits_number, push_char};

verus! {

/// A local date and time of day, as the system clock reports it.
#[derive(Clone, Copy, Debug, PartialEq, Eq, Structural)]
pub struct Timestamp {
    pub year: i32,
    pub month: u32,
    pub day: u32,
    pub hour: u32,
    pub minute: u32,
    pub second: u32,
}

/// A leap year of the proleptic Gregorian calendar.
pub open spec fn is_leap_year(y: int) -> bool {
    (y % 4 == 0 && y % 100 != 0) || y % 400 == 0
}

/// Days in month `m` of year `y`.
pub open spec fn days_in_month(y: int, m: int) -> int {
    if m == 2 {
        if is_leap_year(y) {
            29
        } else {
            28
        }
    } else if m == 4 || m == 6 || m == 9 || m == 11 {
        30
    } else {
        31
    }
}

/// The timestamp names an existing date, within the years `chrono` can
/// represent, and a time of day.
pub open spec fn valid_timestamp(t: Timestamp) -> bool {
    &&& -262143 <= t.year <= 262142
    &&& 1 <= t.month <= 12
    &&& 1 <= t.day <= days_in_month(t.year as int, t.month as int)
    &&& valid_clock(t.hour, t.minute, t.second)
}

/// Whether `t` names an existing date and a time of day.
pub fn timestamp_is_valid(t: &Timestamp) -> (valid: bool)
    ensures
        valid == valid_timestamp(*t),
{
    if t.year < -262143 || t.year > 262142 || t.month < 1 || t.month > 12 || t.day < 1 {
        return false;
    }
    let y = t.year;
    let leap = (y % 4 == 0 && y % 100 != 0) || y % 400 == 0;
    assert(leap == is_leap_year(y as int)) by {
        assert(y % 4 == 0 <==> (y as int) % 4 == 0);
        assert(y % 100 == 0 <==> (y as int) % 100 == 0);
        assert(y % 400 == 0 <==> (y as int) % 400 == 0);
    }
    let days: u32 = if t.month == 2 {
        if leap {
            29
        } else {
            28
        }
    } else if t.month == 4 || t.month == 6 || t.month == 9 || t.month == 11 {
        30
    } else {
        31
    };
    t.day <= days && t.hour < 24 && t.minute < 60 && t.second < 60
}

/// Decimal digits left-padded with zeros to at least four.
pub open spec fn padded4(d: Seq<char>) -> Seq<char> {
    if d.len() >= 4 {
        d
    } else {
        Seq::new((4 - d.len()) as nat, |i: int| '0') + d
    }
}

/// A year as `%Y` writes it: four digits or more, with a sign outside the
/// years 0 to 9999.
pub open spec fn year_text(y: int) -> Seq<char> {
    if 0 <= y <= 9999 {
        padded4(dec_digits(y as nat))
    } else if y < 0 {
        seq!['-'] + padded4(dec_digits((-y) as nat))
    } else {
        seq!['+'] + padded4(dec_digits(y as nat))
    }
}

/// `YYYY-MM-DD hh:mm:ss`, the hour on a 24-hour dial.
pub open spec fn stamp_text(t: Timestamp) -> Seq<char> {
    year_text(t.year as int) + seq!['-'] + two_digits(t.month as nat) + seq!['-'] + two_digits(
        t.day as nat,
    ) + seq![' '] + two_digits(t.hour as nat) + seq![':'] + two_digits(t.minute as nat) + seq![':']
        + two_digits(t.second as nat)
}

/// Renders a date and time with `chrono`'s `%Y-%m-%d %H:%M:%S` format
/// (`NaiveDate::from_ymd_opt`, `and_hms_opt`, `format`): month, day, hour,
/// minute and second as two zero-padded digits, the year as four or more
/// digits, signed outside 0 to 9999.
#[verifier::external_body]
fn format_stamp(t: &Timestamp) -> (stamp: String)
    requires
        valid_timestamp(*t),
    ensures
        stamp@ == stamp_text(*t),
{
    match chrono::NaiveDate::from_ymd_opt(t.year, t.month, t.day) {
        Some(d) => match d.and_hms_opt(t.hour, t.minute, t.second) {
            Some(dt) => dt.format("%Y-%m-%d %H:%M:%S").to_string(),
            None => String::new(),
        },
        None => String::new(),
    }
}

/// An entry as it is kept and shown: `[stamp] message`.
pub open spec fn entry_text(stamp: Seq<char>, msg: Seq<char>) -> Seq<char> {
    seq!['['] + stamp + seq![']', ' '] + msg
}

/// The entry that records `msg` at time `when`.
pub fn log_line(when: &Timestamp, msg: &str) -> (entry: String)
    requires
        valid_timestamp(*when),
    ensures
        entry@ == entry_text(stamp_text(*when), msg@),
{
    let stamp = format_stamp(when);
    let mut e = String::new();
    push_char(&mut e, '[');
    e.append(stamp.as_str());
    push_char(&mut e, ']');
    push_char(&mut e, ' ');
    e.append(msg);
    assert(e@ =~= entry_text(stamp_text(*when), msg@));
    e
}

/// The log of a run. Entries are only ever added at the end.
pub struct LogBook {
    entries: Vec<String>,
}

impl LogBook {
    /// The entries so far, oldest first.
    pub closed spec fn history(&self) -> Seq<Seq<char>> {
        self.entries@.map_values(|e: String| e@)
    }

    /// An empty log.
    pub fn new() -> (log: LogBook)
        ensures
            log.history() == Seq::<Seq<char>>::empty(),
    {
        let log = LogBook { entries: Vec::new() };
        assert(log.history() =~= Seq::<Seq<char>>::empty());
        log
    }

    /// Records `msg` at time `when` and returns the entry, which is also what
    /// is printed.
    pub fn record(&mut self, when: &Timestamp, msg: &str) -> (entry: String)
        requires
            valid_timestamp(*when),
        ensures
            entry@ == entry_text(stamp_text(*when), msg@),
            final(self).history() == old(self).history().push(entry@),
    {
        let e = log_line(when, msg);
        self.entries.push(e.clone());
        assert(self.history() =~= old(self).history().push(e@));
        e
    }

    /// The number of entries.
    pub fn len(&self) -> (n: usize)
        ensures
            n == self.history().len(),
    {
        self.entries.len()
    }

    /// The entry at position `i`, oldest first.
    pub fn entry(&self, i: usize) -> (e: &String)
        requires
            i < self.history().len(),
        ensures
            e@ == self.history()[i as int],
    {
        &self.entries[i]
    }
}

/// Any run of records, each appending one entry as `record` does, keeps the
/// history it started from unchanged and adds exactly the recorded entries,
/// in the order they were recorded.
pub proof fn records_keep_history(
    before: Seq<Seq<char>>,
    histories: Seq<Seq<Seq<char>>>,
    recorded: Seq<Seq<char>>,
)
    requires
        histories.len() == recorded.len() + 1,
        histories[0] == before,
        forall|i: int|
            0 <= i < recorded.len() ==> #[trigger] histories[i + 1] == histories[i].push(recorded[i]),
    ensures
        histories.last() == before + recorded,
        histories.last().len() == before.len() + recorded.len(),
        histories.last().take(before.len() as int) == before,
        forall|i: int|
            0 <= i < recorded.len() ==> #[trigger] histories.last()[before.len() + i] == recorded[i],
{
    lemma_history_prefix(before, histories, recorded, recorded.len() as int);
    assert((before + recorded).take(before.len() as int) =~= before);
}

proof fn lemma_history_prefix(
    before: Seq<Seq<char>>,
    histories: Seq<Seq<Seq<char>>>,
    recorded: Seq<Seq<char>>,
    k: int,
)
    requires
        histories.len() == recorded.len() + 1,
        histories[0] == before,
        forall|i: int|
            0 <= i < recorded.len() ==> #[trigger] histories[i + 1] == histories[i].push(recorded[i]),
        0 <= k <= recorded.len(),
    ensures
        histories[k] == before + recorded.take(k),
    decreases k,
{
    if k == 0 {
        assert(before + recorded.take(0) =~= before);
    } else {
        lemma_history_prefix(before, histories, recorded, k - 1);
        assert(histories[k] == histories[k - 1].push(recorded[k - 1]));
        assert(before + recorded.take(k) =~= (before + recorded.take(k - 1)).push(recorded[k - 1]));
    }
}


proof fn lemma_zeros_number(z: Seq<char>)
    requires
        forall|i: int| 0 <= i < z.len() ==> #[trigger] z[i] == '0',
    ensures
        digits_number(z) == 0,
    decreases z.len(),
{
    if z.len() > 0 {
        lemma_zeros_number(z.drop_last());
    }
}

proof fn lemma_leading_zeros_number(z: Seq<char>, d: Seq<char>)
    requires
        forall|i: int| 0 <= i < z.len() ==> #[trigger] z[i] == '0',
    ensures
        digits_number(z + d) == digits_number(d),
    decreases d.len(),
{
    if d.len() == 0 {
        assert(z + d =~= z);
        lemma_zeros_number(z);
    } else {
        lemma_leading_zeros_number(z, d.drop_last());
        assert((z + d).drop_last() =~= z + d.drop_last());
    }
}

proof fn lemma_padded_number(n: nat)
    ensures
        padded4(dec_digits(n)).len() >= 4,
        forall|i: int|
            0 <= i < padded4(dec_digits(n)).len() ==> '0' <= #[trigger] padded4(dec_digits(n))[i]
                && padded4(dec_digits(n))[i] <= '9',
        digits_number(padded4(dec_digits(n))) == n,
        n <= 9999 ==> padded4(dec_digits(n)).len() == 4,
{
    let d = dec_digits(n);
    decimal_digits_spell_the_number(n);
    if d.len() < 4 {
        let z = Seq::new((4 - d.len()) as nat, |i: int| '0');
        lemma_leading_zeros_number(z, d);
        let p = z + d;
        assert forall|i: int| 0 <= i < p.len() implies '0' <= #[trigger] p[i] && p[i] <= '9' by {
            if i >= z.len() {
                assert(p[i] == d[i - z.len()]);
            }
        }
    }
    if n <= 9999 && d.len() > 4 {
        lemma_long_digits_large(d);
    }
}

proof fn lemma_long_digits_large(d: Seq<char>)
    requires
        d.len() >= 5,
        d[0] != '0',
        forall|i: int| 0 <= i < d.len() ==> '0' <= #[trigger] d[i] && d[i] <= '9',
    ensures
        digits_number(d) >= 10000,
    decreases d.len(),
{
    let p = d.drop_last();
    if d.len() == 5 {
        lemma_first_digit_weight(p);
    } else {
        assert(p[0] == d[0]);
        assert forall|i: int| 0 <= i < p.len() implies '0' <= #[trigger] p[i] && p[i] <= '9' by {
            assert(p[i] == d[i]);
        }
        lemma_long_digits_large(p);
    }
    assert('0' <= d[d.len() - 1]);
}

proof fn lemma_first_digit_weight(p: Seq<char>)
    requires
        p.len() == 4,
        p[0] != '0',
        forall|i: int| 0 <= i < p.len() ==> '0' <= #[trigger] p[i] && p[i] <= '9',
    ensures
        digits_number(p) >= 1000,
{
    let a = p.drop_last();
    let b = a.drop_last();
    let c = b.drop_last();
    assert(c.drop_last() =~= Seq::<char>::empty());
    assert(c[0] == p[0] && b[1] == p[1] && a[2] == p[2]);
    assert(p[0] as int >= 49 && p[1] as int >= 48 && p[2] as int >= 48 && p[3] as int >= 48);
    assert(digits_number(c) == digits_number(c.drop_last()) * 10 + (c.last() as int - 48));
    assert(digits_number(c) >= 1);
    assert(digits_number(b) == digits_number(c) * 10 + (b.last() as int - 48));
    assert(digits_number(a) == digits_number(b) * 10 + (a.last() as int - 48));
    assert(digits_number(p) == digits_number(a) * 10 + (p.last() as int - 48));
}

/// A log stamp is the year, `-`, the month, `-`, the day, a space, the
/// hour, `:`, the minute, `:` and the second. The year is written in at least
/// four decimal digits (exactly four for the years 0 to 9999), signed `-`
/// before year 0 and `+` after 9999; every other part is two decimal digits.
pub proof fn stamp_layout(t: Timestamp)
    requires
        1 <= t.month <= 12,
        1 <= t.day <= 31,
        t.hour < 24,
        t.minute < 60,
        t.second < 60,
    ensures
        ({
            let s = stamp_text(t);
            let y = year_text(t.year as int);
            let k = y.len() as int;
            &&& s.len() == k + 15
            &&& s.take(k) == y
            &&& s[k] == '-' && s[k + 3] == '-' && s[k + 6] == ' ' && s[k + 9] == ':' && s[k + 12] == ':'
            &&& s[k + 1] == (t.month / 10 + 48) as char && s[k + 2] == (t.month % 10 + 48) as char
            &&& s[k + 4] == (t.day / 10 + 48) as char && s[k + 5] == (t.day % 10 + 48) as char
            &&& s[k + 7] == (t.hour / 10 + 48) as char && s[k + 8] == (t.hour % 10 + 48) as char
            &&& s[k + 10] == (t.minute / 10 + 48) as char && s[k + 11] == (t.minute % 10 + 48) as char
            &&& s[k + 13] == (t.second / 10 + 48) as char && s[k + 14] == (t.second % 10 + 48) as char
        }),
        0 <= t.year <= 9999 ==> year_text(t.year as int).len() == 4 && digits_number(
            year_text(t.year as int),
        ) == t.year,
        t.year < 0 ==> year_text(t.year as int)[0] == '-' && digits_number(
            year_text(t.year as int).drop_first(),
        ) == -t.year,
        t.year > 9999 ==> year_text(t.year as int)[0] == '+' && digits_number(
            year_text(t.year as int).drop_first(),
        ) == t.year,
        forall|i: int|
            (if 0 <= t.year <= 9999 {
                0int
            } else {
                1int
            }) <= i < year_text(t.year as int).len() ==> '0' <= #[trigger] year_text(t.year as int)[i]
                && year_text(t.year as int)[i] <= '9',
{
    let s = stamp_text(t);
    let y = year_text(t.year as int);
    assert(s.take(y.len() as int) =~= y);
    if 0 <= t.year <= 9999 {
        lemma_padded_number(t.year as nat);
    } else if t.year < 0 {
        lemma_padded_number((-t.year) as nat);
        assert(y.drop_first() =~= padded4(dec_digits((-t.year) as nat)));
        assert forall|i: int| 1 <= i < y.len() implies '0' <= #[trigger] y[i] && y[i] <= '9' by {
            assert(y[i] == y.drop_first()[i - 1]);
        }
    } else {
        lemma_padded_number(t.year as nat);
        assert(y.drop_first() =~= padded4(dec_digits(t.year as nat)));
        assert forall|i: int| 1 <= i < y.len() implies '0' <= #[trigger] y[i] && y[i] <= '9' by {
            assert(y[i] == y.drop_first()[i - 1]);
        }
    }
}

} // verus!
