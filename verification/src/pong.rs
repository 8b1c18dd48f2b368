//! Replies from the display. The display answers each telemetry packet with
//! a datagram `PONG|<timestamp>` that echoes the packet's millisecond
//! timestamp; the difference to the current time is the round trip.

use vstd::prelude::*;
use crate::text::{dec_digits, digit_char};

verus! {

/// An ASCII decimal digit.
pub open spec fn is_digit_byte(b: u8) -> bool {
    48 <= b && b <= 57
}

/// Every byte of `s` is a decimal digit.
pub open spec fn all_digit_bytes(s: Seq<u8>) -> bool {
    forall|i: int| 0 <= i < s.len() ==> is_digit_byte(#[trigger] s[i])
}

/// The number written by the decimal digits `s` (most significant first).
pub open spec fn digits_value(s: Seq<u8>) -> nat
    decreases s.len(),
{
    if s.len() == 0 {
        0
    } else {
        digits_value(s.drop_last()) * 10 + (s.last() - 48) as nat
    }
}

/// The digits of an unsigned number: one leading `+` is allowed when
/// something follows it.
pub open spec fn unsigned_digits(s: Seq<u8>) -> Seq<u8> {
    if s.len() >= 2 && s[0] == 43 {
        s.drop_first()
    } else {
        s
    }
}

/// What `str::parse::<u128>` gives for the text `s`: the number, or `None`
/// when `s` is empty, holds anything but digits after an optional `+`, or
/// names a number above `u128::MAX`.
pub open spec fn parsed_u128(s: Seq<u8>) -> Option<u128> {
    let d = unsigned_digits(s);
    if d.len() > 0 && all_digit_bytes(d) && digits_value(d) <= u128::MAX {
        Some(digits_value(d) as u128)
    } else {
        None
    }
}

/// `PONG|` in ASCII.
pub open spec fn pong_prefix() -> Seq<u8> {
    seq![80u8, 79u8, 78u8, 71u8, 124u8]
}

/// The timestamp a datagram carries, if it is a well-formed reply.
pub open spec fn pong_timestamp(msg: Seq<u8>) -> Option<u128> {
    if msg.len() >= 5 && msg.take(5) == pong_prefix() {
        parsed_u128(msg.skip(5))
    } else {
        None
    }
}

/// The round trip that a reply `msg`, received at `now_ms`, reports: only a
/// reply whose timestamp is not in the future counts.
pub open spec fn reported_round_trip(msg: Seq<u8>, now_ms: u128) -> Option<u128> {
    match pong_timestamp(msg) {
        Some(ts) => if now_ms >= ts {
            Some((now_ms - ts) as u128)
        } else {
            None
        },
        None => None,
    }
}

proof fn lemma_prefix_value_le(s: Seq<u8>, j: int)
    requires
        0 <= j <= s.len(),
        all_digit_bytes(s),
    ensures
        digits_value(s.take(j)) <= digits_value(s),
    decreases s.len(),
{
    if j < s.len() {
        let d = s.drop_last();
        assert(d.take(j) =~= s.take(j));
        assert(all_digit_bytes(d));
        lemma_prefix_value_le(d, j);
    } else {
        assert(s.take(j) =~= s);
    }
}

/// Parses the decimal number in `s` from index `start` on, as
/// `str::parse::<u128>` does.
pub fn parse_u128_from(s: &[u8], start: usize) -> (r: Option<u128>)
    requires
        start <= s@.len(),
    ensures
        r == parsed_u128(s@.skip(start as int)),
{
    let ghost text = s@.skip(start as int);
    let n = s.len();
    let mut first = start;
    if n - start >= 2 && s[start] == 43 {
        first = start + 1;
    }
    let ghost d = unsigned_digits(text);
    assert(d =~= s@.skip(first as int));
    if first == n {
        return None;
    }
    let mut acc: u128 = 0;
    let mut i = first;
    while i < n
        invariant
            start <= first <= i <= n,
            n == s@.len(),
            d == s@.skip(first as int),
            d == unsigned_digits(s@.skip(start as int)),
            all_digit_bytes(d.take(i - first)),
            acc == digits_value(d.take(i - first)),
        decreases n - i,
    {
        let b = s[i];
        let k: Ghost<int> = Ghost(i - first);
        assert(d[k@] == b);
        if b < 48 || b > 57 {
            assert(!all_digit_bytes(d));
            return None;
        }
        assert(d.take(k@ + 1).drop_last() =~= d.take(k@));
        assert(all_digit_bytes(d.take(k@ + 1)));
        let next = match acc.checked_mul(10) {
            Some(m) => m.checked_add((b - 48) as u128),
            None => None,
        };
        match next {
            Some(v) => {
                acc = v;
            },
            None => {
                proof {
                    if all_digit_bytes(d) {
                        lemma_prefix_value_le(d, k@ + 1);
                    }
                }
                return None;
            },
        }
        i = i + 1;
    }
    assert(d.take(n - first) =~= d);
    Some(acc)
}

/// The round trip reported by the datagram `msg` received at `now_ms`
/// (milliseconds since the Unix epoch), or `None` when `msg` is not a reply
/// or its timestamp lies after `now_ms`.
pub fn pong_round_trip(msg: &[u8], now_ms: u128) -> (rtt: Option<u128>)
    ensures
        rtt == reported_round_trip(msg@, now_ms),
{
    if msg.len() < 5 {
        return None;
    }
    if !(msg[0] == 80 && msg[1] == 79 && msg[2] == 78 && msg[3] == 71 && msg[4] == 124) {
        assert(msg@.take(5)[0] == msg@[0] && msg@.take(5)[1] == msg@[1] && msg@.take(5)[2]
            == msg@[2] && msg@.take(5)[3] == msg@[3] && msg@.take(5)[4] == msg@[4]);
        return None;
    }
    assert(msg@.take(5) =~= pong_prefix());
    match parse_u128_from(msg, 5) {
        Some(ts) => if now_ms >= ts {
            Some(now_ms - ts)
        } else {
            None
        },
        None => None,
    }
}

/// The ASCII bytes of a run of ASCII characters.
pub open spec fn ascii_bytes(s: Seq<char>) -> Seq<u8> {
    s.map_values(|c: char| c as u8)
}

proof fn lemma_decimal_bytes(n: nat)
    ensures
        ascii_bytes(dec_digits(n)).len() > 0,
        ascii_bytes(dec_digits(n))[0] != 43,
        all_digit_bytes(ascii_bytes(dec_digits(n))),
        digits_value(ascii_bytes(dec_digits(n))) == n,
    decreases n,
{
    let b = ascii_bytes(dec_digits(n));
    if n < 10 {
        assert(b.drop_last() =~= Seq::<u8>::empty());
        assert(b[0] == (n + 48) as u8);
        assert(b.last() == b[0]);
        assert(digits_value(b) == digits_value(b.drop_last()) * 10 + (b.last() - 48) as nat);
    } else {
        lemma_decimal_bytes(n / 10);
        let p = ascii_bytes(dec_digits(n / 10));
        assert(b.drop_last() =~= p);
        assert(b.last() == (digit_char(n % 10)) as u8);
        assert(b.last() == (n % 10 + 48) as u8);
        assert(digits_value(b) == digits_value(b.drop_last()) * 10 + (b.last() - 48) as nat);
        assert(b[0] == p[0]);
        assert forall|i: int| 0 <= i < b.len() implies is_digit_byte(#[trigger] b[i]) by {
            if i < p.len() {
                assert(b[i] == p[i]);
            }
        }
    }
}

/// A timestamp the sender writes in decimal and the display echoes in a reply
/// is read back exactly, so a reply received at the same millisecond reports
/// a round trip of zero and, in general, `now_ms - ts`.
pub proof fn echoed_timestamp_round_trips(ts: u128, now_ms: u128)
    ensures
        pong_timestamp(pong_prefix() + ascii_bytes(dec_digits(ts as nat))) == Some(ts),
        now_ms >= ts ==> reported_round_trip(pong_prefix() + ascii_bytes(dec_digits(ts as nat)), now_ms)
            == Some((now_ms - ts) as u128),
{
    let body = ascii_bytes(dec_digits(ts as nat));
    let msg = pong_prefix() + body;
    lemma_decimal_bytes(ts as nat);
    assert(msg.take(5) =~= pong_prefix());
    assert(msg.skip(5) =~= body);
    assert(unsigned_digits(body) == body);
}


/// Only a datagram that starts with `PONG|` followed by decimal digits,
/// optionally after one `+`, and nothing else is taken as a reply.
pub proof fn accepted_replies_are_well_formed(msg: Seq<u8>)
    requires
        pong_timestamp(msg) is Some,
    ensures
        msg.len() >= 6,
        msg[0] == 80 && msg[1] == 79 && msg[2] == 78 && msg[3] == 71 && msg[4] == 124,
        (48 <= msg[5] <= 57) || (msg[5] == 43 && msg.len() >= 7),
        forall|i: int| 6 <= i < msg.len() ==> 48 <= #[trigger] msg[i] <= 57,
{
    let rest = msg.skip(5);
    let d = unsigned_digits(rest);
    assert(msg.take(5)[0] == msg[0] && msg.take(5)[1] == msg[1] && msg.take(5)[2] == msg[2]
        && msg.take(5)[3] == msg[3] && msg.take(5)[4] == msg[4]);
    assert(rest[0] == msg[5]);
    if rest.len() >= 2 && rest[0] == 43 {
        assert forall|i: int| 6 <= i < msg.len() implies 48 <= #[trigger] msg[i] <= 57 by {
            assert(d[i - 6] == msg[i]);
        }
    } else {
        assert(is_digit_byte(d[0]));
        assert forall|i: int| 6 <= i < msg.len() implies 48 <= #[trigger] msg[i] <= 57 by {
            assert(d[i - 5] == msg[i]);
        }
    }
}

} // verus!
