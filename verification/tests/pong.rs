use esp_sender::pong::{parse_u128_from, pong_round_trip};

#[test]
fn reply_reports_round_trip() {
    assert_eq!(pong_round_trip(b"PONG|1718000000123", 1718000000200), Some(77));
    assert_eq!(pong_round_trip(b"PONG|5", 5), Some(0));
}

#[test]
fn reply_from_the_future_is_ignored() {
    assert_eq!(pong_round_trip(b"PONG|300", 299), None);
}

#[test]
fn malformed_replies_are_ignored() {
    assert_eq!(pong_round_trip(b"PONG|", 10), None);
    assert_eq!(pong_round_trip(b"PONG|12a", 100), None);
    assert_eq!(pong_round_trip(b"PONG|12\n", 100), None);
    assert_eq!(pong_round_trip(b"PING|1", 100), None);
    assert_eq!(pong_round_trip(b"PONG", 100), None);
    assert_eq!(pong_round_trip(b"pong|1", 100), None);
    assert_eq!(pong_round_trip(b"PONG|-1", 100), None);
    assert_eq!(pong_round_trip(b"PONG|+", 100), None);
    assert_eq!(pong_round_trip(b"PONG|++1", 100), None);
    assert_eq!(pong_round_trip(b"PONG| 1", 100), None);
    assert_eq!(pong_round_trip(&[0xff, 0xfe], 100), None);
}

#[test]
fn plus_sign_is_accepted() {
    assert_eq!(pong_round_trip(b"PONG|+40", 100), Some(60));
}

#[test]
fn parse_matches_std() {
    let cases: [&[u8]; 9] = [b"0", b"007", b"+9", b"", b"+", b"1 ", b"340282366920938463463374607431768211455", b"340282366920938463463374607431768211456", b"99999999999999999999999999999999999999999"];
    for c in cases.iter() {
        let expected = std::str::from_utf8(c).unwrap().parse::<u128>().ok();
        assert_eq!(parse_u128_from(c, 0), expected, "{:?}", std::str::from_utf8(c));
    }
}

#[test]
fn largest_timestamp_round_trips() {
    let msg = format!("PONG|{}", u128::MAX);
    assert_eq!(pong_round_trip(msg.as_bytes(), u128::MAX), Some(0));
}
