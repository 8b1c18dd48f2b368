//! The timing decisions of the sender's loops and what the tray shows.
//! Durations are in nanoseconds, as measured by a monotonic clock.

use vstd::prelude::*;
use crate::text::{dec_digits, push_char, push_decimal};

verus! {

/// One second in nanoseconds.
pub const NANOS_PER_SEC: u128 = 1_000_000_000;

/// One millisecond in nanoseconds.
pub const NANOS_PER_MILLI: u128 = 1_000_000;

/// How long the sender keeps announcing the pairing key after start-up.
pub const PAIRING_WINDOW_NANOS: u128 = 10 * NANOS_PER_SEC;

/// Least time between two attempts to open the serial port.
pub const SERIAL_RETRY_NANOS: u128 = 5 * NANOS_PER_SEC;

/// The display counts as online while its last reply is younger than this.
pub const ONLINE_WINDOW_NANOS: u128 = 3 * NANOS_PER_SEC;

/// How long the display is looked for on the network.
pub const DISCOVERY_WINDOW_NANOS: u128 = 5 * NANOS_PER_SEC;

/// Pause between two pairing announcements.
pub const PAIR_RESEND_NANOS: u128 = 2 * NANOS_PER_SEC;

/// How long the settings window confirms a save.
pub const SAVED_NOTICE_NANOS: u128 = 3 * NANOS_PER_SEC;

/// Whether to try to open the serial port again: it is closed and the last
/// attempt lies more than `SERIAL_RETRY_NANOS` back.
pub fn serial_retry_due(port_open: bool, since_last_try: u128) -> (due: bool)
    ensures
        due == (!port_open && since_last_try > SERIAL_RETRY_NANOS),
{
    !port_open && since_last_try > SERIAL_RETRY_NANOS
}

/// Whether the pairing key is still being announced, `since_start` after
/// the announcements began.
pub fn pairing_window_open(since_start: u128) -> (open: bool)
    ensures
        open == (since_start < PAIRING_WINDOW_NANOS),
{
    since_start < PAIRING_WINDOW_NANOS
}

/// How long to sleep after a telemetry cycle that took `elapsed`, so that
/// cycles start every `interval_ms` milliseconds; zero when the cycle took
/// the whole interval or longer.
pub fn idle_after_cycle(elapsed: u128, interval_ms: u64) -> (idle: u128)
    ensures
        elapsed < interval_ms * NANOS_PER_MILLI ==> idle == interval_ms * NANOS_PER_MILLI - elapsed,
        elapsed >= interval_ms * NANOS_PER_MILLI ==> idle == 0,
{
    let interval = interval_ms as u128 * NANOS_PER_MILLI;
    if elapsed < interval {
        interval - elapsed
    } else {
        0
    }
}

/// Whether the display counts as online, `since_reply` after its last reply.
pub fn display_online(since_reply: u128) -> (online: bool)
    ensures
        online == (since_reply < ONLINE_WINDOW_NANOS),
{
    since_reply < ONLINE_WINDOW_NANOS
}

/// Whether the settings window still confirms the last save.
pub fn saved_notice_visible(since_save: u128) -> (visible: bool)
    ensures
        visible == (since_save < SAVED_NOTICE_NANOS),
{
    since_save < SAVED_NOTICE_NANOS
}

/// What the network search for the display does next.
#[derive(Debug)]
pub enum DiscoveryStep {
    /// The display answered at this `host:port` address; stop searching.
    Found(String),
    /// Nothing yet; keep listening.
    Wait,
    /// The search window has passed without an answer.
    GiveUp,
}

/// Decides the search for the display after a wait for announcements, at
/// `since_start` into the search. `resolved` is the first address and the
/// port of a service that answered during that wait, if any. An answer wins,
/// even one that arrives as the window closes; otherwise the search goes on
/// until `DISCOVERY_WINDOW_NANOS` have passed.
pub fn discovery_step(since_start: u128, resolved: Option<(&str, u16)>) -> (step: DiscoveryStep)
    ensures
        resolved matches Some((h, p)) ==> (step matches DiscoveryStep::Found(a) && a@ == h@
            + seq![':'] + dec_digits(p as nat)),
        resolved is None && since_start < DISCOVERY_WINDOW_NANOS ==> step == DiscoveryStep::Wait,
        resolved is None && since_start >= DISCOVERY_WINDOW_NANOS ==> step == DiscoveryStep::GiveUp,
{
    match resolved {
        Some((host, port)) => DiscoveryStep::Found(service_address(host, port)),
        None => if since_start < DISCOVERY_WINDOW_NANOS {
            DiscoveryStep::Wait
        } else {
            DiscoveryStep::GiveUp
        },
    }
}

/// The outcome of one attempt to reach the hardware monitoring service.
#[derive(Clone, Copy, Debug, PartialEq, Eq, Structural)]
pub struct MonitorCheck {
    /// Warn now that the service cannot be reached.
    pub warn: bool,
    /// Whether a warning stands for the current outage afterwards.
    pub warned: bool,
}

/// The missing-monitor warning is given once per outage: when the service
/// cannot be reached and no warning stands yet. Reaching it clears the
/// warning, so the next outage is reported again.
pub fn monitor_check(warned: bool, reachable: bool) -> (check: MonitorCheck)
    ensures
        check.warn == (!reachable && !warned),
        check.warned == !reachable,
{
    MonitorCheck { warn: !reachable && !warned, warned: !reachable }
}

/// Over a run of attempts to reach the monitoring service (`reachable[i]`
/// for attempt `i`), each step taken as `monitor_check` takes it, starting
/// with no warning standing: the warning is given exactly at the first
/// failed attempt of each outage, never again within that outage, and a
/// successful attempt re-arms it.
pub proof fn warning_once_per_outage(reachable: Seq<bool>, warned: Seq<bool>, warn: Seq<bool>)
    requires
        warned.len() == reachable.len() + 1,
        warn.len() == reachable.len(),
        !warned[0],
        forall|i: int|
            0 <= i < reachable.len() ==> #[trigger] warn[i] == (!reachable[i] && !warned[i])
                && warned[i + 1] == !reachable[i],
    ensures
        forall|i: int|
            0 <= i < reachable.len() ==> #[trigger] warn[i] == (!reachable[i] && (i == 0
                || reachable[i - 1])),
        forall|j: int|
            0 < j < reachable.len() && !reachable[j - 1] && !reachable[j] ==> !#[trigger] warn[j],
{
    assert forall|i: int| 0 <= i < reachable.len() implies #[trigger] warn[i] == (!reachable[i] && (
    i == 0 || reachable[i - 1])) by {
        if i > 0 {
            let k = i - 1;
            assert(0 <= k < reachable.len());
            assert(warn[k] == (!reachable[k] && !warned[k]) && warned[k + 1] == !reachable[k]);
            assert(k + 1 == i);
        }
    }
}

/// The tray tooltip for a display that is online or offline, reached at
/// `target` or through the serial port `port`.
pub open spec fn tooltip_text(online: bool, target: Seq<char>, port: Seq<char>) -> Seq<char> {
    "PC Monitor v2.0\nStatus: "@ + (if online {
        "Online"@
    } else {
        "Offline"@
    }) + "\nTarget: "@ + target + "\nPort: "@ + port
}

/// What the tray must show after a check of the display's state: nothing
/// when the state is the one shown, else the tooltip for the new state.
pub fn status_report(shown_online: bool, online: bool, target: &str, port: &str) -> (update: Option<
    String,
>)
    ensures
        shown_online == online ==> update is None,
        shown_online != online ==> (update matches Some(t) && t@ == tooltip_text(
            online,
            target@,
            port@,
        )),
{
    if shown_online == online {
        return None;
    }
    let mut t = String::from_str("PC Monitor v2.0\nStatus: ");
    if online {
        t.append("Online");
    } else {
        t.append("Offline");
    }
    t.append("\nTarget: ");
    t.append(target);
    t.append("\nPort: ");
    t.append(port);
    Some(t)
}

/// `host:port`, the address of a service found on the network.
pub fn service_address(host: &str, port: u16) -> (addr: String)
    ensures
        addr@ == host@ + seq![':'] + dec_digits(port as nat),
{
    let mut out = String::from_str(host);
    push_char(&mut out, ':');
    push_decimal(&mut out, port as u128);
    out
}


/// What became of the attempt to write a datagram to the serial port.
#[derive(Clone, Copy, Debug, PartialEq, Eq, Structural)]
pub enum SerialWrite {
    /// No port was open.
    NoPort,
    /// The datagram was written.
    Written,
    /// Writing failed.
    Failed,
}

/// How a datagram travels after the serial attempt.
#[derive(Clone, Copy, Debug, PartialEq, Eq, Structural)]
pub struct Route {
    /// Close the serial port (it failed).
    pub drop_port: bool,
    /// Send the datagram over UDP as well.
    pub send_udp: bool,
}

/// The serial link is preferred: a datagram goes over UDP only when it did
/// not go out over the serial port, and a port that failed is closed.
pub fn route_after_serial(outcome: SerialWrite) -> (route: Route)
    ensures
        route.send_udp == (outcome != SerialWrite::Written),
        route.drop_port == (outcome == SerialWrite::Failed),
{
    match outcome {
        SerialWrite::NoPort => Route { drop_port: false, send_udp: true },
        SerialWrite::Written => Route { drop_port: false, send_udp: false },
        SerialWrite::Failed => Route { drop_port: true, send_udp: true },
    }
}

} // verus!
