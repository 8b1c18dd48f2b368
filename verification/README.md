# esp_sender

The PC side of a small system monitor: a Windows tray program samples the
machine (loads, temperatures, network, processes, the foreground window and
the next prayer time) and sends one line of telemetry per cycle to an ESP32
display, over USB serial when it is plugged in and over UDP otherwise. Lines
can be authenticated with HMAC-SHA256 under a key that is handed to the display
when the two pair.

## Layout

- `src/` — the library, verified with Verus:
  - `packet.rs` — the telemetry line, the pairing announcement, HMAC signing;
  - `privacy.rs` — masking and shortening of window titles;
  - `pong.rs` — parsing the display's replies and the round trip they report;
  - `processes.rs` — ranking processes by memory;
  - `sensors.rs` — which hardware sensor feeds which gauge;
  - `prayer.rs` — prayer-time settings and the summary sent to the display;
  - `config.rs` — settings, defaults, discovery, pairing key, start-up registration;
  - `status.rs` — timing decisions of the loops (discovery, pairing, serial
    retry, cycle pacing, online state, warnings) and the tray tooltip;
  - `log.rs` — the append-only, time-stamped event log;
  - `text.rs` — decimal rendering, substring search, joining.
- `tests/` — tests of the library.
- `app/` — the Windows program: settings file, sampling, settings window,
  sockets, serial port and tray icon.
