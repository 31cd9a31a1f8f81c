# drone_core

Verified core of a small quadcopter system: the remote firmware's radio relay
decisions and event latches, ESC telemetry decoding, and the ground station's
renderer, plotting and log-analysis helpers. Everything under `src/` is checked
by Verus against its `requires`/`ensures` contracts.

- `src/` — the verified library (integer and text logic; no floating point).
  - `esc_telemetry_sample`, `battery_state`, `voltage`, `current`,
    `consumed_current`, `erpm`, `wire`, `motor_id`: ESC telemetry frames
    (CRC-8 check, big-endian fields, round-robin motor slot).
  - `signals`, `drone_link`, `supervisor`, `serial_link`, `telemetry_rx`,
    `remote_state`: remote firmware decisions.
  - `attitude_view`: colour packing, span filling, vertex ordering, OBJ fan
    triangulation and RGBA conversion for the software renderer.
  - `analysis`, `log_text`, `series`: log splitting, categorical counts,
    flight-segment detection and bounded histories.
- `tests/` — executable tests of the library.
- `app/` — ordinary Rust around the library: wire types with serde/postcard,
  the float geometry and statistics, the egui ground station, the analyser
  entry point and the embassy tasks of the remote firmware.
