//! Verified core logic of a quadcopter's remote link, telemetry decoding and
//! ground-station helpers.

pub mod wire;
pub mod consumed_current;
pub mod voltage;
pub mod current;
pub mod erpm;
pub mod battery_state;
pub mod motor_id;
pub mod esc_telemetry_sample;
pub mod attitude_view;
pub mod analysis;
pub mod remote_state;
pub mod signals;
pub mod supervisor;
pub mod drone_link;
pub mod serial_link;
pub mod telemetry_rx;
pub mod series;
pub mod log_text;
