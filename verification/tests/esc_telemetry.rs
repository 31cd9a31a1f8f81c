use drone_core::battery_state::BatteryState;
use drone_core::consumed_current::ConsumedCurrent;
use drone_core::current::Current;
use drone_core::erpm::{ERPM, POLE_PAIRS};
use drone_core::esc_telemetry_sample::ESCTelemetrySample;
use drone_core::motor_id::MotorID;
use drone_core::voltage::Voltage;

#[test]
fn good_values() {
    let bytes = [0x1f, 0x06, 0x31, 0x03, 0x52, 0x00, 0xd2, 0x05, 0xdc, 0x0c];

    let telemetry = ESCTelemetrySample::from_bytes(&bytes, MotorID::Motor1).unwrap();

    assert_eq!(telemetry.temperature_celsius as f32, 31.0);
    assert_eq!(
        telemetry.battery_state.voltage.as_centivolts() as f32 / 100.0,
        15.85
    );
    assert_eq!(
        telemetry.battery_state.current.as_centiamps() as f32 / 100.0,
        8.5
    );
    assert_eq!(
        telemetry.battery_state.consumed_current.as_milliamphours(),
        210
    );
    // 0x05DC = 1500 -> x100 = 150000 eRPM / 6 pole pairs = 25000 rpm
    assert_eq!(
        telemetry.erpm.as_electrical_rpm() as f32 / POLE_PAIRS as f32,
        25000.0
    );
}

#[test]
fn sample_keeps_the_motor_slot() {
    let bytes = [0x1f, 0x06, 0x31, 0x03, 0x52, 0x00, 0xd2, 0x05, 0xdc, 0x0c];
    let telemetry = ESCTelemetrySample::from_bytes(&bytes, MotorID::Motor3).unwrap();
    assert_eq!(telemetry.motor_id, MotorID::Motor3);
}

#[test]
fn corrupted_crc_is_rejected() {
    let bytes = [0x1f, 0x06, 0x31, 0x03, 0x52, 0x00, 0xd2, 0x05, 0xdc, 0x0d];
    assert_eq!(ESCTelemetrySample::from_bytes(&bytes, MotorID::Motor1), None);
}

#[test]
fn corrupted_payload_is_rejected() {
    let bytes = [0x20, 0x06, 0x31, 0x03, 0x52, 0x00, 0xd2, 0x05, 0xdc, 0x0c];
    assert_eq!(ESCTelemetrySample::from_bytes(&bytes, MotorID::Motor1), None);
}

#[test]
fn wrong_length_is_rejected() {
    let short = [0x1f, 0x06, 0x31, 0x03, 0x52, 0x00, 0xd2, 0x05, 0xdc];
    assert_eq!(ESCTelemetrySample::from_bytes(&short, MotorID::Motor1), None);
    let long = [0x1f, 0x06, 0x31, 0x03, 0x52, 0x00, 0xd2, 0x05, 0xdc, 0x0c, 0x00];
    assert_eq!(ESCTelemetrySample::from_bytes(&long, MotorID::Motor1), None);
    assert_eq!(ESCTelemetrySample::from_bytes(&[], MotorID::Motor1), None);
}

#[test]
fn all_zero_frame_has_zero_crc() {
    // CRC-8 with initial value 0 over nine zero bytes is 0.
    let bytes = [0u8; 10];
    let s = ESCTelemetrySample::from_bytes(&bytes, MotorID::Motor2).unwrap();
    assert_eq!(s.temperature_celsius, 0);
    assert_eq!(s.erpm.as_electrical_rpm(), 0);
}

#[test]
fn single_bit_crc() {
    // 0x01 then eight zero bytes: the register is shifted 64 times from 0x01.
    let mut crc: u8 = 0;
    let data = [0x01u8, 0, 0, 0, 0, 0, 0, 0, 0];
    for &b in &data {
        crc ^= b;
        for _ in 0..8 {
            crc = if crc & 0x80 != 0 { (crc << 1) ^ 0x07 } else { crc << 1 };
        }
    }
    let mut bytes = [0u8; 10];
    bytes[..9].copy_from_slice(&data);
    bytes[9] = crc;
    assert!(ESCTelemetrySample::from_bytes(&bytes, MotorID::Motor1).is_some());
    bytes[9] = crc ^ 0x01;
    assert!(ESCTelemetrySample::from_bytes(&bytes, MotorID::Motor1).is_none());
}

#[test]
fn battery_state_reads_big_endian_words() {
    let b = BatteryState::from_bytes(&[0x06, 0x31, 0x03, 0x52, 0x00, 0xd2]);
    assert_eq!(b.voltage.as_centivolts(), 1585);
    assert_eq!(b.current.as_centiamps(), 850);
    assert_eq!(b.consumed_current.as_milliamphours(), 210);
}

#[test]
fn word_decoders_read_big_endian() {
    assert_eq!(ConsumedCurrent::from_bytes(&[0x12, 0x34]).as_milliamphours(), 0x1234);
    assert_eq!(Voltage::from_bytes(&[0xff, 0xff, 0x00]).as_centivolts(), 0xffff);
    assert_eq!(Current::from_bytes(&[0x00, 0x01]).as_centiamps(), 1);
    assert_eq!(ERPM::from_bytes(&[0x01, 0x00]).as_electrical_rpm(), 25_600);
    assert_eq!(ERPM::from_bytes(&[0xff, 0xff]).as_electrical_rpm(), 6_553_500);
}

#[test]
fn zero_and_defaults() {
    assert_eq!(Current::zero().as_centiamps(), 0);
    assert_eq!(Current::default().as_centiamps(), 0);
    assert_eq!(Voltage::default().as_centivolts(), 0);
    assert_eq!(ConsumedCurrent::default().as_milliamphours(), 0);
    let s = ESCTelemetrySample::default();
    assert_eq!(s.motor_id, MotorID::Unassigned);
    assert_eq!(s.battery_state, BatteryState::default());
}

#[test]
fn motor_id_cycles() {
    let mut m = MotorID::default();
    assert_eq!(m, MotorID::Unassigned);
    let mut seen = Vec::new();
    for _ in 0..9 {
        m.increment_with_wraparound();
        seen.push(m);
    }
    assert_eq!(
        seen,
        vec![
            MotorID::Motor1,
            MotorID::Motor2,
            MotorID::Motor3,
            MotorID::Motor4,
            MotorID::Motor1,
            MotorID::Motor2,
            MotorID::Motor3,
            MotorID::Motor4,
            MotorID::Motor1,
        ]
    );
}
