use drone_core::drone_link::DroneLink;
use drone_core::remote_state::RemoteState;
use drone_core::serial_link::LineBuffer;
use drone_core::signals::{reset_imu, save_config, Latch};
use drone_core::supervisor::{supervisor_step, PHASE_MS};
use drone_core::telemetry_rx::count_from_packet;

#[test]
fn reset_request_is_delivered_exactly_once() {
    let mut latch = Latch::new();
    assert!(!reset_imu::take(&mut latch));
    reset_imu::signal(&mut latch);
    reset_imu::signal(&mut latch);
    assert!(reset_imu::take(&mut latch));
    assert!(!reset_imu::take(&mut latch));
}

#[test]
fn save_request_is_delivered_exactly_once() {
    let mut latch = Latch::new();
    save_config::signal(&mut latch);
    assert!(save_config::take(&mut latch));
    assert!(!save_config::take(&mut latch));
}

#[test]
fn latch_keeps_the_latest_value() {
    let mut latch = Latch::new();
    latch.signal(1u8);
    latch.signal(2u8);
    assert_eq!(latch.try_take(), Some(2));
    assert_eq!(latch.try_take(), None);
}

#[test]
fn supervisor_boot_sequence() {
    let (s1, h1) = supervisor_step(None);
    assert_eq!((s1, h1), (RemoteState::Booting, Some(PHASE_MS)));
    let (s2, h2) = supervisor_step(Some(s1));
    assert_eq!((s2, h2), (RemoteState::Idle, Some(5000)));
    let (s3, h3) = supervisor_step(Some(s2));
    assert_eq!((s3, h3), (RemoteState::Fault, None));
    assert_eq!(supervisor_step(Some(s3)), (RemoteState::Fault, None));
}

#[derive(Clone, Copy, Debug, PartialEq)]
enum Cmd {
    Pilot(u8),
    Mode(u8),
    Reset,
}

#[test]
fn drone_link_heartbeat_and_reset_priority() {
    let mut link = DroneLink::new(Cmd::Mode(0));
    let mut reset = Latch::new();

    // Sequence 0 is a heartbeat: the last mode command goes out.
    assert_eq!(link.next_message(Cmd::Pilot(1), false, &mut reset, Cmd::Reset), (0, Cmd::Mode(0)));
    link.message_sent();
    assert_eq!(link.next_message(Cmd::Pilot(2), false, &mut reset, Cmd::Reset), (1, Cmd::Pilot(2)));
    link.message_sent();

    // A mode change is sent and remembered.
    assert_eq!(link.next_message(Cmd::Mode(3), true, &mut reset, Cmd::Reset), (2, Cmd::Mode(3)));
    link.message_sent();

    // A pending reset preempts the command, once.
    reset_imu::signal(&mut reset);
    assert_eq!(link.next_message(Cmd::Pilot(4), false, &mut reset, Cmd::Reset), (3, Cmd::Reset));
    link.message_sent();
    assert_eq!(link.next_message(Cmd::Pilot(4), false, &mut reset, Cmd::Reset), (4, Cmd::Pilot(4)));

    // A failed send does not advance the sequence number.
    assert_eq!(link.next_message(Cmd::Pilot(5), false, &mut reset, Cmd::Reset), (4, Cmd::Pilot(5)));
    link.message_sent();

    for _ in 5..25 {
        link.message_sent();
    }
    // Sequence 25 re-sends the remembered mode command.
    assert_eq!(link.next_message(Cmd::Pilot(6), false, &mut reset, Cmd::Reset), (25, Cmd::Mode(3)));
}

#[test]
fn drone_link_sequence_wraps() {
    let mut link = DroneLink::new(0u8);
    link.sequence_count = u32::MAX;
    link.message_sent();
    assert_eq!(link.sequence_count, 0);
}

#[test]
fn drone_link_failed_send_reuses_sequence_and_skips_receive() {
    let mut link = DroneLink::new(Cmd::Mode(0));
    let mut reset = Latch::new();
    let outcomes = [true, false, false, true, true, false, true];
    let mut expected: u32 = 0;
    for &sent in &outcomes {
        let (seq, _) = link.next_message(Cmd::Pilot(1), false, &mut reset, Cmd::Reset);
        assert_eq!(seq, expected);
        assert_eq!(link.send_finished(sent), sent);
        if sent {
            expected += 1;
        }
        assert_eq!(link.sequence_count, expected);
    }
    assert_eq!(link.sequence_count, 4);
}

#[test]
fn drone_link_send_finished_wraps() {
    let mut link = DroneLink::new(0u8);
    link.sequence_count = u32::MAX;
    assert!(!link.send_finished(false));
    assert_eq!(link.sequence_count, u32::MAX);
    assert!(link.send_finished(true));
    assert_eq!(link.sequence_count, 0);
}

#[test]
fn line_buffer_splits_on_newline() {
    let mut lb = LineBuffer::new();
    let mut lines = Vec::new();
    for &b in b"0.25\n0.5\n" {
        if let Some(line) = lb.feed(b) {
            lines.push(line);
        }
    }
    assert_eq!(lines, vec![b"0.25".to_vec(), b"0.5".to_vec()]);
}

#[test]
fn line_buffer_completes_when_full() {
    let mut lb = LineBuffer::new();
    for b in 0..32u8 {
        assert_eq!(lb.feed(b'a' + (b % 26)), None);
    }
    // The 33rd byte completes the line and is itself dropped.
    let line = lb.feed(b'x').unwrap();
    assert_eq!(line.len(), 32);
    assert_eq!(lb.feed(b'\n'), Some(Vec::new()));
}

#[test]
fn counter_packets_decode_little_endian() {
    assert_eq!(count_from_packet(&[0x78, 0x56, 0x34, 0x12]), Some(0x1234_5678));
    assert_eq!(count_from_packet(&[0xff, 0xff, 0xff, 0xff]), Some(u32::MAX));
    assert_eq!(count_from_packet(&[1, 2, 3]), None);
    assert_eq!(count_from_packet(&[1, 2, 3, 4, 5]), None);
}
