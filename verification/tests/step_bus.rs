use nuedc::step::command::{checksum_of, StepCommand, StepFrame};
use nuedc::step::stepper::Stepper;

fn bytes(f: StepFrame) -> Vec<u8> {
    f.as_slice().to_vec()
}

fn xor(bytes: &[u8]) -> u8 {
    bytes.iter().fold(0u8, |a, &b| a ^ b)
}

#[test]
fn sync_frame() {
    assert_eq!(bytes(StepCommand::Sync.encode(1, false)), vec![0x01, 0xFF, 0x66, 0x98]);
}

#[test]
fn sync_ignores_wait() {
    assert_eq!(bytes(StepCommand::Sync.encode(1, true)), vec![0x01, 0xFF, 0x66, 0x98]);
}

#[test]
fn enable_frame() {
    assert_eq!(bytes(StepCommand::Enable.encode(1, false)), vec![0x01, 0xF3, 0xAB, 0x01, 0x00, 0x58]);
}

#[test]
fn stop_frame_with_wait() {
    assert_eq!(bytes(StepCommand::Stop.encode(1, true)), vec![0x01, 0xFE, 0x98, 0x01, 0x66]);
}

#[test]
fn disable_frame() {
    assert_eq!(bytes(StepCommand::Disable.encode(1, false)), vec![0x01, 0xF3, 0xAB, 0x00, 0x00, 0x59]);
}

#[test]
fn scale_down_frame() {
    assert_eq!(bytes(StepCommand::ScaleDownSpeed(true).encode(1, false)),
        vec![0x01, 0x4F, 0x71, 0x01, 0x01, 0x3F]
    );
}

#[test]
fn zero_point_frames() {
    assert_eq!(bytes(StepCommand::SetZeroPoint.encode(1, true)), vec![0x01, 0x93, 0x88, 0x01, 0x1B]);
    assert_eq!(bytes(StepCommand::GoZeroPoint.encode(1, false)), vec![0x01, 0x9A, 0x00, 0x00, 0x9B]);
}

#[test]
fn set_speed_frame_is_big_endian() {
    assert_eq!(bytes(StepCommand::SetSpeed(true, 1200, 10, ).encode(1, false)),
        vec![0x01, 0xF6, 0x01, 0x04, 0xB0, 0x0A, 0x00, 0x48]
    );
}

#[test]
fn read_option_frame() {
    assert_eq!(bytes(StepCommand::ReadOption.encode(5, false)), vec![0x05, 0x1F, 0x1A]);
}

#[test]
fn every_frame_checks_out() {
    let cmds = || {
        vec![
            StepCommand::Sync,
            StepCommand::Enable,
            StepCommand::Stop,
            StepCommand::Disable,
            StepCommand::ScaleDownSpeed(false),
            StepCommand::SetZeroPoint,
            StepCommand::GoZeroPoint,
            StepCommand::SetSpeed(false, 65535, 255),
            StepCommand::ReadOption,
        ]
    };
    for id in [0u8, 1, 0x7F, 0xFF] {
        for wait in [false, true] {
            for cmd in cmds() {
                let f = bytes(cmd.encode(id, wait));
                assert_eq!(f[0], id);
                assert_eq!(xor(&f), 0);
                assert_eq!(checksum_of(&f[..f.len() - 1]), f[f.len() - 1]);
            }
        }
    }
}

#[test]
fn checksum_of_empty_is_zero() {
    assert_eq!(checksum_of(&[]), 0);
    assert_eq!(checksum_of(&[0x12, 0x34]), 0x26);
}

#[test]
fn stepper_keeps_its_id() {
    let s = Stepper::new((), 7);
    assert_eq!(s.get_id(), 7);
    assert_eq!(s.read_option().as_slice()[0], 7);
    assert_eq!(s.read_option().len(), 3);
}

#[test]
fn stepper_interface_is_handed_out() {
    let mut s = Stepper::new(Vec::<u8>::new(), 1);
    let frame = s.sync();
    s.interface().extend_from_slice(frame.as_slice());
    assert_eq!(s.interface().as_slice(), &[0x01, 0xFF, 0x66, 0x98][..]);
    assert_eq!(s.get_id(), 1);
}

#[test]
fn stepper_command_frames() {
    let s = Stepper::new((), 1);
    assert_eq!(bytes(s.sync()), bytes(StepCommand::Sync.encode(1, false)));
    assert_eq!(bytes(s.enable()), bytes(StepCommand::Enable.encode(1, false)));
    assert_eq!(bytes(s.stop(true)), bytes(StepCommand::Stop.encode(1, true)));
    assert_eq!(bytes(s.disable(false)), bytes(StepCommand::Disable.encode(1, false)));
    assert_eq!(bytes(s.set_speed_scale_down()), bytes(StepCommand::ScaleDownSpeed(true).encode(1, false)));
    assert_eq!(bytes(s.set_zero_point()), bytes(StepCommand::SetZeroPoint.encode(1, false)));
    assert_eq!(bytes(s.go_zero_point(true)), bytes(StepCommand::GoZeroPoint.encode(1, true)));
    assert_eq!(bytes(s.read_option()), vec![0x01, 0x1F, 0x1E]);
}

#[test]
fn negative_speed_runs_backward() {
    let s = Stepper::new((), 1);
    assert_eq!(bytes(s.set_speed(-1200, 10, false)), vec![0x01, 0xF6, 0x01, 0x04, 0xB0, 0x0A, 0x00, 0x48]);
}

#[test]
fn positive_speed_runs_forward() {
    let s = Stepper::new((), 3);
    assert_eq!(bytes(s.set_speed(300, 255, true)), vec![0x03, 0xF6, 0x00, 0x01, 0x2C, 0xFF, 0x01, 0x26]);
}

#[test]
fn speed_extremes() {
    let s = Stepper::new((), 1);
    let f = bytes(s.set_speed(32767, 0, false));
    assert_eq!(&f[2..5], &[0x00, 0x7F, 0xFF]);
    let f = bytes(s.set_speed(-32767, 0, false));
    assert_eq!(&f[2..5], &[0x01, 0x7F, 0xFF]);
    let f = bytes(s.set_speed(i16::MIN, 0, false));
    assert_eq!(&f[2..5], &[0x01, 0x80, 0x00]);
    let f = bytes(s.set_speed(0, 0, false));
    assert_eq!(&f[2..5], &[0x00, 0x00, 0x00]);
}

#[test]
fn reply_check_accepts_a_checked_reply() {
    let s = Stepper::new((), 1);
    let reply = [0x01u8, 0x1F, 0x03, 0x1D];
    assert_eq!(xor(&reply), 0);
    assert!(s.reply_check(true, Some(&reply)));
}

#[test]
fn reply_check_needs_the_query_sent() {
    let s = Stepper::new((), 1);
    let reply = [0x01u8, 0x1F, 0x03, 0x1D];
    assert!(!s.reply_check(false, Some(&reply)));
}

#[test]
fn reply_check_needs_a_reply() {
    let s = Stepper::new((), 1);
    assert!(!s.reply_check(true, None));
}

#[test]
fn reply_check_rejects_short_reply() {
    let s = Stepper::new((), 1);
    let reply = [0x01u8, 0x1F, 0x1E];
    assert_eq!(xor(&reply), 0);
    assert!(!s.reply_check(true, Some(&reply)));
    assert!(!s.reply_check(true, Some(&[])));
}

#[test]
fn reply_check_rejects_bad_checksum() {
    let s = Stepper::new((), 1);
    let reply = [0x01u8, 0x1F, 0x03, 0x1C];
    assert!(!s.reply_check(true, Some(&reply)));
}

#[test]
fn wait_ok_only_fails_on_timeout() {
    let s = Stepper::new((), 1);
    assert!(s.wait_ok(Some(true)));
    assert!(s.wait_ok(Some(false)));
    assert!(!s.wait_ok(None));
}
