use nuedc::imu::{crc16, DaMiaoIMU, DaMiaoIMURegister};

fn frame(register: u8, x: f32, y: f32, z: f32, checksum: u16) -> Vec<u8> {
    let mut f = vec![0x55, 0xAA, 0x01, register];
    f.extend_from_slice(&x.to_le_bytes());
    f.extend_from_slice(&y.to_le_bytes());
    f.extend_from_slice(&z.to_le_bytes());
    f.extend_from_slice(&checksum.to_le_bytes());
    f.push(0x0A);
    f
}

#[test]
fn decodes_euler_angles() {
    let f = frame(0x03, 1.0, -2.5, 90.25, 0xBEEF);
    let imu = DaMiaoIMU::decode(&f, 0xBEEF);
    assert_eq!(imu.device_id, 0x01);
    assert_eq!(imu.register, DaMiaoIMURegister::EulerAngles);
    assert_eq!(imu.x, 0x3F80_0000);
    assert_eq!(f32::from_bits(imu.y), -2.5);
    assert_eq!(f32::from_bits(imu.z), 90.25);
    assert!(imu.verified);
}

#[test]
fn checksum_mismatch_is_not_verified() {
    let f = frame(0x01, 0.0, 0.0, 9.8, 0x1234);
    let imu = DaMiaoIMU::decode(&f, 0x1235);
    assert_eq!(imu.register, DaMiaoIMURegister::Acceleration);
    assert!(!imu.verified);
}

#[test]
fn unknown_register_is_not_supported() {
    let f = frame(0x07, 0.0, 0.0, 0.0, 0);
    assert_eq!(DaMiaoIMU::decode(&f, 0).register, DaMiaoIMURegister::NotSupported);
    let f = frame(0x02, 0.0, 0.0, 0.0, 0);
    assert_eq!(DaMiaoIMU::decode(&f, 0).register, DaMiaoIMURegister::AngularVelocity);
}

#[test]
fn malformed_frames_give_the_empty_reading() {
    let good = frame(0x03, 1.0, 2.0, 3.0, 7);
    let mut bad_head = good.clone();
    bad_head[0] = 0x54;
    let mut bad_tail = good.clone();
    bad_tail[18] = 0x0D;
    let short = &good[..18];
    let mut long = good.clone();
    long.push(0);
    for f in [&bad_head[..], &bad_tail[..], short, &long[..], &[][..]] {
        assert_eq!(DaMiaoIMU::decode(f, 7), DaMiaoIMU::new());
    }
    assert_eq!(DaMiaoIMU::new(), DaMiaoIMU::default());
}

#[test]
fn empty_reading_fields() {
    let e = DaMiaoIMU::new();
    assert_eq!(e.device_id, 0);
    assert_eq!(e.register, DaMiaoIMURegister::NotSupported);
    assert_eq!((e.x, e.y, e.z), (0, 0, 0));
    assert!(!e.verified);
}

#[test]
fn register_codes() {
    assert_eq!(DaMiaoIMURegister::Acceleration.code(), 0x01);
    assert_eq!(DaMiaoIMURegister::AngularVelocity.code(), 0x02);
    assert_eq!(DaMiaoIMURegister::EulerAngles.code(), 0x03);
    assert_eq!(DaMiaoIMURegister::NotSupported.code(), 0xFF);
    assert_eq!(DaMiaoIMURegister::default(), DaMiaoIMURegister::NotSupported);
    for c in 1u8..=3 {
        assert_eq!(DaMiaoIMURegister::from_code(c).code(), c);
    }
    assert_eq!(DaMiaoIMURegister::from_code(0xFF), DaMiaoIMURegister::NotSupported);
    assert_eq!(DaMiaoIMURegister::from_code(0), DaMiaoIMURegister::NotSupported);
}

#[test]
fn reading_reads_back_from_its_frame() {
    let r = DaMiaoIMU {
        device_id: 9,
        register: DaMiaoIMURegister::AngularVelocity,
        x: 0x1234_5678,
        y: 0xFFFF_FFFF,
        z: 0,
        verified: false,
    };
    let mut f = vec![0x55, 0xAA, r.device_id, r.register.code()];
    f.extend_from_slice(&r.x.to_le_bytes());
    f.extend_from_slice(&r.y.to_le_bytes());
    f.extend_from_slice(&r.z.to_le_bytes());
    f.extend_from_slice(&0xA55Au16.to_le_bytes());
    f.push(0x0A);
    assert_eq!(DaMiaoIMU::decode(&f, 0xA55A), DaMiaoIMU { verified: true, ..r });
    assert_eq!(DaMiaoIMU::decode(&f, 0x5AA5), r);
}

#[test]
fn crc16_check_value() {
    assert_eq!(crc16(b"123456789"), 0x29B1);
    assert_eq!(crc16(&[]), 0xFFFF);
    assert_eq!(crc16(&[0x00]), 0xE1F0);
}

#[test]
fn from_checks_the_frame_crc() {
    let mut f = frame(0x03, 0.5, 1.5, -45.0, 0);
    let crc = crc16(&f[..16]);
    f[16..18].copy_from_slice(&crc.to_le_bytes());
    let imu = DaMiaoIMU::from(&f[..]);
    assert!(imu.verified);
    assert_eq!(imu.register, DaMiaoIMURegister::EulerAngles);
    assert_eq!(f32::from_bits(imu.z), -45.0);
    f[5] ^= 1;
    assert!(!DaMiaoIMU::from(&f[..]).verified);
}

#[test]
fn from_short_input_is_empty() {
    assert_eq!(DaMiaoIMU::from(&[0x55u8, 0xAA][..]), DaMiaoIMU::new());
}
