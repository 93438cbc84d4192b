use vstd::prelude::*;
use vstd::slice::slice_subrange;

verus! {

/// The register that an IMU frame reports.
#[derive(Clone, Copy, Debug, PartialEq, Eq, Structural)]
pub enum DaMiaoIMURegister {
    Acceleration,
    AngularVelocity,
    EulerAngles,
    NotSupported,
}

impl DaMiaoIMURegister {
    /// The register with code `code` on the wire (`0x01`, `0x02`, `0x03`);
    /// any other code is `NotSupported`.
    pub open spec fn spec_from_code(code: u8) -> DaMiaoIMURegister {
        if code == 0x01 {
            DaMiaoIMURegister::Acceleration
        } else if code == 0x02 {
            DaMiaoIMURegister::AngularVelocity
        } else if code == 0x03 {
            DaMiaoIMURegister::EulerAngles
        } else {
            DaMiaoIMURegister::NotSupported
        }
    }

    /// The code of the register on the wire; `NotSupported` is `0xFF`.
    pub open spec fn spec_code(self) -> u8 {
        match self {
            DaMiaoIMURegister::Acceleration => 0x01,
            DaMiaoIMURegister::AngularVelocity => 0x02,
            DaMiaoIMURegister::EulerAngles => 0x03,
            DaMiaoIMURegister::NotSupported => 0xFF,
        }
    }

    pub fn from_code(code: u8) -> (r: Self)
        ensures
            r == Self::spec_from_code(code),
    {
        match code {
            0x01 => DaMiaoIMURegister::Acceleration,
            0x02 => DaMiaoIMURegister::AngularVelocity,
            0x03 => DaMiaoIMURegister::EulerAngles,
            _ => DaMiaoIMURegister::NotSupported,
        }
    }

    pub fn code(&self) -> (c: u8)
        ensures
            c == self.spec_code(),
    {
        match self {
            DaMiaoIMURegister::Acceleration => 0x01,
            DaMiaoIMURegister::AngularVelocity => 0x02,
            DaMiaoIMURegister::EulerAngles => 0x03,
            DaMiaoIMURegister::NotSupported => 0xFF,
        }
    }
}

impl Default for DaMiaoIMURegister {
    fn default() -> (r: Self)
        ensures
            r == DaMiaoIMURegister::NotSupported,
    {
        DaMiaoIMURegister::NotSupported
    }
}

/// One IMU reading. The three values are IEEE-754 single-precision numbers,
/// held as their bit patterns: roll, pitch and yaw for the Euler-angle
/// register.
#[derive(Clone, Copy, Debug, PartialEq, Eq, Structural)]
pub struct DaMiaoIMU {
    pub device_id: u8,
    pub register: DaMiaoIMURegister,
    /// roll
    pub x: u32,
    /// pitch
    pub y: u32,
    /// yaw
    pub z: u32,
    pub verified: bool,
}

/// The little-endian `u32` made of `b0 .. b3`.
pub open spec fn le_u32(b0: u8, b1: u8, b2: u8, b3: u8) -> u32 {
    (b0 as int + b1 as int * 0x100 + b2 as int * 0x1_0000 + b3 as int * 0x100_0000) as u32
}

/// The reading that holds nothing: device 0, no register, zeros, not
/// verified.
pub open spec fn empty_reading() -> DaMiaoIMU {
    DaMiaoIMU {
        device_id: 0,
        register: DaMiaoIMURegister::NotSupported,
        x: 0,
        y: 0,
        z: 0,
        verified: false,
    }
}

/// Whether `raw` has the frame's shape: 19 bytes, `0x55 0xAA` in front and
/// `0x0A` at the end.
pub open spec fn is_frame(raw: Seq<u8>) -> bool {
    raw.len() == 19 && raw[0] == 0x55u8 && raw[1] == 0xAAu8 && raw[18] == 0x0Au8
}

/// The reading that `raw` carries, `crc` being the CRC-16 of its first 16
/// bytes: the id, the register, three little-endian values and whether the
/// little-endian checksum at bytes 16 and 17 matches `crc`. Anything that
/// is not a frame gives the empty reading.
pub open spec fn spec_decode(raw: Seq<u8>, crc: u16) -> DaMiaoIMU {
    if !is_frame(raw) {
        empty_reading()
    } else {
        DaMiaoIMU {
            device_id: raw[2],
            register: DaMiaoIMURegister::spec_from_code(raw[3]),
            x: le_u32(raw[4], raw[5], raw[6], raw[7]),
            y: le_u32(raw[8], raw[9], raw[10], raw[11]),
            z: le_u32(raw[12], raw[13], raw[14], raw[15]),
            verified: crc as int == raw[16] as int + raw[17] as int * 0x100,
        }
    }
}

/// One bit step of the frame CRC: shift left, folding the polynomial
/// 0x1021 in when the top bit falls out.
pub open spec fn crc_bit(c: u16) -> u16 {
    if c & 0x8000u16 != 0 {
        (c << 1u16) ^ 0x1021u16
    } else {
        c << 1u16
    }
}

/// `k` bit steps from `c`.
pub open spec fn crc_bits(c: u16, k: nat) -> u16
    decreases k,
{
    if k == 0 {
        c
    } else {
        crc_bit(crc_bits(c, (k - 1) as nat))
    }
}

/// The CRC after one more byte `b`: the byte goes into the high half, then
/// eight bit steps.
pub open spec fn crc_byte(c: u16, b: u8) -> u16 {
    crc_bits(c ^ ((b as u16) << 8u16), 8)
}

/// The frame CRC of `s`: CRC-16 with polynomial 0x1021, initial value
/// 0xFFFF, most significant bit first, no final XOR.
pub open spec fn spec_crc16(s: Seq<u8>) -> u16
    decreases s.len(),
{
    if s.len() == 0 {
        0xFFFFu16
    } else {
        crc_byte(spec_crc16(s.drop_last()), s.last())
    }
}

/// The CRC that a frame's checksum is compared with: that of its first 16
/// bytes (0 where there are fewer, which no frame has).
pub open spec fn frame_crc(raw: Seq<u8>) -> u16 {
    if raw.len() >= 16 {
        spec_crc16(raw.take(16))
    } else {
        0
    }
}

/// The frame CRC of `data`.
pub fn crc16(data: &[u8]) -> (c: u16)
    ensures
        c == spec_crc16(data@),
{
    let mut crc: u16 = 0xFFFF;
    let mut i: usize = 0;
    while i < data.len()
        invariant
            i <= data.len(),
            crc == spec_crc16(data@.take(i as int)),
        decreases data.len() - i,
    {
        assert(data@.take(i + 1).drop_last() =~= data@.take(i as int));
        let start: u16 = crc ^ ((data[i] as u16) << 8u16);
        crc = start;
        let mut k: usize = 0;
        while k < 8
            invariant
                k <= 8,
                crc == crc_bits(start, k as nat),
            decreases 8 - k,
        {
            crc = if crc & 0x8000 != 0 {
                (crc << 1u16) ^ 0x1021
            } else {
                crc << 1u16
            };
            k = k + 1;
        }
        i = i + 1;
    }
    assert(data@.take(i as int) =~= data@);
    crc
}

fn le_u32_at(raw: &[u8], i: usize) -> (v: u32)
    requires
        i + 4 <= raw.len(),
    ensures
        v == le_u32(raw@[i as int], raw@[i + 1], raw@[i + 2], raw@[i + 3]),
{
    let v: u32 = raw[i] as u32 + raw[i + 1] as u32 * 0x100 + raw[i + 2] as u32 * 0x1_0000 + raw[i
        + 3] as u32 * 0x100_0000;
    v
}

impl DaMiaoIMU {
    pub fn new() -> (r: Self)
        ensures
            r == empty_reading(),
    {
        DaMiaoIMU {
            device_id: 0,
            register: DaMiaoIMURegister::NotSupported,
            x: 0,
            y: 0,
            z: 0,
            verified: false,
        }
    }

    /// Decodes one frame from the IMU; `crc` is the CRC-16 of the frame's
    /// first 16 bytes, which is compared with the checksum that the frame
    /// carries.
    pub fn decode(raw: &[u8], crc: u16) -> (r: Self)
        ensures
            r == spec_decode(raw@, crc),
    {
        if raw.len() != 19 || raw[0] != 0x55 || raw[1] != 0xAA || raw[18] != 0x0A {
            return Self::new();
        }
        let register = DaMiaoIMURegister::from_code(raw[3]);
        let checksum: u16 = raw[16] as u16 + raw[17] as u16 * 0x100;
        DaMiaoIMU {
            device_id: raw[2],
            register,
            x: le_u32_at(raw, 4),
            y: le_u32_at(raw, 8),
            z: le_u32_at(raw, 12),
            verified: crc == checksum,
        }
    }
}

impl<'a> From<&'a [u8]> for DaMiaoIMU {
    /// Decodes one frame from the IMU, checking its checksum against the
    /// CRC of its first 16 bytes.
    fn from(raw: &'a [u8]) -> (r: Self)
        ensures
            r == spec_decode(raw@, frame_crc(raw@)),
    {
        let crc: u16 = if raw.len() >= 16 {
            crc16(slice_subrange(raw, 0, 16))
        } else {
            0
        };
        DaMiaoIMU::decode(raw, crc)
    }
}

impl<'a> vstd::std_specs::convert::FromSpecImpl<&'a [u8]> for DaMiaoIMU {
    open spec fn obeys_from_spec() -> bool {
        true
    }

    open spec fn from_spec(v: &'a [u8]) -> DaMiaoIMU {
        spec_decode(v@, frame_crc(v@))
    }
}

impl Default for DaMiaoIMU {
    fn default() -> (r: Self)
        ensures
            r == empty_reading(),
    {
        DaMiaoIMU::new()
    }
}

/// The little-endian bytes of `v`.
pub open spec fn le_bytes(v: u32) -> Seq<u8> {
    seq![
        (v % 0x100) as u8,
        (v / 0x100 % 0x100) as u8,
        (v / 0x1_0000 % 0x100) as u8,
        (v / 0x100_0000) as u8,
    ]
}

/// The frame that the IMU sends for the reading `r`, carrying `checksum`.
pub open spec fn imu_frame(r: DaMiaoIMU, checksum: u16) -> Seq<u8> {
    seq![0x55u8, 0xAAu8, r.device_id, r.register.spec_code()] + le_bytes(r.x) + le_bytes(r.y)
        + le_bytes(r.z) + seq![(checksum % 0x100) as u8, (checksum / 0x100) as u8, 0x0Au8]
}

proof fn lemma_le_round_trip(v: u32)
    ensures
        le_u32(le_bytes(v)[0], le_bytes(v)[1], le_bytes(v)[2], le_bytes(v)[3]) == v,
{
    assert(v as int == (v % 0x100) as u8 as int + (v / 0x100 % 0x100) as u8 as int * 0x100 + (v
        / 0x1_0000 % 0x100) as u8 as int * 0x1_0000 + (v / 0x100_0000) as u8 as int * 0x100_0000)
        by (bit_vector);
}

/// What the IMU sends reads back: decoding the frame of a reading gives
/// that reading, verified exactly when the frame's checksum is the CRC.
pub proof fn lemma_frame_round_trip(r: DaMiaoIMU, checksum: u16, crc: u16)
    ensures
        spec_decode(imu_frame(r, checksum), crc) == (DaMiaoIMU { verified: crc == checksum, ..r }),
{
    let f = imu_frame(r, checksum);
    lemma_le_round_trip(r.x);
    lemma_le_round_trip(r.y);
    lemma_le_round_trip(r.z);
    assert(f.len() == 19);
    assert(f[4] == le_bytes(r.x)[0] && f[5] == le_bytes(r.x)[1] && f[6] == le_bytes(r.x)[2]
        && f[7] == le_bytes(r.x)[3]);
    assert(f[8] == le_bytes(r.y)[0] && f[9] == le_bytes(r.y)[1] && f[10] == le_bytes(r.y)[2]
        && f[11] == le_bytes(r.y)[3]);
    assert(f[12] == le_bytes(r.z)[0] && f[13] == le_bytes(r.z)[1] && f[14] == le_bytes(r.z)[2]
        && f[15] == le_bytes(r.z)[3]);
    assert(checksum as int == (checksum % 0x100) as u8 as int + (checksum / 0x100) as u8 as int
        * 0x100) by (bit_vector);
    assert(DaMiaoIMURegister::spec_from_code(r.register.spec_code()) == r.register);
}

/// Two bit steps.
pub open spec fn crc_bit2(c: u16) -> u16 {
    crc_bit(crc_bit(c))
}

/// Four bit steps.
pub open spec fn crc_bit4(c: u16) -> u16 {
    crc_bit2(crc_bit2(c))
}

/// Eight bit steps, written out.
pub open spec fn crc_bit8(c: u16) -> u16 {
    crc_bit4(crc_bit4(c))
}

/// The CRC step on the register `c` and byte `b` is the one whose eight
/// bit steps start from `c ^ (b << 8)`.
proof fn lemma_crc_byte_is(c: u16, b: u8, r: u16)
    requires
        crc_bit8(c ^ ((b as u16) << 8u16)) == r,
    ensures
        crc_byte(c, b) == r,
{
    reveal_with_fuel(crc_bits, 9);
}

proof fn lemma_crc16_prefix(s: Seq<u8>, k: int)
    requires
        0 <= k < s.len(),
    ensures
        spec_crc16(s.take(k + 1)) == crc_byte(spec_crc16(s.take(k)), s[k]),
{
    assert(s.take(k + 1).drop_last() =~= s.take(k));
}

/// The IMU's header bytes `0x55 0xAA`, all eight bits of each taken in:
/// CRC-16/CCITT-FALSE gives 0xF8E5 for them.
pub proof fn lemma_crc16_header_vector()
    ensures
        spec_crc16(seq![0x55u8, 0xAAu8]) == 0xF8E5u16,
{
    let s = seq![0x55u8, 0xAAu8];
    assert(s.take(0) =~= Seq::<u8>::empty());
    assert(crc_bit8(0xFFFFu16 ^ ((0x55u8 as u16) << 8u16)) == 0xEBA0u16) by (bit_vector);
    lemma_crc_byte_is(0xFFFFu16, 0x55u8, 0xEBA0u16);
    lemma_crc16_prefix(s, 0);
    assert(crc_bit8(0xEBA0u16 ^ ((0xAAu8 as u16) << 8u16)) == 0xF8E5u16) by (bit_vector);
    lemma_crc_byte_is(0xEBA0u16, 0xAAu8, 0xF8E5u16);
    lemma_crc16_prefix(s, 1);
    assert(s.take(2) =~= s);
}

/// An Euler-angle frame (roll 1.0, pitch -2.5, yaw 90.25) whose
/// checksum bytes are `0x47 0xF5`: the CRC of its first 16 bytes is 0xF547,
/// so the frame is decoded as verified.
pub proof fn lemma_crc16_frame_vector()
    ensures
        ({
            let raw = seq![0x55u8, 0xAAu8, 0x01u8, 0x03u8, 0x00u8, 0x00u8, 0x80u8, 0x3Fu8, 0x00u8, 0x00u8, 0x20u8, 0xC0u8, 0x00u8, 0x80u8, 0xB4u8, 0x42u8, 0x47u8, 0xF5u8, 0x0Au8];
            &&& spec_crc16(raw.take(16)) == 0xF547u16
            &&& spec_decode(raw, frame_crc(raw)) == (DaMiaoIMU {
                device_id: 0x01,
                register: DaMiaoIMURegister::EulerAngles,
                x: 0x3F80_0000,
                y: 0xC020_0000,
                z: 0x42B4_8000,
                verified: true,
            })
        }),
{
    let raw = seq![0x55u8, 0xAAu8, 0x01u8, 0x03u8, 0x00u8, 0x00u8, 0x80u8, 0x3Fu8, 0x00u8, 0x00u8, 0x20u8, 0xC0u8, 0x00u8, 0x80u8, 0xB4u8, 0x42u8, 0x47u8, 0xF5u8, 0x0Au8];
    let s = raw.take(16);
    assert(s.take(0) =~= Seq::<u8>::empty());
    assert(crc_bit8(0xFFFFu16 ^ ((0x55u8 as u16) << 8u16)) == 0xEBA0u16) by (bit_vector);
    lemma_crc_byte_is(0xFFFFu16, 0x55u8, 0xEBA0u16);
    assert(s[0] == 0x55u8);
    lemma_crc16_prefix(s, 0);
    assert(crc_bit8(0xEBA0u16 ^ ((0xAAu8 as u16) << 8u16)) == 0xF8E5u16) by (bit_vector);
    lemma_crc_byte_is(0xEBA0u16, 0xAAu8, 0xF8E5u16);
    assert(s[1] == 0xAAu8);
    lemma_crc16_prefix(s, 1);
    assert(crc_bit8(0xF8E5u16 ^ ((0x01u8 as u16) << 8u16)) == 0x9B36u16) by (bit_vector);
    lemma_crc_byte_is(0xF8E5u16, 0x01u8, 0x9B36u16);
    assert(s[2] == 0x01u8);
    lemma_crc16_prefix(s, 2);
    assert(crc_bit8(0x9B36u16 ^ ((0x03u8 as u16) << 8u16)) == 0x34B1u16) by (bit_vector);
    lemma_crc_byte_is(0x9B36u16, 0x03u8, 0x34B1u16);
    assert(s[3] == 0x03u8);
    lemma_crc16_prefix(s, 3);
    assert(crc_bit8(0x34B1u16 ^ ((0x00u8 as u16) << 8u16)) == 0xC7D7u16) by (bit_vector);
    lemma_crc_byte_is(0x34B1u16, 0x00u8, 0xC7D7u16);
    assert(s[4] == 0x00u8);
    lemma_crc16_prefix(s, 4);
    assert(crc_bit8(0xC7D7u16 ^ ((0x00u8 as u16) << 8u16)) == 0x7EABu16) by (bit_vector);
    lemma_crc_byte_is(0xC7D7u16, 0x00u8, 0x7EABu16);
    assert(s[5] == 0x00u8);
    lemma_crc16_prefix(s, 5);
    assert(crc_bit8(0x7EABu16 ^ ((0x80u8 as u16) << 8u16)) == 0xA5D1u16) by (bit_vector);
    lemma_crc_byte_is(0x7EABu16, 0x80u8, 0xA5D1u16);
    assert(s[6] == 0x80u8);
    lemma_crc16_prefix(s, 6);
    assert(crc_bit8(0xA5D1u16 ^ ((0x3Fu8 as u16) << 8u16)) == 0xF3F3u16) by (bit_vector);
    lemma_crc_byte_is(0xA5D1u16, 0x3Fu8, 0xF3F3u16);
    assert(s[7] == 0x3Fu8);
    lemma_crc16_prefix(s, 7);
    assert(crc_bit8(0xF3F3u16 ^ ((0x00u8 as u16) << 8u16)) == 0x2C7Cu16) by (bit_vector);
    lemma_crc_byte_is(0xF3F3u16, 0x00u8, 0x2C7Cu16);
    assert(s[8] == 0x00u8);
    lemma_crc16_prefix(s, 8);
    assert(crc_bit8(0x2C7Cu16 ^ ((0x00u8 as u16) << 8u16)) == 0x99EEu16) by (bit_vector);
    lemma_crc_byte_is(0x2C7Cu16, 0x00u8, 0x99EEu16);
    assert(s[9] == 0x00u8);
    lemma_crc16_prefix(s, 9);
    assert(crc_bit8(0x99EEu16 ^ ((0x20u8 as u16) << 8u16)) == 0xD8F2u16) by (bit_vector);
    lemma_crc_byte_is(0x99EEu16, 0x20u8, 0xD8F2u16);
    assert(s[10] == 0x20u8);
    lemma_crc16_prefix(s, 10);
    assert(crc_bit8(0xD8F2u16 ^ ((0xC0u8 as u16) << 8u16)) == 0x6139u16) by (bit_vector);
    lemma_crc_byte_is(0xD8F2u16, 0xC0u8, 0x6139u16);
    assert(s[11] == 0xC0u8);
    lemma_crc16_prefix(s, 11);
    assert(crc_bit8(0x6139u16 ^ ((0x00u8 as u16) << 8u16)) == 0x4587u16) by (bit_vector);
    lemma_crc_byte_is(0x6139u16, 0x00u8, 0x4587u16);
    assert(s[12] == 0x00u8);
    lemma_crc16_prefix(s, 12);
    assert(crc_bit8(0x4587u16 ^ ((0x80u8 as u16) << 8u16)) == 0x0EE9u16) by (bit_vector);
    lemma_crc_byte_is(0x4587u16, 0x80u8, 0x0EE9u16);
    assert(s[13] == 0x80u8);
    lemma_crc16_prefix(s, 13);
    assert(crc_bit8(0x0EE9u16 ^ ((0xB4u8 as u16) << 8u16)) == 0xEF91u16) by (bit_vector);
    lemma_crc_byte_is(0x0EE9u16, 0xB4u8, 0xEF91u16);
    assert(s[14] == 0xB4u8);
    lemma_crc16_prefix(s, 14);
    assert(crc_bit8(0xEF91u16 ^ ((0x42u8 as u16) << 8u16)) == 0xF547u16) by (bit_vector);
    lemma_crc_byte_is(0xEF91u16, 0x42u8, 0xF547u16);
    assert(s[15] == 0x42u8);
    lemma_crc16_prefix(s, 15);
    assert(s.take(16) =~= s);
    assert(le_u32(0x00u8, 0x00u8, 0x80u8, 0x3Fu8) == 0x3F80_0000u32);
    assert(le_u32(0x00u8, 0x00u8, 0x20u8, 0xC0u8) == 0xC020_0000u32);
    assert(le_u32(0x00u8, 0x80u8, 0xB4u8, 0x42u8) == 0x42B4_8000u32);
}

/// Register codes read back: a supported register survives the trip to its
/// code and back, and so does each supported code.
pub proof fn lemma_register_codes(r: DaMiaoIMURegister, code: u8)
    ensures
        r != DaMiaoIMURegister::NotSupported ==> DaMiaoIMURegister::spec_from_code(r.spec_code())
            == r,
        1 <= code <= 3 ==> DaMiaoIMURegister::spec_from_code(code).spec_code() == code,
        !(1 <= code <= 3) ==> DaMiaoIMURegister::spec_from_code(code)
            == DaMiaoIMURegister::NotSupported,
{
}

} // verus!
