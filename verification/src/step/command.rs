use vstd::prelude::*;
use vstd::slice::slice_subrange;

verus! {

/// XOR of every byte of `s`; the bus checksum.
pub open spec fn xor_all(s: Seq<u8>) -> u8
    decreases s.len(),
{
    if s.len() == 0 {
        0
    } else {
        xor_all(s.drop_last()) ^ s.last()
    }
}

/// The byte that a flag is sent as.
pub open spec fn flag_byte(b: bool) -> u8 {
    if b {
        1
    } else {
        0
    }
}

/// A command understood by the stepper driver.
pub enum StepCommand {
    Sync,
    Enable,
    Stop,
    Disable,
    /// bool: enable scale down speed.
    /// After Enable: speed /= 10
    ScaleDownSpeed(bool),
    SetZeroPoint,
    GoZeroPoint,
    /// (Reverse, Speed, Acceleration)
    /// Reverse is false for forward, true for backward.
    SetSpeed(bool, u16, u8),
    ReadOption,
}

impl StepCommand {
    /// The bytes of the frame before its checksum: the driver id, the
    /// function code and the command's parameters.
    pub open spec fn spec_body(self, id: u8, wait: bool) -> Seq<u8> {
        let w = flag_byte(wait);
        match self {
            StepCommand::Sync => seq![id, 0xFFu8, 0x66u8],
            StepCommand::Enable => seq![id, 0xF3u8, 0xABu8, 1u8, w],
            StepCommand::Stop => seq![id, 0xFEu8, 0x98u8, w],
            StepCommand::Disable => seq![id, 0xF3u8, 0xABu8, 0u8, w],
            StepCommand::ScaleDownSpeed(x) => seq![id, 0x4Fu8, 0x71u8, 1u8, flag_byte(x)],
            StepCommand::SetZeroPoint => seq![id, 0x93u8, 0x88u8, 1u8],
            StepCommand::GoZeroPoint => seq![id, 0x9Au8, 0x00u8, w],
            StepCommand::SetSpeed(r, s, a) => seq![
                id,
                0xF6u8,
                flag_byte(r),
                (s / 256) as u8,
                (s % 256) as u8,
                a,
                w,
            ],
            StepCommand::ReadOption => seq![id, 0x1Fu8],
        }
    }

    /// The whole frame: the body followed by the XOR of the body.
    pub open spec fn spec_frame(self, id: u8, wait: bool) -> Seq<u8> {
        let body = self.spec_body(id, wait);
        body.push(xor_all(body))
    }

    /// The frame that sends this command to driver `id`; `wait` asks the
    /// driver to hold the command until a sync.
    pub fn encode(self, id: u8, wait: bool) -> (frame: StepFrame)
        ensures
            frame@ == self.spec_frame(id, wait),
    {
        let w: u8 = if wait {
            1
        } else {
            0
        };
        let (mut bytes, n): ([u8; MAX_FRAME_LEN], usize) = match self {
            StepCommand::Sync => ([id, 0xFF, 0x66, 0, 0, 0, 0, 0], 3),
            StepCommand::Enable => ([id, 0xF3, 0xAB, 1, w, 0, 0, 0], 5),
            StepCommand::Stop => ([id, 0xFE, 0x98, w, 0, 0, 0, 0], 4),
            StepCommand::Disable => ([id, 0xF3, 0xAB, 0, w, 0, 0, 0], 5),
            StepCommand::ScaleDownSpeed(x) => (
                [
                    id,
                    0x4F,
                    0x71,
                    1,
                    if x {
                        1
                    } else {
                        0
                    },
                    0,
                    0,
                    0,
                ],
                5,
            ),
            StepCommand::SetZeroPoint => ([id, 0x93, 0x88, 1, 0, 0, 0, 0], 4),
            StepCommand::GoZeroPoint => ([id, 0x9A, 0x00, w, 0, 0, 0, 0], 4),
            StepCommand::SetSpeed(r, s, a) => {
                let hi: u8 = (s / 256) as u8;
                let lo: u8 = (s % 256) as u8;
                let rb: u8 = if r {
                    1
                } else {
                    0
                };
                ([id, 0xF6, rb, hi, lo, a, w, 0], 7)
            },
            StepCommand::ReadOption => ([id, 0x1F, 0, 0, 0, 0, 0, 0], 2),
        };
        assert(bytes@.take(n as int) =~= self.spec_body(id, wait));
        let checksum: u8 = checksum_of(slice_subrange(bytes.as_slice(), 0, n));
        bytes[n] = checksum;
        assert(bytes@.take(n + 1) =~= self.spec_frame(id, wait));
        StepFrame { bytes, len: n + 1 }
    }
}

/// Room for the longest frame.
pub const MAX_FRAME_LEN: usize = 8;

/// A frame for the bus, held in place: the first `len` bytes of `bytes`.
pub struct StepFrame {
    bytes: [u8; MAX_FRAME_LEN],
    len: usize,
}

impl View for StepFrame {
    type V = Seq<u8>;

    closed spec fn view(&self) -> Seq<u8> {
        self.bytes@.take(self.len as int)
    }
}

impl StepFrame {
    #[verifier::type_invariant]
    closed spec fn fits(self) -> bool {
        self.len <= MAX_FRAME_LEN
    }

    /// The frame's bytes, in the order they go on the wire.
    pub fn as_slice(&self) -> (s: &[u8])
        ensures
            s@ == self@,
    {
        proof {
            use_type_invariant(self);
        }
        slice_subrange(self.bytes.as_slice(), 0, self.len)
    }

    /// The number of bytes in the frame.
    pub fn len(&self) -> (n: usize)
        ensures
            n == self@.len(),
    {
        proof {
            use_type_invariant(self);
        }
        self.len
    }
}

/// The XOR of all bytes of `bytes`.
pub fn checksum_of(bytes: &[u8]) -> (c: u8)
    ensures
        c == xor_all(bytes@),
{
    let mut acc: u8 = 0;
    let mut i: usize = 0;
    while i < bytes.len()
        invariant
            i <= bytes.len(),
            acc == xor_all(bytes@.subrange(0, i as int)),
        decreases bytes.len() - i,
    {
        assert(bytes@.subrange(0, i + 1).drop_last() =~= bytes@.subrange(0, i as int));
        acc = acc ^ bytes[i];
        i = i + 1;
    }
    assert(bytes@.subrange(0, i as int) =~= bytes@);
    acc
}

/// XOR-ing a byte onto itself cancels it.
pub proof fn lemma_xor_self(x: u8)
    ensures
        x ^ x == 0u8,
{
    assert(x ^ x == 0u8) by (bit_vector);
}

/// Appending the checksum of a sequence makes the XOR of the whole zero.
pub proof fn lemma_xor_push_checksum(s: Seq<u8>)
    ensures
        xor_all(s.push(xor_all(s))) == 0u8,
{
    assert(s.push(xor_all(s)).drop_last() =~= s);
    lemma_xor_self(xor_all(s));
}

proof fn lemma_xor_all_push(s: Seq<u8>, b: u8)
    ensures
        xor_all(s.push(b)) == xor_all(s) ^ b,
{
    assert(s.push(b).drop_last() =~= s);
}

proof fn lemma_xor_all_one(a: u8)
    ensures
        xor_all(seq![a]) == a,
{
    let s = seq![a];
    assert(s.drop_last() =~= Seq::<u8>::empty());
    assert(xor_all(s.drop_last()) == 0u8);
    assert(s.last() == a);
    assert(0u8 ^ a == a) by (bit_vector);
    assert(xor_all(s) == xor_all(s.drop_last()) ^ s.last());
}

/// Every frame byte for byte, `w` being 1 where `wait` is set and 0 where
/// not: the id, the function code, the parameters (the wait flag as given,
/// in every command that carries one) and the XOR of all of them.
pub proof fn lemma_frames_byte_for_byte(id: u8, wait: bool, flag: bool, reverse: bool, speed: u16, accel: u8)
    ensures
        ({
            let w: u8 = if wait {
                1
            } else {
                0
            };
            let f: u8 = if flag {
                1
            } else {
                0
            };
            let r: u8 = if reverse {
                1
            } else {
                0
            };
            let hi: u8 = (speed / 256) as u8;
            let lo: u8 = (speed % 256) as u8;
            &&& StepCommand::Sync.spec_frame(id, wait) == seq![id, 0xFFu8, 0x66u8, id ^ 0xFFu8 ^ 0x66u8]
            &&& StepCommand::Enable.spec_frame(id, wait) == seq![
                id,
                0xF3u8,
                0xABu8,
                1u8,
                w,
                id ^ 0xF3u8 ^ 0xABu8 ^ 1u8 ^ w,
            ]
            &&& StepCommand::Stop.spec_frame(id, wait) == seq![
                id,
                0xFEu8,
                0x98u8,
                w,
                id ^ 0xFEu8 ^ 0x98u8 ^ w,
            ]
            &&& StepCommand::Disable.spec_frame(id, wait) == seq![
                id,
                0xF3u8,
                0xABu8,
                0u8,
                w,
                id ^ 0xF3u8 ^ 0xABu8 ^ 0u8 ^ w,
            ]
            &&& StepCommand::ScaleDownSpeed(flag).spec_frame(id, wait) == seq![
                id,
                0x4Fu8,
                0x71u8,
                1u8,
                f,
                id ^ 0x4Fu8 ^ 0x71u8 ^ 1u8 ^ f,
            ]
            &&& StepCommand::SetZeroPoint.spec_frame(id, wait) == seq![
                id,
                0x93u8,
                0x88u8,
                1u8,
                id ^ 0x93u8 ^ 0x88u8 ^ 1u8,
            ]
            &&& StepCommand::GoZeroPoint.spec_frame(id, wait) == seq![
                id,
                0x9Au8,
                0x00u8,
                w,
                id ^ 0x9Au8 ^ 0x00u8 ^ w,
            ]
            &&& StepCommand::SetSpeed(reverse, speed, accel).spec_frame(id, wait) == seq![
                id,
                0xF6u8,
                r,
                hi,
                lo,
                accel,
                w,
                id ^ 0xF6u8 ^ r ^ hi ^ lo ^ accel ^ w,
            ]
            &&& StepCommand::ReadOption.spec_frame(id, wait) == seq![id, 0x1Fu8, id ^ 0x1Fu8]
        }),
{
    let w: u8 = if wait {
        1
    } else {
        0
    };
    let f: u8 = if flag {
        1
    } else {
        0
    };
    let r: u8 = if reverse {
        1
    } else {
        0
    };
    let hi: u8 = (speed / 256) as u8;
    let lo: u8 = (speed % 256) as u8;
    lemma_xor_all_one(id);
    let s1 = seq![id];
    // Sync
    let b = s1.push(0xFFu8).push(0x66u8);
    lemma_xor_all_push(s1, 0xFFu8);
    lemma_xor_all_push(s1.push(0xFFu8), 0x66u8);
    assert(StepCommand::Sync.spec_body(id, wait) =~= b);
    assert(StepCommand::Sync.spec_frame(id, wait) =~= seq![id, 0xFFu8, 0x66u8, id ^ 0xFFu8 ^ 0x66u8]);
    // Enable / Disable
    let e0 = s1.push(0xF3u8).push(0xABu8);
    lemma_xor_all_push(s1, 0xF3u8);
    lemma_xor_all_push(s1.push(0xF3u8), 0xABu8);
    lemma_xor_all_push(e0, 1u8);
    lemma_xor_all_push(e0.push(1u8), w);
    lemma_xor_all_push(e0, 0u8);
    lemma_xor_all_push(e0.push(0u8), w);
    assert(StepCommand::Enable.spec_body(id, wait) =~= e0.push(1u8).push(w));
    assert(StepCommand::Disable.spec_body(id, wait) =~= e0.push(0u8).push(w));
    assert(StepCommand::Enable.spec_frame(id, wait) =~= seq![
        id,
        0xF3u8,
        0xABu8,
        1u8,
        w,
        id ^ 0xF3u8 ^ 0xABu8 ^ 1u8 ^ w,
    ]);
    assert(StepCommand::Disable.spec_frame(id, wait) =~= seq![
        id,
        0xF3u8,
        0xABu8,
        0u8,
        w,
        id ^ 0xF3u8 ^ 0xABu8 ^ 0u8 ^ w,
    ]);
    // Stop
    let t0 = s1.push(0xFEu8).push(0x98u8);
    lemma_xor_all_push(s1, 0xFEu8);
    lemma_xor_all_push(s1.push(0xFEu8), 0x98u8);
    lemma_xor_all_push(t0, w);
    assert(StepCommand::Stop.spec_body(id, wait) =~= t0.push(w));
    assert(StepCommand::Stop.spec_frame(id, wait) =~= seq![
        id,
        0xFEu8,
        0x98u8,
        w,
        id ^ 0xFEu8 ^ 0x98u8 ^ w,
    ]);
    // ScaleDownSpeed
    let d0 = s1.push(0x4Fu8).push(0x71u8).push(1u8);
    lemma_xor_all_push(s1, 0x4Fu8);
    lemma_xor_all_push(s1.push(0x4Fu8), 0x71u8);
    lemma_xor_all_push(s1.push(0x4Fu8).push(0x71u8), 1u8);
    lemma_xor_all_push(d0, f);
    assert(StepCommand::ScaleDownSpeed(flag).spec_body(id, wait) =~= d0.push(f));
    assert(StepCommand::ScaleDownSpeed(flag).spec_frame(id, wait) =~= seq![
        id,
        0x4Fu8,
        0x71u8,
        1u8,
        f,
        id ^ 0x4Fu8 ^ 0x71u8 ^ 1u8 ^ f,
    ]);
    // SetZeroPoint
    let z0 = s1.push(0x93u8).push(0x88u8);
    lemma_xor_all_push(s1, 0x93u8);
    lemma_xor_all_push(s1.push(0x93u8), 0x88u8);
    lemma_xor_all_push(z0, 1u8);
    assert(StepCommand::SetZeroPoint.spec_body(id, wait) =~= z0.push(1u8));
    assert(StepCommand::SetZeroPoint.spec_frame(id, wait) =~= seq![
        id,
        0x93u8,
        0x88u8,
        1u8,
        id ^ 0x93u8 ^ 0x88u8 ^ 1u8,
    ]);
    // GoZeroPoint
    let g0 = s1.push(0x9Au8).push(0x00u8);
    lemma_xor_all_push(s1, 0x9Au8);
    lemma_xor_all_push(s1.push(0x9Au8), 0x00u8);
    lemma_xor_all_push(g0, w);
    assert(StepCommand::GoZeroPoint.spec_body(id, wait) =~= g0.push(w));
    assert(StepCommand::GoZeroPoint.spec_frame(id, wait) =~= seq![
        id,
        0x9Au8,
        0x00u8,
        w,
        id ^ 0x9Au8 ^ 0x00u8 ^ w,
    ]);
    // SetSpeed
    let p1 = s1.push(0xF6u8);
    let p2 = p1.push(r);
    let p3 = p2.push(hi);
    let p4 = p3.push(lo);
    let p5 = p4.push(accel);
    lemma_xor_all_push(s1, 0xF6u8);
    lemma_xor_all_push(p1, r);
    lemma_xor_all_push(p2, hi);
    lemma_xor_all_push(p3, lo);
    lemma_xor_all_push(p4, accel);
    lemma_xor_all_push(p5, w);
    assert(StepCommand::SetSpeed(reverse, speed, accel).spec_body(id, wait) =~= p5.push(w));
    assert(StepCommand::SetSpeed(reverse, speed, accel).spec_frame(id, wait) =~= seq![
        id,
        0xF6u8,
        r,
        hi,
        lo,
        accel,
        w,
        id ^ 0xF6u8 ^ r ^ hi ^ lo ^ accel ^ w,
    ]);
    // ReadOption
    lemma_xor_all_push(s1, 0x1Fu8);
    assert(StepCommand::ReadOption.spec_body(id, wait) =~= s1.push(0x1Fu8));
    assert(StepCommand::ReadOption.spec_frame(id, wait) =~= seq![id, 0x1Fu8, id ^ 0x1Fu8]);
}

/// Every frame starts with the addressed driver's id and checks out: the
/// XOR over all of its bytes, checksum included, is zero.
pub proof fn lemma_frame_checks_out(cmd: StepCommand, id: u8, wait: bool)
    ensures
        cmd.spec_frame(id, wait).len() >= 3,
        cmd.spec_frame(id, wait)[0] == id,
        xor_all(cmd.spec_frame(id, wait)) == 0u8,
{
    lemma_xor_push_checksum(cmd.spec_body(id, wait));
}

} // verus!
