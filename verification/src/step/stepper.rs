use vstd::prelude::*;
use crate::step::command::{StepCommand, StepFrame, xor_all, checksum_of, lemma_xor_push_checksum};

verus! {

/// A stepper driver on the bus: its id and the interface that frames for it
/// are written to.
pub struct Stepper<I> {
    id: u8,
    interface: I,
}

/// Whether a reply to the status query checks out: it holds at least four
/// bytes and the XOR over all of them, checksum included, is zero.
pub open spec fn reply_ok(reply: Seq<u8>) -> bool {
    reply.len() >= 4 && xor_all(reply) == 0u8
}

impl<I> Stepper<I> {
    /// The driver's id on the bus.
    pub closed spec fn spec_id(&self) -> u8 {
        self.id
    }

    /// The interface that frames are written to.
    pub closed spec fn spec_interface(&self) -> I {
        self.interface
    }

    pub fn new(iface: I, id: u8) -> (s: Self)
        ensures
            s.spec_id() == id,
            s.spec_interface() == iface,
    {
        Self { id, interface: iface }
    }

    pub fn get_id(&self) -> (id: u8)
        ensures
            id == self.spec_id(),
    {
        self.id
    }

    /// The interface, to write this driver's frames to.
    pub fn interface(&mut self) -> (iface: &mut I)
        ensures
            *iface == old(self).spec_interface(),
            final(self).spec_id() == old(self).spec_id(),
            final(self).spec_interface() == *final(iface),
    {
        &mut self.interface
    }

    /// The frame that syncs the held commands of all drivers.
    pub fn sync(&self) -> (frame: StepFrame)
        ensures
            frame@ == StepCommand::Sync.spec_frame(self.spec_id(), false),
    {
        StepCommand::Sync.encode(self.id, false)
    }

    /// The frame that enables the motor.
    pub fn enable(&self) -> (frame: StepFrame)
        ensures
            frame@ == StepCommand::Enable.spec_frame(self.spec_id(), false),
    {
        StepCommand::Enable.encode(self.id, false)
    }

    /// The frame that stops the motor at once.
    pub fn stop(&self, wait: bool) -> (frame: StepFrame)
        ensures
            frame@ == StepCommand::Stop.spec_frame(self.spec_id(), wait),
    {
        StepCommand::Stop.encode(self.id, wait)
    }

    /// The frame that disables the motor.
    pub fn disable(&self, wait: bool) -> (frame: StepFrame)
        ensures
            frame@ == StepCommand::Disable.spec_frame(self.spec_id(), wait),
    {
        StepCommand::Disable.encode(self.id, wait)
    }

    /// The frame that divides the speed unit by ten.
    pub fn set_speed_scale_down(&self) -> (frame: StepFrame)
        ensures
            frame@ == StepCommand::ScaleDownSpeed(true).spec_frame(self.spec_id(), false),
    {
        StepCommand::ScaleDownSpeed(true).encode(self.id, false)
    }

    /// The frame that makes the present position the zero point.
    pub fn set_zero_point(&self) -> (frame: StepFrame)
        ensures
            frame@ == StepCommand::SetZeroPoint.spec_frame(self.spec_id(), false),
    {
        StepCommand::SetZeroPoint.encode(self.id, false)
    }

    /// The frame that returns the motor to its zero point.
    pub fn go_zero_point(&self, wait: bool) -> (frame: StepFrame)
        ensures
            frame@ == StepCommand::GoZeroPoint.spec_frame(self.spec_id(), wait),
    {
        StepCommand::GoZeroPoint.encode(self.id, wait)
    }

    /// The frame that runs the motor at `speed` (in RPM, negative for
    /// backward) with acceleration `accel`; the magnitude goes on the wire
    /// as a `u16`.
    pub fn set_speed(&self, speed: i16, accel: u8, wait: bool) -> (frame: StepFrame)
        ensures
            frame@ == StepCommand::SetSpeed(
                speed < 0,
                (if speed < 0 {
                    -speed
                } else {
                    speed as int
                }) as u16,
                accel,
            ).spec_frame(self.spec_id(), wait),
    {
        let pn = speed < 0;
        let s: u16 = if pn {
            (0i32 - speed as i32) as u16
        } else {
            speed as u16
        };
        StepCommand::SetSpeed(pn, s, accel).encode(self.id, wait)
    }

    /// The frame that queries the driver's status.
    pub fn read_option(&self) -> (frame: StepFrame)
        ensures
            frame@ == StepCommand::ReadOption.spec_frame(self.spec_id(), false),
    {
        StepCommand::ReadOption.encode(self.id, false)
    }

    /// The verdict of one status-query attempt: the query was sent and a
    /// reply that checks out came back (`reply` is `None` where the read
    /// failed).
    pub fn reply_check(&self, sent: bool, reply: Option<&[u8]>) -> (ok: bool)
        ensures
            ok == (sent && reply is Some && reply_ok(reply.unwrap()@)),
    {
        if !sent {
            return false;
        }
        match reply {
            Some(data) => data.len() >= 4 && checksum_of(data) == 0,
            None => false,
        }
    }

    /// Whether the driver is taken as ready after a status-query attempt:
    /// `attempt` is `None` where the attempt ran out of its 10 ms, and
    /// otherwise holds the attempt's own verdict (see `reply_check`). Only
    /// a timeout counts as not ready; the verdict itself is not looked at.
    pub fn wait_ok(&self, attempt: Option<bool>) -> (ok: bool)
        ensures
            ok == attempt is Some,
    {
        match attempt {
            Some(_) => true,
            None => false,
        }
    }
}

/// The frame that `set_speed` sends carries the speed: byte 2 is the
/// direction (1 for backward), bytes 3 and 4 the magnitude, big-endian, so
/// that reading them back gives the speed asked for; byte 5 is the
/// acceleration and byte 6 the wait flag as given, in either direction.
pub proof fn lemma_speed_round_trip(id: u8, speed: i16, accel: u8, wait: bool)
    ensures
        ({
            let f = StepCommand::SetSpeed(
                speed < 0,
                (if speed < 0 {
                    -speed
                } else {
                    speed as int
                }) as u16,
                accel,
            ).spec_frame(id, wait);
            let magnitude = f[3] as int * 256 + f[4] as int;
            &&& f.len() == 8
            &&& f[1] == 0xF6u8
            &&& f[5] == accel
            &&& f[6] == (if wait {
                1u8
            } else {
                0u8
            })
            &&& f[2] == (if speed < 0 {
                1u8
            } else {
                0u8
            })
            &&& (if f[2] == 1u8 {
                -magnitude
            } else {
                magnitude
            }) == speed as int
        }),
{
    let m: u16 = (if speed < 0 {
        -speed
    } else {
        speed as int
    }) as u16;
    assert((m / 256) as u8 as int * 256 + (m % 256) as u8 as int == m as int);
}

/// A reply framed the way commands are, with at least four bytes, checks
/// out.
pub proof fn lemma_framed_reply_ok(body: Seq<u8>)
    requires
        body.len() >= 3,
    ensures
        reply_ok(body.push(xor_all(body))),
{
    lemma_xor_push_checksum(body);
}

} // verus!
