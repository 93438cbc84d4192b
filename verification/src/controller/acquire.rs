use vstd::prelude::*;
use crate::vision::filter::{OFFSET_X, OFFSET_Y};

verus! {

/// Consecutive aligned ticks after which the laser locks on: more than this.
pub const LOCK_TICKS: u8 = 10;

/// The counter value that holding a lock keeps the streak at.
pub const HOLD_COUNT: u8 = 200;

/// What one control tick does after looking at the camera.
#[derive(Clone, Copy, Debug, PartialEq, Eq, Structural)]
pub enum Phase {
    /// Aim at the target: run the vision controllers, set the servo and the
    /// yaw setpoint. With `refocus`, first reset the yaw reference and the
    /// vision controllers.
    Track { refocus: bool },
    /// No target: turn the yaw setpoint on by one step and follow it.
    Search,
    /// The run is over: nothing to aim at.
    Done,
}

/// What a tracking tick leads to.
#[derive(Clone, Copy, Debug, PartialEq, Eq, Structural)]
pub enum TrackOutcome {
    /// Keep aiming.
    Continue,
    /// Locked: switch the laser on, stop the stepper, and the run is over.
    LockAndStop,
    /// Locked: switch the laser on and keep tracking from now on.
    LockAndHold,
}

/// The controller between ticks.
pub struct Controller {
    laser_do: bool,
    finished: bool,
    count: u8,
    keep_enable: bool,
    focus: bool,
}

/// The model of [`Controller`].
pub struct ControllerView {
    /// The run was started with the button held: hold the lock instead of
    /// finishing.
    pub laser_do: bool,
    /// The run is over.
    pub finished: bool,
    /// Consecutive aligned tracking ticks.
    pub count: u8,
    /// A lock is being held: track even without a target in sight.
    pub keep_enable: bool,
    /// The controllers were reset for the present tracking stretch.
    pub focus: bool,
}

impl ControllerView {
    /// What every state of the controller satisfies: a lock is held only in
    /// a run that holds locks, the streak stays at or below `HOLD_COUNT`, and
    /// it stays at or below `LOCK_TICKS` while no lock was taken.
    pub open spec fn wf(self) -> bool {
        &&& self.keep_enable ==> self.laser_do
        &&& self.count <= HOLD_COUNT
        &&& !self.finished && !self.keep_enable ==> self.count <= LOCK_TICKS
    }
}

impl View for Controller {
    type V = ControllerView;

    closed spec fn view(&self) -> ControllerView {
        ControllerView {
            laser_do: self.laser_do,
            finished: self.finished,
            count: self.count,
            keep_enable: self.keep_enable,
            focus: self.focus,
        }
    }
}

/// Whether the camera sees a target: it reports anything but the centre
/// offset, which is what it reports while it sees none.
pub open spec fn has_target(measurement: (i16, i16)) -> bool {
    measurement != (OFFSET_X, OFFSET_Y)
}

/// The phase of a tick with camera reading `measurement`, and the state
/// after choosing it.
pub open spec fn plan_next(v: ControllerView, measurement: (i16, i16)) -> (ControllerView, Phase) {
    if v.finished {
        (v, Phase::Done)
    } else if has_target(measurement) || v.keep_enable {
        (ControllerView { focus: true, ..v }, Phase::Track { refocus: !v.focus })
    } else {
        (ControllerView { focus: false, ..v }, Phase::Search)
    }
}

/// The outcome of a tracking tick that was `aligned` (the aiming error is
/// within bounds) or not, and the state after it.
pub open spec fn track_next(v: ControllerView, aligned: bool) -> (ControllerView, TrackOutcome) {
    let c: int = if aligned {
        v.count + 1
    } else {
        0
    };
    if c > LOCK_TICKS {
        if !v.laser_do {
            (ControllerView { count: c as u8, finished: true, ..v }, TrackOutcome::LockAndStop)
        } else {
            (
                ControllerView { count: HOLD_COUNT, keep_enable: true, ..v },
                TrackOutcome::LockAndHold,
            )
        }
    } else {
        (ControllerView { count: c as u8, ..v }, TrackOutcome::Continue)
    }
}

/// The state after a searching tick; `exhausted` says that the yaw
/// setpoint has gone past a full turn, which ends the run.
pub open spec fn search_next(v: ControllerView, exhausted: bool) -> ControllerView {
    if exhausted {
        ControllerView { finished: true, ..v }
    } else {
        v
    }
}

impl Controller {
    /// Every controller is well formed (see `ControllerView::wf`).
    #[verifier::type_invariant]
    closed spec fn well_formed(self) -> bool {
        self@.wf()
    }

    /// A controller at the start of a run; `laser_do` says that the run holds
    /// the lock rather than finishing.
    pub fn new(laser_do: bool) -> (c: Self)
        ensures
            c@ == (ControllerView {
                laser_do,
                finished: false,
                count: 0,
                keep_enable: false,
                focus: false,
            }),
            c@.wf(),
    {
        Controller { laser_do, finished: false, count: 0, keep_enable: false, focus: false }
    }

    /// Whether the run is over.
    pub fn is_finished(&self) -> (r: bool)
        ensures
            r == self@.finished,
            self@.wf(),
    {
        proof {
            use_type_invariant(self);
        }
        self.finished
    }

    /// Chooses the phase of a tick from the camera reading.
    pub fn plan(&mut self, measurement: (i16, i16)) -> (phase: Phase)
        ensures
            old(self)@.wf(),
            (final(self)@, phase) == plan_next(old(self)@, measurement),
            final(self)@.wf(),
    {
        proof {
            use_type_invariant(&*self);
        }
        if self.finished {
            return Phase::Done;
        }
        if measurement.0 != OFFSET_X || measurement.1 != OFFSET_Y || self.keep_enable {
            let refocus = !self.focus;
            self.focus = true;
            Phase::Track { refocus }
        } else {
            self.focus = false;
            Phase::Search
        }
    }

    /// Ends a tracking tick: `aligned` says that the aiming error is within
    /// bounds.
    pub fn track(&mut self, aligned: bool) -> (outcome: TrackOutcome)
        requires
            !old(self)@.finished,
        ensures
            old(self)@.wf(),
            (final(self)@, outcome) == track_next(old(self)@, aligned),
            final(self)@.wf(),
    {
        proof {
            use_type_invariant(&*self);
        }
        let c: u8 = if aligned {
            self.count + 1
        } else {
            0
        };
        if c > LOCK_TICKS {
            if !self.laser_do {
                self.finished = true;
                self.count = c;
                TrackOutcome::LockAndStop
            } else {
                self.keep_enable = true;
                self.count = HOLD_COUNT;
                TrackOutcome::LockAndHold
            }
        } else {
            self.count = c;
            TrackOutcome::Continue
        }
    }

    /// Ends a searching tick; `exhausted` says that the yaw setpoint has gone
    /// past a full turn. Says whether the run is over now.
    pub fn search(&mut self, exhausted: bool) -> (over: bool)
        requires
            !old(self)@.finished,
        ensures
            old(self)@.wf(),
            final(self)@ == search_next(old(self)@, exhausted),
            over == exhausted,
            final(self)@.wf(),
    {
        proof {
            use_type_invariant(&*self);
        }
        if exhausted {
            self.finished = true;
        }
        exhausted
    }

    /// The end of a tick in a finished run, after the actuators were shut
    /// down: the controllers count as not reset.
    pub fn settle(&mut self)
        ensures
            old(self)@.wf(),
            final(self)@ == (ControllerView { focus: false, ..old(self)@ }),
            final(self)@.wf(),
    {
        proof {
            use_type_invariant(&*self);
        }
        self.focus = false;
    }
}

/// The state after `n` aligned tracking ticks from `v`.
pub open spec fn aligned_run(v: ControllerView, n: nat) -> ControllerView
    decreases n,
{
    if n == 0 {
        v
    } else {
        track_next(aligned_run(v, (n - 1) as nat), true).0
    }
}

/// Locking takes a streak: from a state without a streak, the first ten
/// aligned tracking ticks only count, and the eleventh locks on (holding
/// the lock where the run holds locks, finishing the run otherwise).
pub proof fn lemma_lock_after_streak(v: ControllerView, n: nat)
    requires
        v.wf(),
        !v.finished,
        !v.keep_enable,
        v.count == 0,
        n <= LOCK_TICKS,
    ensures
        aligned_run(v, n) == (ControllerView { count: n as u8, ..v }),
        track_next(aligned_run(v, n), true).1 == (if n < LOCK_TICKS {
            TrackOutcome::Continue
        } else if v.laser_do {
            TrackOutcome::LockAndHold
        } else {
            TrackOutcome::LockAndStop
        }),
    decreases n,
{
    if n > 0 {
        lemma_lock_after_streak(v, (n - 1) as nat);
    }
}

/// A tick that is not aligned restarts the streak and never locks.
pub proof fn lemma_misaligned_restarts(v: ControllerView)
    requires
        v.wf(),
        !v.finished,
    ensures
        track_next(v, false) == ((ControllerView { count: 0, ..v }, TrackOutcome::Continue)),
{
}

/// A finished run stays finished: every later tick is `Done` and changes
/// nothing, and settling keeps it finished.
pub proof fn lemma_finished_is_final(v: ControllerView, measurement: (i16, i16))
    requires
        v.wf(),
        v.finished,
    ensures
        plan_next(v, measurement) == (v, Phase::Done),
        (ControllerView { focus: false, ..v }).finished,
{
}

/// Holding a lock is permanent: the controller tracks whatever the camera
/// reports, never finishes the run and never lets go of the lock.
pub proof fn lemma_hold_is_permanent(v: ControllerView, measurement: (i16, i16), aligned: bool)
    requires
        v.wf(),
        !v.finished,
        v.keep_enable,
    ensures
        plan_next(v, measurement).1 is Track,
        plan_next(v, measurement).0.keep_enable,
        !plan_next(v, measurement).0.finished,
        track_next(v, aligned).0.keep_enable,
        !track_next(v, aligned).0.finished,
        track_next(v, aligned).1 != TrackOutcome::LockAndStop,
{
}

/// Every camera reading other than the centre offset `(OFFSET_X, OFFSET_Y)`
/// is a target, whichever of its coordinates differ: a run that is not
/// finished tracks it, refocusing when the last tick did not track. Only
/// the exact centre offset, outside a held lock, makes the tick search.
pub proof fn lemma_reading_decides_phase(v: ControllerView, measurement: (i16, i16))
    requires
        !v.finished,
    ensures
        (measurement.0 != OFFSET_X || measurement.1 != OFFSET_Y) ==> (plan_next(v, measurement).1
            == (Phase::Track { refocus: !v.focus })),
        (measurement.0 == OFFSET_X && measurement.1 == OFFSET_Y && !v.keep_enable) ==> plan_next(
            v,
            measurement,
        ).1 == Phase::Search,
        plan_next(v, measurement).0.focus == (plan_next(v, measurement).1 != Phase::Search),
{
}

/// The run ends only by locking on in a run that does not hold locks, or by
/// a search that went past a full turn.
pub proof fn lemma_how_runs_end(v: ControllerView, aligned: bool, exhausted: bool)
    requires
        v.wf(),
        !v.finished,
    ensures
        track_next(v, aligned).0.finished <==> track_next(v, aligned).1
            == TrackOutcome::LockAndStop,
        search_next(v, exhausted).finished <==> exhausted,
{
}

} // verus!
