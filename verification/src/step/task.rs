use vstd::prelude::*;

verus! {

/// A speed request: `Some((speed, accel))` runs the motor, `None` disables it.
pub type SpeedRequest = Option<(i16, u8)>;

/// Requests to the stepper task, posted by the other tasks and taken by
/// the stepper task on its next tick. A newer speed request replaces one
/// that was not taken yet.
pub struct StepRequests {
    zero_point: bool,
    speed: Option<SpeedRequest>,
}

impl View for StepRequests {
    /// (a zero point was asked for, the speed request not yet taken)
    type V = (bool, Option<SpeedRequest>);

    closed spec fn view(&self) -> (bool, Option<SpeedRequest>) {
        (self.zero_point, self.speed)
    }
}

impl StepRequests {
    /// No request pending.
    pub fn new() -> (r: Self)
        ensures
            r@ == (false, None::<SpeedRequest>),
    {
        StepRequests { zero_point: false, speed: None }
    }

    /// Hands out the pending requests and clears them.
    pub fn take(&mut self) -> (r: (bool, Option<SpeedRequest>))
        ensures
            r == old(self)@,
            final(self)@ == (false, None::<SpeedRequest>),
    {
        let r = (self.zero_point, self.speed);
        self.zero_point = false;
        self.speed = None;
        r
    }
}

/// Sets the stepper speed.
/// speed: 0~±32767(i16)
/// accel: 0~255(u8)
pub fn set_speed(requests: &mut StepRequests, state: SpeedRequest)
    ensures
        final(requests)@ == (old(requests)@.0, Some(state)),
{
    requests.speed = Some(state);
}

/// Asks the stepper task to make the present position the zero point.
pub fn set_zero_point(requests: &mut StepRequests)
    ensures
        final(requests)@ == (true, old(requests)@.1),
{
    requests.zero_point = true;
}

/// What the stepper task sends to the driver in one tick, in this order:
/// the zero point, `Enable`, then the speed (`Some`) or `Disable` followed
/// by a 100 ms pause (`None`).
#[derive(Clone, Copy, Debug, PartialEq, Eq)]
pub struct StepTick {
    pub set_zero_point: bool,
    pub enable: bool,
    pub speed: Option<(i16, u8)>,
}

/// Where the stepper task's start-up stands.
#[derive(Clone, Copy, Debug, PartialEq, Eq, Structural)]
pub enum StartupPhase {
    /// Querying the driver until it answers in time.
    Probing,
    /// The driver answered and the speed unit was scaled down.
    ScaledDown,
    /// The motor was disabled; the tick loop runs from here on.
    Started,
}

/// What the start-up does next.
#[derive(Clone, Copy, Debug, PartialEq, Eq, Structural)]
pub enum StartupAction {
    /// Send the status query and wait for the verdict (`Stepper::wait_ok`);
    /// where it is not ready, pause 30 ms before the next step.
    Query,
    /// Send `ScaleDownSpeed(true)`, then wait one tick.
    ScaleDown,
    /// Send `Disable(false)`.
    Disable,
    /// Start-up is over: run the tick loop (`StepTask::tick`).
    Done,
}

/// The next phase and action of the start-up; `ready` is the verdict of
/// the last status query, read only while probing.
pub open spec fn startup_next(p: StartupPhase, ready: bool) -> (StartupPhase, StartupAction) {
    match p {
        StartupPhase::Probing => if ready {
            (StartupPhase::ScaledDown, StartupAction::ScaleDown)
        } else {
            (StartupPhase::Probing, StartupAction::Query)
        },
        StartupPhase::ScaledDown => (StartupPhase::Started, StartupAction::Disable),
        StartupPhase::Started => (StartupPhase::Started, StartupAction::Done),
    }
}

/// The actions of start-up steps fed the verdicts `readies` in turn, from
/// phase `p`.
pub open spec fn startup_actions(p: StartupPhase, readies: Seq<bool>) -> Seq<StartupAction>
    decreases readies.len(),
{
    if readies.len() == 0 {
        Seq::empty()
    } else {
        let (n, a) = startup_next(p, readies[0]);
        seq![a] + startup_actions(n, readies.drop_first())
    }
}

/// The stepper task's start-up sequence.
pub struct StepStartup {
    phase: StartupPhase,
}

impl View for StepStartup {
    type V = StartupPhase;

    closed spec fn view(&self) -> StartupPhase {
        self.phase
    }
}

impl StepStartup {
    /// Start-up before the driver was queried.
    pub fn new() -> (s: Self)
        ensures
            s@ == StartupPhase::Probing,
    {
        StepStartup { phase: StartupPhase::Probing }
    }

    /// One start-up step; `ready` is the verdict of the last status query
    /// (`false` before the first).
    pub fn step(&mut self, ready: bool) -> (action: StartupAction)
        ensures
            (final(self)@, action) == startup_next(old(self)@, ready),
    {
        match self.phase {
            StartupPhase::Probing => {
                if ready {
                    self.phase = StartupPhase::ScaledDown;
                    StartupAction::ScaleDown
                } else {
                    StartupAction::Query
                }
            },
            StartupPhase::ScaledDown => {
                self.phase = StartupPhase::Started;
                StartupAction::Disable
            },
            StartupPhase::Started => StartupAction::Done,
        }
    }
}

proof fn lemma_startup_actions_len(p: StartupPhase, readies: Seq<bool>)
    ensures
        startup_actions(p, readies).len() == readies.len(),
    decreases readies.len(),
{
    if readies.len() > 0 {
        lemma_startup_actions_len(startup_next(p, readies[0]).0, readies.drop_first());
    }
}

/// The start-up order: only status queries go out until the driver is
/// ready; the first ready verdict is followed by `ScaleDown`, then
/// `Disable`, and only then is start-up `Done`, so no `Enable` or speed
/// reaches the driver before the speed unit was scaled down and the motor
/// disabled.
pub proof fn lemma_startup_order(readies: Seq<bool>, k: nat)
    requires
        k + 3 <= readies.len(),
        forall|i: int| 0 <= i < k ==> !readies[i],
        readies[k as int],
    ensures
        ({
            let a = startup_actions(StartupPhase::Probing, readies);
            &&& a.len() == readies.len()
            &&& forall|i: int| 0 <= i < k ==> a[i] == StartupAction::Query
            &&& a[k as int] == StartupAction::ScaleDown
            &&& a[k as int + 1] == StartupAction::Disable
            &&& a[k as int + 2] == StartupAction::Done
        }),
    decreases k,
{
    let a = startup_actions(StartupPhase::Probing, readies);
    lemma_startup_actions_len(StartupPhase::Probing, readies);
    let rest = readies.drop_first();
    if k == 0 {
        let r1 = rest.drop_first();
        let r2 = r1.drop_first();
        assert(a == seq![StartupAction::ScaleDown] + startup_actions(
            StartupPhase::ScaledDown,
            rest,
        ));
        assert(startup_actions(StartupPhase::ScaledDown, rest) == seq![StartupAction::Disable]
            + startup_actions(StartupPhase::Started, r1));
        assert(startup_actions(StartupPhase::Started, r1) == seq![StartupAction::Done]
            + startup_actions(StartupPhase::Started, r2));
        assert(a[1] == StartupAction::Disable);
        assert(a[2] == StartupAction::Done);
    } else {
        assert forall|i: int| 0 <= i < k - 1 implies !rest[i] by {
            assert(rest[i] == readies[i + 1]);
        }
        assert(rest[k - 1] == readies[k as int]);
        lemma_startup_order(rest, (k - 1) as nat);
        assert(a == seq![StartupAction::Query] + startup_actions(StartupPhase::Probing, rest));
        assert forall|i: int| 0 <= i < k implies a[i] == StartupAction::Query by {
            if i > 0 {
                assert(a[i] == startup_actions(StartupPhase::Probing, rest)[i - 1]);
            }
        }
    }
}

/// The stepper task between ticks: whether the motor runs, and the speed and
/// acceleration that it was asked to run at last.
pub struct StepTask {
    enabled: bool,
    speed: i16,
    accel: u8,
}

/// The model of [`StepTask`].
pub struct StepTaskView {
    pub enabled: bool,
    pub speed: i16,
    pub accel: u8,
}

impl View for StepTask {
    type V = StepTaskView;

    closed spec fn view(&self) -> StepTaskView {
        StepTaskView { enabled: self.enabled, speed: self.speed, accel: self.accel }
    }
}

/// The state after a tick that took the speed request `request` (`None`:
/// none was pending).
pub open spec fn step_next(s: StepTaskView, request: Option<SpeedRequest>) -> StepTaskView {
    match request {
        Some(Some((speed, accel))) => StepTaskView { enabled: true, speed, accel },
        Some(None) => StepTaskView { enabled: false, ..s },
        None => s,
    }
}

/// What a tick sends: the zero point where it was asked for, `Enable` where
/// the motor is switched on, then the speed while it runs or `Disable`
/// while it does not.
pub open spec fn step_sends(s: StepTaskView, zero_point: bool, request: Option<SpeedRequest>) -> StepTick {
    let n = step_next(s, request);
    StepTick {
        set_zero_point: zero_point,
        enable: !s.enabled && n.enabled,
        speed: if n.enabled {
            Some((n.speed, n.accel))
        } else {
            None
        },
    }
}

impl StepTask {
    /// The task after start-up: the motor disabled.
    pub fn new() -> (t: Self)
        ensures
            t@ == (StepTaskView { enabled: false, speed: 0, accel: 0 }),
    {
        StepTask { enabled: false, speed: 0, accel: 0 }
    }

    /// One tick: takes the pending requests (`zero_point`, and the speed
    /// request if one was pending) and says what to send.
    pub fn tick(&mut self, zero_point: bool, request: Option<SpeedRequest>) -> (sends: StepTick)
        ensures
            final(self)@ == step_next(old(self)@, request),
            sends == step_sends(old(self)@, zero_point, request),
    {
        let was_enabled = self.enabled;
        match request {
            Some(Some((speed, accel))) => {
                self.enabled = true;
                self.speed = speed;
                self.accel = accel;
            },
            Some(None) => {
                self.enabled = false;
            },
            None => {},
        }
        StepTick {
            set_zero_point: zero_point,
            enable: !was_enabled && self.enabled,
            speed: if self.enabled {
                Some((self.speed, self.accel))
            } else {
                None
            },
        }
    }
}

/// Every tick ends by running the motor at the speed last asked for, or by
/// disabling it; `Enable` is sent exactly when the motor goes from off to
/// on, and only when a speed request was taken.
pub proof fn lemma_tick_shape(s: StepTaskView, zero_point: bool, request: Option<SpeedRequest>)
    ensures
        ({
            let t = step_sends(s, zero_point, request);
            let n = step_next(s, request);
            &&& t.speed == (if n.enabled {
                Some((n.speed, n.accel))
            } else {
                None::<(i16, u8)>
            })
            &&& t.enable <==> (!s.enabled && n.enabled)
            &&& t.enable ==> request is Some && request.unwrap() is Some
            &&& t.set_zero_point == zero_point
        }),
{
}

/// Without a new speed request the task keeps its state and resends the
/// speed it was running at; a disable request always switches the motor
/// off, and a speed request always switches it on at that speed.
pub proof fn lemma_requests_take_effect(s: StepTaskView, zero_point: bool, speed: i16, accel: u8)
    ensures
        step_next(s, None) == s,
        !step_next(s, Some(None)).enabled,
        step_next(s, Some(Some((speed, accel)))) == (StepTaskView {
            enabled: true,
            speed,
            accel,
        }),
{
}

} // verus!
