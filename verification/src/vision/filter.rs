use vstd::prelude::*;

verus! {

/// Pixel column that the camera reports when the target is centred, and
/// that it is reported at before any target was seen.
pub const OFFSET_X: i16 = 400;

/// Pixel row that the camera reports when the target is centred, and that
/// it is reported at before any target was seen.
pub const OFFSET_Y: i16 = 240 + 10;

/// The smoothed target position that the vision task publishes.
pub struct VisionState {
    point: (i16, i16),
}

impl View for VisionState {
    type V = (i16, i16);

    closed spec fn view(&self) -> (i16, i16) {
        self.point
    }
}

impl VisionState {
    /// The state before any reading: the centre offset.
    pub fn new() -> (s: Self)
        ensures
            s@ == (OFFSET_X, OFFSET_Y),
    {
        VisionState { point: (OFFSET_X, OFFSET_Y) }
    }
}

/// The reading that a new measurement `p` feeds into the filter: `(0, 0)`
/// means that the camera saw nothing, and stands for the last point.
pub open spec fn filter_input(last: (i16, i16), p: (i16, i16)) -> (i16, i16) {
    if p == (0i16, 0i16) {
        last
    } else {
        p
    }
}

/// A `(0, 0)` reading feeds the held point into the filter, whatever that
/// point is; any other reading is fed in as it is.
pub proof fn lemma_filter_input(last: (i16, i16), p: (i16, i16))
    ensures
        filter_input(last, (0i16, 0i16)) == last,
        !(p.0 == 0 && p.1 == 0) ==> filter_input(last, p) == p,
        (p.0 == 0 && p.1 == 0) ==> filter_input(last, p) == last,
{
}

/// The smoothed target position.
pub fn get_vision(state: &VisionState) -> (p: (i16, i16))
    ensures
        p == state@,
{
    state.point
}

/// Feeds the measurement `p` into the smoothing filter: each coordinate
/// becomes `smooth(new, last)`, where `new` is `p`'s coordinate (the last
/// one where `p` is `(0, 0)`) and `last` the coordinate held so far.
///
/// `smooth` is the exponential moving average of the firmware, which works
/// in floating point and is handed in by the caller.
pub fn set_vision<F: Fn(i16, i16) -> i16>(state: &mut VisionState, p: (i16, i16), smooth: F)
    requires
        forall|a: i16, b: i16| call_requires(smooth, (a, b)),
    ensures
        p.0 == 0 && p.1 == 0 ==> call_ensures(smooth, (old(state)@.0, old(state)@.0), final(state)@.0)
            && call_ensures(smooth, (old(state)@.1, old(state)@.1), final(state)@.1),
        !(p.0 == 0 && p.1 == 0) ==> call_ensures(smooth, (p.0, old(state)@.0), final(state)@.0)
            && call_ensures(smooth, (p.1, old(state)@.1), final(state)@.1),
        call_ensures(
            smooth,
            (filter_input(old(state)@, p).0, old(state)@.0),
            final(state)@.0,
        ),
        call_ensures(
            smooth,
            (filter_input(old(state)@, p).1, old(state)@.1),
            final(state)@.1,
        ),
{
    let last_op = get_vision(state);
    let raw = if p.0 == 0 && p.1 == 0 {
        last_op
    } else {
        p
    };
    let op = (smooth(raw.0, last_op.0), smooth(raw.1, last_op.1));
    state.point = op;
}

} // verus!
