use vstd::prelude::*;

verus! {

/// The stepper speed that the yaw loop commanded last.
///
/// Hands back the speed held before the call and, where `value` is given,
/// holds it from now on.
pub fn option_output(last: &mut i16, value: Option<i16>) -> (prev: i16)
    ensures
        prev == *old(last),
        *final(last) == (match value {
            Some(v) => v,
            None => *old(last),
        }),
{
    let prev: i16 = *last;
    if let Some(val) = value {
        if val != prev {
            *last = val;
        }
    }
    prev
}

} // verus!
