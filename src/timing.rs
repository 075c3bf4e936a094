//! Frame pacing for a driver that renders one generation per frame.
use vstd::prelude::*;

verus! {

/// How long to pause after a frame that took `elapsed_nanos`, so that frames
/// come `period_nanos` apart: the time left of the period, or zero once the
/// period is used up.
pub fn frame_pause(period_nanos: u64, elapsed_nanos: u64) -> (r: u64)
    ensures
        r == if elapsed_nanos >= period_nanos {
            0
        } else {
            period_nanos - elapsed_nanos
        },
{
    if elapsed_nanos >= period_nanos {
        0
    } else {
        period_nanos - elapsed_nanos
    }
}

} // verus!
