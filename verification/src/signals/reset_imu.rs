//! IMU-recalibration requests from the ground station.
//!
//! A latch rather than the streamed command register: the reset is a one-shot
//! event, while pilot commands stream through the command register at ~100 Hz and
//! would clobber it before the radio relay sampled it. The latch holds the request
//! until the relay consumes it, so the edge cannot be lost.

use vstd::prelude::*;
use super::Latch;

verus! {

/// Latches an IMU-recalibration request.
pub fn signal(latch: &mut Latch<()>)
    ensures
        final(latch)@ == Some(()),
{
    latch.signal(());
}

/// Consumes a pending IMU-recalibration request; true when one was pending. Non-blocking.
pub fn take(latch: &mut Latch<()>) -> (r: bool)
    ensures
        r == (old(latch)@ is Some),
        final(latch)@ is None,
{
    latch.try_take().is_some()
}

} // verus!
