//! The silence that keeps the clock of `slmodemd` running while there is no
//! audio for it.

use vstd::prelude::*;

verus! {

/// One 20 ms frame of slin: 160 samples at 8000 Hz, two bytes each. The signal
/// processor of `slmodemd` expects a steady flow of frames; starving it
/// corrupts the training of the modem.
pub const SILENCE_FRAME_BYTES: usize = 320;

/// The time between two frames of silence, which is the length of a frame.
pub const SILENCE_INTERVAL_MS: u64 = 20;

/// One frame of silence.
pub fn silence_frame() -> (frame: Vec<u8>)
    ensures
        frame@ == Seq::new(SILENCE_FRAME_BYTES as nat, |i: int| 0u8),
{
    let mut frame: Vec<u8> = Vec::new();
    while frame.len() < SILENCE_FRAME_BYTES
        invariant
            frame@.len() <= SILENCE_FRAME_BYTES,
            frame@ == Seq::new(frame@.len(), |i: int| 0u8),
        decreases SILENCE_FRAME_BYTES - frame.len(),
    {
        frame.push(0);
    }
    frame
}

} // verus!
