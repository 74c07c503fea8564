use vstd::prelude::*;

verus! {

/// A count of PCM sample-frames (a stereo pair counts once), monotonic and
/// unsigned.
#[derive(Clone, Copy, PartialEq, Eq, Structural, Debug)]
pub struct Frames(pub u64);

impl Frames {
    pub fn new(value: u64) -> (r: Frames)
        ensures
            r.0 == value,
    {
        Frames(value)
    }

    pub fn value(self) -> (r: u64)
        ensures
            r == self.0,
    {
        self.0
    }
}

/// A sample rate in Hz. Every operation that divides by the rate requires it
/// to be positive.
#[derive(Clone, Copy, PartialEq, Eq, Structural, Debug)]
pub struct SampleRate(pub u32);

impl SampleRate {
    pub fn new(hz: u32) -> (r: SampleRate)
        requires
            hz > 0,
        ensures
            r.0 == hz,
    {
        SampleRate(hz)
    }
}

} // verus!
