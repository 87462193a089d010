//! Playback of a recorded flight: all virtual sensors read the same frame, so
//! that their samples belong together.

use crate::real32::Real32;
use crate::vehicle::Vec3;
use vstd::prelude::*;

verus! {

/// Frames per second of a recording.
pub const DATASET_HZ: u32 = 50;

/// Stick channels of a frame.
#[derive(Clone, Copy, Debug, PartialEq, Eq, Structural)]
pub struct RcFrame {
    pub throttle: Real32,
    pub roll: Real32,
    pub pitch: Real32,
    pub yaw: Real32,
    pub aux1: Real32,
}

/// One recorded moment.
#[derive(Clone, Copy, Debug, PartialEq, Eq, Structural)]
pub struct Frame {
    /// Acceleration with gravity, m/s^2.
    pub imu_accel: Vec3,
    /// Turn rate, rad/s.
    pub imu_gyro: Vec3,
    /// Barometric altitude, m.
    pub baro_alt: Real32,
    /// Latitude and longitude in degrees, altitude in m.
    pub gps: Vec3,
    /// Sticks.
    pub rc: RcFrame,
}

/// A recording that is played in a loop.
pub struct Playback {
    frames: Vec<Frame>,
    idx: usize,
}

impl Playback {
    /// The recording.
    pub closed spec fn frames(&self) -> Seq<Frame> {
        self.frames@
    }

    /// The place of the current frame.
    pub closed spec fn index(&self) -> nat {
        self.idx as nat
    }

    /// The current frame is one of the recording.
    pub open spec fn wf(&self) -> bool {
        self.index() < self.frames().len() || (self.index() == 0 && self.frames().len() == 0)
    }

    /// Starts a recording at its first frame.
    pub fn new(frames: Vec<Frame>) -> (p: Playback)
        ensures
            p.wf(),
            p.frames() == frames@,
            p.index() == 0,
    {
        Playback { frames, idx: 0 }
    }

    /// Goes `steps` frames on, from the last one to the first; returns the place
    /// of the frame that is then current.
    pub fn advance(&mut self, steps: usize) -> (idx: usize)
        requires
            old(self).wf(),
            old(self).frames().len() > 0,
        ensures
            final(self).wf(),
            final(self).frames() == old(self).frames(),
            idx == final(self).index(),
            idx == (old(self).index() + steps) % (old(self).frames().len() as int),
    {
        let n: usize = self.frames.len();
        let k: usize = steps % n;
        proof {
            vstd::arithmetic::div_mod::lemma_add_mod_noop(
                self.idx as int,
                steps as int,
                n as int,
            );
            vstd::arithmetic::div_mod::lemma_small_mod(self.idx as nat, n as nat);
        }
        if self.idx < n - k {
            proof {
                vstd::arithmetic::div_mod::lemma_small_mod((self.idx + k) as nat, n as nat);
            }
            self.idx = self.idx + k;
        } else {
            proof {
                vstd::arithmetic::div_mod::lemma_mod_sub_multiples_vanish(
                    self.idx + k,
                    n as int,
                );
                vstd::arithmetic::div_mod::lemma_small_mod((self.idx + k - n) as nat, n as nat);
            }
            self.idx = self.idx - (n - k);
        }
        self.idx
    }

    /// The current frame.
    pub fn current(&self) -> (f: Frame)
        requires
            self.wf(),
            self.frames().len() > 0,
        ensures
            f == self.frames()[self.index() as int],
    {
        self.frames[self.idx]
    }

    /// Number of frames.
    pub fn len(&self) -> (n: usize)
        ensures
            n == self.frames().len(),
    {
        self.frames.len()
    }

    /// Whether there are no frames.
    pub fn is_empty(&self) -> (b: bool)
        ensures
            b == (self.frames().len() == 0),
    {
        self.frames.len() == 0
    }
}

/// Going on in parts goes as far as going on at once, and after as many steps as
/// there are frames the same frame is current.
pub proof fn law_playback_loops(idx: nat, a: nat, b: nat, n: nat)
    requires
        idx < n,
    ensures
        ((idx + a) % n + b) % n == (idx + (a + b)) % n,
        (idx + n) % n == idx,
{
    vstd::arithmetic::div_mod::lemma_add_mod_noop((idx + a) as int, b as int, n as int);
    vstd::arithmetic::div_mod::lemma_add_mod_noop(((idx + a) % n) as int, b as int, n as int);
    vstd::arithmetic::div_mod::lemma_mod_twice((idx + a) as int, n as int);
    vstd::arithmetic::div_mod::lemma_small_mod(idx, n);
    vstd::arithmetic::div_mod::lemma_mod_add_multiples_vanish(idx as int, n as int);
}

/// Of `advance` and `current`: the frame that many places further on is current, over
/// the end back to the start; a whole round comes back to the same frame.
pub proof fn law_advance_then_current(p: &mut Playback, steps: usize, idx: usize, f: Frame)
    requires
        old(p).wf(),
        old(p).frames().len() > 0,
        call_ensures(Playback::advance, (p, steps), idx),
        call_ensures(Playback::current, (&*final(p),), f),
    ensures
        final(p).frames() == old(p).frames(),
        old(p).index() + steps < old(p).frames().len() ==> f == old(p).frames()[old(p).index()
            + steps],
        steps == old(p).frames().len() ==> f == old(p).frames()[old(p).index() as int],
{
    let n = old(p).frames().len();
    law_playback_loops(old(p).index(), 0, 0, n);
    if old(p).index() + steps < n {
        vstd::arithmetic::div_mod::lemma_small_mod((old(p).index() + steps) as nat, n);
    }
}

} // verus!
