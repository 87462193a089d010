//! Samples that sensors deliver, as plain values.

use crate::real32::Real32;
use vstd::prelude::*;

verus! {

/// Three components.
#[derive(Clone, Copy, Debug, PartialEq, Eq, Structural)]
pub struct Vec3 {
    pub x: Real32,
    pub y: Real32,
    pub z: Real32,
}

/// Acceleration in m/s^2 and turn rate in rad/s, body axes.
#[derive(Clone, Copy, Debug, PartialEq, Eq, Structural)]
pub struct ImuSample {
    pub accel: Vec3,
    pub gyro: Vec3,
}

/// A position: north, east and down in metres.
#[derive(Clone, Copy, Debug, PartialEq, Eq, Structural)]
pub struct PosSample {
    pub pos: Vec3,
}

/// Input from a receiver.
#[derive(Clone, Copy, Debug, PartialEq, Eq, Structural)]
pub struct RcInput {
    pub roll: Real32,
    pub pitch: Real32,
    pub yaw: Real32,
    pub throttle: Real32,
    pub armed: bool,
    pub mode: u8,
    pub fresh: bool,
}

/// Input with all sticks at zero, disarmed and not fresh.
pub open spec fn no_input() -> RcInput {
    RcInput {
        roll: Real32 { bits: 0 },
        pitch: Real32 { bits: 0 },
        yaw: Real32 { bits: 0 },
        throttle: Real32 { bits: 0 },
        armed: false,
        mode: 0,
        fresh: false,
    }
}

impl RcInput {
    /// Input with all sticks at zero, disarmed and not fresh.
    pub fn none() -> (r: RcInput)
        ensures
            r == no_input(),
    {
        let zero = Real32 { bits: 0 };
        RcInput {
            roll: zero,
            pitch: zero,
            yaw: zero,
            throttle: zero,
            armed: false,
            mode: 0,
            fresh: false,
        }
    }
}

} // verus!
