//! Virtual sensors: they turn a recorded frame into the samples that real sensors
//! would deliver.

use crate::real32::Real32;
use crate::sensors::dataset::Frame;
use crate::vehicle::{ImuSample, PosSample, RcInput, Vec3};
use vstd::prelude::*;

verus! {

/// A virtual inertial sensor.
#[derive(Clone, Copy, Debug, PartialEq, Eq, Structural)]
pub struct VirtualImu;

impl VirtualImu {
    /// Always there.
    pub fn new() -> (s: Option<VirtualImu>)
        ensures
            s == Some(VirtualImu),
    {
        Some(VirtualImu)
    }

    /// The sample of a frame. `az` is the recorded vertical acceleration without
    /// gravity.
    pub fn read(&self, f: &Frame, az: Real32) -> (s: ImuSample)
        ensures
            s == (ImuSample { accel: Vec3 { z: az, ..f.imu_accel }, gyro: f.imu_gyro }),
    {
        ImuSample { accel: Vec3 { x: f.imu_accel.x, y: f.imu_accel.y, z: az }, gyro: f.imu_gyro }
    }

    /// Always healthy.
    pub fn healthy(&self) -> (h: bool)
        ensures
            h,
    {
        true
    }
}

/// A virtual barometer.
#[derive(Clone, Copy, Debug, PartialEq, Eq, Structural)]
pub struct VirtualBaro;

impl VirtualBaro {
    /// Always there.
    pub fn new() -> (s: Option<VirtualBaro>)
        ensures
            s == Some(VirtualBaro),
    {
        Some(VirtualBaro)
    }

    /// The altitude of a frame.
    pub fn read_altitude(&self, f: &Frame) -> (a: Real32)
        ensures
            a == f.baro_alt,
    {
        f.baro_alt
    }

    /// Always healthy.
    pub fn healthy(&self) -> (h: bool)
        ensures
            h,
    {
        true
    }
}

/// A virtual satellite receiver.
#[derive(Clone, Copy, Debug, PartialEq, Eq, Structural)]
pub struct VirtualGps;

impl VirtualGps {
    /// Always there.
    pub fn new() -> (s: Option<VirtualGps>)
        ensures
            s == Some(VirtualGps),
    {
        Some(VirtualGps)
    }

    /// The position of a frame. `north` and `east` are its distances from the
    /// origin in metres; down is the recorded altitude with the other sign.
    pub fn read(&self, f: &Frame, north: Real32, east: Real32) -> (s: Option<PosSample>)
        ensures
            s == Some(PosSample { pos: Vec3 { x: north, y: east, z: f.gps.z.negated() } }),
    {
        Some(PosSample { pos: Vec3 { x: north, y: east, z: f.gps.z.neg() } })
    }

    /// Always healthy.
    pub fn healthy(&self) -> (h: bool)
        ensures
            h,
    {
        true
    }
}

/// A virtual receiver.
#[derive(Clone, Copy, Debug, PartialEq, Eq, Structural)]
pub struct VirtualRc;

impl VirtualRc {
    /// Always there.
    pub fn new() -> (s: Option<VirtualRc>)
        ensures
            s == Some(VirtualRc),
    {
        Some(VirtualRc)
    }

    /// The input of a frame; `mode` is its mode channel as a byte. A virtual
    /// receiver never arms, so that the ground station alone decides.
    pub fn read(&self, f: &Frame, mode: u8) -> (r: RcInput)
        ensures
            r == (RcInput {
                roll: f.rc.roll,
                pitch: f.rc.pitch,
                yaw: f.rc.yaw,
                throttle: f.rc.throttle,
                armed: false,
                mode,
                fresh: true,
            }),
    {
        RcInput {
            throttle: f.rc.throttle,
            roll: f.rc.roll,
            pitch: f.rc.pitch,
            yaw: f.rc.yaw,
            armed: false,
            mode,
            fresh: true,
        }
    }

    /// Always healthy.
    pub fn healthy(&self) -> (h: bool)
        ensures
            h,
    {
        true
    }
}

/// A virtual compass. Recordings hold no compass channel.
#[derive(Clone, Copy, Debug, PartialEq, Eq, Structural)]
pub struct VirtualMag;

impl VirtualMag {
    /// Always there.
    pub fn new() -> (s: Option<VirtualMag>)
        ensures
            s == Some(VirtualMag),
    {
        Some(VirtualMag)
    }

    /// Zero on all axes.
    pub fn read(&self) -> (v: Vec3)
        ensures
            v == (Vec3 { x: Real32 { bits: 0 }, y: Real32 { bits: 0 }, z: Real32 { bits: 0 } }),
    {
        let zero = Real32 { bits: 0 };
        Vec3 { x: zero, y: zero, z: zero }
    }

    /// Always healthy.
    pub fn healthy(&self) -> (h: bool)
        ensures
            h,
    {
        true
    }
}

} // verus!
