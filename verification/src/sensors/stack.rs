//! All sensors of the vehicle behind one interface.

use crate::flyctrl::control;
use crate::flyctrl::control::CmdState;
use crate::flyctrl::sensors_task;
use crate::flyctrl::sensors_task::{Samples, SensorFrame};
use crate::real32;
use crate::real32::Real32;
use crate::sensors::dataset::Frame;
use crate::sensors::virtual_sensors::{VirtualBaro, VirtualGps, VirtualImu, VirtualMag, VirtualRc};
use crate::vehicle::{ImuSample, PosSample, RcInput, Vec3};
use vstd::prelude::*;

verus! {

/// Which sources are healthy.
#[derive(Clone, Copy, Debug, PartialEq, Eq, Structural)]
pub struct SensorHealth {
    pub imu: bool,
    pub baro: bool,
    pub gps: bool,
    pub rc: bool,
    pub mag: bool,
}

/// The sources that play a recording.
#[derive(Clone, Copy, Debug, PartialEq, Eq, Structural)]
pub struct SensorStack {
    pub imu: VirtualImu,
    pub baro: VirtualBaro,
    pub gps: VirtualGps,
    pub rc: VirtualRc,
    pub mag: VirtualMag,
}

/// What has to be computed from a frame in floating point before it is read.
#[derive(Clone, Copy, Debug, PartialEq, Eq, Structural)]
pub struct Derived {
    /// Vertical acceleration without gravity.
    pub az: Real32,
    /// Distance north of the origin.
    pub north: Real32,
    /// Distance east of the origin.
    pub east: Real32,
    /// Mode channel as a byte.
    pub mode: u8,
}

/// The samples of a frame. A recording has all of them.
pub open spec fn samples_of(f: Frame, d: Derived) -> Samples {
    Samples {
        imu: Some(ImuSample { accel: Vec3 { z: d.az, ..f.imu_accel }, gyro: f.imu_gyro }),
        baro_alt: Some(f.baro_alt),
        gps: Some(PosSample { pos: Vec3 { x: d.north, y: d.east, z: f.gps.z.negated() } }),
        rc: RcInput {
            roll: f.rc.roll,
            pitch: f.rc.pitch,
            yaw: f.rc.yaw,
            throttle: f.rc.throttle,
            armed: false,
            mode: d.mode,
            fresh: true,
        },
    }
}

/// With virtual sensors the shared frame is complete, and its arm switch is off:
/// the ground station alone arms the vehicle.
pub proof fn law_virtual_frame_never_arms(shared: SensorFrame, f: Frame, d: Derived, cmd: CmdState)
    ensures
        ({
            let g = sensors_task::frame_of(shared, samples_of(f, d));
            &&& g.imu_ok && g.baro_ok && g.gps_ok
            &&& !g.armed
            &&& control::armed_of(g.armed, cmd) == cmd.armed
        }),
{
}

impl SensorStack {
    /// All sources.
    pub fn new() -> (s: SensorStack)
        ensures
            s == (SensorStack {
                imu: VirtualImu,
                baro: VirtualBaro,
                gps: VirtualGps,
                rc: VirtualRc,
                mag: VirtualMag,
            }),
    {
        SensorStack {
            imu: VirtualImu,
            baro: VirtualBaro,
            gps: VirtualGps,
            rc: VirtualRc,
            mag: VirtualMag,
        }
    }

    /// Acceleration and turn rate of a frame.
    pub fn read_imu(&self, f: &Frame, d: &Derived) -> (s: ImuSample)
        ensures
            s == (ImuSample { accel: Vec3 { z: d.az, ..f.imu_accel }, gyro: f.imu_gyro }),
    {
        self.imu.read(f, d.az)
    }

    /// Compass.
    pub fn read_mag(&self) -> (v: Vec3)
        ensures
            v == (Vec3 { x: Real32 { bits: 0 }, y: Real32 { bits: 0 }, z: Real32 { bits: 0 } }),
    {
        self.mag.read()
    }

    /// Barometric altitude of a frame.
    pub fn read_altitude(&self, f: &Frame) -> (a: Real32)
        ensures
            a == f.baro_alt,
    {
        self.baro.read_altitude(f)
    }

    /// Position of a frame.
    pub fn read_gps(&self, f: &Frame, d: &Derived) -> (s: Option<PosSample>)
        ensures
            s == Some(PosSample { pos: Vec3 { x: d.north, y: d.east, z: f.gps.z.negated() } }),
    {
        self.gps.read(f, d.north, d.east)
    }

    /// Receiver input of a frame.
    pub fn read_rc(&self, f: &Frame, d: &Derived) -> (r: RcInput)
        ensures
            r == (RcInput {
                roll: f.rc.roll,
                pitch: f.rc.pitch,
                yaw: f.rc.yaw,
                throttle: f.rc.throttle,
                armed: false,
                mode: d.mode,
                fresh: true,
            }),
    {
        self.rc.read(f, d.mode)
    }

    /// All samples of a frame.
    pub fn read_all(&self, f: &Frame, d: &Derived) -> (s: Samples)
        ensures
            s == samples_of(*f, *d),
    {
        Samples {
            imu: Some(self.read_imu(f, d)),
            baro_alt: Some(self.read_altitude(f)),
            gps: self.read_gps(f, d),
            rc: self.read_rc(f, d),
        }
    }

    /// Which sources are healthy: all of them.
    pub fn health(&self) -> (h: SensorHealth)
        ensures
            h == (SensorHealth { imu: true, baro: true, gps: true, rc: true, mag: true }),
    {
        SensorHealth {
            imu: self.imu.healthy(),
            baro: self.baro.healthy(),
            gps: self.gps.healthy(),
            rc: self.rc.healthy(),
            mag: self.mag.healthy(),
        }
    }
}

/// Each sample of a frame is what was recorded for that very source: sideways
/// acceleration, turn rate, altitude and sticks as they are, the position with its
/// altitude counted downwards.
pub proof fn law_samples_are_the_recording(f: Frame, d: Derived)
    ensures
        ({
            let s = samples_of(f, d);
            &&& s.imu matches Some(m) && m.accel.x == f.imu_accel.x && m.accel.y == f.imu_accel.y
                && m.accel.z == d.az && m.gyro == f.imu_gyro
            &&& s.baro_alt == Some(f.baro_alt)
            &&& s.gps matches Some(p) && p.pos.x == d.north && p.pos.y == d.east
                && p.pos.z.units() == -f.gps.z.units()
            &&& s.rc.roll == f.rc.roll && s.rc.pitch == f.rc.pitch && s.rc.yaw == f.rc.yaw
            &&& s.rc.throttle == f.rc.throttle && s.rc.mode == d.mode
            &&& s.rc.fresh && !s.rc.armed
        }),
{
    real32::law_negation(f.gps.z);
}

/// Of `read_all`: the samples are those of the single sources, all of the same frame,
/// and the receiver is fresh but never arms.
pub proof fn law_read_all(
    t: &SensorStack,
    f: &Frame,
    d: &Derived,
    s: Samples,
    imu: ImuSample,
    alt: Real32,
    gps: Option<PosSample>,
    rc: RcInput,
)
    requires
        call_ensures(SensorStack::read_all, (t, f, d), s),
        call_ensures(SensorStack::read_imu, (t, f, d), imu),
        call_ensures(SensorStack::read_altitude, (t, f), alt),
        call_ensures(SensorStack::read_gps, (t, f, d), gps),
        call_ensures(SensorStack::read_rc, (t, f, d), rc),
    ensures
        s.imu == Some(imu) && s.baro_alt == Some(alt) && s.gps == gps && s.rc == rc,
        imu.accel.x == f.imu_accel.x && imu.accel.y == f.imu_accel.y && imu.accel.z == d.az,
        imu.gyro == f.imu_gyro && alt == f.baro_alt,
        gps matches Some(p) && p.pos.x == d.north && p.pos.y == d.east && p.pos.z.units()
            == -f.gps.z.units(),
        rc.roll == f.rc.roll && rc.pitch == f.rc.pitch && rc.yaw == f.rc.yaw,
        rc.throttle == f.rc.throttle && rc.mode == d.mode && rc.fresh && !rc.armed,
{
    law_samples_are_the_recording(*f, *d);
}

} // verus!
