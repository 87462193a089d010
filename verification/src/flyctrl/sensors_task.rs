//! The sampling task: the latest sensor frame, and when it is written.

use crate::real32::Real32;
use crate::vehicle;
use crate::vehicle::{ImuSample, PosSample, RcInput};
use vstd::prelude::*;

verus! {

/// Sampling period.
pub const SAMPLE_PERIOD_MS: u32 = 2;

/// Samples between two signs of life in the log.
pub const HEARTBEAT_SAMPLES: u32 = 500;

/// The latest samples. A source that is missing leaves no value.
#[derive(Clone, Copy, Debug, PartialEq, Eq, Structural)]
pub struct SensorFrame {
    pub imu: Option<ImuSample>,
    pub rc: RcInput,
    pub gps: Option<PosSample>,
    pub baro_alt: Option<Real32>,
    pub imu_ok: bool,
    pub gps_ok: bool,
    pub baro_ok: bool,
    pub mag_ok: bool,
    pub armed: bool,
}

/// A frame without samples.
pub open spec fn empty_frame() -> SensorFrame {
    SensorFrame {
        imu: None,
        rc: vehicle::no_input(),
        gps: None,
        baro_alt: None,
        imu_ok: false,
        gps_ok: false,
        baro_ok: false,
        mag_ok: false,
        armed: false,
    }
}

impl SensorFrame {
    /// A frame without samples.
    pub fn empty() -> (f: SensorFrame)
        ensures
            f == empty_frame(),
    {
        SensorFrame {
            imu: None,
            rc: RcInput::none(),
            gps: None,
            baro_alt: None,
            imu_ok: false,
            gps_ok: false,
            baro_ok: false,
            mag_ok: false,
            armed: false,
        }
    }
}

/// One set of samples.
#[derive(Clone, Copy, Debug, PartialEq, Eq, Structural)]
pub struct Samples {
    pub imu: Option<ImuSample>,
    pub baro_alt: Option<Real32>,
    pub gps: Option<PosSample>,
    pub rc: RcInput,
}

/// A frame after samples were written to it: each flag says whether its source
/// delivered, the arm switch is the receiver's, and the compass flag stays.
pub open spec fn frame_of(f: SensorFrame, s: Samples) -> SensorFrame {
    SensorFrame {
        imu: s.imu,
        rc: s.rc,
        gps: s.gps,
        baro_alt: s.baro_alt,
        imu_ok: s.imu is Some,
        gps_ok: s.gps is Some,
        baro_ok: s.baro_alt is Some,
        mag_ok: f.mag_ok,
        armed: s.rc.armed,
    }
}

/// The shared frame with its write counter. The counter is odd while a write is
/// under way.
#[derive(Clone, Copy, Debug, PartialEq, Eq, Structural)]
pub struct SharedFrame {
    pub frame: SensorFrame,
    pub seq: u32,
}

/// The counter one step on.
pub open spec fn counted(seq: u32) -> u32 {
    ((seq + 1) % 0x1_0000_0000) as u32
}

impl SharedFrame {
    /// A frame without samples; no write under way.
    pub fn new() -> (s: SharedFrame)
        ensures
            s == (SharedFrame { frame: empty_frame(), seq: 0 }),
    {
        SharedFrame { frame: SensorFrame::empty(), seq: 0 }
    }

    /// Starts a write.
    pub fn begin_write(&mut self)
        ensures
            *final(self) == (SharedFrame { seq: counted(old(self).seq), ..*old(self) }),
    {
        self.seq = self.seq.wrapping_add(1);
    }

    /// Writes samples.
    pub fn write(&mut self, s: &Samples)
        ensures
            *final(self) == (SharedFrame { frame: frame_of(old(self).frame, *s), ..*old(self) }),
    {
        self.frame.imu = s.imu;
        self.frame.baro_alt = s.baro_alt;
        self.frame.gps = s.gps;
        self.frame.rc = s.rc;
        self.frame.armed = s.rc.armed;
        self.frame.imu_ok = s.imu.is_some();
        self.frame.baro_ok = s.baro_alt.is_some();
        self.frame.gps_ok = s.gps.is_some();
    }

    /// Ends a write.
    pub fn end_write(&mut self)
        ensures
            *final(self) == (SharedFrame { seq: counted(old(self).seq), ..*old(self) }),
    {
        self.seq = self.seq.wrapping_add(1);
    }

    /// Reads the frame for a control cycle. In a hardware-in-the-loop run an
    /// inertial sample is used only once.
    pub fn take(&mut self, once: bool) -> (f: SensorFrame)
        ensures
            f == old(self).frame,
            *final(self) == if once {
                SharedFrame {
                    frame: SensorFrame { imu: None, ..old(self).frame },
                    ..*old(self)
                }
            } else {
                *old(self)
            },
    {
        let f = self.frame;
        if once {
            self.frame.imu = None;
        }
        f
    }
}

/// What is logged after a sample.
#[derive(Clone, Copy, Debug, PartialEq, Eq, Structural)]
pub struct SampleLog {
    /// Samples so far, wrapping.
    pub count: u32,
    /// The first sample is done.
    pub first: bool,
    /// Time for a sign of life.
    pub heartbeat: bool,
}

/// The sampling task.
#[derive(Clone, Copy, Debug, PartialEq, Eq, Structural)]
pub struct Sensors {
    pub count: u32,
    pub first: bool,
}

impl Sensors {
    /// A task that has taken no sample; the name of the node makes no difference.
    pub fn new(_name: &[u8]) -> (s: Option<Sensors>)
        ensures
            s == Some(Sensors { count: 0, first: true }),
    {
        Some(Sensors { count: 0, first: true })
    }

    /// Writes one set of samples to the shared frame.
    pub fn sample(&mut self, shared: &mut SharedFrame, s: &Samples) -> (log: SampleLog)
        ensures
            *final(shared) == (SharedFrame {
                frame: frame_of(old(shared).frame, *s),
                seq: counted(counted(old(shared).seq)),
            }),
            *final(self) == (Sensors { count: counted(old(self).count), first: false }),
            log == (SampleLog {
                count: counted(old(self).count),
                first: old(self).first,
                heartbeat: counted(old(self).count) % HEARTBEAT_SAMPLES == 0,
            }),
    {
        shared.begin_write();
        shared.write(s);
        shared.end_write();
        let first: bool = self.first;
        self.first = false;
        self.count = self.count.wrapping_add(1);
        SampleLog { count: self.count, first, heartbeat: self.count % HEARTBEAT_SAMPLES == 0 }
    }
}

/// While a write is under way the counter is odd, and after it the counter is
/// even again, also where it wraps.
pub proof fn law_counter_is_odd_during_a_write(seq: u32)
    requires
        seq % 2 == 0,
    ensures
        counted(seq) % 2 == 1,
        counted(counted(seq)) % 2 == 0,
{
}

/// After samples were written, each flag is set exactly where the frame holds a value
/// of that very source, for every mix of present and missing sources.
pub proof fn law_flags_follow_their_sources(f: SensorFrame, s: Samples)
    ensures
        ({
            let g = frame_of(f, s);
            &&& g.imu_ok <==> g.imu is Some
            &&& g.gps_ok <==> g.gps is Some
            &&& g.baro_ok <==> g.baro_alt is Some
            &&& g.imu == s.imu && g.gps == s.gps && g.baro_alt == s.baro_alt && g.rc == s.rc
            &&& g.armed <==> s.rc.armed
        }),
{
}

/// What was in the frame before is gone, but for the compass flag, which a write does
/// not touch: a source that has fallen silent leaves nothing behind.
pub proof fn law_write_replaces_the_frame(f: SensorFrame, other: SensorFrame, s: Samples)
    ensures
        f.mag_ok == other.mag_ok ==> frame_of(f, s) == frame_of(other, s),
        frame_of(f, s).mag_ok == f.mag_ok,
{
}

/// Losing one source changes its value and its flag, and nothing else.
pub proof fn law_sources_do_not_touch_each_other(f: SensorFrame, s: Samples)
    ensures
        frame_of(f, (Samples { imu: None, ..s })) == (SensorFrame {
            imu: None,
            imu_ok: false,
            ..frame_of(f, s)
        }),
        frame_of(f, (Samples { gps: None, ..s })) == (SensorFrame {
            gps: None,
            gps_ok: false,
            ..frame_of(f, s)
        }),
        frame_of(f, (Samples { baro_alt: None, ..s })) == (SensorFrame {
            baro_alt: None,
            baro_ok: false,
            ..frame_of(f, s)
        }),
{
}

/// A frame without samples has no source, is not armed and holds no fresh input.
pub proof fn law_empty_frame_has_no_source()
    ensures
        ({
            let g = empty_frame();
            &&& g.imu is None && g.gps is None && g.baro_alt is None
            &&& !g.imu_ok && !g.gps_ok && !g.baro_ok && !g.mag_ok
            &&& !g.armed && !g.rc.armed && !g.rc.fresh
        }),
{
}

/// The counters step by one and start again at zero.
pub proof fn law_counter_steps_by_one(seq: u32)
    ensures
        seq < 0xFFFF_FFFF ==> counted(seq) == seq + 1,
        counted(0xFFFF_FFFF) == 0,
{
}

/// Of `write`: what was sampled stands in the frame, and each flag is set exactly
/// where its own source delivered; the write counter and the compass flag stay.
pub proof fn law_write(f: &mut SharedFrame, s: &Samples)
    requires
        call_ensures(SharedFrame::write, (f, s), ()),
    ensures
        final(f).frame.imu == s.imu && (final(f).frame.imu_ok <==> s.imu is Some),
        final(f).frame.gps == s.gps && (final(f).frame.gps_ok <==> s.gps is Some),
        final(f).frame.baro_alt == s.baro_alt && (final(f).frame.baro_ok <==> s.baro_alt is Some),
        final(f).frame.rc == s.rc && final(f).frame.armed == s.rc.armed,
        final(f).frame.mag_ok == old(f).frame.mag_ok,
        final(f).seq == old(f).seq,
{
}

/// Of `sample`: the frame holds the samples with their flags, a reader sees the write
/// counter two further on, and every 500th sample is reported.
pub proof fn law_sample(t: &mut Sensors, f: &mut SharedFrame, s: &Samples, log: SampleLog)
    requires
        call_ensures(Sensors::sample, (t, f, s), log),
    ensures
        final(f).frame.imu == s.imu && (final(f).frame.imu_ok <==> s.imu is Some),
        final(f).frame.gps == s.gps && (final(f).frame.gps_ok <==> s.gps is Some),
        final(f).frame.baro_alt == s.baro_alt && (final(f).frame.baro_ok <==> s.baro_alt is Some),
        final(f).frame.rc == s.rc && final(f).frame.armed == s.rc.armed,
        final(f).frame.mag_ok == old(f).frame.mag_ok,
        final(f).seq == (old(f).seq + 2) % 0x1_0000_0000,
        final(t).count == (old(t).count + 1) % 0x1_0000_0000,
        log.count == final(t).count,
        log.first <==> old(t).first,
        !final(t).first,
        log.heartbeat <==> final(t).count % 500 == 0,
{
}

/// Of `take`: a reader gets the frame as it was written; taken once, the next reader
/// finds no inertial sample but everything else.
pub proof fn law_take(
    a: &mut SharedFrame,
    b: &mut SharedFrame,
    once: bool,
    f: SensorFrame,
    g: SensorFrame,
)
    requires
        call_ensures(SharedFrame::take, (a, once), f),
        *old(b) == *final(a),
        call_ensures(SharedFrame::take, (b, once), g),
    ensures
        f == old(a).frame,
        !once ==> g == f && *final(a) == *old(a),
        once ==> g.imu is None && g == (SensorFrame { imu: None, ..f }),
        final(a).seq == old(a).seq,
{
}

} // verus!
