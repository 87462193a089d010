//! The downlink task: which messages go out in each period.

use crate::real32::Real32;
use vstd::arithmetic::div_mod;
use vstd::prelude::*;

verus! {

/// Downlink period.
pub const TELEMETRY_PERIOD_MS: u32 = 20;

/// A message to the ground station. What it reports of the vehicle's motion comes
/// from the estimate.
#[derive(Clone, Copy, Debug, PartialEq, Eq, Structural)]
pub enum Downlink {
    Heartbeat { seq: u8, mode: u16, armed: bool },
    LocalPosition { seq: u8 },
    SysStatus { seq: u8, healthy: bool },
    Attitude { seq: u8 },
    VfrHud { seq: u8, throttle: u16 },
    GlobalPosition { seq: u8 },
}

/// What is reported in a period.
#[derive(Clone, Copy, Debug, PartialEq, Eq, Structural)]
pub struct Report {
    /// Armed or not.
    pub armed: bool,
    /// Whether the health monitor sees a critical fault.
    pub critical: bool,
    /// Commanded flight mode.
    pub mode: u16,
    /// Throttle in percent.
    pub throttle: u8,
}

/// The messages of a period, in order, all with the same number.
pub open spec fn messages(seq: u8, r: Report) -> Seq<Downlink> {
    seq![
        Downlink::Heartbeat { seq, mode: r.mode, armed: r.armed },
        Downlink::LocalPosition { seq },
        Downlink::SysStatus { seq, healthy: !r.critical },
        Downlink::Attitude { seq },
        Downlink::VfrHud { seq, throttle: r.throttle as u16 },
        Downlink::GlobalPosition { seq },
    ]
}

/// A time stamp as the messages carry it: the same 32 bits, signed.
pub open spec fn stamp_of(boot_ms: u32) -> i32 {
    if boot_ms < 0x8000_0000 {
        boot_ms as i32
    } else {
        (boot_ms - 0x1_0000_0000) as i32
    }
}

/// What goes out in a period.
pub struct Period {
    /// Time stamp of the messages.
    pub time_boot_ms: i32,
    /// The messages.
    pub messages: Vec<Downlink>,
    /// Whether the log reports the first period; once more each time the message
    /// number has wrapped.
    pub first: bool,
}

/// The downlink task.
#[derive(Clone, Copy, Debug, PartialEq, Eq, Structural)]
pub struct Telemetry {
    pub seq: u8,
    pub boot_ms: u32,
}

/// The task one period on.
pub open spec fn next_period(t: Telemetry) -> Telemetry {
    Telemetry {
        seq: ((t.seq + 1) % 256) as u8,
        boot_ms: ((t.boot_ms + TELEMETRY_PERIOD_MS) % 0x1_0000_0000) as u32,
    }
}

impl Telemetry {
    /// A task that has sent nothing.
    pub fn new() -> (t: Telemetry)
        ensures
            t == (Telemetry { seq: 0, boot_ms: 0 }),
    {
        Telemetry { seq: 0, boot_ms: 0 }
    }

    /// One period.
    pub fn period(&mut self, r: &Report) -> (p: Period)
        ensures
            *final(self) == next_period(*old(self)),
            p.time_boot_ms == stamp_of(old(self).boot_ms),
            p.messages@ == messages(old(self).seq, *r),
            p.first == (final(self).seq == 1),
    {
        let seq: u8 = self.seq;
        let time_boot_ms: i32 = if self.boot_ms < 0x8000_0000 {
            self.boot_ms as i32
        } else {
            (self.boot_ms as i64 - 0x1_0000_0000i64) as i32
        };
        let mut out: Vec<Downlink> = Vec::new();
        out.push(Downlink::Heartbeat { seq, mode: r.mode, armed: r.armed });
        out.push(Downlink::LocalPosition { seq });
        out.push(Downlink::SysStatus { seq, healthy: !r.critical });
        out.push(Downlink::Attitude { seq });
        out.push(Downlink::VfrHud { seq, throttle: r.throttle as u16 });
        out.push(Downlink::GlobalPosition { seq });
        assert(out@ =~= messages(seq, *r));
        self.seq = self.seq.wrapping_add(1);
        self.boot_ms = self.boot_ms.wrapping_add(TELEMETRY_PERIOD_MS);
        Period { time_boot_ms, messages: out, first: self.seq == 1 }
    }
}

/// Flag of a vehicle whose mode number is its own.
pub const MODE_FLAG_CUSTOM: u8 = 1;

/// Flag of a vehicle in a hardware-in-the-loop run.
pub const MODE_FLAG_HIL: u8 = 32;

/// Flag of an armed vehicle.
pub const MODE_FLAG_ARMED: u8 = 128;

/// Motor commands for the simulator of a hardware-in-the-loop run.
pub struct HilActuators {
    /// Time stamp in microseconds.
    pub time_usec: u64,
    /// Outputs: the motors, then zeros.
    pub controls: Vec<Real32>,
    /// Flags of the vehicle.
    pub flags: u8,
    /// Message number.
    pub seq: u8,
}

/// Sixteen outputs of which the first four are motors.
pub open spec fn outputs(motor: Seq<Real32>) -> Seq<Real32> {
    Seq::new(
        16,
        |i: int|
            if i < 4 {
                motor[i]
            } else {
                Real32 { bits: 0 }
            },
    )
}

impl Telemetry {
    /// The motor commands that go to the simulator before a period ends.
    pub fn hil_actuators(&self, motor: &[Real32; 4], armed: bool) -> (h: HilActuators)
        ensures
            h.time_usec == 1000 * self.boot_ms,
            h.controls@ == outputs(motor@),
            h.flags == MODE_FLAG_CUSTOM + MODE_FLAG_HIL + if armed {
                MODE_FLAG_ARMED as int
            } else {
                0
            },
            h.seq == self.seq,
    {
        let mut controls: Vec<Real32> = Vec::new();
        let mut i: usize = 0;
        while i < 16
            invariant
                i <= 16,
                controls@ == outputs(motor@).take(i as int),
            decreases 16 - i,
        {
            controls.push(
                if i < 4 {
                    motor[i]
                } else {
                    Real32 { bits: 0 }
                },
            );
            i = i + 1;
            assert(controls@ =~= outputs(motor@).take(i as int));
        }
        assert(outputs(motor@).take(16) =~= outputs(motor@));
        let base: u8 = MODE_FLAG_CUSTOM + MODE_FLAG_HIL;
        HilActuators {
            time_usec: 1000 * self.boot_ms as u64,
            controls,
            flags: if armed {
                base + MODE_FLAG_ARMED
            } else {
                base
            },
            seq: self.seq,
        }
    }
}

/// The task after `n` periods.
pub open spec fn after_periods(t: Telemetry, n: nat) -> Telemetry
    decreases n,
{
    if n == 0 {
        t
    } else {
        next_period(after_periods(t, (n - 1) as nat))
    }
}

/// Message numbers rise by one and time stamps by 20 ms from period to period,
/// and wrap.
pub proof fn law_numbers_and_stamps_advance(t: Telemetry, n: nat)
    ensures
        after_periods(t, n).seq == (t.seq + n) % 256,
        after_periods(t, n).boot_ms == (t.boot_ms + 20 * n) % 0x1_0000_0000,
    decreases n,
{
    if n > 0 {
        law_numbers_and_stamps_advance(t, (n - 1) as nat);
        div_mod::lemma_add_mod_noop(t.seq + (n - 1), 1, 256);
        div_mod::lemma_add_mod_noop(t.boot_ms + 20 * (n - 1), 20, 0x1_0000_0000);
    }
}

/// The number of a message.
pub open spec fn number_of(m: Downlink) -> u8 {
    match m {
        Downlink::Heartbeat { seq, .. } => seq,
        Downlink::LocalPosition { seq } => seq,
        Downlink::SysStatus { seq, .. } => seq,
        Downlink::Attitude { seq } => seq,
        Downlink::VfrHud { seq, .. } => seq,
        Downlink::GlobalPosition { seq } => seq,
    }
}

/// A period sends six messages, each kind once and always in the same order, and all
/// of them carry the number of the period.
pub proof fn law_each_kind_goes_out_once(seq: u8, r: Report)
    ensures
        messages(seq, r).len() == 6,
        forall|i: int| 0 <= i < 6 ==> number_of(#[trigger] messages(seq, r)[i]) == seq,
        forall|i: int|
            0 <= i < 6 ==> {
                &&& #[trigger] messages(seq, r)[i] is Heartbeat <==> i == 0
                &&& messages(seq, r)[i] is LocalPosition <==> i == 1
                &&& messages(seq, r)[i] is SysStatus <==> i == 2
                &&& messages(seq, r)[i] is Attitude <==> i == 3
                &&& messages(seq, r)[i] is VfrHud <==> i == 4
                &&& messages(seq, r)[i] is GlobalPosition <==> i == 5
            },
{
}

/// The system status says healthy exactly where no fault is critical: being armed,
/// the mode and the throttle make no difference to it.
pub proof fn law_status_tells_the_health(seq: u8, r: Report, other: Report)
    ensures
        forall|i: int|
            0 <= i < messages(seq, r).len() ==> (#[trigger] messages(seq, r)[i] matches
                Downlink::SysStatus { healthy, .. } ==> (healthy <==> !r.critical)),
        r.critical == other.critical ==> messages(seq, r)[2] == messages(seq, other)[2],
        r.critical != other.critical ==> messages(seq, r)[2] != messages(seq, other)[2],
{
}

/// The heartbeat carries the whole mode and whether the vehicle is armed, whatever
/// its health and throttle are.
pub proof fn law_heartbeat_tells_mode_and_arming(seq: u8, r: Report, other: Report)
    ensures
        messages(seq, r)[0] matches Downlink::Heartbeat { mode, armed, .. } && mode == r.mode
            && armed == r.armed,
        r.mode == other.mode && r.armed == other.armed <==> messages(seq, r)[0] == messages(
            seq,
            other,
        )[0],
{
}

/// The head-up display shows the throttle as it is, armed or not; the messages on the
/// motion depend on the report in nothing.
pub proof fn law_hud_tells_the_throttle(seq: u8, r: Report, other: Report)
    ensures
        messages(seq, r)[4] matches Downlink::VfrHud { throttle, .. } && throttle == r.throttle,
        r.throttle == other.throttle <==> messages(seq, r)[4] == messages(seq, other)[4],
        messages(seq, r)[1] == messages(seq, other)[1],
        messages(seq, r)[3] == messages(seq, other)[3],
        messages(seq, r)[5] == messages(seq, other)[5],
{
}

/// A time stamp is the time since the start up to a multiple of `2^32`; for the first
/// `2^31` milliseconds it is the time itself.
pub proof fn law_stamp_is_the_time(boot_ms: u32)
    ensures
        stamp_of(boot_ms) - boot_ms == 0 || stamp_of(boot_ms) + 0x1_0000_0000 == boot_ms,
        boot_ms < 0x8000_0000 ==> stamp_of(boot_ms) == boot_ms,
        boot_ms >= 0x8000_0000 ==> stamp_of(boot_ms) < 0,
{
}

/// The simulator gets the four motors in their order, and nothing on the other
/// outputs.
pub proof fn law_outputs_are_the_motors(motor: Seq<Real32>)
    requires
        motor.len() == 4,
    ensures
        outputs(motor).len() == 16,
        outputs(motor).take(4) == motor,
        forall|i: int| 4 <= i < 16 ==> (#[trigger] outputs(motor)[i]).units() == 0,
{
    assert(outputs(motor).take(4) =~= motor);
}

/// Of `period`: the status is healthy exactly where no fault is critical, the
/// heartbeat carries the mode and the arming, the display the throttle, each whatever
/// the rest of the report is; the number and the time are those before the period, which
/// moves them on by one and by 20 ms.
pub proof fn law_period(t: &mut Telemetry, r: &Report, p: Period)
    requires
        call_ensures(Telemetry::period, (t, r), p),
    ensures
        p.messages@.len() == 6,
        forall|i: int| 0 <= i < 6 ==> number_of(#[trigger] p.messages@[i]) == old(t).seq,
        p.messages@[0] matches Downlink::Heartbeat { mode, armed, .. } && mode == r.mode && armed
            == r.armed,
        p.messages@[1] is LocalPosition,
        p.messages@[2] matches Downlink::SysStatus { healthy, .. } && healthy != r.critical,
        p.messages@[3] is Attitude,
        p.messages@[4] matches Downlink::VfrHud { throttle, .. } && throttle == r.throttle,
        p.messages@[5] is GlobalPosition,
        p.time_boot_ms == old(t).boot_ms || p.time_boot_ms + 0x1_0000_0000 == old(t).boot_ms,
        final(t).seq == (old(t).seq + 1) % 256,
        final(t).boot_ms == (old(t).boot_ms + 20) % 0x1_0000_0000,
        p.first <==> old(t).seq == 0,
{
}

/// Of `period`: two reports with the same health give the same status, and two with
/// the same mode and arming the same heartbeat.
pub proof fn law_periods_compared(
    a: &mut Telemetry,
    b: &mut Telemetry,
    r: &Report,
    s: &Report,
    p: Period,
    q: Period,
)
    requires
        *old(a) == *old(b),
        call_ensures(Telemetry::period, (a, r), p),
        call_ensures(Telemetry::period, (b, s), q),
    ensures
        r.critical == s.critical ==> p.messages@[2] == q.messages@[2],
        r.mode == s.mode && r.armed == s.armed ==> p.messages@[0] == q.messages@[0],
        r.throttle == s.throttle ==> p.messages@[4] == q.messages@[4],
{
}

/// Of `hil_actuators`: the four motors in order and zeros behind them, the time in
/// microseconds, the number of the period, and the arm flag exactly where armed.
pub proof fn law_hil_actuators(t: &Telemetry, motor: &[Real32; 4], armed: bool, h: HilActuators)
    requires
        call_ensures(Telemetry::hil_actuators, (t, motor, armed), h),
    ensures
        h.controls@.len() == 16,
        h.controls@.take(4) == motor@,
        forall|i: int| 4 <= i < 16 ==> (#[trigger] h.controls@[i]).bits == 0,
        h.time_usec == 1000 * t.boot_ms,
        h.seq == t.seq,
        h.flags >= 128 <==> armed,
        h.flags % 128 == 1 + 32,
{
    law_outputs_are_the_motors(motor@);
}

} // verus!
