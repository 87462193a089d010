//! What the control task decides in each cycle.
//!
//! A cycle takes the latest sensor frame and what the ground station commands,
//! runs the estimator and the control law, and puts out motor commands. The
//! estimator and the control law work on floating-point numbers; what is decided
//! around them stands here.

use crate::real32::Real32;
use crate::text;
use vstd::prelude::*;

verus! {

/// What the ground station has commanded.
#[derive(Clone, Copy, Debug, PartialEq, Eq, Structural)]
pub struct CmdState {
    /// Arm request; the vehicle is armed if either this or the receiver says so.
    pub armed: bool,
    /// Flight mode, in the numbering that the heartbeat reports.
    pub mode: u16,
}

/// Sets the arm request.
pub fn set_cmd_armed(cmd: &mut CmdState, arm: bool)
    ensures
        *final(cmd) == (CmdState { armed: arm, ..*old(cmd) }),
{
    cmd.armed = arm;
}

/// Sets the flight mode.
pub fn set_cmd_mode(cmd: &mut CmdState, mode: u16)
    ensures
        *final(cmd) == (CmdState { mode, ..*old(cmd) }),
{
    cmd.mode = mode;
}

/// Control period.
pub const CONTROL_PERIOD_MS: u32 = 4;

/// Output frequency of the motor channels.
pub const PWM_FREQ_HZ: u32 = 400;

/// Motor channels.
pub const MOTORS: usize = 4;

/// Largest gap between two injected frames of one session of a hardware-in-the-loop
/// run, in ticks of 10 ms. After a longer gap a new session begins.
pub const HIL_SESSION_GAP_TICKS: u32 = 50;

/// Cycles between two lines on the estimate in the log.
pub const ESTIMATE_LOG_CYCLES: u32 = 25;

/// Cycles between two signs of life in the log.
pub const HEARTBEAT_LOG_CYCLES: u32 = 250;

/// Mode in which the vehicle keeps its altitude.
pub const COPTER_MODE_ALT_HOLD: u16 = 2;

/// Mode in which the vehicle returns to its start.
pub const COPTER_MODE_RTL: u16 = 6;

/// Mode in which the vehicle descends.
pub const COPTER_MODE_LAND: u16 = 9;

/// Armed: the receiver or the ground station says so.
pub open spec fn armed_of(receiver: bool, cmd: CmdState) -> bool {
    receiver || cmd.armed
}

/// A channel of 1000 to 2000 microseconds in thousandths of its travel, not past
/// the ends.
pub open spec fn per_mille(pwm: u16) -> u16 {
    if pwm < 1000 {
        0
    } else if pwm > 2000 {
        1000
    } else {
        (pwm - 1000) as u16
    }
}

/// Stick positions from the ground station, in thousandths.
#[derive(Clone, Copy, Debug, PartialEq, Eq, Structural)]
pub struct OverrideInput {
    pub roll: u16,
    pub pitch: u16,
    pub throttle: u16,
    pub yaw: u16,
    pub armed: bool,
}

/// The input that eight channels stand for: roll, pitch, throttle, yaw.
pub open spec fn override_of(ch: Seq<u16>) -> OverrideInput {
    OverrideInput {
        roll: per_mille(ch[0]),
        pitch: per_mille(ch[1]),
        throttle: per_mille(ch[2]),
        yaw: per_mille(ch[3]),
        armed: ch[0] > 1500,
    }
}

/// Where the sticks come from in this cycle.
#[derive(Clone, Copy, Debug, PartialEq, Eq, Structural)]
pub enum RcChoice {
    /// From the receiver.
    Receiver,
    /// From the ground station; mode from the receiver, and always fresh.
    Override(OverrideInput),
}

/// What the vehicle aims for in this cycle.
#[derive(Clone, Copy, Debug, PartialEq, Eq, Structural)]
pub enum Target {
    /// Keep the reference altitude, moved by the throttle stick.
    Hold,
    /// Descend from the present altitude.
    Land,
    /// Follow the setpoint that a simulator injects.
    Injected,
    /// Stay at the present altitude until a simulator is connected.
    Stay,
}

/// What a cycle works with.
#[derive(Clone, Copy, Debug, PartialEq, Eq, Structural)]
pub struct CyclePlan {
    pub armed: bool,
    pub rc: RcChoice,
    pub target: Target,
}

/// The plan of a cycle.
pub open spec fn plan_of(receiver_armed: bool, cmd: CmdState, ch: Seq<u16>, valid: bool) -> CyclePlan {
    CyclePlan {
        armed: armed_of(receiver_armed, cmd),
        rc: if valid {
            RcChoice::Override(override_of(ch))
        } else {
            RcChoice::Receiver
        },
        target: if cmd.mode == COPTER_MODE_LAND {
            Target::Land
        } else {
            Target::Hold
        },
    }
}

/// A channel in thousandths of its travel.
pub fn norm(pwm: u16) -> (v: u16)
    ensures
        v == per_mille(pwm),
        v <= 1000,
{
    if pwm < 1000 {
        0
    } else if pwm > 2000 {
        1000
    } else {
        pwm - 1000
    }
}

/// Plans a cycle: `ch` and `valid` are the override of the receiver channels.
pub fn plan_cycle(receiver_armed: bool, cmd: CmdState, ch: &[u16; 8], valid: bool) -> (p: CyclePlan)
    ensures
        p == plan_of(receiver_armed, cmd, ch@, valid),
{
    let rc = if valid {
        RcChoice::Override(
            OverrideInput {
                roll: norm(ch[0]),
                pitch: norm(ch[1]),
                throttle: norm(ch[2]),
                yaw: norm(ch[3]),
                armed: ch[0] > 1500,
            },
        )
    } else {
        RcChoice::Receiver
    };
    CyclePlan {
        armed: receiver_armed || cmd.armed,
        rc,
        target: if cmd.mode == COPTER_MODE_LAND {
            Target::Land
        } else {
            Target::Hold
        },
    }
}

/// What the vehicle aims for in a cycle of a hardware-in-the-loop run: the injected
/// setpoint where there is one. Only an injected setpoint counts as valid.
pub fn hil_target(injected: bool) -> (r: (Target, bool))
    ensures
        r == if injected {
            (Target::Injected, true)
        } else {
            (Target::Stay, false)
        },
{
    if injected {
        (Target::Injected, true)
    } else {
        (Target::Stay, false)
    }
}

/// The reference altitude.
#[derive(Clone, Copy, Debug, PartialEq, Eq, Structural)]
pub struct AltHold {
    /// Whether the altitude was taken since arming.
    pub locked: bool,
    /// Reference altitude.
    pub alt: Real32,
}

/// The reference after a cycle that ended at altitude `z`: it is taken in the
/// first armed cycle and kept until the next arming.
pub open spec fn alt_step(a: AltHold, armed: bool, z: Real32) -> AltHold {
    AltHold {
        locked: armed,
        alt: if armed && !a.locked {
            z
        } else {
            a.alt
        },
    }
}

/// What is logged after a cycle.
#[derive(Clone, Copy, Debug, PartialEq, Eq, Structural)]
pub struct CycleLog {
    /// Number of cycles so far, wrapping.
    pub seq: u32,
    /// The first cycle is over.
    pub first: bool,
    /// Time for a line on the estimate.
    pub estimate: bool,
    /// Time for a sign of life.
    pub heartbeat: bool,
}

/// What the control task keeps from cycle to cycle.
#[derive(Clone, Copy, Debug, PartialEq, Eq, Structural)]
pub struct ControlState {
    pub hold: AltHold,
    pub seq: u32,
    pub first: bool,
}

/// The state at the start.
pub open spec fn start_state() -> ControlState {
    ControlState {
        hold: AltHold { locked: false, alt: Real32 { bits: 0 } },
        seq: 0,
        first: true,
    }
}

/// Whether the gap between two ticks makes a new session.
pub open spec fn new_session(before: u32, after: u32) -> bool {
    (after - before) % 0x1_0000_0000 > HIL_SESSION_GAP_TICKS
}

impl ControlState {
    /// The state at the start.
    pub fn new() -> (s: ControlState)
        ensures
            s == start_state(),
    {
        ControlState {
            hold: AltHold { locked: false, alt: Real32 { bits: 0 } },
            seq: 0,
            first: true,
        }
    }

    /// Ends a cycle that was armed or not and ended at altitude `z`.
    pub fn end_cycle(&mut self, armed: bool, z: Real32) -> (log: CycleLog)
        ensures
            final(self).hold == alt_step(old(self).hold, armed, z),
            final(self).seq == (old(self).seq + 1) % 0x1_0000_0000,
            !final(self).first,
            log == (CycleLog {
                seq: final(self).seq,
                first: old(self).first,
                estimate: final(self).seq % ESTIMATE_LOG_CYCLES == 0,
                heartbeat: final(self).seq % HEARTBEAT_LOG_CYCLES == 0,
            }),
    {
        if armed && !self.hold.locked {
            self.hold.alt = z;
            self.hold.locked = true;
        } else if !armed {
            self.hold.locked = false;
        }
        self.seq = self.seq.wrapping_add(1);
        let first: bool = self.first;
        self.first = false;
        CycleLog {
            seq: self.seq,
            first,
            estimate: self.seq % ESTIMATE_LOG_CYCLES == 0,
            heartbeat: self.seq % HEARTBEAT_LOG_CYCLES == 0,
        }
    }

    /// After waiting for an injected frame: says whether it starts a new session,
    /// and forgets the reference altitude where it does.
    pub fn resume(&mut self, before: u32, after: u32) -> (restarted: bool)
        ensures
            restarted == new_session(before, after),
            final(self).seq == old(self).seq,
            final(self).first == old(self).first,
            final(self).hold == if restarted {
                start_state().hold
            } else {
                old(self).hold
            },
    {
        let gap: u32 = after.wrapping_sub(before);
        if gap > HIL_SESSION_GAP_TICKS {
            self.hold = AltHold { locked: false, alt: Real32 { bits: 0 } };
            true
        } else {
            false
        }
    }
}

/// The name of a motor channel's device.
pub open spec fn motor_device(n: u8) -> Seq<char> {
    if n == 0 {
        "pwm0\0"@
    } else if n == 1 {
        "pwm1\0"@
    } else if n == 2 {
        "pwm2\0"@
    } else if n == 3 {
        "pwm3\0"@
    } else {
        "\0"@
    }
}

/// The zero-terminated name of a motor channel's device; empty for a channel that
/// does not exist.
pub fn make_name(n: u8) -> (s: &'static [u8])
    ensures
        s@ == text::utf8(motor_device(n)),
{
    let name: &'static str = match n {
        0 => "pwm0\0",
        1 => "pwm1\0",
        2 => "pwm2\0",
        3 => "pwm3\0",
        _ => "\0",
    };
    name.as_bytes()
}

/// The altitudes of a run of cycles that were all armed.
pub open spec fn after_armed(a: AltHold, zs: Seq<Real32>) -> AltHold
    decreases zs.len(),
{
    if zs.len() == 0 {
        a
    } else {
        alt_step(after_armed(a, zs.drop_last()), true, zs.last())
    }
}

/// Arming takes the altitude of the first armed cycle as reference, and it does
/// not move for as long as the vehicle stays armed.
pub proof fn law_reference_stays_while_armed(a: AltHold, zs: Seq<Real32>)
    requires
        !a.locked,
        zs.len() > 0,
    ensures
        after_armed(a, zs) == (AltHold { locked: true, alt: zs[0] }),
    decreases zs.len(),
{
    if zs.len() > 1 {
        law_reference_stays_while_armed(a, zs.drop_last());
    } else {
        assert(zs.drop_last() =~= Seq::<Real32>::empty());
        assert(after_armed(a, zs.drop_last()) == a);
    }
}

/// Disarming leaves the reference and makes the next arming take a new one.
pub proof fn law_disarming_unlocks(a: AltHold, z: Real32, next: Real32)
    ensures
        alt_step(a, false, z) == (AltHold { locked: false, alt: a.alt }),
        alt_step(alt_step(a, false, z), true, next) == (AltHold { locked: true, alt: next }),
{
}

/// Where the receiver does not arm, the ground station alone decides; where the
/// ground station arms, the receiver cannot prevent it.
pub proof fn law_ground_station_decides(cmd: CmdState, ch: Seq<u16>, valid: bool)
    ensures
        plan_of(false, cmd, ch, valid).armed == cmd.armed,
        cmd.armed ==> plan_of(true, cmd, ch, valid).armed,
{
}

/// While an override is valid, the sticks are its first four channels, in the order
/// roll, pitch, throttle, yaw: each is as far above 1000 as its channel, at most
/// 1000 and not below zero. The arm switch is the first channel past its middle.
pub proof fn law_override_moves_the_sticks(receiver_armed: bool, cmd: CmdState, ch: Seq<u16>)
    requires
        ch.len() == 8,
    ensures
        plan_of(receiver_armed, cmd, ch, true).rc matches RcChoice::Override(o) && {
            &&& o.roll <= 1000 && o.pitch <= 1000 && o.throttle <= 1000 && o.yaw <= 1000
            &&& 1000 <= ch[0] <= 2000 ==> o.roll + 1000 == ch[0]
            &&& 1000 <= ch[1] <= 2000 ==> o.pitch + 1000 == ch[1]
            &&& 1000 <= ch[2] <= 2000 ==> o.throttle + 1000 == ch[2]
            &&& 1000 <= ch[3] <= 2000 ==> o.yaw + 1000 == ch[3]
            &&& ch[0] < 1000 ==> o.roll == 0
            &&& ch[1] < 1000 ==> o.pitch == 0
            &&& ch[2] < 1000 ==> o.throttle == 0
            &&& ch[3] < 1000 ==> o.yaw == 0
            &&& ch[0] > 2000 ==> o.roll == 1000
            &&& ch[1] > 2000 ==> o.pitch == 1000
            &&& ch[2] > 2000 ==> o.throttle == 1000
            &&& ch[3] > 2000 ==> o.yaw == 1000
            &&& o.armed <==> ch[0] > 1500
        },
{
}

/// The last four channels of an override make no difference, and without a valid
/// override no channel does: the sticks are then the receiver's.
pub proof fn law_other_channels_do_not_count(
    receiver_armed: bool,
    cmd: CmdState,
    a: Seq<u16>,
    b: Seq<u16>,
)
    requires
        a.len() == 8,
        b.len() == 8,
    ensures
        a.take(4) == b.take(4) ==> plan_of(receiver_armed, cmd, a, true) == plan_of(
            receiver_armed,
            cmd,
            b,
            true,
        ),
        plan_of(receiver_armed, cmd, a, false) == plan_of(receiver_armed, cmd, b, false),
        plan_of(receiver_armed, cmd, a, false).rc == RcChoice::Receiver,
{
    if a.take(4) == b.take(4) {
        assert(a.take(4)[0] == a[0] && a.take(4)[1] == a[1] && a.take(4)[2] == a[2] && a.take(
            4,
        )[3] == a[3]);
        assert(b.take(4)[0] == b[0] && b.take(4)[1] == b[1] && b.take(4)[2] == b[2] && b.take(
            4,
        )[3] == b[3]);
    }
}

/// Moving one channel of an override moves its stick and no other.
pub proof fn law_channels_move_one_stick_each(
    receiver_armed: bool,
    cmd: CmdState,
    ch: Seq<u16>,
    v: u16,
)
    requires
        ch.len() == 8,
    ensures
        plan_of(receiver_armed, cmd, ch, true).rc matches RcChoice::Override(o) && {
            &&& plan_of(receiver_armed, cmd, ch.update(0, v), true).rc matches RcChoice::Override(p)
                && p == (OverrideInput { roll: p.roll, armed: p.armed, ..o })
            &&& plan_of(receiver_armed, cmd, ch.update(1, v), true).rc matches RcChoice::Override(p)
                && p == (OverrideInput { pitch: p.pitch, ..o })
            &&& plan_of(receiver_armed, cmd, ch.update(2, v), true).rc matches RcChoice::Override(p)
                && p == (OverrideInput { throttle: p.throttle, ..o })
            &&& plan_of(receiver_armed, cmd, ch.update(3, v), true).rc matches RcChoice::Override(p)
                && p == (OverrideInput { yaw: p.yaw, ..o })
        },
{
}

/// Each part of a plan has its own cause. The vehicle is armed where the receiver or
/// the ground station says so, whatever the mode and the channels are; it descends in
/// mode 9 and keeps its altitude in every other, whatever the rest is; and neither
/// the mode nor arming touches the sticks.
pub proof fn law_plan_parts_are_independent(
    receiver_armed: bool,
    cmd: CmdState,
    ch: Seq<u16>,
    valid: bool,
    other: CmdState,
    other_armed: bool,
)
    ensures
        plan_of(receiver_armed, cmd, ch, valid).armed <==> (receiver_armed || cmd.armed),
        plan_of(receiver_armed, cmd, ch, valid).target == Target::Land <==> cmd.mode == 9,
        plan_of(receiver_armed, cmd, ch, valid).target == Target::Hold <==> cmd.mode != 9,
        plan_of(receiver_armed, cmd, ch, valid).rc == plan_of(other_armed, other, ch, valid).rc,
{
}

/// A frame that comes `gap` ticks after the last one starts a new session exactly
/// where the gap is over half a second, also where the tick counter wraps.
pub proof fn law_session_ends_after_half_a_second(before: u32, gap: u32)
    ensures
        new_session(before, ((before + gap) % 0x1_0000_0000) as u32) <==> 10 * gap > 500,
{
}

/// At the start, and in a new session, the next arming takes a new reference
/// altitude.
pub proof fn law_start_takes_a_new_reference(z: Real32)
    ensures
        !start_state().hold.locked,
        start_state().seq == 0 && start_state().first,
        alt_step(start_state().hold, true, z) == (AltHold { locked: true, alt: z }),
{
}

/// Of `plan_cycle`: a valid override whose first four channels lie between 1000 and
/// 2000 gives the sticks that far above 1000; without one the receiver has them; the
/// vehicle is armed where either side says so, and it lands in mode 9 alone.
pub proof fn law_plan_cycle(
    receiver_armed: bool,
    cmd: CmdState,
    ch: &[u16; 8],
    valid: bool,
    p: CyclePlan,
)
    requires
        call_ensures(plan_cycle, (receiver_armed, cmd, ch, valid), p),
    ensures
        p.armed <==> receiver_armed || cmd.armed,
        p.target == if cmd.mode == 9 {
            Target::Land
        } else {
            Target::Hold
        },
        !valid ==> p.rc == RcChoice::Receiver,
        valid ==> (p.rc matches RcChoice::Override(o) && {
            &&& 1000 <= ch@[0] <= 2000 ==> o.roll == ch@[0] - 1000
            &&& 1000 <= ch@[1] <= 2000 ==> o.pitch == ch@[1] - 1000
            &&& 1000 <= ch@[2] <= 2000 ==> o.throttle == ch@[2] - 1000
            &&& 1000 <= ch@[3] <= 2000 ==> o.yaw == ch@[3] - 1000
        }),
{
    law_override_moves_the_sticks(receiver_armed, cmd, ch@);
}

/// Of `plan_cycle`: two overrides that agree in their first four channels give the
/// same plan.
pub proof fn law_plan_cycle_reads_four_channels(
    receiver_armed: bool,
    cmd: CmdState,
    a: &[u16; 8],
    b: &[u16; 8],
    p: CyclePlan,
    q: CyclePlan,
)
    requires
        call_ensures(plan_cycle, (receiver_armed, cmd, a, true), p),
        call_ensures(plan_cycle, (receiver_armed, cmd, b, true), q),
        a@[0] == b@[0] && a@[1] == b@[1] && a@[2] == b@[2] && a@[3] == b@[3],
    ensures
        p == q,
{
}

/// Of `end_cycle`: the first armed cycle takes the altitude at which it ended as
/// reference, no later one moves it, and a disarmed one only unlocks it. Cycles are
/// counted; a line on the estimate is due every 25, a sign of life every 250, and the
/// first cycle is reported once.
pub proof fn law_end_cycle(s: &mut ControlState, armed: bool, z: Real32, log: CycleLog)
    requires
        call_ensures(ControlState::end_cycle, (s, armed, z), log),
    ensures
        final(s).hold.locked <==> armed,
        armed && !old(s).hold.locked ==> final(s).hold.alt == z,
        !armed || old(s).hold.locked ==> final(s).hold.alt == old(s).hold.alt,
        old(s).seq < 0xFFFF_FFFF ==> final(s).seq == old(s).seq + 1,
        old(s).seq == 0xFFFF_FFFF ==> final(s).seq == 0,
        log.seq == final(s).seq,
        log.first <==> old(s).first,
        !final(s).first,
        log.estimate <==> final(s).seq % 25 == 0,
        log.heartbeat <==> final(s).seq % 250 == 0,
{
}

/// Of `resume`: a gap of more than half a second, and no other, makes a new session,
/// in which the next armed cycle takes a new reference; the count of cycles goes on.
pub proof fn law_resume(s: &mut ControlState, before: u32, gap: u32, restarted: bool)
    requires
        call_ensures(
            ControlState::resume,
            (s, before, ((before + gap) % 0x1_0000_0000) as u32),
            restarted,
        ),
    ensures
        restarted <==> gap > 50,
        restarted ==> !final(s).hold.locked && final(s).hold.alt.units() == 0,
        !restarted ==> final(s).hold == old(s).hold,
        final(s).seq == old(s).seq && final(s).first == old(s).first,
{
    law_session_ends_after_half_a_second(before, gap);
}

/// Of `hil_target`: an injected setpoint is followed, and counts as valid; without one
/// the vehicle stays where it is.
pub proof fn law_hil_target(injected: bool, r: (Target, bool))
    requires
        call_ensures(hil_target, (injected,), r),
    ensures
        r.1 <==> injected,
        r.0 == Target::Injected <==> injected,
        r.0 == Target::Stay <==> !injected,
{
}

/// Of the two setters: each sets its part of what has been commanded and leaves the
/// other.
pub proof fn law_setters_keep_the_other_part(
    a: &mut CmdState,
    arm: bool,
    b: &mut CmdState,
    mode: u16,
)
    requires
        call_ensures(set_cmd_armed, (a, arm), ()),
        call_ensures(set_cmd_mode, (b, mode), ()),
    ensures
        final(a).armed == arm && final(a).mode == old(a).mode,
        final(b).mode == mode && final(b).armed == old(b).armed,
{
}

} // verus!
