//! The command channel from the ground station: what each message does to the
//! vehicle's state, and what is answered.

use crate::flyctrl::control;
use crate::flyctrl::control::{
    CmdState,
    COPTER_MODE_ALT_HOLD,
    COPTER_MODE_LAND,
    COPTER_MODE_RTL,
};
use crate::flyctrl::mission;
use crate::flyctrl::mission::{MissionItem, MissionReply, MissionStore};
use crate::flyctrl::params;
use crate::flyctrl::params::{ParamTable, SetOutcome, PARAM_COUNT};
use crate::flyctrl::telemetry;
use crate::flyctrl::telemetry::{Downlink, Report};
use crate::real32;
use crate::real32::Real32;
use vstd::prelude::*;

verus! {

/// The vehicle's own system number.
pub const SYS_ID: u8 = 1;

pub const MSG_PARAM_REQUEST_READ: u32 = 20;

pub const MSG_PARAM_REQUEST_LIST: u32 = 21;

pub const MSG_PARAM_SET: u32 = 23;

pub const MSG_MISSION_REQUEST_LIST: u32 = 43;

pub const MSG_MISSION_COUNT: u32 = 44;

pub const MSG_RC_CHANNELS_OVERRIDE: u32 = 70;

pub const MSG_MISSION_ITEM_INT: u32 = 73;

pub const MSG_COMMAND_LONG: u32 = 76;

pub const CMD_NAV_RETURN_TO_LAUNCH: u16 = 20;

pub const CMD_NAV_LAND: u16 = 21;

pub const CMD_NAV_TAKEOFF: u16 = 22;

pub const CMD_DO_SET_MODE: u16 = 176;

pub const CMD_COMPONENT_ARM_DISARM: u16 = 400;

pub const CMD_REQUEST_AUTOPILOT_CAPABILITIES: u16 = 520;

pub const RESULT_ACCEPTED: u8 = 0;

pub const RESULT_DENIED: u8 = 1;

pub const RESULT_FAILED: u8 = 4;

/// Capability bit: parameters are single-precision numbers.
pub const CAPABILITY_PARAM_FLOAT: u64 = 2;

/// Capability bit: the second version of the protocol is spoken.
pub const CAPABILITY_MAVLINK2: u64 = 8192;

/// Ticks of 10 ms after which an override of the receiver channels has lapsed.
pub const OVERRIDE_TICKS: u32 = 200;

/// Polls between two signs of life in the log.
pub const ALIVE_POLLS: u32 = 1000;

/// The messages that the vehicle acts on.
#[derive(Clone, Copy, Debug, PartialEq, Eq, Structural)]
pub enum MessageKind {
    CommandLong,
    ParamRequestList,
    ParamSet,
    ParamRequestRead,
    MissionRequestList,
    MissionCount,
    MissionItemInt,
    RcChannelsOverride,
    Other,
}

/// The kind of a message, by its number.
pub open spec fn kind_of(msgid: u32) -> MessageKind {
    if msgid == MSG_COMMAND_LONG {
        MessageKind::CommandLong
    } else if msgid == MSG_PARAM_REQUEST_LIST {
        MessageKind::ParamRequestList
    } else if msgid == MSG_PARAM_SET {
        MessageKind::ParamSet
    } else if msgid == MSG_PARAM_REQUEST_READ {
        MessageKind::ParamRequestRead
    } else if msgid == MSG_MISSION_REQUEST_LIST {
        MessageKind::MissionRequestList
    } else if msgid == MSG_MISSION_COUNT {
        MessageKind::MissionCount
    } else if msgid == MSG_MISSION_ITEM_INT {
        MessageKind::MissionItemInt
    } else if msgid == MSG_RC_CHANNELS_OVERRIDE {
        MessageKind::RcChannelsOverride
    } else {
        MessageKind::Other
    }
}

/// The kind of a message, by its number.
pub fn message_kind(msgid: u32) -> (k: MessageKind)
    ensures
        k == kind_of(msgid),
{
    match msgid {
        MSG_COMMAND_LONG => MessageKind::CommandLong,
        MSG_PARAM_REQUEST_LIST => MessageKind::ParamRequestList,
        MSG_PARAM_SET => MessageKind::ParamSet,
        MSG_PARAM_REQUEST_READ => MessageKind::ParamRequestRead,
        MSG_MISSION_REQUEST_LIST => MessageKind::MissionRequestList,
        MSG_MISSION_COUNT => MessageKind::MissionCount,
        MSG_MISSION_ITEM_INT => MessageKind::MissionItemInt,
        MSG_RC_CHANNELS_OVERRIDE => MessageKind::RcChannelsOverride,
        _ => MessageKind::Other,
    }
}

/// A command with its parameters.
#[derive(Clone, Copy, Debug)]
pub struct CommandLong {
    pub target_system: u8,
    pub command: u16,
    pub params: [Real32; 7],
}

/// A request to write a parameter.
#[derive(Clone, Copy, Debug)]
pub struct ParamSet {
    pub id: [u8; 16],
    pub value: Real32,
}

/// A message with its contents.
#[derive(Clone, Copy, Debug)]
pub enum Message {
    CommandLong(CommandLong),
    ParamRequestList,
    ParamSet(ParamSet),
    ParamRequestRead([u8; 16]),
    MissionRequestList,
    MissionCount(u16),
    MissionItemInt(MissionItem),
    RcChannelsOverride([u16; 8]),
    Other,
}

/// A message to the ground station.
#[derive(Clone, Copy, Debug, PartialEq, Eq, Structural)]
pub enum Reply {
    /// A command was dealt with.
    CommandAck { seq: u8, command: u16, result: u8 },
    /// A parameter's value; its name and the number of parameters go with it.
    ParamValue { seq: u8, index: u16, value: Real32 },
    /// What the vehicle can do.
    AutopilotVersion { seq: u8, capabilities: u64 },
    /// Part of a mission exchange.
    Mission(MissionReply),
}

/// The state behind the command channel.
pub ghost struct UplinkView {
    /// What has been commanded.
    pub cmd: CmdState,
    /// Parameter values.
    pub params: Seq<Real32>,
    /// While the parameters are being sent: the next one.
    pub stream: Option<u16>,
    /// Whether the capabilities have been asked for.
    pub cap_req: bool,
    /// The mission.
    pub mission: mission::MissionView,
    /// The last override of the receiver channels.
    pub rc: Seq<u16>,
    /// The tick of the last override, if there was one.
    pub rc_tick: Option<u32>,
    /// Ticks of 10 ms since the start, wrapping.
    pub ticks: u32,
    /// Number of the next message to the ground station, wrapping.
    pub seq: u8,
}

/// A state that messages and polls can lead to.
pub open spec fn uplink_ok(v: UplinkView) -> bool {
    &&& params::table_ok(v.params)
    &&& mission::mission_ok(v.mission)
    &&& v.stream matches Some(i) ==> i <= PARAM_COUNT
    &&& v.rc.len() == 8
}

/// The state at the start.
pub open spec fn start_state() -> UplinkView {
    UplinkView {
        cmd: CmdState { armed: false, mode: 0 },
        params: Seq::new(5, |i: int| params::default_of(i)),
        stream: None,
        cap_req: false,
        mission: mission::no_mission(),
        rc: Seq::new(8, |i: int| 0u16),
        rc_tick: None,
        ticks: 0,
        seq: 0,
    }
}

/// `n` messages later the message number is that much larger, and wraps.
pub open spec fn seq_plus(seq: u8, n: int) -> u8 {
    ((seq + n) % 256) as u8
}

/// A command is for this vehicle.
pub open spec fn addressed(target_system: u8) -> bool {
    target_system == 0 || target_system == SYS_ID
}

/// The mode that a command asks for, if it asks for one.
pub open spec fn mode_asked(command: u16, p2: Real32) -> Option<u16> {
    if command == CMD_DO_SET_MODE {
        Some(p2.as_u16())
    } else if command == CMD_NAV_TAKEOFF {
        Some(COPTER_MODE_ALT_HOLD)
    } else if command == CMD_NAV_LAND {
        Some(COPTER_MODE_LAND)
    } else if command == CMD_NAV_RETURN_TO_LAUNCH {
        Some(COPTER_MODE_RTL)
    } else {
        None
    }
}

/// A command for this vehicle: the state afterwards, and the result. Arming is
/// refused while the vehicle's health is critical; disarming never is.
pub open spec fn on_command(
    v: UplinkView,
    command: u16,
    p1: Real32,
    p2: Real32,
    critical: bool,
) -> (UplinkView, u8) {
    if command == CMD_COMPONENT_ARM_DISARM {
        let arm = (Real32 { bits: real32::HALF_BITS }).less(p1);
        if arm && critical {
            (v, RESULT_DENIED)
        } else {
            (UplinkView { cmd: CmdState { armed: arm, ..v.cmd }, ..v }, RESULT_ACCEPTED)
        }
    } else if mode_asked(command, p2) is Some {
        (
            UplinkView { cmd: CmdState { mode: mode_asked(command, p2)->0, ..v.cmd }, ..v },
            RESULT_ACCEPTED,
        )
    } else if command == CMD_REQUEST_AUTOPILOT_CAPABILITIES {
        (UplinkView { cap_req: true, ..v }, RESULT_ACCEPTED)
    } else {
        (v, RESULT_DENIED)
    }
}

/// The next message number is used up.
pub open spec fn numbered(v: UplinkView) -> UplinkView {
    UplinkView { seq: seq_plus(v.seq, 1), ..v }
}

/// The state after a parameter was sent, and the message.
pub open spec fn param_sent(v: UplinkView, i: int) -> (UplinkView, Seq<Reply>) {
    (
        numbered(v),
        seq![Reply::ParamValue { seq: v.seq, index: i as u16, value: v.params[i] }],
    )
}

/// A message comes in: the state afterwards, and what is answered. `critical` says
/// whether the vehicle's health is critical.
pub open spec fn on_message(v: UplinkView, m: Message, critical: bool) -> (
    UplinkView,
    Seq<Reply>,
) {
    match m {
        Message::CommandLong(c) => if addressed(c.target_system) {
            let (w, result) = on_command(v, c.command, c.params@[0], c.params@[1], critical);
            (
                numbered(w),
                seq![Reply::CommandAck { seq: v.seq, command: c.command, result }],
            )
        } else {
            (v, Seq::empty())
        },
        Message::ParamRequestList => (UplinkView { stream: Some(0), ..v }, Seq::empty()),
        Message::ParamSet(p) => {
            let (vals, outcome) = params::after_set(v.params, p.id@, p.value);
            match outcome {
                SetOutcome::Unknown => (v, Seq::empty()),
                SetOutcome::Refused => (
                    numbered(v),
                    seq![
                        Reply::CommandAck {
                            seq: v.seq,
                            command: MSG_PARAM_SET as u16,
                            result: RESULT_FAILED,
                        },
                    ],
                ),
                SetOutcome::Written(i) => param_sent(UplinkView { params: vals, ..v }, i as int),
            }
        },
        Message::ParamRequestRead(id) => if exists|i: int|
            0 <= i < PARAM_COUNT && id@ == #[trigger] params::name_of(i) {
            param_sent(
                v,
                choose|i: int| 0 <= i < PARAM_COUNT && id@ == #[trigger] params::name_of(i),
            )
        } else {
            (v, Seq::empty())
        },
        Message::MissionRequestList => (
            v,
            mission::on_request_list(v.mission).map_values(|r: MissionReply| Reply::Mission(r)),
        ),
        Message::MissionCount(count) => {
            let (w, r) = mission::on_count(v.mission, count);
            (UplinkView { mission: w, ..v }, seq![Reply::Mission(r)])
        },
        Message::MissionItemInt(item) => {
            let (w, r) = mission::on_item(v.mission, item);
            (
                UplinkView { mission: w, ..v },
                match r {
                    Some(x) => seq![Reply::Mission(x)],
                    None => Seq::empty(),
                },
            )
        },
        Message::RcChannelsOverride(ch) => (
            UplinkView { rc: ch@, rc_tick: Some(v.ticks), ..v },
            Seq::empty(),
        ),
        Message::Other => (v, Seq::empty()),
    }
}

/// The part of a poll that sends parameters: one while there are any left, and
/// then the end of the run.
pub open spec fn stream_step(v: UplinkView) -> (UplinkView, Seq<Reply>) {
    match v.stream {
        Some(i) => if i < PARAM_COUNT {
            let (w, out) = param_sent(v, i as int);
            (UplinkView { stream: Some((i + 1) as u16), ..w }, out)
        } else {
            (UplinkView { stream: None, ..v }, Seq::empty())
        },
        None => (v, Seq::empty()),
    }
}

/// The part of a poll that tells the capabilities, once they have been asked for.
pub open spec fn capability_step(v: UplinkView) -> (UplinkView, Seq<Reply>) {
    if v.cap_req {
        (
            UplinkView { cap_req: false, ..numbered(v) },
            seq![
                Reply::AutopilotVersion {
                    seq: v.seq,
                    capabilities: (CAPABILITY_MAVLINK2 + CAPABILITY_PARAM_FLOAT) as u64,
                },
            ],
        )
    } else {
        (v, Seq::empty())
    }
}

/// What follows the reading in a poll: the state afterwards, and what is sent.
pub open spec fn on_poll(v: UplinkView) -> (UplinkView, Seq<Reply>) {
    let (a, first) = stream_step(v);
    let (b, second) = capability_step(a);
    (
        UplinkView { ticks: ((b.ticks + 1) % 0x1_0000_0000) as u32, ..b },
        first + second,
    )
}

/// Whether an override holds: it came no more than two seconds ago.
pub open spec fn override_holds(v: UplinkView) -> bool {
    v.rc_tick matches Some(tick) && (v.ticks - tick) % 0x1_0000_0000 <= OVERRIDE_TICKS
}

/// Hands out the next message number.
pub fn next_seq(seq: &mut u8) -> (s: u8)
    ensures
        s == *old(seq),
        *final(seq) == seq_plus(*old(seq), 1),
{
    let s: u8 = *seq;
    *seq = seq.wrapping_add(1);
    s
}

/// What a poll sends, and whether it is time for a sign of life in the log.
pub struct PollOutcome {
    pub replies: Vec<Reply>,
    pub alive: bool,
}

/// The state behind the command channel.
pub struct Uplink {
    cmd: CmdState,
    params: ParamTable,
    param_req: bool,
    param_idx: u16,
    cap_req: bool,
    mission: MissionStore,
    rc_valid: bool,
    rc: [u16; 8],
    rc_tick: u32,
    ticks: u32,
    loops: u32,
    seq: u8,
}

impl Uplink {
    /// The state.
    pub closed spec fn view(&self) -> UplinkView {
        UplinkView {
            cmd: self.cmd,
            params: self.params@,
            stream: if self.param_req {
                Some(self.param_idx)
            } else {
                None
            },
            cap_req: self.cap_req,
            mission: self.mission@,
            rc: self.rc@,
            rc_tick: if self.rc_valid {
                Some(self.rc_tick)
            } else {
                None
            },
            ticks: self.ticks,
            seq: self.seq,
        }
    }

    /// Polls so far, wrapping.
    pub closed spec fn polls(&self) -> u32 {
        self.loops
    }

    /// The state is one that messages and polls lead to.
    pub open spec fn wf(&self) -> bool {
        uplink_ok(self@)
    }

    /// The state at the start: disarmed, mode zero, default parameters, no
    /// mission, no override.
    pub fn new() -> (u: Uplink)
        ensures
            u.wf(),
            u@ == start_state(),
            u.polls() == 0,
    {
        let rc: [u16; 8] = [0u16; 8];
        assert(rc@ =~= Seq::new(8, |i: int| 0u16));
        Uplink {
            cmd: CmdState { armed: false, mode: 0 },
            params: ParamTable::init_param_defaults(),
            param_req: false,
            param_idx: 0,
            cap_req: false,
            mission: MissionStore::new(),
            rc_valid: false,
            rc,
            rc_tick: 0,
            ticks: 0,
            loops: 0,
            seq: 0,
        }
    }

    /// What has been commanded.
    pub fn cmd(&self) -> (c: CmdState)
        ensures
            c == self@.cmd,
    {
        self.cmd
    }

    /// Ticks of 10 ms since the start.
    pub fn app_ticks(&self) -> (t: u32)
        ensures
            t == self@.ticks,
    {
        self.ticks
    }

    /// The gains for the control task.
    pub fn gains(&self) -> (g: Vec<Real32>)
        requires
            self.wf(),
        ensures
            g@ == self@.params,
    {
        params::sync_gains_to_pid(&self.params)
    }

    /// The overridden receiver channels, and whether the override holds.
    pub fn get_rc_override(&self) -> (r: ([u16; 8], bool))
        ensures
            r.0@ == self@.rc,
            r.1 == override_holds(self@),
    {
        let valid: bool = self.rc_valid && self.ticks.wrapping_sub(self.rc_tick) <= OVERRIDE_TICKS;
        (self.rc, valid)
    }

    fn ack(&mut self, command: u16, result: u8) -> (out: Vec<Reply>)
        requires
            old(self).wf(),
        ensures
            final(self).wf(),
            final(self)@ == numbered(old(self)@),
            final(self).polls() == old(self).polls(),
            out@ == seq![Reply::CommandAck { seq: old(self)@.seq, command, result }],
    {
        let seq: u8 = next_seq(&mut self.seq);
        let mut out: Vec<Reply> = Vec::new();
        out.push(Reply::CommandAck { seq, command, result });
        assert(out@ =~= seq![Reply::CommandAck { seq: old(self)@.seq, command, result }]);
        out
    }

    fn param_value(&mut self, i: usize) -> (out: Vec<Reply>)
        requires
            old(self).wf(),
            i < PARAM_COUNT,
        ensures
            final(self).wf(),
            (final(self)@, out@) == param_sent(old(self)@, i as int),
            final(self).polls() == old(self).polls(),
    {
        let value: Real32 = self.params.get(i);
        let seq: u8 = next_seq(&mut self.seq);
        let mut out: Vec<Reply> = Vec::new();
        out.push(Reply::ParamValue { seq, index: i as u16, value });
        assert(out@ =~= param_sent(old(self)@, i as int).1);
        out
    }

    /// Deals with a command. `critical` says whether the vehicle's health is critical.
    pub fn handle_command_long(&mut self, c: &CommandLong, critical: bool) -> (out: Vec<Reply>)
        requires
            old(self).wf(),
        ensures
            final(self).wf(),
            (final(self)@, out@) == on_message(old(self)@, Message::CommandLong(*c), critical),
            final(self).polls() == old(self).polls(),
    {
        if c.target_system != 0 && c.target_system != SYS_ID {
            let none: Vec<Reply> = Vec::new();
            assert(none@ =~= Seq::<Reply>::empty());
            return none;
        }
        match c.command {
            CMD_COMPONENT_ARM_DISARM => {
                let arm: bool = (Real32 { bits: real32::HALF_BITS }).lt(c.params[0]);
                if arm && critical {
                    return self.ack(c.command, RESULT_DENIED);
                }
                control::set_cmd_armed(&mut self.cmd, arm);
                self.ack(c.command, RESULT_ACCEPTED)
            },
            CMD_DO_SET_MODE => {
                let custom: u16 = c.params[1].to_u16();
                control::set_cmd_mode(&mut self.cmd, custom);
                self.ack(c.command, RESULT_ACCEPTED)
            },
            CMD_NAV_TAKEOFF => {
                control::set_cmd_mode(&mut self.cmd, COPTER_MODE_ALT_HOLD);
                self.ack(c.command, RESULT_ACCEPTED)
            },
            CMD_NAV_LAND => {
                control::set_cmd_mode(&mut self.cmd, COPTER_MODE_LAND);
                self.ack(c.command, RESULT_ACCEPTED)
            },
            CMD_NAV_RETURN_TO_LAUNCH => {
                control::set_cmd_mode(&mut self.cmd, COPTER_MODE_RTL);
                self.ack(c.command, RESULT_ACCEPTED)
            },
            CMD_REQUEST_AUTOPILOT_CAPABILITIES => {
                self.cap_req = true;
                self.ack(c.command, RESULT_ACCEPTED)
            },
            _ => self.ack(c.command, RESULT_DENIED),
        }
    }

    /// Deals with a request to write a parameter.
    pub fn handle_param_set(&mut self, p: &ParamSet) -> (out: Vec<Reply>)
        requires
            old(self).wf(),
        ensures
            final(self).wf(),
            forall|critical: bool| #[trigger]
                on_message(old(self)@, Message::ParamSet(*p), critical) == (final(self)@, out@),
            final(self).polls() == old(self).polls(),
    {
        match self.params.set(&p.id, p.value) {
            SetOutcome::Unknown => {
                let none: Vec<Reply> = Vec::new();
                assert(none@ =~= Seq::<Reply>::empty());
                none
            },
            SetOutcome::Refused => self.ack(MSG_PARAM_SET as u16, RESULT_FAILED),
            SetOutcome::Written(i) => self.param_value(i),
        }
    }

    fn handle_param_request_read(&mut self, id: &[u8; 16]) -> (out: Vec<Reply>)
        requires
            old(self).wf(),
        ensures
            final(self).wf(),
            forall|critical: bool| #[trigger]
                on_message(old(self)@, Message::ParamRequestRead(*id), critical) == (
                    final(self)@,
                    out@,
                ),
            final(self).polls() == old(self).polls(),
    {
        match params::find_param(id) {
            Some(i) => {
                proof {
                    let j = choose|j: int|
                        0 <= j < PARAM_COUNT && id@ == #[trigger] params::name_of(j);
                    assert(id@ == params::name_of(i as int));
                    params::law_names_distinct(i as int, j);
                }
                self.param_value(i)
            },
            None => {
                let none: Vec<Reply> = Vec::new();
                assert(none@ =~= Seq::<Reply>::empty());
                none
            },
        }
    }

    /// Deals with a message from the ground station. `critical` says whether the
    /// vehicle's health is critical.
    pub fn route_frame(&mut self, m: &Message, critical: bool) -> (out: Vec<Reply>)
        requires
            old(self).wf(),
        ensures
            final(self).wf(),
            (final(self)@, out@) == on_message(old(self)@, *m, critical),
            final(self).polls() == old(self).polls(),
    {
        let mut out: Vec<Reply> = Vec::new();
        assert(out@ =~= Seq::<Reply>::empty());
        match m {
            Message::CommandLong(c) => {
                return self.handle_command_long(c, critical);
            },
            Message::ParamRequestList => {
                self.param_idx = 0;
                self.param_req = true;
            },
            Message::ParamSet(p) => {
                return self.handle_param_set(p);
            },
            Message::ParamRequestRead(id) => {
                return self.handle_param_request_read(id);
            },
            Message::MissionRequestList => {
                let list = self.mission.mission_handle_request_list();
                let ghost wrap = |r: MissionReply| Reply::Mission(r);
                let mut i: usize = 0;
                assert(out@ =~= list@.take(0).map_values(wrap));
                while i < list.len()
                    invariant
                        i <= list@.len(),
                        wrap == (|r: MissionReply| Reply::Mission(r)),
                        out@ == list@.take(i as int).map_values(wrap),
                    decreases list@.len() - i,
                {
                    out.push(Reply::Mission(list[i]));
                    i = i + 1;
                    assert(out@ =~= list@.take(i as int).map_values(wrap));
                }
                assert(list@.take(i as int) =~= list@);
            },
            Message::MissionCount(count) => {
                let r = self.mission.mission_handle_count(*count);
                out.push(Reply::Mission(r));
                assert(out@ =~= seq![Reply::Mission(r)]);
            },
            Message::MissionItemInt(item) => {
                if let Some(r) = self.mission.mission_handle_item(item) {
                    out.push(Reply::Mission(r));
                    assert(out@ =~= seq![Reply::Mission(r)]);
                }
            },
            Message::RcChannelsOverride(ch) => {
                self.rc = *ch;
                self.rc_valid = true;
                self.rc_tick = self.ticks;
            },
            Message::Other => {},
        }
        out
    }

    /// What follows the reading in a poll: at most one parameter of a run, the
    /// capabilities if they were asked for, one tick.
    pub fn finish_poll(&mut self) -> (r: PollOutcome)
        requires
            old(self).wf(),
        ensures
            final(self).wf(),
            (final(self)@, r.replies@) == on_poll(old(self)@),
            final(self).polls() == (old(self).polls() + 1) % 0x1_0000_0000,
            r.alive == (final(self).polls() % ALIVE_POLLS == 0),
    {
        let mut replies: Vec<Reply> = Vec::new();
        if self.param_req {
            let idx: u16 = self.param_idx;
            if (idx as usize) < PARAM_COUNT {
                replies = self.param_value(idx as usize);
                self.param_idx = idx + 1;
            } else {
                self.param_req = false;
            }
        }
        let ghost mid = self@;
        assert((mid, replies@) == stream_step(old(self)@)) by {
            assert(replies@ =~= stream_step(old(self)@).1);
        }
        if self.cap_req {
            self.cap_req = false;
            let seq: u8 = next_seq(&mut self.seq);
            replies.push(
                Reply::AutopilotVersion {
                    seq,
                    capabilities: CAPABILITY_MAVLINK2 + CAPABILITY_PARAM_FLOAT,
                },
            );
        }
        self.loops = self.loops.wrapping_add(1);
        self.ticks = self.ticks.wrapping_add(1);
        assert(replies@ =~= on_poll(old(self)@).1);
        PollOutcome { replies, alive: self.loops % ALIVE_POLLS == 0 }
    }
}

/// Every message and every poll keeps the state sound; in particular a parameter
/// never holds a value that is not legal.
pub proof fn law_state_stays_sound(v: UplinkView, m: Message, critical: bool)
    requires
        uplink_ok(v),
    ensures
        uplink_ok(on_message(v, m, critical).0),
        uplink_ok(on_poll(v).0),
{
    match m {
        Message::ParamSet(p) => {
            if exists|i: int| 0 <= i < PARAM_COUNT && p.id@ == #[trigger] params::name_of(i) {
                let i = choose|i: int|
                    0 <= i < PARAM_COUNT && p.id@ == #[trigger] params::name_of(i);
                params::law_set_is_local(v.params, i, p.value);
            }
        },
        _ => {},
    }
}

/// A command for this vehicle is answered by exactly one acknowledgement, which
/// names it; one for another vehicle is not answered and changes nothing.
pub proof fn law_commands_are_acknowledged(v: UplinkView, c: CommandLong, critical: bool)
    ensures
        addressed(c.target_system) ==> exists|result: u8|
            on_message(v, Message::CommandLong(c), critical).1 == seq![
                Reply::CommandAck { seq: v.seq, command: c.command, result },
            ],
        !addressed(c.target_system) ==> on_message(v, Message::CommandLong(c), critical) == (
            v,
            Seq::<Reply>::empty(),
        ),
{
    if addressed(c.target_system) {
        let result = on_command(v, c.command, c.params@[0], c.params@[1], critical).1;
        assert(on_message(v, Message::CommandLong(c), critical).1 == seq![
            Reply::CommandAck { seq: v.seq, command: c.command, result },
        ]);
    }
}

/// With a receiver that does not arm, a command to disarm disarms the vehicle, and
/// a command to arm arms it unless its health is critical.
pub proof fn law_arm_and_disarm_take_effect(v: UplinkView, c: CommandLong, critical: bool)
    requires
        addressed(c.target_system),
        c.command == CMD_COMPONENT_ARM_DISARM,
        (Real32 { bits: real32::HALF_BITS }).less(c.params@[0]) ==> !critical,
    ensures
        control::armed_of(false, on_message(v, Message::CommandLong(c), critical).0.cmd) == (Real32 {
            bits: real32::HALF_BITS,
        }).less(c.params@[0]),
{
}

/// While the vehicle's health is critical, a command to arm is denied and changes
/// nothing but the message number.
pub proof fn law_arming_is_denied_while_critical(v: UplinkView, c: CommandLong)
    requires
        addressed(c.target_system),
        c.command == CMD_COMPONENT_ARM_DISARM,
        (Real32 { bits: real32::HALF_BITS }).less(c.params@[0]),
    ensures
        on_message(v, Message::CommandLong(c), true) == (
            numbered(v),
            seq![
                Reply::CommandAck { seq: v.seq, command: c.command, result: RESULT_DENIED },
            ],
        ),
{
}

/// The heartbeat follows the commands: after one that asks for a mode it carries
/// that mode, and after an arm or disarm it says which, as long as the receiver does
/// not arm. Where arming was refused it says what it said before.
pub proof fn law_heartbeat_follows_commands(
    v: UplinkView,
    c: CommandLong,
    critical: bool,
    seq: u8,
    r: Report,
)
    requires
        addressed(c.target_system),
        ({
            let cmd = on_message(v, Message::CommandLong(c), critical).0.cmd;
            r.mode == cmd.mode && r.armed == control::armed_of(false, cmd)
        }),
    ensures
        c.command == CMD_COMPONENT_ARM_DISARM ==> telemetry::messages(seq, r)[0] == (
        Downlink::Heartbeat {
            seq,
            mode: v.cmd.mode,
            armed: if critical && (Real32 { bits: real32::HALF_BITS }).less(c.params@[0]) {
                v.cmd.armed
            } else {
                (Real32 { bits: real32::HALF_BITS }).less(c.params@[0])
            },
        }),
        mode_asked(c.command, c.params@[1]) matches Some(mode) ==> telemetry::messages(seq, r)[0]
            == (Downlink::Heartbeat { seq, mode, armed: v.cmd.armed }),
{
}

/// An unknown command is denied and changes nothing but the
/// message number.
pub proof fn law_unknown_commands_change_nothing(v: UplinkView, c: CommandLong, critical: bool)
    requires
        addressed(c.target_system),
        c.command != CMD_COMPONENT_ARM_DISARM,
        c.command != CMD_DO_SET_MODE,
        c.command != CMD_NAV_TAKEOFF,
        c.command != CMD_NAV_LAND,
        c.command != CMD_NAV_RETURN_TO_LAUNCH,
        c.command != CMD_REQUEST_AUTOPILOT_CAPABILITIES,
    ensures
        on_message(v, Message::CommandLong(c), critical) == (
            numbered(v),
            seq![
                Reply::CommandAck { seq: v.seq, command: c.command, result: RESULT_DENIED },
            ],
        ),
{
}

/// A parameter that was written reads back as written; one that was refused
/// reads back as it was.
pub proof fn law_written_parameter_reads_back(v: UplinkView, p: ParamSet, i: int, critical: bool)
    requires
        uplink_ok(v),
        0 <= i < PARAM_COUNT,
        p.id@ == params::name_of(i),
    ensures
        ({
            let w = on_message(v, Message::ParamSet(p), critical).0;
            on_message(w, Message::ParamRequestRead(p.id), critical).1 == seq![
                Reply::ParamValue {
                    seq: w.seq,
                    index: i as u16,
                    value: if params::legal(i, p.value) {
                        p.value
                    } else {
                        v.params[i]
                    },
                },
            ]
        }),
        on_message(v, Message::ParamSet(p), critical).0.params == if params::legal(i, p.value) {
            v.params.update(i, p.value)
        } else {
            v.params
        },
        params::legal(i, p.value) ==> on_message(v, Message::ParamSet(p), critical).1 == seq![
            Reply::ParamValue { seq: v.seq, index: i as u16, value: p.value },
        ],
        !params::legal(i, p.value) ==> on_message(v, Message::ParamSet(p), critical).1 == seq![
            Reply::CommandAck {
                seq: v.seq,
                command: MSG_PARAM_SET as u16,
                result: RESULT_FAILED,
            },
        ],
{
    params::law_set_is_local(v.params, i, p.value);
    let j = choose|j: int| 0 <= j < PARAM_COUNT && p.id@ == #[trigger] params::name_of(j);
    params::law_names_distinct(i, j);
}

/// The state after `n` polls without a message.
pub open spec fn after_polls(v: UplinkView, n: nat) -> UplinkView
    decreases n,
{
    if n == 0 {
        v
    } else {
        on_poll(after_polls(v, (n - 1) as nat)).0
    }
}

proof fn lemma_streaming(v: UplinkView, n: nat, critical: bool)
    requires
        uplink_ok(v),
        n <= PARAM_COUNT,
    ensures
        ({
            let w = after_polls(on_message(v, Message::ParamRequestList, critical).0, n);
            w.stream == Some(n as u16) && w.params == v.params
        }),
    decreases n,
{
    if n > 0 {
        lemma_streaming(v, (n - 1) as nat, critical);
    }
}

/// A request for all parameters is answered by one parameter in each of the next
/// polls, in the order of the table with the values that it holds, and by nothing
/// more.
pub proof fn law_all_parameters_are_sent(v: UplinkView, n: nat, critical: bool)
    requires
        uplink_ok(v),
    ensures
        ({
            let w = after_polls(on_message(v, Message::ParamRequestList, critical).0, n);
            stream_step(w).1 == if n < PARAM_COUNT {
                seq![Reply::ParamValue { seq: w.seq, index: n as u16, value: v.params[n as int] }]
            } else {
                Seq::<Reply>::empty()
            }
        }),
        n > PARAM_COUNT ==> after_polls(on_message(v, Message::ParamRequestList, critical).0, n).stream
            is None,
    decreases n,
{
    if n <= PARAM_COUNT {
        lemma_streaming(v, n, critical);
    } else {
        law_all_parameters_are_sent(v, (n - 1) as nat, critical);
        if n == PARAM_COUNT + 1 {
            lemma_streaming(v, PARAM_COUNT as nat, critical);
        }
    }
}

proof fn lemma_ticking(v: UplinkView, n: nat)
    ensures
        after_polls(v, n).rc == v.rc,
        after_polls(v, n).rc_tick == v.rc_tick,
        after_polls(v, n).cmd == v.cmd,
        after_polls(v, n).ticks == (v.ticks + n) % 0x1_0000_0000,
    decreases n,
{
    if n > 0 {
        lemma_ticking(v, (n - 1) as nat);
    }
}

/// An override of the receiver channels holds for two seconds and not longer: a
/// tick is 10 ms, and it holds for 200 ticks.
pub proof fn law_override_lapses(v: UplinkView, ch: [u16; 8], n: nat, critical: bool)
    requires
        n < 0x1_0000_0000,
    ensures
        ({
            let w = after_polls(on_message(v, Message::RcChannelsOverride(ch), critical).0, n);
            w.rc == ch@ && (override_holds(w) <==> 10 * n <= 2000)
        }),
{
    lemma_ticking(on_message(v, Message::RcChannelsOverride(ch), critical).0, n);
}

/// Only commands arm, disarm or change the mode.
pub proof fn law_only_commands_change_the_commanded_state(v: UplinkView, m: Message, critical: bool)
    requires
        !(m is CommandLong),
    ensures
        on_message(v, m, critical).0.cmd == v.cmd,
        on_poll(v).0.cmd == v.cmd,
{
}

/// The message numbers that a list of messages uses.
pub open spec fn numbers(out: Seq<Reply>) -> Seq<u8>
    decreases out.len(),
{
    if out.len() == 0 {
        Seq::empty()
    } else {
        let rest = numbers(out.drop_last());
        match out.last() {
            Reply::CommandAck { seq, .. } => rest.push(seq),
            Reply::ParamValue { seq, .. } => rest.push(seq),
            Reply::AutopilotVersion { seq, .. } => rest.push(seq),
            Reply::Mission(_) => rest,
        }
    }
}

proof fn lemma_numbers_concat(a: Seq<Reply>, b: Seq<Reply>)
    ensures
        numbers(a + b) == numbers(a) + numbers(b),
    decreases b.len(),
{
    if b.len() == 0 {
        assert(a + b =~= a);
        assert(numbers(a) + numbers(b) =~= numbers(a));
    } else {
        assert((a + b).drop_last() =~= a + b.drop_last());
        assert((a + b).last() == b.last());
        lemma_numbers_concat(a, b.drop_last());
        assert(numbers(a + b) =~= numbers(a) + numbers(b));
    }
}

/// A poll numbers its messages one after the other, from the state's next number
/// on, and the state goes on from there.
pub proof fn law_poll_numbers_run_on(v: UplinkView)
    ensures
        ({
            let (w, out) = on_poll(v);
            &&& w.seq == seq_plus(v.seq, numbers(out).len() as int)
            &&& forall|i: int|
                0 <= i < numbers(out).len() ==> #[trigger] numbers(out)[i] == seq_plus(v.seq, i)
        }),
{
    let (a, first) = stream_step(v);
    let (b, second) = capability_step(a);
    lemma_numbers_concat(first, second);
    reveal_with_fuel(numbers, 2);
    if first.len() > 0 {
        assert(first.drop_last() =~= Seq::<Reply>::empty());
    }
    if second.len() > 0 {
        assert(second.drop_last() =~= Seq::<Reply>::empty());
    }
}

/// A request for all parameters makes each of the next five polls send one parameter
/// first, in the order of the table and with the value that the table holds, and no
/// other; polls after that send none.
pub proof fn law_polls_send_the_parameters(v: UplinkView, n: nat, critical: bool)
    requires
        uplink_ok(v),
    ensures
        ({
            let w = after_polls(on_message(v, Message::ParamRequestList, critical).0, n);
            let out = on_poll(w).1;
            &&& n < 5 ==> out.len() >= 1 && out[0] == (Reply::ParamValue {
                seq: w.seq,
                index: n as u16,
                value: v.params[n as int],
            })
            &&& forall|i: int|
                0 <= i < out.len() && (i > 0 || n >= 5) ==> !(#[trigger] out[i] is ParamValue)
        }),
{
    law_all_parameters_are_sent(v, n, critical);
    let w = after_polls(on_message(v, Message::ParamRequestList, critical).0, n);
    let (a, first) = stream_step(w);
    let second = capability_step(a).1;
    assert(on_poll(w).1 == first + second);
    assert forall|i: int| 0 <= i < on_poll(w).1.len() && (i > 0 || n >= 5) implies !(
    #[trigger] on_poll(w).1[i] is ParamValue) by {
        assert(on_poll(w).1[i] == second[i - first.len()]);
    }
}

/// Whatever the polls of a run send, they send the values that were written: after a
/// legal write to parameter `i`, a request for all parameters makes poll `i` send
/// what was written, and each other poll the value from before.
pub proof fn law_written_parameter_is_streamed(
    v: UplinkView,
    p: ParamSet,
    i: int,
    n: nat,
    critical: bool,
)
    requires
        uplink_ok(v),
        0 <= i < 5,
        n < 5,
        p.id@ == params::name_of(i),
        params::legal(i, p.value),
    ensures
        ({
            let x = on_message(v, Message::ParamSet(p), critical).0;
            let w = after_polls(on_message(x, Message::ParamRequestList, critical).0, n);
            on_poll(w).1[0] matches Reply::ParamValue { index, value, .. } && index == n && value
                == if n == i {
                p.value
            } else {
                v.params[n as int]
            }
        }),
{
    law_written_parameter_reads_back(v, p, i, critical);
    law_state_stays_sound(v, Message::ParamSet(p), critical);
    let x = on_message(v, Message::ParamSet(p), critical).0;
    law_polls_send_the_parameters(x, n, critical);
}

/// A poll changes none of what has been commanded, written or overridden. It counts
/// one tick, and one number for each message that it sends. With nothing asked for it
/// sends nothing.
pub proof fn law_poll_keeps_what_was_set(v: UplinkView)
    requires
        uplink_ok(v),
    ensures
        ({
            let (w, out) = on_poll(v);
            &&& w.cmd == v.cmd && w.params == v.params && w.mission == v.mission
            &&& w.rc == v.rc && w.rc_tick == v.rc_tick
            &&& v.ticks < 0xFFFF_FFFF ==> w.ticks == v.ticks + 1
            &&& v.ticks == 0xFFFF_FFFF ==> w.ticks == 0
            &&& !w.cap_req
            &&& w.seq == (v.seq + out.len()) % 256
            &&& v.stream is None && !v.cap_req ==> out.len() == 0
            &&& v.stream is None ==> w.stream is None
        }),
{
}

/// A question for the capabilities is accepted and answered once: by the last message
/// of the next poll, whether or not parameters are being sent, and by none after it.
pub proof fn law_capabilities_are_told_once(v: UplinkView, c: CommandLong, critical: bool)
    requires
        uplink_ok(v),
        c.target_system <= 1,
        c.command == 520,
    ensures
        ({
            let (w, acks) = on_message(v, Message::CommandLong(c), critical);
            let (x, out) = on_poll(w);
            let later = on_poll(x).1;
            &&& acks == seq![Reply::CommandAck { seq: v.seq, command: 520, result: 0 }]
            &&& out.len() >= 1
            &&& out[out.len() - 1] matches Reply::AutopilotVersion { capabilities, .. }
                && capabilities == 8192 + 2
            &&& forall|i: int|
                0 <= i < out.len() - 1 ==> !(#[trigger] out[i] is AutopilotVersion)
            &&& forall|i: int| 0 <= i < later.len() ==> !(#[trigger] later[i] is AutopilotVersion)
        }),
{
    let w = on_message(v, Message::CommandLong(c), critical).0;
    let (x, out) = on_poll(w);
    let (a, first) = stream_step(w);
    let second = capability_step(a).1;
    assert(out == first + second);
    assert forall|i: int| 0 <= i < out.len() - 1 implies !(#[trigger] out[i]
        is AutopilotVersion) by {
        assert(out[i] == first[i]);
    }
    let later = on_poll(x).1;
    let (b, third) = stream_step(x);
    assert(later == third + capability_step(b).1);
    assert forall|i: int| 0 <= i < later.len() implies !(#[trigger] later[i]
        is AutopilotVersion) by {
        assert(later[i] == third[i]);
    }
}

/// The commands that ask for a mode are accepted and set it, armed or not and
/// whatever the health is: 176 the mode that its second number is, 22 (take off)
/// altitude hold, 21 (land) landing, 20 the return to the start. They change nothing
/// else that has been commanded.
pub proof fn law_mode_commands(v: UplinkView, c: CommandLong, critical: bool)
    requires
        c.target_system == 0 || c.target_system == 1,
        c.command == 176 || c.command == 22 || c.command == 21 || c.command == 20,
    ensures
        ({
            let (w, out) = on_message(v, Message::CommandLong(c), critical);
            &&& out == seq![Reply::CommandAck { seq: v.seq, command: c.command, result: 0 }]
            &&& w.cmd.armed == v.cmd.armed
            &&& c.command == 176 ==> w.cmd.mode == c.params@[1].as_u16()
            &&& c.command == 22 ==> w.cmd.mode == 2
            &&& c.command == 21 ==> w.cmd.mode == 9
            &&& c.command == 20 ==> w.cmd.mode == 6
        }),
{
}

/// A command to arm (400 with a first number over a half) or to disarm is accepted
/// and takes effect in every state, but for arming while the health is critical, which
/// is denied and leaves the vehicle as it was. The mode stays.
pub proof fn law_arm_command(v: UplinkView, c: CommandLong, critical: bool)
    requires
        c.target_system == 0 || c.target_system == 1,
        c.command == 400,
    ensures
        ({
            let (w, out) = on_message(v, Message::CommandLong(c), critical);
            let arm = !c.params@[0].is_nan() && c.params@[0].units() > (Real32 {
                bits: 0x3F00_0000,
            }).units();
            &&& out.len() == 1
            &&& out[0] matches Reply::CommandAck { seq, command, result } && seq == v.seq
                && command == 400 && result == if arm && critical {
                1u8
            } else {
                0u8
            }
            &&& w.cmd.mode == v.cmd.mode
            &&& arm && critical ==> w.cmd.armed == v.cmd.armed
            &&& !(arm && critical) ==> w.cmd.armed == arm
        }),
{
}

/// A command is for this vehicle exactly where it is for all vehicles or for number
/// one; any other is not answered and leaves everything as it was.
pub proof fn law_commands_for_others_are_ignored(v: UplinkView, c: CommandLong, critical: bool)
    ensures
        c.target_system > 1 ==> on_message(v, Message::CommandLong(c), critical).1.len() == 0
            && on_message(v, Message::CommandLong(c), critical).0 == v,
        c.target_system <= 1 ==> on_message(v, Message::CommandLong(c), critical).1.len() == 1,
{
}

/// Each message touches its own part of the state and no other: only commands change
/// what has been commanded, only a write a parameter, only mission messages the
/// mission, only an override the overridden channels; none moves the clock. A
/// parameter that is read or listed, and a mission that is read, stay as they are.
pub proof fn law_messages_touch_their_own_part(v: UplinkView, m: Message, critical: bool)
    ensures
        ({
            let w = on_message(v, m, critical).0;
            &&& !(m is CommandLong) ==> w.cmd == v.cmd && w.cap_req == v.cap_req
            &&& m matches Message::CommandLong(c) ==> (c.command != 520 ==> w.cap_req == v.cap_req)
            &&& !(m is ParamSet) ==> w.params == v.params
            &&& !(m is ParamRequestList) ==> w.stream == v.stream
            &&& !(m is MissionCount) && !(m is MissionItemInt) ==> w.mission == v.mission
            &&& !(m is RcChannelsOverride) ==> w.rc == v.rc && w.rc_tick == v.rc_tick
            &&& w.ticks == v.ticks
            &&& m is Other ==> w == v && on_message(v, m, critical).1.len() == 0
        }),
{
}

/// A parameter that is asked for by its name is answered by its place in the table
/// and the value that it holds, and stays; a name that no parameter has is not
/// answered, read or written.
pub proof fn law_parameter_is_read(
    v: UplinkView,
    id: [u8; 16],
    value: Real32,
    critical: bool,
)
    requires
        uplink_ok(v),
    ensures
        forall|i: int|
            0 <= i < 5 && id@ == #[trigger] params::name_of(i) ==> on_message(
                v,
                Message::ParamRequestRead(id),
                critical,
            ).1 == seq![Reply::ParamValue { seq: v.seq, index: i as u16, value: v.params[i] }],
        (forall|i: int| 0 <= i < 5 ==> id@ != #[trigger] params::name_of(i)) ==> {
            &&& on_message(v, Message::ParamRequestRead(id), critical) == (
                v,
                Seq::<Reply>::empty(),
            )
            &&& on_message(v, Message::ParamSet(ParamSet { id, value }), critical) == (
                v,
                Seq::<Reply>::empty(),
            )
        },
{
    assert forall|i: int| 0 <= i < 5 && id@ == #[trigger] params::name_of(i) implies on_message(
        v,
        Message::ParamRequestRead(id),
        critical,
    ).1 == seq![Reply::ParamValue { seq: v.seq, index: i as u16, value: v.params[i] }] by {
        let j = choose|j: int| 0 <= j < PARAM_COUNT && id@ == #[trigger] params::name_of(j);
        params::law_names_distinct(i, j);
    }
}

/// An override is taken as it comes: its eight channels replace the last ones, it
/// holds at once, and it reaches the sticks of the next control cycle.
pub proof fn law_override_reaches_the_plan(
    v: UplinkView,
    ch: [u16; 8],
    receiver_armed: bool,
    critical: bool,
)
    ensures
        ({
            let (w, out) = on_message(v, Message::RcChannelsOverride(ch), critical);
            let plan = control::plan_of(receiver_armed, w.cmd, w.rc, override_holds(w));
            &&& out.len() == 0
            &&& override_holds(w)
            &&& w.rc == ch@
            &&& plan.rc matches control::RcChoice::Override(o) && {
                &&& 1000 <= ch@[0] <= 2000 ==> o.roll + 1000 == ch@[0]
                &&& 1000 <= ch@[1] <= 2000 ==> o.pitch + 1000 == ch@[1]
                &&& 1000 <= ch@[2] <= 2000 ==> o.throttle + 1000 == ch@[2]
                &&& 1000 <= ch@[3] <= 2000 ==> o.yaw + 1000 == ch@[3]
            }
        }),
{
    let w = on_message(v, Message::RcChannelsOverride(ch), critical).0;
    control::law_override_moves_the_sticks(receiver_armed, w.cmd, w.rc);
}

/// Before the first override none holds, however long it takes.
pub proof fn law_no_override_by_itself(v: UplinkView, n: nat)
    requires
        v.rc_tick is None,
    ensures
        !override_holds(after_polls(v, n)),
{
    lemma_ticking(v, n);
}

/// At the start the vehicle is disarmed in mode zero, no override holds, nothing is
/// due to be sent, the mission is empty, and the state is sound.
pub proof fn law_start_is_quiet(critical: bool)
    ensures
        ({
            let v = start_state();
            &&& uplink_ok(v)
            &&& !v.cmd.armed && v.cmd.mode == 0
            &&& !override_holds(v)
            &&& on_poll(v).1.len() == 0
            &&& on_message(v, Message::MissionRequestList, critical).1 == seq![
                Reply::Mission(MissionReply::Count(0)),
                Reply::Mission(MissionReply::Ack(0)),
            ]
        }),
{
    let v = start_state();
    params::law_start_values_are_legal();
    assert(v.mission.items.take(0) =~= Seq::<MissionItem>::empty());
    assert(on_message(v, Message::MissionRequestList, critical).1 =~= seq![
        Reply::Mission(MissionReply::Count(0)),
        Reply::Mission(MissionReply::Ack(0)),
    ]);
}

/// The state after mission items came in one after the other.
pub open spec fn after_upload(v: UplinkView, items: Seq<MissionItem>, critical: bool) -> UplinkView
    decreases items.len(),
{
    if items.len() == 0 {
        v
    } else {
        on_message(
            after_upload(v, items.drop_last(), critical),
            Message::MissionItemInt(items.last()),
            critical,
        ).0
    }
}

proof fn lemma_upload(v: UplinkView, items: Seq<MissionItem>, critical: bool)
    ensures
        after_upload(v, items, critical) == (UplinkView {
            mission: mission::after_items(v.mission, items),
            ..v
        }),
    decreases items.len(),
{
    if items.len() > 0 {
        lemma_upload(v, items.drop_last(), critical);
    }
}

/// A mission that the ground station sends, by its count and its items in order, is
/// the mission that it gets when it asks for it: the count, every item as it was, an
/// acknowledgement. Nothing else of the state has changed.
pub proof fn law_uploaded_mission_comes_back(
    v: UplinkView,
    items: Seq<MissionItem>,
    critical: bool,
)
    requires
        uplink_ok(v),
        1 <= items.len() <= 64,
        forall|i: int| 0 <= i < items.len() ==> (#[trigger] items[i]).seq == i,
    ensures
        ({
            let n = items.len() as int;
            let (a, asked) = on_message(v, Message::MissionCount(n as u16), critical);
            let w = after_upload(a, items, critical);
            let (x, out) = on_message(w, Message::MissionRequestList, critical);
            &&& asked == seq![Reply::Mission(MissionReply::Request(0))]
            &&& out.len() == n + 2
            &&& out[0] == Reply::Mission(MissionReply::Count(n as u16))
            &&& forall|i: int|
                0 <= i < n ==> #[trigger] out[i + 1] == Reply::Mission(
                    MissionReply::Item(items[i]),
                )
            &&& out[n + 1] == Reply::Mission(MissionReply::Ack(0))
            &&& x == w
            &&& w == (UplinkView { mission: w.mission, ..v })
        }),
{
    let n = items.len() as int;
    let a = on_message(v, Message::MissionCount(n as u16), critical).0;
    lemma_upload(a, items, critical);
    mission::law_written_mission_reads_back(v.mission, items);
    let w = after_upload(a, items, critical);
    let list = mission::on_request_list(w.mission);
    let out = on_message(w, Message::MissionRequestList, critical).1;
    assert forall|i: int| 0 <= i < n implies #[trigger] out[i + 1] == Reply::Mission(
        MissionReply::Item(items[i]),
    ) by {
        assert(list[i + 1] == MissionReply::Item(items[i]));
    }
}

/// While a mission of `total` items comes in, the answer to each item is the request
/// for the next one, and the answer to the last an acknowledgement.
pub proof fn law_upload_is_led_on(
    v: UplinkView,
    items: Seq<MissionItem>,
    total: u16,
    critical: bool,
)
    requires
        uplink_ok(v),
        1 <= items.len() <= total <= 64,
        forall|i: int| 0 <= i < items.len() ==> (#[trigger] items[i]).seq == i,
    ensures
        ({
            let a = on_message(v, Message::MissionCount(total), critical).0;
            let w = after_upload(a, items.drop_last(), critical);
            on_message(w, Message::MissionItemInt(items.last()), critical).1 == seq![
                Reply::Mission(
                    if items.len() < total {
                        MissionReply::Request(items.len() as u16)
                    } else {
                        MissionReply::Ack(0)
                    },
                ),
            ]
        }),
{
    let a = on_message(v, Message::MissionCount(total), critical).0;
    lemma_upload(a, items.drop_last(), critical);
    mission::law_items_are_asked_for_in_order(v.mission, items, total);
}

/// A count over 64 is refused, an item out of turn is refused, and an item that nobody
/// asked for is not answered; none of them changes anything.
pub proof fn law_wrong_mission_messages_change_nothing(
    v: UplinkView,
    count: u16,
    item: MissionItem,
    critical: bool,
)
    ensures
        count > 64 ==> on_message(v, Message::MissionCount(count), critical) == (
            v,
            seq![Reply::Mission(MissionReply::Ack(4))],
        ),
        v.mission.awaited is None ==> on_message(v, Message::MissionItemInt(item), critical) == (
            v,
            Seq::<Reply>::empty(),
        ),
        v.mission.awaited matches Some((next, total)) ==> item.seq != next ==> on_message(
            v,
            Message::MissionItemInt(item),
            critical,
        ) == (v, seq![Reply::Mission(MissionReply::Ack(5))]),
{
    mission::law_refusals_change_nothing(v.mission, item, count);
}

/// Each kind of message has one number, and a number without a kind is none that the
/// vehicle acts on.
pub proof fn law_kinds_have_one_number_each(msgid: u32)
    ensures
        kind_of(msgid) == MessageKind::CommandLong <==> msgid == 76,
        kind_of(msgid) == MessageKind::ParamRequestList <==> msgid == 21,
        kind_of(msgid) == MessageKind::ParamSet <==> msgid == 23,
        kind_of(msgid) == MessageKind::ParamRequestRead <==> msgid == 20,
        kind_of(msgid) == MessageKind::MissionRequestList <==> msgid == 43,
        kind_of(msgid) == MessageKind::MissionCount <==> msgid == 44,
        kind_of(msgid) == MessageKind::MissionItemInt <==> msgid == 73,
        kind_of(msgid) == MessageKind::RcChannelsOverride <==> msgid == 70,
{
}

/// Message numbers step by one and start again at zero after 255.
pub proof fn law_numbers_step_by_one(seq: u8)
    ensures
        seq < 255 ==> seq_plus(seq, 1) == seq + 1,
        seq_plus(255, 1) == 0,
{
}

proof fn lemma_mission_is_not_numbered(rs: Seq<MissionReply>)
    ensures
        numbers(rs.map_values(|r: MissionReply| Reply::Mission(r))).len() == 0,
    decreases rs.len(),
{
    let out = rs.map_values(|r: MissionReply| Reply::Mission(r));
    if rs.len() > 0 {
        lemma_mission_is_not_numbered(rs.drop_last());
        assert(out.drop_last() =~= rs.drop_last().map_values(
            |r: MissionReply| Reply::Mission(r),
        ));
    }
}

/// The answers to a message are numbered as those of a poll are: one after the other
/// from the next number on, and the state goes on from there.
pub proof fn law_answer_numbers_run_on(v: UplinkView, m: Message, critical: bool)
    ensures
        ({
            let (w, out) = on_message(v, m, critical);
            &&& numbers(out).len() <= 1
            &&& numbers(out).len() == 1 ==> numbers(out)[0] == v.seq
            &&& w.seq == (v.seq + numbers(out).len()) % 256
        }),
{
    let out = on_message(v, m, critical).1;
    reveal_with_fuel(numbers, 2);
    if m is MissionRequestList {
        lemma_mission_is_not_numbered(mission::on_request_list(v.mission));
    } else if out.len() > 0 {
        assert(out.drop_last() =~= Seq::<Reply>::empty());
    }
}

/// Of `finish_poll`: while parameters are being sent, the first message is the next one
/// with the value that the table holds, and there is no other; the table stays. Every
/// 1000th poll is reported.
pub proof fn law_finish_poll(u: &mut Uplink, r: PollOutcome)
    requires
        old(u).wf(),
        call_ensures(Uplink::finish_poll, (u,), r),
    ensures
        old(u)@.stream matches Some(i) ==> (i < 5 ==> {
            &&& r.replies@.len() >= 1
            &&& r.replies@[0] == (Reply::ParamValue {
                seq: old(u)@.seq,
                index: i,
                value: old(u)@.params[i as int],
            })
            &&& final(u)@.stream == Some((i + 1) as u16)
        }),
        forall|k: int|
            0 < k < r.replies@.len() ==> !(#[trigger] r.replies@[k] is ParamValue),
        !(old(u)@.stream matches Some(i) && i < 5) ==> final(u)@.stream is None && (forall|k: int|
            0 <= k < r.replies@.len() ==> !(#[trigger] r.replies@[k] is ParamValue)),
        final(u)@.params == old(u)@.params && final(u)@.cmd == old(u)@.cmd,
        final(u)@.mission == old(u)@.mission,
        old(u)@.cap_req <==> exists|k: int|
            0 <= k < r.replies@.len() && #[trigger] r.replies@[k] is AutopilotVersion,
        final(u)@.ticks == (old(u)@.ticks + 1) % 0x1_0000_0000,
        r.alive <==> final(u).polls() % 1000 == 0,
        final(u).polls() == (old(u).polls() + 1) % 0x1_0000_0000,
{
    let v = old(u)@;
    let (a, first) = stream_step(v);
    let second = capability_step(a).1;
    let out = r.replies@;
    assert(out == first + second);
    assert forall|k: int| 0 <= k < out.len() && k >= first.len() implies !(#[trigger] out[k]
        is ParamValue) by {
        assert(out[k] == second[k - first.len()]);
    }
    if v.cap_req {
        assert(out[first.len() as int] is AutopilotVersion);
    }
}

/// Of `route_frame` and `finish_poll`: a legal value that is written to parameter `i`
/// comes back at once, comes back when the parameter is read, and is what the control
/// task gets; the other parameters keep their values.
pub proof fn law_write_then_read(
    a: &mut Uplink,
    b: &mut Uplink,
    p: ParamSet,
    i: int,
    echo: Vec<Reply>,
    answer: Vec<Reply>,
    gains: Vec<Real32>,
    critical: bool,
)
    requires
        old(a).wf(),
        0 <= i < 5,
        p.id@ == params::name_of(i),
        params::legal(i, p.value),
        call_ensures(Uplink::route_frame, (a, &Message::ParamSet(p), critical), echo),
        *old(b) == *final(a),
        call_ensures(Uplink::route_frame, (b, &Message::ParamRequestRead(p.id), critical), answer),
        call_ensures(Uplink::gains, (&*final(b),), gains),
    ensures
        echo@ == seq![
            Reply::ParamValue { seq: old(a)@.seq, index: i as u16, value: p.value },
        ],
        answer@.len() == 1,
        answer@[0] matches Reply::ParamValue { index, value, .. } && index == i && value == p.value,
        gains@ == old(a)@.params.update(i, p.value),
{
    law_written_parameter_reads_back(old(a)@, p, i, critical);
    law_state_stays_sound(old(a)@, Message::ParamSet(p), critical);
    law_messages_touch_their_own_part(old(b)@, Message::ParamRequestRead(p.id), critical);
}

/// Of `handle_command_long`: it does with a command what the channel does with its
/// message. Arming is denied while the health is critical; otherwise the vehicle is
/// armed as asked.
pub proof fn law_handle_command_long(
    u: &mut Uplink,
    c: &CommandLong,
    critical: bool,
    out: Vec<Reply>,
)
    requires
        old(u).wf(),
        c.target_system <= 1,
        c.command == 400,
        call_ensures(Uplink::handle_command_long, (u, c, critical), out),
    ensures
        ({
            let arm = !c.params@[0].is_nan() && c.params@[0].units() > (Real32 {
                bits: 0x3F00_0000,
            }).units();
            &&& out@ == seq![
                Reply::CommandAck {
                    seq: old(u)@.seq,
                    command: 400,
                    result: if arm && critical {
                        1
                    } else {
                        0
                    },
                },
            ]
            &&& final(u)@.cmd.mode == old(u)@.cmd.mode
            &&& final(u)@.cmd.armed == if arm && critical {
                old(u)@.cmd.armed
            } else {
                arm
            }
        }),
{
    law_arm_command(old(u)@, *c, critical);
}

/// Of `get_rc_override`: right after an override came in, its channels are handed out
/// and hold.
pub proof fn law_override_is_handed_out(
    u: &mut Uplink,
    ch: [u16; 8],
    critical: bool,
    out: Vec<Reply>,
    r: ([u16; 8], bool),
)
    requires
        old(u).wf(),
        call_ensures(Uplink::route_frame, (u, &Message::RcChannelsOverride(ch), critical), out),
        call_ensures(Uplink::get_rc_override, (&*final(u),), r),
    ensures
        out@.len() == 0,
        r.0@ == ch@,
        r.1,
{
}

/// Of `get_rc_override`: an override holds for 200 ticks after it came, whatever the
/// clock shows, and no longer.
pub proof fn law_override_age(u: &Uplink, tick: u32, age: u32, r: ([u16; 8], bool))
    requires
        u@.rc_tick == Some(tick),
        u@.ticks == (tick + age) % 0x1_0000_0000,
        call_ensures(Uplink::get_rc_override, (u,), r),
    ensures
        r.1 <==> age <= 200,
        r.0@ == u@.rc,
{
}

/// Of `new`, `cmd`, `gains` and `get_rc_override`: a vehicle that was just started is
/// disarmed in mode zero, flies on the start values and follows its receiver.
pub proof fn law_new_uplink(
    u: Uplink,
    c: CmdState,
    gains: Vec<Real32>,
    rc: ([u16; 8], bool),
    ticks: u32,
)
    requires
        call_ensures(Uplink::new, (), u),
        call_ensures(Uplink::cmd, (&u,), c),
        call_ensures(Uplink::gains, (&u,), gains),
        call_ensures(Uplink::get_rc_override, (&u,), rc),
        call_ensures(Uplink::app_ticks, (&u,), ticks),
    ensures
        !c.armed && c.mode == 0,
        gains@.len() == 5,
        gains@[0].bits == 0x3F00_0000 && gains@[1].bits == 0x3F00_0000,
        gains@[2].bits == 0x3F4C_CCCD && gains@[3].bits == 0x3F4C_CCCD,
        gains@[4].bits == 0x3F00_0000,
        !rc.1,
        ticks == 0,
{
}

/// Of `route_frame`, `cmd` and `plan_cycle`: after a command to land, whatever it was
/// doing, the vehicle's next cycle aims at the ground; after one to take off it holds its
/// altitude.
pub proof fn law_landing_command_lands(
    u: &mut Uplink,
    c: CommandLong,
    critical: bool,
    out: Vec<Reply>,
    cmd: CmdState,
    receiver_armed: bool,
    ch: &[u16; 8],
    valid: bool,
    plan: control::CyclePlan,
)
    requires
        old(u).wf(),
        c.target_system <= 1,
        c.command == 21 || c.command == 22,
        call_ensures(Uplink::route_frame, (u, &Message::CommandLong(c), critical), out),
        call_ensures(Uplink::cmd, (&*final(u),), cmd),
        call_ensures(control::plan_cycle, (receiver_armed, cmd, ch, valid), plan),
    ensures
        out@ == seq![
            Reply::CommandAck { seq: old(u)@.seq, command: c.command, result: 0 },
        ],
        plan.target == control::Target::Land <==> c.command == 21,
        plan.armed <==> receiver_armed || old(u)@.cmd.armed,
{
    law_mode_commands(old(u)@, c, critical);
}

} // verus!
