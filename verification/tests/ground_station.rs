use joc_app::flyctrl::control::{plan_cycle, CmdState};
use joc_app::flyctrl::frames::FxParser;
use joc_app::flyctrl::mission::{MissionItem, MissionReply};
use joc_app::flyctrl::params::{find_param, param_name, param_name_str, PARAM_COUNT};
use joc_app::flyctrl::telemetry::{Downlink, Report, Telemetry};
use joc_app::flyctrl::uplink::{
    message_kind, next_seq, CommandLong, Message, MessageKind, ParamSet, Reply, Uplink,
    OVERRIDE_TICKS,
};
use joc_app::real32::Real32;

const MAX: usize = 280;

fn r(v: f32) -> Real32 {
    Real32::from_bits(v.to_bits())
}

fn frame(payload: &[u8]) -> Vec<u8> {
    let mut f = vec![0xFD, payload.len() as u8, 0, 0, 1, 255, 190, 76, 0, 0];
    f.extend(payload);
    f.extend([0x12, 0x34]);
    f
}

fn command(target_system: u8, command: u16, p1: f32, p2: f32) -> Message {
    let z = r(0.0);
    Message::CommandLong(CommandLong { target_system, command, params: [r(p1), r(p2), z, z, z, z, z] })
}

fn id(name: &str) -> [u8; 16] {
    let mut b = [0u8; 16];
    b[..name.len()].copy_from_slice(name.as_bytes());
    b
}

fn set(name: &str, v: f32) -> Message {
    Message::ParamSet(ParamSet { id: id(name), value: r(v) })
}

fn item(seq: u16) -> MissionItem {
    MissionItem {
        target_system: 1,
        target_component: 1,
        seq,
        command: 16,
        param1: r(seq as f32),
        param2: r(0.5),
        param3: r(-1.0),
        param4: r(f32::NAN),
        x: 374275000 + seq as i32,
        y: -1221697000,
        z: r(10.0 * seq as f32),
        frame: 6,
        current: 0,
        autocontinue: 1,
        mission_type: 0,
    }
}

// Frames.

#[test]
fn whole_frame_comes_out() {
    let mut p = FxParser::new(MAX);
    let f = frame(&[1, 2, 3]);
    assert_eq!(p.feed(&f), vec![f]);
}

#[test]
fn frame_without_payload_comes_out() {
    let mut p = FxParser::new(MAX);
    let f = frame(&[]);
    assert_eq!(f.len(), 12);
    assert_eq!(p.feed(&f), vec![f]);
}

#[test]
fn split_and_joined_reads_give_the_same_frames() {
    let a = frame(&[9; 20]);
    let b = frame(&[0xFD; 5]);
    let mut all = a.clone();
    all.extend(&b);
    for cut in 0..=all.len() {
        let mut p = FxParser::new(MAX);
        let mut got = p.feed(&all[..cut]);
        got.extend(p.feed(&all[cut..]));
        assert_eq!(got, vec![a.clone(), b.clone()]);
    }
}

#[test]
fn noise_between_frames_is_dropped() {
    let mut p = FxParser::new(MAX);
    let f = frame(&[7; 4]);
    let mut s = vec![0, 1, 2, 0xFE];
    s.extend(&f);
    s.extend([5, 5, 5]);
    s.extend(&f);
    assert_eq!(p.feed(&s), vec![f.clone(), f]);
}

#[test]
fn overlong_frame_is_given_up_after_its_header() {
    let mut p = FxParser::new(40);
    let long = frame(&[1; 29]);
    assert_eq!(long.len(), 41);
    let f = frame(&[2; 28]);
    assert_eq!(p.feed(&long[..10]), Vec::<Vec<u8>>::new());
    assert_eq!(p.feed(&f), vec![f]);
}

#[test]
fn byte_that_completes_a_frame_gives_it() {
    let mut p = FxParser::new(MAX);
    let f = frame(&[1]);
    for &b in &f[..f.len() - 1] {
        assert!(p.feed_byte(b).is_none());
    }
    assert_eq!(p.feed_byte(f[f.len() - 1]).unwrap(), f);
}

#[test]
fn reset_forgets_a_partial_frame() {
    let mut p = FxParser::new(MAX);
    let f = frame(&[1]);
    p.feed(&f[..6]);
    p.reset();
    assert_eq!(p.feed(&f), vec![f]);
}

#[test]
fn unusable_read_lengths_are_ignored() {
    let mut p = FxParser::new(MAX);
    let f = frame(&[1]);
    assert!(p.poll_read(0, &f).is_empty());
    assert!(p.poll_read(-5, &f).is_empty());
    assert!(p.poll_read(f.len() as i32 + 1, &f).is_empty());
    let mut buf = f.clone();
    buf.extend([0xFD; 20]);
    assert_eq!(p.poll_read(f.len() as i32, &buf), vec![f]);
}

// Routing.

#[test]
fn message_numbers() {
    assert_eq!(message_kind(76), MessageKind::CommandLong);
    assert_eq!(message_kind(20), MessageKind::ParamRequestRead);
    assert_eq!(message_kind(21), MessageKind::ParamRequestList);
    assert_eq!(message_kind(23), MessageKind::ParamSet);
    assert_eq!(message_kind(43), MessageKind::MissionRequestList);
    assert_eq!(message_kind(44), MessageKind::MissionCount);
    assert_eq!(message_kind(73), MessageKind::MissionItemInt);
    assert_eq!(message_kind(70), MessageKind::RcChannelsOverride);
    assert_eq!(message_kind(0), MessageKind::Other);
}

#[test]
fn arm_and_disarm() {
    let mut u = Uplink::new();
    assert_eq!(u.cmd(), CmdState { armed: false, mode: 0 });
    let out = u.route_frame(&command(1, 400, 1.0, 0.0), false);
    assert_eq!(out, vec![Reply::CommandAck { seq: 0, command: 400, result: 0 }]);
    assert!(u.cmd().armed);
    let out = u.route_frame(&command(0, 400, 0.5, 0.0), false);
    assert_eq!(out, vec![Reply::CommandAck { seq: 1, command: 400, result: 0 }]);
    assert!(!u.cmd().armed);
    u.route_frame(&command(1, 400, 1.0, 0.0), false);
    u.route_frame(&command(1, 400, f32::NAN, 0.0), false);
    assert!(!u.cmd().armed);
}

#[test]
fn other_vehicles_are_not_obeyed() {
    let mut u = Uplink::new();
    assert!(u.route_frame(&command(2, 400, 1.0, 0.0), false).is_empty());
    assert!(!u.cmd().armed);
}

#[test]
fn modes() {
    let mut u = Uplink::new();
    u.route_frame(&command(1, 176, 128.0, 5.0), false);
    assert_eq!(u.cmd().mode, 5);
    u.route_frame(&command(1, 22, 0.0, 0.0), false);
    assert_eq!(u.cmd().mode, 2);
    u.route_frame(&command(1, 21, 0.0, 0.0), false);
    assert_eq!(u.cmd().mode, 9);
    u.route_frame(&command(1, 20, 0.0, 0.0), false);
    assert_eq!(u.cmd().mode, 6);
    u.route_frame(&command(1, 176, 0.0, 70000.0), false);
    assert_eq!(u.cmd().mode, 65535);
    u.route_frame(&command(1, 176, 0.0, -1.0), false);
    assert_eq!(u.cmd().mode, 0);
}

#[test]
fn unknown_command_is_denied() {
    let mut u = Uplink::new();
    let out = u.route_frame(&command(1, 999, 0.0, 0.0), false);
    assert_eq!(out, vec![Reply::CommandAck { seq: 0, command: 999, result: 1 }]);
    assert_eq!(u.cmd(), CmdState { armed: false, mode: 0 });
}

#[test]
fn capabilities_follow_in_the_next_poll() {
    let mut u = Uplink::new();
    let out = u.route_frame(&command(1, 520, 0.0, 0.0), false);
    assert_eq!(out, vec![Reply::CommandAck { seq: 0, command: 520, result: 0 }]);
    let poll = u.finish_poll();
    assert_eq!(poll.replies, vec![Reply::AutopilotVersion { seq: 1, capabilities: 8194 }]);
    assert!(u.finish_poll().replies.is_empty());
}

#[test]
fn other_messages_are_ignored() {
    let mut u = Uplink::new();
    assert!(u.route_frame(&Message::Other, false).is_empty());
}

#[test]
fn message_numbers_wrap() {
    let mut s = 254u8;
    assert_eq!(next_seq(&mut s), 254);
    assert_eq!(next_seq(&mut s), 255);
    assert_eq!(next_seq(&mut s), 0);
}

// Parameters.

#[test]
fn parameter_names() {
    let names = ["KpXY", "KpZ", "KvXY", "KvZ", "HoverThrust"];
    assert_eq!(PARAM_COUNT, 5);
    for (i, n) in names.iter().enumerate() {
        assert_eq!(param_name(i), id(n));
        assert_eq!(find_param(&id(n)), Some(i));
        assert_eq!(param_name_str(&id(n)), n.as_bytes());
    }
    assert_eq!(find_param(&id("THR_MID")), None);
    assert_eq!(param_name_str(&[b'x'; 16]), &[b'x'; 16]);
}

#[test]
fn default_parameters() {
    let u = Uplink::new();
    let g: Vec<f32> = u.gains().iter().map(|v| f32::from_bits(v.bits)).collect();
    assert_eq!(g, vec![0.5, 0.5, 0.8, 0.8, 0.5]);
}

#[test]
fn all_parameters_are_sent_one_per_poll() {
    let mut u = Uplink::new();
    assert!(u.route_frame(&Message::ParamRequestList, false).is_empty());
    let vals = [0.5, 0.5, 0.8, 0.8, 0.5];
    for i in 0..5u16 {
        let out = u.finish_poll().replies;
        assert_eq!(
            out,
            vec![Reply::ParamValue { seq: i as u8, index: i, value: r(vals[i as usize]) }]
        );
    }
    for _ in 0..3 {
        assert!(u.finish_poll().replies.is_empty());
    }
}

#[test]
fn written_parameter_is_echoed_and_read_back() {
    let mut u = Uplink::new();
    let out = u.route_frame(&set("KpZ", 2.25), false);
    assert_eq!(out, vec![Reply::ParamValue { seq: 0, index: 1, value: r(2.25) }]);
    let out = u.route_frame(&Message::ParamRequestRead(id("KpZ")), false);
    assert_eq!(out, vec![Reply::ParamValue { seq: 1, index: 1, value: r(2.25) }]);
    assert_eq!(u.gains()[1], r(2.25));
    assert_eq!(u.gains()[0], r(0.5));
}

#[test]
fn illegal_values_are_refused() {
    let failed = |seq: u8| vec![Reply::CommandAck { seq, command: 23, result: 4 }];
    let mut u = Uplink::new();
    assert_eq!(u.route_frame(&set("KpXY", 5.1), false), failed(0));
    assert_eq!(u.route_frame(&set("KpXY", -0.1), false), failed(1));
    assert_eq!(u.route_frame(&set("HoverThrust", 0.05), false), failed(2));
    assert_eq!(u.route_frame(&set("HoverThrust", 1.5), false), failed(3));
    assert_eq!(u.route_frame(&set("KvZ", f32::NAN), false), failed(4));
    assert_eq!(u.route_frame(&set("KvZ", f32::INFINITY), false), failed(5));
    assert_eq!(u.gains(), Uplink::new().gains());
}

#[test]
fn range_ends_are_legal() {
    let mut u = Uplink::new();
    for (name, v) in [("KpXY", 0.0), ("KpXY", 5.0), ("HoverThrust", 0.1), ("HoverThrust", 1.0)] {
        let out = u.route_frame(&set(name, v), false);
        assert!(matches!(out[0], Reply::ParamValue { .. }));
    }
}

#[test]
fn unknown_parameters_are_ignored() {
    let mut u = Uplink::new();
    assert!(u.route_frame(&set("NOPE", 1.0), false).is_empty());
    assert!(u.route_frame(&Message::ParamRequestRead(id("NOPE")), false).is_empty());
}

// Missions.

fn upload(u: &mut Uplink, n: u16) {
    let out = u.route_frame(&Message::MissionCount(n), false);
    assert_eq!(out, vec![Reply::Mission(MissionReply::Request(0))]);
    for i in 0..n {
        let out = u.route_frame(&Message::MissionItemInt(item(i)), false);
        let want = if i + 1 < n { MissionReply::Request(i + 1) } else { MissionReply::Ack(0) };
        assert_eq!(out, vec![Reply::Mission(want)]);
    }
}

fn download(u: &mut Uplink) -> Vec<MissionItem> {
    let out = u.route_frame(&Message::MissionRequestList, false);
    assert_eq!(out[0], Reply::Mission(MissionReply::Count(out.len() as u16 - 2)));
    assert_eq!(out[out.len() - 1], Reply::Mission(MissionReply::Ack(0)));
    out[1..out.len() - 1]
        .iter()
        .map(|m| match m {
            Reply::Mission(MissionReply::Item(i)) => *i,
            _ => panic!(),
        })
        .collect()
}

#[test]
fn uploaded_mission_is_downloaded() {
    for n in [1u16, 2, 17, 64] {
        let mut u = Uplink::new();
        upload(&mut u, n);
        let want: Vec<MissionItem> = (0..n).map(item).collect();
        assert_eq!(download(&mut u), want);
    }
}

#[test]
fn new_mission_replaces_the_old_one() {
    let mut u = Uplink::new();
    upload(&mut u, 10);
    upload(&mut u, 3);
    assert_eq!(download(&mut u).len(), 3);
}

#[test]
fn empty_mission_is_downloaded_as_such() {
    let mut u = Uplink::new();
    assert!(download(&mut u).is_empty());
}

#[test]
fn too_many_items_are_refused() {
    let mut u = Uplink::new();
    upload(&mut u, 2);
    let out = u.route_frame(&Message::MissionCount(65), false);
    assert_eq!(out, vec![Reply::Mission(MissionReply::Ack(4))]);
    assert!(u.route_frame(&Message::MissionItemInt(item(0)), false).is_empty());
    assert_eq!(download(&mut u).len(), 2);
}

#[test]
fn item_out_of_turn_is_refused() {
    let mut u = Uplink::new();
    u.route_frame(&Message::MissionCount(2), false);
    let out = u.route_frame(&Message::MissionItemInt(item(1)), false);
    assert_eq!(out, vec![Reply::Mission(MissionReply::Ack(5))]);
    let out = u.route_frame(&Message::MissionItemInt(item(0)), false);
    assert_eq!(out, vec![Reply::Mission(MissionReply::Request(1))]);
    let out = u.route_frame(&Message::MissionItemInt(item(0)), false);
    assert_eq!(out, vec![Reply::Mission(MissionReply::Ack(5))]);
    let out = u.route_frame(&Message::MissionItemInt(item(1)), false);
    assert_eq!(out, vec![Reply::Mission(MissionReply::Ack(0))]);
    assert_eq!(download(&mut u), vec![item(0), item(1)]);
}

#[test]
fn item_that_nobody_asked_for_is_ignored() {
    let mut u = Uplink::new();
    assert!(u.route_frame(&Message::MissionItemInt(item(0)), false).is_empty());
}

#[test]
fn count_of_zero_still_asks_for_an_item() {
    let mut u = Uplink::new();
    let out = u.route_frame(&Message::MissionCount(0), false);
    assert_eq!(out, vec![Reply::Mission(MissionReply::Request(0))]);
    let out = u.route_frame(&Message::MissionItemInt(item(0)), false);
    assert_eq!(out, vec![Reply::Mission(MissionReply::Ack(0))]);
    assert!(download(&mut u).is_empty());
}

// Several at once.

#[test]
fn parameter_and_capabilities_share_a_poll() {
    let mut u = Uplink::new();
    u.route_frame(&command(1, 520, 0.0, 0.0), false);
    u.route_frame(&Message::ParamRequestList, false);
    let out = u.finish_poll().replies;
    assert_eq!(
        out,
        vec![
            Reply::ParamValue { seq: 1, index: 0, value: r(0.5) },
            Reply::AutopilotVersion { seq: 2, capabilities: 8194 },
        ]
    );
    assert_eq!(
        u.finish_poll().replies,
        vec![Reply::ParamValue { seq: 3, index: 1, value: r(0.5) }]
    );
}

#[test]
fn only_commands_arm_or_change_the_mode() {
    let mut u = Uplink::new();
    u.route_frame(&command(1, 400, 1.0, 0.0), false);
    u.route_frame(&command(1, 21, 0.0, 0.0), false);
    let before = u.cmd();
    u.route_frame(&set("KpZ", 1.0), false);
    u.route_frame(&Message::ParamRequestList, false);
    upload(&mut u, 3);
    u.route_frame(&Message::RcChannelsOverride([2000; 8]), false);
    u.route_frame(&Message::Other, false);
    u.finish_poll();
    assert_eq!(u.cmd(), before);
}

#[test]
fn heartbeat_follows_the_commands() {
    let mut u = Uplink::new();
    let mut t = Telemetry::new();
    let mut beat = |u: &Uplink| {
        let c = u.cmd();
        let plan = plan_cycle(false, c, &[0; 8], false);
        let p = t.period(&Report { armed: plan.armed, critical: false, mode: c.mode, throttle: 0 });
        match p.messages[0] {
            Downlink::Heartbeat { mode, armed, .. } => (mode, armed),
            _ => panic!(),
        }
    };
    assert_eq!(beat(&u), (0, false));
    u.route_frame(&command(1, 400, 1.0, 0.0), false);
    assert_eq!(beat(&u), (0, true));
    u.route_frame(&command(1, 176, 0.0, 5.0), false);
    assert_eq!(beat(&u), (5, true));
    u.route_frame(&command(1, 400, 0.0, 0.0), false);
    assert_eq!(beat(&u), (5, false));
    u.route_frame(&command(1, 20, 0.0, 0.0), false);
    assert_eq!(beat(&u), (6, false));
    u.route_frame(&command(1, 400, 1.0, 0.0), true);
    assert_eq!(beat(&u), (6, false));
    u.route_frame(&command(1, 176, 0.0, 300.0), false);
    assert_eq!(beat(&u), (300, false));
}

#[test]
fn arming_is_refused_while_critical() {
    let ack = |seq, result| vec![Reply::CommandAck { seq, command: 400, result }];
    let mut u = Uplink::new();
    u.route_frame(&command(1, 21, 0.0, 0.0), true);
    assert_eq!(u.cmd(), CmdState { armed: false, mode: 9 });
    assert_eq!(u.route_frame(&command(1, 400, 1.0, 0.0), true), ack(1, 1));
    assert_eq!(u.cmd(), CmdState { armed: false, mode: 9 });
    assert_eq!(u.route_frame(&command(1, 400, 0.5, 0.0), true), ack(2, 0));
    assert_eq!(u.route_frame(&command(1, 400, 1.0, 0.0), false), ack(3, 0));
    assert_eq!(u.cmd(), CmdState { armed: true, mode: 9 });
    assert_eq!(u.route_frame(&command(1, 400, 1.0, 0.0), true), ack(4, 1));
    assert!(u.cmd().armed);
    assert_eq!(u.route_frame(&command(1, 400, 0.0, 0.0), true), ack(5, 0));
    assert!(!u.cmd().armed);
    assert!(u.route_frame(&command(2, 400, 1.0, 0.0), true).is_empty());
}

#[test]
fn command_is_handled_directly() {
    let z = r(0.0);
    let arm = CommandLong { target_system: 1, command: 400, params: [r(1.0), z, z, z, z, z, z] };
    let mut u = Uplink::new();
    let out = u.handle_command_long(&arm, true);
    assert_eq!(out, vec![Reply::CommandAck { seq: 0, command: 400, result: 1 }]);
    let out = u.handle_command_long(&arm, false);
    assert_eq!(out, vec![Reply::CommandAck { seq: 1, command: 400, result: 0 }]);
    assert!(u.cmd().armed);
}

// Override of the receiver.

#[test]
fn override_holds_for_two_seconds() {
    let mut u = Uplink::new();
    assert_eq!(u.get_rc_override(), ([0; 8], false));
    for _ in 0..7 {
        u.finish_poll();
    }
    let ch = [1600, 1500, 1200, 1400, 0, 0, 0, 0];
    assert!(u.route_frame(&Message::RcChannelsOverride(ch), false).is_empty());
    for _ in 0..=OVERRIDE_TICKS {
        assert_eq!(u.get_rc_override(), (ch, true));
        u.finish_poll();
    }
    assert_eq!(u.get_rc_override(), (ch, false));
    u.route_frame(&Message::RcChannelsOverride(ch), false);
    assert_eq!(u.get_rc_override(), (ch, true));
}

#[test]
fn sign_of_life_every_thousand_polls() {
    let mut u = Uplink::new();
    for i in 1..=2500u32 {
        assert_eq!(u.finish_poll().alive, i % 1000 == 0);
        assert_eq!(u.app_ticks(), i);
    }
}
