use joc_app::abi::{rtos_task_attr_t, rust_app_start, report_mounted, TaskPlan};
use joc_app::flyctrl::control::{
    hil_target, make_name, plan_cycle, set_cmd_armed, set_cmd_mode, CmdState, ControlState,
    OverrideInput, RcChoice, Target,
};
use joc_app::flyctrl::est::{EstFlags, Health};
use joc_app::flyctrl::monitor::{monitor_line, SystemState};
use joc_app::flyctrl::sensors_task::{Samples, SensorFrame, Sensors, SharedFrame};
use joc_app::flyctrl::tasks::{spawn_flyctrl, spawn_flyctrl_task, spawn_log_task};
use joc_app::flyctrl::telemetry::{Downlink, Report, Telemetry};
use joc_app::log::{entry_text, LogRing};
use joc_app::real32::Real32;
use joc_app::vehicle::{ImuSample, PosSample, RcInput, Vec3};

fn r(v: f32) -> Real32 {
    Real32::from_bits(v.to_bits())
}

fn v3(x: f32, y: f32, z: f32) -> Vec3 {
    Vec3 { x: r(x), y: r(y), z: r(z) }
}

fn row(t: &TaskPlan) -> (&str, u8, usize, u8, u8) {
    (t.name, t.prio, t.stack_size, t.priv_, t.attr.rt_class)
}

#[test]
fn flight_control_tasks() {
    let ts = spawn_flyctrl().tasks;
    let rows: Vec<_> = ts.iter().map(row).collect();
    assert_eq!(
        rows,
        vec![
            ("log_task\0", 28, 4096, 1, 0),
            ("control\0", 4, 8192, 1, 1),
            ("sensors\0", 5, 3584, 1, 0),
            ("telem\0", 12, 4096, 1, 0),
            ("uplink\0", 10, 4096, 1, 0),
            ("monitor\0", 14, 2048, 1, 0),
        ]
    );
    assert_eq!(row(&spawn_log_task()), ("log_task\0", 28, 4096, 1, 0));
}

#[test]
fn flight_control_starts_degraded_and_disarmed() {
    let s = spawn_flyctrl();
    assert_eq!(s.est, EstFlags { health: Health::Degraded, armed: false });
    assert_eq!(s.frame, SharedFrame { frame: SensorFrame::empty(), seq: 0 });
    let gains: Vec<Real32> = (0..5).map(|i| s.params.get(i)).collect();
    assert_eq!(gains, vec![r(0.5), r(0.5), r(0.8), r(0.8), r(0.5)]);
    assert!(!s.est.critical());
    assert!(EstFlags { health: Health::Critical, armed: false }.critical());
    assert!(!EstFlags { health: Health::Healthy, armed: true }.critical());
}

#[test]
fn single_task() {
    let t = spawn_flyctrl_task();
    assert_eq!(row(&t), ("flyctrl\0", 4, 2048, 1, 1));
    assert_eq!(t.attr, rtos_task_attr_t { rt_class: 1, deadline_ticks: 4, wcet_ticks: 3 });
}

fn pop(ring: &mut LogRing) -> Vec<u8> {
    let mut out = [0u8; 256];
    let n = ring.ring_pop(&mut out);
    entry_text(&out[..n]).unwrap().to_vec()
}

#[test]
fn service_table_is_checked() {
    let mut ring = LogRing::new();
    assert_eq!(rust_app_start(&mut ring, 30, 0x41505053, 1), 0);
    assert_eq!(pop(&mut ring), b"R/I 30 app_slot: RUST app mounted (rust_app_start)\n");
    assert_eq!(rust_app_start(&mut ring, 31, 0x41505053, 2), -1);
    assert_eq!(
        pop(&mut ring),
        b"R/E 31 app_slot: ABI mismatch magic=0x41505053 ver=2 (exp 1)\n"
    );
    assert_eq!(rust_app_start(&mut ring, 32, 0xBAD, 1), -1);
    assert_eq!(pop(&mut ring), b"R/E 32 app_slot: ABI mismatch magic=0xbad ver=1 (exp 1)\n");
    assert!(report_mounted(&mut ring, 1));
}

#[test]
fn motor_device_names() {
    assert_eq!(make_name(0), b"pwm0\0");
    assert_eq!(make_name(1), b"pwm1\0");
    assert_eq!(make_name(2), b"pwm2\0");
    assert_eq!(make_name(3), b"pwm3\0");
    assert_eq!(make_name(4), b"\0");
    assert_eq!(make_name(255), b"\0");
}

#[test]
fn commanded_state() {
    let mut c = CmdState { armed: false, mode: 3 };
    set_cmd_armed(&mut c, true);
    assert_eq!(c, CmdState { armed: true, mode: 3 });
    set_cmd_mode(&mut c, 9);
    assert_eq!(c, CmdState { armed: true, mode: 9 });
}

#[test]
fn either_source_arms() {
    let ch = [0u16; 8];
    for (rc, cmd) in [(false, false), (false, true), (true, false), (true, true)] {
        let p = plan_cycle(rc, CmdState { armed: cmd, mode: 0 }, &ch, false);
        assert_eq!(p.armed, rc || cmd);
        assert_eq!(p.rc, RcChoice::Receiver);
        assert_eq!(p.target, Target::Hold);
    }
}

#[test]
fn override_replaces_the_sticks() {
    let ch = [1501, 1000, 2000, 2500, 9, 9, 9, 9];
    let p = plan_cycle(false, CmdState { armed: false, mode: 9 }, &ch, true);
    assert_eq!(
        p.rc,
        RcChoice::Override(OverrideInput {
            roll: 501,
            pitch: 0,
            throttle: 1000,
            yaw: 1000,
            armed: true
        })
    );
    assert_eq!(p.target, Target::Land);
    assert!(!p.armed);
    let ch = [1500, 999, 1250, 0, 0, 0, 0, 0];
    let p = plan_cycle(false, CmdState { armed: false, mode: 6 }, &ch, true);
    assert_eq!(
        p.rc,
        RcChoice::Override(OverrideInput { roll: 500, pitch: 0, throttle: 250, yaw: 0, armed: false })
    );
    assert_eq!(p.target, Target::Hold);
}

#[test]
fn simulator_setpoints() {
    assert_eq!(hil_target(true), (Target::Injected, true));
    assert_eq!(hil_target(false), (Target::Stay, false));
}

#[test]
fn reference_altitude_is_taken_on_arming() {
    let mut s = ControlState::new();
    s.end_cycle(false, r(-1.0));
    assert_eq!(s.hold.alt, r(0.0));
    s.end_cycle(true, r(-2.0));
    s.end_cycle(true, r(-3.0));
    assert_eq!(s.hold.alt, r(-2.0));
    s.end_cycle(false, r(-4.0));
    assert_eq!(s.hold.alt, r(-2.0));
    assert!(!s.hold.locked);
    s.end_cycle(true, r(-5.0));
    assert_eq!(s.hold.alt, r(-5.0));
}

#[test]
fn control_log_cadence() {
    let mut s = ControlState::new();
    for i in 1..=600u32 {
        let log = s.end_cycle(false, r(0.0));
        assert_eq!(log.seq, i);
        assert_eq!(log.first, i == 1);
        assert_eq!(log.estimate, i % 25 == 0);
        assert_eq!(log.heartbeat, i % 250 == 0);
    }
}

#[test]
fn long_gap_starts_a_new_session() {
    let mut s = ControlState::new();
    s.end_cycle(true, r(-2.0));
    assert!(!s.resume(100, 149));
    assert!(!s.resume(100, 150));
    assert!(s.hold.locked);
    assert!(s.resume(100, 151));
    assert!(!s.hold.locked);
    assert_eq!(s.hold.alt, r(0.0));
    assert_eq!(s.seq, 1);
    assert!(!s.resume(u32::MAX, 49));
    assert!(s.resume(u32::MAX, 50));
}

#[test]
fn downlink_messages() {
    let mut t = Telemetry::new();
    let rep = Report { armed: true, critical: false, mode: 0x0109, throttle: 55 };
    let p = t.period(&rep);
    assert_eq!(p.time_boot_ms, 0);
    assert!(p.first);
    assert_eq!(
        p.messages,
        vec![
            Downlink::Heartbeat { seq: 0, mode: 0x0109, armed: true },
            Downlink::LocalPosition { seq: 0 },
            Downlink::SysStatus { seq: 0, healthy: true },
            Downlink::Attitude { seq: 0 },
            Downlink::VfrHud { seq: 0, throttle: 55 },
            Downlink::GlobalPosition { seq: 0 },
        ]
    );
    let p = t.period(&Report { critical: true, ..rep });
    assert_eq!(p.time_boot_ms, 20);
    assert!(!p.first);
    assert_eq!(p.messages[2], Downlink::SysStatus { seq: 1, healthy: false });
}

#[test]
fn downlink_counters_wrap() {
    let mut t = Telemetry { seq: 255, boot_ms: u32::MAX - 5 };
    let rep = Report { armed: false, critical: false, mode: 0, throttle: 0 };
    let p = t.period(&rep);
    assert_eq!(p.time_boot_ms, -6);
    assert_eq!(t, Telemetry { seq: 0, boot_ms: 14 });
    assert!(!p.first);
    assert!(t.period(&rep).first);
}

#[test]
fn simulator_gets_the_motors() {
    let t = Telemetry { seq: 9, boot_ms: 4_000_000_000 };
    let h = t.hil_actuators(&[r(0.1), r(0.2), r(0.3), r(0.4)], true);
    assert_eq!(h.time_usec, 4_000_000_000_000);
    assert_eq!(h.controls[..4], [r(0.1), r(0.2), r(0.3), r(0.4)]);
    assert_eq!(h.controls[4..], [r(0.0); 12]);
    assert_eq!((h.flags, h.seq), (161, 9));
    assert_eq!(t.hil_actuators(&[r(0.0); 4], false).flags, 33);
}

fn rc(armed: bool) -> RcInput {
    RcInput {
        roll: r(0.1),
        pitch: r(0.2),
        yaw: r(0.3),
        throttle: r(0.4),
        armed,
        mode: 7,
        fresh: true,
    }
}

#[test]
fn samples_are_published() {
    let imu = ImuSample { accel: v3(1.0, 2.0, 3.0), gyro: v3(4.0, 5.0, 6.0) };
    let gps = PosSample { pos: v3(7.0, 8.0, 9.0) };
    let mut shared = SharedFrame::new();
    assert_eq!(shared.frame, SensorFrame::empty());
    let mut s = Sensors::new(b"sensors\0").unwrap();
    let log = s.sample(
        &mut shared,
        &Samples { imu: Some(imu), baro_alt: Some(r(12.5)), gps: Some(gps), rc: rc(true) },
    );
    assert!(log.first);
    assert_eq!(shared.seq, 2);
    let f = shared.frame;
    assert_eq!(f.imu, Some(imu));
    assert_eq!(f.gps, Some(gps));
    assert_eq!(f.baro_alt, Some(r(12.5)));
    assert!(f.imu_ok && f.gps_ok && f.baro_ok && !f.mag_ok && f.armed);
    let log = s.sample(
        &mut shared,
        &Samples { imu: None, baro_alt: None, gps: None, rc: rc(false) },
    );
    assert!(!log.first);
    assert_eq!(shared.seq, 4);
    let f = shared.frame;
    assert!(!f.imu_ok && !f.gps_ok && !f.baro_ok && !f.armed);
    assert_eq!(f.imu, None);
}

#[test]
fn counter_is_odd_while_writing() {
    let mut shared = SharedFrame::new();
    shared.seq = u32::MAX - 1;
    shared.begin_write();
    assert_eq!(shared.seq % 2, 1);
    shared.end_write();
    assert_eq!(shared.seq, 0);
}

#[test]
fn inertial_sample_can_be_used_once() {
    let imu = ImuSample { accel: v3(1.0, 2.0, 3.0), gyro: v3(4.0, 5.0, 6.0) };
    let mut shared = SharedFrame::new();
    let s = Samples { imu: Some(imu), baro_alt: Some(r(1.0)), gps: None, rc: rc(true) };
    shared.write(&s);
    assert_eq!(shared.take(false).imu, Some(imu));
    assert_eq!(shared.take(true).imu, Some(imu));
    let f = shared.take(true);
    assert_eq!(f.imu, None);
    assert_eq!(f.baro_alt, Some(r(1.0)));
    assert_eq!(f.rc, rc(true));
}

#[test]
fn sampling_log_cadence() {
    let mut shared = SharedFrame::new();
    let mut s = Sensors::new(b"").unwrap();
    let x = Samples { imu: None, baro_alt: None, gps: None, rc: RcInput::none() };
    for i in 1..=1001u32 {
        let log = s.sample(&mut shared, &x);
        assert_eq!(log.count, i);
        assert_eq!(log.heartbeat, i % 500 == 0);
    }
}

#[test]
fn supervision_line() {
    let line = monitor_line(&SystemState {
        imu_ok: true,
        gps_ok: false,
        baro_ok: true,
        armed: false,
        critical: true,
        uptime: 12345,
    });
    assert_eq!(line, b"sys imu=true gps=false baro=true armed=false crit=true uptime=12345ms");
}
