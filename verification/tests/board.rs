use joc_app::demo::{demo_frame, echo, next_round, spawn_demo};
use joc_app::device::{
    device_name, i2c_read, i2c_register, i2c_write_read, service_result, Device,
};
use joc_app::flyctrl::control::{plan_cycle, CmdState};
use joc_app::flyctrl::sensors_task::SharedFrame;
use joc_app::flyctrl_task::{end_cycle, imu_from_read, pack_pwm, parse_imu, CycleMessage};
use joc_app::intg_test::{
    a1_marker, a2_marker, a3_marker, a3_start, a_done, b_done, b_marker, c_done, c_reports,
    c_tasks, d_done, d_tasks, dev_name, f_done, first_task, g_done, h_done, h_tasks, i_done, measure_sleep, open_name, open_outcome,
    run_intg_test, ErrorProbe, IrqProbe, OpenOutcome, SemProbe,
};
use joc_app::ioctl;
use joc_app::real32::Real32;
use joc_app::sensors::dataset::{Frame, Playback, RcFrame};
use joc_app::sensors::registers::{mpu6050_wake, BaroBmp280, ImuMpu6050, MagQmc5883};
use joc_app::sensors::stack::{Derived, SensorHealth, SensorStack};
use joc_app::sensors::virtual_sensors::{
    VirtualBaro, VirtualGps, VirtualImu, VirtualMag, VirtualRc,
};
use joc_app::usbtest::{start, usbtest_line};
use joc_app::vehicle::Vec3;

fn r(v: f32) -> Real32 {
    Real32::from_bits(v.to_bits())
}

fn v3(x: f32, y: f32, z: f32) -> Vec3 {
    Vec3 { x: r(x), y: r(y), z: r(z) }
}

// Devices.

#[test]
fn device_names_are_padded() {
    let b = device_name("usb0\0").unwrap();
    assert_eq!(&b[..6], b"usb0\0\0");
    assert_eq!(&b[6..], &[0; 26]);
    assert!(device_name(&"x".repeat(31)).is_some());
    assert!(device_name(&"x".repeat(32)).is_none());
    assert_eq!(device_name("").unwrap(), [0; 32]);
}

#[test]
fn missing_service_is_an_error() {
    assert_eq!(service_result(None), -1);
    assert_eq!(service_result(Some(7)), 7);
}

#[test]
fn handles_are_closed_only_if_opened() {
    assert!(Device::get(false).is_none());
    let mut h = Device::get(true).unwrap();
    assert!(!h.release());
    let mut h = Device::get(true).unwrap();
    assert!(h.needs_open());
    assert_eq!(h.open_dev(None), -1);
    assert_eq!(h.open_dev(Some(-3)), -3);
    assert!(h.needs_open());
    assert_eq!(h.open_dev(Some(0)), 0);
    assert!(!h.needs_open());
    assert_eq!(h.open_dev(Some(-3)), 0);
    assert!(h.release());
    assert!(!h.release());
    assert!(Device::open(true, Some(0)).unwrap().opened);
    assert!(Device::open(true, Some(-1)).is_none());
    assert!(Device::open(true, None).is_none());
    assert!(Device::open(false, Some(0)).is_none());
}

#[test]
fn register_read_is_a_write_and_a_read() {
    let w = i2c_register(0x68, 0x3B);
    assert_eq!((w.addr, w.len, w.result), (0x68, 1, 0));
    assert_eq!(w.buf, vec![0x3B]);
    assert!(i2c_read(0x68, -1, 0, 14).is_none());
    assert!(i2c_read(0x68, 0, -1, 14).is_none());
    let rd = i2c_read(0x68, 0, 0, 14).unwrap();
    assert_eq!((rd.addr, rd.len), (0x68, 14));
    assert_eq!(rd.buf, vec![0; 14]);
    assert_eq!(i2c_read(1, 0, 0, 65537).unwrap().len, 1);
    assert_eq!(i2c_write_read((0, 0), Some((0, 0))), 0);
    assert_eq!(i2c_write_read((1, 0), None), -1);
    assert_eq!(i2c_write_read((0, -1), None), -1);
    assert_eq!(i2c_write_read((0, 0), Some((0, -1))), -1);
    assert_eq!(i2c_write_read((0, 0), Some((5, 0))), -1);
}

#[test]
fn control_call_numbers() {
    assert_eq!(ioctl::PWM_IOCTL_SET_FREQ, 0x22);
    assert_eq!(ioctl::I2C_IOCTL_MASTER_READ, 0x31);
    assert_eq!(ioctl::UART_IOCTL_GET_BAUDRATE, 0x02);
    assert_eq!(ioctl::USB_IOCTL_TX_PUMP, 0xDC);
}

// Sensors.

#[test]
fn inertial_registers() {
    let imu = ImuMpu6050::new(0x68, true, (0, 0)).unwrap();
    assert_eq!(imu.addr, 0x68);
    let raw = [0x01, 0x02, 0xFF, 0xFE, 0x80, 0x00, 9, 9, 0x7F, 0xFF, 0x00, 0x00, 0xFF, 0xFF];
    let c = imu.read(0, &raw).unwrap();
    assert_eq!((c.ax, c.ay, c.az), (0x0102, -2, -32768));
    assert_eq!((c.gx, c.gy, c.gz), (32767, 0, -1));
    assert!(imu.read(-1, &raw).is_none());
    assert_eq!(mpu6050_wake(), [0x6B, 0]);
    assert!(ImuMpu6050::new(0x68, false, (0, 0)).is_none());
    assert!(ImuMpu6050::new(0x68, true, (1, 0)).is_none());
    assert!(ImuMpu6050::new(0x68, true, (0, -1)).is_none());
}

#[test]
fn compass_registers() {
    let mag = MagQmc5883::new(0x0D, true).unwrap();
    let raw = [0x02, 0x01, 0xFE, 0xFF, 0x00, 0x80];
    let c = mag.read(0, &raw).unwrap();
    assert_eq!((c.x, c.y, c.z), (0x0102, -2, -32768));
    assert!(mag.read(-1, &raw).is_none());
    assert!(MagQmc5883::new(0x0D, false).is_none());
}

#[test]
fn pressure_registers() {
    let baro = BaroBmp280::new(0x76, true).unwrap();
    assert_eq!(baro.read_pressure(0, &[0xFF, 0xFF, 0xFF, 0, 0, 0]), Some(0xFFFFF));
    assert_eq!(baro.read_pressure(0, &[0x65, 0x5A, 0xC7, 1, 2, 3]), Some(0x655AC));
    assert_eq!(baro.read_pressure(-1, &[0; 6]), None);
    assert!(BaroBmp280::new(0x76, false).is_none());
}

fn frame(n: f32) -> Frame {
    Frame {
        imu_accel: v3(n, n + 1.0, 9.81),
        imu_gyro: v3(0.1, 0.2, 0.3),
        baro_alt: r(n * 2.0),
        gps: v3(37.0, -122.0, 15.0),
        rc: RcFrame { throttle: r(0.6), roll: r(0.1), pitch: r(-0.1), yaw: r(0.2), aux1: r(1.0) },
    }
}

#[test]
fn playback_loops() {
    let mut p = Playback::new((0..5).map(|i| frame(i as f32)).collect());
    assert_eq!(p.len(), 5);
    assert!(!p.is_empty());
    assert_eq!(p.current(), frame(0.0));
    assert_eq!(p.advance(0), 0);
    assert_eq!(p.advance(3), 3);
    assert_eq!(p.advance(3), 1);
    assert_eq!(p.current(), frame(1.0));
    assert_eq!(p.advance(5), 1);
    assert_eq!(p.advance(1003), 4);
    assert_eq!(p.advance(usize::MAX), (4 + usize::MAX % 5) % 5);
    assert!(Playback::new(vec![]).is_empty());
}

#[test]
fn virtual_sensors_read_the_frame() {
    let s = SensorStack::new();
    let f = frame(3.0);
    let d = Derived { az: r(0.0), north: r(12.0), east: r(-7.0), mode: 255 };
    let imu = s.read_imu(&f, &d);
    assert_eq!(imu.accel, v3(3.0, 4.0, 0.0));
    assert_eq!(imu.gyro, f.imu_gyro);
    assert_eq!(s.read_altitude(&f), r(6.0));
    assert_eq!(s.read_gps(&f, &d).unwrap().pos, v3(12.0, -7.0, -15.0));
    let rc = s.read_rc(&f, &d);
    assert_eq!((rc.throttle, rc.roll, rc.pitch, rc.yaw), (r(0.6), r(0.1), r(-0.1), r(0.2)));
    assert!(!rc.armed);
    assert!(rc.fresh);
    assert_eq!(rc.mode, 255);
    assert_eq!(s.read_mag(), v3(0.0, 0.0, 0.0));
    assert_eq!(
        s.health(),
        SensorHealth { imu: true, baro: true, gps: true, rc: true, mag: true }
    );
    let all = s.read_all(&f, &d);
    assert_eq!(all.imu, Some(imu));
    assert_eq!(all.baro_alt, Some(r(6.0)));
    assert_eq!(all.rc, rc);
}

#[test]
fn virtual_receiver_never_arms() {
    let stack = SensorStack::new();
    let d = Derived { az: r(0.0), north: r(0.0), east: r(0.0), mode: 0 };
    let mut shared = SharedFrame::new();
    shared.write(&stack.read_all(&frame(1.0), &d));
    let f = shared.frame;
    assert!(f.imu_ok && f.baro_ok && f.gps_ok && !f.armed);
    for armed in [false, true] {
        assert_eq!(plan_cycle(f.armed, CmdState { armed, mode: 0 }, &[0; 8], false).armed, armed);
    }
}

#[test]
fn virtual_sensors_are_always_there() {
    assert!(VirtualImu::new().unwrap().healthy());
    assert!(VirtualBaro::new().unwrap().healthy());
    assert!(VirtualGps::new().unwrap().healthy());
    assert!(VirtualRc::new().unwrap().healthy());
    assert!(VirtualMag::new().unwrap().healthy());
}

// Single-task flight control.

#[test]
fn inertial_sample_from_bytes() {
    let vals = [1.5f32, -2.0, 9.81, 0.01, -0.02, 0.03];
    let mut buf = [0u8; 32];
    for (i, v) in vals.iter().enumerate() {
        buf[4 * i..4 * i + 4].copy_from_slice(&v.to_le_bytes());
    }
    let s = parse_imu(&buf[..24]).unwrap();
    assert_eq!(s.accel, v3(1.5, -2.0, 9.81));
    assert_eq!(s.gyro, v3(0.01, -0.02, 0.03));
    assert!(parse_imu(&buf[..23]).is_none());
    assert_eq!(imu_from_read(24, &buf), Some(s));
    assert_eq!(imu_from_read(1000, &buf), Some(s));
    assert!(imu_from_read(23, &buf).is_none());
    assert!(imu_from_read(-1, &buf).is_none());
}

#[test]
fn motor_commands_to_bytes() {
    let m = [0.0f32, 0.25, 0.5, 1.0];
    let b = pack_pwm(&[r(m[0]), r(m[1]), r(m[2]), r(m[3])]);
    let mut want = Vec::new();
    for v in m {
        want.extend(v.to_le_bytes());
    }
    assert_eq!(b, want);
}

#[test]
fn single_task_messages() {
    let mut seq = 255u8;
    let out = end_cycle(&mut seq, true);
    assert_eq!(
        out,
        vec![
            CycleMessage::Heartbeat { seq: 255, mode: 0, armed: false },
            CycleMessage::LocalPosition { seq: 255 },
            CycleMessage::SysStatus { seq: 255, healthy: false },
        ]
    );
    assert_eq!(seq, 0);
}

// Link checks.

#[test]
fn demo_frames() {
    assert_eq!(demo_frame(0), [&[0xFD, 8][..], &[0; 16]].concat());
    let f = demo_frame(8);
    assert_eq!(f.len(), 26);
    assert_eq!(f[1], 16);
    assert_eq!(demo_frame(9)[1], 8);
    assert_eq!(echo(3, b"abcdef"), b"abc");
    assert_eq!(echo(0, b"abcdef"), b"");
    assert_eq!(echo(-2, b"abcdef"), b"");
    let mut n = 23;
    assert!(!next_round(&mut n));
    assert!(next_round(&mut n));
    assert_eq!(n, 25);
    let t = spawn_demo();
    assert_eq!((t.name, t.prio, t.stack_size), ("demo_app\0", 6, 4096));
}

#[test]
fn usb_check_line() {
    assert_eq!(usbtest_line(7, 4294967295), b"USBTEST seq=7 ticks=4294967295\r\n");
    assert_eq!(usbtest_line(0, 0), b"USBTEST seq=0 ticks=0\r\n");
    let t = start();
    assert_eq!((t.name, t.prio, t.stack_size), ("usbtest\0", 6, 1536));
}

// Integration checks.

#[test]
fn device_markers() {
    let names: Vec<_> = (0..6).map(dev_name).collect();
    assert_eq!(names, vec!["uart0\0", "usb0\0", "pwm0\0", "i2c0\0", "spi0\0", "uart1\0"]);
    let names: Vec<_> = (0..4).map(open_name).collect();
    assert_eq!(names, vec!["pwm0\0", "spi0\0", "i2c0\0", "uart1\0"]);
    assert_eq!(a1_marker(5), b"INTG: A1 enum=5/6\r\n");
    assert_eq!(a2_marker(3), b"INTG: A2 uart0x3=3/3\r\n");
    assert_eq!(a3_start(b"pwm0\0"), b"INTG: A3+pwm0\r\n");
    assert_eq!(open_outcome(false, 0), OpenOutcome::Missing);
    assert_eq!(open_outcome(true, -4), OpenOutcome::Refused(-4));
    assert_eq!(open_outcome(true, 0), OpenOutcome::Done);
    assert_eq!(a3_marker(b"pwm0\0", OpenOutcome::Missing), b"INTG: A3- get fail\r\n");
    assert_eq!(a3_marker(b"pwm0\0", OpenOutcome::Refused(-4)), b"INTG: A3- open rc=-4\r\n");
    assert_eq!(a3_marker(b"pwm0\0", OpenOutcome::Done), b"INTG: A3- pwm0 ok\r\n");
    assert_eq!(a_done(6, 3, 4), b"INTG: A done ok\r\n");
    assert_eq!(a_done(5, 3, 4), b"INTG: A done FAIL\r\n");
    assert_eq!(a_done(6, 2, 4), b"INTG: A done FAIL\r\n");
    assert_eq!(a_done(6, 3, 3), b"INTG: A done FAIL\r\n");
}

#[test]
fn pause_markers() {
    assert_eq!(measure_sleep(10, 100, 112), (12, 2));
    assert_eq!(measure_sleep(10, 100, 108), (8, 2));
    assert_eq!(measure_sleep(5, u32::MAX, 4), (5, 0));
    assert!(b_marker(10, 12, 2).is_none());
    assert_eq!(b_marker(10, 13, 3).unwrap(), b"INTG: B bad n=10 dt=13\r\n");
    assert_eq!(b_done(&[0, 2, 1]), b"INTG: B done ok\r\n");
    assert_eq!(b_done(&[0, 3, 1]), b"INTG: B done FAIL\r\n");
    assert_eq!(b_done(&[]), b"INTG: B done ok\r\n");
}

#[test]
fn concurrency_markers() {
    let at: Vec<u32> = (0..20).filter(|&i| c_reports(i)).collect();
    assert_eq!(at, vec![4, 9, 14, 19]);
    assert_eq!(c_done(20, 20), b"INTG: C done c1=20 c2=20 ok\r\n");
    assert_eq!(c_done(20, 19), b"INTG: C done c1=20 c2=19 FAIL\r\n");
    assert_eq!(h_done(4, 4), b"INTG: H done ok =give=4 done=4\r\n");
    assert_eq!(h_done(4, 3), b"INTG: H done FAIL =give=4 done=3\r\n");
}

#[test]
fn semaphore_markers() {
    let p = SemProbe { empty: -1, still_empty: -1, drained: -1, got: 5, count: 0 };
    assert_eq!(d_done(&p), b"INTG: D done try=-1,-1,-1 got=5 cnt=0 ok\r\n");
    let q = SemProbe { drained: 0, ..p };
    assert_eq!(d_done(&q), b"INTG: D done try=-1,-1,0 got=5 cnt=0 FAIL\r\n");
}

#[test]
fn console_markers() {
    assert_eq!(f_done(0, 115200, 0), b"INTG: F done ioctl=0 baud=115200 rd=0 ok\r\n");
    assert_eq!(f_done(-1, 9600, -1), b"INTG: F done ioctl=4294967295 baud=9600 rd=4294967295 FAIL\r\n");
}

#[test]
fn error_path_markers() {
    let good = ErrorProbe {
        found_empty: false,
        found_unknown: false,
        open_null: -1,
        read_null: Some(-1),
        write_null: Some(-1),
        bad_ioctl: Some(-1),
        close_null: -1,
        limit0_try: -1,
        cycle0: 10,
        cycle1: 11,
    };
    assert_eq!(g_done(&good), b"INTG: G done ok\r\n");
    let no_console = ErrorProbe { read_null: None, write_null: None, bad_ioctl: None, ..good };
    assert_eq!(g_done(&no_console), b"INTG: G done ok\r\n");
    let bad = ErrorProbe {
        found_empty: true,
        found_unknown: true,
        open_null: 0,
        read_null: Some(3),
        write_null: Some(-2),
        bad_ioctl: Some(0),
        close_null: 1,
        limit0_try: 0,
        cycle0: 9,
        cycle1: 8,
    };
    let text: &[u8] = b"INTG: G1 nil empty not null\r\nINTG: G1 nil nope not null\r\nINTG: G2 open null rc=0\r\nINTG: G3 read null=3\r\nINTG: G3 write null=-2\r\nINTG: G4 ioctl bad=0\r\nINTG: G5 close null=1\r\nINTG: G6 limit0 try=0\r\nINTG: G7 cycle c0=9 c1=8\r\nINTG: G done FAIL\r\n";
    assert_eq!(g_done(&bad), text);
}

#[test]
fn interrupt_markers() {
    assert_eq!(i_done(&IrqProbe::Waited { rv: 0, fired: 1 }), b"INTG: I done ok\r\n");
    assert_eq!(
        i_done(&IrqProbe::Waited { rv: -1, fired: 0 }),
        b"INTG: I done FAIL rv=-1 fired=0\r\n"
    );
    assert_eq!(
        i_done(&IrqProbe::NotAttached(-2)),
        b"INTG: I irq_attach rc=-2\r\nINTG: I done FAIL\r\n"
    );
}

#[test]
fn check_tasks() {
    let t = first_task();
    assert_eq!((t.name, t.prio, t.stack_size), ("intg_a\0", 20, 4096));
    for ((a, b), want) in [
        (c_tasks(), [("intg_c1\0", 20), ("intg_c2\0", 21)]),
        (d_tasks(), [("intg_dc\0", 20), ("intg_dp\0", 21)]),
        (h_tasks(), [("intg_hw\0", 20), ("intg_hp\0", 19)]),
    ] {
        assert_eq!([(a.name, a.prio), (b.name, b.prio)], want);
    }
    let rows: Vec<_> = run_intg_test().iter().map(|t| (t.name, t.prio, t.stack_size)).collect();
    assert_eq!(
        rows,
        vec![
            ("intg_b\0", 19, 1024),
            ("intg_c\0", 19, 1024),
            ("intg_d\0", 19, 1024),
            ("intg_f\0", 19, 1024),
            ("intg_g\0", 19, 1024),
            ("intg_h\0", 19, 1024),
            ("intg_i\0", 18, 1024),
            ("intg_end\0", 19, 1024),
        ]
    );
}
