//! On-board integration checks: what each check demands of the operating system,
//! and the markers that report it on the console.

use crate::abi;
use crate::abi::{TaskPlan, RTOS_RT_NONE};
use crate::text;
use vstd::prelude::*;

verus! {

/// Devices that have to be registered.
pub const DEVICES: u32 = 6;

/// Times that the console is opened, written and closed.
pub const UART_CYCLES: u32 = 3;

/// Devices that are opened and closed besides.
pub const OPENED: u32 = 4;

/// Largest error of a pause, in ticks.
pub const SLEEP_TOLERANCE: u32 = 2;

/// Counts of each of the two concurrent tasks.
pub const COUNTS: u32 = 20;

/// Permits that pass from producer to consumer.
pub const PERMITS: u32 = 5;

/// Tasks that wait for the same semaphore.
pub const WAITERS: u32 = 4;

/// Speed of the console.
pub const CONSOLE_BAUD: u32 = 115200;

/// End of a marker: the verdict.
pub open spec fn verdict(ok: bool) -> Seq<u8> {
    if ok {
        text::utf8("ok\r\n"@)
    } else {
        text::utf8("FAIL\r\n"@)
    }
}

fn push_verdict(out: &mut Vec<u8>, ok: bool)
    ensures
        final(out)@ == old(out)@ + verdict(ok),
{
    if ok {
        text::push_str(out, "ok\r\n");
    } else {
        text::push_str(out, "FAIL\r\n");
    }
}

/// The device names that are looked up.
pub open spec fn device_text(i: int) -> Seq<char> {
    if i == 0 {
        "uart0\0"@
    } else if i == 1 {
        "usb0\0"@
    } else if i == 2 {
        "pwm0\0"@
    } else if i == 3 {
        "i2c0\0"@
    } else if i == 4 {
        "spi0\0"@
    } else {
        "uart1\0"@
    }
}

/// The device that is looked up at place `i`.
pub fn dev_name(i: u32) -> (s: &'static str)
    requires
        i < DEVICES,
    ensures
        s@ == device_text(i as int),
{
    match i {
        0 => "uart0\0",
        1 => "usb0\0",
        2 => "pwm0\0",
        3 => "i2c0\0",
        4 => "spi0\0",
        _ => "uart1\0",
    }
}

/// The names of the devices that are opened and closed.
pub open spec fn opened_text(i: int) -> Seq<char> {
    if i == 0 {
        "pwm0\0"@
    } else if i == 1 {
        "spi0\0"@
    } else if i == 2 {
        "i2c0\0"@
    } else {
        "uart1\0"@
    }
}

/// The device that is opened and closed at place `i`.
pub fn open_name(i: u32) -> (s: &'static str)
    requires
        i < OPENED,
    ensures
        s@ == opened_text(i as int),
{
    match i {
        0 => "pwm0\0",
        1 => "spi0\0",
        2 => "i2c0\0",
        _ => "uart1\0",
    }
}

/// Marker of the lookup: how many devices were found.
pub fn a1_marker(found: u32) -> (out: Vec<u8>)
    ensures
        out@ == text::utf8("INTG: A1 enum="@) + text::decimal(found as nat) + text::utf8("/"@)
            + text::decimal(DEVICES as nat) + text::utf8("\r\n"@),
{
    let mut out: Vec<u8> = Vec::new();
    text::push_str(&mut out, "INTG: A1 enum=");
    assert(out@ =~= text::utf8("INTG: A1 enum="@));
    text::wr_num(&mut out, found);
    text::push_str(&mut out, "/");
    text::wr_num(&mut out, DEVICES);
    text::push_str(&mut out, "\r\n");
    out
}

/// Marker of the console cycles: how many went well.
pub fn a2_marker(good: u32) -> (out: Vec<u8>)
    ensures
        out@ == text::utf8("INTG: A2 uart0x3="@) + text::decimal(good as nat) + text::utf8(
            "/3\r\n"@,
        ),
{
    let mut out: Vec<u8> = Vec::new();
    text::push_str(&mut out, "INTG: A2 uart0x3=");
    assert(out@ =~= text::utf8("INTG: A2 uart0x3="@));
    text::wr_num(&mut out, good);
    text::push_str(&mut out, "/3\r\n");
    out
}

/// Marker before a device is opened.
pub fn a3_start(name: &[u8]) -> (out: Vec<u8>)
    ensures
        out@ == text::utf8("INTG: A3+"@) + text::before_nul(name@) + text::utf8("\r\n"@),
{
    let mut out: Vec<u8> = Vec::new();
    text::push_str(&mut out, "INTG: A3+");
    assert(out@ =~= text::utf8("INTG: A3+"@));
    text::wr_name(&mut out, name);
    text::push_str(&mut out, "\r\n");
    out
}

/// How opening a device went.
#[derive(Clone, Copy, Debug, PartialEq, Eq, Structural)]
pub enum OpenOutcome {
    /// The device is not registered.
    Missing,
    /// The driver refused.
    Refused(i32),
    /// The device was opened and closed.
    Done,
}

/// How opening went, from whether the device was found and what the driver said.
pub fn open_outcome(found: bool, rc: i32) -> (o: OpenOutcome)
    ensures
        o == if !found {
            OpenOutcome::Missing
        } else if rc != 0 {
            OpenOutcome::Refused(rc)
        } else {
            OpenOutcome::Done
        },
{
    if !found {
        OpenOutcome::Missing
    } else if rc != 0 {
        OpenOutcome::Refused(rc)
    } else {
        OpenOutcome::Done
    }
}

/// The marker after a device was opened.
pub open spec fn a3_text(name: Seq<u8>, o: OpenOutcome) -> Seq<u8> {
    match o {
        OpenOutcome::Missing => text::utf8("INTG: A3- get fail\r\n"@),
        OpenOutcome::Refused(rc) => text::utf8("INTG: A3- open rc="@) + text::signed_decimal(
            rc as int,
        ) + text::utf8("\r\n"@),
        OpenOutcome::Done => text::utf8("INTG: A3- "@) + text::before_nul(name) + text::utf8(
            " ok\r\n"@,
        ),
    }
}

/// Marker after a device was opened.
pub fn a3_marker(name: &[u8], o: OpenOutcome) -> (out: Vec<u8>)
    ensures
        out@ == a3_text(name@, o),
{
    let mut out: Vec<u8> = Vec::new();
    match o {
        OpenOutcome::Missing => {
            text::push_str(&mut out, "INTG: A3- get fail\r\n");
        },
        OpenOutcome::Refused(rc) => {
            text::push_str(&mut out, "INTG: A3- open rc=");
            text::wr_num_i32(&mut out, rc);
            text::push_str(&mut out, "\r\n");
        },
        OpenOutcome::Done => {
            text::push_str(&mut out, "INTG: A3- ");
            text::wr_name(&mut out, name);
            text::push_str(&mut out, " ok\r\n");
        },
    }
    assert(out@ =~= a3_text(name@, o));
    out
}

/// Verdict on the devices: all were found, all console cycles went well, all
/// others were opened.
pub fn a_done(found: u32, good: u32, opened: u32) -> (out: Vec<u8>)
    ensures
        out@ == text::utf8("INTG: A done "@) + verdict(
            found == DEVICES && good == UART_CYCLES && opened == OPENED,
        ),
{
    let mut out: Vec<u8> = Vec::new();
    text::push_str(&mut out, "INTG: A done ");
    push_verdict(&mut out, found == DEVICES && good == UART_CYCLES && opened == OPENED);
    assert(out@ =~= text::utf8("INTG: A done "@) + verdict(
        found == DEVICES && good == UART_CYCLES && opened == OPENED,
    ));
    out
}

/// The error of a pause of `n` ticks that took from tick `t0` to tick `t1`.
pub open spec fn sleep_error(n: u32, t0: u32, t1: u32) -> int {
    let dt = (t1 - t0) % 0x1_0000_0000;
    if dt >= n {
        dt - n
    } else {
        n - dt
    }
}

/// How long a pause took, and its error.
pub fn measure_sleep(n: u32, t0: u32, t1: u32) -> (r: (u32, u32))
    ensures
        r.0 == (t1 - t0) % 0x1_0000_0000,
        r.1 == sleep_error(n, t0, t1),
{
    let dt: u32 = t1.wrapping_sub(t0);
    let err: u32 = if dt >= n {
        dt - n
    } else {
        n - dt
    };
    (dt, err)
}

/// Marker of a pause of `n` ticks that took `dt`, where it was too far off.
pub fn b_marker(n: u32, dt: u32, err: u32) -> (out: Option<Vec<u8>>)
    ensures
        match out {
            Some(m) => err > SLEEP_TOLERANCE && m@ == text::utf8("INTG: B bad n="@)
                + text::decimal(n as nat) + text::utf8(" dt="@) + text::decimal(dt as nat)
                + text::utf8("\r\n"@),
            None => err <= SLEEP_TOLERANCE,
        },
{
    if err <= SLEEP_TOLERANCE {
        return None;
    }
    let mut out: Vec<u8> = Vec::new();
    text::push_str(&mut out, "INTG: B bad n=");
    assert(out@ =~= text::utf8("INTG: B bad n="@));
    text::wr_num(&mut out, n);
    text::push_str(&mut out, " dt=");
    text::wr_num(&mut out, dt);
    text::push_str(&mut out, "\r\n");
    Some(out)
}

/// The largest of some errors.
pub open spec fn largest(errs: Seq<u32>) -> u32
    decreases errs.len(),
{
    if errs.len() == 0 {
        0
    } else if errs.last() > largest(errs.drop_last()) {
        errs.last()
    } else {
        largest(errs.drop_last())
    }
}

/// Verdict on the pauses: no error is over the tolerance.
pub fn b_done(errs: &[u32]) -> (out: Vec<u8>)
    ensures
        out@ == text::utf8("INTG: B done "@) + verdict(largest(errs@) <= SLEEP_TOLERANCE),
{
    let mut worst: u32 = 0;
    let mut i: usize = 0;
    assert(errs@.take(0) =~= Seq::<u32>::empty());
    while i < errs.len()
        invariant
            i <= errs@.len(),
            worst == largest(errs@.take(i as int)),
        decreases errs@.len() - i,
    {
        assert(errs@.take(i + 1).drop_last() =~= errs@.take(i as int));
        if errs[i] > worst {
            worst = errs[i];
        }
        i = i + 1;
    }
    assert(errs@.take(i as int) =~= errs@);
    let mut out: Vec<u8> = Vec::new();
    text::push_str(&mut out, "INTG: B done ");
    push_verdict(&mut out, worst <= SLEEP_TOLERANCE);
    assert(out@ =~= text::utf8("INTG: B done "@) + verdict(largest(errs@) <= SLEEP_TOLERANCE));
    out
}

/// No error is over the tolerance exactly where each is within it.
pub proof fn law_largest_error_bounds_all(errs: Seq<u32>)
    ensures
        largest(errs) <= SLEEP_TOLERANCE <==> forall|i: int|
            0 <= i < errs.len() ==> #[trigger] errs[i] <= SLEEP_TOLERANCE,
    decreases errs.len(),
{
    if errs.len() > 0 {
        let part = errs.drop_last();
        law_largest_error_bounds_all(part);
        if largest(errs) <= SLEEP_TOLERANCE {
            assert forall|i: int| 0 <= i < errs.len() implies #[trigger] errs[i]
                <= SLEEP_TOLERANCE by {
                if i < part.len() {
                    assert(part[i] == errs[i]);
                }
            }
        } else if largest(part) > SLEEP_TOLERANCE {
            let i = choose|i: int| 0 <= i < part.len() && #[trigger] part[i] > SLEEP_TOLERANCE;
            assert(errs[i] == part[i]);
        } else {
            assert(errs[errs.len() - 1] > SLEEP_TOLERANCE);
        }
    }
}

/// Whether a concurrent task reports at its count `i`, from zero: at each fifth.
pub fn c_reports(i: u32) -> (b: bool)
    ensures
        b == (i % 5 == 4),
{
    i % 5 == 4
}

/// Verdict on the concurrent tasks: both counted to the end.
pub fn c_done(c1: u32, c2: u32) -> (out: Vec<u8>)
    ensures
        out@ == text::utf8("INTG: C done c1="@) + text::decimal(c1 as nat) + text::utf8(" c2="@)
            + text::decimal(c2 as nat) + text::utf8(" "@) + verdict(c1 == COUNTS && c2 == COUNTS),
{
    let mut out: Vec<u8> = Vec::new();
    text::push_str(&mut out, "INTG: C done c1=");
    assert(out@ =~= text::utf8("INTG: C done c1="@));
    text::wr_num(&mut out, c1);
    text::push_str(&mut out, " c2=");
    text::wr_num(&mut out, c2);
    text::push_str(&mut out, " ");
    push_verdict(&mut out, c1 == COUNTS && c2 == COUNTS);
    out
}

/// What the semaphore check observed.
#[derive(Clone, Copy, Debug, PartialEq, Eq, Structural)]
pub struct SemProbe {
    /// Result of trying an empty semaphore.
    pub empty: i32,
    /// The same while a consumer waits.
    pub still_empty: i32,
    /// The same after all permits were taken.
    pub drained: i32,
    /// Permits that the consumer got.
    pub got: u32,
    /// Permits left.
    pub count: u32,
}

/// The semaphore behaves: trying it fails while it is empty, and all permits pass.
pub open spec fn sem_ok(p: SemProbe) -> bool {
    p.empty == -1 && p.still_empty == -1 && p.drained == -1 && p.got == PERMITS && p.count == 0
}

/// The marker of the semaphore check.
pub open spec fn d_text(p: SemProbe) -> Seq<u8> {
    text::utf8("INTG: D done try="@) + text::signed_decimal(p.empty as int) + text::utf8(","@)
        + text::signed_decimal(p.still_empty as int) + text::utf8(","@) + text::signed_decimal(
        p.drained as int,
    ) + text::utf8(" got="@) + text::decimal(p.got as nat) + text::utf8(" cnt="@) + text::decimal(
        p.count as nat,
    ) + text::utf8(" "@) + verdict(sem_ok(p))
}

/// Verdict on the semaphore.
pub fn d_done(p: &SemProbe) -> (out: Vec<u8>)
    ensures
        out@ == d_text(*p),
{
    let mut out: Vec<u8> = Vec::new();
    text::push_str(&mut out, "INTG: D done try=");
    assert(out@ =~= text::utf8("INTG: D done try="@));
    text::wr_num_i32(&mut out, p.empty);
    text::push_str(&mut out, ",");
    text::wr_num_i32(&mut out, p.still_empty);
    text::push_str(&mut out, ",");
    text::wr_num_i32(&mut out, p.drained);
    text::push_str(&mut out, " got=");
    text::wr_num(&mut out, p.got);
    text::push_str(&mut out, " cnt=");
    text::wr_num(&mut out, p.count);
    text::push_str(&mut out, " ");
    push_verdict(
        &mut out,
        p.empty == -1 && p.still_empty == -1 && p.drained == -1 && p.got == PERMITS && p.count == 0,
    );
    out
}

/// The marker of the read and control check. Results are shown as unsigned
/// numbers.
pub open spec fn f_text(rc_io: i32, baud: u32, rc_rd: i32) -> Seq<u8> {
    text::utf8("INTG: F done ioctl="@) + text::decimal(unsigned(rc_io)) + text::utf8(" baud="@)
        + text::decimal(baud as nat) + text::utf8(" rd="@) + text::decimal(unsigned(rc_rd))
        + text::utf8(" "@) + verdict(rc_io == 0 && baud == CONSOLE_BAUD && rc_rd >= 0)
}

/// The same 32 bits without a sign.
pub open spec fn unsigned(v: i32) -> nat {
    if v < 0 {
        (v + 0x1_0000_0000) as nat
    } else {
        v as nat
    }
}

fn to_unsigned(v: i32) -> (u: u32)
    ensures
        u == unsigned(v),
{
    if v < 0 {
        (v as i64 + 0x1_0000_0000i64) as u32
    } else {
        v as u32
    }
}

/// Verdict on reading and controlling the console.
pub fn f_done(rc_io: i32, baud: u32, rc_rd: i32) -> (out: Vec<u8>)
    ensures
        out@ == f_text(rc_io, baud, rc_rd),
{
    let mut out: Vec<u8> = Vec::new();
    text::push_str(&mut out, "INTG: F done ioctl=");
    assert(out@ =~= text::utf8("INTG: F done ioctl="@));
    text::wr_num(&mut out, to_unsigned(rc_io));
    text::push_str(&mut out, " baud=");
    text::wr_num(&mut out, baud);
    text::push_str(&mut out, " rd=");
    text::wr_num(&mut out, to_unsigned(rc_rd));
    text::push_str(&mut out, " ");
    push_verdict(&mut out, rc_io == 0 && baud == CONSOLE_BAUD && rc_rd >= 0);
    out
}

/// What the error-path check observed. A result on the console device is none
/// where that device was not found.
#[derive(Clone, Copy, Debug, PartialEq, Eq, Structural)]
pub struct ErrorProbe {
    /// A lookup without a name found a device.
    pub found_empty: bool,
    /// A lookup of an unknown name found a device.
    pub found_unknown: bool,
    /// Opening no device.
    pub open_null: i32,
    /// Reading into no buffer.
    pub read_null: Option<i32>,
    /// Writing from no buffer.
    pub write_null: Option<i32>,
    /// A control call that does not exist.
    pub bad_ioctl: Option<i32>,
    /// Closing no device.
    pub close_null: i32,
    /// Trying a semaphore without room for permits.
    pub limit0_try: i32,
    /// The cycle counter, read twice.
    pub cycle0: u32,
    pub cycle1: u32,
}

/// One marker of the error-path check, where a call did not fail as it has to.
pub open spec fn unless_minus_one(label: Seq<char>, rc: Option<i32>) -> Seq<u8> {
    match rc {
        Some(x) => if x != -1 {
            text::utf8(label) + text::signed_decimal(x as int) + text::utf8("\r\n"@)
        } else {
            Seq::empty()
        },
        None => Seq::empty(),
    }
}

/// A marker where something was found that must not be.
pub open spec fn if_found(label: Seq<char>, found: bool) -> Seq<u8> {
    if found {
        text::utf8(label)
    } else {
        Seq::empty()
    }
}

/// The cycle counter runs: it is not zero and does not go back.
pub open spec fn cycles_ok(c0: u32, c1: u32) -> bool {
    c0 != 0 && c1 >= c0
}

/// A marker where the cycle counter does not run.
pub open spec fn unless_running(c0: u32, c1: u32) -> Seq<u8> {
    if cycles_ok(c0, c1) {
        Seq::empty()
    } else {
        text::utf8("INTG: G7 cycle c0="@) + text::decimal(c0 as nat) + text::utf8(" c1="@)
            + text::decimal(c1 as nat) + text::utf8("\r\n"@)
    }
}

/// A call failed as it has to, or was not made.
pub open spec fn failed(rc: Option<i32>) -> bool {
    rc matches Some(x) ==> x == -1
}

/// Every call with invalid arguments fails, and the cycle counter runs.
pub open spec fn errors_ok(p: ErrorProbe) -> bool {
    &&& !p.found_empty
    &&& !p.found_unknown
    &&& p.open_null == -1
    &&& failed(p.read_null)
    &&& failed(p.write_null)
    &&& failed(p.bad_ioctl)
    &&& p.close_null == -1
    &&& p.limit0_try == -1
    &&& cycles_ok(p.cycle0, p.cycle1)
}

/// The markers of the error-path check.
pub open spec fn g_text(p: ErrorProbe) -> Seq<u8> {
    if_found("INTG: G1 nil empty not null\r\n"@, p.found_empty) + if_found(
        "INTG: G1 nil nope not null\r\n"@,
        p.found_unknown,
    ) + unless_minus_one("INTG: G2 open null rc="@, Some(p.open_null)) + unless_minus_one(
        "INTG: G3 read null="@,
        p.read_null,
    ) + unless_minus_one("INTG: G3 write null="@, p.write_null) + unless_minus_one(
        "INTG: G4 ioctl bad="@,
        p.bad_ioctl,
    ) + unless_minus_one("INTG: G5 close null="@, Some(p.close_null)) + unless_minus_one(
        "INTG: G6 limit0 try="@,
        Some(p.limit0_try),
    ) + unless_running(p.cycle0, p.cycle1) + text::utf8("INTG: G done "@) + verdict(errors_ok(p))
}

fn report_found(out: &mut Vec<u8>, label: &str, found: bool) -> (ok: bool)
    ensures
        final(out)@ == old(out)@ + if_found(label@, found),
        ok == !found,
{
    if found {
        text::push_str(out, label);
    } else {
        assert(out@ =~= old(out)@ + if_found(label@, found));
    }
    !found
}

fn report_rc(out: &mut Vec<u8>, label: &str, rc: Option<i32>) -> (ok: bool)
    ensures
        final(out)@ == old(out)@ + unless_minus_one(label@, rc),
        ok == failed(rc),
{
    match rc {
        Some(x) => {
            if x != -1 {
                text::push_str(out, label);
                text::wr_num_i32(out, x);
                text::push_str(out, "\r\n");
                assert(out@ =~= old(out)@ + unless_minus_one(label@, rc));
                return false;
            }
        },
        None => {},
    }
    assert(out@ =~= old(out)@ + unless_minus_one(label@, rc));
    true
}

fn report_cycles(out: &mut Vec<u8>, c0: u32, c1: u32) -> (ok: bool)
    ensures
        final(out)@ == old(out)@ + unless_running(c0, c1),
        ok == cycles_ok(c0, c1),
{
    let ok: bool = c0 != 0 && c1 >= c0;
    if !ok {
        text::push_str(out, "INTG: G7 cycle c0=");
        text::wr_num(out, c0);
        text::push_str(out, " c1=");
        text::wr_num(out, c1);
        text::push_str(out, "\r\n");
    }
    assert(out@ =~= old(out)@ + unless_running(c0, c1));
    ok
}

/// Verdict on the error paths.
pub fn g_done(p: &ErrorProbe) -> (out: Vec<u8>)
    ensures
        out@ == g_text(*p),
{
    let mut out: Vec<u8> = Vec::new();
    let ok1: bool = report_found(&mut out, "INTG: G1 nil empty not null\r\n", p.found_empty);
    assert(out@ =~= if_found("INTG: G1 nil empty not null\r\n"@, p.found_empty));
    let ok2: bool = report_found(&mut out, "INTG: G1 nil nope not null\r\n", p.found_unknown);
    let ok3: bool = report_rc(&mut out, "INTG: G2 open null rc=", Some(p.open_null));
    let ok4: bool = report_rc(&mut out, "INTG: G3 read null=", p.read_null);
    let ok5: bool = report_rc(&mut out, "INTG: G3 write null=", p.write_null);
    let ok6: bool = report_rc(&mut out, "INTG: G4 ioctl bad=", p.bad_ioctl);
    let ok7: bool = report_rc(&mut out, "INTG: G5 close null=", Some(p.close_null));
    let ok8: bool = report_rc(&mut out, "INTG: G6 limit0 try=", Some(p.limit0_try));
    let ok9: bool = report_cycles(&mut out, p.cycle0, p.cycle1);
    text::push_str(&mut out, "INTG: G done ");
    push_verdict(&mut out, ok1 && ok2 && ok3 && ok4 && ok5 && ok6 && ok7 && ok8 && ok9);
    out
}

/// The marker of the contention check.
pub open spec fn h_text(give: u32, done: u32) -> Seq<u8> {
    text::utf8("INTG: H done "@) + if give == WAITERS && done == WAITERS {
        text::utf8("ok =give=4 done=4\r\n"@)
    } else {
        text::utf8("FAIL =give="@) + text::decimal(give as nat) + text::utf8(" done="@)
            + text::decimal(done as nat) + text::utf8("\r\n"@)
    }
}

/// Verdict on contention: as many permits given as waiters, and all of them woken.
pub fn h_done(give: u32, done: u32) -> (out: Vec<u8>)
    ensures
        out@ == h_text(give, done),
{
    let mut out: Vec<u8> = Vec::new();
    text::push_str(&mut out, "INTG: H done ");
    if give == WAITERS && done == WAITERS {
        text::push_str(&mut out, "ok =give=4 done=4\r\n");
    } else {
        text::push_str(&mut out, "FAIL =give=");
        text::wr_num(&mut out, give);
        text::push_str(&mut out, " done=");
        text::wr_num(&mut out, done);
        text::push_str(&mut out, "\r\n");
    }
    assert(out@ =~= h_text(give, done));
    out
}

/// What the interrupt check observed: why attaching failed, or what came after.
#[derive(Clone, Copy, Debug, PartialEq, Eq, Structural)]
pub enum IrqProbe {
    /// The interrupt could not be attached.
    NotAttached(i32),
    /// The result of waiting, and whether the handler ran.
    Waited { rv: i32, fired: u32 },
}

/// The marker of the interrupt check.
pub open spec fn i_text(p: IrqProbe) -> Seq<u8> {
    match p {
        IrqProbe::NotAttached(rc) => text::utf8("INTG: I irq_attach rc="@) + text::signed_decimal(
            rc as int,
        ) + text::utf8("\r\n"@) + text::utf8("INTG: I done FAIL\r\n"@),
        IrqProbe::Waited { rv, fired } => text::utf8("INTG: I done "@) + if rv == 0 && fired == 1 {
            text::utf8("ok\r\n"@)
        } else {
            text::utf8("FAIL rv="@) + text::signed_decimal(rv as int) + text::utf8(" fired="@)
                + text::decimal(fired as nat) + text::utf8("\r\n"@)
        },
    }
}

/// Verdict on the interrupt.
pub fn i_done(p: &IrqProbe) -> (out: Vec<u8>)
    ensures
        out@ == i_text(*p),
{
    let mut out: Vec<u8> = Vec::new();
    match *p {
        IrqProbe::NotAttached(rc) => {
            text::push_str(&mut out, "INTG: I irq_attach rc=");
            text::wr_num_i32(&mut out, rc);
            text::push_str(&mut out, "\r\n");
            text::push_str(&mut out, "INTG: I done FAIL\r\n");
        },
        IrqProbe::Waited { rv, fired } => {
            text::push_str(&mut out, "INTG: I done ");
            if rv == 0 && fired == 1 {
                text::push_str(&mut out, "ok\r\n");
            } else {
                text::push_str(&mut out, "FAIL rv=");
                text::wr_num_i32(&mut out, rv);
                text::push_str(&mut out, " fired=");
                text::wr_num(&mut out, fired);
                text::push_str(&mut out, "\r\n");
            }
        },
    }
    assert(out@ =~= i_text(*p));
    out
}

/// The two tasks that count at the same time.
pub fn c_tasks() -> (r: (TaskPlan, TaskPlan))
    ensures
        abi::is_plain_task(r.0, "intg_c1\0"@, 20, 1024, RTOS_RT_NONE),
        abi::is_plain_task(r.1, "intg_c2\0"@, 21, 1024, RTOS_RT_NONE),
{
    (
        abi::spawn_rt("intg_c1\0", 20, 1024, 1, RTOS_RT_NONE, 0, 0),
        abi::spawn_rt("intg_c2\0", 21, 1024, 1, RTOS_RT_NONE, 0, 0),
    )
}

/// The consumer and the producer of permits.
pub fn d_tasks() -> (r: (TaskPlan, TaskPlan))
    ensures
        abi::is_plain_task(r.0, "intg_dc\0"@, 20, 1024, RTOS_RT_NONE),
        abi::is_plain_task(r.1, "intg_dp\0"@, 21, 1024, RTOS_RT_NONE),
{
    (
        abi::spawn_rt("intg_dc\0", 20, 1024, 1, RTOS_RT_NONE, 0, 0),
        abi::spawn_rt("intg_dp\0", 21, 1024, 1, RTOS_RT_NONE, 0, 0),
    )
}

/// A task that waits for a permit, and the task that gives them. The giver is the
/// more urgent one.
pub fn h_tasks() -> (r: (TaskPlan, TaskPlan))
    ensures
        abi::is_plain_task(r.0, "intg_hw\0"@, 20, 1024, RTOS_RT_NONE),
        abi::is_plain_task(r.1, "intg_hp\0"@, 19, 1024, RTOS_RT_NONE),
{
    (
        abi::spawn_rt("intg_hw\0", 20, 1024, 1, RTOS_RT_NONE, 0, 0),
        abi::spawn_rt("intg_hp\0", 19, 1024, 1, RTOS_RT_NONE, 0, 0),
    )
}

/// The task that checks the devices, which runs alone.
pub fn first_task() -> (t: TaskPlan)
    ensures
        abi::is_plain_task(t, "intg_a\0"@, 20, 4096, RTOS_RT_NONE),
        abi::task_ok(t),
{
    abi::spawn_rt("intg_a\0", 20, 4096, 1, RTOS_RT_NONE, 0, 0)
}

/// The tasks that run after it at the same time, in the order of creation.
pub open spec fn is_plan(ts: Seq<TaskPlan>) -> bool {
    &&& ts.len() == 8
    &&& abi::is_plain_task(ts[0], "intg_b\0"@, 19, 1024, RTOS_RT_NONE)
    &&& abi::is_plain_task(ts[1], "intg_c\0"@, 19, 1024, RTOS_RT_NONE)
    &&& abi::is_plain_task(ts[2], "intg_d\0"@, 19, 1024, RTOS_RT_NONE)
    &&& abi::is_plain_task(ts[3], "intg_f\0"@, 19, 1024, RTOS_RT_NONE)
    &&& abi::is_plain_task(ts[4], "intg_g\0"@, 19, 1024, RTOS_RT_NONE)
    &&& abi::is_plain_task(ts[5], "intg_h\0"@, 19, 1024, RTOS_RT_NONE)
    &&& abi::is_plain_task(ts[6], "intg_i\0"@, 18, 1024, RTOS_RT_NONE)
    &&& abi::is_plain_task(ts[7], "intg_end\0"@, 19, 1024, RTOS_RT_NONE)
}

/// The tasks that run after the first one.
pub fn run_intg_test() -> (ts: Vec<TaskPlan>)
    ensures
        is_plan(ts@),
{
    let mut ts: Vec<TaskPlan> = Vec::new();
    ts.push(abi::spawn_rt("intg_b\0", 19, 1024, 1, RTOS_RT_NONE, 0, 0));
    ts.push(abi::spawn_rt("intg_c\0", 19, 1024, 1, RTOS_RT_NONE, 0, 0));
    ts.push(abi::spawn_rt("intg_d\0", 19, 1024, 1, RTOS_RT_NONE, 0, 0));
    ts.push(abi::spawn_rt("intg_f\0", 19, 1024, 1, RTOS_RT_NONE, 0, 0));
    ts.push(abi::spawn_rt("intg_g\0", 19, 1024, 1, RTOS_RT_NONE, 0, 0));
    ts.push(abi::spawn_rt("intg_h\0", 19, 1024, 1, RTOS_RT_NONE, 0, 0));
    ts.push(abi::spawn_rt("intg_i\0", 18, 1024, 1, RTOS_RT_NONE, 0, 0));
    ts.push(abi::spawn_rt("intg_end\0", 19, 1024, 1, RTOS_RT_NONE, 0, 0));
    ts
}

/// A pause that takes `k` ticks more or less than it should has an error of `k`, also
/// where the tick counter wraps in between.
pub proof fn law_sleep_error_is_the_difference(n: u32, t0: u32, k: u32)
    ensures
        n + k <= 0xFFFF_FFFF ==> sleep_error(n, t0, ((t0 + n + k) % 0x1_0000_0000) as u32) == k,
        k <= n ==> sleep_error(n, t0, ((t0 + (n - k)) % 0x1_0000_0000) as u32) == k,
{
}

/// The semaphore passes only where trying it failed every time it was empty, all five
/// permits came through and none is left.
pub proof fn law_semaphore_verdict(p: SemProbe)
    ensures
        sem_ok(p) <==> p == (SemProbe {
            empty: -1i32,
            still_empty: -1i32,
            drained: -1i32,
            got: 5,
            count: 0,
        }),
{
}

/// One call with invalid arguments that does not fail, or a cycle counter that does not
/// run, is enough to fail the check of the error paths; a call on a device that was not
/// found does not count.
pub proof fn law_one_error_path_is_enough(p: ErrorProbe)
    ensures
        p.found_empty ==> !errors_ok(p),
        p.found_unknown ==> !errors_ok(p),
        p.open_null != -1 || p.close_null != -1 || p.limit0_try != -1 ==> !errors_ok(p),
        p.read_null matches Some(x) ==> x != -1 ==> !errors_ok(p),
        p.write_null matches Some(x) ==> x != -1 ==> !errors_ok(p),
        p.bad_ioctl matches Some(x) ==> x != -1 ==> !errors_ok(p),
        p.cycle0 == 0 || p.cycle1 < p.cycle0 ==> !errors_ok(p),
        errors_ok(p) ==> errors_ok(ErrorProbe { read_null: None, ..p }) && errors_ok(
            ErrorProbe { write_null: None, ..p },
        ) && errors_ok(ErrorProbe { bad_ioctl: None, ..p }),
        errors_ok(
            ErrorProbe {
                found_empty: false,
                found_unknown: false,
                open_null: -1i32,
                read_null: Some(-1i32),
                write_null: Some(-1i32),
                bad_ioctl: Some(-1i32),
                close_null: -1i32,
                limit0_try: -1i32,
                cycle0: if p.cycle0 == 0 { 1 } else { p.cycle0 },
                cycle1: 0xFFFF_FFFF,
            },
        ),
{
}

/// Where nothing is wrong, the check of the error paths reports its verdict and nothing
/// else.
pub proof fn law_no_marker_without_an_error(p: ErrorProbe)
    requires
        errors_ok(p),
    ensures
        g_text(p) == text::utf8("INTG: G done "@) + text::utf8("ok\r\n"@),
{
    assert(g_text(p) =~= text::utf8("INTG: G done "@) + text::utf8("ok\r\n"@));
}

/// A result without its sign has the same 32 bits.
pub proof fn law_unsigned_keeps_the_bits(v: i32)
    ensures
        unsigned(v) < 0x1_0000_0000,
        unsigned(v) == v || unsigned(v) == v + 0x1_0000_0000,
{
}

/// A report ends in this verdict.
pub open spec fn ends_in(out: Seq<u8>, end: Seq<char>) -> bool {
    exists|a: Seq<u8>| out == #[trigger] (a + text::utf8(end))
}

/// Of the verdicts: the devices pass where all six were found, all three console cycles
/// went well and all four others were opened; the pauses where none was more than two
/// ticks off; the concurrent tasks where both counted to 20; the console where the call
/// and the read succeeded at 115200 baud. In every other case the report says `FAIL`.
pub proof fn law_verdicts(
    found: u32,
    good: u32,
    opened: u32,
    a: Vec<u8>,
    errs: &[u32],
    b: Vec<u8>,
    c1: u32,
    c2: u32,
    c: Vec<u8>,
    rc_io: i32,
    baud: u32,
    rc_rd: i32,
    f: Vec<u8>,
)
    requires
        call_ensures(a_done, (found, good, opened), a),
        call_ensures(b_done, (errs,), b),
        call_ensures(c_done, (c1, c2), c),
        call_ensures(f_done, (rc_io, baud, rc_rd), f),
    ensures
        found == 6 && good == 3 && opened == 4 ==> ends_in(a@, "ok\r\n"@),
        found != 6 || good != 3 || opened != 4 ==> ends_in(a@, "FAIL\r\n"@),
        (forall|i: int| 0 <= i < errs@.len() ==> #[trigger] errs@[i] <= 2) ==> ends_in(
            b@,
            "ok\r\n"@,
        ),
        (exists|i: int| 0 <= i < errs@.len() && #[trigger] errs@[i] > 2) ==> ends_in(
            b@,
            "FAIL\r\n"@,
        ),
        c1 == 20 && c2 == 20 ==> ends_in(c@, "ok\r\n"@),
        c1 != 20 || c2 != 20 ==> ends_in(c@, "FAIL\r\n"@),
        rc_io == 0 && baud == 115200 && rc_rd >= 0 ==> ends_in(f@, "ok\r\n"@),
        rc_io != 0 || baud != 115200 || rc_rd < 0 ==> ends_in(f@, "FAIL\r\n"@),
{
    law_largest_error_bounds_all(errs@);
}

/// Of the verdicts on the semaphore, contention and the interrupt: each passes in one
/// case alone.
pub proof fn law_more_verdicts(
    p: &SemProbe,
    d: Vec<u8>,
    give: u32,
    done: u32,
    h: Vec<u8>,
    q: &IrqProbe,
    i: Vec<u8>,
)
    requires
        call_ensures(d_done, (p,), d),
        call_ensures(h_done, (give, done), h),
        call_ensures(i_done, (q,), i),
    ensures
        p.empty == -1 && p.still_empty == -1 && p.drained == -1 && p.got == 5 && p.count == 0
            ==> ends_in(d@, "ok\r\n"@),
        !(p.empty == -1 && p.still_empty == -1 && p.drained == -1 && p.got == 5 && p.count == 0)
            ==> ends_in(d@, "FAIL\r\n"@),
        give == 4 && done == 4 ==> ends_in(h@, "ok =give=4 done=4\r\n"@),
        give != 4 || done != 4 ==> text::shows(h@, "FAIL =give="@, text::decimal(give as nat)),
        *q == (IrqProbe::Waited { rv: 0, fired: 1 }) ==> ends_in(i@, "ok\r\n"@),
        q matches IrqProbe::NotAttached(rc) ==> ends_in(i@, "INTG: I done FAIL\r\n"@),
        q matches IrqProbe::Waited { rv, fired } ==> (rv != 0 || fired != 1) ==> text::shows(
            i@,
            "FAIL rv="@,
            text::signed_decimal(rv as int),
        ),
{
    if give != 4 || done != 4 {
        let head = text::utf8("INTG: H done "@);
        let end = text::utf8(" done="@) + text::decimal(done as nat) + text::utf8("\r\n"@);
        assert(h@ =~= head + text::utf8("FAIL =give="@) + text::decimal(give as nat) + end);
    }
    if let IrqProbe::Waited { rv, fired } = *q {
        if rv != 0 || fired != 1 {
            let head = text::utf8("INTG: I done "@);
            let end = text::utf8(" fired="@) + text::decimal(fired as nat) + text::utf8("\r\n"@);
            assert(i@ =~= head + text::utf8("FAIL rv="@) + text::signed_decimal(rv as int) + end);
        }
    }
}

} // verus!
