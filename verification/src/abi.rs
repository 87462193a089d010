//! The contract with the operating system: priorities, real-time classes, the
//! description of tasks, and the check of the service table.

use crate::log;
use crate::log::{Level, LogEntry, LogRing};
use crate::text;
use vstd::prelude::*;

verus! {

pub const RTOS_PRIO_BH_HIGH: u8 = 4;

pub const RTOS_PRIO_BH_MED: u8 = 6;

pub const RTOS_PRIO_MAIN: u8 = 12;

pub const RTOS_PRIO_BLINK: u8 = 14;

pub const RTOS_PRIO_BIST: u8 = 24;

pub const RTOS_PRIO_IDLE: u8 = 31;

pub const RTOS_RT_NONE: u8 = 0;

pub const RTOS_RT_HARD: u8 = 1;

pub const RTOS_RT_SOFT: u8 = 2;

/// Mark of the service table.
pub const APP_SLOT_MAGIC: u32 = 0x4150_5053;

/// Version of the service table.
pub const RTOS_ABI_VERSION: u32 = 1;

/// Real-time attributes of a task.
#[allow(non_camel_case_types)]
#[derive(Clone, Copy, Debug, PartialEq, Eq, Structural)]
pub struct rtos_task_attr_t {
    pub rt_class: u8,
    pub deadline_ticks: u32,
    pub wcet_ticks: u32,
}

/// A task to be created.
#[derive(Clone, Copy, Debug)]
pub struct TaskPlan {
    /// Zero-terminated name.
    pub name: &'static str,
    /// Priority; a smaller number is more urgent.
    pub prio: u8,
    /// Bytes of stack.
    pub stack_size: usize,
    /// `1` for a privileged task.
    pub priv_: u8,
    /// Real-time attributes.
    pub attr: rtos_task_attr_t,
}

/// A task that the operating system accepts: hard real-time tasks run at an
/// urgent priority, and no task is less urgent than the idle task.
pub open spec fn task_ok(t: TaskPlan) -> bool {
    &&& t.attr.rt_class == RTOS_RT_HARD ==> t.prio <= RTOS_PRIO_BH_HIGH
    &&& t.prio < RTOS_PRIO_IDLE
    &&& t.stack_size > 0
}

/// A privileged task without a deadline.
pub open spec fn is_plain_task(
    t: TaskPlan,
    name: Seq<char>,
    prio: u8,
    stack_size: usize,
    rt_class: u8,
) -> bool {
    t.name@ == name && t.prio == prio && t.stack_size == stack_size && t.priv_ == 1 && t.attr == (
    rtos_task_attr_t { rt_class, deadline_ticks: 0, wcet_ticks: 0 })
}

/// Describes a task to be created.
pub fn spawn_rt(
    name: &'static str,
    prio: u8,
    stack_size: usize,
    priv_: u8,
    rt_class: u8,
    deadline_ticks: u32,
    wcet_ticks: u32,
) -> (t: TaskPlan)
    ensures
        t.name@ == name@,
        t.prio == prio,
        t.stack_size == stack_size,
        t.priv_ == priv_,
        t.attr == (rtos_task_attr_t { rt_class, deadline_ticks, wcet_ticks }),
{
    TaskPlan {
        name,
        prio,
        stack_size,
        priv_,
        attr: rtos_task_attr_t { rt_class, deadline_ticks, wcet_ticks },
    }
}

/// Whether the service table is one that this application was built for.
pub open spec fn slot_ok(magic: u32, version: u32) -> bool {
    magic == APP_SLOT_MAGIC && version == RTOS_ABI_VERSION
}

/// The text that reports the start.
pub open spec fn mounted_text() -> Seq<u8> {
    text::utf8("RUST app mounted (rust_app_start)"@)
}

/// The text that reports a service table of another version.
pub open spec fn mismatch_text(magic: u32, version: u32) -> Seq<u8> {
    text::utf8("ABI mismatch magic=0x"@) + text::hex(magic as nat) + text::utf8(" ver="@)
        + text::decimal(version as nat) + text::utf8(" (exp "@) + text::decimal(
        RTOS_ABI_VERSION as nat,
    ) + text::utf8(")"@)
}

/// Logs that the application has started; says whether the line was taken.
pub fn report_mounted(ring: &mut LogRing, ticks: u32) -> (taken: bool)
    requires
        old(ring).wf(),
    ensures
        final(ring).wf(),
        ({
            let e = LogEntry {
                level: Level::Info,
                text: log::log_line(Level::Info, ticks, text::utf8("app_slot"@), mounted_text()),
            };
            taken == log::takes(old(ring)@, e) && final(ring)@ == log::after_push(old(ring)@, e)
        }),
{
    log::emit(
        ring,
        Level::Info,
        ticks,
        "app_slot",
        "RUST app mounted (rust_app_start)".as_bytes(),
    )
}

/// Checks the service table and logs the outcome: `0` where the tasks may be
/// created, `-1` where the table is not one for this application.
pub fn rust_app_start(ring: &mut LogRing, ticks: u32, magic: u32, version: u32) -> (rc: i32)
    requires
        old(ring).wf(),
    ensures
        final(ring).wf(),
        rc == if slot_ok(magic, version) {
            0i32
        } else {
            -1i32
        },
        ({
            let level = if slot_ok(magic, version) {
                Level::Info
            } else {
                Level::Error
            };
            let msg = if slot_ok(magic, version) {
                mounted_text()
            } else {
                mismatch_text(magic, version)
            };
            final(ring)@ == log::after_push(
                old(ring)@,
                (LogEntry {
                    level,
                    text: log::log_line(level, ticks, text::utf8("app_slot"@), msg),
                }),
            )
        }),
{
    if magic != APP_SLOT_MAGIC || version != RTOS_ABI_VERSION {
        let mut msg: Vec<u8> = Vec::new();
        text::push_str(&mut msg, "ABI mismatch magic=0x");
        text::wr_hex(&mut msg, magic);
        text::push_str(&mut msg, " ver=");
        text::wr_num(&mut msg, version);
        text::push_str(&mut msg, " (exp ");
        text::wr_num(&mut msg, RTOS_ABI_VERSION);
        text::push_str(&mut msg, ")");
        assert(msg@ =~= mismatch_text(magic, version));
        log::emit(ring, Level::Error, ticks, "app_slot", msg.as_slice());
        return -1;
    }
    report_mounted(ring, ticks);
    0
}

/// Only a table with the mark and the version that the application was built for is
/// accepted.
pub proof fn law_only_one_table_is_accepted(magic: u32, version: u32)
    ensures
        slot_ok(magic, version) <==> magic == 0x4150_5053 && version == 1,
{
}

/// The report on another table shows its mark and its version.
pub proof fn law_mismatch_shows_the_table(magic: u32, version: u32)
    ensures
        text::shows(mismatch_text(magic, version), "magic=0x"@, text::hex(magic as nat)),
        text::shows(mismatch_text(magic, version), " ver="@, text::decimal(version as nat)),
{
    let all = mismatch_text(magic, version);
    reveal_strlit("ABI mismatch magic=0x");
    reveal_strlit("magic=0x");
    vstd::utf8::is_ascii_chars_encode_utf8("ABI mismatch magic=0x"@);
    vstd::utf8::is_ascii_chars_encode_utf8("magic=0x"@);
    let full = text::utf8("ABI mismatch magic=0x"@);
    let start = full.take(13);
    assert(full =~= start + text::utf8("magic=0x"@));
    let end = text::utf8(" (exp "@) + text::decimal(RTOS_ABI_VERSION as nat) + text::utf8(")"@);
    let ver = text::utf8(" ver="@) + text::decimal(version as nat) + end;
    let head = full + text::hex(magic as nat);
    assert(all =~= start + text::utf8("magic=0x"@) + text::hex(magic as nat) + ver);
    assert(all =~= head + text::utf8(" ver="@) + text::decimal(version as nat) + end);
    text::lemma_shows(all, "magic=0x"@, text::hex(magic as nat), start, ver);
    text::lemma_shows(all, " ver="@, text::decimal(version as nat), head, end);
}

} // verus!
