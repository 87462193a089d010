//! A task that checks the USB downlink: it sends a numbered line five times a
//! second.

use crate::abi;
use crate::abi::{TaskPlan, RTOS_PRIO_BH_MED, RTOS_RT_NONE};
use crate::text;
use vstd::prelude::*;

verus! {

/// Pause between two lines.
pub const USBTEST_PERIOD_MS: u32 = 200;

/// Stack of the task.
pub const STACK_USBTEST: usize = 1536;

/// Line `seq`, sent at tick `ticks`.
pub open spec fn line_of(seq: u32, ticks: u32) -> Seq<u8> {
    text::utf8("USBTEST seq="@) + text::decimal(seq as nat) + text::utf8(" ticks="@)
        + text::decimal(ticks as nat) + text::utf8("\r\n"@)
}

/// Builds a line.
pub fn usbtest_line(seq: u32, ticks: u32) -> (line: Vec<u8>)
    ensures
        line@ == line_of(seq, ticks),
{
    let mut line: Vec<u8> = Vec::new();
    text::push_str(&mut line, "USBTEST seq=");
    assert(line@ =~= text::utf8("USBTEST seq="@));
    text::wr_num(&mut line, seq);
    text::push_str(&mut line, " ticks=");
    text::wr_num(&mut line, ticks);
    text::push_str(&mut line, "\r\n");
    line
}

/// The task.
pub fn start() -> (t: TaskPlan)
    ensures
        abi::is_plain_task(t, "usbtest\0"@, RTOS_PRIO_BH_MED, STACK_USBTEST, RTOS_RT_NONE),
        abi::task_ok(t),
{
    abi::spawn_rt("usbtest\0", RTOS_PRIO_BH_MED, STACK_USBTEST, 1, RTOS_RT_NONE, 0, 0)
}

/// A line shows its number and its tick.
pub proof fn law_line_shows_number_and_tick(seq: u32, ticks: u32)
    ensures
        text::shows(line_of(seq, ticks), "USBTEST seq="@, text::decimal(seq as nat)),
        text::shows(line_of(seq, ticks), " ticks="@, text::decimal(ticks as nat)),
{
    let none = Seq::<u8>::empty();
    let head = text::utf8("USBTEST seq="@) + text::decimal(seq as nat);
    let end = text::utf8("\r\n"@);
    let rest = text::utf8(" ticks="@) + text::decimal(ticks as nat) + end;
    let line = line_of(seq, ticks);
    assert(line =~= none + text::utf8("USBTEST seq="@) + text::decimal(seq as nat) + rest);
    assert(line =~= head + text::utf8(" ticks="@) + text::decimal(ticks as nat) + end);
    text::lemma_shows(line, "USBTEST seq="@, text::decimal(seq as nat), none, rest);
    text::lemma_shows(line, " ticks="@, text::decimal(ticks as nat), head, end);
}

} // verus!
