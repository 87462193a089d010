//! The tasks that make up the flight control.

use crate::abi;
use crate::abi::{
    rtos_task_attr_t,
    TaskPlan,
    RTOS_PRIO_BH_HIGH,
    RTOS_PRIO_BLINK,
    RTOS_PRIO_MAIN,
    RTOS_RT_HARD,
    RTOS_RT_NONE,
};
use crate::flyctrl::est::{EstFlags, Health};
use crate::flyctrl::params;
use crate::flyctrl::params::ParamTable;
use crate::flyctrl::sensors_task;
use crate::flyctrl::sensors_task::SharedFrame;
use vstd::prelude::*;

verus! {

/// Priority of the task that prints the log: less urgent than all others.
pub const LOG_TASK_PRIO: u8 = 28;

/// Priority of the sampling task.
pub const SENSORS_PRIO: u8 = 5;

/// Priority of the command task.
pub const UPLINK_PRIO: u8 = 10;

pub const STACK_LOG: usize = 4096;

pub const STACK_CTRL: usize = 8192;

pub const STACK_SENS: usize = 3584;

pub const STACK_TELEM: usize = 4096;

pub const STACK_UPLINK: usize = 4096;

pub const STACK_MONITOR: usize = 2048;

/// Priority ceiling of the lock on the estimate, which the control, the command, the
/// downlink and the supervision task take.
pub const EST_CEILING: u8 = 4;

/// Priority ceiling of the lock on the USB link, which the command and the
/// downlink task take.
pub const USB_TX_CEILING: u8 = 10;

/// The tasks, in the order in which they are created. The log comes first, so
/// that the lines of the others are printed.
pub open spec fn is_plan(ts: Seq<TaskPlan>) -> bool {
    &&& ts.len() == 6
    &&& abi::is_plain_task(ts[0], "log_task\0"@, LOG_TASK_PRIO, STACK_LOG, RTOS_RT_NONE)
    &&& abi::is_plain_task(ts[1], "control\0"@, RTOS_PRIO_BH_HIGH, STACK_CTRL, RTOS_RT_HARD)
    &&& abi::is_plain_task(ts[2], "sensors\0"@, SENSORS_PRIO, STACK_SENS, RTOS_RT_NONE)
    &&& abi::is_plain_task(ts[3], "telem\0"@, RTOS_PRIO_MAIN, STACK_TELEM, RTOS_RT_NONE)
    &&& abi::is_plain_task(ts[4], "uplink\0"@, UPLINK_PRIO, STACK_UPLINK, RTOS_RT_NONE)
    &&& abi::is_plain_task(ts[5], "monitor\0"@, RTOS_PRIO_BLINK, STACK_MONITOR, RTOS_RT_NONE)
}

/// The task that prints the log.
pub fn spawn_log_task() -> (t: TaskPlan)
    ensures
        abi::is_plain_task(t, "log_task\0"@, LOG_TASK_PRIO, STACK_LOG, RTOS_RT_NONE),
{
    abi::spawn_rt("log_task\0", LOG_TASK_PRIO, STACK_LOG, 1, RTOS_RT_NONE, 0, 0)
}

/// The flight control at its start: what the tasks share, and the tasks.
pub struct FlightStart {
    /// Flags of the estimate.
    pub est: EstFlags,
    /// The latest samples.
    pub frame: SharedFrame,
    /// The parameters.
    pub params: ParamTable,
    /// The tasks to create, in this order.
    pub tasks: Vec<TaskPlan>,
}

/// Sets up what the tasks share and plans all tasks. Before the first task runs, the
/// vehicle counts as degraded and disarmed, there are no samples, and every
/// parameter has its start value.
pub fn spawn_flyctrl() -> (s: FlightStart)
    ensures
        s.est == (EstFlags { health: Health::Degraded, armed: false }),
        s.frame == (SharedFrame { frame: sensors_task::empty_frame(), seq: 0 }),
        s.params.wf(),
        s.params@ == Seq::new(5, |i: int| params::default_of(i)),
        is_plan(s.tasks@),
{
    let mut ts: Vec<TaskPlan> = Vec::new();
    ts.push(spawn_log_task());
    ts.push(abi::spawn_rt("control\0", RTOS_PRIO_BH_HIGH, STACK_CTRL, 1, RTOS_RT_HARD, 0, 0));
    ts.push(abi::spawn_rt("sensors\0", SENSORS_PRIO, STACK_SENS, 1, RTOS_RT_NONE, 0, 0));
    ts.push(abi::spawn_rt("telem\0", RTOS_PRIO_MAIN, STACK_TELEM, 1, RTOS_RT_NONE, 0, 0));
    ts.push(abi::spawn_rt("uplink\0", UPLINK_PRIO, STACK_UPLINK, 1, RTOS_RT_NONE, 0, 0));
    ts.push(abi::spawn_rt("monitor\0", RTOS_PRIO_BLINK, STACK_MONITOR, 1, RTOS_RT_NONE, 0, 0));
    FlightStart {
        est: EstFlags::empty(),
        frame: SharedFrame::new(),
        params: ParamTable::init_param_defaults(),
        tasks: ts,
    }
}

/// Every task is one that the operating system accepts; only the control task is
/// hard real-time; and the order of urgency is control, sampling, commands,
/// downlink, supervision, log. A lock's ceiling is the priority of the most urgent task that
/// takes it.
pub proof fn law_tasks_are_accepted(ts: Seq<TaskPlan>)
    requires
        is_plan(ts),
    ensures
        forall|i: int| 0 <= i < ts.len() ==> abi::task_ok(#[trigger] ts[i]),
        forall|i: int|
            0 <= i < ts.len() ==> ((#[trigger] ts[i]).attr.rt_class == RTOS_RT_HARD <==> i == 1),
        ts[1].prio < ts[2].prio < ts[4].prio < ts[3].prio < ts[5].prio < ts[0].prio,
        EST_CEILING == ts[1].prio <= ts[4].prio <= ts[3].prio <= ts[5].prio,
        USB_TX_CEILING == ts[4].prio <= ts[3].prio,
{
    assert forall|i: int| 0 <= i < ts.len() implies abi::task_ok(#[trigger] ts[i]) && (
    ts[i].attr.rt_class == RTOS_RT_HARD <==> i == 1) by {
        assert(i == 0 || i == 1 || i == 2 || i == 3 || i == 4 || i == 5);
    }
}

/// Period of the single-task flight control.
pub const FC_LOOP_MS: u32 = 4;

/// Stack of the single-task flight control.
pub const STACK_FLYCTRL: usize = 2048;

/// The flight control as one hard real-time task, with its period as deadline and
/// three quarters of it as time budget.
pub fn spawn_flyctrl_task() -> (t: TaskPlan)
    ensures
        t.name@ == "flyctrl\0"@,
        t.prio == RTOS_PRIO_BH_HIGH,
        t.stack_size == STACK_FLYCTRL,
        t.priv_ == 1,
        t.attr == (rtos_task_attr_t {
            rt_class: RTOS_RT_HARD,
            deadline_ticks: FC_LOOP_MS,
            wcet_ticks: (FC_LOOP_MS * 3 / 4) as u32,
        }),
        abi::task_ok(t),
{
    abi::spawn_rt(
        "flyctrl\0",
        RTOS_PRIO_BH_HIGH,
        STACK_FLYCTRL,
        1,
        RTOS_RT_HARD,
        FC_LOOP_MS,
        (FC_LOOP_MS * 3) / 4,
    )
}

/// Of `spawn_flyctrl`: the vehicle starts degraded and disarmed, without a sample, with
/// every parameter legal, and with six tasks, of which the control task alone is hard
/// real-time and the most urgent.
pub proof fn law_flight_starts_safe(s: FlightStart)
    requires
        call_ensures(spawn_flyctrl, (), s),
    ensures
        s.est.health == Health::Degraded && !s.est.armed,
        s.frame.frame.imu is None && s.frame.frame.gps is None && s.frame.frame.baro_alt is None,
        !s.frame.frame.armed && s.frame.seq % 2 == 0,
        s.params@.len() == 5,
        forall|i: int| 0 <= i < 5 ==> params::legal(i, #[trigger] s.params@[i]),
        s.tasks@.len() == 6,
        forall|i: int| 0 <= i < 6 && i != 1 ==> (#[trigger] s.tasks@[i]).prio > s.tasks@[1].prio,
        forall|i: int|
            0 <= i < 6 ==> ((#[trigger] s.tasks@[i]).attr.rt_class == RTOS_RT_HARD <==> i == 1),
{
    law_tasks_are_accepted(s.tasks@);
}

} // verus!
