//! A minimal task that exercises the USB link in both directions.

use crate::abi;
use crate::abi::{TaskPlan, RTOS_PRIO_BH_MED, RTOS_RT_NONE};
use vstd::prelude::*;

verus! {

/// Pause between two rounds.
pub const DEMO_PERIOD_MS: u32 = 20;

/// Rounds between two signs of life in the log.
pub const DEMO_LOG_ROUNDS: u32 = 25;

/// Stack of the task.
pub const STACK_DEMO: usize = 4096;

/// Payload length of round `n`: it varies from 8 to 16 bytes.
pub open spec fn payload_len(n: u32) -> u8 {
    (8 + n % 9) as u8
}

/// What is sent in round `n`: a frame header with zeros behind it.
pub open spec fn frame_of(n: u32) -> Seq<u8> {
    seq![0xFDu8, payload_len(n)] + Seq::new((8 + payload_len(n)) as nat, |i: int| 0u8)
}

/// Builds the frame of round `n`.
pub fn demo_frame(n: u32) -> (f: Vec<u8>)
    ensures
        f@ == frame_of(n),
        f@.len() == 10 + payload_len(n),
{
    let len: u8 = 8 + (n % 9) as u8;
    let mut f: Vec<u8> = Vec::new();
    f.push(0xFD);
    f.push(len);
    let mut i: u8 = 0;
    assert(f@ =~= seq![0xFDu8, len] + Seq::new(0, |j: int| 0u8));
    while i < 8 + len
        invariant
            len <= 16,
            i <= 8 + len,
            f@ == seq![0xFDu8, len] + Seq::new(i as nat, |j: int| 0u8),
        decreases 8 + len - i,
    {
        f.push(0);
        i = i + 1;
        assert(f@ =~= seq![0xFDu8, len] + Seq::new(i as nat, |j: int| 0u8));
    }
    f
}

/// What is sent back of a read: all bytes that came in, nothing on an error.
pub fn echo(r: i32, rbuf: &[u8]) -> (out: &[u8])
    requires
        r <= rbuf@.len(),
    ensures
        out@ == rbuf@.take(if r > 0 {
            r as int
        } else {
            0
        }),
{
    let n: usize = if r > 0 {
        r as usize
    } else {
        0
    };
    let out = vstd::slice::slice_subrange(rbuf, 0, n);
    assert(out@ =~= rbuf@.take(n as int));
    out
}

/// Counts a round; says whether it is time for a sign of life.
pub fn next_round(n: &mut u32) -> (alive: bool)
    ensures
        *final(n) == (*old(n) + 1) % 0x1_0000_0000,
        alive == (*final(n) % DEMO_LOG_ROUNDS == 0),
{
    *n = n.wrapping_add(1);
    *n % DEMO_LOG_ROUNDS == 0
}

/// The task.
pub fn spawn_demo() -> (t: TaskPlan)
    ensures
        abi::is_plain_task(t, "demo_app\0"@, RTOS_PRIO_BH_MED, STACK_DEMO, RTOS_RT_NONE),
        abi::task_ok(t),
{
    abi::spawn_rt("demo_app\0", RTOS_PRIO_BH_MED, STACK_DEMO, 1, RTOS_RT_NONE, 0, 0)
}

/// A frame has the payload length that it announces, from 8 to 16 bytes, and zeros
/// behind its first two bytes. From round to round the length grows by one, and after
/// the longest comes the shortest.
pub proof fn law_frames_vary_in_length(n: u32)
    ensures
        frame_of(n)[0] == 0xFD,
        8 <= frame_of(n)[1] <= 16,
        frame_of(n).len() == 10 + frame_of(n)[1],
        forall|i: int| 2 <= i < frame_of(n).len() ==> #[trigger] frame_of(n)[i] == 0,
        n < 0xFFFF_FFFF ==> frame_of((n + 1) as u32)[1] == if frame_of(n)[1] == 16 {
            8
        } else {
            frame_of(n)[1] + 1
        },
{
}

/// Of `echo`: what came in goes back, and an error or an empty read sends nothing.
pub proof fn law_echo(r: i32, rbuf: &[u8], out: &[u8])
    requires
        r <= rbuf@.len(),
        call_ensures(echo, (r, rbuf), out),
    ensures
        r <= 0 ==> out@.len() == 0,
        r > 0 ==> out@.len() == r && forall|i: int| 0 <= i < r ==> #[trigger] out@[i] == rbuf@[i],
{
}

} // verus!
