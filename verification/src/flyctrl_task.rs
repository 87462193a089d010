//! The flight control as one task: the layout of what it reads and writes, and
//! the messages that it sends.

use crate::bytes;
use crate::real32::Real32;
use crate::vehicle::{ImuSample, Vec3};
use vstd::prelude::*;

verus! {

/// Bytes of an inertial sample: acceleration and turn rate, three numbers each.
pub const IMU_BYTES: usize = 24;

/// The number in four bytes from `off` on.
pub open spec fn real_at(s: Seq<u8>, off: int) -> Real32 {
    Real32 { bits: bytes::le(s.subrange(off, off + 4)) as u32 }
}

/// The inertial sample in a byte string; none where it is too short.
pub open spec fn imu_of(s: Seq<u8>) -> Option<ImuSample> {
    if s.len() < IMU_BYTES {
        None
    } else {
        Some(
            ImuSample {
                accel: Vec3 { x: real_at(s, 0), y: real_at(s, 4), z: real_at(s, 8) },
                gyro: Vec3 { x: real_at(s, 12), y: real_at(s, 16), z: real_at(s, 20) },
            },
        )
    }
}

fn read_real(s: &[u8], off: usize) -> (r: Real32)
    requires
        off + 4 <= s@.len(),
    ensures
        r == real_at(s@, off as int),
{
    Real32 { bits: bytes::u32_le(s, off) }
}

/// Reads an inertial sample.
pub fn parse_imu(buf: &[u8]) -> (r: Option<ImuSample>)
    ensures
        r == imu_of(buf@),
{
    if buf.len() < IMU_BYTES {
        return None;
    }
    Some(
        ImuSample {
            accel: Vec3 { x: read_real(buf, 0), y: read_real(buf, 4), z: read_real(buf, 8) },
            gyro: Vec3 { x: read_real(buf, 12), y: read_real(buf, 16), z: read_real(buf, 20) },
        },
    )
}

/// The part of a read that holds data: a negative return is an error, and a
/// return past the buffer means all of it.
pub open spec fn filled(n: i32, cap: nat) -> nat {
    if n < 0 {
        0
    } else if n <= cap {
        n as nat
    } else {
        cap
    }
}

/// The inertial sample that a read of the device gave; none where it gave too
/// little, and the placeholder has to stand in.
pub fn imu_from_read(n: i32, buf: &[u8]) -> (r: Option<ImuSample>)
    ensures
        r == imu_of(buf@.take(filled(n, buf@.len()) as int)),
{
    let len: usize = if n < 0 {
        0
    } else if n as usize <= buf.len() {
        n as usize
    } else {
        buf.len()
    };
    let part = vstd::slice::slice_subrange(buf, 0, len);
    assert(part@ =~= buf@.take(filled(n, buf@.len()) as int));
    parse_imu(part)
}

/// Four motor commands as the output device takes them: 16 bytes, low byte first.
pub fn pack_pwm(motor: &[Real32; 4]) -> (b: Vec<u8>)
    ensures
        b@.len() == 16,
        forall|i: int|
            0 <= i < 4 ==> bytes::le(#[trigger] b@.subrange(4 * i, 4 * i + 4)) == motor@[i].bits,
{
    let mut b: Vec<u8> = Vec::new();
    let mut i: usize = 0;
    while i < 4
        invariant
            i <= 4,
            b@.len() == 4 * i,
            forall|j: int|
                0 <= j < i ==> bytes::le(#[trigger] b@.subrange(4 * j, 4 * j + 4))
                    == motor@[j].bits,
        decreases 4 - i,
    {
        let ghost before = b@;
        bytes::push_u32_le(&mut b, motor[i].bits);
        proof {
            assert forall|j: int| 0 <= j < i + 1 implies bytes::le(
                #[trigger] b@.subrange(4 * j, 4 * j + 4),
            ) == motor@[j].bits by {
                if j < i {
                    assert(b@.take(before.len() as int) == before);
                    assert(b@.subrange(4 * j, 4 * j + 4) =~= b@.take(
                        before.len() as int,
                    ).subrange(4 * j, 4 * j + 4));
                } else {
                    assert(b@.subrange(4 * j, 4 * j + 4) =~= b@.skip(before.len() as int));
                }
            }
        }
        i = i + 1;
    }
    b
}

/// A message that the task sends in each cycle.
#[derive(Clone, Copy, Debug, PartialEq, Eq, Structural)]
pub enum CycleMessage {
    Heartbeat { seq: u8, mode: u8, armed: bool },
    LocalPosition { seq: u8 },
    SysStatus { seq: u8, healthy: bool },
}

/// The messages of a cycle. The task does not take commands, so it is never
/// armed, and its mode is zero.
pub open spec fn cycle_messages(seq: u8, critical: bool) -> Seq<CycleMessage> {
    seq![
        CycleMessage::Heartbeat { seq, mode: 0, armed: false },
        CycleMessage::LocalPosition { seq },
        CycleMessage::SysStatus { seq, healthy: !critical },
    ]
}

/// Sends the messages of a cycle and counts it.
pub fn end_cycle(seq: &mut u8, critical: bool) -> (out: Vec<CycleMessage>)
    ensures
        out@ == cycle_messages(*old(seq), critical),
        *final(seq) == (*old(seq) + 1) % 256,
{
    let s: u8 = *seq;
    let mut out: Vec<CycleMessage> = Vec::new();
    out.push(CycleMessage::Heartbeat { seq: s, mode: 0, armed: false });
    out.push(CycleMessage::LocalPosition { seq: s });
    out.push(CycleMessage::SysStatus { seq: s, healthy: !critical });
    assert(out@ =~= cycle_messages(s, critical));
    *seq = seq.wrapping_add(1);
    out
}

/// An inertial sample that is written number by number, low byte first, reads
/// back as it was.
pub proof fn law_imu_reads_back(m: ImuSample, s: Seq<u8>)
    requires
        s.len() >= IMU_BYTES,
        bytes::le(s.subrange(0, 4)) == m.accel.x.bits,
        bytes::le(s.subrange(4, 8)) == m.accel.y.bits,
        bytes::le(s.subrange(8, 12)) == m.accel.z.bits,
        bytes::le(s.subrange(12, 16)) == m.gyro.x.bits,
        bytes::le(s.subrange(16, 20)) == m.gyro.y.bits,
        bytes::le(s.subrange(20, 24)) == m.gyro.z.bits,
    ensures
        imu_of(s) == Some(m),
{
}

/// Fewer than 24 bytes hold no sample; and only the first 24 count.
pub proof fn law_sample_needs_24_bytes(s: Seq<u8>, t: Seq<u8>)
    ensures
        imu_of(s) is Some <==> s.len() >= 24,
        s.len() >= 24 && t.len() >= 24 && s.take(24) == t.take(24) ==> imu_of(s) == imu_of(t),
{
    if s.len() >= 24 && t.len() >= 24 && s.take(24) == t.take(24) {
        assert forall|i: int| 0 <= i < 24 implies #[trigger] s[i] == t[i] by {
            assert(s.take(24)[i] == t.take(24)[i]);
        }
        assert(s.subrange(0, 4) =~= t.subrange(0, 4));
        assert(s.subrange(4, 8) =~= t.subrange(4, 8));
        assert(s.subrange(8, 12) =~= t.subrange(8, 12));
        assert(s.subrange(12, 16) =~= t.subrange(12, 16));
        assert(s.subrange(16, 20) =~= t.subrange(16, 20));
        assert(s.subrange(20, 24) =~= t.subrange(20, 24));
    }
}

/// A read gives a sample exactly where the device returned at least 24 bytes and the
/// buffer has them, and it is then the sample at the start of the buffer.
pub proof fn law_read_gives_the_sample(n: i32, buf: Seq<u8>)
    ensures
        ({
            let r = imu_of(buf.take(filled(n, buf.len()) as int));
            &&& r is Some <==> n >= 24 && buf.len() >= 24
            &&& r is Some ==> r == imu_of(buf)
        }),
{
    let part = buf.take(filled(n, buf.len()) as int);
    law_sample_needs_24_bytes(part, buf);
    if n >= 24 && buf.len() >= 24 {
        assert(part.take(24) =~= buf.take(24));
    }
}

/// In every cycle the status says healthy exactly where no fault is critical; the
/// heartbeat is always disarmed and in mode zero; all messages carry the cycle's number.
pub proof fn law_cycle_messages(seq: u8, critical: bool)
    ensures
        ({
            let out = cycle_messages(seq, critical);
            &&& out.len() == 3
            &&& out[0] matches CycleMessage::Heartbeat { seq: s, mode, armed } && s == seq && mode
                == 0 && !armed
            &&& out[1] matches CycleMessage::LocalPosition { seq: s } && s == seq
            &&& out[2] matches CycleMessage::SysStatus { seq: s, healthy } && s == seq && (healthy
                <==> !critical)
        }),
{
}

/// Of `imu_from_read`: a read of at least 24 bytes gives the sample at the start of the
/// buffer, acceleration before turn rate; a shorter one or an error gives none.
pub proof fn law_imu_from_read(n: i32, buf: &[u8], r: Option<ImuSample>)
    requires
        buf@.len() >= 24,
        call_ensures(imu_from_read, (n, buf), r),
    ensures
        r is Some <==> n >= 24,
        r matches Some(m) ==> {
            &&& m.accel.x.bits == bytes::le(buf@.subrange(0, 4))
            &&& m.accel.y.bits == bytes::le(buf@.subrange(4, 8))
            &&& m.accel.z.bits == bytes::le(buf@.subrange(8, 12))
            &&& m.gyro.x.bits == bytes::le(buf@.subrange(12, 16))
            &&& m.gyro.y.bits == bytes::le(buf@.subrange(16, 20))
            &&& m.gyro.z.bits == bytes::le(buf@.subrange(20, 24))
        },
{
    law_read_gives_the_sample(n, buf@);
    bytes::lemma_le_four(buf@.subrange(0, 4));
    bytes::lemma_le_four(buf@.subrange(4, 8));
    bytes::lemma_le_four(buf@.subrange(8, 12));
    bytes::lemma_le_four(buf@.subrange(12, 16));
    bytes::lemma_le_four(buf@.subrange(16, 20));
    bytes::lemma_le_four(buf@.subrange(20, 24));
}

/// Of `end_cycle`: the status is healthy exactly where no fault is critical, the
/// heartbeat is disarmed, and cycles are numbered one after the other.
pub proof fn law_end_cycle(seq: &mut u8, critical: bool, out: Vec<CycleMessage>)
    requires
        call_ensures(end_cycle, (seq, critical), out),
    ensures
        out@.len() == 3,
        out@[0] matches CycleMessage::Heartbeat { seq: s, mode, armed } && s == *old(seq) && mode
            == 0 && !armed,
        out@[1] matches CycleMessage::LocalPosition { seq: s } && s == *old(seq),
        out@[2] matches CycleMessage::SysStatus { seq: s, healthy } && s == *old(seq) && healthy
            != critical,
        *old(seq) < 255 ==> *final(seq) == *old(seq) + 1,
        *old(seq) == 255 ==> *final(seq) == 0,
{
}

} // verus!
