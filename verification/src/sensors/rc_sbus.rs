//! SBUS receiver: frames of 25 bytes with sixteen channels of 11 bits each.
//!
//! A frame is a header byte, 22 bytes of channels, a flag byte and a zero byte.

use crate::bytes;
use vstd::arithmetic::power2;
use vstd::prelude::*;

verus! {

/// Speed of the serial line.
pub const SBUS_BAUD: u32 = 100_000;

/// Parity setting of the serial line: even.
pub const SBUS_PARITY: u32 = 2;

/// Stop bits of the serial line.
pub const SBUS_STOP_BITS: u32 = 2;

/// Level inversion of the serial line: bit 0 for reception, bit 1 for sending.
pub const SBUS_INVERT: u32 = 3;

/// First byte of a frame.
pub const SBUS_HEADER: u8 = 0x0F;

/// Last byte of a frame.
pub const SBUS_FOOTER: u8 = 0x00;

/// Bytes in a frame.
pub const SBUS_FRAME_LEN: usize = 25;

/// Channels in a frame.
pub const SBUS_CHANNELS: usize = 16;

/// Channel value at mid-stick.
pub const SBUS_MID: i32 = 992;

/// Full travel of a channel, from 172 to 1811. Stick positions are numerators
/// over this number.
pub const SBUS_SPAN: i32 = 1639;

/// Channel `i` of the channel bytes: the `i`-th group of eleven bits of the
/// number that they denote.
pub open spec fn channel(p: Seq<u8>, i: int) -> u16 {
    ((bytes::le(p) / power2::pow2((11 * i) as nat)) % 2048) as u16
}

/// All channels.
pub open spec fn channels(p: Seq<u8>) -> Seq<u16> {
    Seq::new(16, |i: int| channel(p, i))
}

/// Whether the flag byte reports a lost frame (bit 4) or failsafe (bit 3).
pub open spec fn link_lost(flags: u8) -> bool {
    (flags / 8) % 4 != 0
}

/// The number that holds `ch` as groups of eleven bits, first channel lowest.
pub open spec fn packed(ch: Seq<u16>) -> nat
    decreases ch.len(),
{
    if ch.len() == 0 {
        0
    } else {
        ch[0] as nat + 2048 * packed(ch.drop_first())
    }
}

proof fn lemma_packed_push(ch: Seq<u16>, v: u16)
    ensures
        packed(ch.push(v)) == packed(ch) + v * power2::pow2(11 * ch.len()),
    decreases ch.len(),
{
    power2::lemma2_to64();
    if ch.len() == 0 {
        assert(ch.push(v).drop_first() =~= Seq::<u16>::empty());
        assert(packed(Seq::<u16>::empty()) == 0);
        assert(11 * ch.len() == 0);
    } else {
        assert(power2::pow2(11) == 2048);
        assert(ch.push(v)[0] == ch[0]);
        let rest = ch.drop_first();
        assert(ch.push(v).drop_first() =~= rest.push(v));
        lemma_packed_push(rest, v);
        power2::lemma_pow2_adds(11, 11 * rest.len());
        assert(11 + 11 * rest.len() == 11 * ch.len());
        let p = power2::pow2(11 * rest.len());
        assert(2048 * (v * p) == v * (2048 * p)) by (nonlinear_arith);
    }
}

/// A packed number gives each of its groups back.
proof fn lemma_packed_group(ch: Seq<u16>, i: int)
    requires
        0 <= i < ch.len(),
        forall|j: int| 0 <= j < ch.len() ==> #[trigger] ch[j] < 2048,
    ensures
        (packed(ch) / power2::pow2((11 * i) as nat)) % 2048 == ch[i],
    decreases i,
{
    power2::lemma2_to64();
    let rest = ch.drop_first();
    assert(ch[0] < 2048);
    if i == 0 {
        assert((packed(ch) / 1) % 2048 == ch[0]);
    } else {
        assert forall|j: int| 0 <= j < rest.len() implies #[trigger] rest[j] < 2048 by {
            assert(rest[j] == ch[j + 1]);
        }
        lemma_packed_group(rest, i - 1);
        let d = power2::pow2((11 * (i - 1)) as nat);
        power2::lemma_pow2_pos((11 * (i - 1)) as nat);
        power2::lemma_pow2_adds(11, (11 * (i - 1)) as nat);
        assert(11 + 11 * (i - 1) == 11 * i);
        vstd::arithmetic::div_mod::lemma_div_denominator(packed(ch) as int, 2048, d as int);
        assert(packed(ch) / 2048 == packed(rest));
    }
}

/// Channel values that are packed into channel bytes are decoded as they were.
pub proof fn law_channels_read_back(ch: Seq<u16>, p: Seq<u8>)
    requires
        ch.len() == SBUS_CHANNELS,
        forall|j: int| 0 <= j < ch.len() ==> #[trigger] ch[j] < 2048,
        bytes::le(p) == packed(ch),
    ensures
        channels(p) == ch,
{
    assert forall|i: int| 0 <= i < 16 implies channels(p)[i] == ch[i] by {
        lemma_packed_group(ch, i);
    }
    assert(channels(p) =~= ch);
}

/// What the receiver has taken in.
pub ghost struct SbusView {
    /// Bytes of the frame under way.
    pub got: Seq<u8>,
    /// Channels of the last frame.
    pub ch: Seq<u16>,
    /// Whether the last frame came over a sound link.
    pub fresh: bool,
}

/// One byte.
pub open spec fn sbus_step(v: SbusView, b: u8) -> SbusView {
    let next = v.got.push(b);
    if v.got.len() == 0 && b != SBUS_HEADER {
        v
    } else if next.len() < SBUS_FRAME_LEN {
        SbusView { got: next, ..v }
    } else if next[24] == SBUS_FOOTER {
        SbusView {
            got: Seq::empty(),
            ch: channels(next.subrange(1, 23)),
            fresh: !link_lost(next[23]),
        }
    } else {
        SbusView { got: Seq::empty(), ..v }
    }
}

/// A run of bytes.
pub open spec fn sbus_run(v: SbusView, s: Seq<u8>) -> SbusView
    decreases s.len(),
{
    if s.len() == 0 {
        v
    } else {
        sbus_step(sbus_run(v, s.drop_last()), s.last())
    }
}

/// The stick position of a channel, as a numerator over `SBUS_SPAN`: zero at
/// mid-stick, not past the ends.
pub open spec fn stick(ch: u16) -> int {
    let n = 2 * (ch - SBUS_MID);
    if n > SBUS_SPAN {
        SBUS_SPAN as int
    } else if n < -SBUS_SPAN {
        -SBUS_SPAN
    } else {
        n
    }
}

/// The position of a channel from its low end up, as a numerator over twice
/// `SBUS_SPAN`: zero at the low end, half at mid-stick.
pub open spec fn lever(ch: u16) -> int {
    stick(ch) + SBUS_SPAN
}

/// The mode slot of a channel.
pub open spec fn mode_slot(ch: u16) -> u8 {
    if ch < 600 {
        0
    } else if ch < 1400 {
        1
    } else {
        2
    }
}

/// Receiver input. Sticks are numerators over `SBUS_SPAN`, from `-1` to `1`; the
/// throttle is one over twice `SBUS_SPAN`, from `0` to `1`.
#[derive(Clone, Copy, Debug, PartialEq, Eq, Structural)]
pub struct SbusInput {
    pub roll: i32,
    pub pitch: i32,
    pub yaw: i32,
    pub throttle: i32,
    pub armed: bool,
    pub mode: u8,
}

/// The input that sixteen channels stand for.
pub open spec fn input_of(ch: Seq<u16>) -> SbusInput {
    SbusInput {
        roll: stick(ch[0]) as i32,
        pitch: stick(ch[1]) as i32,
        yaw: stick(ch[2]) as i32,
        throttle: lever(ch[3]) as i32,
        armed: ch[4] > 1700,
        mode: mode_slot(ch[5]),
    }
}

/// Settings of the serial line that a receiver needs.
#[derive(Clone, Copy, Debug, PartialEq, Eq, Structural)]
pub struct LineSettings {
    pub baud: u32,
    pub parity: u32,
    pub stop_bits: u32,
    pub invert: u32,
}

/// The settings: 100000 baud, even parity, two stop bits, inverted levels.
pub fn line_settings() -> (l: LineSettings)
    ensures
        l == (LineSettings {
            baud: SBUS_BAUD,
            parity: SBUS_PARITY,
            stop_bits: SBUS_STOP_BITS,
            invert: SBUS_INVERT,
        }),
{
    LineSettings {
        baud: SBUS_BAUD,
        parity: SBUS_PARITY,
        stop_bits: SBUS_STOP_BITS,
        invert: SBUS_INVERT,
    }
}

/// Decodes the channel bytes.
pub fn decode(p: &[u8]) -> (ch: Vec<u16>)
    requires
        p@.len() == 22,
    ensures
        ch@ == channels(p@),
{
    let mut ch: Vec<u16> = Vec::new();
    let mut bits: u32 = 0;
    let mut bitcount: u32 = 0;
    let mut k: usize = 0;
    proof {
        power2::lemma2_to64();
        assert(p@.take(0) =~= Seq::<u8>::empty());
        assert(packed(ch@) == 0);
        assert(bits * power2::pow2(11 * ch@.len()) == 0);
    }
    while k < 22
        invariant
            p@.len() == 22,
            k <= 22,
            bitcount < 11,
            8 * k == 11 * ch@.len() + bitcount,
            bits < power2::pow2(bitcount as nat),
            forall|j: int| 0 <= j < ch@.len() ==> #[trigger] ch@[j] < 2048,
            bytes::le(p@.take(k as int)) == packed(ch@) + bits * power2::pow2(11 * ch@.len()),
        decreases 22 - k,
    {
        let byte: u32 = p[k] as u32;
        let ghost low = bits;
        let ghost unit = power2::pow2(11 * ch@.len());
        proof {
            power2::lemma2_to64();
            lemma_shifted(low, byte, bitcount);
            bytes::lemma_le_push(p@.take(k as int), p@[k as int]);
            assert(p@.take(k + 1) =~= p@.take(k as int).push(p@[k as int]));
            power2::lemma_pow2_adds(bitcount as nat, 11 * ch@.len());
            let q = power2::pow2(bitcount as nat);
            assert(low * unit + byte * (q * unit) == (low + byte * q) * unit) by (nonlinear_arith);
        }
        bits = bits | (byte << bitcount);
        bitcount = bitcount + 8;
        k = k + 1;
        assert(bytes::le(p@.take(k as int)) == packed(ch@) + bits * unit);
        if bitcount >= 11 {
            let v: u16 = (bits & 0x7FF) as u16;
            let ghost had = bits;
            let ghost before = ch@;
            assert(had & 0x7FF == had % 2048) by (bit_vector);
            assert(had >> 11 == had / 2048) by (bit_vector);
            ch.push(v);
            bits = bits >> 11;
            bitcount = bitcount - 11;
            proof {
                lemma_packed_push(before, v);
                power2::lemma_pow2_adds(11, 11 * before.len());
                assert(11 + 11 * before.len() == 11 * ch@.len());
                power2::lemma_pow2_adds(bitcount as nat, 11);
                let r = (had / 2048) as int;
                let m = (had % 2048) as int;
                assert(had == m + 2048 * r);
                assert(m * unit + r * (2048 * unit) == (m + 2048 * r) * unit) by (nonlinear_arith);
                let top = power2::pow2(bitcount as nat) as int;
                assert(had < 2048 * top);
                assert(r < top);
            }
        }
    }
    proof {
        power2::lemma2_to64();
        assert(ch@.len() == 16 && bitcount == 0);
        assert(bits == 0);
        assert(bits * power2::pow2(11 * ch@.len()) == 0);
        assert(p@.take(22) =~= p@);
        law_channels_read_back(ch@, p@);
    }
    ch
}

/// Putting a byte above the bits that are there.
proof fn lemma_shifted(low: u32, byte: u32, shift: u32)
    requires
        shift < 11,
        byte < 256,
        low < power2::pow2(shift as nat),
    ensures
        low | (byte << shift) == low + byte * power2::pow2(shift as nat),
        low + byte * power2::pow2(shift as nat) < power2::pow2((shift + 8) as nat),
{
    power2::lemma2_to64();
    power2::lemma_pow2_adds(shift as nat, 8);
    let q = power2::pow2(shift as nat);
    if shift < 10 {
        power2::lemma_pow2_strictly_increases(shift as nat, 10);
    }
    assert(q <= 1024);
    assert(byte * q <= 255 * 1024) by (nonlinear_arith)
        requires
            byte <= 255,
            q <= 1024,
    ;
    assert(low + byte * q < q * 256) by (nonlinear_arith)
        requires
            byte <= 255,
            low < q,
    ;
    vstd::bits::lemma_u32_shl_is_mul(byte, shift);
    assert(1 * q <= 1024);
    vstd::bits::lemma_u32_shl_is_mul(1, shift);
    assert(1u32 << shift == q);
    assert(low | (byte << shift) == low + (byte << shift)) by (bit_vector)
        requires
            low < 1u32 << shift,
            shift < 11,
            byte < 256,
    ;
}

/// The receiver's state.
pub struct RcSbus {
    buf: Vec<u8>,
    ch: Vec<u16>,
    fresh: bool,
}

impl RcSbus {
    /// What the receiver has taken in.
    pub closed spec fn view(&self) -> SbusView {
        SbusView { got: self.buf@, ch: self.ch@, fresh: self.fresh }
    }

    /// Less than a frame is under way, and there are sixteen channels.
    pub open spec fn wf(&self) -> bool {
        self@.got.len() < SBUS_FRAME_LEN && self@.ch.len() == SBUS_CHANNELS
    }

    /// A receiver that has taken in nothing.
    pub fn new() -> (r: RcSbus)
        ensures
            r.wf(),
            r@.got == Seq::<u8>::empty(),
            r@.ch == Seq::new(16, |i: int| 0u16),
            !r@.fresh,
    {
        let mut ch: Vec<u16> = Vec::new();
        let mut i: usize = 0;
        while i < SBUS_CHANNELS
            invariant
                i <= SBUS_CHANNELS,
                ch@ == Seq::new(i as nat, |j: int| 0u16),
            decreases SBUS_CHANNELS - i,
        {
            ch.push(0);
            i = i + 1;
            assert(ch@ =~= Seq::new(i as nat, |j: int| 0u16));
        }
        RcSbus { buf: Vec::new(), ch, fresh: false }
    }

    /// Takes one byte.
    pub fn take_byte(&mut self, b: u8)
        requires
            old(self).wf(),
        ensures
            final(self).wf(),
            final(self)@ == sbus_step(old(self)@, b),
    {
        if self.buf.len() == 0 && b != SBUS_HEADER {
            return;
        }
        self.buf.push(b);
        if self.buf.len() == SBUS_FRAME_LEN {
            if self.buf[SBUS_FRAME_LEN - 1] == SBUS_FOOTER {
                let p = vstd::slice::slice_subrange(self.buf.as_slice(), 1, 23);
                let ch = decode(p);
                let flags: u8 = self.buf[23];
                assert((flags & 0x10 != 0 || flags & 0x08 != 0) <==> (flags / 8) % 4 != 0)
                    by (bit_vector);
                self.fresh = !(flags & 0x10 != 0 || flags & 0x08 != 0);
                self.ch = ch;
            }
            self.buf = Vec::new();
        }
    }

    /// Takes what a read of the device gave: `n` is what the driver returned, a
    /// length or an error code.
    pub fn drain(&mut self, n: i32, rb: &[u8])
        requires
            old(self).wf(),
            n <= rb@.len(),
        ensures
            final(self).wf(),
            final(self)@ == sbus_run(
                old(self)@,
                rb@.take(if n > 0 {
                    n as int
                } else {
                    0
                }),
            ),
    {
        if n <= 0 {
            assert(rb@.take(0) =~= Seq::<u8>::empty());
            return;
        }
        let len: usize = n as usize;
        let mut i: usize = 0;
        assert(rb@.take(0) =~= Seq::<u8>::empty());
        while i < len
            invariant
                i <= len <= rb@.len(),
                self.wf(),
                self@ == sbus_run(old(self)@, rb@.take(i as int)),
            decreases len - i,
        {
            assert(rb@.take(i + 1).drop_last() =~= rb@.take(i as int));
            self.take_byte(rb[i]);
            i = i + 1;
        }
    }

    /// The input of the last frame; none where no sound frame was the last one.
    pub fn read(&self) -> (r: Option<SbusInput>)
        requires
            self.wf(),
        ensures
            r == if self@.fresh {
                Some(input_of(self@.ch))
            } else {
                None
            },
    {
        if !self.fresh {
            return None;
        }
        Some(
            SbusInput {
                roll: norm(self.ch[0]),
                pitch: norm(self.ch[1]),
                yaw: norm(self.ch[2]),
                throttle: throttle(self.ch[3]),
                armed: self.ch[4] > 1700,
                mode: if self.ch[5] < 600 {
                    0
                } else if self.ch[5] < 1400 {
                    1
                } else {
                    2
                },
            },
        )
    }

    /// Whether the last frame came over a sound link.
    pub fn healthy(&self) -> (h: bool)
        ensures
            h == self@.fresh,
    {
        self.fresh
    }
}

/// The throttle position of a channel.
pub fn throttle(ch: u16) -> (n: i32)
    ensures
        n == lever(ch),
        0 <= n <= 2 * SBUS_SPAN,
{
    norm(ch) + SBUS_SPAN
}

/// The stick position of a channel.
pub fn norm(ch: u16) -> (n: i32)
    ensures
        n == stick(ch),
        -SBUS_SPAN <= n <= SBUS_SPAN,
{
    let n: i32 = 2 * (ch as i32 - SBUS_MID);
    if n > SBUS_SPAN {
        SBUS_SPAN
    } else if n < -SBUS_SPAN {
        -SBUS_SPAN
    } else {
        n
    }
}

/// How a stream is cut into reads makes no difference.
pub proof fn law_split_reads(v: SbusView, a: Seq<u8>, b: Seq<u8>)
    ensures
        sbus_run(v, a + b) == sbus_run(sbus_run(v, a), b),
    decreases b.len(),
{
    if b.len() == 0 {
        assert(a + b =~= a);
    } else {
        assert((a + b).drop_last() =~= a + b.drop_last());
        law_split_reads(v, a, b.drop_last());
    }
}

/// The state after the first `k` bytes of a frame.
proof fn lemma_collecting(v: SbusView, f: Seq<u8>, k: int)
    requires
        v.got.len() == 0,
        f.len() == SBUS_FRAME_LEN,
        f[0] == SBUS_HEADER,
        0 <= k < SBUS_FRAME_LEN,
    ensures
        sbus_run(v, f.take(k)) == (SbusView { got: f.take(k), ..v }),
    decreases k,
{
    if k > 0 {
        lemma_collecting(v, f, k - 1);
        assert(f.take(k).drop_last() =~= f.take(k - 1));
        assert(f.take(k - 1).push(f[k - 1]) =~= f.take(k));
    } else {
        assert(f.take(0) =~= Seq::<u8>::empty());
        assert(v.got =~= f.take(0));
    }
}

/// Where nothing is under way, 25 bytes with the header and the footer set the
/// channels and the link state; with another last byte they change nothing.
pub proof fn law_frame_sets_channels(v: SbusView, f: Seq<u8>)
    requires
        v.got.len() == 0,
        f.len() == SBUS_FRAME_LEN,
        f[0] == SBUS_HEADER,
    ensures
        f[24] == SBUS_FOOTER ==> sbus_run(v, f) == (SbusView {
            got: Seq::empty(),
            ch: channels(f.subrange(1, 23)),
            fresh: !link_lost(f[23]),
        }),
        f[24] != SBUS_FOOTER ==> sbus_run(v, f) == (SbusView { got: Seq::empty(), ..v }),
{
    lemma_collecting(v, f, 24);
    assert(f.drop_last() =~= f.take(24));
    assert(f.take(24).push(f[24]) =~= f);
}

/// Bytes before a header are skipped.
pub proof fn law_noise_is_skipped(v: SbusView, noise: Seq<u8>)
    requires
        v.got.len() == 0,
        forall|i: int| 0 <= i < noise.len() ==> #[trigger] noise[i] != SBUS_HEADER,
    ensures
        sbus_run(v, noise) == v,
    decreases noise.len(),
{
    if noise.len() > 0 {
        let part = noise.drop_last();
        assert forall|i: int| 0 <= i < part.len() implies #[trigger] part[i] != SBUS_HEADER by {
            assert(part[i] == noise[i]);
        }
        law_noise_is_skipped(v, part);
        assert(noise[noise.len() - 1] != SBUS_HEADER);
    }
}

/// The first three channels are roll, pitch and yaw, in this order: a stick is twice
/// the distance of its channel from 992, and not past 1639 to either side.
pub proof fn law_sticks_follow_their_channels(ch: Seq<u16>)
    requires
        ch.len() == 16,
        forall|j: int| 0 <= j < ch.len() ==> #[trigger] ch[j] < 2048,
    ensures
        ({
            let i = input_of(ch);
            &&& -1639 <= i.roll <= 1639 && -1639 <= i.pitch <= 1639 && -1639 <= i.yaw <= 1639
            &&& -1639 <= 2 * (ch[0] - 992) <= 1639 ==> i.roll == 2 * (ch[0] - 992)
            &&& -1639 <= 2 * (ch[1] - 992) <= 1639 ==> i.pitch == 2 * (ch[1] - 992)
            &&& -1639 <= 2 * (ch[2] - 992) <= 1639 ==> i.yaw == 2 * (ch[2] - 992)
            &&& 2 * (ch[0] - 992) > 1639 ==> i.roll == 1639
            &&& 2 * (ch[1] - 992) > 1639 ==> i.pitch == 1639
            &&& 2 * (ch[2] - 992) > 1639 ==> i.yaw == 1639
            &&& 2 * (ch[0] - 992) < -1639 ==> i.roll == -1639
            &&& 2 * (ch[1] - 992) < -1639 ==> i.pitch == -1639
            &&& 2 * (ch[2] - 992) < -1639 ==> i.yaw == -1639
        }),
{
    assert(ch[0] < 2048 && ch[1] < 2048 && ch[2] < 2048);
}

/// The fourth channel is the throttle, from zero at its low end over a half at
/// mid-stick to one; the fifth is the arm switch; the sixth has the three places of
/// the mode switch.
pub proof fn law_throttle_and_switches(ch: Seq<u16>)
    requires
        ch.len() == 16,
        forall|j: int| 0 <= j < ch.len() ==> #[trigger] ch[j] < 2048,
    ensures
        ({
            let i = input_of(ch);
            &&& 0 <= i.throttle <= 3278
            &&& -1639 <= 2 * (ch[3] - 992) <= 1639 ==> i.throttle - 1639 == 2 * (ch[3] - 992)
            &&& 2 * (ch[3] - 992) > 1639 ==> i.throttle == 3278
            &&& 2 * (ch[3] - 992) < -1639 ==> i.throttle == 0
            &&& i.armed <==> ch[4] > 1700
            &&& i.mode <= 2
            &&& i.mode == 0 <==> ch[5] < 600
            &&& i.mode == 2 <==> ch[5] >= 1400
        }),
{
    assert(ch[3] < 2048);
}

/// Moving one of the first six channels moves its own part of the input and nothing
/// else; a channel beyond them moves nothing.
pub proof fn law_channels_are_independent(ch: Seq<u16>, k: int, v: u16)
    requires
        ch.len() == 16,
        0 <= k < 16,
    ensures
        ({
            let i = input_of(ch);
            let j = input_of(ch.update(k, v));
            &&& k != 0 ==> j.roll == i.roll
            &&& k != 1 ==> j.pitch == i.pitch
            &&& k != 2 ==> j.yaw == i.yaw
            &&& k != 3 ==> j.throttle == i.throttle
            &&& k != 4 ==> j.armed == i.armed
            &&& k != 5 ==> j.mode == i.mode
        }),
{
}

/// The link counts as lost exactly where bit 3 (failsafe) or bit 4 (lost frame) of the
/// flag byte is set, whatever the other bits are.
pub proof fn law_link_flags(flags: u8)
    ensures
        link_lost(flags) <==> (flags / 8) % 2 == 1 || (flags / 16) % 2 == 1,
{
}

/// A sound frame that holds sixteen channel values makes the receiver fresh and gives
/// the input of exactly those values, whatever came before; one with a lost link
/// leaves the receiver without input.
pub proof fn law_frame_is_decoded(v: SbusView, f: Seq<u8>, ch: Seq<u16>)
    requires
        v.got.len() == 0,
        f.len() == 25,
        f[0] == 0x0F,
        f[24] == 0,
        ch.len() == 16,
        forall|j: int| 0 <= j < ch.len() ==> #[trigger] ch[j] < 2048,
        bytes::le(f.subrange(1, 23)) == packed(ch),
    ensures
        sbus_run(v, f).ch == ch,
        sbus_run(v, f).got.len() == 0,
        sbus_run(v, f).fresh <==> (f[23] / 8) % 2 == 0 && (f[23] / 16) % 2 == 0,
{
    law_frame_sets_channels(v, f);
    law_channels_read_back(ch, f.subrange(1, 23));
    law_link_flags(f[23]);
}

/// Of `read`: there is input exactly where the last frame came over a sound link; roll,
/// pitch and yaw are then twice the distance of the first three channels from 992, up to
/// 1639 either way, and throttle, arm switch and mode come from the next three.
pub proof fn law_read(r: &RcSbus, out: Option<SbusInput>)
    requires
        r.wf(),
        forall|j: int| 0 <= j < 16 ==> #[trigger] r@.ch[j] < 2048,
        call_ensures(RcSbus::read, (r,), out),
    ensures
        out is Some <==> r@.fresh,
        out matches Some(i) ==> {
            let ch = r@.ch;
            &&& -1639 <= i.roll <= 1639 && -1639 <= i.pitch <= 1639 && -1639 <= i.yaw <= 1639
            &&& -819 <= ch[0] - 992 <= 819 ==> i.roll == 2 * (ch[0] - 992)
            &&& -819 <= ch[1] - 992 <= 819 ==> i.pitch == 2 * (ch[1] - 992)
            &&& -819 <= ch[2] - 992 <= 819 ==> i.yaw == 2 * (ch[2] - 992)
            &&& -819 <= ch[3] - 992 <= 819 ==> i.throttle == 1639 + 2 * (ch[3] - 992)
            &&& ch[0] - 992 > 819 ==> i.roll == 1639
            &&& ch[1] - 992 > 819 ==> i.pitch == 1639
            &&& ch[2] - 992 > 819 ==> i.yaw == 1639
            &&& ch[3] - 992 > 819 ==> i.throttle == 3278
            &&& ch[0] - 992 < -819 ==> i.roll == -1639
            &&& ch[1] - 992 < -819 ==> i.pitch == -1639
            &&& ch[2] - 992 < -819 ==> i.yaw == -1639
            &&& ch[3] - 992 < -819 ==> i.throttle == 0
            &&& i.armed <==> ch[4] > 1700
            &&& i.mode == 0 <==> ch[5] < 600
            &&& i.mode == 1 <==> 600 <= ch[5] < 1400
            &&& i.mode == 2 <==> ch[5] >= 1400
        },
{
    law_sticks_follow_their_channels(r@.ch);
    law_throttle_and_switches(r@.ch);
}

/// Of `read`: two receivers that differ in one channel alone differ in that channel's
/// part of the input alone, and in none for a channel from the seventh on.
pub proof fn law_reads_compared(
    a: &RcSbus,
    b: &RcSbus,
    k: int,
    v: u16,
    x: Option<SbusInput>,
    y: Option<SbusInput>,
)
    requires
        a.wf(),
        a@.fresh,
        0 <= k < 16,
        b@ == (SbusView { ch: a@.ch.update(k, v), ..a@ }),
        call_ensures(RcSbus::read, (a,), x),
        call_ensures(RcSbus::read, (b,), y),
    ensures
        x matches Some(i) && y matches Some(j) && {
            &&& k != 0 ==> j.roll == i.roll
            &&& k != 1 ==> j.pitch == i.pitch
            &&& k != 2 ==> j.yaw == i.yaw
            &&& k != 3 ==> j.throttle == i.throttle
            &&& k != 4 ==> j.armed == i.armed
            &&& k != 5 ==> j.mode == i.mode
        },
{
    law_channels_are_independent(a@.ch, k, v);
}

/// Of `drain` and `read`: after a read that brought one whole frame over a sound link,
/// the input is that of the channel values in the frame.
pub proof fn law_drained_frame_is_read(
    a: &mut RcSbus,
    f: &[u8],
    ch: Seq<u16>,
    out: Option<SbusInput>,
)
    requires
        old(a).wf(),
        old(a)@.got.len() == 0,
        f@.len() == 25,
        f@[0] == 0x0F,
        f@[24] == 0,
        f@[23] == 0,
        ch.len() == 16,
        forall|j: int| 0 <= j < ch.len() ==> #[trigger] ch[j] < 2048,
        bytes::le(f@.subrange(1, 23)) == packed(ch),
        call_ensures(RcSbus::drain, (a, 25i32, f), ()),
        call_ensures(RcSbus::read, (&*final(a),), out),
    ensures
        out matches Some(i) && {
            &&& -819 <= ch[0] - 992 <= 819 ==> i.roll == 2 * (ch[0] - 992)
            &&& -819 <= ch[1] - 992 <= 819 ==> i.pitch == 2 * (ch[1] - 992)
            &&& -819 <= ch[2] - 992 <= 819 ==> i.yaw == 2 * (ch[2] - 992)
            &&& -819 <= ch[3] - 992 <= 819 ==> i.throttle == 1639 + 2 * (ch[3] - 992)
            &&& i.armed <==> ch[4] > 1700
        },
{
    assert(f@.take(25) =~= f@);
    law_frame_is_decoded(old(a)@, f@, ch);
    law_sticks_follow_their_channels(ch);
    law_throttle_and_switches(ch);
}

/// Of `healthy` and `read`: the receiver is healthy exactly where it has input; a new one
/// has none.
pub proof fn law_healthy_means_input(
    r: &RcSbus,
    h: bool,
    out: Option<SbusInput>,
    fresh: RcSbus,
    none: Option<SbusInput>,
)
    requires
        r.wf(),
        call_ensures(RcSbus::healthy, (r,), h),
        call_ensures(RcSbus::read, (r,), out),
        call_ensures(RcSbus::new, (), fresh),
        call_ensures(RcSbus::read, (&fresh,), none),
    ensures
        h <==> out is Some,
        none is None,
{
}

} // verus!
