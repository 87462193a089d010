//! Reassembly of ground-station frames from a byte stream.
//!
//! Reads from the link may hold half a frame, several frames, or bytes that
//! belong to none. A frame starts with a magic byte; its second byte is the
//! length of the payload, which ten header bytes precede and two checksum bytes
//! follow.

use vstd::prelude::*;

verus! {

/// First byte of a frame.
pub const MAVLINK_MAGIC: u8 = 0xFD;

/// Bytes before the payload.
pub const HEADER_LEN: usize = 10;

/// Bytes of a frame that are not payload.
pub const FRAME_OVERHEAD: usize = 12;

/// A complete frame that is not over `max` bytes.
pub open spec fn is_frame(f: Seq<u8>, max: nat) -> bool {
    f.len() >= FRAME_OVERHEAD && f[0] == MAVLINK_MAGIC && f.len() == FRAME_OVERHEAD + f[1] && f.len()
        <= max
}

/// The start of a frame that can still become one.
pub open spec fn is_partial(s: Seq<u8>, max: nat) -> bool {
    s.len() == 0 || (s[0] == MAVLINK_MAGIC && (s.len() >= HEADER_LEN ==> s.len() < FRAME_OVERHEAD
        + s[1] <= max))
}

/// One byte: what has been collected afterwards, and the frame that it completes.
pub open spec fn step(got: Seq<u8>, b: u8, max: nat) -> (Seq<u8>, Option<Seq<u8>>) {
    let next = got.push(b);
    if got.len() == 0 && b != MAVLINK_MAGIC {
        (Seq::empty(), None)
    } else if next.len() == HEADER_LEN && FRAME_OVERHEAD + next[1] > max {
        (Seq::empty(), None)
    } else if next.len() > HEADER_LEN && next.len() == FRAME_OVERHEAD + next[1] {
        (Seq::empty(), Some(next))
    } else {
        (next, None)
    }
}

/// A run of bytes: what has been collected afterwards, and the frames completed.
pub open spec fn run(got: Seq<u8>, bytes: Seq<u8>, max: nat) -> (Seq<u8>, Seq<Seq<u8>>)
    decreases bytes.len(),
{
    if bytes.len() == 0 {
        (got, Seq::empty())
    } else {
        let (mid, frames) = run(got, bytes.drop_last(), max);
        match step(mid, bytes.last(), max) {
            (next, Some(f)) => (next, frames.push(f)),
            (next, None) => (next, frames),
        }
    }
}

/// Contents of a list of byte vectors.
pub open spec fn views(v: Seq<Vec<u8>>) -> Seq<Seq<u8>> {
    v.map_values(|x: Vec<u8>| x@)
}

/// The part of a read that can be used: a driver may report an error code or a
/// length past the buffer.
pub open spec fn usable(n: i32, cap: nat) -> nat {
    if 0 < n <= cap {
        n as nat
    } else {
        0
    }
}

/// Collects frames byte by byte.
pub struct FxParser {
    max: usize,
    got: Vec<u8>,
}

impl FxParser {
    /// The bytes collected since the last frame.
    pub closed spec fn view(&self) -> Seq<u8> {
        self.got@
    }

    /// The longest frame that is accepted.
    pub closed spec fn max_len(&self) -> nat {
        self.max as nat
    }

    /// What has been collected can still become a frame.
    pub open spec fn wf(&self) -> bool {
        is_partial(self@, self.max_len())
    }

    /// A parser that has collected nothing and accepts frames up to `max` bytes.
    pub fn new(max: usize) -> (p: FxParser)
        ensures
            p.wf(),
            p.max_len() == max,
            p@ == Seq::<u8>::empty(),
    {
        FxParser { max, got: Vec::new() }
    }

    /// Takes one byte; returns the frame that it completes, if it does.
    pub fn feed_byte(&mut self, b: u8) -> (f: Option<Vec<u8>>)
        requires
            old(self).wf(),
        ensures
            final(self).wf(),
            final(self).max_len() == old(self).max_len(),
            final(self)@ == step(old(self)@, b, old(self).max_len()).0,
            match f {
                Some(v) => step(old(self)@, b, old(self).max_len()).1 == Some(v@) && is_frame(
                    v@,
                    old(self).max_len(),
                ),
                None => step(old(self)@, b, old(self).max_len()).1 is None,
            },
    {
        if self.got.len() == 0 && b != MAVLINK_MAGIC {
            assert(self.got@ =~= Seq::<u8>::empty());
            return None;
        }
        self.got.push(b);
        let n: usize = self.got.len();
        if n >= HEADER_LEN {
            let total: usize = FRAME_OVERHEAD + self.got[1] as usize;
            if n == HEADER_LEN && total > self.max {
                self.reset();
                return None;
            }
            if n > HEADER_LEN && n == total {
                let mut f: Vec<u8> = Vec::new();
                std::mem::swap(&mut f, &mut self.got);
                return Some(f);
            }
        }
        None
    }

    /// Takes a run of bytes; returns the frames that they complete, in order.
    pub fn feed(&mut self, bytes: &[u8]) -> (frames: Vec<Vec<u8>>)
        requires
            old(self).wf(),
        ensures
            final(self).wf(),
            final(self).max_len() == old(self).max_len(),
            final(self)@ == run(old(self)@, bytes@, old(self).max_len()).0,
            views(frames@) == run(old(self)@, bytes@, old(self).max_len()).1,
    {
        let mut frames: Vec<Vec<u8>> = Vec::new();
        let mut i: usize = 0;
        let ghost start = self@;
        let ghost max = self.max_len();
        assert(views(frames@) =~= Seq::<Seq<u8>>::empty());
        assert(bytes@.take(0) =~= Seq::<u8>::empty());
        while i < bytes.len()
            invariant
                i <= bytes@.len(),
                self.wf(),
                max == self.max_len(),
                max == old(self).max_len(),
                start == old(self)@,
                self@ == run(start, bytes@.take(i as int), max).0,
                views(frames@) == run(start, bytes@.take(i as int), max).1,
            decreases bytes@.len() - i,
        {
            let ghost had = frames@;
            assert(bytes@.take(i + 1).drop_last() =~= bytes@.take(i as int));
            if let Some(f) = self.feed_byte(bytes[i]) {
                frames.push(f);
                assert(views(frames@) =~= views(had).push(f@));
            }
            i = i + 1;
        }
        assert(bytes@.take(i as int) =~= bytes@);
        frames
    }

    /// Takes what a read of the link gave: `n` is what the driver returned. A
    /// return that is no usable length changes nothing.
    pub fn poll_read(&mut self, n: i32, buf: &[u8]) -> (frames: Vec<Vec<u8>>)
        requires
            old(self).wf(),
        ensures
            final(self).wf(),
            final(self).max_len() == old(self).max_len(),
            ({
                let bytes = buf@.take(usable(n, buf@.len()) as int);
                &&& final(self)@ == run(old(self)@, bytes, old(self).max_len()).0
                &&& views(frames@) == run(old(self)@, bytes, old(self).max_len()).1
            }),
    {
        if n > 0 && n as usize <= buf.len() {
            let part = vstd::slice::slice_subrange(buf, 0, n as usize);
            assert(part@ =~= buf@.take(usable(n, buf@.len()) as int));
            self.feed(part)
        } else {
            assert(usable(n, buf@.len()) == 0);
            assert(buf@.take(0) =~= Seq::<u8>::empty());
            let none: Vec<Vec<u8>> = Vec::new();
            assert(views(none@) =~= Seq::<Seq<u8>>::empty());
            none
        }
    }

    /// Forgets what has been collected.
    pub fn reset(&mut self)
        ensures
            final(self).wf(),
            final(self).max_len() == old(self).max_len(),
            final(self)@ == Seq::<u8>::empty(),
    {
        self.got = Vec::new();
    }
}

/// How a stream is cut into reads makes no difference: bytes that come in two
/// parts give the frames of the first part, then those of the second.
pub proof fn law_split_reads(got: Seq<u8>, a: Seq<u8>, b: Seq<u8>, max: nat)
    ensures
        ({
            let first = run(got, a, max);
            let second = run(first.0, b, max);
            run(got, a + b, max) == (second.0, first.1 + second.1)
        }),
    decreases b.len(),
{
    let first = run(got, a, max);
    let second = run(first.0, b, max);
    if b.len() == 0 {
        assert(a + b =~= a);
        assert(first.1 + second.1 =~= first.1);
    } else {
        assert((a + b).drop_last() =~= a + b.drop_last());
        assert((a + b).last() == b.last());
        law_split_reads(got, a, b.drop_last(), max);
        let part = run(first.0, b.drop_last(), max);
        match step(part.0, b.last(), max) {
            (next, Some(f)) => {
                assert((first.1 + part.1).push(f) =~= first.1 + part.1.push(f));
            },
            (next, None) => {},
        }
    }
}

/// What has been collected is always the start of a frame, and what comes out is
/// always a complete frame of an accepted length.
pub proof fn law_only_frames_come_out(got: Seq<u8>, bytes: Seq<u8>, max: nat)
    requires
        is_partial(got, max),
    ensures
        is_partial(run(got, bytes, max).0, max),
        forall|i: int|
            0 <= i < run(got, bytes, max).1.len() ==> is_frame(
                #[trigger] run(got, bytes, max).1[i],
                max,
            ),
    decreases bytes.len(),
{
    if bytes.len() > 0 {
        law_only_frames_come_out(got, bytes.drop_last(), max);
    }
}

/// A prefix of a frame is collected without anything coming out.
proof fn lemma_prefix(f: Seq<u8>, k: int, max: nat)
    requires
        is_frame(f, max),
        0 <= k < f.len(),
    ensures
        run(Seq::empty(), f.take(k), max) == (f.take(k), Seq::<Seq<u8>>::empty()),
    decreases k,
{
    if k > 0 {
        lemma_prefix(f, k - 1, max);
        assert(f.take(k).drop_last() =~= f.take(k - 1));
        assert(f.take(k - 1).push(f[k - 1]) =~= f.take(k));
    } else {
        assert(f.take(0) =~= Seq::<u8>::empty());
    }
}

/// A complete frame that starts where nothing is collected comes out as it is.
pub proof fn law_frame_comes_out(f: Seq<u8>, max: nat)
    requires
        is_frame(f, max),
    ensures
        run(Seq::empty(), f, max) == (Seq::<u8>::empty(), seq![f]),
{
    lemma_prefix(f, f.len() - 1, max);
    assert(f.drop_last() =~= f.take(f.len() - 1));
    assert(f.take(f.len() - 1).push(f[f.len() - 1]) =~= f);
    assert(Seq::<Seq<u8>>::empty().push(f) =~= seq![f]);
}

/// A header that announces more than is accepted is dropped once it is complete, and
/// the next byte starts afresh.
pub proof fn law_overlong_frame_is_dropped(h: Seq<u8>, max: nat)
    requires
        h.len() == HEADER_LEN,
        h[0] == MAVLINK_MAGIC,
        FRAME_OVERHEAD + h[1] > max,
    ensures
        run(Seq::empty(), h, max) == (Seq::<u8>::empty(), Seq::<Seq<u8>>::empty()),
{
    lemma_header(h, 9, max);
    assert(h.drop_last() =~= h.take(9));
    assert(h.take(9).push(h[9]) =~= h);
}

/// The start of a header is collected without anything coming out.
proof fn lemma_header(h: Seq<u8>, k: int, max: nat)
    requires
        h.len() == HEADER_LEN,
        h[0] == MAVLINK_MAGIC,
        0 <= k < HEADER_LEN,
    ensures
        run(Seq::empty(), h.take(k), max) == (h.take(k), Seq::<Seq<u8>>::empty()),
    decreases k,
{
    if k > 0 {
        lemma_header(h, k - 1, max);
        assert(h.take(k).drop_last() =~= h.take(k - 1));
        assert(h.take(k - 1).push(h[k - 1]) =~= h.take(k));
    } else {
        assert(h.take(0) =~= Seq::<u8>::empty());
    }
}

/// Bytes between frames that hold no magic byte are dropped.
pub proof fn law_noise_is_dropped(noise: Seq<u8>, max: nat)
    requires
        forall|i: int| 0 <= i < noise.len() ==> #[trigger] noise[i] != MAVLINK_MAGIC,
    ensures
        run(Seq::empty(), noise, max) == (Seq::<u8>::empty(), Seq::<Seq<u8>>::empty()),
    decreases noise.len(),
{
    if noise.len() > 0 {
        let part = noise.drop_last();
        assert forall|i: int| 0 <= i < part.len() implies #[trigger] part[i] != MAVLINK_MAGIC by {
            assert(part[i] == noise[i]);
        }
        law_noise_is_dropped(part, max);
        assert(noise[noise.len() - 1] != MAVLINK_MAGIC);
    }
}

/// A stream: frames, each with the bytes before it that belong to no frame.
pub open spec fn stream(noise: Seq<Seq<u8>>, frames: Seq<Seq<u8>>) -> Seq<u8>
    decreases frames.len(),
{
    if frames.len() == 0 {
        Seq::empty()
    } else {
        stream(noise, frames.drop_last()) + (noise[frames.len() - 1] + frames.last())
    }
}

/// From a stream of frames with noise between them come exactly the frames, in
/// their order.
pub proof fn law_stream_gives_its_frames(noise: Seq<Seq<u8>>, frames: Seq<Seq<u8>>, max: nat)
    requires
        noise.len() >= frames.len(),
        forall|i: int| 0 <= i < frames.len() ==> is_frame(#[trigger] frames[i], max),
        forall|i: int, j: int|
            0 <= i < noise.len() && 0 <= j < noise[i].len() ==> #[trigger] noise[i][j]
                != MAVLINK_MAGIC,
    ensures
        run(Seq::empty(), stream(noise, frames), max) == (Seq::<u8>::empty(), frames),
    decreases frames.len(),
{
    if frames.len() == 0 {
        assert(frames =~= Seq::<Seq<u8>>::empty());
    } else {
        let n = frames.len() - 1;
        let f = frames[n];
        let before = frames.drop_last();
        assert forall|i: int| 0 <= i < before.len() implies is_frame(#[trigger] before[i], max) by {
            assert(before[i] == frames[i]);
        }
        law_stream_gives_its_frames(noise, before, max);
        law_noise_is_dropped(noise[n], max);
        law_frame_comes_out(f, max);
        law_split_reads(Seq::empty(), noise[n], f, max);
        law_split_reads(Seq::empty(), stream(noise, before), noise[n] + f, max);
        assert(Seq::<Seq<u8>>::empty() + seq![f] =~= seq![f]);
        assert(before + seq![f] =~= frames);
    }
}

/// An error code, an empty read and a length past the buffer bring no bytes; every
/// other return brings as many as it says.
pub proof fn law_usable_part_of_a_read(n: i32, cap: nat)
    ensures
        usable(n, cap) <= cap,
        n <= 0 || n > cap ==> usable(n, cap) == 0,
        0 <= n <= cap ==> usable(n, cap) == n,
{
}

/// Of `feed`: a frame that comes in two reads, cut anywhere, comes out once, with the
/// second one, as it was.
pub proof fn law_fed_frame_comes_out(
    a: &mut FxParser,
    x: &[u8],
    first: Vec<Vec<u8>>,
    b: &mut FxParser,
    y: &[u8],
    second: Vec<Vec<u8>>,
)
    requires
        old(a).wf(),
        old(a)@.len() == 0,
        is_frame(x@ + y@, old(a).max_len()),
        y@.len() > 0,
        call_ensures(FxParser::feed, (a, x), first),
        *old(b) == *final(a),
        call_ensures(FxParser::feed, (b, y), second),
    ensures
        first@.len() == 0,
        second@.len() == 1,
        second@[0]@ == x@ + y@,
        final(b)@.len() == 0,
{
    let f = x@ + y@;
    let max = old(a).max_len();
    assert(old(a)@ =~= Seq::<u8>::empty());
    law_frame_comes_out(f, max);
    law_split_reads(Seq::empty(), x@, y@, max);
    lemma_prefix(f, x@.len() as int, max);
    assert(f.take(x@.len() as int) =~= x@);
    assert(views(first@).len() == first@.len());
    assert(views(second@) =~= seq![f]) by {
        assert(Seq::<Seq<u8>>::empty() + views(second@) =~= views(second@));
    }
    assert(views(second@)[0] == second@[0]@);
}

/// Of `poll_read`: an error, nothing, or a length past the buffer leaves what was
/// collected and gives no frame.
pub proof fn law_bad_read_changes_nothing(
    p: &mut FxParser,
    n: i32,
    buf: &[u8],
    frames: Vec<Vec<u8>>,
)
    requires
        old(p).wf(),
        n <= 0 || n > buf@.len(),
        call_ensures(FxParser::poll_read, (p, n, buf), frames),
    ensures
        final(p)@ == old(p)@,
        frames@.len() == 0,
{
    assert(buf@.take(0) =~= Seq::<u8>::empty());
    assert(views(frames@).len() == frames@.len());
}

} // verus!
