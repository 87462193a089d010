//! The task that prints the log: lines are gathered into packets so that several
//! lines go out in one write, and newlines become carriage return and newline.

use crate::log;
use vstd::prelude::*;

verus! {

/// Bytes in one packet.
pub const PACKET_MAX: usize = 512;

/// Pause of the printing task after a round in which nothing was sent.
pub const IDLE_SLEEP_MS: u32 = 5;

/// What a byte of a line becomes on the console.
pub open spec fn printed(b: u8) -> Seq<u8> {
    if b == '\n' as u8 {
        seq!['\r' as u8, '\n' as u8]
    } else {
        seq![b]
    }
}

/// A text with `\n` replaced by `\r\n`.
pub open spec fn crlf(t: Seq<u8>) -> Seq<u8>
    decreases t.len(),
{
    if t.len() == 0 {
        Seq::empty()
    } else {
        printed(t[0]) + crlf(t.drop_first())
    }
}

/// How many leading bytes of `t` can be printed into `room` bytes.
pub open spec fn fits(room: int, t: Seq<u8>) -> nat
    decreases t.len(),
{
    if t.len() == 0 || printed(t[0]).len() > room {
        0
    } else {
        1 + fits(room - printed(t[0]).len(), t.drop_first())
    }
}

/// A packet and a text: what has to be sent now, and the packet afterwards. A text
/// that does not fit is split; a packet is sent early where a text as long as the
/// last one would not fit any more.
pub open spec fn pack(pkt: Seq<u8>, t: Seq<u8>) -> (Option<Seq<u8>>, Seq<u8>) {
    let i = fits(PACKET_MAX - pkt.len(), t) as int;
    if i < t.len() {
        (Some(pkt + crlf(t.take(i))), crlf(t.skip(i)))
    } else if pkt.len() + crlf(t).len() + t.len() + 2 > PACKET_MAX {
        (Some(pkt + crlf(t)), Seq::empty())
    } else {
        (None, pkt + crlf(t))
    }
}

/// Printing a text piece by piece prints the whole.
pub proof fn lemma_crlf_concat(a: Seq<u8>, b: Seq<u8>)
    ensures
        crlf(a + b) == crlf(a) + crlf(b),
    decreases a.len(),
{
    if a.len() == 0 {
        assert(a + b =~= b);
        assert(crlf(a) + crlf(b) =~= crlf(b));
    } else {
        assert((a + b).drop_first() =~= a.drop_first() + b);
        lemma_crlf_concat(a.drop_first(), b);
        assert(crlf(a + b) =~= crlf(a) + crlf(b));
    }
}

proof fn lemma_crlf_push(a: Seq<u8>, b: u8)
    ensures
        crlf(a.push(b)) == crlf(a) + printed(b),
{
    assert(a.push(b) =~= a + seq![b]);
    lemma_crlf_concat(a, seq![b]);
    assert(seq![b].drop_first() =~= Seq::<u8>::empty());
    assert(crlf(seq![b].drop_first()) =~= Seq::<u8>::empty());
    assert(crlf(seq![b]) =~= printed(b));
}

proof fn lemma_crlf_len(t: Seq<u8>)
    ensures
        t.len() <= crlf(t).len() <= 2 * t.len(),
    decreases t.len(),
{
    if t.len() > 0 {
        lemma_crlf_len(t.drop_first());
    }
}

/// The count of bytes that fit, found by trying them one after the other.
proof fn lemma_fits(room: int, t: Seq<u8>, i: int)
    requires
        0 <= i <= t.len(),
        crlf(t.take(i)).len() <= room,
        i == t.len() || crlf(t.take(i)).len() + printed(t[i]).len() > room,
    ensures
        fits(room, t) == i,
    decreases i,
{
    if i > 0 {
        let rest = t.drop_first();
        assert(t.take(i).drop_first() =~= rest.take(i - 1));
        assert(t.take(i)[0] == t[0]);
        lemma_fits(room - printed(t[0]).len(), rest, i - 1);
    } else {
        assert(t.take(0) =~= Seq::<u8>::empty());
    }
}

proof fn lemma_fits_bounds(room: int, t: Seq<u8>)
    requires
        room >= 0,
    ensures
        fits(room, t) <= t.len(),
        crlf(t.take(fits(room, t) as int)).len() <= room,
        fits(room, t) < t.len() ==> crlf(t).len() > room,
    decreases t.len(),
{
    assert(t.take(0) =~= Seq::<u8>::empty());
    if t.len() > 0 {
        if printed(t[0]).len() <= room {
            let rest = t.drop_first();
            lemma_fits_bounds(room - printed(t[0]).len(), rest);
            let i = fits(room, t) as int;
            assert(t.take(i).drop_first() =~= rest.take(i - 1));
            assert(t.take(i)[0] == t[0]);
        }
    }
}

/// What is sent and what stays in the packet are together what was in the packet
/// and the printed text; nothing sent is longer than a packet or empty, and what
/// stays fits a packet.
pub proof fn law_pack_keeps_bytes(pkt: Seq<u8>, t: Seq<u8>)
    requires
        pkt.len() <= PACKET_MAX,
        1 <= t.len() <= log::LOG_MAX_TEXT,
    ensures
        match pack(pkt, t).0 {
            Some(chunk) => chunk + pack(pkt, t).1 == pkt + crlf(t) && 1 <= chunk.len()
                <= PACKET_MAX,
            None => pack(pkt, t).1 == pkt + crlf(t),
        },
        pack(pkt, t).1.len() <= PACKET_MAX,
{
    let room = PACKET_MAX - pkt.len();
    lemma_fits_bounds(room, t);
    lemma_crlf_len(t);
    let i = fits(room, t) as int;
    assert(t =~= t.take(i) + t.skip(i));
    lemma_crlf_concat(t.take(i), t.skip(i));
    lemma_crlf_len(t.skip(i));
    if i == t.len() {
        assert(t.take(i) =~= t);
    }
    match pack(pkt, t).0 {
        Some(chunk) => {
            assert(chunk + pack(pkt, t).1 =~= pkt + crlf(t));
        },
        None => {},
    }
}

/// The packets sent for a run of texts, and what is left in the last packet.
pub open spec fn pack_all(pkt: Seq<u8>, ts: Seq<Seq<u8>>) -> (Seq<Seq<u8>>, Seq<u8>)
    decreases ts.len(),
{
    if ts.len() == 0 {
        (Seq::empty(), pkt)
    } else {
        let (chunks, p) = pack_all(pkt, ts.drop_last());
        match pack(p, ts.last()) {
            (Some(chunk), q) => (chunks.push(chunk), q),
            (None, q) => (chunks, q),
        }
    }
}

/// Byte strings one after the other.
pub open spec fn join(parts: Seq<Seq<u8>>) -> Seq<u8>
    decreases parts.len(),
{
    if parts.len() == 0 {
        Seq::empty()
    } else {
        join(parts.drop_last()) + parts.last()
    }
}

/// Whatever lines come, the packets one after the other are the lines one after
/// the other, with `\r\n` line ends: nothing is lost, doubled or reordered.
pub proof fn law_packets_are_the_lines(pkt: Seq<u8>, ts: Seq<Seq<u8>>)
    requires
        pkt.len() <= PACKET_MAX,
        forall|i: int| 0 <= i < ts.len() ==> 1 <= (#[trigger] ts[i]).len() <= log::LOG_MAX_TEXT,
    ensures
        join(pack_all(pkt, ts).0) + pack_all(pkt, ts).1 == pkt + crlf(join(ts)),
        pack_all(pkt, ts).1.len() <= PACKET_MAX,
        forall|i: int|
            0 <= i < pack_all(pkt, ts).0.len() ==> 1 <= (#[trigger] pack_all(pkt, ts).0[i]).len()
                <= PACKET_MAX,
    decreases ts.len(),
{
    if ts.len() == 0 {
        assert(join(pack_all(pkt, ts).0) + pkt =~= pkt + crlf(join(ts)));
    } else {
        assert forall|i: int| 0 <= i < ts.drop_last().len() implies 1 <= (
        #[trigger] ts.drop_last()[i]).len() <= log::LOG_MAX_TEXT by {
            assert(ts.drop_last()[i] == ts[i]);
        }
        law_packets_are_the_lines(pkt, ts.drop_last());
        let (chunks, p) = pack_all(pkt, ts.drop_last());
        let t = ts[ts.len() - 1];
        law_pack_keeps_bytes(p, t);
        lemma_crlf_concat(join(ts.drop_last()), t);
        match pack(p, t).0 {
            Some(chunk) => {
                assert(chunks.push(chunk).drop_last() =~= chunks);
                assert(join(chunks.push(chunk)) + pack(p, t).1 =~= join(chunks) + (chunk + pack(
                    p,
                    t,
                ).1));
                assert(join(chunks) + (p + crlf(t)) =~= (join(chunks) + p) + crlf(t));
                assert(pkt + crlf(join(ts.drop_last())) + crlf(t) =~= pkt + crlf(join(ts)));
            },
            None => {
                assert(join(chunks) + (p + crlf(t)) =~= (join(chunks) + p) + crlf(t));
                assert(pkt + crlf(join(ts.drop_last())) + crlf(t) =~= pkt + crlf(join(ts)));
            },
        }
    }
}

/// The texts of stored lines.
pub open spec fn texts(es: Seq<log::LogEntry>) -> Seq<Seq<u8>> {
    es.map_values(|e: log::LogEntry| e.text)
}

/// The console shows the stored lines, oldest first, with `\r\n` line ends, whatever
/// packets they are sent in.
pub proof fn law_console_shows_the_ring(es: Seq<log::LogEntry>)
    requires
        forall|i: int| 0 <= i < es.len() ==> log::entry_ok(#[trigger] es[i]),
    ensures
        join(pack_all(Seq::empty(), texts(es)).0) + pack_all(Seq::empty(), texts(es)).1 == crlf(
            join(texts(es)),
        ),
{
    assert forall|i: int| 0 <= i < texts(es).len() implies 1 <= (#[trigger] texts(es)[i]).len()
        <= log::LOG_MAX_TEXT by {
        assert(log::entry_ok(es[i]));
    }
    law_packets_are_the_lines(Seq::empty(), texts(es));
    assert(Seq::<u8>::empty() + crlf(join(texts(es))) =~= crlf(join(texts(es))));
}

/// The packet under construction, and whether this round has sent anything.
pub struct LogPacker {
    pkt: Vec<u8>,
    sent: bool,
}

/// The end of a round: what is still to be sent, and how long to pause.
pub struct RoundEnd {
    pub chunk: Option<Vec<u8>>,
    pub sleep_ms: u32,
}

impl LogPacker {
    /// The packet under construction.
    pub closed spec fn view(&self) -> Seq<u8> {
        self.pkt@
    }

    /// Whether anything was sent in this round.
    pub closed spec fn sent(&self) -> bool {
        self.sent
    }

    /// The packet is not over its size.
    pub closed spec fn wf(&self) -> bool {
        self.pkt@.len() <= PACKET_MAX
    }

    /// What a packet holds so far fits one transfer.
    pub proof fn lemma_wf(&self)
        requires
            self.wf(),
        ensures
            self@.len() <= PACKET_MAX,
    {
    }

    /// An empty packet at the start of a round.
    pub fn new() -> (p: LogPacker)
        ensures
            p.wf(),
            p@ == Seq::<u8>::empty(),
            !p.sent(),
    {
        LogPacker { pkt: Vec::new(), sent: false }
    }

    /// Prints bytes of `t` from place `from` on into the packet as far as they
    /// fit; returns the place of the first byte that did not.
    fn fill(&mut self, t: &[u8], from: usize) -> (i: usize)
        requires
            old(self).wf(),
            from <= t@.len(),
        ensures
            final(self).wf(),
            from <= i <= t@.len(),
            final(self).sent == old(self).sent,
            i == from + fits(PACKET_MAX - old(self)@.len(), t@.skip(from as int)),
            final(self)@ == old(self)@ + crlf(t@.subrange(from as int, i as int)),
    {
        let mut i: usize = from;
        let ghost rest = t@.skip(from as int);
        let ghost start = self.pkt@;
        assert(t@.subrange(from as int, from as int) =~= Seq::<u8>::empty());
        assert(self.pkt@ =~= start + crlf(t@.subrange(from as int, i as int)));
        while i < t.len() && (self.pkt.len() + 2 <= PACKET_MAX || (t[i] != '\n' as u8
            && self.pkt.len() < PACKET_MAX))
            invariant
                from <= i <= t@.len(),
                start == old(self).pkt@,
                self.sent == old(self).sent,
                self.pkt@.len() <= PACKET_MAX,
                self.pkt@ == start + crlf(t@.subrange(from as int, i as int)),
            decreases t@.len() - i,
        {
            proof {
                lemma_crlf_push(t@.subrange(from as int, i as int), t@[i as int]);
                assert(t@.subrange(from as int, i + 1) =~= t@.subrange(from as int, i as int).push(
                    t@[i as int],
                ));
            }
            if t[i] == '\n' as u8 {
                self.pkt.push('\r' as u8);
                self.pkt.push('\n' as u8);
            } else {
                self.pkt.push(t[i]);
            }
            i = i + 1;
            assert(self.pkt@ =~= start + crlf(t@.subrange(from as int, i as int)));
        }
        proof {
            assert(rest.take(i - from) =~= t@.subrange(from as int, i as int));
            lemma_fits(PACKET_MAX - start.len(), rest, i - from);
        }
        i
    }

    /// Adds a line to the packet; hands out a packet that has to be sent now.
    pub fn take_text(&mut self, t: &[u8]) -> (chunk: Option<Vec<u8>>)
        requires
            old(self).wf(),
            1 <= t@.len() <= log::LOG_MAX_TEXT,
        ensures
            final(self).wf(),
            final(self)@ == pack(old(self)@, t@).1,
            match chunk {
                Some(c) => pack(old(self)@, t@).0 == Some(c@),
                None => pack(old(self)@, t@).0 is None,
            },
            final(self).sent() == (old(self).sent() || chunk is Some),
    {
        let ghost before = self.pkt@;
        let i: usize = self.fill(t, 0);
        proof {
            assert(t@.skip(0) =~= t@);
            assert(t@.subrange(0, i as int) =~= t@.take(i as int));
            law_pack_keeps_bytes(before, t@);
        }
        if i < t.len() {
            let mut fresh: Vec<u8> = Vec::new();
            std::mem::swap(&mut fresh, &mut self.pkt);
            let j: usize = self.fill(t, i);
            proof {
                let rest = t@.skip(i as int);
                lemma_crlf_len(rest);
                lemma_fits_bounds(PACKET_MAX as int, rest);
                assert(t@.subrange(i as int, j as int) =~= rest);
                assert(self.pkt@ =~= crlf(rest));
            }
            self.sent = true;
            return Some(fresh);
        }
        assert(t@.take(i as int) =~= t@);
        if self.pkt.len() + t.len() + 2 > PACKET_MAX {
            let mut fresh: Vec<u8> = Vec::new();
            std::mem::swap(&mut fresh, &mut self.pkt);
            self.sent = true;
            return Some(fresh);
        }
        None
    }

    /// Adds an entry that was taken out of the ring; says whether it was sound,
    /// and hands out a packet that has to be sent now. An entry with a bad length
    /// byte is dropped.
    pub fn take_entry(&mut self, raw: &[u8]) -> (r: (bool, Option<Vec<u8>>))
        requires
            old(self).wf(),
        ensures
            final(self).wf(),
            match log::text_of(raw@) {
                Some(t) => if 1 <= t.len() <= log::LOG_MAX_TEXT {
                    &&& r.0
                    &&& final(self)@ == pack(old(self)@, t).1
                    &&& match r.1 {
                        Some(c) => pack(old(self)@, t).0 == Some(c@),
                        None => pack(old(self)@, t).0 is None,
                    }
                } else {
                    !r.0 && r.1 is None && final(self)@ == old(self)@
                },
                None => !r.0 && r.1 is None && final(self)@ == old(self)@,
            },
            final(self).sent() == (old(self).sent() || r.1 is Some),
    {
        match log::entry_text(raw) {
            Some(t) => {
                if t.len() == 0 || t.len() > log::LOG_MAX_TEXT {
                    (false, None)
                } else {
                    let chunk = self.take_text(t);
                    (true, chunk)
                }
            },
            None => (false, None),
        }
    }

    /// Ends a round: what is left in the packet is sent, and the task pauses only
    /// if the whole round sent nothing.
    pub fn end_round(&mut self) -> (end: RoundEnd)
        requires
            old(self).wf(),
        ensures
            final(self).wf(),
            final(self)@ == Seq::<u8>::empty(),
            !final(self).sent(),
            match end.chunk {
                Some(c) => c@ == old(self)@ && c@.len() > 0,
                None => old(self)@.len() == 0,
            },
            end.sleep_ms == if old(self).sent() || old(self)@.len() > 0 {
                0
            } else {
                IDLE_SLEEP_MS
            },
    {
        let was_sent: bool = self.sent;
        self.sent = false;
        if self.pkt.len() > 0 {
            let mut fresh: Vec<u8> = Vec::new();
            std::mem::swap(&mut fresh, &mut self.pkt);
            RoundEnd { chunk: Some(fresh), sleep_ms: 0 }
        } else {
            assert(self.pkt@ =~= Seq::<u8>::empty());
            RoundEnd {
                chunk: None,
                sleep_ms: if was_sent {
                    0
                } else {
                    IDLE_SLEEP_MS
                },
            }
        }
    }
}

/// A packet is sent exactly where, with this line in it, another line of its length
/// would not fit any more; and one that is sent because the line was split is full but
/// for at most one byte.
pub proof fn law_packet_is_sent_when_full(pkt: Seq<u8>, t: Seq<u8>)
    requires
        pkt.len() <= 512,
        1 <= t.len() <= 254,
    ensures
        pack(pkt, t).0 is Some <==> pkt.len() + crlf(t).len() + t.len() + 2 > 512,
        pack(pkt, t).0 matches Some(chunk) ==> pkt.len() + crlf(t).len() > 512 ==> chunk.len()
            >= 511,
{
    let room = PACKET_MAX - pkt.len();
    lemma_fits_bounds(room, t);
    lemma_fits_fills(room, t);
    lemma_crlf_len(t);
    let i = fits(room, t) as int;
    if i == t.len() {
        assert(t.take(i) =~= t);
    }
}

/// Printing stops only where the next byte does not fit.
proof fn lemma_fits_fills(room: int, t: Seq<u8>)
    requires
        room >= 0,
    ensures
        fits(room, t) < t.len() ==> crlf(t.take(fits(room, t) as int)).len() + 1 >= room,
    decreases t.len(),
{
    assert(t.take(0) =~= Seq::<u8>::empty());
    if t.len() > 0 && printed(t[0]).len() <= room {
        let rest = t.drop_first();
        lemma_fits_fills(room - printed(t[0]).len(), rest);
        lemma_fits_bounds(room - printed(t[0]).len(), rest);
        let i = fits(room, t) as int;
        assert(t.take(i).drop_first() =~= rest.take(i - 1));
        assert(t.take(i)[0] == t[0]);
    }
}

/// On the console a text without newlines stands as it is, and every newline has a
/// carriage return before it.
pub proof fn law_console_line_ends(t: Seq<u8>, u: Seq<u8>)
    requires
        forall|i: int| 0 <= i < t.len() ==> #[trigger] t[i] != 10,
    ensures
        crlf(t) == t,
        crlf(t.push(10) + u) == t + seq![13u8, 10u8] + crlf(u),
    decreases t.len(),
{
    if t.len() > 0 {
        let rest = t.drop_first();
        assert forall|i: int| 0 <= i < rest.len() implies #[trigger] rest[i] != 10 by {
            assert(rest[i] == t[i + 1]);
        }
        law_console_line_ends(rest, u);
        assert(t[0] != 10);
        assert(crlf(t) =~= t);
    } else {
        assert(crlf(t) =~= t);
    }
    lemma_crlf_push(t, 10);
    lemma_crlf_concat(t.push(10), u);
    assert(crlf(t.push(10) + u) =~= t + seq![13u8, 10u8] + crlf(u));
}

/// Of `take_text`: what is handed out and what stays are together what was there and
/// the printed line; something is handed out exactly where the packet has become too
/// full for another line like it.
pub proof fn law_take_text(p: &mut LogPacker, t: &[u8], chunk: Option<Vec<u8>>)
    requires
        old(p).wf(),
        1 <= t@.len() <= 254,
        call_ensures(LogPacker::take_text, (p, t), chunk),
    ensures
        match chunk {
            Some(c) => c@ + final(p)@ == old(p)@ + crlf(t@) && 1 <= c@.len() <= 512,
            None => final(p)@ == old(p)@ + crlf(t@),
        },
        chunk is Some <==> old(p)@.len() + crlf(t@).len() + t@.len() + 2 > 512,
        final(p)@.len() <= 512,
        final(p).sent() <==> old(p).sent() || chunk is Some,
{
    old(p).lemma_wf();
    law_pack_keeps_bytes(old(p)@, t@);
    law_packet_is_sent_when_full(old(p)@, t@);
}

/// Of `end_round`: everything that is left goes out, and the task pauses only where the
/// round sent nothing at all.
pub proof fn law_end_round(p: &mut LogPacker, end: RoundEnd)
    requires
        old(p).wf(),
        call_ensures(LogPacker::end_round, (p,), end),
    ensures
        end.chunk matches Some(c) ==> c@ == old(p)@,
        end.chunk is Some <==> old(p)@.len() > 0,
        end.sleep_ms == 5 <==> !old(p).sent() && old(p)@.len() == 0,
        end.sleep_ms == 0 <==> old(p).sent() || old(p)@.len() > 0,
        final(p)@.len() == 0,
        !final(p).sent(),
{
}

/// Of `take_entry`: an entry as the ring hands it out is taken, with the text that was
/// logged.
pub proof fn law_take_entry(
    p: &mut LogPacker,
    e: log::LogEntry,
    raw: &[u8],
    r: (bool, Option<Vec<u8>>),
)
    requires
        old(p).wf(),
        log::entry_ok(e),
        raw@ == log::entry_bytes(e),
        call_ensures(LogPacker::take_entry, (p, raw), r),
    ensures
        r.0,
        match r.1 {
            Some(c) => c@ + final(p)@ == old(p)@ + crlf(e.text),
            None => final(p)@ == old(p)@ + crlf(e.text),
        },
{
    assert(raw@ + Seq::<u8>::empty() =~= raw@);
    log::law_entry_reads_back(e, Seq::empty());
    old(p).lemma_wf();
    law_pack_keeps_bytes(old(p)@, e.text);
}

} // verus!
