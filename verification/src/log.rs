//! Application log: the layout of a line, and the byte ring between the tasks that
//! log and the task that prints.
//!
//! A task that logs only stores a line in the ring. A low-priority task takes
//! lines out and sends them over the console. When the ring is full an ordinary
//! line may push out older ordinary lines, never a warning or an error.

use crate::text;
use vstd::prelude::*;

verus! {

/// Severity of a log line.
#[derive(Clone, Copy, Debug, PartialEq, Eq, Structural)]
pub enum Level {
    Debug,
    Info,
    Warn,
    Error,
}

/// The letter that stands for a level.
pub open spec fn letter_of(level: Level) -> u8 {
    match level {
        Level::Debug => 'D' as u8,
        Level::Info => 'I' as u8,
        Level::Warn => 'W' as u8,
        Level::Error => 'E' as u8,
    }
}

/// Whether a line of this level survives a full ring.
pub open spec fn is_critical(level: Level) -> bool {
    level is Warn || level is Error
}

impl Level {
    /// The letter that stands for the level.
    pub fn letter(self) -> (b: u8)
        ensures
            b == letter_of(self),
    {
        match self {
            Level::Debug => 'D' as u8,
            Level::Info => 'I' as u8,
            Level::Warn => 'W' as u8,
            Level::Error => 'E' as u8,
        }
    }

    /// Whether a line of this level survives a full ring.
    pub fn critical(self) -> (c: bool)
        ensures
            c == is_critical(self),
    {
        match self {
            Level::Warn => true,
            Level::Error => true,
            _ => false,
        }
    }
}

/// Bytes in the ring.
pub const LOG_RING_SIZE: usize = 2048;

/// The longest line that one entry holds.
pub const LOG_MAX_TEXT: usize = 254;

/// A stored line.
pub ghost struct LogEntry {
    pub level: Level,
    pub text: Seq<u8>,
}

/// An entry as it lies in the ring: a length byte that counts what follows it,
/// the level letter, the text.
pub open spec fn entry_bytes(e: LogEntry) -> Seq<u8> {
    seq![(e.text.len() + 1) as u8, letter_of(e.level)] + e.text
}

/// A run of entries as they lie in the ring.
pub open spec fn encode(es: Seq<LogEntry>) -> Seq<u8>
    decreases es.len(),
{
    if es.len() == 0 {
        Seq::empty()
    } else {
        entry_bytes(es[0]) + encode(es.drop_first())
    }
}

/// An entry that the ring can hold.
pub open spec fn entry_ok(e: LogEntry) -> bool {
    1 <= e.text.len() <= LOG_MAX_TEXT
}

/// How many of the oldest entries have to go before `need` more bytes fit.
pub open spec fn drops_for(es: Seq<LogEntry>, need: nat) -> nat
    decreases es.len(),
{
    if es.len() == 0 || encode(es).len() + need <= LOG_RING_SIZE {
        0
    } else {
        1 + drops_for(es.drop_first(), need)
    }
}

/// Whether the ring takes `e`: it has a length that can be stored, and either it
/// fits, or it is an ordinary line and only ordinary lines have to make room.
pub open spec fn takes(es: Seq<LogEntry>, e: LogEntry) -> bool {
    let k = drops_for(es, e.text.len() + 2);
    &&& entry_ok(e)
    &&& k == 0 || (!is_critical(e.level) && forall|i: int|
        0 <= i < k ==> !is_critical(#[trigger] es[i].level))
}

/// The stored lines after `e` was offered.
pub open spec fn after_push(es: Seq<LogEntry>, e: LogEntry) -> Seq<LogEntry> {
    if takes(es, e) {
        es.skip(drops_for(es, e.text.len() + 2) as int).push(e)
    } else {
        es
    }
}

/// Encoding runs one after the other encodes their concatenation.
proof fn lemma_encode_concat(a: Seq<LogEntry>, b: Seq<LogEntry>)
    ensures
        encode(a + b) == encode(a) + encode(b),
    decreases a.len(),
{
    if a.len() == 0 {
        assert(a + b =~= b);
        assert(encode(a) + encode(b) =~= encode(b));
    } else {
        assert((a + b).drop_first() =~= a.drop_first() + b);
        lemma_encode_concat(a.drop_first(), b);
        assert(encode(a + b) =~= encode(a) + encode(b));
    }
}

/// The bytes of one more entry follow those of the others.
proof fn lemma_encode_push(es: Seq<LogEntry>, e: LogEntry)
    ensures
        encode(es.push(e)) == encode(es) + entry_bytes(e),
{
    assert(es.push(e) =~= es + seq![e]);
    lemma_encode_concat(es, seq![e]);
    assert(seq![e].drop_first() =~= Seq::<LogEntry>::empty());
    assert(encode(seq![e]) =~= entry_bytes(e)) by {
        assert(encode(seq![e].drop_first()) =~= Seq::<u8>::empty());
    }
}

/// Entry `k` starts where the entries before it end.
proof fn lemma_encode_at(es: Seq<LogEntry>, k: int)
    requires
        0 <= k < es.len(),
    ensures
        encode(es) == encode(es.take(k)) + (entry_bytes(es[k]) + encode(es.skip(k + 1))),
        encode(es.skip(k)) == entry_bytes(es[k]) + encode(es.skip(k + 1)),
        encode(es.take(k + 1)) == encode(es.take(k)) + entry_bytes(es[k]),
{
    assert(es =~= es.take(k) + es.skip(k));
    lemma_encode_concat(es.take(k), es.skip(k));
    assert(es.skip(k)[0] == es[k]);
    assert(es.skip(k).drop_first() =~= es.skip(k + 1));
    assert(es.take(k + 1) =~= es.take(k).push(es[k]));
    lemma_encode_push(es.take(k), es[k]);
}

/// A run splits into any prefix and the rest.
proof fn lemma_encode_split(es: Seq<LogEntry>, k: int)
    requires
        0 <= k <= es.len(),
    ensures
        encode(es) == encode(es.take(k)) + encode(es.skip(k)),
{
    assert(es =~= es.take(k) + es.skip(k));
    lemma_encode_concat(es.take(k), es.skip(k));
}

/// The count of entries to drop, found by looking at them one after the other.
proof fn lemma_drops_for(es: Seq<LogEntry>, need: nat, k: int)
    requires
        0 <= k <= es.len(),
        encode(es.skip(k)).len() + need <= LOG_RING_SIZE || k == es.len(),
        forall|j: int|
            0 <= j < k ==> encode(#[trigger] es.skip(j)).len() + need > LOG_RING_SIZE,
    ensures
        drops_for(es, need) == k,
    decreases k,
{
    assert(es.skip(0) =~= es);
    if k > 0 {
        assert(encode(es.skip(0)).len() + need > LOG_RING_SIZE);
        let rest = es.drop_first();
        assert forall|j: int| 0 <= j < k - 1 implies encode(#[trigger] rest.skip(j)).len() + need
            > LOG_RING_SIZE by {
            assert(rest.skip(j) =~= es.skip(j + 1));
        }
        assert(rest.skip(k - 1) =~= es.skip(k));
        lemma_drops_for(rest, need, k - 1);
    }
}

/// The place in the buffer of the byte `off` places behind `head`.
spec fn slot(head: int, off: int) -> int {
    (head + off) % 2048
}

/// Different offsets below the ring's size lie at different places.
proof fn lemma_slots(head: int)
    requires
        0 <= head < LOG_RING_SIZE,
    ensures
        forall|a: int| 0 <= #[trigger] slot(head, a) < LOG_RING_SIZE,
        forall|a: int, b: int|
            0 <= a < b < LOG_RING_SIZE ==> #[trigger] slot(head, a) != #[trigger] slot(head, b),
{
}

/// The ring: `used` bytes starting at `head`, wrapping at the end of the buffer.
pub struct LogRing {
    ring: [u8; 2048],
    head: usize,
    used: usize,
    entries: Ghost<Seq<LogEntry>>,
}

impl LogRing {
    /// The stored lines, oldest first.
    pub closed spec fn view(&self) -> Seq<LogEntry> {
        self.entries@
    }

    /// The bytes in use are the encoded lines.
    pub closed spec fn wf(&self) -> bool {
        &&& self.head < LOG_RING_SIZE
        &&& self.used <= LOG_RING_SIZE
        &&& self.used == encode(self.entries@).len()
        &&& forall|i: int| 0 <= i < self.entries@.len() ==> entry_ok(#[trigger] self.entries@[i])
        &&& forall|i: int|
            0 <= i < self.used ==> #[trigger] encode(self.entries@)[i] == self.ring@[slot(
                self.head as int,
                i,
            )]
    }

    /// An empty ring.
    pub fn new() -> (r: LogRing)
        ensures
            r.wf(),
            r@ == Seq::<LogEntry>::empty(),
    {
        LogRing { ring: [0u8; 2048], head: 0, used: 0, entries: Ghost(Seq::empty()) }
    }

    /// Every stored line has a length that the ring can hold, and all of them fit
    /// the ring together.
    pub proof fn lemma_wf(&self)
        requires
            self.wf(),
        ensures
            forall|i: int| 0 <= i < self@.len() ==> entry_ok(#[trigger] self@[i]),
            encode(self@).len() <= LOG_RING_SIZE,
    {
    }

    /// Offers a line to the ring; says whether it was taken.
    pub fn ring_push(&mut self, level: Level, payload: &[u8]) -> (taken: bool)
        requires
            old(self).wf(),
        ensures
            final(self).wf(),
            taken == takes(old(self)@, (LogEntry { level, text: payload@ })),
            final(self)@ == after_push(old(self)@, (LogEntry { level, text: payload@ })),
    {
        let ghost es = self.entries@;
        if payload.len() == 0 || payload.len() > LOG_MAX_TEXT {
            return false;
        }
        let need: usize = payload.len() + 2;
        match self.room_for(level, need) {
            Some(gone) => {
                proof {
                    lemma_drops_bounded(es, need as nat);
                    lemma_encode_split(es, drops_for(es, need as nat) as int);
                }
                self.drop_oldest(gone, Ghost(drops_for(es, need as nat) as int));
                self.append(level, payload);
                true
            },
            None => false,
        }
    }

    /// The byte `off` places behind the start of the stored bytes.
    fn byte_at(&self, off: usize) -> (b: u8)
        requires
            self.wf(),
            off < encode(self@).len(),
        ensures
            b == encode(self@)[off as int],
    {
        assert(encode(self.entries@)[off as int] == self.ring@[slot(
            self.head as int,
            off as int,
        )]);
        self.ring[(self.head + off) % LOG_RING_SIZE]
    }

    /// The number of bytes at the start that have to go to make room for `need`
    /// more; none where a line of this level may not push them out.
    fn room_for(&self, level: Level, need: usize) -> (r: Option<usize>)
        requires
            self.wf(),
            3 <= need <= LOG_MAX_TEXT + 2,
        ensures
            ({
                let k = drops_for(self@, need as nat) as int;
                let allowed = k == 0 || (!is_critical(level) && forall|i: int|
                    0 <= i < k ==> !is_critical(#[trigger] self@[i].level));
                match r {
                    Some(gone) => allowed && gone == encode(self@.take(k)).len(),
                    None => !allowed,
                }
            }),
    {
        let ghost es = self@;
        let free: usize = LOG_RING_SIZE - self.used;
        let mut scanned: usize = 0;
        let ghost mut k: int = 0;
        proof {
            assert(es.take(0) =~= Seq::<LogEntry>::empty());
            assert(es.skip(0) =~= es);
        }
        while free + scanned < need
            invariant
                self.wf(),
                es == self@,
                3 <= need <= LOG_MAX_TEXT + 2,
                self.used == encode(es).len(),
                free == LOG_RING_SIZE - self.used,
                0 <= k <= es.len(),
                scanned == encode(es.take(k)).len(),
                scanned + encode(es.skip(k)).len() == encode(es).len(),
                encode(es).len() <= LOG_RING_SIZE,
                k > 0 ==> !is_critical(level),
                forall|j: int| 0 <= j < k ==> !is_critical(#[trigger] es[j].level),
                forall|j: int|
                    0 <= j < k ==> encode(#[trigger] es.skip(j)).len() + need > LOG_RING_SIZE,
            decreases es.len() - k,
        {
            proof {
                if k == es.len() {
                    assert(es.skip(k) =~= Seq::<LogEntry>::empty());
                    assert(false);
                }
                lemma_encode_at(es, k);
                self.lemma_wf();
                assert(entry_ok(es[k]));
                assert(encode(es)[scanned as int] == entry_bytes(es[k])[0]);
                assert(encode(es)[scanned + 1] == entry_bytes(es[k])[1]);
                Self::lemma_not_yet(es, need as nat, k);
            }
            if level.critical() {
                return None;
            }
            let cur_len: usize = self.byte_at(scanned) as usize + 1;
            let cur_level: u8 = self.byte_at(scanned + 1);
            if cur_level == 'W' as u8 || cur_level == 'E' as u8 {
                assert(is_critical(es[k].level));
                return None;
            }
            scanned = scanned + cur_len;
            proof {
                k = k + 1;
            }
        }
        proof {
            lemma_drops_for(es, need as nat, k);
        }
        Some(scanned)
    }

    /// Gives up the bytes of the `k` oldest entries.
    fn drop_oldest(&mut self, gone: usize, Ghost(k): Ghost<int>)
        requires
            old(self).wf(),
            0 <= k <= old(self)@.len(),
            gone == encode(old(self)@.take(k)).len(),
        ensures
            final(self).wf(),
            final(self)@ == old(self)@.skip(k),
    {
        let ghost es = self.entries@;
        let ghost kept = es.skip(k);
        let ghost head = self.head as int;
        proof {
            lemma_encode_split(es, k);
        }
        self.head = (self.head + gone) % LOG_RING_SIZE;
        self.used = self.used - gone;
        proof {
            self.entries = Ghost(kept);
            assert forall|i: int| 0 <= i < self.used implies #[trigger] encode(kept)[i]
                == self.ring@[slot(self.head as int, i)] by {
                assert(encode(es)[gone + i] == encode(kept)[i]);
                assert(slot(head, gone + i) == slot(self.head as int, i));
            }
            assert forall|i: int| 0 <= i < kept.len() implies entry_ok(#[trigger] kept[i]) by {
                assert(kept[i] == es[k + i]);
            }
        }
    }

    /// While the next entries still do not make enough room, more have to go.
    proof fn lemma_not_yet(es: Seq<LogEntry>, need: nat, k: int)
        requires
            0 <= k < es.len(),
            forall|j: int|
                0 <= j <= k ==> encode(#[trigger] es.skip(j)).len() + need > LOG_RING_SIZE,
        ensures
            drops_for(es, need) > k,
        decreases k,
    {
        assert(es.skip(0) =~= es);
        assert(encode(es.skip(0)).len() + need > LOG_RING_SIZE);
        if k > 0 {
            let rest = es.drop_first();
            assert forall|j: int| 0 <= j <= k - 1 implies encode(#[trigger] rest.skip(j)).len()
                + need > LOG_RING_SIZE by {
                assert(rest.skip(j) =~= es.skip(j + 1));
            }
            Self::lemma_not_yet(rest, need, k - 1);
        }
    }

    /// Writes an entry behind the ones that are stored.
    fn append(&mut self, level: Level, payload: &[u8])
        requires
            old(self).wf(),
            1 <= payload@.len() <= LOG_MAX_TEXT,
            encode(old(self)@).len() + payload@.len() + 2 <= LOG_RING_SIZE,
        ensures
            final(self).wf(),
            final(self)@ == old(self)@.push(LogEntry { level, text: payload@ }),
    {
        let ghost e = LogEntry { level, text: payload@ };
        let ghost es = self.entries@;
        let start: usize = self.head + self.used;
        let n: usize = payload.len();
        proof {
            lemma_slots(self.head as int);
        }
        assert(slot(self.head as int, self.used as int) == start % 2048);
        assert(slot(self.head as int, self.used + 1) == (start + 1) % 2048);
        self.ring[start % LOG_RING_SIZE] = (n + 1) as u8;
        self.ring[(start + 1) % LOG_RING_SIZE] = level.letter();
        let mut i: usize = 0;
        while i < n
            invariant
                n == payload@.len(),
                i <= n,
                n <= LOG_MAX_TEXT,
                e == (LogEntry { level, text: payload@ }),
                self.head == old(self).head,
                self.head < LOG_RING_SIZE,
                self.used == old(self).used,
                self.entries == old(self).entries,
                self.used + n + 2 <= LOG_RING_SIZE,
                start == self.head + self.used,
                forall|j: int|
                    0 <= j < self.used ==> self.ring@[#[trigger] slot(self.head as int, j)] == old(
                        self,
                    ).ring@[slot(self.head as int, j)],
                forall|j: int|
                    self.used <= j < self.used + i + 2 ==> self.ring@[#[trigger] slot(
                        self.head as int,
                        j,
                    )] == entry_bytes(e)[j - self.used],
            decreases n - i,
        {
            proof {
                lemma_slots(self.head as int);
            }
            assert(slot(self.head as int, self.used + 2 + i) == (start + 2 + i) % 2048);
            self.ring[(start + 2 + i) % LOG_RING_SIZE] = payload[i];
            i = i + 1;
        }
        self.used = self.used + n + 2;
        proof {
            lemma_encode_push(es, e);
            self.entries = Ghost(es.push(e));
            assert forall|j: int| 0 <= j < self.used implies #[trigger] encode(es.push(e))[j]
                == self.ring@[slot(self.head as int, j)] by {
                if j < old(self).used {
                    assert(encode(es)[j] == old(self).ring@[slot(self.head as int, j)]);
                } else {
                    assert(encode(es.push(e))[j] == entry_bytes(e)[j - old(self).used]);
                }
            }
        }
    }

    /// Takes the oldest line out of the ring and copies its raw bytes, with the
    /// length byte and the level letter, to `out` as far as they fit; returns the
    /// number of bytes copied, `0` where the ring is empty.
    pub fn ring_pop(&mut self, out: &mut [u8]) -> (n: usize)
        requires
            old(self).wf(),
        ensures
            final(self).wf(),
            old(self)@.len() == 0 ==> n == 0 && final(self)@ == old(self)@ && final(out)@ == old(
                out,
            )@,
            old(self)@.len() > 0 ==> {
                &&& n == text::cut(entry_bytes(old(self)@[0]), old(out)@.len()).len()
                &&& final(self)@ == old(self)@.drop_first()
                &&& final(out)@ == text::cut(entry_bytes(old(self)@[0]), old(out)@.len()) + old(
                    out,
                )@.skip(n as int)
            },
    {
        let ghost es = self@;
        if self.used == 0 {
            proof {
                if es.len() > 0 {
                    lemma_encode_at(es, 0);
                }
            }
            return 0;
        }
        proof {
            self.lemma_wf();
            lemma_encode_at(es, 0);
            assert(es.take(0) =~= Seq::<LogEntry>::empty());
            assert(es.skip(1) =~= es.drop_first());
            assert(entry_ok(es[0]));
            assert(encode(es)[0] == entry_bytes(es[0])[0]);
        }
        let entry_len: usize = self.byte_at(0) as usize + 1;
        let n: usize = if entry_len < out.len() {
            entry_len
        } else {
            out.len()
        };
        let ghost raw = entry_bytes(es[0]);
        let mut i: usize = 0;
        assert(out@ =~= raw.take(0) + out@.skip(0));
        while i < n
            invariant
                self.wf(),
                *self == *old(self),
                es == self@,
                i <= n,
                n <= raw.len(),
                n <= old(out)@.len(),
                raw.len() <= encode(es).len(),
                encode(es).len() <= LOG_RING_SIZE,
                forall|j: int| 0 <= j < raw.len() ==> #[trigger] raw[j] == encode(es)[j],
                out@ == raw.take(i as int) + old(out)@.skip(i as int),
            decreases n - i,
        {
            assert(raw[i as int] == encode(es)[i as int]);
            out[i] = self.byte_at(i);
            i = i + 1;
            assert(out@ =~= raw.take(i as int) + old(out)@.skip(i as int));
        }
        assert(es.take(1) =~= es.take(0).push(es[0]));
        self.drop_oldest(entry_len, Ghost(1));
        assert(raw.take(n as int) =~= text::cut(raw, old(out)@.len()));
        n
    }
}

/// The warnings and errors among the stored lines.
pub open spec fn critical_lines(es: Seq<LogEntry>) -> Seq<LogEntry> {
    es.filter(|e: LogEntry| is_critical(e.level))
}

/// Offering a line loses no stored warning or error: afterwards the warnings and
/// errors are those of before, in their order, with the new line behind them if
/// it was taken and is one itself.
pub proof fn law_critical_lines_kept(es: Seq<LogEntry>, e: LogEntry)
    ensures
        critical_lines(after_push(es, e)) == if takes(es, e) && is_critical(e.level) {
            critical_lines(es).push(e)
        } else {
            critical_lines(es)
        },
{
    let pred = |x: LogEntry| is_critical(x.level);
    if takes(es, e) {
        let k = drops_for(es, e.text.len() + 2) as int;
        lemma_drops_bounded(es, e.text.len() + 2);
        let gone = es.take(k);
        let kept = es.skip(k);
        assert(es =~= gone + kept);
        Seq::filter_distributes_over_add(gone, kept, pred);
        assert(kept.push(e) =~= kept + seq![e]);
        Seq::filter_distributes_over_add(kept, seq![e], pred);
        assert(gone.filter(pred) =~= Seq::<LogEntry>::empty()) by {
            assert forall|i: int| 0 <= i < gone.len() implies !pred(#[trigger] gone[i]) by {
                assert(gone[i] == es[i]);
            }
            lemma_filter_none(gone, pred);
        }
        assert(es.filter(pred) =~= kept.filter(pred));
        assert(seq![e].drop_last() =~= Seq::<LogEntry>::empty());
        assert(seq![e].filter(pred) =~= if pred(e) {
            seq![e]
        } else {
            Seq::<LogEntry>::empty()
        }) by {
            reveal(Seq::filter);
            assert(seq![e].drop_last().filter(pred) =~= Seq::<LogEntry>::empty());
        }
        assert(after_push(es, e).filter(pred) =~= kept.filter(pred) + seq![e].filter(pred));
    }
}

proof fn lemma_filter_none(s: Seq<LogEntry>, pred: spec_fn(LogEntry) -> bool)
    requires
        forall|i: int| 0 <= i < s.len() ==> !pred(#[trigger] s[i]),
    ensures
        s.filter(pred) == Seq::<LogEntry>::empty(),
    decreases s.len(),
{
    reveal(Seq::filter);
    if s.len() > 0 {
        assert(!pred(s[s.len() - 1]));
        assert forall|i: int| 0 <= i < s.drop_last().len() implies !pred(
            #[trigger] s.drop_last()[i],
        ) by {
            assert(s.drop_last()[i] == s[i]);
        }
        lemma_filter_none(s.drop_last(), pred);
    }
}

proof fn lemma_drops_bounded(es: Seq<LogEntry>, need: nat)
    ensures
        drops_for(es, need) <= es.len(),
        drops_for(es, need) > 0 ==> encode(es).len() + need > LOG_RING_SIZE,
        need <= LOG_RING_SIZE ==> encode(es.skip(drops_for(es, need) as int)).len() + need
            <= LOG_RING_SIZE,
    decreases es.len(),
{
    assert(es.skip(0) =~= es);
    if es.len() > 0 && encode(es).len() + need > LOG_RING_SIZE {
        lemma_drops_bounded(es.drop_first(), need);
        let k = drops_for(es.drop_first(), need) as int;
        assert(es.drop_first().skip(k) =~= es.skip(k + 1));
    }
}

/// A line that fits is taken and pushes nothing out; a warning or an error that
/// does not fit is refused; an ordinary line that does not fit pushes out only
/// as many of the oldest lines as it has to.
pub proof fn law_room_decides(es: Seq<LogEntry>, e: LogEntry)
    requires
        entry_ok(e),
    ensures
        encode(es).len() + e.text.len() + 2 <= LOG_RING_SIZE ==> after_push(es, e) == es.push(e),
        encode(es).len() + e.text.len() + 2 > LOG_RING_SIZE && is_critical(e.level)
            ==> after_push(es, e) == es,
        encode(es).len() <= LOG_RING_SIZE ==> encode(after_push(es, e)).len() <= LOG_RING_SIZE,
        takes(es, e) ==> forall|j: int|
            0 <= j < drops_for(es, e.text.len() + 2) ==> encode(#[trigger] es.skip(j)).len()
                + e.text.len() + 2 > LOG_RING_SIZE,
{
    let need = e.text.len() + 2;
    assert(es.skip(0) =~= es);
    lemma_drops_bounded(es, need);
    lemma_drops_minimal(es, need);
    if encode(es).len() + need > LOG_RING_SIZE {
        if es.len() == 0 {
            assert(false);
        }
    }
    if takes(es, e) {
        lemma_encode_push(es.skip(drops_for(es, need) as int), e);
    }
}

proof fn lemma_drops_minimal(es: Seq<LogEntry>, need: nat)
    ensures
        forall|j: int|
            0 <= j < drops_for(es, need) ==> encode(#[trigger] es.skip(j)).len() + need
                > LOG_RING_SIZE,
    decreases es.len(),
{
    if drops_for(es, need) > 0 {
        let rest = es.drop_first();
        lemma_drops_bounded(es, need);
        lemma_drops_minimal(rest, need);
        assert forall|j: int| 0 <= j < drops_for(es, need) implies encode(
            #[trigger] es.skip(j),
        ).len() + need > LOG_RING_SIZE by {
            if j == 0 {
                assert(es.skip(0) =~= es);
            } else {
                assert(rest.skip(j - 1) =~= es.skip(j));
            }
        }
    }
}

/// The text of an entry that was taken out of the ring; none where the length
/// byte does not fit the bytes at hand.
pub open spec fn text_of(raw: Seq<u8>) -> Option<Seq<u8>> {
    if raw.len() == 0 || raw[0] == 0 || raw[0] + 1 > raw.len() {
        None
    } else {
        Some(raw.subrange(2, raw[0] + 1))
    }
}

/// The text of an entry that was taken out of the ring.
pub fn entry_text(raw: &[u8]) -> (t: Option<&[u8]>)
    ensures
        match t {
            Some(s) => text_of(raw@) == Some(s@),
            None => text_of(raw@) is None,
        },
{
    if raw.len() == 0 || raw[0] == 0 || raw[0] as usize + 1 > raw.len() {
        None
    } else {
        Some(vstd::slice::slice_subrange(raw, 2, raw[0] as usize + 1))
    }
}

/// What comes out of the ring holds the text that went in, also with bytes left
/// over behind it.
pub proof fn law_entry_reads_back(e: LogEntry, spare: Seq<u8>)
    requires
        entry_ok(e),
    ensures
        text_of(entry_bytes(e) + spare) == Some(e.text),
{
    let raw = entry_bytes(e) + spare;
    assert(raw[0] == (e.text.len() + 1) as u8);
    assert(raw.subrange(2, raw[0] + 1) =~= e.text);
}

/// The longest line, with its newline.
pub const LOG_LINE_MAX: usize = 180;

/// What stands before the message: `R/`, the level letter, the tick count and
/// the tag, which is cut so that the line keeps room behind it.
pub open spec fn line_head(level: Level, ticks: u32, tag: Seq<u8>) -> Seq<u8> {
    let stamp = text::utf8("R/"@) + seq![letter_of(level), ' ' as u8] + text::decimal(ticks as nat)
        + seq![' ' as u8];
    stamp + text::cut(tag, (LOG_LINE_MAX - stamp.len() - 4) as nat) + seq![':' as u8, ' ' as u8]
}

/// A log line: head, message, newline. The message is cut so that the line fits.
pub open spec fn log_line(level: Level, ticks: u32, tag: Seq<u8>, msg: Seq<u8>) -> Seq<u8> {
    text::cut(line_head(level, ticks, tag) + msg, (LOG_LINE_MAX - 1) as nat).push('\n' as u8)
}

/// A line has at least its newline and one byte more, and at most 180 bytes.
pub proof fn lemma_line_len(level: Level, ticks: u32, tag: Seq<u8>, msg: Seq<u8>)
    ensures
        2 <= log_line(level, ticks, tag, msg).len() <= LOG_LINE_MAX,
        log_line(level, ticks, tag, msg).last() == '\n' as u8,
{
    reveal_strlit("R/");
    vstd::utf8::is_ascii_chars_encode_utf8("R/"@);
    text::lemma_decimal_u32(ticks);
}

/// Whatever is logged, an empty ring takes it.
pub proof fn law_empty_ring_takes_every_line(
    level: Level,
    ticks: u32,
    tag: Seq<u8>,
    msg: Seq<u8>,
)
    ensures
        takes(Seq::empty(), (LogEntry { level, text: log_line(level, ticks, tag, msg) })),
{
    lemma_line_len(level, ticks, tag, msg);
}

/// Builds a log line.
pub fn format_line(level: Level, ticks: u32, tag: &str, msg: &[u8]) -> (line: Vec<u8>)
    ensures
        line@ == log_line(level, ticks, text::utf8(tag@), msg@),
        2 <= line@.len() <= LOG_LINE_MAX,
{
    let mut head: Vec<u8> = Vec::new();
    proof {
        reveal_strlit("R/");
        vstd::utf8::is_ascii_chars_encode_utf8("R/"@);
        text::lemma_decimal_u32(ticks);
    }
    text::push_str(&mut head, "R/");
    head.push(level.letter());
    head.push(' ' as u8);
    text::wr_num(&mut head, ticks);
    head.push(' ' as u8);
    let ghost stamp = text::utf8("R/"@) + seq![letter_of(level), ' ' as u8] + text::decimal(
        ticks as nat,
    ) + seq![' ' as u8];
    assert(head@ =~= stamp);
    let mut w = text::BufWriter::new(LOG_LINE_MAX - 4);
    w.write_bytes(head.as_slice());
    w.write_bytes(tag.as_bytes());
    assert(w@ =~= stamp + text::cut(
        text::utf8(tag@),
        (LOG_LINE_MAX - stamp.len() - 4) as nat,
    ));
    let mut line = text::BufWriter::new(LOG_LINE_MAX - 1);
    line.write_bytes(w.as_slice());
    let sep: [u8; 2] = [':' as u8, ' ' as u8];
    line.write_bytes(&sep);
    assert(line@ =~= line_head(level, ticks, text::utf8(tag@)));
    line.write_bytes(msg);
    let mut out: Vec<u8> = Vec::new();
    text::push_bytes(&mut out, line.as_slice());
    out.push('\n' as u8);
    assert(out@ =~= log_line(level, ticks, text::utf8(tag@), msg@));
    out
}

/// Formats a line and offers it to the ring; says whether it was taken.
pub fn emit(ring: &mut LogRing, level: Level, ticks: u32, tag: &str, msg: &[u8]) -> (taken: bool)
    requires
        old(ring).wf(),
    ensures
        final(ring).wf(),
        ({
            let e = LogEntry { level, text: log_line(level, ticks, text::utf8(tag@), msg@) };
            taken == takes(old(ring)@, e) && final(ring)@ == after_push(old(ring)@, e)
        }),
{
    let line = format_line(level, ticks, tag, msg);
    ring.ring_push(level, line.as_slice())
}

/// A line that has room is kept whole: the level, the tick, the tag, the message and
/// the newline, with nothing left out.
pub proof fn law_short_line_is_whole(level: Level, ticks: u32, tag: Seq<u8>, msg: Seq<u8>)
    requires
        tag.len() + msg.len() <= 160,
    ensures
        log_line(level, ticks, tag, msg) == seq![82u8, 47u8, letter_of(level), 32u8]
            + text::decimal(ticks as nat) + seq![32u8] + tag + seq![58u8, 32u8] + msg
            + seq![10u8],
        letter_of(level) == match level {
            Level::Debug => 68u8,
            Level::Info => 73u8,
            Level::Warn => 87u8,
            Level::Error => 69u8,
        },
{
    reveal_strlit("R/");
    vstd::utf8::is_ascii_chars_encode_utf8("R/"@);
    text::lemma_decimal_u32(ticks);
    assert(text::utf8("R/"@) =~= seq![82u8, 47u8]);
    assert(log_line(level, ticks, tag, msg) =~= seq![82u8, 47u8, letter_of(level), 32u8]
        + text::decimal(ticks as nat) + seq![32u8] + tag + seq![58u8, 32u8] + msg + seq![10u8]);
}

/// A message that is too long is cut at its end and nowhere else: a longer message
/// starts with the same line, and a line that was cut has all of its 180 bytes.
pub proof fn law_long_line_loses_its_end(
    level: Level,
    ticks: u32,
    tag: Seq<u8>,
    msg: Seq<u8>,
    more: Seq<u8>,
)
    ensures
        log_line(level, ticks, tag, msg).drop_last().is_prefix_of(
            log_line(level, ticks, tag, msg + more).drop_last(),
        ),
        msg.len() >= 180 ==> log_line(level, ticks, tag, msg).len() == 180,
        msg.len() >= 180 ==> log_line(level, ticks, tag, msg + more) == log_line(
            level,
            ticks,
            tag,
            msg,
        ),
{
    let a = line_head(level, ticks, tag) + msg;
    let b = line_head(level, ticks, tag) + (msg + more);
    assert(b =~= a + more);
    let x = text::cut(a, 179);
    let y = text::cut(b, 179);
    assert(log_line(level, ticks, tag, msg).drop_last() =~= x);
    assert(log_line(level, ticks, tag, msg + more).drop_last() =~= y);
    assert(x =~= y.take(x.len() as int));
    if msg.len() >= 180 {
        assert(x =~= y);
    }
}

/// A warning and an error are critical, and nothing else is.
pub proof fn law_warnings_and_errors_are_critical(level: Level)
    ensures
        is_critical(level) <==> level == Level::Warn || level == Level::Error,
{
}

/// Of `ring_push`: a line that is taken is the newest, behind what is left of the
/// others; only ordinary lines were pushed out, from the oldest on, and none where there
/// was room. A line that is not taken changes nothing. A warning or an error is taken
/// exactly where there is room for it.
pub proof fn law_ring_push(r: &mut LogRing, level: Level, payload: &[u8], taken: bool)
    requires
        old(r).wf(),
        1 <= payload@.len() <= 254,
        call_ensures(LogRing::ring_push, (r, level, payload), taken),
    ensures
        !taken ==> final(r)@ == old(r)@,
        taken ==> exists|k: int|
            0 <= k <= old(r)@.len() && final(r)@ == #[trigger] old(r)@.skip(k).push(
                LogEntry { level, text: payload@ },
            ) && forall|i: int| 0 <= i < k ==> !is_critical((#[trigger] old(r)@[i]).level),
        encode(old(r)@).len() + payload@.len() + 2 <= 2048 ==> taken && final(r)@ == old(r)@.push(
            LogEntry { level, text: payload@ },
        ),
        level == Level::Warn || level == Level::Error ==> (taken <==> encode(old(r)@).len()
            + payload@.len() + 2 <= 2048),
{
    let e = LogEntry { level, text: payload@ };
    let need = payload@.len() + 2;
    law_room_decides(old(r)@, e);
    lemma_drops_bounded(old(r)@, need as nat);
    if taken {
        let k = drops_for(old(r)@, need as nat) as int;
        assert(final(r)@ == old(r)@.skip(k).push(e));
    }
}

/// Of `ring_push` and `ring_pop`: the line that went into an empty ring is the one that
/// comes out, with its level and every byte of its text, and the ring is empty again.
pub proof fn law_pushed_line_is_popped(
    a: &mut LogRing,
    level: Level,
    payload: &[u8],
    taken: bool,
    b: &mut LogRing,
    buf: &mut [u8],
    n: usize,
)
    requires
        old(a).wf(),
        old(a)@.len() == 0,
        1 <= payload@.len() <= 254,
        call_ensures(LogRing::ring_push, (a, level, payload), taken),
        *old(b) == *final(a),
        old(buf)@.len() >= 256,
        call_ensures(LogRing::ring_pop, (b, buf), n),
    ensures
        taken,
        n == payload@.len() + 2,
        final(buf)@[1] == letter_of(level),
        text_of(final(buf)@) == Some(payload@),
        final(b)@.len() == 0,
{
    let e = LogEntry { level, text: payload@ };
    law_room_decides(old(a)@, e);
    let spare = old(buf)@.skip(n as int);
    assert(final(a)@[0] == e);
    assert(final(buf)@ =~= entry_bytes(e) + spare);
    law_entry_reads_back(e, spare);
}

/// Of `ring_pop`: lines come out oldest first, one at a time.
pub proof fn law_ring_pop(r: &mut LogRing, buf: &mut [u8], n: usize)
    requires
        old(r).wf(),
        old(buf)@.len() >= 256,
        call_ensures(LogRing::ring_pop, (r, buf), n),
    ensures
        old(r)@.len() == 0 ==> n == 0,
        old(r)@.len() > 0 ==> {
            &&& n == old(r)@[0].text.len() + 2
            &&& text_of(final(buf)@) == Some(old(r)@[0].text)
            &&& final(r)@ == old(r)@.skip(1)
        },
{
    if old(r)@.len() > 0 {
        old(r).lemma_wf();
        let e = old(r)@[0];
        assert(entry_ok(e));
        let spare = old(buf)@.skip(n as int);
        assert(final(buf)@ =~= entry_bytes(e) + spare);
        law_entry_reads_back(e, spare);
    }
}

/// Of `format_line`: a line with room is level, tick, tag and message, all of them
/// whole.
pub proof fn law_format_line(level: Level, ticks: u32, tag: &str, msg: &[u8], line: Vec<u8>)
    requires
        text::utf8(tag@).len() + msg@.len() <= 160,
        call_ensures(format_line, (level, ticks, tag, msg), line),
    ensures
        line@ == seq![82u8, 47u8, letter_of(level), 32u8] + text::decimal(ticks as nat)
            + seq![32u8] + text::utf8(tag@) + seq![58u8, 32u8] + msg@ + seq![10u8],
{
    law_short_line_is_whole(level, ticks, text::utf8(tag@), msg@);
}

/// Of `letter` and `critical`: each level has its own letter, and warnings and errors
/// are what survives.
pub proof fn law_levels(level: Level, b: u8, c: bool)
    requires
        call_ensures(Level::letter, (level,), b),
        call_ensures(Level::critical, (level,), c),
    ensures
        level == Level::Debug <==> b == 68,
        level == Level::Info <==> b == 73,
        level == Level::Warn <==> b == 87,
        level == Level::Error <==> b == 69,
        c <==> b == 87 || b == 69,
{
}

} // verus!
