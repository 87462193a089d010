//! The stored mission, and the exchanges by which the ground station writes and
//! reads it.
//!
//! To write, the ground station announces a count and the vehicle asks for the
//! items one after the other. To read, the vehicle sends the count, all items and
//! an acknowledgement.

use crate::real32::Real32;
use vstd::prelude::*;

verus! {

/// Items that can be stored.
pub const MISSION_MAX: usize = 64;

/// Acknowledgement: done.
pub const MISSION_ACCEPTED: u8 = 0;

/// Acknowledgement: more items than can be stored.
pub const MISSION_NO_SPACE: u8 = 4;

/// Acknowledgement: an item came out of turn.
pub const MISSION_INVALID_SEQUENCE: u8 = 5;

/// A mission item.
#[derive(Clone, Copy, Debug, PartialEq, Eq, Structural)]
pub struct MissionItem {
    pub target_system: u8,
    pub target_component: u8,
    pub seq: u16,
    pub command: u16,
    pub param1: Real32,
    pub param2: Real32,
    pub param3: Real32,
    pub param4: Real32,
    pub x: i32,
    pub y: i32,
    pub z: Real32,
    pub frame: u8,
    pub current: u8,
    pub autocontinue: u8,
    pub mission_type: u8,
}

/// A message of the mission exchange to the ground station.
#[derive(Clone, Copy, Debug, PartialEq, Eq, Structural)]
pub enum MissionReply {
    /// Number of stored items.
    Count(u16),
    /// A stored item.
    Item(MissionItem),
    /// Acknowledgement with its result.
    Ack(u8),
    /// Request for the item with this number.
    Request(u16),
}

/// The stored mission and the state of a write.
pub ghost struct MissionView {
    /// All places for items.
    pub items: Seq<MissionItem>,
    /// How many of them hold the mission.
    pub count: nat,
    /// While items are awaited: the next number, and how many were announced.
    pub awaited: Option<(nat, nat)>,
}

/// A state that the exchanges can lead to.
pub open spec fn mission_ok(v: MissionView) -> bool {
    &&& v.items.len() == MISSION_MAX
    &&& v.count <= MISSION_MAX
    &&& v.awaited matches Some((next, total)) ==> total <= MISSION_MAX && (next < total || next
        == 0)
}

/// The ground station announces `count` items.
pub open spec fn on_count(v: MissionView, count: u16) -> (MissionView, MissionReply) {
    if count > MISSION_MAX {
        (v, MissionReply::Ack(MISSION_NO_SPACE))
    } else {
        (MissionView { awaited: Some((0, count as nat)), ..v }, MissionReply::Request(0))
    }
}

/// An item comes in.
pub open spec fn on_item(v: MissionView, item: MissionItem) -> (MissionView, Option<MissionReply>) {
    match v.awaited {
        None => (v, None),
        Some((next, total)) => if item.seq != next {
            (v, Some(MissionReply::Ack(MISSION_INVALID_SEQUENCE)))
        } else if next + 1 >= total {
            (
                MissionView {
                    items: v.items.update(next as int, item),
                    count: total,
                    awaited: None,
                },
                Some(MissionReply::Ack(MISSION_ACCEPTED)),
            )
        } else {
            (
                MissionView {
                    items: v.items.update(next as int, item),
                    awaited: Some((next + 1, total)),
                    ..v
                },
                Some(MissionReply::Request((next + 1) as u16)),
            )
        },
    }
}

/// What is sent where the ground station asks for the mission.
pub open spec fn on_request_list(v: MissionView) -> Seq<MissionReply> {
    seq![MissionReply::Count(v.count as u16)] + v.items.take(v.count as int).map_values(
        |m: MissionItem| MissionReply::Item(m),
    ) + seq![MissionReply::Ack(MISSION_ACCEPTED)]
}

/// What an unused place holds.
pub open spec fn blank_item() -> MissionItem {
    let zero = Real32 { bits: 0 };
    MissionItem {
        target_system: 0,
        target_component: 0,
        seq: 0,
        command: 0,
        param1: zero,
        param2: zero,
        param3: zero,
        param4: zero,
        x: 0,
        y: 0,
        z: zero,
        frame: 0,
        current: 0,
        autocontinue: 0,
        mission_type: 0,
    }
}

/// An empty mission; no write under way.
pub open spec fn no_mission() -> MissionView {
    MissionView { items: Seq::new(64, |i: int| blank_item()), count: 0, awaited: None }
}

/// The stored mission.
pub struct MissionStore {
    items: Vec<MissionItem>,
    count: u16,
    waiting: bool,
    next: u16,
    total: u16,
}

impl MissionStore {
    /// The stored mission and the state of a write.
    pub closed spec fn view(&self) -> MissionView {
        MissionView {
            items: self.items@,
            count: self.count as nat,
            awaited: if self.waiting {
                Some((self.next as nat, self.total as nat))
            } else {
                None
            },
        }
    }

    /// The state is one that the exchanges lead to.
    pub open spec fn wf(&self) -> bool {
        mission_ok(self@)
    }

    /// An empty mission; no write under way.
    pub fn new() -> (m: MissionStore)
        ensures
            m.wf(),
            m@ == no_mission(),
    {
        let zero = Real32 { bits: 0 };
        let blank = MissionItem {
            target_system: 0,
            target_component: 0,
            seq: 0,
            command: 0,
            param1: zero,
            param2: zero,
            param3: zero,
            param4: zero,
            x: 0,
            y: 0,
            z: zero,
            frame: 0,
            current: 0,
            autocontinue: 0,
            mission_type: 0,
        };
        let mut items: Vec<MissionItem> = Vec::new();
        let mut i: usize = 0;
        while i < MISSION_MAX
            invariant
                i <= MISSION_MAX,
                blank == blank_item(),
                items@ == Seq::new(i as nat, |j: int| blank_item()),
            decreases MISSION_MAX - i,
        {
            items.push(blank);
            i = i + 1;
            assert(items@ =~= Seq::new(i as nat, |j: int| blank_item()));
        }
        assert(items@ =~= no_mission().items);
        MissionStore { items, count: 0, waiting: false, next: 0, total: 0 }
    }

    /// Sends the mission: the count, the items, an acknowledgement.
    pub fn mission_handle_request_list(&self) -> (out: Vec<MissionReply>)
        requires
            self.wf(),
        ensures
            out@ == on_request_list(self@),
    {
        let mut out: Vec<MissionReply> = Vec::new();
        out.push(MissionReply::Count(self.count));
        let ghost sent = |m: MissionItem| MissionReply::Item(m);
        let mut i: u16 = 0;
        assert(out@ =~= seq![MissionReply::Count(self.count)] + self.items@.take(0).map_values(
            sent,
        ));
        while i < self.count
            invariant
                self.wf(),
                i <= self.count,
                sent == (|m: MissionItem| MissionReply::Item(m)),
                out@ == seq![MissionReply::Count(self.count)] + self.items@.take(
                    i as int,
                ).map_values(sent),
            decreases self.count - i,
        {
            out.push(MissionReply::Item(self.items[i as usize]));
            i = i + 1;
            assert(self.items@.take(i as int).map_values(sent) =~= self.items@.take(
                i - 1,
            ).map_values(sent).push(MissionReply::Item(self.items@[i - 1])));
            assert(out@ =~= seq![MissionReply::Count(self.count)] + self.items@.take(
                i as int,
            ).map_values(sent));
        }
        out.push(MissionReply::Ack(MISSION_ACCEPTED));
        assert(out@ =~= on_request_list(self@));
        out
    }

    /// Starts a write of `count` items.
    pub fn mission_handle_count(&mut self, count: u16) -> (r: MissionReply)
        requires
            old(self).wf(),
        ensures
            final(self).wf(),
            (final(self)@, r) == on_count(old(self)@, count),
    {
        if count as usize > MISSION_MAX {
            return MissionReply::Ack(MISSION_NO_SPACE);
        }
        self.waiting = true;
        self.next = 0;
        self.total = count;
        MissionReply::Request(0)
    }

    /// Takes an item of a write; where none is under way it is ignored.
    pub fn mission_handle_item(&mut self, item: &MissionItem) -> (r: Option<MissionReply>)
        requires
            old(self).wf(),
        ensures
            final(self).wf(),
            (final(self)@, r) == on_item(old(self)@, *item),
    {
        if !self.waiting {
            return None;
        }
        if item.seq != self.next {
            return Some(MissionReply::Ack(MISSION_INVALID_SEQUENCE));
        }
        self.items.set(self.next as usize, *item);
        let next2: u16 = self.next + 1;
        if next2 >= self.total {
            self.count = self.total;
            self.waiting = false;
            self.next = 0;
            Some(MissionReply::Ack(MISSION_ACCEPTED))
        } else {
            self.next = next2;
            Some(MissionReply::Request(next2))
        }
    }
}

/// The state after items came in one after the other.
pub open spec fn after_items(v: MissionView, items: Seq<MissionItem>) -> MissionView
    decreases items.len(),
{
    if items.len() == 0 {
        v
    } else {
        on_item(after_items(v, items.drop_last()), items.last()).0
    }
}

/// In the middle of a write, the items so far are stored and the next is awaited.
proof fn lemma_writing(v: MissionView, items: Seq<MissionItem>, total: nat)
    requires
        mission_ok(v),
        v.awaited == Some((0nat, total)),
        items.len() < total <= MISSION_MAX,
        forall|i: int| 0 <= i < items.len() ==> (#[trigger] items[i]).seq == i,
    ensures
        ({
            let w = after_items(v, items);
            &&& mission_ok(w)
            &&& w.count == v.count
            &&& w.awaited == Some((items.len(), total))
            &&& w.items.take(items.len() as int) == items
        }),
    decreases items.len(),
{
    if items.len() > 0 {
        let part = items.drop_last();
        assert forall|i: int| 0 <= i < part.len() implies (#[trigger] part[i]).seq == i by {
            assert(part[i] == items[i]);
        }
        lemma_writing(v, part, total);
        let w = after_items(v, part);
        let last = items[items.len() - 1];
        assert(last.seq == items.len() - 1);
        let x = on_item(w, last).0;
        assert(x.items.take(items.len() as int) =~= items) by {
            assert forall|i: int| 0 <= i < items.len() implies x.items[i] == items[i] by {
                if i < part.len() {
                    assert(w.items.take(part.len() as int)[i] == part[i]);
                }
            }
        }
    } else {
        assert(v.items.take(0) =~= items);
    }
}

/// Whatever was stored before, a mission that is written is read back as it was:
/// after its count and its items, in order, the write is over, and a read gives
/// the same count and the same items.
pub proof fn law_written_mission_reads_back(v: MissionView, items: Seq<MissionItem>)
    requires
        mission_ok(v),
        1 <= items.len() <= MISSION_MAX,
        forall|i: int| 0 <= i < items.len() ==> (#[trigger] items[i]).seq == i,
    ensures
        ({
            let w = after_items(on_count(v, items.len() as u16).0, items);
            &&& w.awaited is None
            &&& w.count == items.len()
            &&& w.items.take(items.len() as int) == items
            &&& on_request_list(w) == seq![MissionReply::Count(items.len() as u16)]
                + items.map_values(|m: MissionItem| MissionReply::Item(m))
                + seq![MissionReply::Ack(MISSION_ACCEPTED)]
        }),
{
    let n = items.len();
    let start = on_count(v, n as u16).0;
    let part = items.drop_last();
    assert forall|i: int| 0 <= i < part.len() implies (#[trigger] part[i]).seq == i by {
        assert(part[i] == items[i]);
    }
    lemma_writing(start, part, n);
    let w = after_items(start, part);
    let last = items[n - 1];
    assert(last.seq == n - 1);
    let x = on_item(w, last).0;
    assert(x.items.take(n as int) =~= items) by {
        assert forall|i: int| 0 <= i < n implies x.items[i] == items[i] by {
            if i < part.len() {
                assert(w.items.take(part.len() as int)[i] == part[i]);
            }
        }
    }
}

/// During a write of `total` items, item `k` is answered by the request for the
/// next one, and the last by an acknowledgement.
pub proof fn law_items_are_asked_for_in_order(v: MissionView, items: Seq<MissionItem>, total: u16)
    requires
        mission_ok(v),
        1 <= items.len() <= total <= MISSION_MAX,
        forall|i: int| 0 <= i < items.len() ==> (#[trigger] items[i]).seq == i,
    ensures
        on_count(v, total).1 == MissionReply::Request(0),
        on_item(after_items(on_count(v, total).0, items.drop_last()), items.last()).1 == Some(
            if items.len() < total {
                MissionReply::Request(items.len() as u16)
            } else {
                MissionReply::Ack(MISSION_ACCEPTED)
            },
        ),
{
    let part = items.drop_last();
    assert forall|i: int| 0 <= i < part.len() implies (#[trigger] part[i]).seq == i by {
        assert(part[i] == items[i]);
    }
    lemma_writing(on_count(v, total).0, part, total as nat);
    assert(items[items.len() - 1].seq == items.len() - 1);
}

/// An item out of turn, or one that nobody asked for, and a count that is too
/// large leave everything as it was.
pub proof fn law_refusals_change_nothing(v: MissionView, item: MissionItem, count: u16)
    ensures
        count > MISSION_MAX ==> on_count(v, count) == (v, MissionReply::Ack(MISSION_NO_SPACE)),
        v.awaited is None ==> on_item(v, item) == (v, None::<MissionReply>),
        v.awaited matches Some((next, total)) ==> item.seq != next ==> on_item(v, item) == (
            v,
            Some(MissionReply::Ack(MISSION_INVALID_SEQUENCE)),
        ),
{
}

/// Of `mission_handle_item`: the item that is awaited is stored at its own place and
/// touches no other; the count of the stored mission changes only with the last item. Any
/// other item changes nothing.
pub proof fn law_handle_item(m: &mut MissionStore, item: &MissionItem, r: Option<MissionReply>)
    requires
        old(m).wf(),
        call_ensures(MissionStore::mission_handle_item, (m, item), r),
    ensures
        old(m)@.awaited is None ==> final(m)@ == old(m)@ && r is None,
        old(m)@.awaited matches Some((next, total)) ==> {
            &&& item.seq != next ==> final(m)@ == old(m)@ && r == Some(MissionReply::Ack(5))
            &&& item.seq == next ==> {
                &&& final(m)@.items[next as int] == *item
                &&& forall|j: int|
                    0 <= j < 64 && j != next ==> final(m)@.items[j] == #[trigger] old(m)@.items[j]
                &&& next + 1 < total ==> final(m)@.count == old(m)@.count && final(m)@.awaited
                    == Some((next + 1, total)) && r == Some(
                    MissionReply::Request((next + 1) as u16),
                )
                &&& next + 1 >= total ==> final(m)@.count == total && final(m)@.awaited is None
                    && r == Some(MissionReply::Ack(0))
            }
        },
{
}

/// Of `mission_handle_count`: a write of up to 64 items begins at item zero and leaves
/// the stored mission until its items come; a larger one is refused.
pub proof fn law_handle_count(m: &mut MissionStore, count: u16, r: MissionReply)
    requires
        old(m).wf(),
        call_ensures(MissionStore::mission_handle_count, (m, count), r),
    ensures
        final(m)@.items == old(m)@.items && final(m)@.count == old(m)@.count,
        count <= 64 ==> r == MissionReply::Request(0) && final(m)@.awaited == Some(
            (0nat, count as nat),
        ),
        count > 64 ==> r == MissionReply::Ack(4) && final(m)@.awaited == old(m)@.awaited,
{
}

/// Of `mission_handle_request_list`: the count, then each stored item in order, then an
/// acknowledgement.
pub proof fn law_handle_request_list(m: &MissionStore, out: Vec<MissionReply>)
    requires
        m.wf(),
        call_ensures(MissionStore::mission_handle_request_list, (m,), out),
    ensures
        out@.len() == m@.count + 2,
        out@[0] == MissionReply::Count(m@.count as u16),
        forall|i: int|
            0 <= i < m@.count ==> #[trigger] out@[i + 1] == MissionReply::Item(m@.items[i]),
        out@.last() == MissionReply::Ack(0),
{
}

} // verus!
