//! Touchpad contacts: the multitouch slot protocol of Linux input
//! devices, and the freshness rule of the live contact list.

use crate::events::TouchpadContact;
use vstd::prelude::*;

verus! {

/// Number of multitouch slots that are tracked.
pub const MAX_SLOTS: usize = 10;

/// Contacts older than this many nanoseconds are no longer live.
pub const LIVE_CONTACTS_MAX_AGE_NANOS: u128 = 250_000_000;

/// One absolute-axis or synchronisation event of a multitouch device
/// (protocol type B).
#[derive(Debug, Clone, Copy, PartialEq, Eq, Structural)]
pub enum TouchEvent {
    /// `ABS_MT_SLOT`: the following events concern this slot.
    Slot(i32),
    /// `ABS_MT_TRACKING_ID`: a finger touches the slot (-1: it lifted).
    TrackingId(i32),
    /// `ABS_MT_POSITION_X` of the current slot.
    PositionX(i32),
    /// `ABS_MT_POSITION_Y` of the current slot.
    PositionY(i32),
    /// `SYN_REPORT`: the end of a frame.
    Sync,
    /// Any other event, which is ignored.
    Other,
}

/// The state of one slot: tracking id (-1 when no finger is on it) and
/// position.
#[derive(Debug, Clone, Copy, PartialEq, Eq, Structural)]
pub struct Slot {
    pub tracking_id: i32,
    pub x: i32,
    pub y: i32,
}

/// The contacts of the active slots (tracking id not negative), in slot
/// order, among the first `n` slots; a contact's id is its slot number.
pub open spec fn active_contacts(slots: Seq<Slot>, n: int) -> Seq<TouchpadContact>
    decreases n,
{
    if n <= 0 {
        Seq::empty()
    } else {
        let rest = active_contacts(slots, n - 1);
        let s = slots[n - 1];
        if s.tracking_id >= 0 {
            rest.push(TouchpadContact { id: (n - 1) as u32, x: s.x, y: s.y })
        } else {
            rest
        }
    }
}

/// Follows the slots of a multitouch device and reports the contacts of
/// every frame in which something changed.
pub struct TouchpadTracker {
    current_slot: usize,
    slots: Vec<Slot>,
    dirty: bool,
}

impl TouchpadTracker {
    /// The slots.
    pub closed spec fn slots(&self) -> Seq<Slot> {
        self.slots@
    }

    /// The slot that position and tracking events apply to.
    pub closed spec fn current_slot(&self) -> int {
        self.current_slot as int
    }

    /// Whether something changed since the last reported frame.
    pub closed spec fn dirty(&self) -> bool {
        self.dirty
    }

    pub closed spec fn wf(&self) -> bool {
        &&& self.slots@.len() == MAX_SLOTS
        &&& self.current_slot < MAX_SLOTS
    }

    /// All slots free, slot 0 current, nothing to report.
    pub fn new() -> (t: Self)
        ensures
            t.wf(),
            t.current_slot() == 0,
            !t.dirty(),
            0 <= t.current_slot() < MAX_SLOTS,
            t.slots().len() == MAX_SLOTS,
            forall|i: int| 0 <= i < MAX_SLOTS ==> #[trigger] t.slots()[i] == (Slot { tracking_id: -1i32, x: 0i32, y: 0i32 }),
    {
        let mut slots: Vec<Slot> = Vec::new();
        let mut i: usize = 0;
        while i < MAX_SLOTS
            invariant
                i <= MAX_SLOTS,
                slots@.len() == i,
                forall|j: int| 0 <= j < i ==> #[trigger] slots@[j] == (Slot { tracking_id: -1i32, x: 0i32, y: 0i32 }),
            decreases MAX_SLOTS - i,
        {
            slots.push(Slot { tracking_id: -1, x: 0, y: 0 });
            i = i + 1;
        }
        TouchpadTracker { current_slot: 0, slots, dirty: false }
    }

    /// The contacts of the active slots, in slot order.
    pub fn contacts(&self) -> (c: Vec<TouchpadContact>)
        requires
            self.wf(),
        ensures
            c@ == active_contacts(self.slots(), MAX_SLOTS as int),
    {
        let mut c: Vec<TouchpadContact> = Vec::new();
        let mut i: usize = 0;
        while i < MAX_SLOTS
            invariant
                self.wf(),
                i <= MAX_SLOTS,
                c@ == active_contacts(self.slots(), i as int),
            decreases MAX_SLOTS - i,
        {
            let s = self.slots[i];
            if s.tracking_id >= 0 {
                c.push(TouchpadContact { id: i as u32, x: s.x, y: s.y });
            }
            i = i + 1;
        }
        c
    }

    /// Applies one event. At the end of a frame in which something
    /// changed, returns the contacts of the active slots.
    pub fn apply(&mut self, ev: TouchEvent) -> (report: Option<Vec<TouchpadContact>>)
        requires
            old(self).wf(),
        ensures
            final(self).wf(),
            final(self).slots().len() == MAX_SLOTS,
            0 <= final(self).current_slot() < MAX_SLOTS,
            match ev {
                TouchEvent::Slot(v) => {
                    &&& final(self).current_slot() == (if 0 <= v < MAX_SLOTS {
                        v as int
                    } else {
                        old(self).current_slot()
                    })
                    &&& final(self).slots() == old(self).slots()
                    &&& final(self).dirty() == old(self).dirty()
                    &&& report is None
                },
                TouchEvent::TrackingId(v) => {
                    let c = old(self).current_slot();
                    let s = old(self).slots()[c];
                    &&& final(self).current_slot() == c
                    &&& final(self).slots() == old(self).slots().update(
                        c,
                        if v == -1 {
                            Slot { tracking_id: v, x: 0, y: 0 }
                        } else {
                            Slot { tracking_id: v, x: s.x, y: s.y }
                        },
                    )
                    &&& final(self).dirty()
                    &&& report is None
                },
                TouchEvent::PositionX(v) => {
                    let c = old(self).current_slot();
                    let s = old(self).slots()[c];
                    &&& final(self).current_slot() == c
                    &&& final(self).slots() == old(self).slots().update(
                        c,
                        Slot { tracking_id: s.tracking_id, x: v, y: s.y },
                    )
                    &&& final(self).dirty()
                    &&& report is None
                },
                TouchEvent::PositionY(v) => {
                    let c = old(self).current_slot();
                    let s = old(self).slots()[c];
                    &&& final(self).current_slot() == c
                    &&& final(self).slots() == old(self).slots().update(
                        c,
                        Slot { tracking_id: s.tracking_id, x: s.x, y: v },
                    )
                    &&& final(self).dirty()
                    &&& report is None
                },
                TouchEvent::Sync => {
                    &&& final(self).current_slot() == old(self).current_slot()
                    &&& final(self).slots() == old(self).slots()
                    &&& !final(self).dirty()
                    &&& match report {
                        Some(c) => old(self).dirty() && c@ == active_contacts(
                            old(self).slots(),
                            MAX_SLOTS as int,
                        ),
                        None => !old(self).dirty(),
                    }
                },
                TouchEvent::Other => {
                    &&& final(self).current_slot() == old(self).current_slot()
                    &&& final(self).slots() == old(self).slots()
                    &&& final(self).dirty() == old(self).dirty()
                    &&& report is None
                },
            },
    {
        match ev {
            TouchEvent::Slot(v) => {
                if 0 <= v && v < 10 {
                    self.current_slot = v as usize;
                }
                None
            },
            TouchEvent::TrackingId(v) => {
                let c = self.current_slot;
                let s = self.slots[c];
                let updated = if v == -1 {
                    Slot { tracking_id: v, x: 0, y: 0 }
                } else {
                    Slot { tracking_id: v, x: s.x, y: s.y }
                };
                self.slots.set(c, updated);
                self.dirty = true;
                None
            },
            TouchEvent::PositionX(v) => {
                let c = self.current_slot;
                let s = self.slots[c];
                self.slots.set(c, Slot { tracking_id: s.tracking_id, x: v, y: s.y });
                self.dirty = true;
                None
            },
            TouchEvent::PositionY(v) => {
                let c = self.current_slot;
                let s = self.slots[c];
                self.slots.set(c, Slot { tracking_id: s.tracking_id, x: s.x, y: v });
                self.dirty = true;
                None
            },
            TouchEvent::Sync => {
                if self.dirty {
                    let c = self.contacts();
                    self.dirty = false;
                    Some(c)
                } else {
                    None
                }
            },
            TouchEvent::Other => None,
        }
    }
}

/// Every reported contact is an active slot, named by its slot number,
/// at that slot's position; the numbers rise strictly, so no slot is
/// reported twice.
pub proof fn lemma_active_contacts_are_active_slots(slots: Seq<Slot>, n: int)
    requires
        0 <= n <= slots.len() <= MAX_SLOTS,
    ensures
        forall|k: int|
            0 <= k < active_contacts(slots, n).len() ==> {
                let c = #[trigger] active_contacts(slots, n)[k];
                &&& 0 <= c.id < n
                &&& slots[c.id as int].tracking_id >= 0
                &&& slots[c.id as int].x == c.x
                &&& slots[c.id as int].y == c.y
            },
        forall|k: int, l: int|
            0 <= k < l < active_contacts(slots, n).len() ==> #[trigger] active_contacts(slots, n)[k].id
                < #[trigger] active_contacts(slots, n)[l].id,
        forall|i: int|
            0 <= i < n && #[trigger] slots[i].tracking_id >= 0 ==> exists|k: int|
                0 <= k < active_contacts(slots, n).len() && #[trigger] active_contacts(slots, n)[k].id == i,
    decreases n,
{
    if n > 0 {
        lemma_active_contacts_are_active_slots(slots, n - 1);
        let rest = active_contacts(slots, n - 1);
        let all = active_contacts(slots, n);
        if slots[n - 1].tracking_id >= 0 {
            assert forall|i: int| 0 <= i < n && #[trigger] slots[i].tracking_id >= 0 implies exists|
                k: int,
            | 0 <= k < all.len() && #[trigger] all[k].id == i by {
                if i == n - 1 {
                    assert(all[rest.len() as int].id == i);
                } else {
                    let k = choose|k: int| 0 <= k < rest.len() && #[trigger] rest[k].id == i;
                    assert(all[k].id == i);
                }
            }
        }
    }
}

/// The contacts that are live: none when the last frame is older than
/// 250 ms, else those of the last frame.
pub fn live_touchpad(elapsed_nanos: u128, contacts: Vec<TouchpadContact>) -> (live: Vec<TouchpadContact>)
    ensures
        live@ == if elapsed_nanos > LIVE_CONTACTS_MAX_AGE_NANOS {
            Seq::empty()
        } else {
            contacts@
        },
{
    if elapsed_nanos > LIVE_CONTACTS_MAX_AGE_NANOS {
        Vec::new()
    } else {
        contacts
    }
}

} // verus!
