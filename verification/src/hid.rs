//! The touchpad contacts of a HID digitizer report: each data item is
//! matched to the value or button capability that describes it, the
//! items are gathered per link collection (one per finger), and the
//! fingers that touch are reported.

use crate::events::TouchpadContact;
use vstd::prelude::*;
use vstd::wrapping::u16_specs;

verus! {

/// HID usage page of generic desktop controls (x and y).
pub const USAGE_PAGE_GENERIC: u16 = 0x01;
/// HID usage page of digitizers (contact id, tip switch).
pub const USAGE_PAGE_DIGITIZER: u16 = 0x0D;
/// Usage of the x coordinate.
pub const USAGE_X: u16 = 0x30;
/// Usage of the y coordinate.
pub const USAGE_Y: u16 = 0x31;
/// Usage of the contact identifier.
pub const USAGE_CONTACT_ID: u16 = 0x51;
/// Usage of the tip switch.
pub const USAGE_TIP_SWITCH: u16 = 0x42;

/// The data indices a capability describes: a range whose first index
/// has usage `usage_min` (the next ones follow it), or a single index.
#[derive(Debug, Clone, Copy, PartialEq, Eq, Structural)]
pub enum CapIndex {
    Range { data_index_min: u16, data_index_max: u16, usage_min: u16 },
    Single { data_index: u16, usage: u16 },
}

/// A value or button capability of the device.
#[derive(Debug, Clone, Copy, PartialEq, Eq, Structural)]
pub struct HidCap {
    pub usage_page: u16,
    pub link_collection: u16,
    pub index: CapIndex,
}

/// One data item of a report: its index, raw value, and for a button
/// whether it is on.
#[derive(Debug, Clone, Copy, PartialEq, Eq, Structural)]
pub struct HidDatum {
    pub data_index: u16,
    pub raw_value: u32,
    pub on: bool,
}

/// What a report says of one finger.
#[derive(Debug, Clone, Copy, PartialEq, Eq, Structural)]
pub struct ContactInfo {
    pub id: u32,
    pub x: i32,
    pub y: i32,
    pub tip_switch: Option<u32>,
}

/// A finger of which nothing is known yet.
pub open spec fn blank_info() -> ContactInfo {
    ContactInfo { id: 0, x: 0, y: 0, tip_switch: None }
}

/// Whether a capability describes data index `idx`.
pub open spec fn cap_matches(c: HidCap, idx: u16) -> bool {
    match c.index {
        CapIndex::Range { data_index_min, data_index_max, .. } => data_index_min <= idx
            && idx <= data_index_max,
        CapIndex::Single { data_index, .. } => idx == data_index,
    }
}

/// The usage of data index `idx` under a capability that describes it
/// (16-bit arithmetic).
pub open spec fn cap_usage(c: HidCap, idx: u16) -> u16 {
    match c.index {
        CapIndex::Range { data_index_min, usage_min, .. } => u16_specs::wrapping_add(
            usage_min,
            (idx - data_index_min) as u16,
        ),
        CapIndex::Single { usage, .. } => usage,
    }
}

/// The first capability from index `k` on that describes `idx`.
pub open spec fn first_cap_from(caps: Seq<HidCap>, idx: u16, k: int) -> Option<HidCap>
    decreases caps.len() - k,
{
    if k < 0 || k >= caps.len() {
        None
    } else if cap_matches(caps[k], idx) {
        Some(caps[k])
    } else {
        first_cap_from(caps, idx, k + 1)
    }
}

/// What a data item says: usage page, usage, link collection and value;
/// value capabilities are looked at before button capabilities, and a
/// button's value is 1 when on, else 0.
pub open spec fn classify(
    value_caps: Seq<HidCap>,
    button_caps: Seq<HidCap>,
    d: HidDatum,
) -> Option<(u16, u16, u16, u32)> {
    match first_cap_from(value_caps, d.data_index, 0) {
        Some(c) => Some((c.usage_page, cap_usage(c, d.data_index), c.link_collection, d.raw_value)),
        None => match first_cap_from(button_caps, d.data_index, 0) {
            Some(c) => Some(
                (
                    c.usage_page,
                    cap_usage(c, d.data_index),
                    c.link_collection,
                    if d.on {
                        1u32
                    } else {
                        0u32
                    },
                ),
            ),
            None => None,
        },
    }
}

/// A finger after a data item with usage page, usage and value: x and y
/// are read as signed, the contact id and tip switch as they are.
pub open spec fn apply_usage(info: ContactInfo, page: u16, usage: u16, val: u32) -> ContactInfo {
    if page == USAGE_PAGE_GENERIC {
        if usage == USAGE_X {
            ContactInfo { x: val as i32, ..info }
        } else if usage == USAGE_Y {
            ContactInfo { y: val as i32, ..info }
        } else {
            info
        }
    } else if page == USAGE_PAGE_DIGITIZER {
        if usage == USAGE_CONTACT_ID {
            ContactInfo { id: val, ..info }
        } else if usage == USAGE_TIP_SWITCH {
            ContactInfo { tip_switch: Some(val), ..info }
        } else {
            info
        }
    } else {
        info
    }
}

/// The first entry from index `k` on for link collection `link`.
pub open spec fn entry_index_from(entries: Seq<(u16, ContactInfo)>, link: u16, k: int) -> Option<int>
    decreases entries.len() - k,
{
    if k < 0 || k >= entries.len() {
        None
    } else if entries[k].0 == link {
        Some(k)
    } else {
        entry_index_from(entries, link, k + 1)
    }
}

/// The entries after a data item of link collection `link`: its entry is
/// updated, or a new one is added at the end.
pub open spec fn upsert(entries: Seq<(u16, ContactInfo)>, link: u16, page: u16, usage: u16, val: u32) -> Seq<
    (u16, ContactInfo),
> {
    match entry_index_from(entries, link, 0) {
        Some(i) => entries.update(i, (link, apply_usage(entries[i].1, page, usage, val))),
        None => entries.push((link, apply_usage(blank_info(), page, usage, val))),
    }
}

/// The fingers of a report, per link collection in the order of first
/// appearance.
pub open spec fn collect_infos(
    value_caps: Seq<HidCap>,
    button_caps: Seq<HidCap>,
    data: Seq<HidDatum>,
) -> Seq<(u16, ContactInfo)>
    decreases data.len(),
{
    if data.len() == 0 {
        Seq::empty()
    } else {
        let prev = collect_infos(value_caps, button_caps, data.drop_last());
        match classify(value_caps, button_caps, data.last()) {
            Some((p, u, l, v)) => upsert(prev, l, p, u, v),
            None => prev,
        }
    }
}

/// Whether a finger touches: its tip switch is on, or it has none; and
/// both coordinates are positive.
pub open spec fn touches(info: ContactInfo) -> bool {
    let pressed = match info.tip_switch {
        Some(t) => t > 0,
        None => true,
    };
    pressed && info.x > 0 && info.y > 0
}

/// The contacts of the fingers that touch, among the first `n` entries.
pub open spec fn touching_contacts(entries: Seq<(u16, ContactInfo)>, n: int) -> Seq<TouchpadContact>
    decreases n,
{
    if n <= 0 {
        Seq::empty()
    } else {
        let rest = touching_contacts(entries, n - 1);
        let info = entries[n - 1].1;
        if touches(info) {
            rest.push(TouchpadContact { id: info.id, x: info.x, y: info.y })
        } else {
            rest
        }
    }
}

/// The contacts of a report.
pub open spec fn report_contacts(
    value_caps: Seq<HidCap>,
    button_caps: Seq<HidCap>,
    data: Seq<HidDatum>,
) -> Seq<TouchpadContact> {
    let entries = collect_infos(value_caps, button_caps, data);
    touching_contacts(entries, entries.len() as int)
}

fn find_cap(caps: &Vec<HidCap>, idx: u16) -> (r: Option<HidCap>)
    ensures
        r == first_cap_from(caps@, idx, 0),
{
    let mut k: usize = 0;
    while k < caps.len()
        invariant
            k <= caps@.len(),
            first_cap_from(caps@, idx, 0) == first_cap_from(caps@, idx, k as int),
        decreases caps@.len() - k,
    {
        let c = caps[k];
        let m = match c.index {
            CapIndex::Range { data_index_min, data_index_max, .. } => data_index_min <= idx && idx
                <= data_index_max,
            CapIndex::Single { data_index, .. } => idx == data_index,
        };
        if m {
            return Some(c);
        }
        k = k + 1;
    }
    None
}

fn usage_of(c: HidCap, idx: u16) -> (u: u16)
    requires
        cap_matches(c, idx),
    ensures
        u == cap_usage(c, idx),
{
    match c.index {
        CapIndex::Range { data_index_min, usage_min, .. } => usage_min.wrapping_add(idx - data_index_min),
        CapIndex::Single { usage, .. } => usage,
    }
}

proof fn lemma_first_cap_matches(caps: Seq<HidCap>, idx: u16, k: int)
    ensures
        first_cap_from(caps, idx, k) matches Some(c) ==> cap_matches(c, idx),
    decreases caps.len() - k,
{
    if 0 <= k < caps.len() && !cap_matches(caps[k], idx) {
        lemma_first_cap_matches(caps, idx, k + 1);
    }
}

/// What a data item says.
pub fn classify_datum(value_caps: &Vec<HidCap>, button_caps: &Vec<HidCap>, d: HidDatum) -> (r: Option<
    (u16, u16, u16, u32),
>)
    ensures
        r == classify(value_caps@, button_caps@, d),
{
    proof {
        lemma_first_cap_matches(value_caps@, d.data_index, 0);
        lemma_first_cap_matches(button_caps@, d.data_index, 0);
    }
    match find_cap(value_caps, d.data_index) {
        Some(c) => Some((c.usage_page, usage_of(c, d.data_index), c.link_collection, d.raw_value)),
        None => match find_cap(button_caps, d.data_index) {
            Some(c) => {
                let v: u32 = if d.on {
                    1
                } else {
                    0
                };
                Some((c.usage_page, usage_of(c, d.data_index), c.link_collection, v))
            },
            None => None,
        },
    }
}

fn apply_usage_exec(info: ContactInfo, page: u16, usage: u16, val: u32) -> (r: ContactInfo)
    ensures
        r == apply_usage(info, page, usage, val),
{
    if page == USAGE_PAGE_GENERIC {
        if usage == USAGE_X {
            ContactInfo { x: val as i32, ..info }
        } else if usage == USAGE_Y {
            ContactInfo { y: val as i32, ..info }
        } else {
            info
        }
    } else if page == USAGE_PAGE_DIGITIZER {
        if usage == USAGE_CONTACT_ID {
            ContactInfo { id: val, ..info }
        } else if usage == USAGE_TIP_SWITCH {
            ContactInfo { tip_switch: Some(val), ..info }
        } else {
            info
        }
    } else {
        info
    }
}

proof fn lemma_entry_index_in_range(entries: Seq<(u16, ContactInfo)>, link: u16, k: int)
    ensures
        entry_index_from(entries, link, k) matches Some(i) ==> 0 <= i < entries.len() && entries[i].0 == link,
    decreases entries.len() - k,
{
    if 0 <= k < entries.len() && entries[k].0 != link {
        lemma_entry_index_in_range(entries, link, k + 1);
    }
}

fn upsert_exec(entries: &mut Vec<(u16, ContactInfo)>, link: u16, page: u16, usage: u16, val: u32)
    ensures
        final(entries)@ == upsert(old(entries)@, link, page, usage, val),
{
    proof {
        lemma_entry_index_in_range(entries@, link, 0);
    }
    let mut k: usize = 0;
    while k < entries.len()
        invariant
            k <= entries@.len(),
            entries@ == old(entries)@,
            entry_index_from(entries@, link, 0) == entry_index_from(entries@, link, k as int),
        decreases entries@.len() - k,
    {
        if entries[k].0 == link {
            let info = entries[k].1;
            let updated = apply_usage_exec(info, page, usage, val);
            entries.set(k, (link, updated));
            return;
        }
        k = k + 1;
    }
    let fresh = apply_usage_exec(ContactInfo { id: 0, x: 0, y: 0, tip_switch: None }, page, usage, val);
    entries.push((link, fresh));
}

/// The touchpad contacts of a report: the fingers, per link collection
/// in the order in which they first appear, that touch.
pub fn hid_report_contacts(
    value_caps: &Vec<HidCap>,
    button_caps: &Vec<HidCap>,
    data: &Vec<HidDatum>,
) -> (contacts: Vec<TouchpadContact>)
    ensures
        contacts@ == report_contacts(value_caps@, button_caps@, data@),
{
    let mut entries: Vec<(u16, ContactInfo)> = Vec::new();
    let mut i: usize = 0;
    while i < data.len()
        invariant
            i <= data@.len(),
            entries@ == collect_infos(value_caps@, button_caps@, data@.take(i as int)),
        decreases data@.len() - i,
    {
        let d = data[i];
        assert(data@.take(i + 1).drop_last() =~= data@.take(i as int));
        assert(data@.take(i + 1).last() == d);
        match classify_datum(value_caps, button_caps, d) {
            Some((p, u, l, v)) => {
                upsert_exec(&mut entries, l, p, u, v);
            },
            None => {},
        }
        i = i + 1;
    }
    assert(data@.take(data@.len() as int) =~= data@);
    let mut contacts: Vec<TouchpadContact> = Vec::new();
    let mut k: usize = 0;
    while k < entries.len()
        invariant
            k <= entries@.len(),
            contacts@ == touching_contacts(entries@, k as int),
        decreases entries@.len() - k,
    {
        let info = entries[k].1;
        let pressed = match info.tip_switch {
            Some(t) => t > 0,
            None => true,
        };
        if pressed && info.x > 0 && info.y > 0 {
            contacts.push(TouchpadContact { id: info.id, x: info.x, y: info.y });
        }
        k = k + 1;
    }
    contacts
}

} // verus!
