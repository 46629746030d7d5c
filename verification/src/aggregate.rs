//! The aggregation of input events between two writes to the database:
//! key presses are timed from press to release, clicks are buffered, and
//! touchpad samples are counted per number of fingers and per 20×20 cell.

use crate::events::{MouseButton, TouchpadContact, button_name};
use std::collections::HashMap;
use vstd::prelude::*;

verus! {

broadcast use vstd::std_specs::hash::group_hash_axioms;

/// Side of the square cells of the touchpad heatmap.
pub const HEATMAP_CELL: i32 = 20;

/// Buffered key or click records that make a write due.
pub const MAX_BUFFERED_EVENTS: usize = 50;

/// Heatmap cells that make a write due.
pub const MAX_BUFFERED_CELLS: usize = 200;

/// Nanoseconds between two writes.
pub const FLUSH_INTERVAL_NANOS: u128 = 2_000_000_000;

/// Nanoseconds between two touchpad samples.
pub const SAMPLE_INTERVAL_NANOS: u128 = 50_000_000;

/// Shortest wait for the next event, in nanoseconds.
pub const MIN_WAIT_NANOS: u128 = 1_000_000;

/// A released key: its code and name, the modifier state at the press,
/// and how long it was held in milliseconds.
#[derive(Debug, Clone, PartialEq, Eq)]
pub struct KeyRecord {
    pub vk_code: u32,
    pub key_name: String,
    pub shift_held: bool,
    pub caps_on: bool,
    pub hold_ms: Option<u64>,
}

/// A click: the button's name and the cursor position.
#[derive(Debug, Clone, PartialEq, Eq)]
pub struct ClickRecord {
    pub button: String,
    pub x: i32,
    pub y: i32,
}

/// A cell of the touchpad heatmap and how many contacts fell into it.
#[derive(Debug, Clone, Copy, PartialEq, Eq, Structural)]
pub struct HeatCell {
    pub x: i32,
    pub y: i32,
    pub hits: u32,
}


/// A key that is down: code, extended flag, when it was pressed (in
/// nanoseconds on a monotonic clock), its name and the modifier state.
#[derive(Debug, Clone)]
pub struct HeldKey {
    pub vk_code: u32,
    pub is_extended: bool,
    pub pressed_at_ns: u64,
    pub key_name: String,
    pub shift_held: bool,
    pub caps_on: bool,
}

/// The start of the heatmap cell of a coordinate: the coordinate rounded
/// toward zero to a multiple of 20.
pub open spec fn grid(v: i32) -> i32 {
    if v >= 0 {
        ((v / 20) * 20) as i32
    } else {
        (-(((-v) / 20) * 20)) as i32
    }
}

/// Milliseconds from `pressed` to `now` nanoseconds, 0 if `now` is
/// earlier.
pub open spec fn hold_ms(pressed: u64, now: u64) -> u64 {
    if now >= pressed {
        ((now - pressed) / 1_000_000) as u64
    } else {
        0
    }
}

pub open spec fn is_held(held: Seq<HeldKey>, vk: u32, ext: bool) -> bool {
    exists|j: int| 0 <= j < held.len() && #[trigger] held[j].vk_code == vk && held[j].is_extended == ext
}

pub open spec fn held_distinct(held: Seq<HeldKey>) -> bool {
    forall|a: int, b: int|
        0 <= a < b < held.len() ==> !(#[trigger] held[a].vk_code == #[trigger] held[b].vk_code
            && held[a].is_extended == held[b].is_extended)
}

pub open spec fn cells_distinct(cells: Seq<HeatCell>) -> bool {
    forall|a: int, b: int|
        0 <= a < b < cells.len() ==> !(#[trigger] cells[a].x == #[trigger] cells[b].x && cells[a].y == cells[b].y)
}

pub open spec fn has_cell(cells: Seq<HeatCell>, x: i32, y: i32) -> bool {
    exists|j: int| 0 <= j < cells.len() && #[trigger] cells[j].x == x && cells[j].y == y
}

/// Contacts counted in the cell starting at `(x, y)`.
pub open spec fn heat_count(cells: Seq<HeatCell>, x: i32, y: i32) -> nat {
    if has_cell(cells, x, y) {
        cells[choose|j: int| 0 <= j < cells.len() && #[trigger] cells[j].x == x && cells[j].y == y].hits as nat
    } else {
        0
    }
}

/// Samples counted with `n` fingers.
pub open spec fn finger_count(f: Map<u32, u32>, n: u32) -> nat {
    if f.contains_key(n) {
        f[n] as nat
    } else {
        0
    }
}

/// How many of `contacts` fall into the cell starting at `(x, y)`.
pub open spec fn cell_hits(contacts: Seq<TouchpadContact>, x: i32, y: i32) -> nat
    decreases contacts.len(),
{
    if contacts.len() == 0 {
        0
    } else {
        cell_hits(contacts.drop_last(), x, y) + if grid(contacts.last().x) == x && grid(
            contacts.last().y,
        ) == y {
            1nat
        } else {
            0nat
        }
    }
}

/// Whether a touchpad sample can be counted without a counter passing
/// `u32::MAX`.
pub open spec fn sample_fits(
    fingers: Map<u32, u32>,
    cells: Seq<HeatCell>,
    contacts: Seq<TouchpadContact>,
) -> bool {
    (contacts.len() as u32) > 0 ==> {
        &&& finger_count(fingers, contacts.len() as u32) < u32::MAX
        &&& forall|x: i32, y: i32|
            #[trigger] heat_count(cells, x, y) + cell_hits(contacts, x, y) <= u32::MAX
    }
}

/// The start of the heatmap cell of a coordinate.
pub fn grid_cell(v: i32) -> (g: i32)
    ensures
        g == grid(v),
{
    let a: i64 = v as i64;
    let g: i64 = if a >= 0 {
        (a / 20) * 20
    } else {
        -(((-a) / 20) * 20)
    };
    g as i32
}

fn bump_heat(cells: &mut Vec<HeatCell>, x: i32, y: i32)
    requires
        cells_distinct(old(cells)@),
        heat_count(old(cells)@, x, y) < u32::MAX,
    ensures
        cells_distinct(final(cells)@),
        forall|a: i32, b: i32|
            #[trigger] heat_count(final(cells)@, a, b) == heat_count(old(cells)@, a, b) + if a == x
                && b == y {
                1nat
            } else {
                0nat
            },
{
    let mut j: usize = 0;
    while j < cells.len()
        invariant
            j <= cells@.len(),
            cells@ == old(cells)@,
            cells_distinct(cells@),
            heat_count(cells@, x, y) < u32::MAX,
            forall|k: int| 0 <= k < j ==> !(#[trigger] cells@[k].x == x && cells@[k].y == y),
        decreases cells@.len() - j,
    {
        if cells[j].x == x && cells[j].y == y {
            let c = cells[j];
            assert(has_cell(cells@, x, y));
            let ghost w = choose|k: int| 0 <= k < cells@.len() && #[trigger] cells@[k].x == x && cells@[k].y == y;
            assert(w == j as int) by {
                if w != j as int {
                    if w < j {
                        assert(!(cells@[w].x == cells@[j as int].x && cells@[w].y == cells@[j as int].y));
                    } else {
                        assert(!(cells@[j as int].x == cells@[w].x && cells@[j as int].y == cells@[w].y));
                    }
                }
            }
            cells.set(j, HeatCell { x, y, hits: c.hits + 1 });
            proof {
                let old_cells = old(cells)@;
                let new_cells = cells@;
                assert forall|a: i32, b: i32|
                    #[trigger] heat_count(new_cells, a, b) == heat_count(old_cells, a, b) + if a == x && b == y {
                        1nat
                    } else {
                        0nat
                    } by {
                    if a == x && b == y {
                        assert(new_cells[j as int].x == a && new_cells[j as int].y == b);
                        assert(has_cell(new_cells, a, b));
                        let w2 = choose|k: int| 0 <= k < new_cells.len() && #[trigger] new_cells[k].x == a && new_cells[k].y == b;
                        if w2 != j as int {
                            if w2 < j {
                                assert(!(old_cells[w2].x == old_cells[j as int].x && old_cells[w2].y == old_cells[j as int].y));
                            } else {
                                assert(!(old_cells[j as int].x == old_cells[w2].x && old_cells[j as int].y == old_cells[w2].y));
                            }
                        }
                    } else {
                        if has_cell(old_cells, a, b) {
                            let w1 = choose|k: int| 0 <= k < old_cells.len() && #[trigger] old_cells[k].x == a && old_cells[k].y == b;
                            assert(new_cells[w1].x == a && new_cells[w1].y == b);
                            assert(has_cell(new_cells, a, b));
                            let w2 = choose|k: int| 0 <= k < new_cells.len() && #[trigger] new_cells[k].x == a && new_cells[k].y == b;
                            if w1 != w2 {
                                if w1 < w2 {
                                    assert(!(old_cells[w1].x == old_cells[w2].x && old_cells[w1].y == old_cells[w2].y));
                                } else {
                                    assert(!(old_cells[w2].x == old_cells[w1].x && old_cells[w2].y == old_cells[w1].y));
                                }
                            }
                        } else {
                            if has_cell(new_cells, a, b) {
                                let w2 = choose|k: int| 0 <= k < new_cells.len() && #[trigger] new_cells[k].x == a && new_cells[k].y == b;
                                assert(old_cells[w2].x == a && old_cells[w2].y == b);
                            }
                        }
                    }
                }
            }
            return;
        }
        j = j + 1;
    }
    cells.push(HeatCell { x, y, hits: 1 });
    proof {
        let old_cells = old(cells)@;
        let new_cells = cells@;
        let last = new_cells.len() - 1;
        assert forall|a: i32, b: i32|
            #[trigger] heat_count(new_cells, a, b) == heat_count(old_cells, a, b) + if a == x && b == y {
                1nat
            } else {
                0nat
            } by {
            if a == x && b == y {
                assert(new_cells[last].x == a && new_cells[last].y == b);
                assert(has_cell(new_cells, a, b));
                let w2 = choose|k: int| 0 <= k < new_cells.len() && #[trigger] new_cells[k].x == a && new_cells[k].y == b;
                if w2 != last {
                    assert(old_cells[w2].x == x && old_cells[w2].y == y);
                }
                if has_cell(old_cells, a, b) {
                    let w1 = choose|k: int| 0 <= k < old_cells.len() && #[trigger] old_cells[k].x == a && old_cells[k].y == b;
                    assert(false);
                }
            } else {
                if has_cell(old_cells, a, b) {
                    let w1 = choose|k: int| 0 <= k < old_cells.len() && #[trigger] old_cells[k].x == a && old_cells[k].y == b;
                    assert(new_cells[w1].x == a && new_cells[w1].y == b);
                    assert(has_cell(new_cells, a, b));
                    let w2 = choose|k: int| 0 <= k < new_cells.len() && #[trigger] new_cells[k].x == a && new_cells[k].y == b;
                    if w1 != w2 {
                        if w2 == last {
                        } else if w1 < w2 {
                            assert(!(old_cells[w1].x == old_cells[w2].x && old_cells[w1].y == old_cells[w2].y));
                        } else {
                            assert(!(old_cells[w2].x == old_cells[w1].x && old_cells[w2].y == old_cells[w1].y));
                        }
                    }
                } else {
                    if has_cell(new_cells, a, b) {
                        let w2 = choose|k: int| 0 <= k < new_cells.len() && #[trigger] new_cells[k].x == a && new_cells[k].y == b;
                        assert(old_cells[w2].x == a && old_cells[w2].y == b);
                    }
                }
            }
        }
    }
}

fn bump_fingers(f: &mut HashMap<u32, u32>, n: u32)
    requires
        finger_count(old(f)@, n) < u32::MAX,
    ensures
        forall|m: u32|
            #[trigger] finger_count(final(f)@, m) == finger_count(old(f)@, m) + if m == n {
                1nat
            } else {
                0nat
            },
{
    let samples: u32 = match f.get(&n) {
        Some(v) => *v,
        None => 0,
    };
    f.insert(n, samples + 1);
}

fn lookup_fingers(f: &HashMap<u32, u32>, n: u32) -> (r: u32)
    ensures
        r == finger_count(f@, n),
{
    match f.get(&n) {
        Some(v) => *v,
        None => 0,
    }
}

fn lookup_heat(cells: &Vec<HeatCell>, x: i32, y: i32) -> (r: u32)
    requires
        cells_distinct(cells@),
    ensures
        r == heat_count(cells@, x, y),
{
    let mut j: usize = 0;
    while j < cells.len()
        invariant
            j <= cells@.len(),
            cells_distinct(cells@),
            forall|k: int| 0 <= k < j ==> !(#[trigger] cells@[k].x == x && cells@[k].y == y),
        decreases cells@.len() - j,
    {
        if cells[j].x == x && cells[j].y == y {
            assert(has_cell(cells@, x, y));
            let ghost w = choose|k: int| 0 <= k < cells@.len() && #[trigger] cells@[k].x == x && cells@[k].y == y;
            assert(w == j as int) by {
                if w < j {
                    assert(!(cells@[w].x == cells@[j as int].x && cells@[w].y == cells@[j as int].y));
                } else if w > j {
                    assert(!(cells@[j as int].x == cells@[w].x && cells@[j as int].y == cells@[w].y));
                }
            }
            return cells[j].hits;
        }
        j = j + 1;
    }
    0
}

fn count_hits(contacts: &Vec<TouchpadContact>, x: i32, y: i32) -> (r: usize)
    ensures
        r == cell_hits(contacts@, x, y),
{
    let mut r: usize = 0;
    let mut i: usize = 0;
    while i < contacts.len()
        invariant
            i <= contacts@.len(),
            r <= i,
            r == cell_hits(contacts@.take(i as int), x, y),
        decreases contacts@.len() - i,
    {
        assert(contacts@.take(i + 1).drop_last() =~= contacts@.take(i as int));
        let c = contacts[i];
        if grid_cell(c.x) == x && grid_cell(c.y) == y {
            r = r + 1;
        }
        i = i + 1;
    }
    assert(contacts@.take(contacts@.len() as int) =~= contacts@);
    r
}

proof fn lemma_hit_cell_has_contact(contacts: Seq<TouchpadContact>, x: i32, y: i32)
    requires
        cell_hits(contacts, x, y) > 0,
    ensures
        exists|k: int| 0 <= k < contacts.len() && grid(#[trigger] contacts[k].x) == x && grid(contacts[k].y) == y,
    decreases contacts.len(),
{
    let last = contacts.len() - 1;
    if grid(contacts[last].x) == x && grid(contacts[last].y) == y {
    } else {
        lemma_hit_cell_has_contact(contacts.drop_last(), x, y);
        let k = choose|k: int| 0 <= k < contacts.drop_last().len() && grid(#[trigger] contacts.drop_last()[k].x) == x
            && grid(contacts.drop_last()[k].y) == y;
        assert(contacts[k] == contacts.drop_last()[k]);
    }
}

/// The record of a key released at `now` nanoseconds.
pub open spec fn release_record(h: HeldKey, now: u64) -> KeyRecord {
    KeyRecord {
        vk_code: h.vk_code,
        key_name: h.key_name,
        shift_held: h.shift_held,
        caps_on: h.caps_on,
        hold_ms: Some(hold_ms(h.pressed_at_ns, now)),
    }
}

/// The events gathered since the last write to the database, and the
/// keys that are down.
///
/// The keys that are down are keyed by (code, extended flag) and the
/// heatmap cells by (x, y). vstd gives `HashMap` its specification only
/// for keys that obey its key model, which it grants to integers and
/// `bool` but not to tuples, so a `HashMap` keyed by such a pair could
/// not be reasoned about: both are vectors without repeated keys. The
/// finger counts, keyed by a `u32`, are a `HashMap`.
pub struct Aggregator {
    held: Vec<HeldKey>,
    keys: Vec<KeyRecord>,
    clicks: Vec<ClickRecord>,
    heatmap: Vec<HeatCell>,
    fingers: HashMap<u32, u32>,
}

impl Aggregator {
    /// The keys that are down, each once.
    pub closed spec fn held(&self) -> Seq<HeldKey> {
        self.held@
    }

    /// The released keys not written yet.
    pub closed spec fn keys(&self) -> Seq<KeyRecord> {
        self.keys@
    }

    /// The clicks not written yet.
    pub closed spec fn clicks(&self) -> Seq<ClickRecord> {
        self.clicks@
    }

    /// The heatmap cells not written yet, each once.
    pub closed spec fn heatmap(&self) -> Seq<HeatCell> {
        self.heatmap@
    }

    /// The samples not written yet, per number of fingers.
    pub closed spec fn fingers(&self) -> Map<u32, u32> {
        self.fingers@
    }

    pub open spec fn wf(&self) -> bool {
        &&& held_distinct(self.held())
        &&& cells_distinct(self.heatmap())
    }

    /// Nothing held, nothing buffered.
    pub fn new() -> (a: Self)
        ensures
            a.wf(),
            a.held().len() == 0,
            a.keys().len() == 0,
            a.clicks().len() == 0,
            a.heatmap().len() == 0,
            a.fingers() == Map::<u32, u32>::empty(),
    {
        Aggregator {
            held: Vec::new(),
            keys: Vec::new(),
            clicks: Vec::new(),
            heatmap: Vec::new(),
            fingers: HashMap::new(),
        }
    }

    fn find_held(&self, vk: u32, ext: bool) -> (r: Option<usize>)
        ensures
            match r {
                Some(j) => j < self.held().len() && self.held()[j as int].vk_code == vk
                    && self.held()[j as int].is_extended == ext,
                None => !is_held(self.held(), vk, ext),
            },
    {
        let mut j: usize = 0;
        while j < self.held.len()
            invariant
                j <= self.held@.len(),
                forall|k: int| 0 <= k < j ==> !(#[trigger] self.held@[k].vk_code == vk && self.held@[k].is_extended == ext),
            decreases self.held@.len() - j,
        {
            if self.held[j].vk_code == vk && self.held[j].is_extended == ext {
                return Some(j);
            }
            j = j + 1;
        }
        None
    }

    /// A key went down at `now` nanoseconds. A key that is already down
    /// keeps the time and state of its first press.
    pub fn key_down(
        &mut self,
        vk_code: u32,
        is_extended: bool,
        shift_held: bool,
        caps_on: bool,
        key_name: String,
        now_ns: u64,
    )
        requires
            old(self).wf(),
        ensures
            final(self).wf(),
            final(self).keys() == old(self).keys(),
            final(self).clicks() == old(self).clicks(),
            final(self).heatmap() == old(self).heatmap(),
            final(self).fingers() == old(self).fingers(),
            final(self).held() == if is_held(old(self).held(), vk_code, is_extended) {
                old(self).held()
            } else {
                old(self).held().push(
                    HeldKey { vk_code, is_extended, pressed_at_ns: now_ns, key_name, shift_held, caps_on },
                )
            },
    {
        match self.find_held(vk_code, is_extended) {
            Some(_) => {},
            None => {
                self.held.push(
                    HeldKey { vk_code, is_extended, pressed_at_ns: now_ns, key_name, shift_held, caps_on },
                );
                assert(held_distinct(self.held@)) by {
                    assert forall|a: int, b: int| 0 <= a < b < self.held@.len() implies !(#[trigger] self.held@[a].vk_code == #[trigger] self.held@[b].vk_code
                        && self.held@[a].is_extended == self.held@[b].is_extended) by {
                        if b == self.held@.len() - 1 {
                            assert(old(self).held@[a].vk_code == self.held@[a].vk_code);
                        } else {
                            assert(old(self).held@[a] == self.held@[a]);
                            assert(old(self).held@[b] == self.held@[b]);
                        }
                    }
                }
            },
        }
    }

    /// A key went up at `now` nanoseconds: if it was down, its record
    /// with the time it was held is buffered; else nothing happens.
    pub fn key_up(&mut self, vk_code: u32, is_extended: bool, now_ns: u64)
        requires
            old(self).wf(),
        ensures
            final(self).wf(),
            final(self).clicks() == old(self).clicks(),
            final(self).heatmap() == old(self).heatmap(),
            final(self).fingers() == old(self).fingers(),
            !is_held(old(self).held(), vk_code, is_extended) ==> final(self).held() == old(self).held()
                && final(self).keys() == old(self).keys(),
            is_held(old(self).held(), vk_code, is_extended) ==> exists|j: int|
                0 <= j < old(self).held().len() && #[trigger] old(self).held()[j].vk_code == vk_code
                    && old(self).held()[j].is_extended == is_extended && final(self).held() == old(
                    self,
                ).held().remove(j) && final(self).keys() == old(self).keys().push(
                    release_record(old(self).held()[j], now_ns),
                ),
            !is_held(final(self).held(), vk_code, is_extended),
    {
        match self.find_held(vk_code, is_extended) {
            Some(j) => {
                let h = self.held.remove(j);
                let hold: u64 = if now_ns >= h.pressed_at_ns {
                    (now_ns - h.pressed_at_ns) / 1_000_000
                } else {
                    0
                };
                self.keys.push(
                    KeyRecord {
                        vk_code: h.vk_code,
                        key_name: h.key_name,
                        shift_held: h.shift_held,
                        caps_on: h.caps_on,
                        hold_ms: Some(hold),
                    },
                );
                proof {
                    let oh = old(self).held@;
                    let nh = self.held@;
                    assert forall|a: int, b: int| 0 <= a < b < nh.len() implies !(#[trigger] nh[a].vk_code == #[trigger] nh[b].vk_code
                        && nh[a].is_extended == nh[b].is_extended) by {
                        let a1 = if a < j { a } else { a + 1 };
                        let b1 = if b < j { b } else { b + 1 };
                        assert(nh[a] == oh[a1]);
                        assert(nh[b] == oh[b1]);
                        assert(!(oh[a1].vk_code == oh[b1].vk_code && oh[a1].is_extended == oh[b1].is_extended));
                    }
                    if is_held(nh, vk_code, is_extended) {
                        let k = choose|k: int| 0 <= k < nh.len() && #[trigger] nh[k].vk_code == vk_code && nh[k].is_extended == is_extended;
                        let k1 = if k < j { k } else { k + 1 };
                        assert(nh[k] == oh[k1]);
                        if k1 < j {
                            assert(!(oh[k1].vk_code == oh[j as int].vk_code && oh[k1].is_extended == oh[j as int].is_extended));
                        } else {
                            assert(!(oh[j as int].vk_code == oh[k1].vk_code && oh[j as int].is_extended == oh[k1].is_extended));
                        }
                    }
                    assert(self.keys@ == old(self).keys@.push(release_record(oh[j as int], now_ns)));
                }
            },
            None => {},
        }
    }

    /// A click: its record is buffered.
    pub fn mouse_click(&mut self, button: MouseButton, x: i32, y: i32)
        requires
            old(self).wf(),
        ensures
            final(self).wf(),
            final(self).held() == old(self).held(),
            final(self).keys() == old(self).keys(),
            final(self).heatmap() == old(self).heatmap(),
            final(self).fingers() == old(self).fingers(),
            final(self).clicks().len() == old(self).clicks().len() + 1,
            final(self).clicks().take(old(self).clicks().len() as int) == old(self).clicks(),
            final(self).clicks().last().button@ == button_name(button),
            final(self).clicks().last().x == x,
            final(self).clicks().last().y == y,
    {
        let name = button.name();
        self.clicks.push(ClickRecord { button: name, x, y });
        assert(self.clicks@.take(old(self).clicks@.len() as int) =~= old(self).clicks@);
    }

    /// Whether the touchpad sample `contacts` can be counted without a
    /// counter passing `u32::MAX`.
    pub fn can_record_sample(&self, contacts: &Vec<TouchpadContact>) -> (r: bool)
        requires
            self.wf(),
        ensures
            r == sample_fits(self.fingers(), self.heatmap(), contacts@),
    {
        let count = contacts.len() as u32;
        if count == 0 {
            return true;
        }
        if lookup_fingers(&self.fingers, count) == u32::MAX {
            return false;
        }
        let mut i: usize = 0;
        while i < contacts.len()
            invariant
                i <= contacts@.len(),
                cells_distinct(self.heatmap@),
                count == contacts@.len() as u32,
                count > 0,
                finger_count(self.fingers@, count) < u32::MAX,
                forall|k: int|
                    0 <= k < i ==> heat_count(self.heatmap@, grid(#[trigger] contacts@[k].x), grid(contacts@[k].y))
                        + cell_hits(contacts@, grid(contacts@[k].x), grid(contacts@[k].y)) <= u32::MAX,
            decreases contacts@.len() - i,
        {
            let c = contacts[i];
            let gx = grid_cell(c.x);
            let gy = grid_cell(c.y);
            let stored = lookup_heat(&self.heatmap, gx, gy);
            let added = count_hits(contacts, gx, gy);
            if stored as u128 + added as u128 > u32::MAX as u128 {
                return false;
            }
            i = i + 1;
        }
        proof {
            assert forall|x: i32, y: i32|
                #[trigger] heat_count(self.heatmap@, x, y) + cell_hits(contacts@, x, y) <= u32::MAX by {
                if cell_hits(contacts@, x, y) > 0 {
                    lemma_hit_cell_has_contact(contacts@, x, y);
                    let k = choose|k: int| 0 <= k < contacts@.len() && grid(#[trigger] contacts@[k].x) == x
                        && grid(contacts@[k].y) == y;
                    assert(heat_count(self.heatmap@, grid(contacts@[k].x), grid(contacts@[k].y))
                        + cell_hits(contacts@, grid(contacts@[k].x), grid(contacts@[k].y)) <= u32::MAX);
                }
            }
        }
        true
    }

    /// A touchpad sample: when fingers are down, the sample is counted
    /// under its number of fingers and each contact in its cell.
    pub fn record_touch_sample(&mut self, contacts: &Vec<TouchpadContact>)
        requires
            old(self).wf(),
            sample_fits(old(self).fingers(), old(self).heatmap(), contacts@),
        ensures
            final(self).wf(),
            final(self).held() == old(self).held(),
            final(self).keys() == old(self).keys(),
            final(self).clicks() == old(self).clicks(),
            (contacts@.len() as u32) == 0 ==> final(self).heatmap() == old(self).heatmap()
                && final(self).fingers() == old(self).fingers(),
            (contacts@.len() as u32) > 0 ==> forall|m: u32|
                #[trigger] finger_count(final(self).fingers(), m) == finger_count(old(self).fingers(), m)
                    + if m == contacts@.len() as u32 {
                    1nat
                } else {
                    0nat
                },
            (contacts@.len() as u32) > 0 ==> forall|x: i32, y: i32|
                #[trigger] heat_count(final(self).heatmap(), x, y) == heat_count(old(self).heatmap(), x, y)
                    + cell_hits(contacts@, x, y),
    {
        let count = contacts.len() as u32;
        if count > 0 {
            bump_fingers(&mut self.fingers, count);
            let ghost fingers_after = self.fingers@;
            let mut i: usize = 0;
            while i < contacts.len()
                invariant
                    i <= contacts@.len(),
                    self.fingers@ == fingers_after,
                    forall|m: u32|
                        #[trigger] finger_count(fingers_after, m) == finger_count(old(self).fingers@, m)
                            + if m == contacts@.len() as u32 {
                            1nat
                        } else {
                            0nat
                        },
                    self.held@ == old(self).held@,
                    held_distinct(self.held@),
                    self.keys@ == old(self).keys@,
                    self.clicks@ == old(self).clicks@,
                    cells_distinct(self.heatmap@),
                    sample_fits(old(self).fingers@, old(self).heatmap@, contacts@),
                    (contacts@.len() as u32) > 0,
                    forall|x: i32, y: i32|
                        #[trigger] heat_count(self.heatmap@, x, y) == heat_count(old(self).heatmap@, x, y)
                            + cell_hits(contacts@.take(i as int), x, y),
                decreases contacts@.len() - i,
            {
                let c = contacts[i];
                let gx = grid_cell(c.x);
                let gy = grid_cell(c.y);
                proof {
                    assert(contacts@.take(i + 1).drop_last() =~= contacts@.take(i as int));
                    assert(contacts@.take(i + 1).last() == c);
                    lemma_cell_hits_prefix(contacts@, i as int + 1, gx, gy);
                    assert(heat_count(old(self).heatmap@, gx, gy) + cell_hits(contacts@, gx, gy) <= u32::MAX);
                }
                bump_heat(&mut self.heatmap, gx, gy);
                i = i + 1;
            }
            assert(contacts@.take(contacts@.len() as int) =~= contacts@);
        }
    }

    /// All keys still down are released at `now` nanoseconds, in the
    /// order they went down.
    pub fn release_all(&mut self, now_ns: u64)
        requires
            old(self).wf(),
        ensures
            final(self).wf(),
            final(self).held().len() == 0,
            final(self).keys() == old(self).keys() + old(self).held().map_values(
                |h: HeldKey| release_record(h, now_ns),
            ),
            final(self).clicks() == old(self).clicks(),
            final(self).heatmap() == old(self).heatmap(),
            final(self).fingers() == old(self).fingers(),
    {
        let mut i: usize = 0;
        while i < self.held.len()
            invariant
                self.held@ == old(self).held@,
                i <= self.held@.len(),
                self.keys@ == old(self).keys@ + old(self).held@.take(i as int).map_values(
                    |h: HeldKey| release_record(h, now_ns),
                ),
                self.clicks@ == old(self).clicks@,
                self.heatmap@ == old(self).heatmap@,
                self.fingers@ == old(self).fingers@,
            decreases self.held@.len() - i,
        {
            let h = &self.held[i];
            let hold: u64 = if now_ns >= h.pressed_at_ns {
                (now_ns - h.pressed_at_ns) / 1_000_000
            } else {
                0
            };
            let rec = KeyRecord {
                vk_code: h.vk_code,
                key_name: h.key_name.clone(),
                shift_held: h.shift_held,
                caps_on: h.caps_on,
                hold_ms: Some(hold),
            };
            self.keys.push(rec);
            assert(old(self).held@.take(i + 1) =~= old(self).held@.take(i as int).push(old(self).held@[i as int]));
            assert(self.keys@ =~= old(self).keys@ + old(self).held@.take(i + 1).map_values(
                |h: HeldKey| release_record(h, now_ns),
            ));
            i = i + 1;
        }
        assert(old(self).held@.take(old(self).held@.len() as int) =~= old(self).held@);
        self.held.clear();
    }

    /// Whether the buffers are to be written: 2 seconds passed since the
    /// last write, or 50 keys or 50 clicks or 200 heatmap cells wait.
    pub fn flush_due(&self, since_flush_nanos: u128) -> (r: bool)
        ensures
            r == (since_flush_nanos >= FLUSH_INTERVAL_NANOS || self.keys().len() >= MAX_BUFFERED_EVENTS
                || self.clicks().len() >= MAX_BUFFERED_EVENTS || self.heatmap().len()
                >= MAX_BUFFERED_CELLS),
    {
        since_flush_nanos >= FLUSH_INTERVAL_NANOS || self.keys.len() >= MAX_BUFFERED_EVENTS
            || self.clicks.len() >= MAX_BUFFERED_EVENTS || self.heatmap.len() >= MAX_BUFFERED_CELLS
    }

    /// The released keys not written yet.
    pub fn pending_keys(&self) -> (r: &Vec<KeyRecord>)
        ensures
            r@ == self.keys(),
    {
        &self.keys
    }

    /// The clicks not written yet.
    pub fn pending_clicks(&self) -> (r: &Vec<ClickRecord>)
        ensures
            r@ == self.clicks(),
    {
        &self.clicks
    }

    /// The heatmap cells not written yet.
    pub fn pending_heatmap(&self) -> (r: &Vec<HeatCell>)
        ensures
            r@ == self.heatmap(),
    {
        &self.heatmap
    }

    /// The samples not written yet, per number of fingers.
    pub fn pending_fingers(&self) -> (r: &HashMap<u32, u32>)
        ensures
            r@ == self.fingers(),
    {
        &self.fingers
    }

    /// The released keys were written.
    pub fn clear_keys(&mut self)
        requires
            old(self).wf(),
        ensures
            final(self).wf(),
            final(self).keys().len() == 0,
            final(self).held() == old(self).held(),
            final(self).clicks() == old(self).clicks(),
            final(self).heatmap() == old(self).heatmap(),
            final(self).fingers() == old(self).fingers(),
    {
        self.keys.clear();
    }

    /// The clicks were written.
    pub fn clear_clicks(&mut self)
        requires
            old(self).wf(),
        ensures
            final(self).wf(),
            final(self).clicks().len() == 0,
            final(self).held() == old(self).held(),
            final(self).keys() == old(self).keys(),
            final(self).heatmap() == old(self).heatmap(),
            final(self).fingers() == old(self).fingers(),
    {
        self.clicks.clear();
    }

    /// The heatmap was written.
    pub fn clear_heatmap(&mut self)
        requires
            old(self).wf(),
        ensures
            final(self).wf(),
            final(self).heatmap().len() == 0,
            final(self).held() == old(self).held(),
            final(self).keys() == old(self).keys(),
            final(self).clicks() == old(self).clicks(),
            final(self).fingers() == old(self).fingers(),
    {
        self.heatmap.clear();
    }

    /// The finger counts were written.
    pub fn clear_fingers(&mut self)
        requires
            old(self).wf(),
        ensures
            final(self).wf(),
            final(self).fingers() == Map::<u32, u32>::empty(),
            final(self).held() == old(self).held(),
            final(self).keys() == old(self).keys(),
            final(self).clicks() == old(self).clicks(),
            final(self).heatmap() == old(self).heatmap(),
    {
        self.fingers.clear();
    }
}

proof fn lemma_cell_hits_prefix(contacts: Seq<TouchpadContact>, k: int, x: i32, y: i32)
    requires
        0 <= k <= contacts.len(),
    ensures
        cell_hits(contacts.take(k), x, y) <= cell_hits(contacts, x, y),
    decreases contacts.len(),
{
    if k < contacts.len() {
        assert(contacts.drop_last().take(k) =~= contacts.take(k));
        lemma_cell_hits_prefix(contacts.drop_last(), k, x, y);
    } else {
        assert(contacts.take(k) =~= contacts);
    }
}

/// Whether a touchpad sample is due: 50 ms passed since the last one.
pub fn sample_due(since_sample_nanos: u128) -> (r: bool)
    ensures
        r == (since_sample_nanos >= SAMPLE_INTERVAL_NANOS),
{
    since_sample_nanos >= SAMPLE_INTERVAL_NANOS
}

/// How long to wait for the next event: until the next touchpad sample
/// is due, but at least 1 ms.
pub fn receive_wait_nanos(since_sample_nanos: u128) -> (w: u128)
    ensures
        w == if since_sample_nanos >= SAMPLE_INTERVAL_NANOS {
            MIN_WAIT_NANOS
        } else {
            (SAMPLE_INTERVAL_NANOS - since_sample_nanos) as u128
        },
{
    let left = SAMPLE_INTERVAL_NANOS.saturating_sub(since_sample_nanos);
    if left == 0 {
        MIN_WAIT_NANOS
    } else {
        left
    }
}

/// A heatmap cell starts at a multiple of 20, on the same side of zero
/// as the coordinate, less than 20 closer to zero than it.
pub proof fn lemma_grid_cell(v: i32)
    ensures
        grid(v) % 20 == 0,
        v >= 0 ==> 0 <= grid(v) <= v < grid(v) + 20,
        v < 0 ==> grid(v) - 20 < v <= grid(v) <= 0,
{
}

/// A key released after it was pressed, with no other key event of it
/// between, yields exactly one record: that of the press, with the time
/// it was held; and the held keys are again those before the press.
pub proof fn lemma_press_then_release(held: Seq<HeldKey>, k: HeldKey, now: u64)
    requires
        held_distinct(held),
        !is_held(held, k.vk_code, k.is_extended),
    ensures
        is_held(held.push(k), k.vk_code, k.is_extended),
        forall|j: int|
            0 <= j < held.push(k).len() && #[trigger] held.push(k)[j].vk_code == k.vk_code
                && held.push(k)[j].is_extended == k.is_extended ==> j == held.len() && held.push(
                k,
            ).remove(j) == held && release_record(held.push(k)[j], now) == release_record(k, now),
{
    let pushed = held.push(k);
    assert(pushed[held.len() as int].vk_code == k.vk_code);
    assert forall|j: int|
        0 <= j < pushed.len() && #[trigger] pushed[j].vk_code == k.vk_code && pushed[j].is_extended
            == k.is_extended implies j == held.len() && pushed.remove(j) == held && release_record(
        pushed[j],
        now,
    ) == release_record(k, now) by {
        if j < held.len() {
            assert(held[j].vk_code == k.vk_code && held[j].is_extended == k.is_extended);
            assert(is_held(held, k.vk_code, k.is_extended));
        }
        assert(pushed.remove(j) =~= held);
    }
}

} // verus!
