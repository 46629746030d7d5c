//! Detection of keyboard shortcuts in the key history: a key pressed
//! within 200 ms after a modifier forms a combination such as `Ctrl+C`,
//! and the most frequent combinations are reported.

use crate::text::same_text;
use vstd::prelude::*;

verus! {

/// How many of the latest modifier presses are remembered.
pub const MAX_RECENT_MODIFIERS: usize = 4;

/// A key counts as combined with a modifier pressed at most this many
/// milliseconds before it.
pub const COMBO_WINDOW_MS: i64 = 200;

/// How many combinations are reported.
pub const MAX_COMBOS: usize = 15;

/// One row of the key history: the key's name and when it was pressed,
/// in milliseconds since the epoch.
#[derive(Debug, Clone)]
pub struct KeyPress {
    pub key_name: String,
    pub ts_ms: i64,
}

/// A recent modifier press: its label (0 Ctrl, 1 Shift, 2 Alt, 3 Win),
/// its time, and whether a key was already combined with it.
#[derive(Debug, Clone, Copy, PartialEq, Eq, Structural)]
pub struct ModifierPress {
    pub label: u8,
    pub ts_ms: i64,
    pub used: bool,
}

/// A combination and how often it occurred.
#[derive(Debug, Clone, PartialEq, Eq)]
pub struct ComboCount {
    pub combo: String,
    pub count: u64,
}

/// The label of a modifier key, or `None` for any other key.
pub open spec fn modifier_label(name: Seq<char>) -> Option<u8> {
    if name == "LCtrl"@ || name == "RCtrl"@ {
        Some(0u8)
    } else if name == "LShift"@ || name == "RShift"@ {
        Some(1u8)
    } else if name == "LAlt"@ || name == "RAlt"@ {
        Some(2u8)
    } else if name == "Win"@ {
        Some(3u8)
    } else {
        None
    }
}

/// The text of a modifier label.
pub open spec fn label_text(label: u8) -> Seq<char> {
    if label == 0 {
        "Ctrl"@
    } else if label == 1 {
        "Shift"@
    } else if label == 2 {
        "Alt"@
    } else {
        "Win"@
    }
}

/// The text of a combination, such as `Ctrl+C`.
pub open spec fn combo_text(label: u8, name: Seq<char>) -> Seq<char> {
    label_text(label) + "+"@ + name
}

/// Whether a key pressed at `ts` combines with the modifier press `m`.
pub open spec fn combines(m: ModifierPress, ts: i64) -> bool {
    !m.used && 0 <= ts - m.ts_ms <= COMBO_WINDOW_MS
}

/// The latest of the first `k` modifier presses that a key pressed at
/// `ts` combines with.
pub open spec fn pick_modifier(mods: Seq<ModifierPress>, ts: i64, k: int) -> Option<int>
    decreases k,
{
    if k <= 0 {
        None
    } else if combines(mods[k - 1], ts) {
        Some(k - 1)
    } else {
        pick_modifier(mods, ts, k - 1)
    }
}

/// One key press: a modifier is remembered (the oldest of five is
/// forgotten); another key is combined with the latest unused modifier
/// pressed at most 200 ms before it, which is then used.
pub open spec fn combo_step(mods: Seq<ModifierPress>, name: Seq<char>, ts: i64) -> (
    Seq<ModifierPress>,
    Option<Seq<char>>,
) {
    match modifier_label(name) {
        Some(l) => {
            let pushed = mods.push(ModifierPress { label: l, ts_ms: ts, used: false });
            (
                if pushed.len() > MAX_RECENT_MODIFIERS {
                    pushed.drop_first()
                } else {
                    pushed
                },
                None,
            )
        },
        None => match pick_modifier(mods, ts, mods.len() as int) {
            Some(j) => (
                mods.update(j, ModifierPress { label: mods[j].label, ts_ms: mods[j].ts_ms, used: true }),
                Some(combo_text(mods[j].label, name)),
            ),
            None => (mods, None),
        },
    }
}

/// The recent modifiers after a history, and the combinations found in
/// it, in order.
pub open spec fn combo_scan(presses: Seq<(Seq<char>, i64)>) -> (Seq<ModifierPress>, Seq<Seq<char>>)
    decreases presses.len(),
{
    if presses.len() == 0 {
        (Seq::empty(), Seq::empty())
    } else {
        let (mods, events) = combo_scan(presses.drop_last());
        let (mods2, c) = combo_step(mods, presses.last().0, presses.last().1);
        (
            mods2,
            match c {
                Some(x) => events.push(x),
                None => events,
            },
        )
    }
}

/// The combinations found in a key history, in order.
pub open spec fn combo_events(presses: Seq<(Seq<char>, i64)>) -> Seq<Seq<char>> {
    combo_scan(presses).1
}

/// The key history as names and times.
pub open spec fn presses_view(presses: Seq<KeyPress>) -> Seq<(Seq<char>, i64)> {
    presses.map_values(|p: KeyPress| (p.key_name@, p.ts_ms))
}

/// How often `c` occurs in `s`.
pub open spec fn occurrences(s: Seq<Seq<char>>, c: Seq<char>) -> nat
    decreases s.len(),
{
    if s.len() == 0 {
        0
    } else {
        occurrences(s.drop_last(), c) + if s.last() == c {
            1nat
        } else {
            0nat
        }
    }
}

/// Whether `c` is the combination of one of the entries.
pub open spec fn lists_combo(entries: Seq<ComboCount>, c: Seq<char>) -> bool {
    exists|a: int| 0 <= a < entries.len() && #[trigger] entries[a].combo@ == c
}

/// `out` lists the most frequent combinations of `events`: at most 15,
/// each once, with its number of occurrences, most frequent first; a
/// combination that is left out occurs no more often than the last one
/// listed, and is only left out when 15 are listed.
pub open spec fn is_top_combos(out: Seq<ComboCount>, events: Seq<Seq<char>>) -> bool {
    &&& out.len() <= MAX_COMBOS
    &&& forall|a: int, b: int| 0 <= a < b < out.len() ==> #[trigger] out[a].combo@ != #[trigger] out[b].combo@
    &&& forall|a: int|
        0 <= a < out.len() ==> #[trigger] out[a].count == occurrences(events, out[a].combo@)
            && out[a].count > 0
    &&& forall|a: int, b: int| 0 <= a < b < out.len() ==> #[trigger] out[a].count >= #[trigger] out[b].count
    &&& forall|i: int|
        0 <= i < events.len() ==> #[trigger] lists_combo(out, events[i]) || (out.len() == MAX_COMBOS
            && occurrences(events, events[i]) <= out[MAX_COMBOS - 1].count)
}

/// The tally of combinations found so far: each once, with its number of
/// occurrences, every combination found is in it.
pub open spec fn tally_ok(tally: Seq<ComboCount>, events: Seq<Seq<char>>, bound: nat) -> bool {
    &&& forall|a: int, b: int| 0 <= a < b < tally.len() ==> #[trigger] tally[a].combo@ != #[trigger] tally[b].combo@
    &&& forall|a: int|
        0 <= a < tally.len() ==> #[trigger] tally[a].count == occurrences(events, tally[a].combo@)
            && tally[a].count > 0 && tally[a].count <= bound
    &&& forall|i: int| 0 <= i < events.len() ==> #[trigger] lists_combo(tally, events[i])
}

proof fn lemma_occurrences_push(s: Seq<Seq<char>>, e: Seq<char>, c: Seq<char>)
    ensures
        occurrences(s.push(e), c) == occurrences(s, c) + if e == c {
            1nat
        } else {
            0nat
        },
{
    assert(s.push(e).drop_last() =~= s);
}

fn modifier_label_of(name: &str) -> (r: Option<u8>)
    ensures
        r == modifier_label(name@),
{
    if same_text(name, "LCtrl") || same_text(name, "RCtrl") {
        Some(0)
    } else if same_text(name, "LShift") || same_text(name, "RShift") {
        Some(1)
    } else if same_text(name, "LAlt") || same_text(name, "RAlt") {
        Some(2)
    } else if same_text(name, "Win") {
        Some(3)
    } else {
        None
    }
}

fn combo_string(label: u8, name: &str) -> (s: String)
    ensures
        s@ == combo_text(label, name@),
{
    let mut s = if label == 0 {
        String::from_str("Ctrl")
    } else if label == 1 {
        String::from_str("Shift")
    } else if label == 2 {
        String::from_str("Alt")
    } else {
        String::from_str("Win")
    };
    s.append("+");
    s.append(name);
    s
}

fn pick_recent(mods: &Vec<ModifierPress>, ts: i64) -> (r: Option<usize>)
    ensures
        match r {
            Some(j) => pick_modifier(mods@, ts, mods@.len() as int) == Some(j as int),
            None => pick_modifier(mods@, ts, mods@.len() as int) is None,
        },
{
    let mut k = mods.len();
    while k > 0
        invariant
            k <= mods@.len(),
            pick_modifier(mods@, ts, mods@.len() as int) == pick_modifier(mods@, ts, k as int),
        decreases k,
    {
        let m = mods[k - 1];
        let diff: i128 = (ts as i128) - (m.ts_ms as i128);
        if !m.used && 0 <= diff && diff <= 200 {
            return Some(k - 1);
        }
        k = k - 1;
    }
    None
}

fn record_combo(
    tally: &mut Vec<ComboCount>,
    combo: String,
    Ghost(events): Ghost<Seq<Seq<char>>>,
    Ghost(bound): Ghost<nat>,
)
    requires
        tally_ok(old(tally)@, events, bound),
        bound < u64::MAX,
    ensures
        tally_ok(final(tally)@, events.push(combo@), bound + 1),
{
    let ghost new_events = events.push(combo@);
    proof {
        assert forall|c: Seq<char>| #[trigger] occurrences(new_events, c) == occurrences(events, c) + if combo@ == c {
            1nat
        } else {
            0nat
        } by {
            lemma_occurrences_push(events, combo@, c);
        }
    }
    let mut found: Option<usize> = None;
    let mut a: usize = 0;
    while a < tally.len()
        invariant
            a <= tally@.len(),
            tally@ == old(tally)@,
            match found {
                Some(f) => f < tally@.len() && tally@[f as int].combo@ == combo@,
                None => forall|b: int| 0 <= b < a ==> #[trigger] tally@[b].combo@ != combo@,
            },
        decreases tally@.len() - a,
    {
        if found.is_none() && tally[a].combo == combo {
            found = Some(a);
        }
        a = a + 1;
    }
    match found {
        Some(f) => {
            let n = tally[f].count;
            let entry = ComboCount { combo: tally[f].combo.clone(), count: n + 1 };
            tally.set(f, entry);
            assert forall|i: int| 0 <= i < new_events.len() implies #[trigger] lists_combo(tally@, new_events[i]) by {
                if i < events.len() {
                    assert(new_events[i] == events[i]);
                    assert(lists_combo(old(tally)@, events[i]));
                    let b = choose|b: int| 0 <= b < old(tally)@.len() && #[trigger] old(tally)@[b].combo@ == events[i];
                    assert(tally@[b].combo@ == new_events[i]);
                } else {
                    assert(tally@[f as int].combo@ == new_events[i]);
                }
            }
        },
        None => {
            let entry = ComboCount { combo, count: 1 };
            assert(occurrences(events, combo@) == 0) by {
                if occurrences(events, combo@) > 0 {
                    lemma_occurrences_positive_contains(events, combo@);
                    let i = choose|i: int| 0 <= i < events.len() && events[i] == combo@;
                    assert(lists_combo(tally@, events[i]));
                    let b = choose|b: int| 0 <= b < tally@.len() && #[trigger] tally@[b].combo@ == events[i];
                    assert(tally@[b].combo@ != combo@);
                }
            }
            tally.push(entry);
            assert forall|i: int| 0 <= i < new_events.len() implies #[trigger] lists_combo(tally@, new_events[i]) by {
                if i < events.len() {
                    assert(new_events[i] == events[i]);
                    assert(lists_combo(old(tally)@, events[i]));
                    let b = choose|b: int| 0 <= b < old(tally)@.len() && #[trigger] old(tally)@[b].combo@ == events[i];
                    assert(tally@[b].combo@ == new_events[i]);
                } else {
                    assert(tally@[tally@.len() - 1].combo@ == new_events[i]);
                }
            }
        },
    }
}

proof fn lemma_pick_in_range(mods: Seq<ModifierPress>, ts: i64, k: int)
    ensures
        pick_modifier(mods, ts, k) matches Some(j) ==> 0 <= j < k,
    decreases k,
{
    if k > 0 {
        lemma_pick_in_range(mods, ts, k - 1);
    }
}

proof fn lemma_occurrences_positive_contains(s: Seq<Seq<char>>, c: Seq<char>)
    requires
        occurrences(s, c) > 0,
    ensures
        exists|i: int| 0 <= i < s.len() && s[i] == c,
    decreases s.len(),
{
    if s.last() == c {
        assert(s[s.len() - 1] == c);
    } else {
        lemma_occurrences_positive_contains(s.drop_last(), c);
        let i = choose|i: int| 0 <= i < s.drop_last().len() && s.drop_last()[i] == c;
        assert(s[i] == c);
    }
}

/// Counts the combinations of a key history and returns the most
/// frequent ones.
pub fn top_key_combos(presses: &Vec<KeyPress>) -> (out: Vec<ComboCount>)
    ensures
        is_top_combos(out@, combo_events(presses_view(presses@))),
{
    let ghost views = presses_view(presses@);
    let mut mods: Vec<ModifierPress> = Vec::new();
    let mut tally: Vec<ComboCount> = Vec::new();
    let ghost mut events: Seq<Seq<char>> = Seq::empty();
    let mut i: usize = 0;
    while i < presses.len()
        invariant
            views == presses_view(presses@),
            i <= presses@.len(),
            (mods@, events) == combo_scan(views.take(i as int)),
            tally_ok(tally@, events, i as nat),
        decreases presses@.len() - i,
    {
        let name = presses[i].key_name.as_str();
        let ts = presses[i].ts_ms;
        assert(views.take(i + 1).drop_last() =~= views.take(i as int));
        assert(views.take(i + 1).last() == (name@, ts));
        match modifier_label_of(name) {
            Some(l) => {
                mods.push(ModifierPress { label: l, ts_ms: ts, used: false });
                if mods.len() > MAX_RECENT_MODIFIERS {
                    mods.remove(0);
                    assert(mods@ =~= combo_step(combo_scan(views.take(i as int)).0, name@, ts).0);
                }
                assert(tally_ok(tally@, events, (i + 1) as nat));
                proof {
                    assert forall|a: int| 0 <= a < tally@.len() implies #[trigger] tally@[a].count <= (i + 1) as nat by {}
                }
            },
            None => {
                match pick_recent(&mods, ts) {
                    Some(j) => {
                        proof {
                            lemma_pick_in_range(mods@, ts, mods@.len() as int);
                        }
                        let m = mods[j];
                        mods.set(j, ModifierPress { label: m.label, ts_ms: m.ts_ms, used: true });
                        let combo = combo_string(m.label, name);
                        record_combo(&mut tally, combo, Ghost(events), Ghost(i as nat));
                        proof {
                            events = events.push(combo_text(m.label, name@));
                        }
                        assert(tally_ok(tally@, events, (i + 1) as nat));
                    },
                    None => {
                        proof {
                            assert forall|a: int| 0 <= a < tally@.len() implies #[trigger] tally@[a].count <= (i + 1) as nat by {}
                        }
                    },
                }
            },
        }
        i = i + 1;
    }
    assert(views.take(presses@.len() as int) =~= views);
    select_top(&tally, Ghost(events))
}

/// Picks the most frequent entries of a tally, most frequent first; of
/// equally frequent entries the earlier comes first.
fn select_top(tally: &Vec<ComboCount>, Ghost(events): Ghost<Seq<Seq<char>>>) -> (out: Vec<ComboCount>)
    requires
        exists|b: nat| tally_ok(tally@, events, b),
    ensures
        is_top_combos(out@, events),
{
    let n = tally.len();
    let mut taken: Vec<bool> = Vec::new();
    let mut k: usize = 0;
    while k < n
        invariant
            n == tally@.len(),
            k <= n,
            taken@.len() == k,
            forall|j: int| 0 <= j < k ==> !#[trigger] taken@[j],
        decreases n - k,
    {
        taken.push(false);
        k = k + 1;
    }
    let mut out: Vec<ComboCount> = Vec::new();
    let ghost mut chosen: Seq<int> = Seq::empty();
    let mut exhausted = false;
    while out.len() < MAX_COMBOS && !exhausted
        invariant
            n == tally@.len(),
            taken@.len() == n,
            out@.len() == chosen.len(),
            out@.len() <= MAX_COMBOS,
            forall|j: int| 0 <= j < chosen.len() ==> 0 <= #[trigger] chosen[j] < n && taken@[chosen[j]],
            forall|j1: int, j2: int| 0 <= j1 < j2 < chosen.len() ==> #[trigger] chosen[j1] != #[trigger] chosen[j2],
            forall|k2: int| 0 <= k2 < n && #[trigger] taken@[k2] ==> exists|j: int| 0 <= j < chosen.len() && chosen[j] == k2,
            forall|j: int|
                0 <= j < chosen.len() ==> #[trigger] out@[j].combo@ == tally@[chosen[j]].combo@
                    && out@[j].count == tally@[chosen[j]].count,
            forall|j1: int, j2: int| 0 <= j1 < j2 < out@.len() ==> #[trigger] out@[j1].count >= #[trigger] out@[j2].count,
            forall|k2: int, j: int|
                0 <= k2 < n && !taken@[k2] && 0 <= j < out@.len() ==> #[trigger] tally@[k2].count <= #[trigger] out@[j].count,
            exhausted ==> forall|k2: int| 0 <= k2 < n ==> #[trigger] taken@[k2],
        decreases MAX_COMBOS - out@.len(), if exhausted { 0int } else { 1int },
    {
        let mut best: Option<usize> = None;
        let mut k: usize = 0;
        while k < n
            invariant
                n == tally@.len(),
                taken@.len() == n,
                k <= n,
                match best {
                    Some(b) => b < k && !taken@[b as int] && forall|k2: int|
                        0 <= k2 < k && !taken@[k2] ==> #[trigger] tally@[k2].count <= tally@[b as int].count,
                    None => forall|k2: int| 0 <= k2 < k ==> #[trigger] taken@[k2],
                },
            decreases n - k,
        {
            if !taken[k] {
                match best {
                    Some(b) => {
                        if tally[k].count > tally[b].count {
                            best = Some(k);
                        }
                    },
                    None => {
                        best = Some(k);
                    },
                }
            }
            k = k + 1;
        }
        match best {
            Some(b) => {
                let ghost old_taken = taken@;
                let ghost old_out = out@;
                taken.set(b, true);
                out.push(ComboCount { combo: tally[b].combo.clone(), count: tally[b].count });
                proof {
                    let old_chosen = chosen;
                    chosen = chosen.push(b as int);
                    assert forall|j1: int, j2: int| 0 <= j1 < j2 < chosen.len() implies #[trigger] chosen[j1] != #[trigger] chosen[j2] by {
                        if j2 == chosen.len() - 1 {
                            assert(old_taken[old_chosen[j1]]);
                        }
                    }
                    assert forall|k2: int| 0 <= k2 < n && #[trigger] taken@[k2] implies exists|j: int| 0 <= j < chosen.len() && chosen[j] == k2 by {
                        if k2 == b {
                            assert(chosen[chosen.len() - 1] == k2);
                        } else {
                            assert(old_taken[k2]);
                            let j = choose|j: int| 0 <= j < old_chosen.len() && old_chosen[j] == k2;
                            assert(chosen[j] == k2);
                        }
                    }
                    assert forall|j1: int, j2: int| 0 <= j1 < j2 < out@.len() implies #[trigger] out@[j1].count >= #[trigger] out@[j2].count by {
                        if j2 == out@.len() - 1 {
                            assert(old_out[j1] == out@[j1]);
                            assert(tally@[b as int].count <= old_out[j1].count);
                        }
                    }
                    assert forall|k2: int, j: int| 0 <= k2 < n && !taken@[k2] && 0 <= j < out@.len() implies #[trigger] tally@[k2].count <= #[trigger] out@[j].count by {
                        assert(!old_taken[k2]);
                        if j < old_out.len() {
                            assert(old_out[j] == out@[j]);
                        }
                    }
                }
            },
            None => {
                exhausted = true;
            },
        }
    }
    proof {
        let b = choose|b: nat| tally_ok(tally@, events, b);
        assert forall|a1: int, a2: int| 0 <= a1 < a2 < out@.len() implies #[trigger] out@[a1].combo@ != #[trigger] out@[a2].combo@ by {
            let c1 = chosen[a1];
            let c2 = chosen[a2];
            if c1 < c2 {
                assert(tally@[c1].combo@ != tally@[c2].combo@);
            } else {
                assert(tally@[c2].combo@ != tally@[c1].combo@);
            }
        }
        assert forall|a: int| 0 <= a < out@.len() implies #[trigger] out@[a].count == occurrences(events, out@[a].combo@)
            && out@[a].count > 0 by {
            assert(tally@[chosen[a]].count == occurrences(events, tally@[chosen[a]].combo@));
        }
        assert forall|i: int| 0 <= i < events.len() implies #[trigger] lists_combo(out@, events[i])
            || (out@.len() == MAX_COMBOS && occurrences(events, events[i]) <= out@[MAX_COMBOS - 1].count) by {
            assert(lists_combo(tally@, events[i]));
            let t = choose|t: int| 0 <= t < tally@.len() && #[trigger] tally@[t].combo@ == events[i];
            if taken@[t] {
                let j = choose|j: int| 0 <= j < chosen.len() && chosen[j] == t;
                assert(out@[j].combo@ == events[i]);
            } else {
                assert(!exhausted);
                assert(out@.len() == MAX_COMBOS);
                assert(tally@[t].count <= out@[MAX_COMBOS - 1].count);
            }
        }
    }
    out
}

/// Each of LCtrl, RCtrl, LShift, RShift, LAlt, RAlt and Win is a
/// modifier: a key that is none of them, pressed 0 to 200 ms after a
/// single press of one, forms exactly one combination, named by the
/// modifier without its side (Ctrl, Shift, Alt, Win), `+` and the key.
pub proof fn lemma_modifier_then_key(m: Seq<char>, k: Seq<char>, t0: i64, t1: i64)
    requires
        0 <= t1 - t0 <= 200,
        k != "LCtrl"@,
        k != "RCtrl"@,
        k != "LShift"@,
        k != "RShift"@,
        k != "LAlt"@,
        k != "RAlt"@,
        k != "Win"@,
    ensures
        m == "LCtrl"@ || m == "RCtrl"@ ==> combo_events(seq![(m, t0), (k, t1)]) == seq![
            "Ctrl"@ + "+"@ + k,
        ],
        m == "LShift"@ || m == "RShift"@ ==> combo_events(seq![(m, t0), (k, t1)]) == seq![
            "Shift"@ + "+"@ + k,
        ],
        m == "LAlt"@ || m == "RAlt"@ ==> combo_events(seq![(m, t0), (k, t1)]) == seq![
            "Alt"@ + "+"@ + k,
        ],
        m == "Win"@ ==> combo_events(seq![(m, t0), (k, t1)]) == seq!["Win"@ + "+"@ + k],
{
    reveal_strlit("LCtrl");
    reveal_strlit("RCtrl");
    reveal_strlit("LShift");
    reveal_strlit("RShift");
    reveal_strlit("LAlt");
    reveal_strlit("RAlt");
    reveal_strlit("Win");
    reveal_strlit("Ctrl");
    reveal_strlit("Shift");
    reveal_strlit("Alt");
    assert("LCtrl"@.len() == 5 && "RCtrl"@.len() == 5);
    assert("LShift"@.len() == 6 && "RShift"@.len() == 6);
    assert("LAlt"@.len() == 4 && "RAlt"@.len() == 4);
    assert("Win"@.len() == 3);
    let p = seq![(m, t0), (k, t1)];
    assert(p.drop_last() =~= seq![(m, t0)]);
    assert(seq![(m, t0)].drop_last() =~= Seq::<(Seq<char>, i64)>::empty());
    assert(modifier_label(k) is None);
    if modifier_label(m) is Some {
        let l = modifier_label(m).unwrap();
        let mods = seq![ModifierPress { label: l, ts_ms: t0, used: false }];
        let s1 = seq![(m, t0)];
        assert(s1.last() == (m, t0));
        let e0 = Seq::<(Seq<char>, i64)>::empty();
        assert(s1.drop_last() == e0);
        assert(combo_scan(e0) == (Seq::<ModifierPress>::empty(), Seq::<Seq<char>>::empty()));
        let st = combo_step(Seq::<ModifierPress>::empty(), m, t0);
        assert(Seq::<ModifierPress>::empty().push(ModifierPress { label: l, ts_ms: t0, used: false }) =~= mods);
        assert(st.0 == mods);
        assert(st.1 is None);
        assert(combo_scan(s1).0 =~= mods);
        assert(combo_scan(s1).1 =~= Seq::<Seq<char>>::empty());
        assert(pick_modifier(mods, t1, 1) == Some(0int));
        assert(combo_events(p) =~= seq![combo_text(l, k)]);
    }
}

/// A key forms no combination with a modifier pressed after it or more
/// than 200 ms before it, and a modifier press combines with one key
/// only: of two keys pressed within 200 ms after a single modifier press,
/// only the first forms a combination.
pub proof fn lemma_combination_window_and_single_use(
    m: Seq<char>,
    k: Seq<char>,
    k2: Seq<char>,
    t0: i64,
    t1: i64,
    t2: i64,
)
    requires
        m == "LCtrl"@ || m == "RCtrl"@ || m == "LShift"@ || m == "RShift"@ || m == "LAlt"@ || m
            == "RAlt"@ || m == "Win"@,
        k != "LCtrl"@ && k != "RCtrl"@ && k != "LShift"@ && k != "RShift"@ && k != "LAlt"@ && k
            != "RAlt"@ && k != "Win"@,
        k2 != "LCtrl"@ && k2 != "RCtrl"@ && k2 != "LShift"@ && k2 != "RShift"@ && k2 != "LAlt"@
            && k2 != "RAlt"@ && k2 != "Win"@,
    ensures
        t1 - t0 > 200 || t1 < t0 ==> combo_events(seq![(m, t0), (k, t1)]).len() == 0,
        0 <= t1 - t0 <= 200 && 0 <= t2 - t0 <= 200 ==> combo_events(
            seq![(m, t0), (k, t1), (k2, t2)],
        ).len() == 1,
{
    reveal_strlit("LCtrl");
    reveal_strlit("RCtrl");
    reveal_strlit("LShift");
    reveal_strlit("RShift");
    reveal_strlit("LAlt");
    reveal_strlit("RAlt");
    reveal_strlit("Win");
    assert("LCtrl"@.len() == 5 && "RCtrl"@.len() == 5);
    assert("LShift"@.len() == 6 && "RShift"@.len() == 6);
    assert("LAlt"@.len() == 4 && "RAlt"@.len() == 4);
    assert("Win"@.len() == 3);
    assert(modifier_label(m) is Some);
    assert(modifier_label(k) is None);
    assert(modifier_label(k2) is None);
    let l = modifier_label(m).unwrap();
    let e0 = Seq::<(Seq<char>, i64)>::empty();
    let s1 = seq![(m, t0)];
    let mods = seq![ModifierPress { label: l, ts_ms: t0, used: false }];
    assert(s1.drop_last() == e0);
    assert(combo_scan(e0) == (Seq::<ModifierPress>::empty(), Seq::<Seq<char>>::empty()));
    assert(Seq::<ModifierPress>::empty().push(ModifierPress { label: l, ts_ms: t0, used: false }) =~= mods);
    assert(combo_scan(s1).0 =~= mods);
    assert(combo_scan(s1).1 =~= Seq::<Seq<char>>::empty());
    let s2 = seq![(m, t0), (k, t1)];
    assert(s2.drop_last() =~= s1);
    if t1 - t0 > 200 || t1 < t0 {
        assert(pick_modifier(mods, t1, 0) is None);
        assert(pick_modifier(mods, t1, 1) is None);
        assert(combo_scan(s2).1 =~= Seq::<Seq<char>>::empty());
    }
    if 0 <= t1 - t0 <= 200 && 0 <= t2 - t0 <= 200 {
        assert(pick_modifier(mods, t1, 1) == Some(0int));
        let used = mods.update(0, ModifierPress { label: l, ts_ms: t0, used: true });
        assert(combo_scan(s2).0 == used);
        assert(combo_scan(s2).1.len() == 1);
        assert(pick_modifier(used, t2, 0) is None);
        assert(pick_modifier(used, t2, 1) is None);
        let s3 = seq![(m, t0), (k, t1), (k2, t2)];
        assert(s3.drop_last() =~= s2);
        assert(combo_scan(s3).1 == combo_scan(s2).1);
    }
}

} // verus!
