//! Pointer tracking: taps strike the nearest string, drags strum across strings.
use crate::notes::UnkeyedNote;
use crate::strum::{
    crossings_view, detect_crossings, lemma_crossing_notes_within, notes_within, strum_crossings,
    Coord, StrumCrossing,
};
use std::collections::HashMap;
use vstd::prelude::*;
use vstd::std_specs::iter::IteratorSpec;

verus! {

#[derive(Clone, Copy, Debug, Eq, Hash, PartialEq, Structural)]
pub struct PointerId(pub u64);

#[derive(Clone, Copy, Debug, Eq, PartialEq, Structural)]
pub enum TouchPhase {
    Down,
    Move,
    Up,
    Cancel,
}

/// One sample of a pointer. Positions are in thousandths: `x` of a pixel, `y_norm` of the
/// screen height from the top, `pressure` of full pressure.
#[derive(Clone, Copy, Debug, PartialEq, Eq, Structural)]
pub struct TouchEvent {
    pub id: PointerId,
    pub phase: TouchPhase,
    pub x: Coord,
    pub y_norm: i32,
    pub pressure: i32,
}

/// A value for each pointer that holds one, keyed by the pointer's number.
pub struct PointerMap<V> {
    entries: HashMap<u64, V>,
}

impl<V: Copy> PointerMap<V> {
    pub closed spec fn view(&self) -> Map<u64, V> {
        self.entries@
    }

    /// The map holds finitely many pointers.
    pub closed spec fn wf(&self) -> bool {
        self.entries@.dom().finite()
    }

    pub fn new() -> (r: Self)
        ensures
            r.wf(),
            r@ == Map::<u64, V>::empty(),
    {
        let r = PointerMap { entries: HashMap::new() };
        assert(r.entries@.dom() =~= Set::<u64>::empty());
        r
    }

    /// The value that pointer `k` holds, if any.
    pub fn get(&self, k: PointerId) -> (r: Option<V>)
        requires
            self.wf(),
        ensures
            r == (if self@.contains_key(k.0) {
                Some(self@[k.0])
            } else {
                None::<V>
            }),
    {
        match self.entries.get(&k.0) {
            Some(v) => Some(*v),
            None => None,
        }
    }

    /// Gives pointer `k` the value `v`; returns what it held before.
    pub fn insert(&mut self, k: PointerId, v: V) -> (r: Option<V>)
        requires
            old(self).wf(),
        ensures
            final(self).wf(),
            final(self)@ == old(self)@.insert(k.0, v),
            r == (if old(self)@.contains_key(k.0) {
                Some(old(self)@[k.0])
            } else {
                None::<V>
            }),
    {
        self.entries.insert(k.0, v)
    }

    /// Forgets pointer `k`; returns what it held.
    pub fn remove(&mut self, k: PointerId) -> (r: Option<V>)
        requires
            old(self).wf(),
        ensures
            final(self).wf(),
            final(self)@ == old(self)@.remove(k.0),
            r == (if old(self)@.contains_key(k.0) {
                Some(old(self)@[k.0])
            } else {
                None::<V>
            }),
    {
        let r = self.entries.remove(&k.0);
        proof {
            assert(self.entries@ =~= old(self)@.remove(k.0));
        }
        r
    }

    /// Every value held, one per pointer.
    pub fn values(&self) -> (r: Vec<V>)
        requires
            self.wf(),
        ensures
            forall|v: V| r@.contains(v) <==> self@.values().contains(v),
    {
        let ghost vals = vstd::std_specs::hash::spec_values_iter(&self.entries).remaining().unref();
        let mut out: Vec<V> = Vec::new();
        for x in it: self.entries.values()
            invariant
                vals == it.seq().unref(),
                out@.len() == it.index(),
                forall|j: int| 0 <= j < it.index() ==> out@[j] == vals[j],
        {
            out.push(*x);
        }
        proof {
            let rem = vstd::std_specs::hash::spec_values_iter(&self.entries).remaining();
            assert(rem.unref().to_set() == self.entries@.values());
            assert(out@ =~= vals);
            assert forall|v: V| out@.contains(v) <==> self@.values().contains(v) by {
                if out@.contains(v) {
                    assert(vals.to_set().contains(v));
                }
                if self@.values().contains(v) {
                    assert(vals.to_set().contains(v));
                }
            }
        }
        out
    }
}

/// Result of processing a touch or mouse event.
#[derive(Clone, Debug, PartialEq)]
pub struct TouchOutput {
    /// With "play on tap", a touch-down strikes the nearest string that no pointer holds.
    pub strike: Option<UnkeyedNote>,
    /// String positions passed over since the pointer's last sample.
    pub crossings: Vec<StrumCrossing>,
}

/// The notes that pointers hold by a strike, as note numbers.
pub open spec fn struck_notes(m: Map<u64, UnkeyedNote>) -> Set<int> {
    Set::new(|n: int| exists|k: u64| #[trigger] m.contains_key(k) && m[k].0 == n)
}

/// Whether a tap may strike note `i`: the caller allows it and no pointer holds it.
pub open spec fn can_strike(allowed: Seq<bool>, struck: Set<int>, i: int) -> bool {
    0 <= i < allowed.len() && allowed[i] && !struck.contains(i)
}

pub open spec fn dist(p: Seq<Coord>, i: int, x: int) -> int {
    if p[i] >= x {
        p[i] - x
    } else {
        x - p[i]
    }
}

/// Among the first `n` notes that a tap may strike, the one closest to `x`; the lowest
/// index wins a tie.
pub open spec fn nearest_upto(
    p: Seq<Coord>,
    x: int,
    allowed: Seq<bool>,
    struck: Set<int>,
    n: int,
) -> Option<int>
    decreases n,
{
    if n <= 0 {
        None
    } else {
        let b = nearest_upto(p, x, allowed, struck, n - 1);
        let i = n - 1;
        if !can_strike(allowed, struck, i) {
            b
        } else {
            match b {
                None => Some(i),
                Some(j) => if dist(p, i, x) < dist(p, j, x) {
                    Some(i)
                } else {
                    b
                },
            }
        }
    }
}

/// The note closest to `x` that a tap may strike.
pub open spec fn nearest_note(p: Seq<Coord>, x: int, allowed: Seq<bool>, struck: Set<int>) -> Option<
    int,
> {
    nearest_upto(p, x, allowed, struck, p.len() as int)
}

/// The note numbers of `ns` that no pointer holds.
pub open spec fn unstruck(ns: Seq<int>, struck: Set<int>) -> Seq<int>
    decreases ns.len(),
{
    if ns.len() == 0 {
        ns
    } else {
        let rest = unstruck(ns.drop_last(), struck);
        if struck.contains(ns.last()) {
            rest
        } else {
            rest.push(ns.last())
        }
    }
}

/// The crossings without held notes; crossings left with no note are dropped.
pub open spec fn crossings_unstruck(cs: Seq<(int, Seq<int>)>, struck: Set<int>) -> Seq<
    (int, Seq<int>),
>
    decreases cs.len(),
{
    if cs.len() == 0 {
        cs
    } else {
        let rest = crossings_unstruck(cs.drop_last(), struck);
        let ns = unstruck(cs.last().1, struck);
        if ns.len() > 0 {
            rest.push((cs.last().0, ns))
        } else {
            rest
        }
    }
}

/// What the tracker knows: each pointer's last position, whether taps strike, and the
/// note each pointer struck.
pub struct TouchView {
    pub last_x: Map<u64, Coord>,
    pub play_on_tap: bool,
    pub struck: Map<u64, UnkeyedNote>,
}

/// The tracker after an event, with the struck note (as a number) and the crossings.
pub open spec fn touch_step(v: TouchView, ev: TouchEvent, p: Seq<Coord>, allowed: Seq<bool>) -> (
    TouchView,
    Option<int>,
    Seq<(int, Seq<int>)>,
) {
    let id = ev.id.0;
    match ev.phase {
        TouchPhase::Down => {
            let strike = if v.play_on_tap {
                nearest_note(p, ev.x as int, allowed, struck_notes(v.struck))
            } else {
                None
            };
            let struck = match strike {
                Some(n) => v.struck.insert(id, UnkeyedNote(n as i16)),
                None => v.struck,
            };
            (TouchView { last_x: v.last_x.insert(id, ev.x), struck, ..v }, strike, Seq::empty())
        },
        TouchPhase::Move => {
            let v2 = TouchView { last_x: v.last_x.insert(id, ev.x), ..v };
            if v.last_x.contains_key(id) {
                (
                    v2,
                    None,
                    crossings_unstruck(
                        strum_crossings(v.last_x[id] as int, ev.x as int, p),
                        struck_notes(v.struck),
                    ),
                )
            } else {
                (v2, None, Seq::empty())
            }
        },
        _ => (
            TouchView { last_x: v.last_x.remove(id), struck: v.struck.remove(id), ..v },
            None,
            Seq::empty(),
        ),
    }
}

/// Tracks pointer movement and reports strikes and strum crossings per pointer, for mouse
/// drags and multitouch alike.
pub struct TouchTracker {
    last_x: PointerMap<Coord>,
    play_on_tap: bool,
    /// Which note (if any) each pointer has claimed via a strike.
    struck_by_pointer: PointerMap<UnkeyedNote>,
}

impl TouchTracker {
    pub closed spec fn view(&self) -> TouchView {
        TouchView {
            last_x: self.last_x@,
            play_on_tap: self.play_on_tap,
            struck: self.struck_by_pointer@,
        }
    }

    pub closed spec fn wf(&self) -> bool {
        self.last_x.wf() && self.struck_by_pointer.wf()
    }

    pub fn new() -> (r: Self)
        ensures
            r.wf(),
            r@.last_x == Map::<u64, Coord>::empty(),
            r@.struck == Map::<u64, UnkeyedNote>::empty(),
            r@.play_on_tap,
    {
        TouchTracker {
            last_x: PointerMap::new(),
            play_on_tap: true,
            struck_by_pointer: PointerMap::new(),
        }
    }

    pub fn set_play_on_tap(&mut self, enabled: bool)
        requires
            old(self).wf(),
        ensures
            final(self).wf(),
            final(self)@ == (TouchView { play_on_tap: enabled, ..old(self)@ }),
    {
        self.play_on_tap = enabled;
    }

    /// The note nearest `x` that `allowed` permits and no pointer holds.
    fn nearest_unstruck_note(&self, x: Coord, note_positions: &[Coord], allowed: &[bool]) -> (r:
        Option<UnkeyedNote>)
        requires
            self.wf(),
            note_positions@.len() <= 32768,
        ensures
            r == (match nearest_note(
                note_positions@,
                x as int,
                allowed@,
                struck_notes(self@.struck),
            ) {
                Some(i) => Some(UnkeyedNote(i as i16)),
                None => None::<UnkeyedNote>,
            }),
    {
        let held = self.struck_by_pointer.values();
        let ghost struck = struck_notes(self@.struck);
        let ghost p = note_positions@;
        let n = note_positions.len();
        let mut best: Option<usize> = None;
        let mut best_d: i64 = 0;
        let mut i: usize = 0;
        while i < n
            invariant
                p == note_positions@,
                n == p.len(),
                n <= 32768,
                i <= n,
                forall|v: UnkeyedNote| held@.contains(v) <==> self@.struck.values().contains(v),
                struck == struck_notes(self@.struck),
                best == (match nearest_upto(p, x as int, allowed@, struck, i as int) {
                    Some(b) => Some(b as usize),
                    None => None::<usize>,
                }),
                match nearest_upto(p, x as int, allowed@, struck, i as int) {
                    Some(b) => 0 <= b < i && best_d == dist(p, b, x as int),
                    None => true,
                },
            decreases n - i,
        {
            let ok = i < allowed.len() && allowed[i] && !contains_note(&held, UnkeyedNote(
                i as i16,
            ));
            proof {
                let note = UnkeyedNote(i as i16);
                assert(held@.contains(note) == struck.contains(i as int)) by {
                    if held@.contains(note) {
                        assert(self@.struck.values().contains(note));
                        let k = choose|k: u64|
                            #[trigger] self@.struck.contains_key(k) && self@.struck[k] == note;
                        assert(self@.struck.contains_key(k) && self@.struck[k].0 == i as int);
                    }
                    if struck.contains(i as int) {
                        let k = choose|k: u64|
                            #[trigger] self@.struck.contains_key(k) && self@.struck[k].0 == i as int;
                        assert(self@.struck[k] == note);
                        assert(self@.struck.values().contains(note));
                    }
                }
                assert(ok == can_strike(allowed@, struck, i as int));
            }
            if ok {
                let px = note_positions[i] as i64;
                let d: i64 = if px >= x as i64 {
                    px - x as i64
                } else {
                    x as i64 - px
                };
                match best {
                    None => {
                        best = Some(i);
                        best_d = d;
                    },
                    Some(_) => {
                        if d < best_d {
                            best = Some(i);
                            best_d = d;
                        }
                    },
                }
            }
            i = i + 1;
        }
        match best {
            Some(b) => Some(UnkeyedNote(b as i16)),
            None => None,
        }
    }

    /// Updates the tracker with one pointer sample. A touch-down strikes (with play on tap)
    /// the nearest note that `allowed` permits (`allowed[i]` for note `i`) and no pointer
    /// holds; a move reports the strings crossed since the pointer's last position, without
    /// held notes; lifting or cancelling forgets the pointer.
    pub fn handle_event(&mut self, event: TouchEvent, note_positions: &[Coord], allowed: &[bool]) -> (r:
        TouchOutput)
        requires
            old(self).wf(),
            note_positions@.len() <= 32768,
        ensures
            final(self).wf(),
            ({
                let (v, strike, crossings) = touch_step(
                    old(self)@,
                    event,
                    note_positions@,
                    allowed@,
                );
                &&& final(self)@ == v
                &&& r.strike == match strike {
                    Some(i) => Some(UnkeyedNote(i as i16)),
                    None => None::<UnkeyedNote>,
                }
                &&& crossings_view(r.crossings@) == crossings
            }),
    {
        let ghost old_view = self@;
        match event.phase {
            TouchPhase::Down => {
                self.last_x.insert(event.id, event.x);
                let strike = if self.play_on_tap {
                    let s = self.nearest_unstruck_note(event.x, note_positions, allowed);
                    if let Some(n) = s {
                        self.struck_by_pointer.insert(event.id, n);
                    }
                    s
                } else {
                    None
                };
                proof {
                    let (v, st, _c) = touch_step(old_view, event, note_positions@, allowed@);
                    if let Some(i) = st {
                        assert(0 <= i < note_positions@.len()) by {
                            lemma_nearest_upto_range(
                                note_positions@,
                                event.x as int,
                                allowed@,
                                struck_notes(old_view.struck),
                                note_positions@.len() as int,
                            );
                        }
                    }
                    assert(self@.struck =~= v.struck);
                    assert(self@.last_x =~= v.last_x);
                }
                TouchOutput { strike, crossings: Vec::new() }
            },
            TouchPhase::Move => {
                let prev = self.last_x.insert(event.id, event.x);
                match prev {
                    None => { TouchOutput { strike: None, crossings: Vec::new() } },
                    Some(px) => {
                        let held = self.struck_by_pointer.values();
                        proof {
                            let st = struck_notes(self@.struck);
                            assert forall|n: int| #[trigger] st.contains(n) <==> exists|j: int|
                                0 <= j < held@.len() && held@[j].0 == n by {
                                if st.contains(n) {
                                    let k = choose|k: u64|
                                        #[trigger] self@.struck.contains_key(k) && self@.struck[k].0 == n;
                                    assert(self@.struck.values().contains(self@.struck[k]));
                                    assert(held@.contains(self@.struck[k]));
                                }
                                if exists|j: int| 0 <= j < held@.len() && held@[j].0 == n {
                                    let j = choose|j: int| 0 <= j < held@.len() && held@[j].0 == n;
                                    assert(held@.contains(held@[j]));
                                    assert(self@.struck.values().contains(held@[j]));
                                    let k = choose|k: u64|
                                        #[trigger] self@.struck.contains_key(k) && self@.struck[k] == held@[j];
                                    assert(self@.struck.contains_key(k) && self@.struck[k].0 == n);
                                }
                            }
                        }
                        let crossings = detect_crossings(px, event.x, note_positions);
                        let kept = drop_held_notes(&crossings, &held, Ghost(struck_notes(self@.struck)));
                        TouchOutput { strike: None, crossings: kept }
                    },
                }
            },
            _ => {
                self.last_x.remove(event.id);
                self.struck_by_pointer.remove(event.id);
                TouchOutput { strike: None, crossings: Vec::new() }
            },
        }
    }
}

pub proof fn lemma_nearest_upto_range(
    p: Seq<Coord>,
    x: int,
    allowed: Seq<bool>,
    struck: Set<int>,
    n: int,
)
    ensures
        match nearest_upto(p, x, allowed, struck, n) {
            Some(i) => 0 <= i < n && can_strike(allowed, struck, i),
            None => true,
        },
    decreases n,
{
    if n > 0 {
        lemma_nearest_upto_range(p, x, allowed, struck, n - 1);
    }
}

/// A tap strikes the closest note it may strike, the lowest such note on a tie, and
/// strikes nothing only when no note may be struck.
pub proof fn lemma_nearest_is_closest(
    p: Seq<Coord>,
    x: int,
    allowed: Seq<bool>,
    struck: Set<int>,
    n: int,
)
    requires
        0 <= n <= p.len(),
    ensures
        match nearest_upto(p, x, allowed, struck, n) {
            Some(i) => {
                &&& 0 <= i < n
                &&& can_strike(allowed, struck, i)
                &&& forall|j: int|
                    0 <= j < n && #[trigger] can_strike(allowed, struck, j) ==> dist(p, i, x) < dist(
                        p,
                        j,
                        x,
                    ) || (dist(p, i, x) == dist(p, j, x) && i <= j)
            },
            None => forall|j: int| 0 <= j < n ==> !#[trigger] can_strike(allowed, struck, j),
        },
    decreases n,
{
    if n > 0 {
        lemma_nearest_is_closest(p, x, allowed, struck, n - 1);
    }
}

/// Dropping held notes keeps every note within the range it was in.
pub proof fn lemma_unstruck_within(cs: Seq<(int, Seq<int>)>, struck: Set<int>, a: int, b: int)
    requires
        notes_within(cs, a, b),
    ensures
        notes_within(crossings_unstruck(cs, struck), a, b),
    decreases cs.len(),
{
    if cs.len() > 0 {
        let t = cs.drop_last();
        assert forall|k: int, j: int| 0 <= k < t.len() && 0 <= j < t[k].1.len() implies a
            <= #[trigger] t[k].1[j] < b by {
            assert(t[k] == cs[k]);
        }
        lemma_unstruck_within(t, struck, a, b);
        let last = cs.last().1;
        assert forall|j: int| 0 <= j < last.len() implies a <= #[trigger] last[j] < b by {
            assert(cs[cs.len() - 1].1[j] == last[j]);
        }
        lemma_unstruck_range(last, struck, a, b);
    }
}

proof fn lemma_unstruck_range(ns: Seq<int>, struck: Set<int>, a: int, b: int)
    requires
        forall|j: int| 0 <= j < ns.len() ==> a <= #[trigger] ns[j] < b,
    ensures
        forall|j: int| 0 <= j < unstruck(ns, struck).len() ==> a <= #[trigger] unstruck(ns, struck)[j] < b,
    decreases ns.len(),
{
    if ns.len() > 0 {
        let t = ns.drop_last();
        assert forall|j: int| 0 <= j < t.len() implies a <= #[trigger] t[j] < b by {
            assert(t[j] == ns[j]);
        }
        lemma_unstruck_range(t, struck, a, b);
        let rest = unstruck(t, struck);
        let u = unstruck(ns, struck);
        assert(ns.last() == ns[ns.len() - 1]);
        assert forall|j: int| 0 <= j < u.len() implies a <= #[trigger] u[j] < b by {
            if j < rest.len() {
                assert(u[j] == rest[j]);
            }
        }
    }
}

/// The notes a touch strikes or strums are indices of the positions.
pub proof fn lemma_touch_notes_within(v: TouchView, ev: TouchEvent, p: Seq<Coord>, allowed: Seq<bool>)
    ensures
        notes_within(touch_step(v, ev, p, allowed).2, 0, p.len() as int),
        match touch_step(v, ev, p, allowed).1 {
            Some(i) => 0 <= i < p.len(),
            None => true,
        },
{
    if ev.phase == TouchPhase::Move && v.last_x.contains_key(ev.id.0) {
        let lo = if v.last_x[ev.id.0] <= ev.x {
            v.last_x[ev.id.0] as int
        } else {
            ev.x as int
        };
        let hi = if v.last_x[ev.id.0] <= ev.x {
            ev.x as int
        } else {
            v.last_x[ev.id.0] as int
        };
        lemma_crossing_notes_within(p, 0, lo, hi);
        lemma_unstruck_within(
            strum_crossings(v.last_x[ev.id.0] as int, ev.x as int, p),
            struck_notes(v.struck),
            0,
            p.len() as int,
        );
    }
    lemma_nearest_upto_range(p, ev.x as int, allowed, struck_notes(v.struck), p.len() as int);
}

/// Whether `v` holds the note `n`.
fn contains_note(v: &Vec<UnkeyedNote>, n: UnkeyedNote) -> (r: bool)
    ensures
        r == v@.contains(n),
{
    let mut i: usize = 0;
    while i < v.len()
        invariant
            i <= v@.len(),
            forall|j: int| 0 <= j < i ==> v@[j] != n,
        decreases v@.len() - i,
    {
        if v[i].0 == n.0 {
            proof {
                assert(v@[i as int] == n);
            }
            return true;
        }
        i = i + 1;
    }
    false
}

/// The crossings without the notes in `held`; crossings left empty are dropped.
fn drop_held_notes(cs: &Vec<StrumCrossing>, held: &Vec<UnkeyedNote>, Ghost(struck): Ghost<Set<int>>) -> (r: Vec<
    StrumCrossing,
>)
    requires
        forall|n: int| #[trigger] struck.contains(n) <==> exists|j: int| 0 <= j < held@.len() && held@[j].0 == n,
    ensures
        crossings_view(r@) == crossings_unstruck(crossings_view(cs@), struck),
{
    let mut out: Vec<StrumCrossing> = Vec::new();
    let mut i: usize = 0;
    while i < cs.len()
        invariant
            i <= cs@.len(),
            forall|n: int| #[trigger] struck.contains(n) <==> exists|j: int| 0 <= j < held@.len() && held@[j].0 == n,
            crossings_view(out@) == crossings_unstruck(crossings_view(cs@.subrange(0, i as int)), struck),
        decreases cs@.len() - i,
    {
        let c = &cs[i];
        let mut notes: Vec<UnkeyedNote> = Vec::new();
        let mut j: usize = 0;
        let ghost f = |m: UnkeyedNote| m.0 as int;
        while j < c.notes.len()
            invariant
                f == (|m: UnkeyedNote| m.0 as int),
                j <= c.notes@.len(),
                forall|n: int| #[trigger] struck.contains(n) <==> exists|k: int| 0 <= k < held@.len() && held@[k].0 == n,
                notes@.map_values(f) == unstruck(c.notes@.subrange(0, j as int).map_values(f), struck),
            decreases c.notes@.len() - j,
        {
            let n = c.notes[j];
            let ghost before = notes@;
            proof {
                let pre = c.notes@.subrange(0, j as int).map_values(f);
                let post = c.notes@.subrange(0, j + 1).map_values(f);
                assert(post.drop_last() =~= pre);
                assert(c.notes@.subrange(0, j + 1)[j as int] == n);
                assert(post.len() == j + 1);
                assert(post[j as int] == f(n));
                assert(f(n) == n.0 as int);
                assert(post.last() == post[j as int]);
            }
            if !contains_note(held, n) {
                notes.push(n);
                proof {
                    assert(notes@.map_values(f) =~= before.map_values(f).push(n.0 as int));
                }
            }
            proof {
                assert(held@.contains(n) == struck.contains(n.0 as int)) by {
                    if held@.contains(n) {
                        let k = choose|k: int| 0 <= k < held@.len() && held@[k] == n;
                        assert(held@[k].0 == n.0);
                    }
                    if struck.contains(n.0 as int) {
                        let k = choose|k: int| 0 <= k < held@.len() && held@[k].0 == n.0 as int;
                        assert(held@[k] == n);
                    }
                }
            }
            j = j + 1;
        }
        proof {
            assert(c.notes@.subrange(0, c.notes@.len() as int) =~= c.notes@);
            let pre = crossings_view(cs@.subrange(0, i as int));
            let post = crossings_view(cs@.subrange(0, i + 1));
            assert(post.drop_last() =~= pre);
            assert(post.last() == crossing_view_of(c));
        }
        if notes.len() > 0 {
            let ghost before = out@;
            out.push(StrumCrossing { x: c.x, notes });
            proof {
                assert(crossings_view(out@) =~= crossings_view(before).push(
                    crossings_view(out@).last(),
                ));
            }
        }
        i = i + 1;
    }
    proof {
        assert(cs@.subrange(0, cs@.len() as int) =~= cs@);
    }
    out
}

spec fn crossing_view_of(c: &StrumCrossing) -> (int, Seq<int>) {
    crate::strum::crossing_view(*c)
}

} // verus!
