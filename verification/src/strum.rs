//! Which strings a strum passes over.
use crate::notes::UnkeyedNote;
use vstd::prelude::*;

verus! {

/// A horizontal position on the screen, in thousandths of a pixel.
pub type Coord = i32;

/// One string position passed over by a strum, with every note that sits there.
#[derive(Clone, Debug, PartialEq)]
pub struct StrumCrossing {
    pub x: Coord,
    pub notes: Vec<UnkeyedNote>,
}

/// A crossing as a position and the note numbers at it.
pub open spec fn crossing_view(c: StrumCrossing) -> (int, Seq<int>) {
    (c.x as int, c.notes@.map_values(|n: UnkeyedNote| n.0 as int))
}

/// The crossings as positions and note numbers.
pub open spec fn crossings_view(cs: Seq<StrumCrossing>) -> Seq<(int, Seq<int>)> {
    cs.map_values(|c: StrumCrossing| crossing_view(c))
}

/// The integers `a`, `a + 1`, ..., `b - 1`.
pub open spec fn int_range(a: int, b: int) -> Seq<int> {
    Seq::new((b - a) as nat, |k: int| a + k)
}

/// The end of the run of equal positions that contains index `i`.
pub open spec fn run_end(p: Seq<Coord>, i: int) -> int
    decreases p.len() - i,
{
    if i + 1 >= p.len() || p[i + 1] != p[i] {
        i + 1
    } else {
        run_end(p, i + 1)
    }
}

/// The crossings from index `i` on (a run start): each run of equal positions is one
/// crossing, kept when its position lies in `(lo, hi]`.
pub open spec fn crossings_from(p: Seq<Coord>, i: int, lo: int, hi: int) -> Seq<(int, Seq<int>)>
    decreases p.len() - i,
{
    if i < 0 || i >= p.len() {
        Seq::empty()
    } else {
        let e = run_end(p, i);
        proof {
            lemma_run_end_bounds(p, i);
        }
        let rest = crossings_from(p, e, lo, hi);
        if lo < p[i] && p[i] <= hi {
            seq![(p[i] as int, int_range(i, e))] + rest
        } else {
            rest
        }
    }
}

/// The crossings of a strum between `x1` and `x2` in either direction.
pub open spec fn strum_crossings(x1: int, x2: int, p: Seq<Coord>) -> Seq<(int, Seq<int>)> {
    let lo = if x1 <= x2 {
        x1
    } else {
        x2
    };
    let hi = if x1 <= x2 {
        x2
    } else {
        x1
    };
    crossings_from(p, 0, lo, hi)
}

pub proof fn lemma_run_end_bounds(p: Seq<Coord>, i: int)
    requires
        0 <= i < p.len(),
    ensures
        i < run_end(p, i) <= p.len(),
        forall|k: int| i <= k < run_end(p, i) ==> p[k] == p[i],
    decreases p.len() - i,
{
    if !(i + 1 >= p.len() || p[i + 1] != p[i]) {
        lemma_run_end_bounds(p, i + 1);
    }
}

/// Every note of every crossing lies in `[a, b)`.
pub open spec fn notes_within(cs: Seq<(int, Seq<int>)>, a: int, b: int) -> bool {
    forall|k: int, j: int|
        0 <= k < cs.len() && 0 <= j < cs[k].1.len() ==> a <= #[trigger] cs[k].1[j] < b
}

/// The crossings from a run start `i` hold notes from `i` up to the number of positions.
pub proof fn lemma_crossing_notes_within(p: Seq<Coord>, i: int, lo: int, hi: int)
    requires
        0 <= i,
    ensures
        notes_within(crossings_from(p, i, lo, hi), i, p.len() as int),
    decreases p.len() - i,
{
    if i < p.len() {
        lemma_run_end_bounds(p, i);
        let e = run_end(p, i);
        lemma_crossing_notes_within(p, e, lo, hi);
        let rest = crossings_from(p, e, lo, hi);
        let cs = crossings_from(p, i, lo, hi);
        if lo < p[i] && p[i] <= hi {
            assert forall|k: int, j: int| 0 <= k < cs.len() && 0 <= j < cs[k].1.len() implies i
                <= #[trigger] cs[k].1[j] < p.len() by {
                if k > 0 {
                    assert(cs[k] == rest[k - 1]);
                }
            }
        }
    }
}

/// The string positions crossed moving from `x1` to `x2`: each distinct position (equal
/// neighbours grouped, with all their notes) that lies after the lower end and up to and
/// including the upper end.
pub fn detect_crossings(x1: Coord, x2: Coord, note_positions: &[Coord]) -> (r: Vec<StrumCrossing>)
    requires
        note_positions@.len() <= 32768,
    ensures
        crossings_view(r@) == strum_crossings(x1 as int, x2 as int, note_positions@),
{
    let min_x = if x1 <= x2 {
        x1
    } else {
        x2
    };
    let max_x = if x1 <= x2 {
        x2
    } else {
        x1
    };
    let ghost p = note_positions@;
    let n = note_positions.len();
    let mut out: Vec<StrumCrossing> = Vec::new();
    let mut i: usize = 0;
    while i < n
        invariant
            p == note_positions@,
            n == p.len(),
            n <= 32768,
            i <= n,
            i == 0 || (i < n ==> p[i as int] != p[i - 1]),
            strum_crossings(x1 as int, x2 as int, p) == crossings_view(out@) + crossings_from(
                p,
                i as int,
                min_x as int,
                max_x as int,
            ),
        decreases n - i,
    {
        let start = i;
        let x = note_positions[i];
        let mut notes: Vec<UnkeyedNote> = Vec::new();
        notes.push(UnkeyedNote(i as i16));
        i = i + 1;
        proof {
            lemma_run_end_bounds(p, start as int);
            assert(notes@.map_values(|m: UnkeyedNote| m.0 as int) =~= int_range(
                start as int,
                i as int,
            ));
        }
        while i < n && note_positions[i] == x
            invariant
                p == note_positions@,
                n == p.len(),
                n <= 32768,
                start < i <= n,
                x == p[start as int],
                p[i - 1] == x,
                run_end(p, start as int) == run_end(p, i - 1),
                notes@.len() == i - start,
                notes@.map_values(|m: UnkeyedNote| m.0 as int) == int_range(start as int, i as int),
            decreases n - i,
        {
            let ghost before = notes@;
            notes.push(UnkeyedNote(i as i16));
            proof {
                let f = |m: UnkeyedNote| m.0 as int;
                assert forall|k: int| 0 <= k < i + 1 - start implies notes@.map_values(f)[k]
                    == int_range(start as int, i + 1)[k] by {
                    if k < i - start {
                        assert(notes@[k] == before[k]);
                        assert(before.map_values(f)[k] == int_range(start as int, i as int)[k]);
                    }
                }
                assert(notes@.map_values(f) =~= int_range(start as int, i + 1));
            }
            i = i + 1;
        }
        proof {
            assert(run_end(p, i - 1) == i);
            let rest = crossings_from(p, i as int, min_x as int, max_x as int);
            assert(crossings_from(p, start as int, min_x as int, max_x as int) == if min_x < x && x
                <= max_x {
                seq![(x as int, int_range(start as int, i as int))] + rest
            } else {
                rest
            });
        }
        if x > min_x && x <= max_x {
            let ghost before = out@;
            let c = StrumCrossing { x, notes };
            proof {
                assert(crossing_view(c) == (x as int, int_range(start as int, i as int)));
            }
            out.push(c);
            proof {
                assert(crossings_view(out@) =~= crossings_view(before) + seq![crossing_view(c)]);
                let rest = crossings_from(p, i as int, min_x as int, max_x as int);
                assert(crossings_view(before) + (seq![crossing_view(c)] + rest) =~= crossings_view(
                    out@,
                ) + rest);
            }
        }
    }
    proof {
        assert(crossings_view(out@) + Seq::<(int, Seq<int>)>::empty() =~= crossings_view(out@));
    }
    out
}

} // verus!
