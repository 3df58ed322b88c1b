//! Which string wins each pixel column when several strings land on it.
use crate::chord::Chord;
use crate::notes::{pc12, rem12, UnkeyedNote};
use crate::strum::Coord;
use vstd::prelude::*;

verus! {

/// Priority and colour of the root, the other chord notes and the notes outside the chord.
#[derive(Clone, Copy)]
pub struct BestStyle<C> {
    pub root_prio: u8,
    pub root_color: C,
    pub chord_prio: u8,
    pub chord_color: C,
    pub inactive_prio: u8,
    pub inactive_color: C,
}

/// The pixel column of a position given in thousandths of a pixel: the nearest column,
/// halves rounded away from zero.
pub open spec fn pixel_of(x: int) -> int {
    if x >= 0 {
        (x + 500) / 1000
    } else {
        -((-x + 500) / 1000)
    }
}

/// How note `i` is drawn: `Some((priority, colour))`, or `None` when it is not drawn.
pub open spec fn note_style<C>(
    i: int,
    chord: Option<Chord>,
    style: BestStyle<C>,
    include_inactive: bool,
) -> Option<(u8, C)> {
    match chord {
        Some(ch) => if pc12(i) == pc12(ch.root.0 as int) {
            Some((style.root_prio, style.root_color))
        } else if ch.spec_contains(i) {
            Some((style.chord_prio, style.chord_color))
        } else if include_inactive {
            Some((style.inactive_prio, style.inactive_color))
        } else {
            None
        },
        None => if include_inactive {
            Some((style.inactive_prio, style.inactive_color))
        } else {
            None
        },
    }
}

/// Priority, colour and pitch class that column `x` shows after the first `n` notes: a
/// note replaces what the column shows only with a strictly higher priority.
pub open spec fn best_at<C>(
    p: Seq<Coord>,
    chord: Option<Chord>,
    transpose_pc: int,
    style: BestStyle<C>,
    include_inactive: bool,
    x: int,
    n: int,
) -> (u8, C, u8)
    decreases n,
{
    if n <= 0 {
        (0u8, style.inactive_color, 255u8)
    } else {
        let prev = best_at(p, chord, transpose_pc, style, include_inactive, x, n - 1);
        let i = n - 1;
        if pixel_of(p[i] as int) != x {
            prev
        } else {
            match note_style(i, chord, style, include_inactive) {
                Some((prio, color)) => if prio > prev.0 {
                    (prio, color, pc12(pc12(i) + transpose_pc) as u8)
                } else {
                    prev
                },
                None => prev,
            }
        }
    }
}

/// For each pixel column, the highest-priority note drawn there (the first one on a tie):
/// its priority (0 where no note is drawn), colour and pitch class after transposing by
/// `transpose_pc` (255 where no note is drawn). Positions are in thousandths of a pixel;
/// notes outside the chord are drawn only with `include_inactive`.
pub fn compute_best_per_x<C: Copy>(
    width: usize,
    positions: &[Coord],
    chord: Option<Chord>,
    transpose_pc: i16,
    style: BestStyle<C>,
    include_inactive: bool,
) -> (r: (Vec<u8>, Vec<C>, Vec<u8>))
    requires
        positions@.len() <= 32768,
        width <= i32::MAX,
        transpose_pc <= i16::MAX - 11,
    ensures
        r.0@.len() == width,
        r.1@.len() == width,
        r.2@.len() == width,
        forall|x: int|
            0 <= x < width ==> (#[trigger] r.0@[x], r.1@[x], r.2@[x]) == best_at(
                positions@,
                chord,
                transpose_pc as int,
                style,
                include_inactive,
                x,
                positions@.len() as int,
            ),
{
    let ghost p = positions@;
    let mut best_prio: Vec<u8> = Vec::new();
    let mut best_color: Vec<C> = Vec::new();
    let mut best_pc: Vec<u8> = Vec::new();
    let mut k: usize = 0;
    while k < width
        invariant
            k <= width,
            best_prio@.len() == k,
            best_color@.len() == k,
            best_pc@.len() == k,
            forall|x: int|
                0 <= x < k ==> (#[trigger] best_prio@[x], best_color@[x], best_pc@[x]) == (
                    0u8,
                    style.inactive_color,
                    255u8,
                ),
        decreases width - k,
    {
        best_prio.push(0);
        best_color.push(style.inactive_color);
        best_pc.push(255);
        k = k + 1;
    }
    let n = positions.len();
    let mut i: usize = 0;
    while i < n
        invariant
            p == positions@,
            n == p.len(),
            n <= 32768,
            width <= i32::MAX,
            transpose_pc <= i16::MAX - 11,
            i <= n,
            best_prio@.len() == width,
            best_color@.len() == width,
            best_pc@.len() == width,
            forall|x: int|
                0 <= x < width ==> (#[trigger] best_prio@[x], best_color@[x], best_pc@[x])
                    == best_at(p, chord, transpose_pc as int, style, include_inactive, x, i as int),
        decreases n - i,
    {
        let uknote = UnkeyedNote(i as i16);
        let x = positions[i];
        let xi: i32 = if x >= 0 {
            ((x as i64 + 500) / 1000) as i32
        } else {
            (-((-(x as i64) + 500) / 1000)) as i32
        };
        let ghost before_p = best_prio@;
        let ghost before_c = best_color@;
        let ghost before_pc = best_pc@;
        if 0 <= xi && xi < width as i32 {
            let col = xi as usize;
            let st: Option<(u8, C)> = match chord {
                Some(ch) => if ch.has_root(uknote) {
                    Some((style.root_prio, style.root_color))
                } else if ch.contains(uknote) {
                    Some((style.chord_prio, style.chord_color))
                } else if include_inactive {
                    Some((style.inactive_prio, style.inactive_color))
                } else {
                    None
                },
                None => if include_inactive {
                    Some((style.inactive_prio, style.inactive_color))
                } else {
                    None
                },
            };
            proof {
                assert(st == note_style(i as int, chord, style, include_inactive));
            }
            if let Some((prio, color)) = st {
                if prio > best_prio[col] {
                    let pc = rem12(uknote.wrap_to_octave() + transpose_pc);
                    best_prio.set(col, prio);
                    best_color.set(col, color);
                    best_pc.set(col, pc as u8);
                }
            }
        }
        proof {
            assert forall|x: int| 0 <= x < width implies (#[trigger] best_prio@[x], best_color@[x], best_pc@[x])
                == best_at(p, chord, transpose_pc as int, style, include_inactive, x, i + 1) by {
                assert(pixel_of(p[i as int] as int) == xi);
                if x != xi {
                    assert(best_prio@[x] == before_p[x]);
                    assert(best_color@[x] == before_c[x]);
                    assert(best_pc@[x] == before_pc[x]);
                }
            }
        }
        i = i + 1;
    }
    (best_prio, best_color, best_pc)
}

} // verus!
