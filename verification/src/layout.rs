//! Rows of strings and which chord each row offers.
use crate::chord::Chord;
use crate::notes::UnkeyedNote;
use crate::rows::RowIndex;
use vstd::prelude::*;

verus! {

/// The chord a row of strings offers.
#[derive(Clone, Copy, Debug, PartialEq, Eq, Structural)]
pub enum RowChord {
    /// The chord selected with the chord buttons.
    Active,
    /// The major scale of the key.
    MajorScale,
    /// The five notes outside the major scale of the key.
    MajorScaleComplement,
    /// All twelve notes.
    Chromatic,
}

/// One row of strings: what it plays and its share of the height.
#[derive(Clone, Copy, Debug, PartialEq, Eq, Structural)]
pub struct RowSpec {
    pub chord: RowChord,
    pub weight: u32,
}

/// The chord of a row of the given kind.
pub open spec fn row_kind_chord(kind: RowChord, active: Chord) -> Chord {
    match kind {
        RowChord::Active => active,
        RowChord::MajorScale => Chord {
            root: UnkeyedNote(0),
            mods: crate::chord::Modifiers { bits: crate::chord::HEPTATONIC_MAJOR },
        },
        RowChord::MajorScaleComplement => Chord {
            root: UnkeyedNote(0),
            mods: crate::chord::Modifiers {
                bits: crate::chord::HEPTATONIC_MAJOR ^ crate::chord::Modifiers::INVERT,
            },
        },
        RowChord::Chromatic => Chord {
            root: UnkeyedNote(0),
            mods: crate::chord::Modifiers { bits: crate::chord::Modifiers::CHROMATIC },
        },
    }
}

/// The chord of row `row`; rows past the end follow the active chord.
pub open spec fn row_chord(kinds: Seq<RowChord>, row: int, active: Chord) -> Chord {
    if 0 <= row < kinds.len() {
        row_kind_chord(kinds[row], active)
    } else {
        active
    }
}

/// The weights of a list of rows.
pub open spec fn row_weights(specs: Seq<RowSpec>) -> Seq<u32> {
    specs.map_values(|s: RowSpec| s.weight)
}

/// The chord kinds of a list of rows.
pub open spec fn row_kinds(specs: Seq<RowSpec>) -> Seq<RowChord> {
    specs.map_values(|s: RowSpec| s.chord)
}

/// The active chord on top, then the major scale, its complement and all notes.
pub fn default_row_specs() -> (r: Vec<RowSpec>)
    ensures
        r@.len() == 4,
        r@[0] == (RowSpec { chord: RowChord::Active, weight: 40 }),
        r@[1] == (RowSpec { chord: RowChord::MajorScale, weight: 20 }),
        r@[2] == (RowSpec { chord: RowChord::MajorScaleComplement, weight: 20 }),
        r@[3] == (RowSpec { chord: RowChord::Chromatic, weight: 20 }),
{
    vec![
        RowSpec { chord: RowChord::Active, weight: 40 },
        RowSpec { chord: RowChord::MajorScale, weight: 20 },
        RowSpec { chord: RowChord::MajorScaleComplement, weight: 20 },
        RowSpec { chord: RowChord::Chromatic, weight: 20 },
    ]
}

/// The chord that row `row` offers while `active` is selected.
pub fn chord_for_row(specs: &[RowSpec], row: RowIndex, active: Chord) -> (r: Chord)
    ensures
        r == row_chord(row_kinds(specs@), row as int, active),
{
    if row < specs.len() {
        match specs[row].chord {
            RowChord::Active => active,
            RowChord::MajorScale => Chord::major_scale(UnkeyedNote(0)),
            RowChord::MajorScaleComplement => Chord::major_scale(UnkeyedNote(0)).invert(),
            RowChord::Chromatic => Chord::chromatic(UnkeyedNote(0)),
        }
    } else {
        active
    }
}

/// The sum of the first `n` weights.
pub open spec fn weight_prefix(w: Seq<u32>, n: int) -> int
    decreases n,
{
    if n <= 0 {
        0
    } else {
        weight_prefix(w, n - 1) + w[n - 1]
    }
}

/// From row `r` down, the first row whose band reaches below height `y` (in thousandths,
/// bands in proportion to the weights out of `total`); the last row takes the rest.
pub open spec fn row_from(y: int, w: Seq<u32>, total: int, r: int) -> int
    decreases w.len() - r,
{
    if r + 1 >= w.len() {
        r
    } else if y * total < 1000 * weight_prefix(w, r + 1) {
        r
    } else {
        row_from(y, w, total, r + 1)
    }
}

/// The row at height `y` (thousandths of the screen, from the top) when the rows share
/// the height in proportion to the weights `w`; above the screen is the top row, below
/// it the bottom row.
pub open spec fn row_at(y: int, w: Seq<u32>) -> int {
    if w.len() == 0 {
        0
    } else {
        row_from(y, w, weight_prefix(w, w.len() as int), 0)
    }
}

proof fn lemma_weight_prefix_mono(w: Seq<u32>, i: int, j: int)
    requires
        0 <= i <= j <= w.len(),
    ensures
        0 <= weight_prefix(w, i) <= weight_prefix(w, j),
    decreases j,
{
    if i < j {
        lemma_weight_prefix_mono(w, i, j - 1);
    } else if i > 0 {
        lemma_weight_prefix_mono(w, i - 1, j - 1);
    }
}

/// The row at height `y_norm` (thousandths of the screen height, from the top); rows share
/// the height in proportion to their weights.
pub fn row_index_from_y_norm(y_norm: i32, specs: &[RowSpec]) -> (r: RowIndex)
    requires
        weight_prefix(row_weights(specs@), specs@.len() as int) <= u32::MAX,
    ensures
        r == row_at(y_norm as int, row_weights(specs@)),
        specs@.len() > 0 ==> r < specs@.len(),
{
    let ghost w = row_weights(specs@);
    let n = specs.len();
    if n == 0 {
        return 0;
    }
    let mut total: u64 = 0;
    let mut i: usize = 0;
    while i < n
        invariant
            w == row_weights(specs@),
            n == specs@.len(),
            i <= n,
            total == weight_prefix(w, i as int),
            weight_prefix(w, n as int) <= u32::MAX,
        decreases n - i,
    {
        proof {
            lemma_weight_prefix_mono(w, i + 1, n as int);
        }
        total = total + specs[i].weight as u64;
        i = i + 1;
    }
    let ghost t = total as int;
    let mut cum: u64 = 0;
    let mut r: usize = 0;
    while r + 1 < n
        invariant
            w == row_weights(specs@),
            n == specs@.len(),
            r < n,
            t == total,
            total == weight_prefix(w, n as int),
            total <= u32::MAX,
            cum == weight_prefix(w, r as int),
            row_at(y_norm as int, w) == row_from(y_norm as int, w, t, r as int),
        decreases n - r,
    {
        proof {
            lemma_weight_prefix_mono(w, r + 1, n as int);
        }
        cum = cum + specs[r].weight as u64;
        let y64: i64 = y_norm as i64;
        let t64: i64 = total as i64;
        proof {
            assert(-2147483648 * 4294967295 <= y64 * t64 <= 2147483647 * 4294967295)
                by (nonlinear_arith)
                requires
                    -2147483648 <= y64 <= 2147483647,
                    0 <= t64 <= 4294967295,
            ;
        }
        let lhs: i64 = y64 * t64;
        if lhs < 1000 * cum as i64 {
            return r;
        }
        r = r + 1;
    }
    r
}

/// Which string of its octave each of the twelve notes uses (seven strings per octave).
pub const NOTE_TO_STRING_IN_OCTAVE: [u16; 12] = [0, 0, 1, 1, 2, 3, 3, 4, 4, 5, 6, 6];

pub open spec fn string_in_octave(pc: int) -> int {
    if pc <= 1 {
        0
    } else if pc <= 3 {
        1
    } else if pc == 4 {
        2
    } else if pc <= 6 {
        3
    } else if pc <= 8 {
        4
    } else if pc == 9 {
        5
    } else {
        6
    }
}

/// The physical string of note `n` (counting chromatic notes from 0).
pub open spec fn note_string(n: int) -> int {
    (n / 12) * 7 + string_in_octave(n % 12)
}

/// For each chromatic note from 0 up, the physical string it sounds on, as long as that
/// string exists among `num_strings`. Several notes share a string.
pub fn note_string_indices(num_strings: usize) -> (r: Vec<usize>)
    requires
        num_strings <= 1000000,
    ensures
        forall|i: int| 0 <= i < r@.len() ==> #[trigger] r@[i] == note_string(i) && r@[i] < num_strings,
        note_string(r@.len() as int) >= num_strings,
{
    let mut out: Vec<usize> = Vec::new();
    let mut octave: usize = 0;
    loop
        invariant
            num_strings <= 1000000,
            out@.len() == 12 * octave,
            octave * 7 <= num_strings + 7,
            forall|i: int| 0 <= i < out@.len() ==> #[trigger] out@[i] == note_string(i) && out@[i] < num_strings,
        decreases num_strings + 7 - octave * 7,
    {
        let mut pc: usize = 0;
        while pc < 12
            invariant
                num_strings <= 1000000,
                pc <= 12,
                octave * 7 <= num_strings + 7,
                pc > 0 ==> octave * 7 + string_in_octave(pc - 1) < num_strings,
                out@.len() == 12 * octave + pc,
                forall|i: int| 0 <= i < out@.len() ==> #[trigger] out@[i] == note_string(i) && out@[i] < num_strings,
            decreases 12 - pc,
        {
            let string = octave * 7 + NOTE_TO_STRING_IN_OCTAVE[pc] as usize;
            proof {
                let n = 12 * octave + pc;
                assert(n / 12 == octave && n % 12 == pc) by (nonlinear_arith)
                    requires
                        n == 12 * octave + pc,
                        0 <= pc < 12,
                        0 <= octave,
                ;
                assert(NOTE_TO_STRING_IN_OCTAVE@[pc as int] == string_in_octave(pc as int));
            }
            if string >= num_strings {
                return out;
            }
            out.push(string);
            pc = pc + 1;
        }
        octave = octave + 1;
    }
}

/// Where the rows' bands end, top to bottom: `edges[r]` to `edges[r + 1]` is row `r`,
/// each row's share of `height` in proportion to its weight (rounded down); the last edge
/// is the bottom.
pub fn row_y_edges(height: usize, specs: &[RowSpec]) -> (r: Vec<usize>)
    requires
        height <= u32::MAX,
        weight_prefix(row_weights(specs@), specs@.len() as int) <= u32::MAX,
    ensures
        r@.len() == specs@.len() + 1,
        r@[specs@.len() as int] == height,
        forall|i: int|
            0 <= i < specs@.len() ==> #[trigger] r@[i] == (if weight_prefix(
                row_weights(specs@),
                specs@.len() as int,
            ) == 0 {
                0
            } else {
                height * weight_prefix(row_weights(specs@), i) / weight_prefix(
                    row_weights(specs@),
                    specs@.len() as int,
                )
            }),
        forall|i: int| 0 <= i <= specs@.len() ==> #[trigger] r@[i] <= height,
{
    let ghost w = row_weights(specs@);
    let n = specs.len();
    let mut total: u64 = 0;
    let mut i: usize = 0;
    while i < n
        invariant
            w == row_weights(specs@),
            n == specs@.len(),
            i <= n,
            total == weight_prefix(w, i as int),
            weight_prefix(w, n as int) <= u32::MAX,
        decreases n - i,
    {
        proof {
            lemma_weight_prefix_mono(w, i + 1, n as int);
        }
        total = total + specs[i].weight as u64;
        i = i + 1;
    }
    let mut out: Vec<usize> = Vec::new();
    let mut cum: u64 = 0;
    let mut r: usize = 0;
    while r < n
        invariant
            w == row_weights(specs@),
            n == specs@.len(),
            r <= n,
            total == weight_prefix(w, n as int),
            total <= u32::MAX,
            height <= u32::MAX,
            cum == weight_prefix(w, r as int),
            out@.len() == r,
            forall|j: int|
                0 <= j < r ==> #[trigger] out@[j] == (if total == 0 {
                    0
                } else {
                    height * weight_prefix(w, j) / (total as int)
                }),
            forall|j: int| 0 <= j < r ==> #[trigger] out@[j] <= height,
        decreases n - r,
    {
        proof {
            lemma_weight_prefix_mono(w, r as int, n as int);
        }
        let e: u64 = if total == 0 {
            0
        } else {
            proof {
                assert(height * cum <= height * total) by (nonlinear_arith)
                    requires
                        cum <= total,
                ;
                assert(height * cum <= 4294967295 * 4294967295) by (nonlinear_arith)
                    requires
                        height <= 4294967295,
                        cum <= 4294967295,
                ;
                assert(height * cum / (total as int) <= height) by (nonlinear_arith)
                    requires
                        height * cum <= height * total,
                        total >= 1,
                ;
            }
            height as u64 * cum / total
        };
        out.push(e as usize);
        proof {
            lemma_weight_prefix_mono(w, r + 1, n as int);
        }
        cum = cum + specs[r].weight as u64;
        r = r + 1;
    }
    out.push(height);
    out
}

} // verus!
