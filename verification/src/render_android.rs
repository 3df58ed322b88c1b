//! The Android strings view: each row of strings in its band, roots red, chord notes white
//! and the other strings dim grey, with the note names of the top two rows on top. Pixels
//! are opaque ARGB colours in `i32`s; positions are in thousandths of a pixel. The touch
//! highlights that the frontend blends over the bands are not drawn here.
use crate::chord::Chord;
use crate::render_best::{best_at, compute_best_per_x, BestStyle};
use crate::render_shared::{
    draw_labels, fill_string_bands_rows, label_paints, label_view, labels_upto,
    lemma_labels_in_range, lemma_shows_then, note_name_labels, rows_view, shows, NoteLabel,
    Paint, band_color, pix_idx,
};
use crate::strum::Coord;
use vstd::prelude::*;

verus! {

/// Opaque black (ARGB `0xFF000000`), the background.
pub const ANDROID_BACKGROUND: i32 = -16777216;

/// Opaque red (ARGB `0xFFFF0000`), the roots.
pub const ANDROID_ROOT_COLOR: i32 = -65536;

/// Opaque white (ARGB `0xFFFFFFFF`), the other chord notes.
pub const ANDROID_CHORD_COLOR: i32 = -1;

/// Opaque dim grey (ARGB `0xFF333333`), the strings outside the chord.
pub const ANDROID_INACTIVE_COLOR: i32 = -13421773;

/// Roots over chord notes over the other strings, all drawn.
pub open spec fn android_style() -> BestStyle<i32> {
    BestStyle {
        root_prio: 3,
        root_color: ANDROID_ROOT_COLOR,
        chord_prio: 2,
        chord_color: ANDROID_CHORD_COLOR,
        inactive_prio: 1,
        inactive_color: ANDROID_INACTIVE_COLOR,
    }
}

/// The style of the Android strings.
pub fn android_string_style() -> (r: BestStyle<i32>)
    ensures
        r == android_style(),
{
    BestStyle {
        root_prio: 3,
        root_color: ANDROID_ROOT_COLOR,
        chord_prio: 2,
        chord_color: ANDROID_CHORD_COLOR,
        inactive_prio: 1,
        inactive_color: ANDROID_INACTIVE_COLOR,
    }
}

/// What a row of strings shows in each pixel column: priority (0 where no string is),
/// colour, and transposed pitch class (255 where no string is).
pub struct StringRow {
    pub prio: Vec<u8>,
    pub color: Vec<i32>,
    pub pc: Vec<u8>,
}

/// The columns of a row of width `w` whose strings follow `chord`.
pub open spec fn android_row(w: int, p: Seq<Coord>, chord: Chord, tpc: int) -> (Seq<u8>, Seq<i32>, Seq<u8>) {
    (
        Seq::new(w as nat, |x: int| best_at(p, Some(chord), tpc, android_style(), true, x, p.len() as int).0),
        Seq::new(w as nat, |x: int| best_at(p, Some(chord), tpc, android_style(), true, x, p.len() as int).1),
        Seq::new(w as nat, |x: int| best_at(p, Some(chord), tpc, android_style(), true, x, p.len() as int).2),
    )
}

pub open spec fn string_row_view(r: StringRow) -> (Seq<u8>, Seq<i32>, Seq<u8>) {
    (r.prio@, r.color@, r.pc@)
}

/// The rows as (priority, colour) columns, as the band painter takes them.
pub open spec fn string_rows_view(rows: Seq<StringRow>) -> Seq<(Seq<u8>, Seq<i32>)> {
    rows.map_values(|r: StringRow| (r.prio@, r.color@))
}

/// The rows of strings for `row_chords`, top to bottom, in a view `width` pixels wide.
pub fn android_string_rows(
    width: usize,
    positions: &[Coord],
    row_chords: &[Chord],
    transpose_pc: i16,
) -> (r: Vec<StringRow>)
    requires
        positions@.len() <= 32768,
        width <= i32::MAX,
        transpose_pc <= i16::MAX - 11,
    ensures
        r@.len() == row_chords@.len(),
        forall|i: int|
            0 <= i < r@.len() ==> string_row_view(#[trigger] r@[i]) == android_row(
                width as int,
                positions@,
                row_chords@[i],
                transpose_pc as int,
            ),
{
    let style = android_string_style();
    let mut out: Vec<StringRow> = Vec::new();
    let mut i: usize = 0;
    while i < row_chords.len()
        invariant
            positions@.len() <= 32768,
            width <= i32::MAX,
            transpose_pc <= i16::MAX - 11,
            style == android_style(),
            i <= row_chords@.len(),
            out@.len() == i,
            forall|j: int|
                0 <= j < i ==> string_row_view(#[trigger] out@[j]) == android_row(
                    width as int,
                    positions@,
                    row_chords@[j],
                    transpose_pc as int,
                ),
        decreases row_chords@.len() - i,
    {
        let (prio, color, pc) = compute_best_per_x(width, positions, Some(row_chords[i]), transpose_pc, style, true);
        proof {
            let want = android_row(width as int, positions@, row_chords@[i as int], transpose_pc as int);
            assert forall|x: int| 0 <= x < width implies prio@[x] == want.0[x] && color@[x] == want.1[x]
                && pc@[x] == want.2[x] by {
                assert(prio@[x] == prio@[x]);
            }
            assert(prio@ =~= want.0);
            assert(color@ =~= want.1);
            assert(pc@ =~= want.2);
        }
        out.push(StringRow { prio, color, pc });
        i = i + 1;
    }
    out
}

/// Paints each row's strings into its band: row `r` covers the lines from `y_edges[r]` up
/// to `y_edges[r + 1]`; see `fill_string_bands_rows`.
pub fn fill_android_bands(
    pixels: &mut [i32],
    width: usize,
    height: usize,
    y_edges: &[usize],
    rows: &Vec<StringRow>,
)
    requires
        old(pixels)@.len() == width * height,
        y_edges@.len() == rows@.len() + 1,
        forall|r: int| 0 <= r < y_edges@.len() ==> #[trigger] y_edges@[r] <= height,
        forall|r: int|
            0 <= r < rows@.len() ==> (#[trigger] rows@[r]).prio@.len() == width && rows@[r].color@.len()
                == width,
    ensures
        final(pixels)@.len() == width * height,
        forall|x: int, y: int|
            0 <= x < width && 0 <= y < height ==> #[trigger] final(pixels)@[pix_idx(
                width as int,
                x,
                y,
            )] == band_color(
                string_rows_view(rows@),
                y_edges@,
                x,
                y,
                old(pixels)@[pix_idx(width as int, x, y)],
                rows@.len() as int,
            ),
{
    let mut bands: Vec<(&[u8], &[i32])> = Vec::new();
    let mut i: usize = 0;
    while i < rows.len()
        invariant
            i <= rows@.len(),
            bands@.len() == i,
            forall|j: int|
                0 <= j < i ==> (#[trigger] bands@[j]).0@ == rows@[j].prio@ && bands@[j].1@
                    == rows@[j].color@,
        decreases rows@.len() - i,
    {
        bands.push((rows[i].prio.as_slice(), rows[i].color.as_slice()));
        i = i + 1;
    }
    proof {
        assert(rows_view(bands@) =~= string_rows_view(rows@));
    }
    fill_string_bands_rows(pixels, width, height, y_edges, bands.as_slice());
}

/// The note names of a row, `y_top` pixels down: the columns that show a chord note or a
/// root, named in the key `tpc`, four pixels to the right of their column.
pub open spec fn android_row_label_paints(r: (Seq<u8>, Seq<i32>, Seq<u8>), tpc: int, y_top: int) -> Seq<
    Paint<i32>,
> {
    label_paints(labels_upto(r.0, r.2, r.1, 2, tpc, 4, y_top, r.0.len() as int))
}

/// The note names of the top row (two pixels down) and of the second row (two pixels into
/// its band).
pub open spec fn android_label_paints(rows: Seq<StringRow>, tpc: int, y_edges: Seq<usize>) -> Seq<
    Paint<i32>,
> {
    android_row_label_paints(string_row_view(rows[0]), tpc, 2) + android_row_label_paints(
        string_row_view(rows[1]),
        tpc,
        y_edges[1] + 2,
    )
}

/// Draws the note names of the top two rows.
pub fn draw_android_labels(
    pixels: &mut [i32],
    width: usize,
    height: usize,
    rows: &Vec<StringRow>,
    transpose_pc: i16,
    y_edges: &[usize],
)
    requires
        width * height <= old(pixels)@.len(),
        width <= 1000000,
        rows@.len() >= 2,
        y_edges@.len() >= 2,
        y_edges@[1] <= 1000000,
        rows@[0].prio@.len() == width,
        rows@[0].color@.len() == width,
        rows@[0].pc@.len() == width,
        rows@[1].prio@.len() == width,
        rows@[1].color@.len() == width,
        rows@[1].pc@.len() == width,
    ensures
        shows(
            final(pixels)@,
            old(pixels)@,
            width as int,
            height as int,
            android_label_paints(rows@, transpose_pc as int, y_edges@),
        ),
{
    let ghost b0 = pixels@;
    let ghost w = width as int;
    let ghost h = height as int;
    let r0 = &rows[0];
    let top = note_name_labels(r0.prio.as_slice(), r0.pc.as_slice(), r0.color.as_slice(), 2, transpose_pc, 4, 2);
    proof {
        lemma_labels_in_range(top@, r0.prio@, r0.pc@, r0.color@, 2, transpose_pc as int, 2, w);
    }
    draw_labels(pixels, width, height, &top);
    let ghost b1 = pixels@;
    let r1 = &rows[1];
    let y_row1 = y_edges[1] as i32 + 2;
    let second = note_name_labels(r1.prio.as_slice(), r1.pc.as_slice(), r1.color.as_slice(), 2, transpose_pc, 4, y_row1);
    proof {
        lemma_labels_in_range(second@, r1.prio@, r1.pc@, r1.color@, 2, transpose_pc as int, y_row1 as int, w);
    }
    draw_labels(pixels, width, height, &second);
    proof {
        let l1 = label_paints(top@.map_values(|l: NoteLabel<i32>| label_view(l)));
        let l2 = label_paints(second@.map_values(|l: NoteLabel<i32>| label_view(l)));
        lemma_shows_then(b0, b1, pixels@, w, h, l1, l2);
        assert(l1 + l2 =~= android_label_paints(rows@, transpose_pc as int, y_edges@));
    }
}

} // verus!
