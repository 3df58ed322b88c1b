//! Minimal 5x7 pixel font and text blitter used by both Android and desktop UIs.
//!
//! Only the glyphs in use are included.
use crate::render_shared::{lemma_pix_idx, pix_idx};
use crate::text::chars_of;
use vstd::prelude::*;

verus! {

/// The rows of a glyph, top first; bit 4 of a row is its leftmost column.
pub open spec fn glyph_rows(ch: char) -> Seq<u8> {
    if ch == 'A' {
        seq![0b01110u8, 0b10001, 0b10001, 0b11111, 0b10001, 0b10001, 0b10001]
    } else if ch == 'B' {
        seq![0b11110u8, 0b10001, 0b10001, 0b11110, 0b10001, 0b10001, 0b11110]
    } else if ch == 'C' {
        seq![0b01110u8, 0b10001, 0b10000, 0b10000, 0b10000, 0b10001, 0b01110]
    } else if ch == 'D' {
        seq![0b11110u8, 0b10001, 0b10001, 0b10001, 0b10001, 0b10001, 0b11110]
    } else if ch == 'E' {
        seq![0b11111u8, 0b10000, 0b10000, 0b11110, 0b10000, 0b10000, 0b11111]
    } else if ch == 'F' {
        seq![0b11111u8, 0b10000, 0b10000, 0b11110, 0b10000, 0b10000, 0b10000]
    } else if ch == 'G' {
        seq![0b01110u8, 0b10001, 0b10000, 0b10111, 0b10001, 0b10001, 0b01110]
    } else if ch == '#' {
        seq![0b01010u8, 0b11111, 0b01010, 0b01010, 0b11111, 0b01010, 0b01010]
    } else if ch == 'b' {
        seq![0b10000u8, 0b10000, 0b11110, 0b10001, 0b10001, 0b10001, 0b11110]
    } else if ch == 'L' {
        seq![0b10000u8, 0b10000, 0b10000, 0b10000, 0b10000, 0b10000, 0b11111]
    } else if ch == 'M' {
        seq![0b10001u8, 0b11011, 0b10101, 0b10101, 0b10001, 0b10001, 0b10001]
    } else if ch == 'O' {
        seq![0b01110u8, 0b10001, 0b10001, 0b10001, 0b10001, 0b10001, 0b01110]
    } else if ch == 'P' {
        seq![0b11110u8, 0b10001, 0b10001, 0b11110, 0b10000, 0b10000, 0b10000]
    } else if ch == 'R' {
        seq![0b11110u8, 0b10001, 0b10001, 0b11110, 0b10100, 0b10010, 0b10001]
    } else if ch == 'S' {
        seq![0b01111u8, 0b10000, 0b10000, 0b01110, 0b00001, 0b00001, 0b11110]
    } else if ch == 'T' {
        seq![0b11111u8, 0b00100, 0b00100, 0b00100, 0b00100, 0b00100, 0b00100]
    } else {
        seq![0u8, 0, 0, 0, 0, 0, 0]
    }
}

/// The 5x7 glyph of `ch`, one row per entry; unknown characters (and space) are blank.
pub fn glyph_5x7(ch: char) -> (r: [u8; 7])
    ensures
        r@ == glyph_rows(ch),
{
    let r: [u8; 7] = match ch {
        // Notes
        'A' => [0b01110, 0b10001, 0b10001, 0b11111, 0b10001, 0b10001, 0b10001],
        'B' => [0b11110, 0b10001, 0b10001, 0b11110, 0b10001, 0b10001, 0b11110],
        'C' => [0b01110, 0b10001, 0b10000, 0b10000, 0b10000, 0b10001, 0b01110],
        'D' => [0b11110, 0b10001, 0b10001, 0b10001, 0b10001, 0b10001, 0b11110],
        'E' => [0b11111, 0b10000, 0b10000, 0b11110, 0b10000, 0b10000, 0b11111],
        'F' => [0b11111, 0b10000, 0b10000, 0b11110, 0b10000, 0b10000, 0b10000],
        'G' => [0b01110, 0b10001, 0b10000, 0b10111, 0b10001, 0b10001, 0b01110],
        '#' => [0b01010, 0b11111, 0b01010, 0b01010, 0b11111, 0b01010, 0b01010],
        'b' => [0b10000, 0b10000, 0b11110, 0b10001, 0b10001, 0b10001, 0b11110],
        // Desktop settings panel labels (uppercase)
        'L' => [0b10000, 0b10000, 0b10000, 0b10000, 0b10000, 0b10000, 0b11111],
        'M' => [0b10001, 0b11011, 0b10101, 0b10101, 0b10001, 0b10001, 0b10001],
        'O' => [0b01110, 0b10001, 0b10001, 0b10001, 0b10001, 0b10001, 0b01110],
        'P' => [0b11110, 0b10001, 0b10001, 0b11110, 0b10000, 0b10000, 0b10000],
        'R' => [0b11110, 0b10001, 0b10001, 0b11110, 0b10100, 0b10010, 0b10001],
        'S' => [0b01111, 0b10000, 0b10000, 0b01110, 0b00001, 0b00001, 0b11110],
        'T' => [0b11111, 0b00100, 0b00100, 0b00100, 0b00100, 0b00100, 0b00100],
        _ => [0; 7],
    };
    assert(r@ =~= glyph_rows(ch));
    r
}

/// `a / d` rounded toward zero, as Rust's integer division does.
pub open spec fn trunc_div(a: int, d: int) -> int {
    if d > 0 {
        if a >= 0 {
            a / d
        } else {
            -((-a) / d)
        }
    } else {
        if a >= 0 {
            -(a / (-d))
        } else {
            (-a) / (-d)
        }
    }
}

/// Font unit `u` in pixels at scale `num / den`.
pub open spec fn scaled(u: int, num: int, den: int) -> int {
    trunc_div(u * num, den)
}

/// The largest distance, in pixels, that a glyph cell edge lies from the glyph's corner.
pub open spec fn span(num: int, den: int) -> int {
    let s = scaled(7, num, den);
    if s >= 0 {
        s
    } else {
        -s
    }
}

/// A pen position from which every glyph edge is representable.
pub open spec fn pen_fits(x: int, num: int, den: int) -> bool {
    i32::MIN + span(num, den) <= x <= i32::MAX - span(num, den)
}

/// How far the pen moves per character: five units of glyph, then at least one pixel gap.
pub open spec fn advance(num: int, den: int) -> int {
    let gap = scaled(1, num, den);
    scaled(5, num, den) + if gap >= 1 {
        gap
    } else {
        1
    }
}

/// Whether column `col` of glyph row `bits` is lit.
pub open spec fn lit(bits: u8, col: int) -> bool {
    (bits >> ((4 - col) as u8)) & 1u8 == 1u8
}

/// Whether pixel `(px, py)` lies in lit cell `(row, col)` of glyph `g` drawn at `(x, y)`.
pub open spec fn cell_covers(
    g: Seq<u8>,
    row: int,
    col: int,
    x: int,
    y: int,
    num: int,
    den: int,
    px: int,
    py: int,
) -> bool {
    &&& 0 <= row < 7
    &&& 0 <= col < 5
    &&& lit(g[row], col)
    &&& x + scaled(col, num, den) <= px < x + scaled(col + 1, num, den)
    &&& y + scaled(row, num, den) <= py < y + scaled(row + 1, num, den)
}

/// Whether the glyph drawn at `(x, y)` covers pixel `(px, py)`.
pub open spec fn glyph_covers(g: Seq<u8>, x: int, y: int, num: int, den: int, px: int, py: int) -> bool {
    exists|row: int, col: int| #[trigger] cell_covers(g, row, col, x, y, num, den, px, py)
}

/// Whether the first `n` characters of `text`, drawn from `(x_left, y_top)`, cover `(px, py)`.
pub open spec fn text_covers(
    text: Seq<char>,
    n: int,
    x_left: int,
    y_top: int,
    num: int,
    den: int,
    px: int,
    py: int,
) -> bool {
    exists|k: int|
        0 <= k < n && #[trigger] glyph_covers(
            glyph_rows(text[k]),
            x_left + k * advance(num, den),
            y_top,
            num,
            den,
            px,
            py,
        )
}

/// The text fits the `i32` coordinates: every pen position and glyph edge is representable.
pub open spec fn text_fits(n: int, x_left: int, y_top: int, num: int, den: int) -> bool {
    &&& den != 0
    &&& -306783378 <= num <= 306783378
    &&& forall|k: int| 0 <= k <= n ==> #[trigger] pen_fits(x_left + k * advance(num, den), num, den)
    &&& pen_fits(y_top, num, den)
}

/// `u * num / den`, rounded toward zero.
fn scale(u: i32, num: i32, den: i32) -> (r: i32)
    requires
        0 <= u <= 7,
        -306783378 <= num <= 306783378,
        den != 0,
    ensures
        r == scaled(u as int, num as int, den as int),
        -span(num as int, den as int) <= r <= span(num as int, den as int),
{
    let u64v: i64 = u as i64;
    let n64: i64 = num as i64;
    proof {
        assert(-306783378 * 7 <= u64v * n64 <= 306783378 * 7) by (nonlinear_arith)
            requires
                0 <= u64v <= 7,
                -306783378 <= n64 <= 306783378,
        ;
    }
    let a: i64 = u64v * n64;
    let r: i64 = if den > 0 {
        let d = den as i64;
        if a >= 0 {
            a / d
        } else {
            -((-a) / d)
        }
    } else {
        let d = -(den as i64);
        if a >= 0 {
            -(a / d)
        } else {
            (-a) / d
        }
    };
    proof {
        let d = if den > 0 { den as int } else { -den };
        let m = if a >= 0 { a as int } else { -a };
        let mn = if num >= 0 { num as int } else { -num };
        assert(m == u * mn) by (nonlinear_arith)
            requires
                a == u * num,
                0 <= u,
                m == (if a >= 0 { a as int } else { -a }),
                mn == (if num >= 0 { num as int } else { -num }),
        ;
        assert(u * mn <= 7 * mn) by (nonlinear_arith)
            requires
                0 <= u <= 7,
                0 <= mn,
        ;
        assert(7 * num == 7 * mn || 7 * num == -(7 * mn));
        vstd::arithmetic::div_mod::lemma_div_is_ordered(m, 7 * mn, d);
        assert(0 <= m / d) by (nonlinear_arith)
            requires
                0 <= m,
                1 <= d,
        ;
        assert(m / d <= m) by (nonlinear_arith)
            requires
                0 <= m,
                1 <= d,
        ;
    }
    r as i32
}

/// Paints the in-bounds pixels of `[x0, x1) x [y0, y1)`.
pub fn fill_clipped<P: Copy>(
    pixels: &mut [P],
    w: usize,
    h: usize,
    x0: i32,
    x1: i32,
    y0: i32,
    y1: i32,
    color: P,
)
    requires
        w * h <= old(pixels)@.len(),
    ensures
        final(pixels)@.len() == old(pixels)@.len(),
        forall|i: int| w * h <= i < old(pixels)@.len() ==> final(pixels)@[i] == old(pixels)@[i],
        forall|px: int, py: int|
            0 <= px < w && 0 <= py < h ==> #[trigger] final(pixels)@[pix_idx(w as int, px, py)] == if x0
                <= px < x1 && y0 <= py < y1 {
                color
            } else {
                old(pixels)@[pix_idx(w as int, px, py)]
            },
{
    let ghost old_px = pixels@;
    let ghost wi = w as int;
    let total = pixels.len();
    let cx0: usize = if x0 < 0 { 0 } else if x0 as usize > w { w } else { x0 as usize };
    let cx1: usize = if x1 < 0 { 0 } else if x1 as usize > w { w } else { x1 as usize };
    let cy0: usize = if y0 < 0 { 0 } else if y0 as usize > h { h } else { y0 as usize };
    let cy1: usize = if y1 < 0 { 0 } else if y1 as usize > h { h } else { y1 as usize };
    let mut py: usize = cy0;
    while py < cy1
        invariant
            pixels@.len() == old_px.len(),
            total == old_px.len(),
            w * h <= old_px.len(),
            wi == w,
            cy0 <= py,
            py <= cy1 || py == cy0,
            cy1 <= h,
            cx1 <= w,
            cx0 as int == (if x0 < 0 { 0 } else if x0 > w { w as int } else { x0 as int }),
            cx1 as int == (if x1 < 0 { 0 } else if x1 > w { w as int } else { x1 as int }),
            cy0 as int == (if y0 < 0 { 0 } else if y0 > h { h as int } else { y0 as int }),
            cy1 as int == (if y1 < 0 { 0 } else if y1 > h { h as int } else { y1 as int }),
            forall|i: int| w * h <= i < old_px.len() ==> pixels@[i] == old_px[i],
            forall|qx: int, qy: int|
                0 <= qx < w && 0 <= qy < h ==> #[trigger] pixels@[pix_idx(wi, qx, qy)] == if x0
                    <= qx < x1 && y0 <= qy < py {
                    color
                } else {
                    old_px[pix_idx(wi, qx, qy)]
                },
        decreases cy1 - py,
    {
        let mut px: usize = cx0;
        while px < cx1
            invariant
                pixels@.len() == old_px.len(),
                total == old_px.len(),
                w * h <= old_px.len(),
                wi == w,
                cy0 <= py < cy1,
                cy1 <= h,
                cx1 <= w,
                cx0 <= px,
                px <= cx1 || px == cx0,
                cx0 as int == (if x0 < 0 { 0 } else if x0 > w { w as int } else { x0 as int }),
                cx1 as int == (if x1 < 0 { 0 } else if x1 > w { w as int } else { x1 as int }),
                cy0 as int == (if y0 < 0 { 0 } else if y0 > h { h as int } else { y0 as int }),
                cy1 as int == (if y1 < 0 { 0 } else if y1 > h { h as int } else { y1 as int }),
                forall|i: int| w * h <= i < old_px.len() ==> pixels@[i] == old_px[i],
                forall|qx: int, qy: int|
                    0 <= qx < w && 0 <= qy < h ==> #[trigger] pixels@[pix_idx(wi, qx, qy)] == if (x0
                        <= qx < x1 && y0 <= qy < py) || (x0 <= qx < px && qy == py) {
                        color
                    } else {
                        old_px[pix_idx(wi, qx, qy)]
                    },
            decreases cx1 - px,
        {
            proof {
                lemma_pix_idx(wi, h as int, px as int, py as int, px as int, py as int);
                assert(py * w <= py * w + px);
            }
            let idx = py * w + px;
            let ghost before = pixels@;
            pixels[idx] = color;
            proof {
                assert(pixels@ == before.update(idx as int, color));
                assert forall|qx: int, qy: int|
                    0 <= qx < w && 0 <= qy < h implies #[trigger] pixels@[pix_idx(wi, qx, qy)] == if (x0
                        <= qx < x1 && y0 <= qy < py) || (x0 <= qx < px + 1 && qy == py) {
                        color
                    } else {
                        old_px[pix_idx(wi, qx, qy)]
                    } by {
                    lemma_pix_idx(wi, h as int, qx, qy, px as int, py as int);
                }
                assert forall|i: int| w * h <= i < old_px.len() implies pixels@[i] == old_px[i] by {
                    lemma_pix_idx(wi, h as int, px as int, py as int, px as int, py as int);
                }
            }
            px = px + 1;
        }
        py = py + 1;
    }
}

/// Paints glyph `g` at `(x, y)`.
fn draw_glyph<P: Copy>(
    pixels: &mut [P],
    w: usize,
    h: usize,
    g: &[u8; 7],
    x: i32,
    y: i32,
    color: P,
    num: i32,
    den: i32,
)
    requires
        w * h <= old(pixels)@.len(),
        den != 0,
        -306783378 <= num <= 306783378,
        pen_fits(x as int, num as int, den as int),
        pen_fits(y as int, num as int, den as int),
    ensures
        final(pixels)@.len() == old(pixels)@.len(),
        forall|i: int| w * h <= i < old(pixels)@.len() ==> final(pixels)@[i] == old(pixels)@[i],
        forall|px: int, py: int|
            0 <= px < w && 0 <= py < h ==> #[trigger] final(pixels)@[pix_idx(w as int, px, py)] == if glyph_covers(
                g@,
                x as int,
                y as int,
                num as int,
                den as int,
                px,
                py,
            ) {
                color
            } else {
                old(pixels)@[pix_idx(w as int, px, py)]
            },
{
    let ghost old_px = pixels@;
    let ghost wi = w as int;
    let mut row: usize = 0;
    while row < 7
        invariant
            pixels@.len() == old_px.len(),
            w * h <= old_px.len(),
            wi == w,
            den != 0,
            -306783378 <= num <= 306783378,
            pen_fits(x as int, num as int, den as int),
            pen_fits(y as int, num as int, den as int),
            row <= 7,
            forall|i: int| w * h <= i < old_px.len() ==> pixels@[i] == old_px[i],
            forall|qx: int, qy: int|
                0 <= qx < w && 0 <= qy < h ==> #[trigger] pixels@[pix_idx(wi, qx, qy)] == if exists|
                    r: int,
                    c: int,
                | r < row && #[trigger] cell_covers(g@, r, c, x as int, y as int, num as int, den as int, qx, qy) {
                    color
                } else {
                    old_px[pix_idx(wi, qx, qy)]
                },
        decreases 7 - row,
    {
        let bits = g[row];
        let mut col: usize = 0;
        while col < 5
            invariant
                pixels@.len() == old_px.len(),
                w * h <= old_px.len(),
                wi == w,
                den != 0,
                -306783378 <= num <= 306783378,
                pen_fits(x as int, num as int, den as int),
                pen_fits(y as int, num as int, den as int),
                row < 7,
                col <= 5,
                bits == g@[row as int],
                forall|i: int| w * h <= i < old_px.len() ==> pixels@[i] == old_px[i],
                forall|qx: int, qy: int|
                    0 <= qx < w && 0 <= qy < h ==> #[trigger] pixels@[pix_idx(wi, qx, qy)] == if exists|
                        r: int,
                        c: int,
                    | (r < row || (r == row && c < col)) && #[trigger] cell_covers(
                        g@,
                        r,
                        c,
                        x as int,
                        y as int,
                        num as int,
                        den as int,
                        qx,
                        qy,
                    ) {
                        color
                    } else {
                        old_px[pix_idx(wi, qx, qy)]
                    },
            decreases 5 - col,
        {
            let ghost before = pixels@;
            if (bits >> ((4 - col) as u8)) & 1 == 1 {
                let x0 = x + scale(col as i32, num, den);
                let x1 = x + scale(col as i32 + 1, num, den);
                let y0 = y + scale(row as i32, num, den);
                let y1 = y + scale(row as i32 + 1, num, den);
                fill_clipped(pixels, w, h, x0, x1, y0, y1, color);
                proof {
                    assert forall|qx: int, qy: int|
                        0 <= qx < w && 0 <= qy < h implies #[trigger] pixels@[pix_idx(wi, qx, qy)]
                            == if exists|r: int, c: int|
                            (r < row || (r == row && c < col + 1)) && #[trigger] cell_covers(
                                g@,
                                r,
                                c,
                                x as int,
                                y as int,
                                num as int,
                                den as int,
                                qx,
                                qy,
                            ) {
                            color
                        } else {
                            old_px[pix_idx(wi, qx, qy)]
                        } by {
                        if x0 <= qx < x1 && y0 <= qy < y1 {
                            assert(cell_covers(g@, row as int, col as int, x as int, y as int, num as int, den as int, qx, qy));
                        } else {
                            if exists|r: int, c: int|
                                (r < row || (r == row && c < col + 1)) && #[trigger] cell_covers(
                                    g@, r, c, x as int, y as int, num as int, den as int, qx, qy) {
                                let (r, c) = choose|r: int, c: int|
                                    (r < row || (r == row && c < col + 1)) && #[trigger] cell_covers(
                                        g@, r, c, x as int, y as int, num as int, den as int, qx, qy);
                                if r == row && c == col {
                                    assert(false);
                                }
                                assert((r < row || (r == row && c < col)) && cell_covers(
                                    g@, r, c, x as int, y as int, num as int, den as int, qx, qy));
                            }
                        }
                    }
                }
            } else {
                proof {
                    assert(!lit(bits, col as int));
                    assert forall|qx: int, qy: int|
                        0 <= qx < w && 0 <= qy < h implies #[trigger] pixels@[pix_idx(wi, qx, qy)]
                            == if exists|r: int, c: int|
                            (r < row || (r == row && c < col + 1)) && #[trigger] cell_covers(
                                g@,
                                r,
                                c,
                                x as int,
                                y as int,
                                num as int,
                                den as int,
                                qx,
                                qy,
                            ) {
                            color
                        } else {
                            old_px[pix_idx(wi, qx, qy)]
                        } by {
                        if exists|r: int, c: int|
                            (r < row || (r == row && c < col + 1)) && #[trigger] cell_covers(
                                g@, r, c, x as int, y as int, num as int, den as int, qx, qy) {
                            let (r, c) = choose|r: int, c: int|
                                (r < row || (r == row && c < col + 1)) && #[trigger] cell_covers(
                                    g@, r, c, x as int, y as int, num as int, den as int, qx, qy);
                            assert((r < row || (r == row && c < col)) && cell_covers(
                                g@, r, c, x as int, y as int, num as int, den as int, qx, qy));
                        }
                    }
                }
            }
            col = col + 1;
        }
        proof {
            assert forall|qx: int, qy: int|
                0 <= qx < w && 0 <= qy < h implies #[trigger] pixels@[pix_idx(wi, qx, qy)] == if exists|
                    r: int,
                    c: int,
                | r < row + 1 && #[trigger] cell_covers(g@, r, c, x as int, y as int, num as int, den as int, qx, qy) {
                    color
                } else {
                    old_px[pix_idx(wi, qx, qy)]
                } by {
                if exists|r: int, c: int|
                    r < row + 1 && #[trigger] cell_covers(g@, r, c, x as int, y as int, num as int, den as int, qx, qy) {
                    let (r, c) = choose|r: int, c: int|
                        r < row + 1 && #[trigger] cell_covers(g@, r, c, x as int, y as int, num as int, den as int, qx, qy);
                    assert((r < row || (r == row && c < 5)) && cell_covers(
                        g@, r, c, x as int, y as int, num as int, den as int, qx, qy));
                }
            }
        }
        row = row + 1;
    }
    proof {
        assert forall|qx: int, qy: int|
            0 <= qx < w && 0 <= qy < h implies #[trigger] pixels@[pix_idx(wi, qx, qy)] == if glyph_covers(
                g@,
                x as int,
                y as int,
                num as int,
                den as int,
                qx,
                qy,
            ) {
                color
            } else {
                old_px[pix_idx(wi, qx, qy)]
            } by {
            if glyph_covers(g@, x as int, y as int, num as int, den as int, qx, qy) {
                let (r, c) = choose|r: int, c: int|
                    #[trigger] cell_covers(g@, r, c, x as int, y as int, num as int, den as int, qx, qy);
                assert(r < 7 && cell_covers(g@, r, c, x as int, y as int, num as int, den as int, qx, qy));
            }
        }
    }
}

/// Draws `text` with its top-left corner at `(x_left, y_top)` at scale `scale_num /
/// scale_den`: each character's glyph, then the pen moves on by `advance`. Exactly the
/// in-bounds pixels that a lit glyph cell covers take `color`.
pub fn draw_text<P: Copy>(
    pixels: &mut [P],
    w: usize,
    h: usize,
    x_left: i32,
    y_top: i32,
    text: &str,
    color: P,
    scale_num: i32,
    scale_den: i32,
)
    requires
        w * h <= old(pixels)@.len(),
        text_fits(text@.len() as int, x_left as int, y_top as int, scale_num as int, scale_den as int),
    ensures
        final(pixels)@.len() == old(pixels)@.len(),
        forall|i: int| w * h <= i < old(pixels)@.len() ==> final(pixels)@[i] == old(pixels)@[i],
        forall|px: int, py: int|
            0 <= px < w && 0 <= py < h ==> #[trigger] final(pixels)@[pix_idx(w as int, px, py)] == if text_covers(
                text@,
                text@.len() as int,
                x_left as int,
                y_top as int,
                scale_num as int,
                scale_den as int,
                px,
                py,
            ) {
                color
            } else {
                old(pixels)@[pix_idx(w as int, px, py)]
            },
{
    let ghost old_px = pixels@;
    let ghost wi = w as int;
    let ghost adv = advance(scale_num as int, scale_den as int);
    let char_w = scale(5, scale_num, scale_den);
    let gap0 = scale(1, scale_num, scale_den);
    let spacing = if gap0 >= 1 { gap0 } else { 1 };
    let chars = chars_of(text);
    let n = chars.len();
    let mut x = x_left;
    let mut k: usize = 0;
    proof {
        assert(x_left + 0 * adv == x_left);
    }
    while k < n
        invariant
            pixels@.len() == old_px.len(),
            w * h <= old_px.len(),
            wi == w,
            chars@ == text@,
            n == text@.len(),
            k <= n,
            adv == advance(scale_num as int, scale_den as int),
            char_w + spacing == adv,
            -span(scale_num as int, scale_den as int) <= char_w <= span(scale_num as int, scale_den as int),
            text_fits(n as int, x_left as int, y_top as int, scale_num as int, scale_den as int),
            x == x_left + k * adv,
            forall|i: int| w * h <= i < old_px.len() ==> pixels@[i] == old_px[i],
            forall|qx: int, qy: int|
                0 <= qx < w && 0 <= qy < h ==> #[trigger] pixels@[pix_idx(wi, qx, qy)] == if text_covers(
                    text@,
                    k as int,
                    x_left as int,
                    y_top as int,
                    scale_num as int,
                    scale_den as int,
                    qx,
                    qy,
                ) {
                    color
                } else {
                    old_px[pix_idx(wi, qx, qy)]
                },
        decreases n - k,
    {
        let g = glyph_5x7(chars[k]);
        proof {
            assert(pen_fits(x_left + k * adv, scale_num as int, scale_den as int));
            assert(pen_fits(x_left + (k + 1) * adv, scale_num as int, scale_den as int));
            assert(x_left + (k + 1) * adv == x + adv) by (nonlinear_arith)
                requires
                    x == x_left + k * adv,
            ;
        }
        draw_glyph(pixels, w, h, &g, x, y_top, color, scale_num, scale_den);
        proof {
            assert forall|qx: int, qy: int|
                0 <= qx < w && 0 <= qy < h implies #[trigger] pixels@[pix_idx(wi, qx, qy)] == if text_covers(
                    text@,
                    k + 1,
                    x_left as int,
                    y_top as int,
                    scale_num as int,
                    scale_den as int,
                    qx,
                    qy,
                ) {
                    color
                } else {
                    old_px[pix_idx(wi, qx, qy)]
                } by {
                if text_covers(text@, k + 1, x_left as int, y_top as int, scale_num as int, scale_den as int, qx, qy) {
                    let j = choose|j: int|
                        0 <= j < k + 1 && #[trigger] glyph_covers(
                            glyph_rows(text@[j]),
                            x_left + j * advance(scale_num as int, scale_den as int),
                            y_top as int,
                            scale_num as int,
                            scale_den as int,
                            qx,
                            qy,
                        );
                    if j < k {
                        assert(text_covers(text@, k as int, x_left as int, y_top as int, scale_num as int, scale_den as int, qx, qy));
                    }
                }
            }
        }
        x = x + char_w + spacing;
        k = k + 1;
    }
}

/// Draws `text` into a buffer of `u32` pixels; see `draw_text`.
pub fn draw_text_u32(
    pixels: &mut [u32],
    w: usize,
    h: usize,
    x_left: i32,
    y_top: i32,
    text: &str,
    color: u32,
    scale_num: i32,
    scale_den: i32,
)
    requires
        w * h <= old(pixels)@.len(),
        text_fits(text@.len() as int, x_left as int, y_top as int, scale_num as int, scale_den as int),
    ensures
        final(pixels)@.len() == old(pixels)@.len(),
        forall|i: int| w * h <= i < old(pixels)@.len() ==> final(pixels)@[i] == old(pixels)@[i],
        forall|px: int, py: int|
            0 <= px < w && 0 <= py < h ==> #[trigger] final(pixels)@[pix_idx(w as int, px, py)] == if text_covers(
                text@,
                text@.len() as int,
                x_left as int,
                y_top as int,
                scale_num as int,
                scale_den as int,
                px,
                py,
            ) {
                color
            } else {
                old(pixels)@[pix_idx(w as int, px, py)]
            },
{
    draw_text(pixels, w, h, x_left, y_top, text, color, scale_num, scale_den)
}

/// Draws `text` into a buffer of `i32` pixels; see `draw_text`.
pub fn draw_text_i32(
    pixels: &mut [i32],
    w: usize,
    h: usize,
    x_left: i32,
    y_top: i32,
    text: &str,
    color: i32,
    scale_num: i32,
    scale_den: i32,
)
    requires
        w * h <= old(pixels)@.len(),
        text_fits(text@.len() as int, x_left as int, y_top as int, scale_num as int, scale_den as int),
    ensures
        final(pixels)@.len() == old(pixels)@.len(),
        forall|i: int| w * h <= i < old(pixels)@.len() ==> final(pixels)@[i] == old(pixels)@[i],
        forall|px: int, py: int|
            0 <= px < w && 0 <= py < h ==> #[trigger] final(pixels)@[pix_idx(w as int, px, py)] == if text_covers(
                text@,
                text@.len() as int,
                x_left as int,
                y_top as int,
                scale_num as int,
                scale_den as int,
                px,
                py,
            ) {
                color
            } else {
                old(pixels)@[pix_idx(w as int, px, py)]
            },
{
    draw_text(pixels, w, h, x_left, y_top, text, color, scale_num, scale_den)
}

} // verus!
