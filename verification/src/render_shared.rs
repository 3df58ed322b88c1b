//! Drawing shared by the frontends: string bands per row, note-name labels, and the model
//! of painting that the drawing functions are specified by.
use crate::notes::{flat_key, pc12, pc_name, pitch_class_label};
use crate::pixel_font::{draw_text, pen_fits, text_covers, text_fits};
use vstd::prelude::*;

verus! {

/// Index of pixel `(x, y)` in a row-major buffer of width `w`.
pub open spec fn pix_idx(w: int, x: int, y: int) -> int {
    y * w + x
}

/// Pixels of a `w` by `h` buffer have distinct indices inside the buffer.
pub proof fn lemma_pix_idx(w: int, h: int, x: int, y: int, x2: int, y2: int)
    requires
        0 <= x < w,
        0 <= y < h,
        0 <= x2 < w,
        0 <= y2 < h,
    ensures
        0 <= pix_idx(w, x, y) < w * h,
        (x != x2 || y != y2) ==> pix_idx(w, x, y) != pix_idx(w, x2, y2),
{
    assert(0 <= y * w + x < w * h) by (nonlinear_arith)
        requires
            0 <= x < w,
            0 <= y < h,
    ;
    if y < y2 {
        assert(y * w + x < y2 * w + x2) by (nonlinear_arith)
            requires
                0 <= x < w,
                0 <= x2,
                y < y2,
        ;
    } else if y2 < y {
        assert(y2 * w + x2 < y * w + x) by (nonlinear_arith)
            requires
                0 <= x2 < w,
                0 <= x,
                y2 < y,
        ;
    }
}

/// What pixel `(x, y)` shows after the first `n` rows are drawn over `old`: a row paints
/// its band where its string priority is not zero; later rows paint over earlier ones.
pub open spec fn band_color<P>(
    rows: Seq<(Seq<u8>, Seq<P>)>,
    edges: Seq<usize>,
    x: int,
    y: int,
    old: P,
    n: int,
) -> P
    decreases n,
{
    if n <= 0 {
        old
    } else {
        let prev = band_color(rows, edges, x, y, old, n - 1);
        let r = n - 1;
        if rows[r].0[x] != 0 && edges[r] <= y < edges[r + 1] {
            rows[r].1[x]
        } else {
            prev
        }
    }
}

/// The rows as sequences.
pub open spec fn rows_view<P>(rows: Seq<(&[u8], &[P])>) -> Seq<(Seq<u8>, Seq<P>)> {
    rows.map_values(|r: (&[u8], &[P])| (r.0@, r.1@))
}

/// Paints each row's strings into its band: row `r` covers the lines from `y_edges[r]` up
/// to `y_edges[r + 1]` and paints column `x` with its colour where its priority is not zero.
pub fn fill_string_bands_rows<P: Copy>(
    pixels: &mut [P],
    width: usize,
    height: usize,
    y_edges: &[usize],
    rows: &[(&[u8], &[P])],
)
    requires
        old(pixels)@.len() == width * height,
        y_edges@.len() == rows@.len() + 1,
        forall|r: int| 0 <= r < y_edges@.len() ==> #[trigger] y_edges@[r] <= height,
        forall|r: int|
            0 <= r < rows@.len() ==> (#[trigger] rows@[r]).0@.len() == width && rows@[r].1@.len()
                == width,
    ensures
        final(pixels)@.len() == width * height,
        forall|x: int, y: int|
            0 <= x < width && 0 <= y < height ==> #[trigger] final(pixels)@[pix_idx(
                width as int,
                x,
                y,
            )] == band_color(
                rows_view(rows@),
                y_edges@,
                x,
                y,
                old(pixels)@[pix_idx(width as int, x, y)],
                rows@.len() as int,
            ),
{
    let ghost old_px = pixels@;
    let ghost rv = rows_view(rows@);
    let ghost w = width as int;
    let total = pixels.len();
    let nrows = rows.len();
    let mut xi: usize = 0;
    while xi < width
        invariant
            pixels@.len() == width * height,
            total == width * height,
            old_px.len() == width * height,
            w == width,
            rv == rows_view(rows@),
            nrows == rows@.len(),
            y_edges@.len() == rows@.len() + 1,
            forall|r: int| 0 <= r < y_edges@.len() ==> #[trigger] y_edges@[r] <= height,
            forall|r: int|
                0 <= r < rows@.len() ==> (#[trigger] rows@[r]).0@.len() == width
                    && rows@[r].1@.len() == width,
            xi <= width,
            forall|x: int, y: int|
                0 <= x < width && 0 <= y < height ==> #[trigger] pixels@[pix_idx(w, x, y)] == if x
                    < xi {
                    band_color(rv, y_edges@, x, y, old_px[pix_idx(w, x, y)], nrows as int)
                } else {
                    old_px[pix_idx(w, x, y)]
                },
        decreases width - xi,
    {
        let mut r: usize = 0;
        while r < nrows
            invariant
                pixels@.len() == width * height,
                total == width * height,
                old_px.len() == width * height,
                w == width,
                rv == rows_view(rows@),
                nrows == rows@.len(),
                y_edges@.len() == rows@.len() + 1,
                forall|r: int| 0 <= r < y_edges@.len() ==> #[trigger] y_edges@[r] <= height,
                forall|r: int|
                    0 <= r < rows@.len() ==> (#[trigger] rows@[r]).0@.len() == width
                        && rows@[r].1@.len() == width,
                xi < width,
                r <= nrows,
                forall|x: int, y: int|
                    0 <= x < width && 0 <= y < height ==> #[trigger] pixels@[pix_idx(w, x, y)]
                        == if x < xi {
                        band_color(rv, y_edges@, x, y, old_px[pix_idx(w, x, y)], nrows as int)
                    } else if x == xi {
                        band_color(rv, y_edges@, x, y, old_px[pix_idx(w, x, y)], r as int)
                    } else {
                        old_px[pix_idx(w, x, y)]
                    },
            decreases nrows - r,
        {
            let (prio, color) = rows[r];
            proof {
                assert(rv[r as int] == (prio@, color@));
            }
            if prio[xi] != 0 {
                let c = color[xi];
                let y0 = y_edges[r];
                let y1 = y_edges[r + 1];
                let mut y: usize = y0;
                while y < y1
                    invariant
                        pixels@.len() == width * height,
                        total == width * height,
                        old_px.len() == width * height,
                        w == width,
                        rv == rows_view(rows@),
                        nrows == rows@.len(),
                        xi < width,
                        r < nrows,
                        y_edges@.len() == rows@.len() + 1,
                        forall|r: int|
                            0 <= r < rows@.len() ==> (#[trigger] rows@[r]).0@.len() == width
                                && rows@[r].1@.len() == width,
                        y0 == y_edges@[r as int],
                        y1 == y_edges@[r + 1],
                        y1 <= height,
                        y0 <= y,
                        y <= y1 || y == y0,
                        rv[r as int].0[xi as int] != 0,
                        c == rv[r as int].1[xi as int],
                        forall|x: int, yy: int|
                            0 <= x < width && 0 <= yy < height ==> #[trigger] pixels@[pix_idx(w, x, yy)]
                                == if x < xi {
                                band_color(rv, y_edges@, x, yy, old_px[pix_idx(w, x, yy)], nrows as int)
                            } else if x == xi {
                                if y0 <= yy < y {
                                    c
                                } else {
                                    band_color(rv, y_edges@, x, yy, old_px[pix_idx(w, x, yy)], r as int)
                                }
                            } else {
                                old_px[pix_idx(w, x, yy)]
                            },
                    decreases y1 - y,
                {
                    proof {
                        lemma_pix_idx(w, height as int, xi as int, y as int, xi as int, y as int);
                        assert(y * width + xi < width * height) by (nonlinear_arith)
                            requires
                                xi < width,
                                y < height,
                        ;
                        assert(y * width <= y * width + xi);
                    }
                    let idx = y * width + xi;
                    let ghost before = pixels@;
                    pixels[idx] = c;
                    proof {
                        assert(pixels@ == before.update(idx as int, c));
                        assert(idx as int == pix_idx(w, xi as int, y as int));
                        assert forall|x: int, yy: int|
                            0 <= x < width && 0 <= yy < height implies #[trigger] pixels@[pix_idx(
                                w,
                                x,
                                yy,
                            )] == if x < xi {
                                band_color(rv, y_edges@, x, yy, old_px[pix_idx(w, x, yy)], nrows as int)
                            } else if x == xi {
                                if y0 <= yy < y + 1 {
                                    c
                                } else {
                                    band_color(rv, y_edges@, x, yy, old_px[pix_idx(w, x, yy)], r as int)
                                }
                            } else {
                                old_px[pix_idx(w, x, yy)]
                            } by {
                            lemma_pix_idx(w, height as int, x, yy, xi as int, y as int);
                            if x != xi || yy != y {
                                assert(pixels@[pix_idx(w, x, yy)] == before[pix_idx(w, x, yy)]);
                            }
                        }
                    }
                    y = y + 1;
                }
                proof {
                    assert(y0 >= y1 || y == y1);
                    assert forall|x: int, yy: int|
                        0 <= x < width && 0 <= yy < height implies #[trigger] pixels@[pix_idx(w, x, yy)]
                            == if x < xi {
                            band_color(rv, y_edges@, x, yy, old_px[pix_idx(w, x, yy)], nrows as int)
                        } else if x == xi {
                            band_color(rv, y_edges@, x, yy, old_px[pix_idx(w, x, yy)], r + 1)
                        } else {
                            old_px[pix_idx(w, x, yy)]
                        } by {
                        if x == xi {
                            let prev = band_color(rv, y_edges@, x, yy, old_px[pix_idx(w, x, yy)], r as int);
                            assert(band_color(rv, y_edges@, x, yy, old_px[pix_idx(w, x, yy)], r + 1)
                                == if rv[r as int].0[x] != 0 && y_edges@[r as int] <= yy < y_edges@[r + 1] {
                                rv[r as int].1[x]
                            } else {
                                prev
                            });
                            if y0 <= yy < y1 {
                                assert(y0 <= yy < y);
                                assert(pixels@[pix_idx(w, x, yy)] == c);
                            } else {
                                assert(!(y0 <= yy < y));
                            }
                        }
                    }
                }
            } else {
                proof {
                    assert forall|x: int, yy: int|
                        0 <= x < width && 0 <= yy < height implies #[trigger] pixels@[pix_idx(w, x, yy)]
                            == if x < xi {
                            band_color(rv, y_edges@, x, yy, old_px[pix_idx(w, x, yy)], nrows as int)
                        } else if x == xi {
                            band_color(rv, y_edges@, x, yy, old_px[pix_idx(w, x, yy)], r + 1)
                        } else {
                            old_px[pix_idx(w, x, yy)]
                        } by {
                        if x == xi {
                            assert(rv[r as int].0[x] == 0);
                        }
                    }
                }
            }
            r = r + 1;
        }
        xi = xi + 1;
    }
}

/// A note name to draw: where, what, in which colour.
#[derive(Clone, Copy, Debug, PartialEq, Eq)]
pub struct NoteLabel<C> {
    pub x: i32,
    pub y: i32,
    pub text: &'static str,
    pub color: C,
}

/// The labels of the columns `0..n`: a column whose priority reaches `min_prio` and that
/// shows a pitch class gets its name, at `x_pad` to the right of the column.
pub open spec fn labels_upto<C>(
    prio: Seq<u8>,
    pc: Seq<u8>,
    color: Seq<C>,
    min_prio: u8,
    transpose_pc: int,
    x_pad: int,
    y_top: int,
    n: int,
) -> Seq<(int, int, Seq<char>, C)>
    decreases n,
{
    if n <= 0 {
        Seq::empty()
    } else {
        let prev = labels_upto(prio, pc, color, min_prio, transpose_pc, x_pad, y_top, n - 1);
        let xi = n - 1;
        if prio[xi] < min_prio || pc[xi] == 255 {
            prev
        } else {
            prev.push(
                (xi + x_pad, y_top, pc_name(pc12(pc[xi] as int), flat_key(transpose_pc)), color[xi]),
            )
        }
    }
}

pub open spec fn label_view<C>(l: NoteLabel<C>) -> (int, int, Seq<char>, C) {
    (l.x as int, l.y as int, l.text@, l.color)
}

/// The note names to draw over the columns, left to right: each column whose priority
/// reaches `min_prio` and that shows a pitch class, named in the key `transpose_pc`.
pub fn note_name_labels<C: Copy>(
    prio: &[u8],
    pc: &[u8],
    color: &[C],
    min_prio: u8,
    transpose_pc: i16,
    x_pad: i32,
    y_top: i32,
) -> (r: Vec<NoteLabel<C>>)
    requires
        prio@.len() == pc@.len(),
        prio@.len() == color@.len(),
        prio@.len() + x_pad <= i32::MAX,
        x_pad >= 0,
    ensures
        r@.map_values(|l: NoteLabel<C>| label_view(l)) == labels_upto(
            prio@,
            pc@,
            color@,
            min_prio,
            transpose_pc as int,
            x_pad as int,
            y_top as int,
            prio@.len() as int,
        ),
{
    let mut out: Vec<NoteLabel<C>> = Vec::new();
    let n = prio.len();
    let mut xi: usize = 0;
    while xi < n
        invariant
            n == prio@.len(),
            prio@.len() == pc@.len(),
            prio@.len() == color@.len(),
            prio@.len() + x_pad <= i32::MAX,
            x_pad >= 0,
            xi <= n,
            out@.map_values(|l: NoteLabel<C>| label_view(l)) == labels_upto(
                prio@,
                pc@,
                color@,
                min_prio,
                transpose_pc as int,
                x_pad as int,
                y_top as int,
                xi as int,
            ),
        decreases n - xi,
    {
        if prio[xi] >= min_prio && pc[xi] != 255 {
            let label = pitch_class_label(pc[xi] as i16, transpose_pc);
            let ghost before = out@;
            out.push(NoteLabel { x: xi as i32 + x_pad, y: y_top, text: label, color: color[xi] });
            proof {
                assert(out@.map_values(|l: NoteLabel<C>| label_view(l)) =~= before.map_values(
                    |l: NoteLabel<C>| label_view(l),
                ).push(label_view(out@.last())));
            }
        }
        xi = xi + 1;
    }
    out
}

/// One painting step: a solid rectangle `[x0, x1) x [y0, y1)`, or a line of text.
pub enum Paint<P> {
    Rect { x0: int, x1: int, y0: int, y1: int, color: P },
    Text { x: int, y: int, text: Seq<char>, color: P, num: int, den: int },
}

pub open spec fn paint_covers<P>(p: Paint<P>, px: int, py: int) -> bool {
    match p {
        Paint::Rect { x0, x1, y0, y1, .. } => x0 <= px < x1 && y0 <= py < y1,
        Paint::Text { x, y, text, num, den, .. } => text_covers(
            text,
            text.len() as int,
            x,
            y,
            num,
            den,
            px,
            py,
        ),
    }
}

pub open spec fn paint_color<P>(p: Paint<P>) -> P {
    match p {
        Paint::Rect { color, .. } => color,
        Paint::Text { color, .. } => color,
    }
}

/// What pixel `(px, py)` shows after the paints, in order, over `old`.
pub open spec fn painted<P>(ps: Seq<Paint<P>>, old: P, px: int, py: int) -> P
    decreases ps.len(),
{
    if ps.len() == 0 {
        old
    } else if paint_covers(ps.last(), px, py) {
        paint_color(ps.last())
    } else {
        painted(ps.drop_last(), old, px, py)
    }
}

/// Painting `a` then `b` is painting `a + b`.
pub proof fn lemma_painted_concat<P>(a: Seq<Paint<P>>, b: Seq<Paint<P>>, old: P, px: int, py: int)
    ensures
        painted(a + b, old, px, py) == painted(b, painted(a, old, px, py), px, py),
    decreases b.len(),
{
    if b.len() == 0 {
        assert(a + b =~= a);
    } else {
        lemma_painted_concat(a, b.drop_last(), old, px, py);
        assert((a + b).drop_last() =~= a + b.drop_last());
        assert((a + b).last() == b.last());
    }
}

/// The `w` by `h` buffer `now` shows the paints over `before`; pixels past it are untouched.
pub open spec fn shows<P>(now: Seq<P>, before: Seq<P>, w: int, h: int, ps: Seq<Paint<P>>) -> bool {
    &&& now.len() == before.len()
    &&& forall|i: int| w * h <= i < before.len() ==> now[i] == before[i]
    &&& forall|px: int, py: int|
        0 <= px < w && 0 <= py < h ==> #[trigger] now[pix_idx(w, px, py)] == painted(
            ps,
            before[pix_idx(w, px, py)],
            px,
            py,
        )
}

/// One paint: what a single step shows.
pub proof fn lemma_shows_one<P>(now: Seq<P>, before: Seq<P>, w: int, h: int, p: Paint<P>)
    requires
        now.len() == before.len(),
        forall|i: int| w * h <= i < before.len() ==> now[i] == before[i],
        forall|px: int, py: int|
            0 <= px < w && 0 <= py < h ==> #[trigger] now[pix_idx(w, px, py)] == if paint_covers(
                p,
                px,
                py,
            ) {
                paint_color(p)
            } else {
                before[pix_idx(w, px, py)]
            },
    ensures
        shows(now, before, w, h, seq![p]),
{
    assert(seq![p].drop_last() =~= Seq::<Paint<P>>::empty());
    assert(seq![p].last() == p);
    assert forall|px: int, py: int| 0 <= px < w && 0 <= py < h implies #[trigger] now[pix_idx(w, px, py)]
        == painted(seq![p], before[pix_idx(w, px, py)], px, py) by {
        let o = before[pix_idx(w, px, py)];
        assert(painted(Seq::<Paint<P>>::empty(), o, px, py) == o);
        assert(painted(seq![p], o, px, py) == if paint_covers(p, px, py) {
            paint_color(p)
        } else {
            painted(seq![p].drop_last(), o, px, py)
        });
    }
}

/// Two rounds of painting make one.
pub proof fn lemma_shows_then<P>(
    a: Seq<P>,
    b: Seq<P>,
    c: Seq<P>,
    w: int,
    h: int,
    ps1: Seq<Paint<P>>,
    ps2: Seq<Paint<P>>,
)
    requires
        shows(b, a, w, h, ps1),
        shows(c, b, w, h, ps2),
    ensures
        shows(c, a, w, h, ps1 + ps2),
{
    assert forall|px: int, py: int| 0 <= px < w && 0 <= py < h implies #[trigger] c[pix_idx(w, px, py)]
        == painted(ps1 + ps2, a[pix_idx(w, px, py)], px, py) by {
        lemma_painted_concat(ps1, ps2, a[pix_idx(w, px, py)], px, py);
    }
}

/// Text of up to a thousand characters at 13/5 scale fits when it starts near the frame.
pub proof fn lemma_label_fits(x: int, y: int, n: int)
    requires
        -2000000 <= x <= 2000000,
        -2000000 <= y <= 2000000,
        0 <= n <= 1000,
    ensures
        text_fits(n, x, y, 13, 5),
{
    assert(crate::pixel_font::scaled(7, 13, 5) == 18);
    assert(crate::pixel_font::advance(13, 5) == 15);
    assert forall|k: int| 0 <= k <= n implies #[trigger] pen_fits(x + k * 15, 13, 5) by {
        assert(0 <= k * 15 <= 15000) by (nonlinear_arith)
            requires
                0 <= k <= 1000,
        ;
    }
}

/// Labels as text paints.
pub open spec fn label_paints<P>(ls: Seq<(int, int, Seq<char>, P)>) -> Seq<Paint<P>> {
    ls.map_values(
        |l: (int, int, Seq<char>, P)| Paint::Text { x: l.0, y: l.1, text: l.2, color: l.3, num: 13, den: 5 },
    )
}

/// Draws each label's text at 13/5 scale, in order.
pub fn draw_labels<P: Copy>(buf: &mut [P], w: usize, h: usize, labels: &Vec<NoteLabel<P>>)
    requires
        w * h <= old(buf)@.len(),
        forall|i: int|
            0 <= i < labels@.len() ==> -2000000 <= (#[trigger] labels@[i]).x <= 2000000 && -2000000
                <= labels@[i].y <= 2000000 && labels@[i].text@.len() <= 1000,
    ensures
        shows(
            final(buf)@,
            old(buf)@,
            w as int,
            h as int,
            label_paints(labels@.map_values(|l: NoteLabel<P>| label_view(l))),
        ),
{
    let ghost b0 = buf@;
    let ghost lv = labels@.map_values(|l: NoteLabel<P>| label_view(l));
    proof {
        assert(label_paints(lv.take(0)) =~= Seq::<Paint<P>>::empty());
        assert forall|px: int, py: int| 0 <= px < w && 0 <= py < h implies #[trigger] buf@[pix_idx(
            w as int,
            px,
            py,
        )] == painted(Seq::<Paint<P>>::empty(), b0[pix_idx(w as int, px, py)], px, py) by {}
    }
    let mut i: usize = 0;
    while i < labels.len()
        invariant
            w * h <= b0.len(),
            lv == labels@.map_values(|l: NoteLabel<P>| label_view(l)),
            forall|i: int|
                0 <= i < labels@.len() ==> -2000000 <= (#[trigger] labels@[i]).x <= 2000000
                    && -2000000 <= labels@[i].y <= 2000000 && labels@[i].text@.len() <= 1000,
            i <= labels@.len(),
            shows(buf@, b0, w as int, h as int, label_paints(lv.take(i as int))),
        decreases labels@.len() - i,
    {
        let l = labels[i];
        let ghost b1 = buf@;
        proof {
            lemma_label_fits(l.x as int, l.y as int, l.text@.len() as int);
        }
        draw_text(buf, w, h, l.x, l.y, l.text, l.color, 13, 5);
        proof {
            let pt = Paint::Text { x: l.x as int, y: l.y as int, text: l.text@, color: l.color, num: 13, den: 5 };
            lemma_shows_one(buf@, b1, w as int, h as int, pt);
            lemma_shows_then(b0, b1, buf@, w as int, h as int, label_paints(lv.take(i as int)), seq![pt]);
            assert(label_paints(lv.take(i + 1)) =~= label_paints(lv.take(i as int)) + seq![pt]);
        }
        i = i + 1;
    }
    proof {
        assert(lv.take(labels@.len() as int) =~= lv);
    }
}

/// Labels over a row lie near it and have short names.
pub proof fn lemma_labels_in_range<C>(
    ls: Seq<NoteLabel<C>>,
    prio: Seq<u8>,
    pc: Seq<u8>,
    color: Seq<C>,
    min_prio: u8,
    tpc: int,
    y_top: int,
    w: int,
)
    requires
        ls.map_values(|l: NoteLabel<C>| label_view(l)) == labels_upto(prio, pc, color, min_prio, tpc, 4, y_top, prio.len() as int),
        prio.len() == w,
        0 <= w <= 1000000,
        -2000000 <= y_top <= 2000000,
    ensures
        forall|i: int|
            0 <= i < ls.len() ==> -2000000 <= (#[trigger] ls[i]).x <= 2000000 && -2000000 <= ls[i].y
                <= 2000000 && ls[i].text@.len() <= 1000,
{
    lemma_labels_upto_range(prio, pc, color, min_prio, tpc, y_top, prio.len() as int);
    assert forall|i: int| 0 <= i < ls.len() implies -2000000 <= (#[trigger] ls[i]).x <= 2000000 && -2000000
        <= ls[i].y <= 2000000 && ls[i].text@.len() <= 1000 by {
        let v = ls.map_values(|l: NoteLabel<C>| label_view(l));
        assert(v[i] == label_view(ls[i]));
    }
}

/// Labels of the first `n` columns sit at `y_top`, `x_pad` (4) right of their column, and
/// have names of at most two letters.
pub proof fn lemma_labels_upto_range<C>(
    prio: Seq<u8>,
    pc: Seq<u8>,
    color: Seq<C>,
    min_prio: u8,
    tpc: int,
    y_top: int,
    n: int,
)
    requires
        n <= 1000000,
    ensures
        forall|i: int|
            0 <= i < labels_upto(prio, pc, color, min_prio, tpc, 4, y_top, n).len() ==> {
                let l = #[trigger] labels_upto(prio, pc, color, min_prio, tpc, 4, y_top, n)[i];
                &&& 4 <= l.0 <= n + 3
                &&& l.1 == y_top
                &&& l.2.len() <= 2
            },
    decreases n,
{
    if n > 0 {
        lemma_labels_upto_range(prio, pc, color, min_prio, tpc, y_top, n - 1);
        let prev = labels_upto(prio, pc, color, min_prio, tpc, 4, y_top, n - 1);
        let cur = labels_upto(prio, pc, color, min_prio, tpc, 4, y_top, n);
        crate::notes::lemma_pc_name_len(crate::notes::pc12(pc[n - 1] as int), crate::notes::flat_key(tpc));
        assert forall|i: int| 0 <= i < cur.len() implies {
            let l = #[trigger] cur[i];
            &&& 4 <= l.0 <= n + 3
            &&& l.1 == y_top
            &&& l.2.len() <= 2
        } by {
            if i < prev.len() {
                assert(cur[i] == prev[i]);
            }
        }
    }
}

} // verus!
