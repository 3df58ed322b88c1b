//! The desktop window's drawing: the settings panel and its hit testing.
use crate::chord::{Chord, Modifiers};
use crate::pixel_font::draw_text_u32;
use crate::render_best::{best_at, compute_best_per_x, BestStyle};
use crate::render_shared::{
    draw_labels, label_paints, label_view, labels_upto, lemma_label_fits, lemma_labels_in_range,
    lemma_painted_concat, lemma_pix_idx, lemma_shows_one, lemma_shows_then, note_name_labels,
    painted, pix_idx, shows, NoteLabel, Paint,
};
use crate::strum::Coord;
use crate::ui_settings::{decimal, decimal_string, next_desktop_backend, UiAudioBackend, UiSettings};
use vstd::prelude::*;

verus! {

#[derive(Clone, Copy, Debug, PartialEq, Eq, Structural)]
pub struct RectI32 {
    pub x: i32,
    pub y: i32,
    pub w: i32,
    pub h: i32,
}

/// Whether pixel `(x, y)` lies in the rectangle.
pub open spec fn in_rect(x: int, y: int, r: RectI32) -> bool {
    r.x <= x < r.x + r.w && r.y <= y < r.y + r.h
}

/// Whether pixel `(x, y)` lies in the rectangle.
pub fn hit_rect(x: i32, y: i32, r: RectI32) -> (b: bool)
    ensures
        b == in_rect(x as int, y as int, r),
{
    let (x, y) = (x as i64, y as i64);
    x >= r.x as i64 && x < r.x as i64 + r.w as i64 && y >= r.y as i64 && y < r.y as i64
        + r.h as i64
}

#[derive(Clone, Copy, Debug, PartialEq, Eq, Structural)]
pub enum SettingsAction {
    TogglePlayOnTap,
    ToggleShowNoteNames,
    ToggleShowRomanChords,
    CycleAudioBackend,
    SetA4Tuning(u16),
}

/// Where a click landed on the settings controls.
#[derive(Clone, Copy, Debug, PartialEq, Eq, Structural)]
pub enum SettingsHit {
    /// The gear button.
    Gear,
    /// The panel's area, on a row (with its action) or not.
    Panel(Option<SettingsAction>),
    /// Anywhere else.
    Outside,
}

/// The settings after an action: the switches flip; the backend cycles, falling back to
/// MIDI when there is no synth; the tuning is clamped to 430..=450 Hz.
pub open spec fn settings_after_action(s: UiSettings, a: SettingsAction, has_synth: bool) -> UiSettings {
    match a {
        SettingsAction::TogglePlayOnTap => UiSettings { play_on_tap: !s.play_on_tap, ..s },
        SettingsAction::ToggleShowNoteNames => UiSettings { show_note_names: !s.show_note_names, ..s },
        SettingsAction::ToggleShowRomanChords => UiSettings {
            show_roman_chords: !s.show_roman_chords,
            ..s
        },
        SettingsAction::CycleAudioBackend => {
            let b = next_desktop_backend(s.audio_backend);
            UiSettings {
                audio_backend: if b == UiAudioBackend::Synth && !has_synth {
                    UiAudioBackend::Midi
                } else {
                    b
                },
                ..s
            }
        },
        SettingsAction::SetA4Tuning(hz) => UiSettings {
            a4_tuning_hz: if hz < 430 {
                430
            } else if hz > 450 {
                450
            } else {
                hz
            },
            ..s
        },
    }
}

/// What a click on the settings controls decides.
#[derive(Clone, Copy, Debug, PartialEq, Eq, Structural)]
pub struct SettingsClick {
    /// The settings afterwards.
    pub settings: UiSettings,
    /// Whether the panel is open afterwards.
    pub panel_open: bool,
    /// Whether the click is used up by the controls (it strums nothing).
    pub consumed: bool,
    /// Whether the sounding notes are to be stopped on the old backend first.
    pub stop_sounding: bool,
    /// Whether the audio output is to be given the tuning again.
    pub retune: bool,
    /// Whether the settings are to be saved.
    pub save: bool,
    /// Whether the window is to be redrawn.
    pub redraw: bool,
}

/// The action a click applies: a row of the open panel.
pub open spec fn applied_action(panel_open: bool, hit: SettingsHit) -> Option<SettingsAction> {
    match hit {
        SettingsHit::Panel(a) => if panel_open {
            a
        } else {
            None
        },
        _ => None,
    }
}

/// What a click decides: the gear opens or closes the panel; in the open panel a row's
/// action applies and the panel stays open; a click anywhere else closes it. Clicks on the
/// gear and in the open panel are used up. Switching the backend first stops the sounding
/// notes on the old one; switching it or setting the tuning hands the tuning to the audio
/// output again; any applied action is saved; the window is redrawn when the click is used
/// up or the panel opens or closes.
pub open spec fn settings_click_spec(s: UiSettings, panel_open: bool, hit: SettingsHit, has_synth: bool) -> SettingsClick {
    let a = applied_action(panel_open, hit);
    let open = match hit {
        SettingsHit::Gear => !panel_open,
        SettingsHit::Panel(_) => panel_open,
        SettingsHit::Outside => false,
    };
    let consumed = match hit {
        SettingsHit::Gear => true,
        SettingsHit::Panel(_) => panel_open,
        SettingsHit::Outside => false,
    };
    SettingsClick {
        settings: match a {
            Some(act) => settings_after_action(s, act, has_synth),
            None => s,
        },
        panel_open: open,
        consumed,
        stop_sounding: a == Some(SettingsAction::CycleAudioBackend),
        retune: a == Some(SettingsAction::CycleAudioBackend) || a matches Some(SettingsAction::SetA4Tuning(_)),
        save: a is Some,
        redraw: consumed || open != panel_open,
    }
}

/// Applies a click on the settings controls (see `settings_click_spec`).
pub fn settings_click(settings: UiSettings, panel_open: bool, hit: SettingsHit, has_synth: bool) -> (r:
    SettingsClick)
    ensures
        r == settings_click_spec(settings, panel_open, hit, has_synth),
{
    let (open, consumed, action) = match hit {
        SettingsHit::Gear => (!panel_open, true, None),
        SettingsHit::Outside => (false, false, None),
        SettingsHit::Panel(a) => if panel_open {
            (true, true, a)
        } else {
            (false, false, None)
        },
    };
    let mut s = settings;
    let mut stop_sounding = false;
    let mut retune = false;
    match action {
        None => {},
        Some(SettingsAction::TogglePlayOnTap) => {
            s.play_on_tap = !s.play_on_tap;
        },
        Some(SettingsAction::ToggleShowNoteNames) => {
            s.show_note_names = !s.show_note_names;
        },
        Some(SettingsAction::ToggleShowRomanChords) => {
            s.show_roman_chords = !s.show_roman_chords;
        },
        Some(SettingsAction::CycleAudioBackend) => {
            let b = s.audio_backend.cycle_desktop();
            s.audio_backend = if b == UiAudioBackend::Synth && !has_synth {
                UiAudioBackend::Midi
            } else {
                b
            };
            stop_sounding = true;
            retune = true;
        },
        Some(SettingsAction::SetA4Tuning(hz)) => {
            s.a4_tuning_hz = if hz < 430 {
                430
            } else if hz > 450 {
                450
            } else {
                hz
            };
            retune = true;
        },
    }
    let save = action.is_some();
    SettingsClick {
        settings: s,
        panel_open: open,
        consumed,
        stop_sounding,
        retune,
        save,
        redraw: consumed || open != panel_open,
    }
}

/// Where a click at `(x, y)` (thousandths of a pixel) lands in a window `width` pixels
/// wide, counting the panel's area whether or not the panel shows.
pub open spec fn settings_hit_at(width: u32, x: int, y: int) -> SettingsHit {
    let gear = RectI32 { x: (width - 44) as i32, y: 8, w: 36, h: 18 };
    let panel = RectI32 { x: (width - 170) as i32, y: 30, w: 162, h: 100 };
    if in_rect(round_milli(x), round_milli(y), gear) {
        SettingsHit::Gear
    } else if in_rect(round_milli(x), round_milli(y), panel) {
        SettingsHit::Panel(settings_hit(x, y, panel_rows(panel)))
    } else {
        SettingsHit::Outside
    }
}

/// Where a click at `(x, y)` (thousandths of a pixel) lands (see `settings_hit_at`).
pub fn settings_hit_at_click(width: u32, x: Coord, y: Coord) -> (r: SettingsHit)
    requires
        width <= 1000000,
    ensures
        r == settings_hit_at(width, x as int, y as int),
{
    let (gear, panel, rows) = settings_layout(width, 0);
    let px = round_to_pixel(x);
    let py = round_to_pixel(y);
    if hit_rect(px, py, gear) {
        return SettingsHit::Gear;
    }
    if hit_rect(px, py, panel) {
        proof {
            assert(rows@ == panel_rows(panel));
        }
        return SettingsHit::Panel(hit_settings_rows(x, y, rows));
    }
    SettingsHit::Outside
}

/// Height of a settings row.
pub const SETTINGS_ROW_H: i32 = 20;

/// The panel's rows, top to bottom.
pub open spec fn panel_rows(panel: RectI32) -> Seq<RectI32> {
    Seq::new(
        5,
        |i: int| RectI32 { x: panel.x, y: (panel.y + i * SETTINGS_ROW_H) as i32, w: panel.w, h: SETTINGS_ROW_H },
    )
}

/// The gear button, the settings panel and its five rows, for a window `width` pixels wide:
/// fixed sizes in the top-right corner.
pub fn settings_layout(width: u32, _height: u32) -> (r: (RectI32, RectI32, [RectI32; 5]))
    requires
        width <= i32::MAX,
    ensures
        r.0 == (RectI32 { x: (width - 44) as i32, y: 8, w: 36, h: 18 }),
        r.1 == (RectI32 { x: (width - 170) as i32, y: 30, w: 162, h: 100 }),
        r.2@ == panel_rows(r.1),
{
    let gear = RectI32 { x: width as i32 - 44, y: 8, w: 36, h: 18 };
    let row_h = SETTINGS_ROW_H;
    let panel = RectI32 { x: width as i32 - 170, y: 30, w: 162, h: 5 * row_h };
    let rows = [
        RectI32 { x: panel.x, y: panel.y, w: panel.w, h: row_h },
        RectI32 { x: panel.x, y: panel.y + row_h, w: panel.w, h: row_h },
        RectI32 { x: panel.x, y: panel.y + 2 * row_h, w: panel.w, h: row_h },
        RectI32 { x: panel.x, y: panel.y + 3 * row_h, w: panel.w, h: row_h },
        RectI32 { x: panel.x, y: panel.y + 4 * row_h, w: panel.w, h: row_h },
    ];
    assert(rows@ =~= panel_rows(panel));
    (gear, panel, rows)
}

/// The pixel of a coordinate given in thousandths of a pixel: the nearest one, halves
/// away from zero.
pub open spec fn round_milli(v: int) -> int {
    crate::render_best::pixel_of(v)
}

/// The A4 tuning that a click at `x` (thousandths of a pixel) on the slider row picks: the
/// slider runs from 60 pixels into the row to 6 pixels before its end and maps onto
/// 430..=450 Hz, rounded to the nearest Hz.
pub open spec fn slider_hz(x: int, row: RectI32) -> int {
    let num = x - 1000 * (row.x + 60);
    let den = 1000 * (row.w - 66);
    let (n, d) = if den < 0 {
        (-num, -den)
    } else {
        (num, den)
    };
    if d == 0 {
        if n > 0 {
            450
        } else if n < 0 {
            430
        } else {
            0
        }
    } else {
        let c = if n < 0 {
            0
        } else if n > d {
            d
        } else {
            n
        };
        430 + (40 * c + d) / (2 * d)
    }
}

/// What a click at `(x, y)` (thousandths of a pixel) does to the settings, if it hits a row.
pub open spec fn settings_hit(x: int, y: int, rows: Seq<RectI32>) -> Option<SettingsAction> {
    let (px, py) = (round_milli(x), round_milli(y));
    if in_rect(px, py, rows[0]) {
        Some(SettingsAction::TogglePlayOnTap)
    } else if in_rect(px, py, rows[1]) {
        Some(SettingsAction::ToggleShowNoteNames)
    } else if in_rect(px, py, rows[2]) {
        Some(SettingsAction::ToggleShowRomanChords)
    } else if in_rect(px, py, rows[3]) {
        Some(SettingsAction::CycleAudioBackend)
    } else if in_rect(px, py, rows[4]) {
        Some(SettingsAction::SetA4Tuning(slider_hz(x, rows[4]) as u16))
    } else {
        None
    }
}

fn round_to_pixel(v: i32) -> (r: i32)
    ensures
        r == round_milli(v as int),
{
    if v >= 0 {
        ((v as i64 + 500) / 1000) as i32
    } else {
        (-((-(v as i64) + 500) / 1000)) as i32
    }
}

/// The settings action of a click at `(x, y)`, given in thousandths of a pixel.
pub fn hit_settings_rows(x: i32, y: i32, rows: [RectI32; 5]) -> (r: Option<SettingsAction>)
    requires
        forall|i: int| 0 <= i < 5 ==> -1000000 <= #[trigger] rows@[i].x <= 1000000 && -1000000
            <= rows@[i].w <= 1000000,
    ensures
        r == settings_hit(x as int, y as int, rows@),
{
    let px = round_to_pixel(x);
    let py = round_to_pixel(y);
    if hit_rect(px, py, rows[0]) {
        return Some(SettingsAction::TogglePlayOnTap);
    }
    if hit_rect(px, py, rows[1]) {
        return Some(SettingsAction::ToggleShowNoteNames);
    }
    if hit_rect(px, py, rows[2]) {
        return Some(SettingsAction::ToggleShowRomanChords);
    }
    if hit_rect(px, py, rows[3]) {
        return Some(SettingsAction::CycleAudioBackend);
    }
    if hit_rect(px, py, rows[4]) {
        let row = rows[4];
        let num: i64 = x as i64 - 1000 * (row.x as i64 + 60);
        let den: i64 = 1000 * (row.w as i64 - 66);
        let (n, d) = if den < 0 {
            (-num, -den)
        } else {
            (num, den)
        };
        let hz: i64 = if d == 0 {
            if n > 0 {
                450
            } else if n < 0 {
                430
            } else {
                0
            }
        } else {
            let c = if n < 0 {
                0
            } else if n > d {
                d
            } else {
                n
            };
            proof {
                assert(0 <= (40 * c + d) / (2 * d) <= 20) by (nonlinear_arith)
                    requires
                        0 <= c <= d,
                        1 <= d,
                ;
            }
            430 + (40 * c + d) / (2 * d)
        };
        return Some(SettingsAction::SetA4Tuning(hz as u16));
    }
    None
}

pub open spec fn rect_paint<P>(r: RectI32, color: P) -> Paint<P> {
    Paint::Rect { x0: r.x as int, x1: r.x + r.w, y0: r.y as int, y1: r.y + r.h, color }
}

/// A rectangle whose edges are representable.
pub open spec fn rect_fits(r: RectI32) -> bool {
    &&& i32::MIN <= r.x + r.w <= i32::MAX
    &&& i32::MIN <= r.y + r.h <= i32::MAX
    &&& i32::MIN <= r.x + r.w - 1
    &&& i32::MIN <= r.y + r.h - 1
}

/// Fills the in-bounds part of the rectangle.
pub fn fill_rect(buf: &mut [u32], w: usize, h: usize, r: RectI32, color: u32)
    requires
        w * h <= old(buf)@.len(),
        w <= i32::MAX,
        h <= i32::MAX,
        rect_fits(r),
    ensures
        shows(final(buf)@, old(buf)@, w as int, h as int, seq![rect_paint(r, color)]),
{
    let ghost b0 = buf@;
    crate::pixel_font::fill_clipped(buf, w, h, r.x, r.x + r.w, r.y, r.y + r.h, color);
    proof {
        lemma_shows_one(buf@, b0, w as int, h as int, rect_paint(r, color));
    }
}

/// The outline of a rectangle: top, bottom, left and right edges, one pixel wide.
pub open spec fn stroke_paints<P>(r: RectI32, color: P) -> Seq<Paint<P>> {
    seq![
        rect_paint(RectI32 { x: r.x, y: r.y, w: r.w, h: 1 }, color),
        rect_paint(RectI32 { x: r.x, y: (r.y + r.h - 1) as i32, w: r.w, h: 1 }, color),
        rect_paint(RectI32 { x: r.x, y: r.y, w: 1, h: r.h }, color),
        rect_paint(RectI32 { x: (r.x + r.w - 1) as i32, y: r.y, w: 1, h: r.h }, color),
    ]
}

/// A rectangle with room for its outline.
pub open spec fn stroke_fits(r: RectI32) -> bool {
    &&& rect_fits(r)
    &&& i32::MIN <= r.x + 1 <= i32::MAX
    &&& i32::MIN <= r.y + 1 <= i32::MAX
    &&& i32::MIN <= r.x + 2 * r.w - 1 <= i32::MAX
    &&& i32::MIN <= r.y + 2 * r.h - 1 <= i32::MAX
}

/// Draws the outline of the rectangle.
pub fn stroke_rect(buf: &mut [u32], w: usize, h: usize, r: RectI32, color: u32)
    requires
        w * h <= old(buf)@.len(),
        w <= i32::MAX,
        h <= i32::MAX,
        stroke_fits(r),
    ensures
        shows(final(buf)@, old(buf)@, w as int, h as int, stroke_paints(r, color)),
{
    let ghost b0 = buf@;
    fill_rect(buf, w, h, RectI32 { x: r.x, y: r.y, w: r.w, h: 1 }, color);
    let ghost b1 = buf@;
    fill_rect(buf, w, h, RectI32 { x: r.x, y: r.y + r.h - 1, w: r.w, h: 1 }, color);
    let ghost b2 = buf@;
    fill_rect(buf, w, h, RectI32 { x: r.x, y: r.y, w: 1, h: r.h }, color);
    let ghost b3 = buf@;
    fill_rect(buf, w, h, RectI32 { x: r.x + r.w - 1, y: r.y, w: 1, h: r.h }, color);
    proof {
        let p = stroke_paints(r, color);
        lemma_shows_then(b0, b1, b2, w as int, h as int, seq![p[0]], seq![p[1]]);
        lemma_shows_then(b0, b2, b3, w as int, h as int, seq![p[0]] + seq![p[1]], seq![p[2]]);
        lemma_shows_then(
            b0,
            b3,
            buf@,
            w as int,
            h as int,
            seq![p[0]] + seq![p[1]] + seq![p[2]],
            seq![p[3]],
        );
        assert(seq![p[0]] + seq![p[1]] + seq![p[2]] + seq![p[3]] =~= p);
    }
}

/// Text at the panel's scale (13/5 of the font size).
pub open spec fn label_paint(x: int, y: int, text: Seq<char>) -> Paint<u32> {
    Paint::Text { x, y, text, color: 0x00FFFFFFu32, num: 13, den: 5 }
}

/// A panel row: not far from the origin, so that its contents are representable.
pub open spec fn row_fits(row: RectI32) -> bool {
    &&& -1000000 <= row.x <= 1000000
    &&& -1000000 <= row.y <= 1000000
    &&& -1000000 <= row.w <= 1000000
    &&& -1000000 <= row.h <= 1000000
}

/// A checkbox row: a black box with a grey outline, filled white when set, then the label.
pub open spec fn checkbox_paints(row: RectI32, value: bool, label: Seq<char>) -> Seq<Paint<u32>> {
    let b = RectI32 { x: (row.x + 6) as i32, y: (row.y + 5) as i32, w: 10, h: 10 };
    let inner = RectI32 { x: (b.x + 2) as i32, y: (b.y + 2) as i32, w: 6, h: 6 };
    seq![rect_paint(b, 0u32)] + stroke_paints(b, 0x00777777u32) + if value {
        seq![rect_paint(inner, 0x00FFFFFFu32)]
    } else {
        seq![]
    } + seq![label_paint(row.x + 22, row.y + 3, label)]
}

pub fn draw_checkbox_row(buf: &mut [u32], w: usize, h: usize, row: RectI32, value: bool, label: &str)
    requires
        w * h <= old(buf)@.len(),
        w <= i32::MAX,
        h <= i32::MAX,
        row_fits(row),
        label@.len() <= 1000,
    ensures
        shows(final(buf)@, old(buf)@, w as int, h as int, checkbox_paints(row, value, label@)),
{
    let ghost b0 = buf@;
    let box_r = RectI32 { x: row.x + 6, y: row.y + 5, w: 10, h: 10 };
    fill_rect(buf, w, h, box_r, 0x00000000);
    let ghost b1 = buf@;
    stroke_rect(buf, w, h, box_r, 0x00777777);
    let ghost b2 = buf@;
    proof {
        lemma_shows_then(b0, b1, b2, w as int, h as int, seq![rect_paint(box_r, 0u32)], stroke_paints(box_r, 0x00777777u32));
    }
    let ghost mid = seq![rect_paint(box_r, 0u32)] + stroke_paints(box_r, 0x00777777u32);
    let inner = RectI32 { x: box_r.x + 2, y: box_r.y + 2, w: box_r.w - 4, h: box_r.h - 4 };
    if value {
        fill_rect(buf, w, h, inner, 0x00FFFFFF);
        proof {
            lemma_shows_then(b0, b2, buf@, w as int, h as int, mid, seq![rect_paint(inner, 0x00FFFFFFu32)]);
        }
    } else {
        proof {
            assert(mid + seq![] =~= mid);
            assert forall|px: int, py: int| 0 <= px < w && 0 <= py < h implies #[trigger] buf@[pix_idx(w as int, px, py)]
                == painted(mid + seq![], b0[pix_idx(w as int, px, py)], px, py) by {}
        }
    }
    let ghost b3 = buf@;
    let ghost mid2 = mid + if value {
        seq![rect_paint(inner, 0x00FFFFFFu32)]
    } else {
        seq![]
    };
    proof {
        lemma_label_fits(row.x + 22, row.y + 3, label@.len() as int);
    }
    draw_text_u32(buf, w, h, row.x + 22, row.y + 3, label, 0x00FFFFFF, 13, 5);
    proof {
        lemma_shows_one(buf@, b3, w as int, h as int, label_paint(row.x + 22, row.y + 3, label@));
        lemma_shows_then(b0, b3, buf@, w as int, h as int, mid2, seq![label_paint(row.x + 22, row.y + 3, label@)]);
        assert(mid2 + seq![label_paint(row.x + 22, row.y + 3, label@)] =~= checkbox_paints(row, value, label@));
    }
}

/// A value row: the label, then the value further right.
pub open spec fn value_paints(row: RectI32, label: Seq<char>, value: Seq<char>) -> Seq<Paint<u32>> {
    seq![label_paint(row.x + 6, row.y + 3, label), label_paint(row.x + 64, row.y + 3, value)]
}

pub fn draw_value_row(buf: &mut [u32], w: usize, h: usize, row: RectI32, label: &str, value: &str)
    requires
        w * h <= old(buf)@.len(),
        row_fits(row),
        label@.len() <= 1000,
        value@.len() <= 1000,
    ensures
        shows(final(buf)@, old(buf)@, w as int, h as int, value_paints(row, label@, value@)),
{
    let ghost b0 = buf@;
    proof {
        lemma_label_fits(row.x + 6, row.y + 3, label@.len() as int);
        lemma_label_fits(row.x + 64, row.y + 3, value@.len() as int);
    }
    draw_text_u32(buf, w, h, row.x + 6, row.y + 3, label, 0x00FFFFFF, 13, 5);
    let ghost b1 = buf@;
    proof {
        lemma_shows_one(b1, b0, w as int, h as int, label_paint(row.x + 6, row.y + 3, label@));
    }
    draw_text_u32(buf, w, h, row.x + 64, row.y + 3, value, 0x00FFFFFF, 13, 5);
    proof {
        lemma_shows_one(buf@, b1, w as int, h as int, label_paint(row.x + 64, row.y + 3, value@));
        lemma_shows_then(b0, b1, buf@, w as int, h as int, seq![label_paint(row.x + 6, row.y + 3, label@)], seq![label_paint(row.x + 64, row.y + 3, value@)]);
        assert(seq![label_paint(row.x + 6, row.y + 3, label@)] + seq![label_paint(row.x + 64, row.y + 3, value@)] =~= value_paints(row, label@, value@));
    }
}

/// Width of the filled part of a slider bar `bar_w` pixels wide showing `value` in
/// `min..=max`: the share of the range, rounded to the nearest pixel.
pub open spec fn slider_fill(value: int, min: int, max: int, bar_w: int) -> int {
    let num = if value > min {
        value - min
    } else {
        0
    };
    let den = max - min;
    if bar_w <= 0 {
        0
    } else if den == 0 {
        if num > 0 {
            bar_w
        } else {
            0
        }
    } else {
        let c = if num > den {
            den
        } else {
            num
        };
        (2 * (c * bar_w) + den) / (2 * den)
    }
}

/// A slider row: the label, the value in digits, the bar with its outline, and the filled
/// part of the bar.
pub open spec fn slider_paints(row: RectI32, label: Seq<char>, value: u16, min: u16, max: u16) -> Seq<
    Paint<u32>,
> {
    let bar = RectI32 { x: (row.x + 60) as i32, y: (row.y + 7) as i32, w: (row.w - 66) as i32, h: 6 };
    let fill = slider_fill(value as int, min as int, max as int, bar.w as int);
    seq![
        label_paint(row.x + 6, row.y + 3, label),
        label_paint(row.x + 28, row.y + 3, decimal(value as nat)),
        rect_paint(bar, 0x00111111u32),
    ] + stroke_paints(bar, 0x00333333u32) + if fill > 0 {
        seq![rect_paint(RectI32 { x: bar.x, y: bar.y, w: fill as i32, h: bar.h }, 0x00AAAAAAu32)]
    } else {
        seq![]
    }
}

pub fn draw_slider_row(
    buf: &mut [u32],
    w: usize,
    h: usize,
    row: RectI32,
    label: &str,
    value: u16,
    min: u16,
    max: u16,
)
    requires
        w * h <= old(buf)@.len(),
        w <= i32::MAX,
        h <= i32::MAX,
        row_fits(row),
        label@.len() <= 1000,
        min <= max,
    ensures
        shows(final(buf)@, old(buf)@, w as int, h as int, slider_paints(row, label@, value, min, max)),
{
    let ghost b0 = buf@;
    proof {
        lemma_label_fits(row.x + 6, row.y + 3, label@.len() as int);
    }
    draw_text_u32(buf, w, h, row.x + 6, row.y + 3, label, 0x00FFFFFF, 13, 5);
    let ghost b1 = buf@;
    proof {
        lemma_shows_one(b1, b0, w as int, h as int, label_paint(row.x + 6, row.y + 3, label@));
    }
    let value_str = decimal_string(value);
    proof {
        crate::ui_settings::lemma_decimal_len(value as nat);
        lemma_label_fits(row.x + 28, row.y + 3, value_str@.len() as int);
    }
    draw_text_u32(buf, w, h, row.x + 28, row.y + 3, value_str.as_str(), 0x00FFFFFF, 13, 5);
    let ghost b2 = buf@;
    proof {
        lemma_shows_one(b2, b1, w as int, h as int, label_paint(row.x + 28, row.y + 3, decimal(value as nat)));
    }
    let bar = RectI32 { x: row.x + 60, y: row.y + 7, w: row.w - 66, h: 6 };
    fill_rect(buf, w, h, bar, 0x00111111);
    let ghost b3 = buf@;
    stroke_rect(buf, w, h, bar, 0x00333333);
    let ghost b4 = buf@;
    let ghost p1 = seq![label_paint(row.x + 6, row.y + 3, label@)];
    let ghost p2 = seq![label_paint(row.x + 28, row.y + 3, decimal(value as nat))];
    let ghost p3 = seq![rect_paint(bar, 0x00111111u32)];
    let ghost p4 = stroke_paints(bar, 0x00333333u32);
    proof {
        lemma_shows_then(b0, b1, b2, w as int, h as int, p1, p2);
        lemma_shows_then(b0, b2, b3, w as int, h as int, p1 + p2, p3);
        lemma_shows_then(b0, b3, b4, w as int, h as int, p1 + p2 + p3, p4);
    }
    let num: i64 = if value > min {
        (value - min) as i64
    } else {
        0
    };
    let den: i64 = (max - min) as i64;
    let bw: i64 = bar.w as i64;
    let fill_w: i64 = if bw <= 0 {
        0
    } else if den == 0 {
        if num > 0 {
            bw
        } else {
            0
        }
    } else {
        let c = if num > den {
            den
        } else {
            num
        };
        proof {
            assert(0 <= c * bw <= 65535 * 2000000) by (nonlinear_arith)
                requires
                    0 <= c <= 65535,
                    1 <= bw <= 2000000,
            ;
        }
        let cb: i64 = c * bw;
        proof {
            assert(0 <= (2 * cb + den) / (2 * den) <= bw) by (nonlinear_arith)
                requires
                    cb == c * bw,
                    0 <= c <= den,
                    1 <= den <= 65535,
                    1 <= bw <= 2000000,
            ;
        }
        (2 * cb + den) / (2 * den)
    };
    let ghost before_fill = buf@;
    if fill_w > 0 {
        fill_rect(buf, w, h, RectI32 { x: bar.x, y: bar.y, w: fill_w as i32, h: bar.h }, 0x00AAAAAA);
        proof {
            lemma_shows_then(
                b0,
                b4,
                buf@,
                w as int,
                h as int,
                p1 + p2 + p3 + p4,
                seq![rect_paint(RectI32 { x: bar.x, y: bar.y, w: fill_w as i32, h: bar.h }, 0x00AAAAAAu32)],
            );
        }
    } else {
        proof {
            assert(p1 + p2 + p3 + p4 + seq![] =~= p1 + p2 + p3 + p4);
        }
    }
    proof {
        assert(fill_w == slider_fill(value as int, min as int, max as int, bar.w as int));
        let tail: Seq<Paint<u32>> = if fill_w > 0 {
            seq![rect_paint(RectI32 { x: bar.x, y: bar.y, w: fill_w as i32, h: bar.h }, 0x00AAAAAAu32)]
        } else {
            seq![]
        };
        assert(p1 + p2 + p3 + p4 + tail =~= slider_paints(row, label@, value, min, max));
    }
}

/// Where the desktop's three bands of strings end: the top two take 40% of the height
/// each, the bottom one the rest.
pub fn row_band_bounds(height: usize) -> (r: (usize, usize))
    requires
        height <= i32::MAX,
    ensures
        r.0 == height * 2 / 5,
        r.1 == height * 4 / 5,
{
    let h = height as u64;
    ((h * 2 / 5) as usize, (h * 4 / 5) as usize)
}

/// Drawing style of the desktop strings: roots red, other chord notes white, no others.
pub open spec fn desktop_style() -> BestStyle<u32> {
    BestStyle {
        root_prio: 2,
        root_color: 0x00FF0000u32,
        chord_prio: 1,
        chord_color: 0x00FFFFFFu32,
        inactive_prio: 0,
        inactive_color: 0u32,
    }
}

/// What a row of strings shows per column: priorities, colours and pitch classes.
pub open spec fn row_best(w: int, p: Seq<Coord>, chord: Option<Chord>, tpc: int) -> (Seq<u8>, Seq<u32>, Seq<u8>) {
    (
        Seq::new(w as nat, |x: int| best_at(p, chord, tpc, desktop_style(), false, x, p.len() as int).0),
        Seq::new(w as nat, |x: int| best_at(p, chord, tpc, desktop_style(), false, x, p.len() as int).1),
        Seq::new(w as nat, |x: int| best_at(p, chord, tpc, desktop_style(), false, x, p.len() as int).2),
    )
}

/// The chord with its pitch classes flipped.
pub open spec fn inverted(c: Chord) -> Chord {
    Chord { root: c.root, mods: Modifiers { bits: c.mods.bits ^ Modifiers::INVERT } }
}

/// The three rows: the top chord, the bottom chord, and what the bottom chord leaves out.
pub open spec fn desktop_rows(w: int, p: Seq<Coord>, top: Option<Chord>, bottom: Chord, tpc: int) -> Seq<
    (Seq<u8>, Seq<u32>),
> {
    let r0 = row_best(w, p, top, tpc);
    let r1 = row_best(w, p, Some(bottom), tpc);
    let r2 = row_best(w, p, Some(inverted(bottom)), tpc);
    seq![(r0.0, r0.1), (r1.0, r1.1), (r2.0, r2.1)]
}

/// The note names of a row, drawn `y_top` pixels down.
pub open spec fn row_label_paints(row: (Seq<u8>, Seq<u32>, Seq<u8>), tpc: int, y_top: int) -> Seq<Paint<u32>> {
    label_paints(labels_upto(row.0, row.2, row.1, 1, tpc, 4, y_top, row.0.len() as int))
}

/// The settings overlay: the gear button with "SET", and the open panel with its rows.
pub open spec fn overlay_paints(width: u32, show_settings: bool, s: UiSettings) -> Seq<Paint<u32>> {
    let gear = RectI32 { x: (width - 44) as i32, y: 8, w: 36, h: 18 };
    let panel = RectI32 { x: (width - 170) as i32, y: 30, w: 162, h: 100 };
    let rows = panel_rows(panel);
    let base = seq![rect_paint(gear, 0x00222222u32), label_paint(gear.x + 4, gear.y + 4, "SET"@)];
    if show_settings {
        base + seq![rect_paint(panel, 0x00111111u32)] + stroke_paints(panel, 0x00333333u32)
            + checkbox_paints(rows[0], s.play_on_tap, "TAP"@) + checkbox_paints(
            rows[1],
            s.show_note_names,
            "LBL"@,
        ) + checkbox_paints(rows[2], s.show_roman_chords, "ROM"@) + value_paints(
            rows[3],
            "AUD"@,
            if s.audio_backend == UiAudioBackend::Synth {
                "SYN"@
            } else {
                "MID"@
            },
        ) + slider_paints(rows[4], "A4"@, s.a4_tuning_hz, 430, 450)
    } else {
        base
    }
}

/// Everything drawn over the string bands: note names, then the settings overlay.
pub open spec fn frame_paints(
    w: int,
    h: int,
    p: Seq<Coord>,
    top: Option<Chord>,
    bottom: Chord,
    tpc: int,
    show_note_names: bool,
    show_settings: bool,
    width: u32,
    s: UiSettings,
) -> Seq<Paint<u32>> {
    let labels = if show_note_names {
        row_label_paints(row_best(w, p, top, tpc), tpc, 2) + row_label_paints(
            row_best(w, p, Some(bottom), tpc),
            tpc,
            h * 2 / 5 + 2,
        )
    } else {
        seq![]
    };
    labels + overlay_paints(width, show_settings, s)
}

/// Draws the desktop frame into a fresh black `width` by `height` buffer: the three bands
/// of strings (top chord, bottom chord, and what the bottom chord leaves out), the note
/// names of the top two bands when shown, then the settings overlay. Positions are in
/// thousandths of a pixel.
pub fn render_frame(
    width: u32,
    height: u32,
    top_chord: Option<Chord>,
    bottom_chord: Chord,
    positions: &[Coord],
    show_note_names: bool,
    transpose_pc: i16,
    show_settings: bool,
    settings: &UiSettings,
) -> (r: Vec<u32>)
    requires
        width <= 1000000,
        height <= 1000000,
        width * height <= usize::MAX,
        positions@.len() <= 32768,
        transpose_pc <= i16::MAX - 11,
    ensures
        r@.len() == width * height,
        forall|x: int, y: int|
            0 <= x < width && 0 <= y < height ==> #[trigger] r@[pix_idx(width as int, x, y)] == painted(
                frame_paints(
                    width as int,
                    height as int,
                    positions@,
                    top_chord,
                    bottom_chord,
                    transpose_pc as int,
                    show_note_names,
                    show_settings,
                    width,
                    *settings,
                ),
                crate::render_shared::band_color(
                    desktop_rows(width as int, positions@, top_chord, bottom_chord, transpose_pc as int),
                    seq![0usize, (height * 2 / 5) as usize, (height * 4 / 5) as usize, height as usize],
                    x,
                    y,
                    0u32,
                    3,
                ),
                x,
                y,
            ),
{
    let w = width as usize;
    let h = height as usize;
    let total = w * h;
    let mut buf: Vec<u32> = Vec::new();
    let mut i: usize = 0;
    while i < total
        invariant
            i <= total,
            buf@.len() == i,
            forall|j: int| 0 <= j < i ==> buf@[j] == 0u32,
        decreases total - i,
    {
        buf.push(0);
        i = i + 1;
    }
    let ghost zero = buf@;
    let (top_end, mid_end) = row_band_bounds(h);
    let style = BestStyle {
        root_prio: 2,
        root_color: 0x00FF0000u32,
        chord_prio: 1,
        chord_color: 0x00FFFFFFu32,
        inactive_prio: 0,
        inactive_color: 0u32,
    };
    let (tp, tc, tpcs) = compute_best_per_x(w, positions, top_chord, transpose_pc, style, false);
    let (mp, mc, mpcs) = compute_best_per_x(w, positions, Some(bottom_chord), transpose_pc, style, false);
    let inv = bottom_chord.invert();
    let (bp, bc, _bpcs) = compute_best_per_x(w, positions, Some(inv), transpose_pc, style, false);
    let ghost rows_spec = desktop_rows(w as int, positions@, top_chord, bottom_chord, transpose_pc as int);
    proof {
        assert(inv == inverted(bottom_chord));
        let r0 = row_best(w as int, positions@, top_chord, transpose_pc as int);
        let r1 = row_best(w as int, positions@, Some(bottom_chord), transpose_pc as int);
        let r2 = row_best(w as int, positions@, Some(inverted(bottom_chord)), transpose_pc as int);
        assert forall|x: int| 0 <= x < w implies tp@[x] == r0.0[x] && tc@[x] == r0.1[x] && tpcs@[x]
            == r0.2[x] && mp@[x] == r1.0[x] && mc@[x] == r1.1[x] && mpcs@[x] == r1.2[x] && bp@[x]
            == r2.0[x] && bc@[x] == r2.1[x] by {
            assert(tp@[x] == tp@[x]);
            assert(mp@[x] == mp@[x]);
            assert(bp@[x] == bp@[x]);
        }
        assert(tp@ =~= r0.0);
        assert(tc@ =~= r0.1);
        assert(tpcs@ =~= r0.2);
        assert(mp@ =~= r1.0);
        assert(mc@ =~= r1.1);
        assert(mpcs@ =~= r1.2);
        assert(bp@ =~= r2.0);
        assert(bc@ =~= r2.1);
    }
    let mut edges: Vec<usize> = Vec::new();
    edges.push(0);
    edges.push(top_end);
    edges.push(mid_end);
    edges.push(h);
    let rows: [(&[u8], &[u32]); 3] = [
        (tp.as_slice(), tc.as_slice()),
        (mp.as_slice(), mc.as_slice()),
        (bp.as_slice(), bc.as_slice()),
    ];
    proof {
        assert(crate::render_shared::rows_view(rows@) =~= rows_spec);
        assert(edges@ =~= seq![0usize, (height * 2 / 5) as usize, (height * 4 / 5) as usize, height as usize]);
    }
    crate::render_shared::fill_string_bands_rows(buf.as_mut_slice(), w, h, edges.as_slice(), &rows);
    let ghost banded = buf@;
    let ghost wi = w as int;
    let ghost hi = h as int;
    proof {
        assert forall|px: int, py: int| 0 <= px < w && 0 <= py < h implies #[trigger] banded[pix_idx(wi, px, py)]
            == painted(Seq::<Paint<u32>>::empty(), crate::render_shared::band_color(rows_spec, edges@, px, py, 0u32, 3), px, py) by {
            crate::render_shared::lemma_pix_idx(wi, hi, px, py, px, py);
            assert(zero[pix_idx(wi, px, py)] == 0u32);
        }
    }
    let ghost lab: Seq<Paint<u32>> = if show_note_names {
        row_label_paints(row_best(wi, positions@, top_chord, transpose_pc as int), transpose_pc as int, 2)
            + row_label_paints(row_best(wi, positions@, Some(bottom_chord), transpose_pc as int), transpose_pc as int, hi * 2 / 5 + 2)
    } else {
        seq![]
    };
    if show_note_names {
        let top_labels = note_name_labels(tp.as_slice(), tpcs.as_slice(), tc.as_slice(), 1, transpose_pc, 4, 2);
        proof {
            lemma_labels_in_range(top_labels@, tp@, tpcs@, tc@, 1, transpose_pc as int, 2, w as int);
        }
        let ghost b1 = buf@;
        draw_labels(buf.as_mut_slice(), w, h, &top_labels);
        let ghost b2 = buf@;
        let y_mid = top_end as i32 + 2;
        let mid_labels = note_name_labels(mp.as_slice(), mpcs.as_slice(), mc.as_slice(), 1, transpose_pc, 4, y_mid);
        proof {
            lemma_labels_in_range(mid_labels@, mp@, mpcs@, mc@, 1, transpose_pc as int, y_mid as int, w as int);
        }
        draw_labels(buf.as_mut_slice(), w, h, &mid_labels);
        proof {
            let l1 = label_paints(top_labels@.map_values(|l: NoteLabel<u32>| label_view(l)));
            let l2 = label_paints(mid_labels@.map_values(|l: NoteLabel<u32>| label_view(l)));
            lemma_shows_then(banded, b1, b2, wi, hi, Seq::<Paint<u32>>::empty(), l1);
            lemma_shows_then(banded, b2, buf@, wi, hi, Seq::<Paint<u32>>::empty() + l1, l2);
            assert(Seq::<Paint<u32>>::empty() + l1 + l2 =~= lab);
        }
    } else {
        proof {
            assert forall|px: int, py: int| 0 <= px < w && 0 <= py < h implies #[trigger] buf@[pix_idx(wi, px, py)]
                == painted(lab, banded[pix_idx(wi, px, py)], px, py) by {}
        }
    }
    let ghost b3 = buf@;
    draw_overlay(buf.as_mut_slice(), w, h, width, show_settings, settings);
    proof {
        lemma_shows_then(banded, b3, buf@, wi, hi, lab, overlay_paints(width, show_settings, *settings));
        assert forall|x: int, y: int| 0 <= x < width && 0 <= y < height implies #[trigger] buf@[pix_idx(wi, x, y)] == painted(
            frame_paints(wi, hi, positions@, top_chord, bottom_chord, transpose_pc as int, show_note_names, show_settings, width, *settings),
            crate::render_shared::band_color(rows_spec, edges@, x, y, 0u32, 3),
            x,
            y,
        ) by {
            let o = banded[pix_idx(wi, x, y)];
            lemma_painted_concat(Seq::<Paint<u32>>::empty(), lab + overlay_paints(width, show_settings, *settings), o, x, y);
            assert(Seq::<Paint<u32>>::empty() + (lab + overlay_paints(width, show_settings, *settings)) =~= lab + overlay_paints(width, show_settings, *settings));
        }
    }
    buf
}

/// Draws the settings overlay.
fn draw_overlay(buf: &mut [u32], w: usize, h: usize, width: u32, show_settings: bool, settings: &UiSettings)
    requires
        w * h <= old(buf)@.len(),
        w <= i32::MAX,
        h <= i32::MAX,
        width <= 1000000,
    ensures
        shows(final(buf)@, old(buf)@, w as int, h as int, overlay_paints(width, show_settings, *settings)),
{
    let ghost b0 = buf@;
    let ghost wi = w as int;
    let ghost hi = h as int;
    let (gear, panel, rows) = settings_layout(width, 0);
    fill_rect(buf, w, h, gear, 0x00222222);
    let ghost b1 = buf@;
    proof {
        reveal_strlit("SET");
        lemma_label_fits(gear.x + 4, gear.y + 4, 3);
    }
    draw_text_u32(buf, w, h, gear.x + 4, gear.y + 4, "SET", 0x00FFFFFF, 13, 5);
    let ghost b2 = buf@;
    let ghost base = seq![rect_paint(gear, 0x00222222u32), label_paint(gear.x + 4, gear.y + 4, "SET"@)];
    proof {
        lemma_shows_one(b2, b1, wi, hi, label_paint(gear.x + 4, gear.y + 4, "SET"@));
        lemma_shows_then(b0, b1, b2, wi, hi, seq![rect_paint(gear, 0x00222222u32)], seq![label_paint(gear.x + 4, gear.y + 4, "SET"@)]);
        assert(seq![rect_paint(gear, 0x00222222u32)] + seq![label_paint(gear.x + 4, gear.y + 4, "SET"@)] =~= base);
    }
    if show_settings {
        proof {
            reveal_strlit("TAP");
            reveal_strlit("LBL");
            reveal_strlit("ROM");
            reveal_strlit("AUD");
            reveal_strlit("SYN");
            reveal_strlit("MID");
            reveal_strlit("A4");
            assert(rows@ == panel_rows(panel));
        }
        fill_rect(buf, w, h, panel, 0x00111111);
        let ghost b3 = buf@;
        stroke_rect(buf, w, h, panel, 0x00333333);
        let ghost b4 = buf@;
        draw_checkbox_row(buf, w, h, rows[0], settings.play_on_tap, "TAP");
        let ghost b5 = buf@;
        draw_checkbox_row(buf, w, h, rows[1], settings.show_note_names, "LBL");
        let ghost b6 = buf@;
        draw_checkbox_row(buf, w, h, rows[2], settings.show_roman_chords, "ROM");
        let ghost b7 = buf@;
        let backend_label = if settings.audio_backend == UiAudioBackend::Synth {
            "SYN"
        } else {
            "MID"
        };
        draw_value_row(buf, w, h, rows[3], "AUD", backend_label);
        let ghost b8 = buf@;
        draw_slider_row(buf, w, h, rows[4], "A4", settings.a4_tuning_hz, 430, 450);
        proof {
            let q1 = seq![rect_paint(panel, 0x00111111u32)];
            let q2 = stroke_paints(panel, 0x00333333u32);
            let q3 = checkbox_paints(rows@[0], settings.play_on_tap, "TAP"@);
            let q4 = checkbox_paints(rows@[1], settings.show_note_names, "LBL"@);
            let q5 = checkbox_paints(rows@[2], settings.show_roman_chords, "ROM"@);
            let q6 = value_paints(rows@[3], "AUD"@, backend_label@);
            let q7 = slider_paints(rows@[4], "A4"@, settings.a4_tuning_hz, 430, 450);
            lemma_shows_then(b0, b2, b3, wi, hi, base, q1);
            lemma_shows_then(b0, b3, b4, wi, hi, base + q1, q2);
            lemma_shows_then(b0, b4, b5, wi, hi, base + q1 + q2, q3);
            lemma_shows_then(b0, b5, b6, wi, hi, base + q1 + q2 + q3, q4);
            lemma_shows_then(b0, b6, b7, wi, hi, base + q1 + q2 + q3 + q4, q5);
            lemma_shows_then(b0, b7, b8, wi, hi, base + q1 + q2 + q3 + q4 + q5, q6);
            lemma_shows_then(b0, b8, buf@, wi, hi, base + q1 + q2 + q3 + q4 + q5 + q6, q7);
        }
    }
}

} // verus!
