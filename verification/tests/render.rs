use rust_harp::chord::Chord;
use rust_harp::layout::{default_row_specs, note_string_indices, row_index_from_y_norm, row_y_edges};
use rust_harp::notes::UnkeyedNote;
use rust_harp::pixel_font::{draw_text_i32, draw_text_u32, glyph_5x7};
use rust_harp::render_android::{
    android_string_rows, draw_android_labels, fill_android_bands, ANDROID_BACKGROUND,
    ANDROID_INACTIVE_COLOR, ANDROID_ROOT_COLOR,
};
use rust_harp::render_best::{compute_best_per_x, BestStyle};
use rust_harp::render_desktop::{
    fill_rect, hit_rect, hit_settings_rows, render_frame, row_band_bounds, settings_click,
    settings_hit_at_click, settings_layout, stroke_rect, RectI32, SettingsAction, SettingsHit,
};
use rust_harp::render_shared::{fill_string_bands_rows, note_name_labels, NoteLabel};
use rust_harp::ui_settings::{UiAudioBackend, UiSettings};

// Positions are in thousandths of a pixel.

#[test]
fn best_per_x_root_wins_on_collision_and_pc_transposes() {
    // Force root (i=0) and a chord tone (i=4) to round to the same xi.
    let mut positions = vec![-100_000; 8];
    positions[0] = 1200;
    positions[4] = 1300;

    let style = BestStyle {
        root_prio: 2,
        root_color: 10u32,
        chord_prio: 1,
        chord_color: 20u32,
        inactive_prio: 0,
        inactive_color: 0u32,
    };

    let chord = Chord::new_triad(UnkeyedNote(0));

    let (prio0, color0, pc0) = compute_best_per_x(10, &positions, Some(chord), 0, style, false);
    assert_eq!(prio0[1], 2);
    assert_eq!(color0[1], 10);
    assert_eq!(pc0[1], 0);

    let (_prio2, _color2, pc2) = compute_best_per_x(10, &positions, Some(chord), 2, style, false);
    assert_eq!(pc2[1], 2);
}

#[test]
fn best_per_x_skips_inactive_when_disabled() {
    // i=1 is not in the C major triad.
    let mut positions = vec![-100_000; 8];
    positions[1] = 2200; // rounds to 2

    let style = BestStyle {
        root_prio: 2,
        root_color: 1u8,
        chord_prio: 1,
        chord_color: 2u8,
        inactive_prio: 9,
        inactive_color: 3u8,
    };

    let chord = Chord::new_triad(UnkeyedNote(0));
    let (prio, _color, _pc) = compute_best_per_x(10, &positions, Some(chord), 0, style, false);
    assert_eq!(prio[2], 0);
}

#[test]
fn best_per_x_emits_inactive_when_enabled() {
    // i=1 is not in the C major triad.
    let mut positions = vec![-100_000; 8];
    positions[1] = 2200; // rounds to 2

    let style = BestStyle {
        root_prio: 3,
        root_color: 1u8,
        chord_prio: 2,
        chord_color: 2u8,
        inactive_prio: 1,
        inactive_color: 7u8,
    };

    let chord = Chord::new_triad(UnkeyedNote(0));
    let (prio, color, pc) = compute_best_per_x(10, &positions, Some(chord), 0, style, true);
    assert_eq!(prio[2], 1);
    assert_eq!(color[2], 7);
    assert_eq!(pc[2], 1);
}

#[test]
fn best_per_x_rounds_halves_away_from_zero_and_clips() {
    let style = BestStyle {
        root_prio: 1,
        root_color: 1u8,
        chord_prio: 1,
        chord_color: 1u8,
        inactive_prio: 1,
        inactive_color: 1u8,
    };
    // 1.5 rounds to 2; -0.4 rounds to 0; -0.5 rounds to -1 (off screen); 9.6 rounds to 10 (off).
    let positions = vec![1500, -400, -500, 9600];
    let (prio, _c, pc) = compute_best_per_x(10, &positions, None, -1, style, true);
    assert_eq!(prio, vec![1, 0, 1, 0, 0, 0, 0, 0, 0, 0]);
    // Note 1 on column 0, transposed down by one: pitch class 0.
    assert_eq!(pc[0], 0);
    // Note 0 on column 2, transposed down by one: pitch class 11.
    assert_eq!(pc[2], 11);
    assert_eq!(pc[5], 255);
}

#[test]
fn string_bands_paint_rows_where_strings_are() {
    let w = 3;
    let h = 4;
    let mut pixels = vec![0u32; w * h];
    let p0 = [1u8, 0, 1];
    let c0 = [5u32, 5, 5];
    let p1 = [0u8, 1, 1];
    let c1 = [7u32, 8, 9];
    let rows: [(&[u8], &[u32]); 2] = [(&p0, &c0), (&p1, &c1)];
    fill_string_bands_rows(&mut pixels, w, h, &[0, 2, 4], &rows);
    assert_eq!(pixels, vec![5, 0, 5, 5, 0, 5, 0, 8, 9, 0, 8, 9]);
}

#[test]
fn note_name_labels_skip_low_priority_and_empty_columns() {
    let prio = [0u8, 2, 1, 2];
    let pc = [0u8, 1, 4, 255];
    let color = [1u32, 2, 3, 4];
    let labels = note_name_labels(&prio, &pc, &color, 1, 3, 4, 7);
    assert_eq!(
        labels,
        vec![
            NoteLabel { x: 5, y: 7, text: "Db", color: 2 },
            NoteLabel { x: 6, y: 7, text: "E", color: 3 },
        ]
    );
}

#[test]
fn glyphs_match_the_font() {
    assert_eq!(glyph_5x7('A'), [0b01110, 0b10001, 0b10001, 0b11111, 0b10001, 0b10001, 0b10001]);
    assert_eq!(glyph_5x7('#'), [0b01010, 0b11111, 0b01010, 0b01010, 0b11111, 0b01010, 0b01010]);
    assert_eq!(glyph_5x7(' '), [0; 7]);
    assert_eq!(glyph_5x7('z'), [0; 7]);
}

#[test]
fn draw_text_at_unit_scale_lights_glyph_cells() {
    let (w, h) = (12, 8);
    let mut pixels = vec![0u32; w * h];
    draw_text_u32(&mut pixels, w, h, 0, 0, "LT", 9, 1, 1);
    // 'L': left column lit on every row, bottom row fully lit.
    for y in 0..7 {
        assert_eq!(pixels[y * w], 9);
    }
    assert_eq!(pixels[6 * w + 4], 9);
    assert_eq!(pixels[0 * w + 1], 0);
    // 'T' starts after 5 columns and a 1-pixel gap: top row lit across.
    for x in 6..11 {
        assert_eq!(pixels[x], 9);
    }
    assert_eq!(pixels[1 * w + 8], 9);
    assert_eq!(pixels[1 * w + 7], 0);
    // Nothing below the glyphs.
    for x in 0..w {
        assert_eq!(pixels[7 * w + x], 0);
    }
}

#[test]
fn draw_text_scales_and_clips() {
    let (w, h) = (4, 4);
    let mut pixels = vec![0i32; w * h];
    // Scale 2: each glyph cell is 2x2; drawn from (-2, -2) so only part shows.
    draw_text_i32(&mut pixels, w, h, -2, -2, "T", -1, 2, 1);
    // Top row of 'T' is at y = -2..0, off screen; the stem (column 2) is x = 2..4.
    assert_eq!(pixels, vec![0, 0, -1, -1, 0, 0, -1, -1, 0, 0, -1, -1, 0, 0, -1, -1]);
}

#[test]
fn fill_and_stroke_rect_clip_to_the_buffer() {
    let (w, h) = (4, 3);
    let mut buf = vec![0u32; w * h];
    fill_rect(&mut buf, w, h, RectI32 { x: -1, y: 1, w: 3, h: 5 }, 1);
    assert_eq!(buf, vec![0, 0, 0, 0, 1, 1, 0, 0, 1, 1, 0, 0]);
    let mut buf = vec![0u32; w * h];
    stroke_rect(&mut buf, w, h, RectI32 { x: 0, y: 0, w: 4, h: 3 }, 2);
    assert_eq!(buf, vec![2, 2, 2, 2, 2, 0, 0, 2, 2, 2, 2, 2]);
}

#[test]
fn settings_layout_and_hits() {
    let (gear, panel, rows) = settings_layout(800, 600);
    assert_eq!(gear, RectI32 { x: 756, y: 8, w: 36, h: 18 });
    assert_eq!(panel, RectI32 { x: 630, y: 30, w: 162, h: 100 });
    assert_eq!(rows[4], RectI32 { x: 630, y: 110, w: 162, h: 20 });
    assert!(hit_rect(756, 8, gear));
    assert!(!hit_rect(792, 8, gear));
    // Coordinates in thousandths of a pixel.
    assert_eq!(hit_settings_rows(640_000, 35_000, rows), Some(SettingsAction::TogglePlayOnTap));
    assert_eq!(hit_settings_rows(640_000, 55_000, rows), Some(SettingsAction::ToggleShowNoteNames));
    assert_eq!(hit_settings_rows(640_000, 75_000, rows), Some(SettingsAction::ToggleShowRomanChords));
    assert_eq!(hit_settings_rows(640_000, 95_000, rows), Some(SettingsAction::CycleAudioBackend));
    // Slider from x = 690 to 786 maps onto 430..=450.
    assert_eq!(hit_settings_rows(690_000, 115_000, rows), Some(SettingsAction::SetA4Tuning(430)));
    assert_eq!(hit_settings_rows(738_000, 115_000, rows), Some(SettingsAction::SetA4Tuning(440)));
    assert_eq!(hit_settings_rows(786_000, 115_000, rows), Some(SettingsAction::SetA4Tuning(450)));
    assert_eq!(hit_settings_rows(640_000, 115_000, rows), Some(SettingsAction::SetA4Tuning(430)));
    assert_eq!(hit_settings_rows(10_000, 10_000, rows), None);
}

#[test]
fn render_frame_draws_bands_and_overlay() {
    let (w, h) = (200u32, 50u32);
    let positions = vec![10_000, 20_000, 30_000, 40_000, 50_000];
    let chord = Chord::new_triad(UnkeyedNote(0));
    let s = UiSettings::default();
    let px = render_frame(w, h, Some(chord), chord, &positions, false, 0, false, &s);
    assert_eq!(px.len(), (w * h) as usize);
    let at = |x: usize, y: usize| px[y * w as usize + x];
    // Root (note 0) is red in the top band (rows 0..20) and the middle band (20..40).
    assert_eq!(at(10, 0), 0x00FF0000);
    assert_eq!(at(10, 30), 0x00FF0000);
    // Note 4 is a chord tone: white.
    assert_eq!(at(50, 0), 0x00FFFFFF);
    // Note 1 is not in the chord: black in the top bands, white in the bottom band (inverted).
    assert_eq!(at(20, 10), 0);
    assert_eq!(at(20, 45), 0x00FFFFFF);
    // The gear button's background sits in the top-right corner.
    assert_eq!(at(157, 9), 0x00222222);
    let (a, b) = row_band_bounds(50);
    assert_eq!((a, b), (20, 40));
}

#[test]
fn row_edges_and_rows_agree() {
    let specs = default_row_specs();
    assert_eq!(row_y_edges(100, &specs), vec![0, 40, 60, 80, 100]);
    assert_eq!(row_y_edges(7, &specs), vec![0, 2, 4, 5, 7]);
    assert_eq!(row_index_from_y_norm(399, &specs), 0);
    assert_eq!(row_index_from_y_norm(400, &specs), 1);
    assert_eq!(row_index_from_y_norm(799, &specs), 2);
    assert_eq!(row_index_from_y_norm(-50, &specs), 0);
    assert_eq!(row_index_from_y_norm(5000, &specs), 3);
    assert_eq!(row_index_from_y_norm(10, &[]), 0);
}

#[test]
fn note_strings_follow_seven_strings_per_octave() {
    let s = note_string_indices(28);
    assert_eq!(&s[..12], &[0, 0, 1, 1, 2, 3, 3, 4, 4, 5, 6, 6]);
    assert_eq!(s[12], 7);
    // 28 strings hold four octaves: the last note is the B of the fourth octave.
    assert_eq!(s.len(), 48);
    assert_eq!(*s.last().unwrap(), 27);
    assert_eq!(note_string_indices(22).len(), 38);
    assert!(note_string_indices(0).is_empty());
}

#[test]
fn android_rows_bands_and_labels() {
    // Notes 0, 1 and 2 at columns 0, 5 and 10; the rest off screen.
    let positions = vec![0, 5000, 10000, -100_000];
    let c = Chord::new_triad(UnkeyedNote(0));
    let chords = vec![c, c];
    let rows = android_string_rows(12, &positions, &chords, 0);
    assert_eq!(rows.len(), 2);
    // Root red, C# (outside the chord) dim grey, D (outside the triad) dim grey.
    assert_eq!(rows[0].prio[0], 3);
    assert_eq!(rows[0].color[0], ANDROID_ROOT_COLOR);
    assert_eq!(rows[0].prio[5], 1);
    assert_eq!(rows[0].color[5], ANDROID_INACTIVE_COLOR);
    assert_eq!(rows[0].pc[10], 2);
    assert_eq!(rows[0].prio[3], 0);
    assert_eq!(rows[0].pc[3], 255);

    let (w, h) = (12usize, 40usize);
    let mut px = vec![ANDROID_BACKGROUND; w * h];
    let edges = vec![0usize, 20, 40];
    fill_android_bands(&mut px, w, h, &edges, &rows);
    assert_eq!(px[0], ANDROID_ROOT_COLOR);
    assert_eq!(px[25 * w + 5], ANDROID_INACTIVE_COLOR);
    assert_eq!(px[25 * w + 3], ANDROID_BACKGROUND);

    // Labels go only to the root and chord notes: "C" four pixels right of column 0.
    let mut labeled = px.clone();
    draw_android_labels(&mut labeled, w, h, &rows, 0, &edges);
    let mut expected = px.clone();
    draw_text_i32(&mut expected, w, h, 4, 2, "C", ANDROID_ROOT_COLOR, 13, 5);
    draw_text_i32(&mut expected, w, h, 4, 22, "C", ANDROID_ROOT_COLOR, 13, 5);
    assert_eq!(labeled, expected);
    assert_ne!(labeled, px);
}

#[test]
fn settings_clicks_open_apply_and_close() {
    let s = UiSettings::default();
    // The gear toggles the panel; the click is used up.
    assert_eq!(settings_hit_at_click(800, 760_000, 10_000), SettingsHit::Gear);
    let c = settings_click(s, false, SettingsHit::Gear, false);
    assert_eq!((c.settings, c.panel_open, c.consumed, c.save, c.redraw), (s, true, true, false, true));
    assert!(!settings_click(s, true, SettingsHit::Gear, false).panel_open);
    // A row of the open panel applies its action, keeps the panel open, and is saved.
    let hit = settings_hit_at_click(800, 640_000, 35_000);
    assert_eq!(hit, SettingsHit::Panel(Some(SettingsAction::TogglePlayOnTap)));
    let c = settings_click(s, true, hit, false);
    assert!(c.panel_open && c.consumed && c.save && !c.retune && !c.stop_sounding);
    assert_eq!(c.settings.play_on_tap, !s.play_on_tap);
    // The same spot with the panel closed does nothing and strums.
    let c = settings_click(s, false, hit, false);
    assert_eq!((c.settings, c.panel_open, c.consumed, c.save, c.redraw), (s, false, false, false, false));
    // Backend cycling stops the sounding notes first, retunes, and falls back to MIDI
    // without a synth.
    let cyc = SettingsHit::Panel(Some(SettingsAction::CycleAudioBackend));
    let c = settings_click(s, true, cyc, false);
    assert!(c.stop_sounding && c.retune);
    assert_eq!(c.settings.audio_backend, UiAudioBackend::Midi);
    assert_eq!(settings_click(s, true, cyc, true).settings.audio_backend, UiAudioBackend::Synth);
    // The tuning is clamped to 430..=450 and handed on.
    let tune = SettingsHit::Panel(Some(SettingsAction::SetA4Tuning(1000)));
    let c = settings_click(s, true, tune, false);
    assert_eq!(c.settings.a4_tuning_hz, 450);
    assert!(c.retune && !c.stop_sounding);
    // A click elsewhere closes the panel and still strums.
    assert_eq!(settings_hit_at_click(800, 10_000, 300_000), SettingsHit::Outside);
    let c = settings_click(s, true, SettingsHit::Outside, false);
    assert_eq!((c.settings, c.panel_open, c.consumed, c.redraw), (s, false, false, true));
}
