//! Properties that hold across the library's operations.
use crate::app_state::{
    after_decision, actions_step, command_order, key_update, step, AppEffects, AppState, AppView,
    ChordButton, EffectCommand, KeyEvent, KeyState,
};
use crate::chord::{has_flag, mods_mask, Chord, Modifiers};
use crate::app_state::{decide_base, ModButton};
use crate::chord_wheel::{is_major, wheel_preset, WheelDir8};
use crate::input_map::{ascii_lower, button_at, button_event, button_id, normalized_id, UiButton};
use crate::text::{is_ws, lemma_trim_noop, trim, trim_end, trim_start};
use crate::notes::{all_pitch_classes, pc12, pc_name, MidiNote, UnkeyedNote, PitchClassSet, UnmidiNote, UnrootedNote};
use crate::voices::{slot_for, voices_after, VoiceSlot, MAX_VOICES};
use crate::android_frontend::due_note_offs;
use crate::strum::{crossings_from, int_range, lemma_run_end_bounds, run_end, strum_crossings, Coord};
use crate::touch::{crossings_unstruck, struck_notes, touch_step, unstruck, TouchEvent, TouchPhase, TouchView};
use crate::ui_events::{ui_run, UiEvent, UiView};
use crate::ui_settings::{next_android_backend, next_desktop_backend, UiAudioBackend, UiSettings};
use vstd::prelude::*;

verus! {

proof fn lemma_xor_invert_keeps(m: u16)
    by (bit_vector)
    ensures
        (m ^ 4096u16) & 1u16 == m & 1u16,
        (m ^ 4096u16) & 2u16 == m & 2u16,
        (m ^ 4096u16) & 4u16 == m & 4u16,
        (m ^ 4096u16) & 8u16 == m & 8u16,
        (m ^ 4096u16) & 16u16 == m & 16u16,
        (m ^ 4096u16) & 32u16 == m & 32u16,
        (m ^ 4096u16) & 64u16 == m & 64u16,
        (m ^ 4096u16) & 128u16 == m & 128u16,
        (m ^ 4096u16) & 256u16 == m & 256u16,
        (m ^ 4096u16) & 512u16 == m & 512u16,
        (m ^ 4096u16) & 1024u16 == m & 1024u16,
        (m ^ 4096u16) & 2048u16 == m & 2048u16,
        (m ^ 4096u16) & 8192u16 == m & 8192u16,
        (m ^ 4096u16) & 16384u16 == m & 16384u16,
        ((m ^ 4096u16) & 4096u16 == 4096u16) == !(m & 4096u16 == 4096u16),
        (m ^ 4096u16) ^ 4096u16 == m,
{
}

/// The pitch classes that the modifiers give lie in one octave.
proof fn lemma_mods_mask_in_octave(m: u16)
    ensures
        forall|q: int| mods_mask(m).contains(q) ==> 0 <= q < 12,
{
}

/// Inverting a chord twice gives the chord back, and an inverted chord holds exactly the
/// pitch classes that the chord leaves out.
pub proof fn law_invert_is_complement(c: Chord)
    ensures
        (c.mods.bits ^ Modifiers::INVERT) ^ Modifiers::INVERT == c.mods.bits,
        mods_mask(c.mods.bits ^ Modifiers::INVERT) == all_pitch_classes().difference(
            mods_mask(c.mods.bits),
        ),
{
    let m = c.mods.bits;
    let n = m ^ Modifiers::INVERT;
    lemma_xor_invert_keeps(m);
    lemma_mods_mask_in_octave(m);
    assert(mods_mask(n) =~= all_pitch_classes().difference(mods_mask(m)));
}

/// A chord holds a note exactly when it holds the note an octave up or down.
pub proof fn law_chord_contains_is_periodic(c: Chord, note: int)
    ensures
        c.spec_contains(note) == c.spec_contains(note + 12),
        c.spec_contains(note) == c.spec_contains(note - 12),
{
    assert(pc12(note + 12 - c.root.0) == pc12(note - c.root.0));
    assert(pc12(note - 12 - c.root.0) == pc12(note - c.root.0));
}

/// Each wheel direction has its own index, in `0..8`, so `from_i32(d.index())` is `d`.
pub proof fn law_wheel_index_roundtrip(a: WheelDir8, b: WheelDir8)
    ensures
        0 <= a.idx() < 8,
        a.idx() == b.idx() ==> a == b,
{
}

/// Cycling the desktop backend twice comes back to a desktop backend; every cycle lands on one.
pub proof fn law_desktop_cycle(b: UiAudioBackend)
    ensures
        next_desktop_backend(b) == UiAudioBackend::Midi || next_desktop_backend(b)
            == UiAudioBackend::Synth,
        (b == UiAudioBackend::Midi || b == UiAudioBackend::Synth) ==> next_desktop_backend(
            next_desktop_backend(b),
        ) == b,
{
}

/// Cycling the Android backend twice comes back to an Android backend; every cycle lands on one.
pub proof fn law_android_cycle(b: UiAudioBackend)
    ensures
        next_android_backend(b) == UiAudioBackend::AAudio || next_android_backend(b)
            == UiAudioBackend::AudioTrack,
        (b == UiAudioBackend::AAudio || b == UiAudioBackend::AudioTrack) ==> next_android_backend(
            next_android_backend(b),
        ) == b,
{
}

/// Audio commands put every note-off before every note-on, so re-striking a sounding
/// note stops the old voice before the new one starts.
pub proof fn law_stops_before_plays(e: AppEffects)
    ensures
        forall|i: int, j: int|
            0 <= i < command_order(e).len() && 0 <= j < command_order(e).len() && (
            #[trigger] command_order(e)[i]) is Stop && (#[trigger] command_order(e)[j]) is Play
                ==> i < j,
{
    let s = e.stop_notes@.map_values(|n: crate::notes::UnmidiNote| EffectCommand::Stop(n));
    let p = e.stop_bend_pointers@.map_values(
        |q: crate::touch::PointerId| EffectCommand::StopPointer(q),
    );
    let pl = e.play_notes@.map_values(|n: crate::app_state::NoteOn| EffectCommand::Play(n));
    let b = e.bend_notes@.map_values(|n: crate::app_state::BendNote| EffectCommand::Bend(n));
    let c = command_order(e);
    assert(c == s + p + pl + b);
    assert forall|i: int, j: int|
        0 <= i < c.len() && 0 <= j < c.len() && (#[trigger] c[i]) is Stop && (
        #[trigger] c[j]) is Play implies i < j by {
        if i >= s.len() {
            if i < s.len() + p.len() {
                assert(c[i] == p[i - s.len()]);
            } else if i < s.len() + p.len() + pl.len() {
                assert(c[i] == pl[i - s.len() - p.len()]);
            } else {
                assert(c[i] == b[i - s.len() - p.len() - pl.len()]);
            }
        }
        if j < s.len() + p.len() {
            if j < s.len() {
                assert(c[j] == s[j]);
            } else {
                assert(c[j] == p[j - s.len()]);
            }
        } else if j >= s.len() + p.len() + pl.len() {
            assert(c[j] == b[j - s.len() - p.len() - pl.len()]);
        }
    }
}

/// Replaying two recordings one after the other leaves the session as replaying them
/// joined into one.
pub proof fn law_replay_concat(
    v: UiView,
    a: Seq<UiEvent>,
    b: Seq<UiEvent>,
    p: Seq<Coord>,
    s: UiSettings,
)
    ensures
        ui_run(v, a + b, p, s) == ui_run(ui_run(v, a, p, s), b, p, s),
    decreases b.len(),
{
    if b.len() == 0 {
        assert(a + b =~= a);
    } else {
        law_replay_concat(v, a, b.drop_last(), p, s);
        assert((a + b).drop_last() =~= a + b.drop_last());
    }
}

/// A strum reports a position only if it lies after the lower end of the strum and up to
/// its upper end, and every note it reports sits at that position.
pub proof fn law_crossings_at_positions(p: Seq<Coord>, i: int, lo: int, hi: int)
    requires
        0 <= i,
    ensures
        forall|k: int|
            0 <= k < crossings_from(p, i, lo, hi).len() ==> lo < (
            #[trigger] crossings_from(p, i, lo, hi)[k]).0 <= hi,
        forall|k: int, j: int|
            0 <= k < crossings_from(p, i, lo, hi).len() && 0 <= j < crossings_from(
                p,
                i,
                lo,
                hi,
            )[k].1.len() ==> 0 <= #[trigger] crossings_from(p, i, lo, hi)[k].1[j] < p.len()
                && p[crossings_from(p, i, lo, hi)[k].1[j]] == crossings_from(p, i, lo, hi)[k].0,
    decreases p.len() - i,
{
    if i < p.len() {
        lemma_run_end_bounds(p, i);
        let e = run_end(p, i);
        law_crossings_at_positions(p, e, lo, hi);
        let rest = crossings_from(p, e, lo, hi);
        let cs = crossings_from(p, i, lo, hi);
        if lo < p[i] && p[i] <= hi {
            assert forall|k: int| 0 <= k < cs.len() implies lo < (#[trigger] cs[k]).0 <= hi by {
                if k > 0 {
                    assert(cs[k] == rest[k - 1]);
                }
            }
            assert forall|k: int, j: int| 0 <= k < cs.len() && 0 <= j < cs[k].1.len() implies 0
                <= #[trigger] cs[k].1[j] < p.len() && p[cs[k].1[j]] == cs[k].0 by {
                if k > 0 {
                    assert(cs[k] == rest[k - 1]);
                } else {
                    assert(cs[0].1[j] == i + j);
                }
            }
        }
    }
}

/// A strum from `x1` to `x2` crosses the same strings as one from `x2` to `x1`.
pub proof fn law_strum_direction(x1: int, x2: int, p: Seq<Coord>)
    ensures
        strum_crossings(x1, x2, p) == strum_crossings(x2, x1, p),
{
}

proof fn lemma_unstruck_excludes(ns: Seq<int>, struck: Set<int>)
    ensures
        forall|j: int|
            0 <= j < unstruck(ns, struck).len() ==> !struck.contains(
                #[trigger] unstruck(ns, struck)[j],
            ),
    decreases ns.len(),
{
    if ns.len() > 0 {
        lemma_unstruck_excludes(ns.drop_last(), struck);
        let rest = unstruck(ns.drop_last(), struck);
        let u = unstruck(ns, struck);
        assert forall|j: int| 0 <= j < u.len() implies !struck.contains(#[trigger] u[j]) by {
            if j < rest.len() {
                assert(u[j] == rest[j]);
            }
        }
    }
}

proof fn lemma_crossings_unstruck_excludes(cs: Seq<(int, Seq<int>)>, struck: Set<int>)
    ensures
        forall|k: int, j: int|
            0 <= k < crossings_unstruck(cs, struck).len() && 0 <= j < crossings_unstruck(
                cs,
                struck,
            )[k].1.len() ==> !struck.contains(#[trigger] crossings_unstruck(cs, struck)[k].1[j]),
    decreases cs.len(),
{
    if cs.len() > 0 {
        lemma_crossings_unstruck_excludes(cs.drop_last(), struck);
        lemma_unstruck_excludes(cs.last().1, struck);
        let rest = crossings_unstruck(cs.drop_last(), struck);
        let u = crossings_unstruck(cs, struck);
        assert forall|k: int, j: int| 0 <= k < u.len() && 0 <= j < u[k].1.len() implies !struck.contains(
            #[trigger] u[k].1[j],
        ) by {
            if k < rest.len() {
                assert(u[k] == rest[k]);
            }
        }
    }
}

/// A note that some pointer holds by a tap is never strummed, and moving one pointer
/// leaves every other pointer's position and held note alone.
pub proof fn law_touch_pointers(v: TouchView, ev: TouchEvent, p: Seq<Coord>, allowed: Seq<bool>, other: u64)
    requires
        other != ev.id.0,
    ensures
        ({
            let (v2, _strike, cs) = touch_step(v, ev, p, allowed);
            &&& forall|k: int, j: int|
                0 <= k < cs.len() && 0 <= j < cs[k].1.len() ==> !crate::touch::struck_notes(
                    v.struck,
                ).contains(#[trigger] cs[k].1[j])
            &&& v2.last_x.contains_key(other) == v.last_x.contains_key(other)
            &&& v2.last_x[other] == v.last_x[other]
            &&& v2.struck.contains_key(other) == v.struck.contains_key(other)
            &&& v2.struck[other] == v.struck[other]
        }),
{
    if ev.phase == TouchPhase::Move && v.last_x.contains_key(ev.id.0) {
        lemma_crossings_unstruck_excludes(
            strum_crossings(v.last_x[ev.id.0] as int, ev.x as int, p),
            crate::touch::struck_notes(v.struck),
        );
    }
}

/// Lifting or cancelling a pointer forgets it.
pub proof fn law_touch_release_forgets(v: TouchView, ev: TouchEvent, p: Seq<Coord>, allowed: Seq<bool>)
    requires
        ev.phase == TouchPhase::Up || ev.phase == TouchPhase::Cancel,
    ensures
        !touch_step(v, ev, p, allowed).0.last_x.contains_key(ev.id.0),
        !touch_step(v, ev, p, allowed).0.struck.contains_key(ev.id.0),
        touch_step(v, ev, p, allowed).1 is None,
        touch_step(v, ev, p, allowed).2.len() == 0,
{
}

/// Every element of a scan satisfies the scan's filter.
proof fn lemma_scan_filter_keeps(lo: int, n: int, keep: spec_fn(crate::notes::UnmidiNote) -> bool)
    ensures
        forall|i: int|
            0 <= i < crate::app_state::scan_filter(lo, n, keep).len() ==> keep(
                #[trigger] crate::app_state::scan_filter(lo, n, keep)[i],
            ),
{
    broadcast use vstd::seq_lib::group_filter_ensures;

    assert(crate::app_state::scan_filter(lo, n, keep) == Seq::new(
        n as nat,
        |k: int| crate::notes::UnmidiNote((k + lo) as i16),
    ).filter(keep));
}

/// Facts about one step, given that the top-row notes are sounding notes.
proof fn lemma_step_sounding(v: AppView, ev: KeyEvent)
    requires
        v.top.subset_of(v.active),
    ensures
        step(v, ev).0.top.subset_of(step(v, ev).0.active),
        forall|i: int|
            0 <= i < step(v, ev).1.stop.len() ==> v.active.contains(#[trigger] step(v, ev).1.stop[i]),
        forall|i: int|
            0 <= i < step(v, ev).1.play.len() ==> step(v, ev).0.active.contains(
                (#[trigger] step(v, ev).1.play[i]).note,
            ),
{
    match ev {
        KeyEvent::StrumCrossing { row, note, volume } => {},
        _ => {
            let (v1, pressed) = key_update(v, ev);
            assert(v1.active == v.active && v1.top == v.top);
            if v1.chord_keys != Set::<int>::empty() {
                let (v2, stops) = after_decision(v1, pressed);
                let chord = crate::app_state::decided_chord(v1, pressed);
                if crate::app_state::chord_changed(v1, pressed) {
                    lemma_scan_filter_keeps(
                        0,
                        crate::app_state::STOP_SCAN as int,
                        crate::app_state::stopped_by_change(chord, v1.transpose, v1.top),
                    );
                }
                assert forall|i: int| 0 <= i < stops.len() implies v1.top.contains(
                    #[trigger] stops[i],
                ) by {}
                let (v3, e) = actions_step(v2);
                let t = v3.transpose;
                let pn = if has_flag(v2.action_stage, crate::app_state::Actions::PULSE) {
                    crate::app_state::pulse_notes(v2.active_chord, t)
                } else {
                    seq![]
                };
                broadcast use vstd::seq_lib::group_filter_ensures;

                assert forall|i: int| 0 <= i < e.stop.len() implies v2.active.contains(
                    #[trigger] e.stop[i],
                ) by {}
                let all = stops + e.stop;
                assert forall|i: int| 0 <= i < all.len() implies v.active.contains(#[trigger] all[i]) by {
                    if i < stops.len() {
                        assert(all[i] == stops[i]);
                    } else {
                        assert(all[i] == e.stop[i - stops.len()]);
                    }
                }
                assert forall|i: int| 0 <= i < e.play.len() implies v3.active.contains(
                    (#[trigger] e.play[i]).note,
                ) by {
                    assert(e.play[i].note == pn[i]);
                    assert(pn.to_set().contains(pn[i]));
                }
            }
        },
    }
}

/// Notes started from the top row are always among the sounding notes: every key event
/// keeps it so.
pub proof fn law_top_row_notes_are_sounding(v: AppView, ev: KeyEvent)
    requires
        v.top.subset_of(v.active),
    ensures
        step(v, ev).0.top.subset_of(step(v, ev).0.active),
{
    lemma_step_sounding(v, ev);
}

/// A key event only stops notes that were sounding, and every note it plays is sounding
/// afterwards; so a re-struck note is stopped and restarted, never left silent.
pub proof fn law_stops_and_plays(v: AppView, ev: KeyEvent)
    requires
        v.top.subset_of(v.active),
    ensures
        forall|i: int|
            0 <= i < step(v, ev).1.stop.len() ==> v.active.contains(#[trigger] step(v, ev).1.stop[i]),
        forall|i: int|
            0 <= i < step(v, ev).1.play.len() ==> step(v, ev).0.active.contains(
                (#[trigger] step(v, ev).1.play[i]).note,
            ),
{
    lemma_step_sounding(v, ev);
}

/// The stable numbering of the on-screen buttons: each button has its own index, below
/// the button count, and the index leads back to the button.
pub proof fn law_button_index_roundtrip(a: UiButton, b: UiButton)
    ensures
        0 <= a.idx() < 15,
        button_at(a.idx()) == a,
        a.idx() == b.idx() ==> a == b,
{
}

proof fn lemma_id_normal(s: Seq<char>)
    requires
        s.len() > 0,
        forall|i: int| 0 <= i < s.len() ==> 'a' <= #[trigger] s[i] <= 'z' || '0' <= s[i] <= '9' || s[i] == '_',
    ensures
        normalized_id(s) == s,
{
    crate::text::lemma_trim_noop(s);
    assert(normalized_id(s) =~= s);
}

/// Button ids are already in normal form and no two buttons share one, so
/// `from_id(b.id())` finds `b`.
pub proof fn law_button_id_roundtrip(a: UiButton, b: UiButton)
    ensures
        normalized_id(button_id(a)) == button_id(a),
        button_id(a) == button_id(b) ==> a == b,
{
    reveal_strlit("v");
    reveal_strlit("i");
    reveal_strlit("iv");
    reveal_strlit("viib");
    reveal_strlit("ii");
    reveal_strlit("vi");
    reveal_strlit("iii");
    reveal_strlit("vii_dim");
    reveal_strlit("maj7");
    reveal_strlit("no3");
    reveal_strlit("sus4");
    reveal_strlit("minor_major");
    reveal_strlit("add2");
    reveal_strlit("add7");
    reveal_strlit("hept");
    lemma_id_normal(button_id(a));
    if button_id(a) == button_id(b) {
        let s = button_id(a);
        assert(s.len() == button_id(b).len());
        assert(s[0] == button_id(b)[0]);
        if s.len() > 1 {
            assert(s[1] == button_id(b)[1]);
        }
        if s.len() > 2 {
            assert(s[2] == button_id(b)[2]);
        }
        if s.len() > 3 {
            assert(s[3] == button_id(b)[3]);
        }
    }
}

/// A chord decision that changes the chord silences every top-row note of the scanned
/// range that the new chord leaves out.
pub proof fn law_chord_change_silences(v: AppView, pressed: bool, un: crate::notes::UnmidiNote)
    requires
        crate::app_state::chord_changed(v, pressed),
        0 <= un.0 < crate::app_state::STOP_SCAN,
        after_decision(v, pressed).0.top.contains(un),
    ensures
        crate::app_state::decided_chord(v, pressed).spec_contains(un.0 - v.transpose),
{
    let chord = crate::app_state::decided_chord(v, pressed);
    let keep = crate::app_state::stopped_by_change(chord, v.transpose, v.top);
    let f = |k: int| crate::notes::UnmidiNote((k + 0) as i16);
    let all = Seq::new(crate::app_state::STOP_SCAN as nat, f);
    if !chord.spec_contains(un.0 - v.transpose) {
        broadcast use vstd::seq_lib::group_filter_ensures;

        assert(all.filter(keep).contains(all[un.0 as int]));
        assert(all[un.0 as int] == un);
        assert(keep(all[un.0 as int]));
        assert(crate::app_state::change_stops(chord, v.transpose, v.top).to_set().contains(un));
    }
}

/// A flush of deferred note-offs sends one for each held-back note that is not sounding,
/// exactly once, and none for a sounding note.
pub proof fn law_deferred_note_offs(notes: Seq<UnmidiNote>, active: Set<UnmidiNote>)
    ensures
        due_note_offs(notes, active).no_duplicates(),
        forall|un: UnmidiNote|
            #[trigger] due_note_offs(notes, active).contains(un) <==> (notes.contains(un)
                && !active.contains(un)),
    decreases notes.len(),
{
    if notes.len() > 0 {
        let init = notes.drop_last();
        let last = notes.last();
        law_deferred_note_offs(init, active);
        let rest = due_note_offs(init, active);
        assert forall|un: UnmidiNote| notes.contains(un) <==> (init.contains(un) || un == last) by {
            if notes.contains(un) {
                let k = choose|k: int| 0 <= k < notes.len() && notes[k] == un;
                if k < notes.len() - 1 {
                    assert(init[k] == un);
                }
            }
            if init.contains(un) {
                let k = choose|k: int| 0 <= k < init.len() && init[k] == un;
                assert(notes[k] == un);
            }
            if un == last {
                assert(notes[notes.len() - 1] == un);
            }
        }
        if !(active.contains(last) || rest.contains(last)) {
            let out = rest.push(last);
            assert forall|un: UnmidiNote| out.contains(un) <==> (rest.contains(un) || un == last) by {
                if out.contains(un) {
                    let k = choose|k: int| 0 <= k < out.len() && out[k] == un;
                    if k < rest.len() {
                        assert(rest[k] == un);
                    }
                }
                if rest.contains(un) {
                    let k = choose|k: int| 0 <= k < rest.len() && rest[k] == un;
                    assert(out[k] == un);
                }
                if un == last {
                    assert(out[rest.len() as int] == un);
                }
            }
            assert forall|a: int, b: int| 0 <= a < out.len() && 0 <= b < out.len() && a != b implies out[a]
                != out[b] by {
                if a == rest.len() {
                    assert(rest.contains(out[b]));
                } else if b == rest.len() {
                    assert(rest.contains(out[a]));
                }
            }
        }
    }
}

/// A note never sounds in two of the synth's voices, and at most sixteen voices sound: a
/// new note keeps it so, and sounds afterwards.
pub proof fn law_voices_distinct_and_bounded(playing: Seq<MidiNote>, midi: MidiNote)
    requires
        playing.no_duplicates(),
        playing.len() <= MAX_VOICES,
    ensures
        ({
            let after = voices_after(playing, midi, slot_for(playing, midi));
            &&& after.no_duplicates()
            &&& after.len() <= MAX_VOICES
            &&& after.contains(midi)
        }),
{
    let slot = slot_for(playing, midi);
    let after = voices_after(playing, midi, slot);
    match slot {
        VoiceSlot::Reuse(i) => {
            assert(after =~= playing);
            assert(after[i as int] == midi);
        },
        VoiceSlot::EvictFirst => {
            let kept = playing.update(0, playing.last()).drop_last();
            assert forall|a: int, b: int| 0 <= a < kept.len() && 0 <= b < kept.len() && a != b implies kept[a]
                != kept[b] by {
                let ia = if a == 0 { playing.len() - 1 } else { a };
                let ib = if b == 0 { playing.len() - 1 } else { b };
                assert(kept[a] == playing[ia]);
                assert(kept[b] == playing[ib]);
            }
            assert forall|a: int| 0 <= a < kept.len() implies kept[a] != midi by {
                let ia = if a == 0 { playing.len() - 1 } else { a };
                assert(kept[a] == playing[ia]);
            }
            assert forall|a: int, b: int| 0 <= a < after.len() && 0 <= b < after.len() && a != b implies after[a]
                != after[b] by {
                if a < kept.len() && b < kept.len() {
                    assert(after[a] == kept[a] && after[b] == kept[b]);
                } else if a < kept.len() {
                    assert(after[a] == kept[a]);
                } else if b < kept.len() {
                    assert(after[b] == kept[b]);
                }
            }
            assert(after[after.len() - 1] == midi);
        },
        VoiceSlot::Append => {
            assert forall|a: int, b: int| 0 <= a < after.len() && 0 <= b < after.len() && a != b implies after[a]
                != after[b] by {
                if a < playing.len() && b < playing.len() {
                    assert(after[a] == playing[a] && after[b] == playing[b]);
                } else if a < playing.len() {
                    assert(after[a] == playing[a]);
                } else if b < playing.len() {
                    assert(after[b] == playing[b]);
                }
            }
            assert(after[after.len() - 1] == midi);
        },
    }
}

/// Removing a pitch class that was just added to a set without it gives the set back,
/// bit for bit.
pub proof fn law_remove_undoes_insert(o: PitchClassSet, pc: UnrootedNote)
    requires
        pc.0 < 16,
        !o@.contains(pc.0 as int),
    ensures
        (o.0 | (1u16 << (pc.0 as u16))) & !(1u16 << (pc.0 as u16)) == o.0,
        o@.insert(pc.0 as int).remove(pc.0 as int) == o@,
{
    let m = o.0;
    let p = pc.0 as u16;
    assert((m >> p) & 1u16 != 1u16);
    assert((m | (1u16 << p)) & !(1u16 << p) == m) by (bit_vector)
        requires
            p < 16,
            (m >> p) & 1u16 != 1u16,
    ;
    assert(o@.insert(pc.0 as int).remove(pc.0 as int) =~= o@);
}

/// The harp after a run of key events, in order.
pub open spec fn run_events(v: AppView, evs: Seq<KeyEvent>) -> AppView
    decreases evs.len(),
{
    if evs.len() == 0 {
        v
    } else {
        step(run_events(v, evs.drop_last()), evs.last()).0
    }
}

/// Whether the latest event for chord button `b` among `evs` pressed it, if there is one.
pub open spec fn last_chord_press(evs: Seq<KeyEvent>, b: ChordButton) -> Option<bool>
    decreases evs.len(),
{
    if evs.len() == 0 {
        None
    } else {
        match evs.last() {
            KeyEvent::Chord { state, button } => if button == b {
                Some(state == KeyState::Pressed)
            } else {
                last_chord_press(evs.drop_last(), b)
            },
            _ => last_chord_press(evs.drop_last(), b),
        }
    }
}

/// A chord button is held exactly when the latest event for it pressed it; with no event
/// for it, it is as it was. So from a fresh harp, it is held exactly when it was pressed at
/// least once and the latest event for it was a press.
pub proof fn law_chord_button_held(v: AppView, evs: Seq<KeyEvent>, b: ChordButton)
    ensures
        run_events(v, evs).chord_keys.contains(b.idx()) == match last_chord_press(evs, b) {
            Some(p) => p,
            None => v.chord_keys.contains(b.idx()),
        },
    decreases evs.len(),
{
    if evs.len() > 0 {
        law_chord_button_held(v, evs.drop_last(), b);
        let u = run_events(v, evs.drop_last());
        let ev = evs.last();
        assert(step(u, ev).0.chord_keys == key_update(u, ev).0.chord_keys);
        if let KeyEvent::Chord { state, button } = ev {
            if button != b {
                assert(button.idx() != b.idx());
            }
        }
    }
}

proof fn lemma_trim_start_first(s: Seq<char>)
    ensures
        trim_start(s).len() > 0 ==> !is_ws(trim_start(s)[0]),
    decreases s.len(),
{
    if s.len() > 0 && is_ws(s[0]) {
        lemma_trim_start_first(s.drop_first());
    }
}

proof fn lemma_trim_end_ends(x: Seq<char>)
    ensures
        trim_end(x).len() <= x.len(),
        trim_end(x) == x.subrange(0, trim_end(x).len() as int),
        trim_end(x).len() > 0 ==> !is_ws(trim_end(x).last()),
    decreases x.len(),
{
    if x.len() > 0 && is_ws(x.last()) {
        lemma_trim_end_ends(x.drop_last());
        assert(x.drop_last().subrange(0, trim_end(x).len() as int) =~= x.subrange(
            0,
            trim_end(x).len() as int,
        ));
    } else {
        assert(x.subrange(0, x.len() as int) =~= x);
    }
}

/// Ids are matched in normal form, and normalizing is idempotent: an id and its normal
/// form find the same button (`UiButton::from_id`).
pub proof fn law_normalized_id_idempotent(s: Seq<char>)
    ensures
        normalized_id(normalized_id(s)) == normalized_id(s),
{
    let t = trim(s);
    let l = normalized_id(s);
    lemma_trim_start_first(s);
    lemma_trim_end_ends(trim_start(s));
    assert(l.len() == t.len());
    if l.len() > 0 {
        assert(t[0] == trim_start(s)[0]);
        assert(l[0] == ascii_lower(t[0]));
        assert(l.last() == ascii_lower(t.last()));
        assert(!is_ws(l[0]));
        assert(!is_ws(l.last()));
        lemma_trim_noop(l);
    } else {
        assert(trim_start(l) == l);
        assert(trim_end(l) == l);
    }
    assert(normalized_id(l) =~= l);
}

/// `ns` are the consecutive indices of a run of equal positions that cannot be made
/// longer: the positions just before and just after it (if any) differ.
pub open spec fn is_maximal_run(p: Seq<Coord>, ns: Seq<int>) -> bool {
    &&& ns.len() > 0
    &&& 0 <= ns[0]
    &&& ns[0] + ns.len() <= p.len()
    &&& forall|m: int| 0 <= m < ns.len() ==> #[trigger] ns[m] == ns[0] + m && p[ns[m]] == p[ns[0]]
    &&& ns[0] == 0 || p[ns[0] - 1] != p[ns[0]]
    &&& ns[0] + ns.len() == p.len() || p[ns[0] + ns.len()] != p[ns[0]]
}

proof fn lemma_run_end_stops(p: Seq<Coord>, i: int)
    requires
        0 <= i < p.len(),
    ensures
        run_end(p, i) == p.len() || p[run_end(p, i)] != p[i],
    decreases p.len() - i,
{
    if !(i + 1 >= p.len() || p[i + 1] != p[i]) {
        lemma_run_end_stops(p, i + 1);
    }
}

/// The crossings of a strum are the maximal runs of equal positions that lie after the
/// lower end and up to the upper end, in order: each crossing's notes are consecutive
/// indices with the same position, whose neighbours on both sides (if any) lie elsewhere,
/// and every index whose position lies in that range is a note of a crossing. This holds
/// from any index `i` that starts a run.
#[verifier::spinoff_prover]
#[verifier::rlimit(40)]
pub proof fn law_crossings_are_maximal_runs(p: Seq<Coord>, i: int, lo: int, hi: int)
    requires
        0 <= i <= p.len(),
        i == 0 || i == p.len() || p[i - 1] != p[i],
    ensures
        forall|k: int|
            0 <= k < crossings_from(p, i, lo, hi).len() ==> is_maximal_run(
                p,
                #[trigger] crossings_from(p, i, lo, hi)[k].1,
            ) && i <= crossings_from(p, i, lo, hi)[k].1[0],
        forall|j: int|
            #![trigger p[j]]
            i <= j < p.len() && lo < p[j] <= hi ==> exists|k: int, m: int|
                0 <= k < crossings_from(p, i, lo, hi).len() && 0 <= m < crossings_from(
                    p,
                    i,
                    lo,
                    hi,
                )[k].1.len() && #[trigger] crossings_from(p, i, lo, hi)[k].1[m] == j,
    decreases p.len() - i,
{
    if i < p.len() {
        lemma_run_end_bounds(p, i);
        lemma_run_end_stops(p, i);
        let e = run_end(p, i);
        if e < p.len() {
            assert(p[e - 1] == p[i]);
        }
        law_crossings_are_maximal_runs(p, e, lo, hi);
        let rest = crossings_from(p, e, lo, hi);
        let cs = crossings_from(p, i, lo, hi);
        let keep = lo < p[i] && p[i] <= hi;
        assert forall|k: int| 0 <= k < cs.len() implies is_maximal_run(p, #[trigger] cs[k].1) && i
            <= cs[k].1[0] by {
            if keep && k == 0 {
                assert(cs[0].1 == int_range(i, e));
            } else if keep {
                assert(cs[k] == rest[k - 1]);
            } else {
                assert(cs[k] == rest[k]);
            }
        }
        assert forall|j: int| #![trigger p[j]] i <= j < p.len() && lo < p[j] <= hi implies exists|k: int, m: int|
            0 <= k < cs.len() && 0 <= m < cs[k].1.len() && #[trigger] cs[k].1[m] == j by {
            if j < e {
                assert(p[j] == p[i]);
                assert(cs[0].1 == int_range(i, e));
                assert(cs[0].1[j - i] == j);
            } else {
                let (k, m) = choose|k: int, m: int|
                    0 <= k < rest.len() && 0 <= m < rest[k].1.len() && #[trigger] rest[k].1[m] == j;
                if keep {
                    assert(cs[k + 1] == rest[k]);
                    assert(cs[k + 1].1[m] == j);
                } else {
                    assert(cs[k] == rest[k]);
                    assert(cs[k].1[m] == j);
                }
            }
        }
    }
}

/// What `detect_crossings` returns (its crossings are `strum_crossings`): in index order,
/// one crossing per maximal run of equal positions that lies after the lower end of the
/// strum and up to its upper end, at that position, and nothing else; the same either way
/// round.
pub proof fn law_detect_crossings(x1: int, x2: int, p: Seq<Coord>)
    ensures
        ({
            let lo = if x1 <= x2 { x1 } else { x2 };
            let hi = if x1 <= x2 { x2 } else { x1 };
            let cs = strum_crossings(x1, x2, p);
            &&& forall|k: int|
                0 <= k < cs.len() ==> is_maximal_run(p, #[trigger] cs[k].1) && cs[k].0 == p[cs[k].1[0]]
                    && lo < cs[k].0 <= hi
            &&& forall|k1: int, k2: int| 0 <= k1 < k2 < cs.len() ==> #[trigger] cs[k1].1[0] < #[trigger] cs[k2].1[0]
            &&& forall|j: int|
                #![trigger p[j]]
                0 <= j < p.len() && lo < p[j] <= hi ==> exists|k: int, m: int|
                    0 <= k < cs.len() && 0 <= m < cs[k].1.len() && #[trigger] cs[k].1[m] == j
            &&& cs == strum_crossings(x2, x1, p)
        }),
{
    let lo = if x1 <= x2 { x1 } else { x2 };
    let hi = if x1 <= x2 { x2 } else { x1 };
    law_crossings_are_maximal_runs(p, 0, lo, hi);
    law_crossings_at_positions(p, 0, lo, hi);
    lemma_crossings_ordered(p, 0, lo, hi);
    let cs = strum_crossings(x1, x2, p);
    assert forall|k: int| 0 <= k < cs.len() implies is_maximal_run(p, #[trigger] cs[k].1) && cs[k].0
        == p[cs[k].1[0]] && lo < cs[k].0 <= hi by {
        assert(cs[k].1[0] == cs[k].1[0]);
    }
}

/// The crossings from a run start come in increasing index order.
proof fn lemma_crossings_ordered(p: Seq<Coord>, i: int, lo: int, hi: int)
    requires
        0 <= i <= p.len(),
        i == 0 || i == p.len() || p[i - 1] != p[i],
    ensures
        forall|k1: int, k2: int|
            0 <= k1 < k2 < crossings_from(p, i, lo, hi).len() ==> #[trigger] crossings_from(p, i, lo, hi)[k1].1[0]
                < #[trigger] crossings_from(p, i, lo, hi)[k2].1[0],
    decreases p.len() - i,
{
    if i < p.len() {
        lemma_run_end_bounds(p, i);
        lemma_run_end_stops(p, i);
        let e = run_end(p, i);
        if e < p.len() {
            assert(p[e - 1] == p[i]);
        }
        lemma_crossings_ordered(p, e, lo, hi);
        law_crossings_are_maximal_runs(p, e, lo, hi);
        let rest = crossings_from(p, e, lo, hi);
        let cs = crossings_from(p, i, lo, hi);
        if lo < p[i] && p[i] <= hi {
            assert forall|k1: int, k2: int| 0 <= k1 < k2 < cs.len() implies #[trigger] cs[k1].1[0]
                < #[trigger] cs[k2].1[0] by {
                assert(cs[k2] == rest[k2 - 1]);
                assert(is_maximal_run(p, rest[k2 - 1].1));
                if k1 == 0 {
                    assert(cs[0].1 == int_range(i, e));
                } else {
                    assert(cs[k1] == rest[k1 - 1]);
                }
            }
        }
    }
}

/// From a fresh harp, after any run of key events, the top-row notes are sounding notes;
/// so `law_stops_and_plays` holds at every state the harp can reach.
pub proof fn law_reachable_top_row_sounding(evs: Seq<KeyEvent>)
    ensures
        run_events(AppState::new_view(), evs).top.subset_of(run_events(AppState::new_view(), evs).active),
    decreases evs.len(),
{
    if evs.len() == 0 {
        assert(AppState::new_view().top =~= Set::<UnmidiNote>::empty());
    } else {
        law_reachable_top_row_sounding(evs.drop_last());
        law_top_row_notes_are_sounding(run_events(AppState::new_view(), evs.drop_last()), evs.last());
    }
}

proof fn lemma_filter_no_duplicates<A>(s: Seq<A>, f: spec_fn(A) -> bool)
    requires
        s.no_duplicates(),
    ensures
        s.filter(f).no_duplicates(),
    decreases s.len(),
{
    if s.len() > 0 {
        let s0 = s.drop_last();
        let a = s.last();
        assert(s0.no_duplicates()) by {
            assert forall|x: int, y: int| 0 <= x < s0.len() && 0 <= y < s0.len() && x != y implies s0[x]
                != s0[y] by {
                assert(s0[x] == s[x] && s0[y] == s[y]);
            }
        }
        lemma_filter_no_duplicates(s0, f);
        assert(s0.push(a) =~= s);
        s0.lemma_filter_push(a, f);
        if f(a) {
            if s0.filter(f).contains(a) {
                s0.lemma_filter_contains_rev(f, a);
                let k = choose|k: int| 0 <= k < s0.len() && s0[k] == a;
                assert(s[k] == s[s.len() - 1]);
            }
            let t = s0.filter(f).push(a);
            assert forall|x: int, y: int| 0 <= x < t.len() && 0 <= y < t.len() && x != y implies t[x]
                != t[y] by {
                if x < t.len() - 1 && y < t.len() - 1 {
                    assert(t[x] == s0.filter(f)[x] && t[y] == s0.filter(f)[y]);
                } else if x < t.len() - 1 {
                    assert(s0.filter(f).contains(t[x]));
                } else if y < t.len() - 1 {
                    assert(s0.filter(f).contains(t[y]));
                }
            }
        }
    }
}

/// A scan over notes that stay within the `i16` range names each note once.
proof fn lemma_scan_no_duplicates(lo: int, n: int, keep: spec_fn(UnmidiNote) -> bool)
    requires
        0 <= n,
        i16::MIN <= lo,
        lo + n <= i16::MAX + 1,
    ensures
        crate::app_state::scan_filter(lo, n, keep).no_duplicates(),
{
    let all = Seq::new(n as nat, |k: int| UnmidiNote((k + lo) as i16));
    assert forall|x: int, y: int| 0 <= x < all.len() && 0 <= y < all.len() && x != y implies all[x]
        != all[y] by {
        assert(all[x].0 == x + lo && all[y].0 == y + lo);
    }
    lemma_filter_no_duplicates(all, keep);
}

/// A key event stops each note at most once.
pub proof fn law_stops_once(v: AppView, ev: KeyEvent)
    ensures
        step(v, ev).1.stop.no_duplicates(),
{
    match ev {
        KeyEvent::StrumCrossing { .. } => {},
        _ => {
            let (v1, pressed) = key_update(v, ev);
            if v1.chord_keys != Set::<int>::empty() {
                let (v2, stops) = after_decision(v1, pressed);
                let chord = crate::app_state::decided_chord(v1, pressed);
                lemma_scan_no_duplicates(
                    0,
                    crate::app_state::STOP_SCAN as int,
                    crate::app_state::stopped_by_change(chord, v1.transpose, v1.top),
                );
                let (v3, e) = actions_step(v2);
                let t = v3.transpose;
                let keep = |un: UnmidiNote| v2.active.contains(un);
                let pn = if has_flag(v2.action_stage, crate::app_state::Actions::PULSE) {
                    crate::app_state::pulse_notes(v2.active_chord, t)
                } else {
                    seq![]
                };
                lemma_scan_no_duplicates(
                    crate::app_state::PULSE_LOW as int,
                    (crate::app_state::PULSE_HIGH - crate::app_state::PULSE_LOW) as int,
                    crate::app_state::pulsed(v2.active_chord, t),
                );
                lemma_filter_no_duplicates(pn, keep);
                assert(e.stop == pn.filter(keep));
                assert forall|a: int, b: int| 0 <= a < stops.len() && 0 <= b < e.stop.len() implies stops[a]
                    != e.stop[b] by {
                    broadcast use vstd::seq_lib::group_filter_ensures;

                    assert(keep(e.stop[b]));
                    assert(stops.to_set().contains(stops[a]));
                }
                vstd::seq_lib::lemma_no_dup_in_concat(stops, e.stop);
            }
        },
    }
}


proof fn lemma_wheel_bits()
    by (bit_vector)
    ensures
        32u16 | 8u16 == 40u16,
        (1024u16 | 32u16) | 8u16 == 1064u16,
        1024u16 | 32u16 == 1056u16,
        1024u16 | 64u16 == 1088u16,
{
}

/// The swipe wheel's presets, by direction clockwise from north. A major degree (VIIB, IV,
/// I, V) gives ^7, ^9, +2, iv^9, iv^7, iv^M7, sus, ^M7, that is the modifier bits 32, 40, 8,
/// 1064, 1056, 1088, 2560, 64; every other button gives III^7, III^9, +2, iii^9, iii^7,
/// iii^M7, sus, III^M7, the bits 1056, 1064, 8, 40, 32, 64, 2560, 1088. On one button the
/// eight directions give eight different presets, and the wheel of the other buttons is the
/// wheel of the major degrees flipped top to bottom.
pub proof fn law_wheel_presets(b: ChordButton, d: WheelDir8, d2: WheelDir8)
    ensures
        wheel_preset(is_major(b), d) == (if b == ChordButton::VIIB || b == ChordButton::IV || b
            == ChordButton::I || b == ChordButton::V {
            match d {
                WheelDir8::N => 32u16,
                WheelDir8::NE => 40u16,
                WheelDir8::E => 8u16,
                WheelDir8::SE => 1064u16,
                WheelDir8::S => 1056u16,
                WheelDir8::SW => 1088u16,
                WheelDir8::W => 2560u16,
                WheelDir8::NW => 64u16,
            }
        } else {
            match d {
                WheelDir8::N => 1056u16,
                WheelDir8::NE => 1064u16,
                WheelDir8::E => 8u16,
                WheelDir8::SE => 40u16,
                WheelDir8::S => 32u16,
                WheelDir8::SW => 64u16,
                WheelDir8::W => 2560u16,
                WheelDir8::NW => 1088u16,
            }
        }),
        d != d2 ==> wheel_preset(is_major(b), d) != wheel_preset(is_major(b), d2),
        wheel_preset(false, d) == wheel_preset(
            true,
            match d {
                WheelDir8::N => WheelDir8::S,
                WheelDir8::NE => WheelDir8::SE,
                WheelDir8::E => WheelDir8::E,
                WheelDir8::SE => WheelDir8::NE,
                WheelDir8::S => WheelDir8::N,
                WheelDir8::SW => WheelDir8::NW,
                WheelDir8::W => WheelDir8::W,
                WheelDir8::NW => WheelDir8::SW,
            },
        ),
{
    lemma_wheel_bits();
}

/// Every on-screen button gives an event of its own: two different buttons never give the
/// same event. Each degree button presses or releases the chord button of the same degree
/// (VIIDim the seventh, Hept the whole scale), and each modifier button the modifier button
/// of the same name, carrying exactly that modifier.
pub proof fn law_button_events(s: KeyState, a: UiButton, b: UiButton)
    ensures
        a != b ==> button_event(s, a) != button_event(s, b),
        button_event(s, UiButton::VIIB) == (KeyEvent::Chord { state: s, button: ChordButton::VIIB }),
        button_event(s, UiButton::IV) == (KeyEvent::Chord { state: s, button: ChordButton::IV }),
        button_event(s, UiButton::I) == (KeyEvent::Chord { state: s, button: ChordButton::I }),
        button_event(s, UiButton::V) == (KeyEvent::Chord { state: s, button: ChordButton::V }),
        button_event(s, UiButton::II) == (KeyEvent::Chord { state: s, button: ChordButton::II }),
        button_event(s, UiButton::VI) == (KeyEvent::Chord { state: s, button: ChordButton::VI }),
        button_event(s, UiButton::III) == (KeyEvent::Chord { state: s, button: ChordButton::III }),
        button_event(s, UiButton::VIIDim) == (KeyEvent::Chord { state: s, button: ChordButton::VII }),
        button_event(s, UiButton::Hept) == (KeyEvent::Chord {
            state: s,
            button: ChordButton::HeptatonicMajor,
        }),
        button_event(s, UiButton::Add2) == (KeyEvent::Modifier {
            state: s,
            button: ModButton::Major2,
            modifiers: Modifiers { bits: 8 },
        }),
        button_event(s, UiButton::Add7) == (KeyEvent::Modifier {
            state: s,
            button: ModButton::Minor7,
            modifiers: Modifiers { bits: 32 },
        }),
        button_event(s, UiButton::Maj7) == (KeyEvent::Modifier {
            state: s,
            button: ModButton::Major7,
            modifiers: Modifiers { bits: 64 },
        }),
        button_event(s, UiButton::Sus4) == (KeyEvent::Modifier {
            state: s,
            button: ModButton::Sus4,
            modifiers: Modifiers { bits: 2560 },
        }),
        button_event(s, UiButton::MinorMajor) == (KeyEvent::Modifier {
            state: s,
            button: ModButton::MinorMajor,
            modifiers: Modifiers { bits: 1024 },
        }),
        button_event(s, UiButton::No3) == (KeyEvent::Modifier {
            state: s,
            button: ModButton::No3,
            modifiers: Modifiers { bits: 2048 },
        }),
{
}

/// The pitch class of a natural note letter, C = 0.
pub open spec fn letter_pc(c: char) -> int {
    if c == 'C' {
        0
    } else if c == 'D' {
        2
    } else if c == 'E' {
        4
    } else if c == 'F' {
        5
    } else if c == 'G' {
        7
    } else if c == 'A' {
        9
    } else if c == 'B' {
        11
    } else {
        -100
    }
}

/// What the second character of a note name does to its letter: a sharp raises it a
/// semitone, a flat lowers it.
pub open spec fn accidental(name: Seq<char>) -> int {
    if name.len() == 2 && name[1] == '#' {
        1
    } else if name.len() == 2 && name[1] == 'b' {
        -1
    } else {
        0
    }
}

/// A label spells the pitch class it is given: its letter's pitch class, raised by a sharp
/// or lowered by a flat, is `pc`, and its accidental is a flat exactly in a flat key. The
/// natural notes C, D, E, F, G, A, B are named by their letter alone, the others carry an
/// accidental. So in one key two different pitch classes never share a label.
pub proof fn law_pitch_class_names(pc: int, q: int, flats: bool)
    requires
        0 <= pc < 12,
        0 <= q < 12,
    ensures
        1 <= pc_name(pc, flats).len() <= 2,
        pc12(letter_pc(pc_name(pc, flats)[0]) + accidental(pc_name(pc, flats))) == pc,
        pc_name(pc, flats).len() == 1 <==> (pc == 0 || pc == 2 || pc == 4 || pc == 5 || pc == 7
            || pc == 9 || pc == 11),
        pc_name(pc, flats).len() == 2 ==> pc_name(pc, flats)[1] == (if flats {
            'b'
        } else {
            '#'
        }),
        pc != q ==> pc_name(pc, flats) != pc_name(q, flats),
{
    reveal_strlit("C");
    reveal_strlit("Db");
    reveal_strlit("C#");
    reveal_strlit("D");
    reveal_strlit("Eb");
    reveal_strlit("D#");
    reveal_strlit("E");
    reveal_strlit("F");
    reveal_strlit("Gb");
    reveal_strlit("F#");
    reveal_strlit("G");
    reveal_strlit("Ab");
    reveal_strlit("G#");
    reveal_strlit("A");
    reveal_strlit("Bb");
    reveal_strlit("A#");
    reveal_strlit("B");
    assert(pc12(letter_pc(pc_name(q, flats)[0]) + accidental(pc_name(q, flats))) == q);
}

/// The pitch class of each degree's root in the key of C, the scale's degrees read upward
/// by fifths from the flat seventh.
pub open spec fn degree_pc(b: ChordButton) -> int {
    match b {
        ChordButton::VIIB => 10,
        ChordButton::IV => 5,
        ChordButton::I => 0,
        ChordButton::V => 7,
        ChordButton::II => 2,
        ChordButton::VI => 9,
        ChordButton::III => 4,
        ChordButton::VII => 11,
        ChordButton::HeptatonicMajor => 0,
    }
}

/// With implied sevenths on, holding exactly two degree buttons whose roots lie a fifth
/// apart selects the dominant seventh (a major triad with a minor seventh) on the upper
/// one, the chord that leads to the other: VI7 over II, III7 over VI, VII7 over III, I7
/// over IV, IV7 over VIIB, V7 over I, II7 over V. Two degree buttons that are not a fifth
/// apart imply no seventh.
pub proof fn law_implied_sevenths(old: Option<Chord>, a: ChordButton, b: ChordButton)
    requires
        a != b,
        a != ChordButton::HeptatonicMajor,
        b != ChordButton::HeptatonicMajor,
    ensures
        pc12(degree_pc(a) - degree_pc(b)) == 7 ==> decide_base(
            old,
            set![a.idx(), b.idx()],
            true,
        ) == (Chord { root: UnkeyedNote(degree_pc(a) as i16), mods: Modifiers { bits: 33 } }),
        pc12(degree_pc(a) - degree_pc(b)) != 7 && pc12(degree_pc(b) - degree_pc(a)) != 7
            ==> decide_base(old, set![a.idx(), b.idx()], true) == decide_base(
            old,
            set![a.idx(), b.idx()],
            false,
        ),
{
}

/// The pairs of neighbouring degree buttons that imply a seventh, in the order in which they
/// are tried; the first button of each pair is a fifth above the second.
pub open spec fn implied_pairs() -> Seq<(ChordButton, ChordButton)> {
    seq![
        (ChordButton::VI, ChordButton::II),
        (ChordButton::III, ChordButton::VI),
        (ChordButton::VII, ChordButton::III),
        (ChordButton::I, ChordButton::IV),
        (ChordButton::IV, ChordButton::VIIB),
        (ChordButton::V, ChordButton::I),
        (ChordButton::II, ChordButton::V),
    ]
}

/// With more than two degree buttons held, the first held pair of `implied_pairs` decides:
/// the chord is the dominant seventh on its first button. When no pair is held, implied
/// sevenths change nothing.
pub proof fn law_implied_seventh_first_pair(old: Option<Chord>, keys: Set<int>, k: int)
    requires
        !keys.contains(8),
        0 <= k < 7,
    ensures
        keys.contains(implied_pairs()[k].0.idx()) && keys.contains(implied_pairs()[k].1.idx())
            && (forall|j: int|
            0 <= j < k ==> !(keys.contains(implied_pairs()[j].0.idx()) && keys.contains(
                implied_pairs()[j].1.idx(),
            ))) ==> decide_base(old, keys, true) == (Chord {
            root: UnkeyedNote(degree_pc(implied_pairs()[k].0) as i16),
            mods: Modifiers { bits: 33 },
        }),
        (forall|j: int|
            0 <= j < 7 ==> !(keys.contains(implied_pairs()[j].0.idx()) && keys.contains(
                implied_pairs()[j].1.idx(),
            ))) ==> decide_base(old, keys, true) == decide_base(old, keys, false),
{
    let ps = implied_pairs();
    assert(ps[0] == (ChordButton::VI, ChordButton::II));
    assert(ps[1] == (ChordButton::III, ChordButton::VI));
    assert(ps[2] == (ChordButton::VII, ChordButton::III));
    assert(ps[3] == (ChordButton::I, ChordButton::IV));
    assert(ps[4] == (ChordButton::IV, ChordButton::VIIB));
    assert(ps[5] == (ChordButton::V, ChordButton::I));
    assert(ps[6] == (ChordButton::II, ChordButton::V));
}

proof fn lemma_unstruck_keeps(ns: Seq<int>, struck: Set<int>)
    ensures
        forall|j: int|
            0 <= j < ns.len() && !struck.contains(ns[j]) ==> #[trigger] unstruck(
                ns,
                struck,
            ).contains(ns[j]),
        forall|i: int|
            0 <= i < unstruck(ns, struck).len() ==> ns.contains(#[trigger] unstruck(ns, struck)[i]),
        (forall|j: int| 0 <= j < ns.len() ==> !struck.contains(#[trigger] ns[j])) ==> unstruck(
            ns,
            struck,
        ) == ns,
    decreases ns.len(),
{
    if ns.len() > 0 {
        let init = ns.drop_last();
        lemma_unstruck_keeps(init, struck);
        let rest = unstruck(init, struck);
        let u = unstruck(ns, struck);
        assert(u == (if struck.contains(ns.last()) {
            rest
        } else {
            rest.push(ns.last())
        }));
        assert forall|j: int| 0 <= j < ns.len() && !struck.contains(ns[j]) implies #[trigger] u.contains(
            ns[j],
        ) by {
            if j < ns.len() - 1 {
                assert(ns[j] == init[j]);
                assert(rest.contains(init[j]));
                let w = choose|w: int| 0 <= w < rest.len() && rest[w] == init[j];
                assert(u[w] == rest[w]);
            } else {
                assert(u[u.len() - 1] == ns[j]);
            }
        }
        assert forall|i: int| 0 <= i < u.len() implies ns.contains(#[trigger] u[i]) by {
            if i < rest.len() {
                assert(u[i] == rest[i]);
                assert(init.contains(rest[i]));
                let w = choose|w: int| 0 <= w < init.len() && init[w] == rest[i];
                assert(ns[w] == init[w]);
            } else {
                assert(u[i] == ns[ns.len() - 1]);
            }
        }
        if forall|j: int| 0 <= j < ns.len() ==> !struck.contains(#[trigger] ns[j]) {
            assert forall|j: int| 0 <= j < init.len() implies !struck.contains(#[trigger] init[j]) by {
                assert(init[j] == ns[j]);
            }
            assert(!struck.contains(ns[ns.len() - 1]));
            assert(u =~= ns);
        }
    }
}

/// Every note of `cs` outside `held` is reported in `out` at the position it has in `cs`.
pub open spec fn reports_unheld(cs: Seq<(int, Seq<int>)>, held: Set<int>, out: Seq<(int, Seq<int>)>) -> bool {
    forall|k: int, j: int|
        0 <= k < cs.len() && 0 <= j < cs[k].1.len() && !held.contains(#[trigger] cs[k].1[j])
            ==> exists|m: int|
            0 <= m < out.len() && out[m].0 == cs[k].0 && #[trigger] out[m].1.contains(cs[k].1[j])
}

/// Note `n` belongs to a crossing of `cs` at position `x`.
pub open spec fn strummed_at(cs: Seq<(int, Seq<int>)>, x: int, n: int) -> bool {
    exists|k: int| 0 <= k < cs.len() && cs[k].0 == x && #[trigger] cs[k].1.contains(n)
}

/// Every note reported in `out` is a note of `cs` at the position it is reported at.
pub open spec fn reports_only(cs: Seq<(int, Seq<int>)>, out: Seq<(int, Seq<int>)>) -> bool {
    forall|m: int, i: int|
        0 <= m < out.len() && 0 <= i < out[m].1.len() ==> #[trigger] strummed_at(
            cs,
            out[m].0,
            out[m].1[i],
        )
}

proof fn lemma_crossings_unstruck_unfold(cs: Seq<(int, Seq<int>)>, struck: Set<int>)
    requires
        cs.len() > 0,
    ensures
        crossings_unstruck(cs, struck) == (if unstruck(cs.last().1, struck).len() > 0 {
            crossings_unstruck(cs.drop_last(), struck).push(
                (cs.last().0, unstruck(cs.last().1, struck)),
            )
        } else {
            crossings_unstruck(cs.drop_last(), struck)
        }),
{
}

proof fn lemma_crossings_unstruck_reports_unheld(cs: Seq<(int, Seq<int>)>, struck: Set<int>)
    ensures
        reports_unheld(cs, struck, crossings_unstruck(cs, struck)),
    decreases cs.len(),
{
    if cs.len() > 0 {
        let init = cs.drop_last();
        let last = cs.last();
        lemma_crossings_unstruck_reports_unheld(init, struck);
        lemma_unstruck_keeps(last.1, struck);
        lemma_crossings_unstruck_unfold(cs, struck);
        let rest = crossings_unstruck(init, struck);
        let ns = unstruck(last.1, struck);
        let u = crossings_unstruck(cs, struck);
        assert forall|k: int, j: int|
            0 <= k < cs.len() && 0 <= j < cs[k].1.len() && !struck.contains(
                #[trigger] cs[k].1[j],
            ) implies exists|m: int|
            0 <= m < u.len() && u[m].0 == cs[k].0 && #[trigger] u[m].1.contains(cs[k].1[j]) by {
            if k < cs.len() - 1 {
                assert(cs[k] == init[k]);
                assert(init[k].1[j] == cs[k].1[j]);
                let m = choose|m: int|
                    0 <= m < rest.len() && rest[m].0 == init[k].0 && #[trigger] rest[m].1.contains(
                        init[k].1[j],
                    );
                assert(u[m] == rest[m]);
                assert(u[m].1.contains(cs[k].1[j]));
            } else {
                assert(cs[k] == last);
                assert(ns.contains(last.1[j]));
                assert(u[u.len() - 1] == (last.0, ns));
                assert(u[u.len() - 1].1.contains(cs[k].1[j]));
            }
        }
    }
}

proof fn lemma_crossings_unstruck_reports_only(cs: Seq<(int, Seq<int>)>, struck: Set<int>)
    ensures
        reports_only(cs, crossings_unstruck(cs, struck)),
    decreases cs.len(),
{
    if cs.len() > 0 {
        let init = cs.drop_last();
        let last = cs.last();
        lemma_crossings_unstruck_reports_only(init, struck);
        lemma_unstruck_keeps(last.1, struck);
        lemma_crossings_unstruck_unfold(cs, struck);
        let rest = crossings_unstruck(init, struck);
        let ns = unstruck(last.1, struck);
        let u = crossings_unstruck(cs, struck);
        assert forall|m: int, i: int| 0 <= m < u.len() && 0 <= i < u[m].1.len() implies #[trigger] strummed_at(
            cs,
            u[m].0,
            u[m].1[i],
        ) by {
            if m < rest.len() {
                assert(u[m] == rest[m]);
                assert(rest[m].1[i] == u[m].1[i]);
                assert(strummed_at(init, rest[m].0, rest[m].1[i]));
                let k = choose|k: int|
                    0 <= k < init.len() && init[k].0 == rest[m].0 && #[trigger] init[k].1.contains(
                        rest[m].1[i],
                    );
                assert(cs[k] == init[k]);
                assert(cs[k].1.contains(u[m].1[i]));
            } else {
                assert(u[m] == (last.0, ns));
                assert(last.1.contains(ns[i]));
                assert(cs[cs.len() - 1] == last);
                assert(cs[cs.len() - 1].1.contains(u[m].1[i]));
            }
        }
        assert(reports_only(cs, u));
    } else {
        assert(crossings_unstruck(cs, struck).len() == 0);
    }
}

proof fn lemma_crossings_unstruck_nothing_held(cs: Seq<(int, Seq<int>)>, struck: Set<int>)
    requires
        forall|k: int, j: int|
            0 <= k < cs.len() && 0 <= j < cs[k].1.len() ==> !struck.contains(
                #[trigger] cs[k].1[j],
            ),
        forall|k: int| 0 <= k < cs.len() ==> (#[trigger] cs[k]).1.len() > 0,
    ensures
        crossings_unstruck(cs, struck) == cs,
    decreases cs.len(),
{
    if cs.len() > 0 {
        let init = cs.drop_last();
        let last = cs.last();
        assert forall|k: int, j: int|
            0 <= k < init.len() && 0 <= j < init[k].1.len() implies !struck.contains(
            #[trigger] init[k].1[j],
        ) by {
            assert(init[k] == cs[k]);
        }
        assert forall|k: int| 0 <= k < init.len() implies (#[trigger] init[k]).1.len() > 0 by {
            assert(init[k] == cs[k]);
        }
        lemma_crossings_unstruck_nothing_held(init, struck);
        assert forall|j: int| 0 <= j < last.1.len() implies !struck.contains(
            #[trigger] last.1[j],
        ) by {
            assert(cs[cs.len() - 1].1[j] == last.1[j]);
        }
        lemma_unstruck_keeps(last.1, struck);
        lemma_crossings_unstruck_unfold(cs, struck);
        assert(cs[cs.len() - 1].1.len() > 0);
        assert(crossings_unstruck(cs, struck) =~= cs);
    }
}

proof fn lemma_crossings_nonempty(p: Seq<Coord>, i: int, lo: int, hi: int)
    requires
        0 <= i,
    ensures
        forall|k: int|
            0 <= k < crossings_from(p, i, lo, hi).len() ==> (#[trigger] crossings_from(
                p,
                i,
                lo,
                hi,
            )[k]).1.len() > 0,
    decreases p.len() - i,
{
    if i < p.len() {
        lemma_run_end_bounds(p, i);
        let e = run_end(p, i);
        lemma_crossings_nonempty(p, e, lo, hi);
        let rest = crossings_from(p, e, lo, hi);
        let cs = crossings_from(p, i, lo, hi);
        if lo < p[i] && p[i] <= hi {
            assert forall|k: int| 0 <= k < cs.len() implies (#[trigger] cs[k]).1.len() > 0 by {
                if k > 0 {
                    assert(cs[k] == rest[k - 1]);
                }
            }
        }
    }
}

/// A drag keeps every note of each crossed string position that no pointer holds: each such
/// note is reported at that position, and every reported note is a note of the strum at the
/// position it is reported at. With no note held, the drag reports exactly the crossings of
/// the strum.
pub proof fn law_drag_keeps_unheld_notes(
    v: TouchView,
    ev: TouchEvent,
    p: Seq<Coord>,
    allowed: Seq<bool>,
)
    requires
        ev.phase == TouchPhase::Move,
        v.last_x.contains_key(ev.id.0),
    ensures
        reports_unheld(
            strum_crossings(v.last_x[ev.id.0] as int, ev.x as int, p),
            struck_notes(v.struck),
            touch_step(v, ev, p, allowed).2,
        ),
        reports_only(
            strum_crossings(v.last_x[ev.id.0] as int, ev.x as int, p),
            touch_step(v, ev, p, allowed).2,
        ),
        v.struck.dom() == Set::<u64>::empty() ==> touch_step(v, ev, p, allowed).2
            == strum_crossings(v.last_x[ev.id.0] as int, ev.x as int, p),
{
    let x1 = v.last_x[ev.id.0] as int;
    let x2 = ev.x as int;
    let lo = if x1 <= x2 { x1 } else { x2 };
    let hi = if x1 <= x2 { x2 } else { x1 };
    let cs = strum_crossings(x1, x2, p);
    let held = struck_notes(v.struck);
    lemma_crossings_unstruck_reports_unheld(cs, held);
    lemma_crossings_unstruck_reports_only(cs, held);
    if v.struck.dom() == Set::<u64>::empty() {
        lemma_crossings_nonempty(p, 0, lo, hi);
        assert forall|n: int| !held.contains(n) by {
            if held.contains(n) {
                let k = choose|k: u64| #[trigger] v.struck.contains_key(k) && v.struck[k].0 == n;
                assert(v.struck.dom().contains(k));
            }
        }
        lemma_crossings_unstruck_nothing_held(cs, held);
    }
}

} // verus!
