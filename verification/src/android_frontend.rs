//! The decisions of the Android frontend: which audio messages to send, which delayed
//! note-offs are still due, and which touch highlights are still shown. Times are in
//! milliseconds on the frontend's monotonic clock.
use crate::app_state::{step, AppEffects, AppView, ChordButton, KeyState, ModButton, NoteOn};
use crate::chord::Modifiers;
use crate::chord_wheel::{dir_at, is_major, modifiers_for, wheel_preset, WheelDir8};
use crate::engine::Engine;
use crate::input_map::{button_at, button_event, key_event_spec, UiButton, UiKey};
use crate::notes::{pc12, rem12, Transpose, UnkeyedNote, UnmidiNote};
use crate::rows::RowIndex;
use crate::strum::Coord;
use crate::touch::{PointerId, TouchEvent, TouchPhase};
use crate::ui_events::{
    fx_empty, fx_model, fx_of, keyed_notes_fit, touch_event_step, ui_effects_ok, ui_fx_ok, ui_state_step, ui_touch_notes,
    FxView, TouchNote, UiEvent, UiSession, UiView,
};
use crate::ui_settings::default_settings;
use vstd::prelude::*;

verus! {

/// A message to the realtime audio thread.
#[derive(Clone, Copy, Debug, PartialEq, Eq, Structural)]
pub enum AudioMsg {
    NoteOn(NoteOn),
    NoteOff(UnmidiNote),
    SetSampleRate(u32),
    SetA4Tuning(u16),
}

/// How long a strike highlight shows.
pub const NOTE_STRIKE_VIS_MS: u64 = 220;

/// How long a strum highlight shows.
pub const NOTE_STRUM_VIS_MS: u64 = 160;

#[derive(Clone, Copy, Debug, PartialEq, Eq, Structural)]
pub enum NoteVisualKind {
    Strike,
    Strum,
}

/// A highlight of a touched string.
#[derive(Clone, Copy, Debug, PartialEq, Eq, Structural)]
pub struct NoteVisualEvent {
    /// When the string was touched.
    pub at_ms: u64,
    pub row: RowIndex,
    pub note: UnkeyedNote,
    pub kind: NoteVisualKind,
}

pub open spec fn visual_duration(kind: NoteVisualKind) -> u64 {
    match kind {
        NoteVisualKind::Strike => NOTE_STRIKE_VIS_MS,
        NoteVisualKind::Strum => NOTE_STRUM_VIS_MS,
    }
}

/// Whether the highlight still shows at `now_ms`: younger than its kind's duration (a
/// highlight from the future counts as brand new).
pub open spec fn visual_alive(e: NoteVisualEvent, now_ms: u64) -> bool {
    let age = if now_ms >= e.at_ms {
        now_ms - e.at_ms
    } else {
        0
    };
    age < visual_duration(e.kind)
}

/// The highlights that still show at `now_ms`, in order.
pub open spec fn alive_visuals(vs: Seq<NoteVisualEvent>, now_ms: u64) -> Seq<NoteVisualEvent>
    decreases vs.len(),
{
    if vs.len() == 0 {
        vs
    } else {
        let rest = alive_visuals(vs.drop_last(), now_ms);
        if visual_alive(vs.last(), now_ms) {
            rest.push(vs.last())
        } else {
            rest
        }
    }
}

/// Drops the highlights that have run out by `now_ms`; returns whether any remain.
pub fn retain_alive_visuals(visuals: &mut Vec<NoteVisualEvent>, now_ms: u64) -> (r: bool)
    ensures
        final(visuals)@ == alive_visuals(old(visuals)@, now_ms),
        r == (final(visuals)@.len() > 0),
{
    let ghost vs = visuals@;
    let mut kept: Vec<NoteVisualEvent> = Vec::new();
    let mut i: usize = 0;
    while i < visuals.len()
        invariant
            vs == visuals@,
            i <= vs.len(),
            kept@ == alive_visuals(vs.subrange(0, i as int), now_ms),
        decreases vs.len() - i,
    {
        let e = visuals[i];
        let age = now_ms.saturating_sub(e.at_ms);
        let max = match e.kind {
            NoteVisualKind::Strike => NOTE_STRIKE_VIS_MS,
            NoteVisualKind::Strum => NOTE_STRUM_VIS_MS,
        };
        proof {
            assert(vs.subrange(0, i + 1).drop_last() =~= vs.subrange(0, i as int));
            assert(vs.subrange(0, i + 1).last() == e);
        }
        if age < max {
            kept.push(e);
        }
        i = i + 1;
    }
    proof {
        assert(vs.subrange(0, vs.len() as int) =~= vs);
    }
    *visuals = kept;
    visuals.len() > 0
}

/// The kind of highlight a touch phase leaves: a strike for a touch-down, a strum for a move.
pub fn visual_kind_for_phase(phase: TouchPhase) -> (r: Option<NoteVisualKind>)
    ensures
        r == (match phase {
            TouchPhase::Down => Some(NoteVisualKind::Strike),
            TouchPhase::Move => Some(NoteVisualKind::Strum),
            _ => None::<NoteVisualKind>,
        }),
{
    match phase {
        TouchPhase::Down => Some(NoteVisualKind::Strike),
        TouchPhase::Move => Some(NoteVisualKind::Strum),
        _ => None,
    }
}

/// The highlights for `touch_notes`, all stamped `now_ms`, of the kind that `phase` leaves.
pub open spec fn touch_visuals(phase: TouchPhase, touch_notes: Seq<TouchNote>, now_ms: u64) -> Seq<
    NoteVisualEvent,
> {
    match phase {
        TouchPhase::Down | TouchPhase::Move => touch_notes.map_values(
            |tn: TouchNote|
                NoteVisualEvent {
                    at_ms: now_ms,
                    row: tn.row,
                    note: tn.note,
                    kind: if phase == TouchPhase::Down {
                        NoteVisualKind::Strike
                    } else {
                        NoteVisualKind::Strum
                    },
                },
        ),
        _ => Seq::empty(),
    }
}

/// The highlights for the notes a touch event touched, all stamped `now_ms`.
pub fn visuals_for_touch(phase: TouchPhase, touch_notes: &Vec<TouchNote>, now_ms: u64) -> (r: Vec<
    NoteVisualEvent,
>)
    ensures
        r@ == touch_visuals(phase, touch_notes@, now_ms),
{
    let mut out: Vec<NoteVisualEvent> = Vec::new();
    if let Some(kind) = visual_kind_for_phase(phase) {
        let mut i: usize = 0;
        while i < touch_notes.len()
            invariant
                i <= touch_notes@.len(),
                out@.len() == i,
                kind == (if phase == TouchPhase::Down {
                    NoteVisualKind::Strike
                } else {
                    NoteVisualKind::Strum
                }),
                forall|j: int|
                    0 <= j < i ==> #[trigger] out@[j] == (NoteVisualEvent {
                        at_ms: now_ms,
                        row: touch_notes@[j].row,
                        note: touch_notes@[j].note,
                        kind,
                    }),
            decreases touch_notes@.len() - i,
        {
            let tn = touch_notes[i];
            out.push(NoteVisualEvent { at_ms: now_ms, row: tn.row, note: tn.note, kind });
            i = i + 1;
        }
        assert(out@ =~= touch_visuals(phase, touch_notes@, now_ms));
    } else {
        assert(out@ =~= touch_visuals(phase, touch_notes@, now_ms));
    }
    out
}

/// The audio messages for a set of effects: note-offs first, so that a re-struck note is
/// stopped before it starts again, then note-ons.
pub fn effect_messages(effects: &AppEffects) -> (r: Vec<AudioMsg>)
    ensures
        r@ == effects.stop_notes@.map_values(|un: UnmidiNote| AudioMsg::NoteOff(un))
            + effects.play_notes@.map_values(|pn: NoteOn| AudioMsg::NoteOn(pn)),
{
    let mut out: Vec<AudioMsg> = Vec::new();
    let mut i: usize = 0;
    while i < effects.stop_notes.len()
        invariant
            i <= effects.stop_notes@.len(),
            out@ == effects.stop_notes@.take(i as int).map_values(|un: UnmidiNote| AudioMsg::NoteOff(un)),
        decreases effects.stop_notes@.len() - i,
    {
        out.push(AudioMsg::NoteOff(effects.stop_notes[i]));
        i = i + 1;
        assert(effects.stop_notes@.take(i as int).drop_last() =~= effects.stop_notes@.take(i - 1));
    }
    let ghost o1 = out@;
    let mut j: usize = 0;
    while j < effects.play_notes.len()
        invariant
            j <= effects.play_notes@.len(),
            out@ == o1 + effects.play_notes@.take(j as int).map_values(|pn: NoteOn| AudioMsg::NoteOn(pn)),
        decreases effects.play_notes@.len() - j,
    {
        out.push(AudioMsg::NoteOn(effects.play_notes[j]));
        j = j + 1;
        assert(effects.play_notes@.take(j as int).drop_last() =~= effects.play_notes@.take(j - 1));
    }
    assert(effects.stop_notes@.take(effects.stop_notes@.len() as int) =~= effects.stop_notes@);
    assert(effects.play_notes@.take(effects.play_notes@.len() as int) =~= effects.play_notes@);
    out
}

/// The note-offs to send from `notes`, in order: each note once, and none that sounds
/// again in `active` (it was struck anew since it was deferred).
pub open spec fn due_note_offs(notes: Seq<UnmidiNote>, active: Set<UnmidiNote>) -> Seq<UnmidiNote>
    decreases notes.len(),
{
    if notes.len() == 0 {
        notes
    } else {
        let rest = due_note_offs(notes.drop_last(), active);
        let un = notes.last();
        if active.contains(un) || rest.contains(un) {
            rest
        } else {
            rest.push(un)
        }
    }
}

/// Note-offs that a chord change deferred, and when they fall due.
pub struct DeferredStopNotes {
    pub due_ms: Option<u64>,
    pub notes: Vec<UnmidiNote>,
}

impl DeferredStopNotes {
    pub fn new() -> (r: Self)
        ensures
            r.due_ms.is_none(),
            r.notes@.len() == 0,
    {
        DeferredStopNotes { due_ms: None, notes: Vec::new() }
    }

    /// Holds back `notes` for later.
    pub fn defer(&mut self, notes: Vec<UnmidiNote>)
        ensures
            final(self).due_ms == old(self).due_ms,
            final(self).notes@ == old(self).notes@ + notes@,
    {
        let mut notes = notes;
        self.notes.append(&mut notes);
    }

    /// Makes the held notes fall due `delay_ms` after `now_ms`, or later if already armed later.
    pub fn arm(&mut self, now_ms: u64, delay_ms: u64)
        requires
            now_ms + delay_ms <= u64::MAX,
        ensures
            final(self).notes@ == old(self).notes@,
            final(self).due_ms == Some(
                match old(self).due_ms {
                    Some(d) => if d >= now_ms + delay_ms {
                        d
                    } else {
                        (now_ms + delay_ms) as u64
                    },
                    None => (now_ms + delay_ms) as u64,
                },
            ),
    {
        let due = now_ms + delay_ms;
        let d = match self.due_ms {
            Some(old) => if old >= due {
                old
            } else {
                due
            },
            None => due,
        };
        self.due_ms = Some(d);
    }

    /// At `now_ms`, once the held notes are due: takes them all and returns the note-offs
    /// to send (see `due_note_offs`). Before that, or when nothing is armed, does nothing.
    pub fn flush(&mut self, now_ms: u64, active: &Vec<UnmidiNote>) -> (r: Vec<UnmidiNote>)
        ensures
            match old(self).due_ms {
                Some(d) => if now_ms >= d {
                    &&& final(self).due_ms.is_none()
                    &&& final(self).notes@.len() == 0
                    &&& r@ == due_note_offs(old(self).notes@, active@.to_set())
                } else {
                    &&& final(self).due_ms == old(self).due_ms
                    &&& final(self).notes@ == old(self).notes@
                    &&& r@.len() == 0
                },
                None => {
                    &&& final(self).due_ms.is_none()
                    &&& final(self).notes@ == old(self).notes@
                    &&& r@.len() == 0
                },
            },
    {
        match self.due_ms {
            Some(d) => {
                if now_ms < d {
                    return Vec::new();
                }
            },
            None => {
                return Vec::new();
            },
        }
        self.due_ms = None;
        let mut notes: Vec<UnmidiNote> = Vec::new();
        std::mem::swap(&mut notes, &mut self.notes);
        let ghost ns = notes@;
        let mut out: Vec<UnmidiNote> = Vec::new();
        let mut i: usize = 0;
        while i < notes.len()
            invariant
                ns == notes@,
                i <= ns.len(),
                out@ == due_note_offs(ns.subrange(0, i as int), active@.to_set()),
            decreases ns.len() - i,
        {
            let un = notes[i];
            proof {
                assert(ns.subrange(0, i + 1).drop_last() =~= ns.subrange(0, i as int));
                assert(ns.subrange(0, i + 1).last() == un);
            }
            if !contains_unmidi(active, un) && !contains_unmidi(&out, un) {
                out.push(un);
            }
            i = i + 1;
        }
        proof {
            assert(ns.subrange(0, ns.len() as int) =~= ns);
        }
        out
    }
}

/// Whether `v` holds `n`.
fn contains_unmidi(v: &Vec<UnmidiNote>, n: UnmidiNote) -> (r: bool)
    ensures
        r == v@.contains(n),
        r == v@.to_set().contains(n),
{
    let mut i: usize = 0;
    while i < v.len()
        invariant
            i <= v@.len(),
            forall|j: int| 0 <= j < i ==> v@[j] != n,
        decreases v@.len() - i,
    {
        if v[i].0 == n.0 {
            proof {
                assert(v@[i as int] == n);
            }
            return true;
        }
        i = i + 1;
    }
    false
}

/// The chord button that an on-screen button selects, if it is one.
pub open spec fn chord_button_of(b: UiButton) -> Option<ChordButton> {
    match b {
        UiButton::V => Some(ChordButton::V),
        UiButton::I => Some(ChordButton::I),
        UiButton::IV => Some(ChordButton::IV),
        UiButton::VIIB => Some(ChordButton::VIIB),
        UiButton::II => Some(ChordButton::II),
        UiButton::VI => Some(ChordButton::VI),
        UiButton::III => Some(ChordButton::III),
        UiButton::VIIDim => Some(ChordButton::VII),
        UiButton::Hept => Some(ChordButton::HeptatonicMajor),
        _ => None,
    }
}

pub fn chord_button_from_ui_button(button: UiButton) -> (r: Option<ChordButton>)
    ensures
        r == chord_button_of(button),
{
    match button {
        UiButton::V => Some(ChordButton::V),
        UiButton::I => Some(ChordButton::I),
        UiButton::IV => Some(ChordButton::IV),
        UiButton::VIIB => Some(ChordButton::VIIB),
        UiButton::II => Some(ChordButton::II),
        UiButton::VI => Some(ChordButton::VI),
        UiButton::III => Some(ChordButton::III),
        UiButton::VIIDim => Some(ChordButton::VII),
        UiButton::Hept => Some(ChordButton::HeptatonicMajor),
        _ => None,
    }
}

/// The modifier button that an on-screen button presses, if it is one.
pub open spec fn mod_button_of(b: UiButton) -> Option<ModButton> {
    match b {
        UiButton::Maj7 => Some(ModButton::Major7),
        UiButton::No3 => Some(ModButton::No3),
        UiButton::Sus4 => Some(ModButton::Sus4),
        UiButton::MinorMajor => Some(ModButton::MinorMajor),
        UiButton::Add2 => Some(ModButton::Major2),
        UiButton::Add7 => Some(ModButton::Minor7),
        _ => None,
    }
}

/// Whether the harp holds the button down.
pub open spec fn button_held(v: AppView, b: UiButton) -> bool {
    match chord_button_of(b) {
        Some(c) => v.chord_keys.contains(c.idx()),
        None => match mod_button_of(b) {
            Some(m) => v.mod_keys.contains(m.idx()),
            None => false,
        },
    }
}

/// Whether the engine holds the on-screen button down.
pub fn ui_button_down(eng: &Engine, b: UiButton) -> (r: bool)
    ensures
        r == button_held(eng@, b),
{
    match b {
        UiButton::V => eng.chord_button_down(ChordButton::V),
        UiButton::I => eng.chord_button_down(ChordButton::I),
        UiButton::IV => eng.chord_button_down(ChordButton::IV),
        UiButton::VIIB => eng.chord_button_down(ChordButton::VIIB),
        UiButton::II => eng.chord_button_down(ChordButton::II),
        UiButton::VI => eng.chord_button_down(ChordButton::VI),
        UiButton::III => eng.chord_button_down(ChordButton::III),
        UiButton::VIIDim => eng.chord_button_down(ChordButton::VII),
        UiButton::Hept => eng.chord_button_down(ChordButton::HeptatonicMajor),
        UiButton::Maj7 => eng.mod_button_down(ModButton::Major7),
        UiButton::No3 => eng.mod_button_down(ModButton::No3),
        UiButton::Sus4 => eng.mod_button_down(ModButton::Sus4),
        UiButton::MinorMajor => eng.mod_button_down(ModButton::MinorMajor),
        UiButton::Add2 => eng.mod_button_down(ModButton::Major2),
        UiButton::Add7 => eng.mod_button_down(ModButton::Minor7),
    }
}

/// The held on-screen buttons as a bit mask, bit `i` for the button with index `i`.
pub fn ui_buttons_mask(eng: &Engine) -> (r: u32)
    ensures
        forall|i: int| 0 <= i < 15 ==> ((r >> (i as u32)) & 1u32 == 1u32) == button_held(eng@, button_at(i)),
        r < 0x8000,
{
    let order = UiButton::order();
    let mut mask: u32 = 0;
    proof {
        assert(0u32 < (1u32 << 0u32)) by (bit_vector);
    }
    let mut k: usize = 0;
    while k < 15
        invariant
            k <= 15,
            forall|i: int| 0 <= i < 15 ==> order@[i] == button_at(i),
            mask < (1u32 << (k as u32)),
            forall|i: int| 0 <= i < k ==> ((mask >> (i as u32)) & 1u32 == 1u32) == button_held(eng@, button_at(i)),
        decreases 15 - k,
    {
        let b = order[k];
        proof {
            crate::laws::law_button_index_roundtrip(b, b);
        }
        let down = ui_button_down(eng, b);
        let idx = b.index();
        proof {
            assert(idx == k) by {
                crate::laws::law_button_index_roundtrip(b, button_at(k as int));
            }
        }
        let ghost old_mask = mask;
        if down {
            mask = mask | (1u32 << (idx as u32));
        }
        proof {
            lemma_mask_step(old_mask, k as u32, down, mask);
            assert forall|i: int| 0 <= i < k + 1 implies ((mask >> (i as u32)) & 1u32 == 1u32) == button_held(eng@, button_at(i)) by {
                if i < k {
                    lemma_mask_keeps(old_mask, k as u32, down, mask, i as u32);
                }
            }
        }
        k = k + 1;
    }
    proof {
        assert((1u32 << 15u32) == 0x8000u32) by (bit_vector);
    }
    mask
}

proof fn lemma_mask_step(old_mask: u32, k: u32, down: bool, mask: u32)
    by (bit_vector)
    requires
        k < 15,
        old_mask < (1u32 << k),
        mask == if down { old_mask | (1u32 << k) } else { old_mask },
    ensures
        mask < (1u32 << (k + 1) as u32),
        ((mask >> k) & 1u32 == 1u32) == down,
{
}

proof fn lemma_mask_keeps(old_mask: u32, k: u32, down: bool, mask: u32, i: u32)
    by (bit_vector)
    requires
        k < 15,
        i < k,
        mask == if down { old_mask | (1u32 << k) } else { old_mask },
    ensures
        ((mask >> i) & 1u32) == ((old_mask >> i) & 1u32),
{
}

/// The result flags of a frontend call: bit 0 asks for a redraw, bit 1 reports sound,
/// bit 2 asks for a haptic tick.
pub fn result_flags(redraw: bool, has_play: bool, haptic: bool) -> (r: i32)
    ensures
        r == (if redraw { 1int } else { 0 }) + (if has_play { 2int } else { 0 }) + (if haptic {
            4int
        } else {
            0
        }),
{
    (if redraw { 1 } else { 0 }) + (if has_play { 2 } else { 0 }) + (if haptic { 4 } else { 0 })
}

/// The active chord for the Android UI: the root's pitch class in the key in the low 16
/// bits, the modifier bits above.
pub fn pack_active_chord(eng: &Engine) -> (r: i64)
    requires
        eng.wf(),
    ensures
        r == eng@.active_chord.mods.bits * 65536 + pc12(
            pc12(eng@.active_chord.root.0 as int) + pc12(eng@.transpose as int),
        ),
{
    let chord = eng.active_chord();
    let transpose = eng.transpose().wrap_to_octave();
    let root_pc = rem12(chord.get_root().wrap_to_octave() + transpose);
    let mods_bits = chord.mods.bits();
    mods_bits as i64 * 65536 + root_pc as i64
}

/// The key that a key index selects: its pitch class.
pub fn key_index_transpose(key_index: i32) -> (r: Transpose)
    ensures
        r.0 == pc12((key_index as i16) as int),
{
    Transpose(rem12(key_index as i16))
}

/// The phase of an Android touch code: 0 down, 1 move, 2 up, anything else cancel.
pub open spec fn touch_phase_of(phase: i32) -> TouchPhase {
    if phase == 0 {
        TouchPhase::Down
    } else if phase == 1 {
        TouchPhase::Move
    } else if phase == 2 {
        TouchPhase::Up
    } else {
        TouchPhase::Cancel
    }
}

/// The phase of an Android touch code (see `touch_phase_of`).
pub fn touch_phase_from_code(phase: i32) -> (r: TouchPhase)
    ensures
        r == touch_phase_of(phase),
{
    match phase {
        0 => TouchPhase::Down,
        1 => TouchPhase::Move,
        2 => TouchPhase::Up,
        _ => TouchPhase::Cancel,
    }
}

/// The key of an Android key event: the character if it has one, else Tab (code 61) or
/// Control (codes 113 and 114); other keys have none.
pub fn android_key(key_code: i32, ch: Option<char>) -> (r: Option<UiKey>)
    ensures
        r == (match ch {
            Some(c) => Some(UiKey::Char(c)),
            None => if key_code == 61 {
                Some(UiKey::Tab)
            } else if key_code == 113 || key_code == 114 {
                Some(UiKey::Control)
            } else {
                None::<UiKey>
            },
        }),
{
    match ch {
        Some(c) => Some(UiKey::Char(c)),
        None => match key_code {
            61 => Some(UiKey::Tab),
            113 | 114 => Some(UiKey::Control),
            _ => None,
        },
    }
}

/// What a chord-button press or release does to the held chord-change note-offs.
pub struct ChordHoldDecision {
    /// Whether a chord is held while the effects are handled.
    pub hold_during: bool,
    /// Whether the effects' note-offs are held back instead of sent.
    pub defer_stops: bool,
    /// Whether the held note-offs are armed to fall due.
    pub arm: bool,
    /// Whether a chord is held afterwards.
    pub hold_after: bool,
}

/// While a chord button is held, chord changes do not silence notes: their note-offs wait
/// until the button is released (and a delay has passed). Other buttons change nothing.
pub fn chord_hold_decision(hold_active: bool, is_chord_button: bool, state: KeyState) -> (r:
    ChordHoldDecision)
    ensures
        r.hold_during == (hold_active || (is_chord_button && state == KeyState::Pressed)),
        r.defer_stops == (is_chord_button && (r.hold_during || state == KeyState::Released)),
        r.arm == (is_chord_button && state == KeyState::Released),
        r.hold_after == (if is_chord_button && state == KeyState::Released {
            false
        } else {
            r.hold_during
        }),
{
    let pressed = match state {
        KeyState::Pressed => true,
        KeyState::Released => false,
    };
    let hold_during = hold_active || (is_chord_button && pressed);
    let defer_stops = is_chord_button && (hold_during || !pressed);
    let arm = is_chord_button && !pressed;
    let hold_after = if arm {
        false
    } else {
        hold_during
    };
    ChordHoldDecision { hold_during, defer_stops, arm, hold_after }
}

/// A touch height in thousandths of the view: `y` pixels down a view `height` pixels tall
/// (at least one), within `0..=1000`.
pub open spec fn y_norm_of(y: i32, height: i32) -> int {
    let h = if height < 1 {
        1
    } else {
        height as int
    };
    let v = (y as int * 1000) / h;
    if v < 0 {
        0
    } else if v > 1000 {
        1000
    } else {
        v
    }
}

/// A touch height in thousandths of the view (see `y_norm_of`).
pub fn y_norm_permille(y: i32, height: i32) -> (r: i32)
    ensures
        r == y_norm_of(y, height),
{
    let h: i64 = if height < 1 { 1 } else { height as i64 };
    if y < 0 {
        proof {
            assert((y as int * 1000) / (h as int) <= 0) by (nonlinear_arith)
                requires
                    y < 0,
                    h >= 1,
            ;
        }
        return 0;
    }
    let v: i64 = (y as i64 * 1000) / h;
    if v < 0 {
        0
    } else if v > 1000 {
        1000
    } else {
        v as i32
    }
}

/// How long a released chord's note-offs wait by default, in milliseconds.
pub const DEFAULT_NOTE_OFF_DELAY_MS: u64 = 350;

/// Lowest A4 tuning the frontend accepts, in Hz.
pub const MIN_A4_TUNING_HZ: u16 = 430;

/// Highest A4 tuning the frontend accepts, in Hz.
pub const MAX_A4_TUNING_HZ: u16 = 450;

/// What an Android frontend holds.
#[verifier::ext_equal]
pub struct AndroidView {
    pub ui: UiView,
    /// Messages for the audio thread not yet taken, oldest first.
    pub outbox: Seq<AudioMsg>,
    /// While true, chord changes hold back their note-offs.
    pub chord_hold_active: bool,
    pub note_off_delay_ms: u64,
    pub deferred_due_ms: Option<u64>,
    pub deferred: Seq<UnmidiNote>,
    pub visuals: Seq<NoteVisualEvent>,
    pub show_note_names: bool,
    pub a4_tuning_hz: u16,
}

/// The frontend after flushing its deferred note-offs at `now_ms`: once they are due, the
/// note-offs of `due_note_offs` (against the sounding notes) join the outbox and nothing
/// stays deferred; before that nothing changes.
pub open spec fn flushed(v: AndroidView, now_ms: u64) -> AndroidView {
    match v.deferred_due_ms {
        Some(d) => if now_ms >= d {
            AndroidView {
                outbox: v.outbox + due_note_offs(v.deferred, v.ui.app.active).map_values(
                    |un: UnmidiNote| AudioMsg::NoteOff(un),
                ),
                deferred_due_ms: None,
                deferred: Seq::empty(),
                ..v
            }
        } else {
            v
        },
        None => v,
    }
}

/// The audio messages of a set of effects, note-offs first (see `effect_messages`).
pub open spec fn effect_msgs(effects: AppEffects) -> Seq<AudioMsg> {
    effects.stop_notes@.map_values(|un: UnmidiNote| AudioMsg::NoteOff(un))
        + effects.play_notes@.map_values(|pn: NoteOn| AudioMsg::NoteOn(pn))
}

/// When held note-offs fall due once armed at `now_ms` with a delay of `delay_ms`: the
/// delay after now, or an earlier arming's time if that is later.
pub open spec fn armed_due(due: Option<u64>, now_ms: u64, delay_ms: u64) -> u64 {
    match due {
        Some(d) => if d >= now_ms + delay_ms {
            d
        } else {
            (now_ms + delay_ms) as u64
        },
        None => (now_ms + delay_ms) as u64,
    }
}

/// The result flags of a frontend call, as a number: bit 0 asks for a redraw, bit 1
/// reports sound, bit 2 asks for a haptic tick.
pub open spec fn flag_bits(redraw: bool, has_play: bool, haptic: bool) -> int {
    (if redraw { 1int } else { 0 }) + (if has_play { 2int } else { 0 }) + (if haptic {
        4int
    } else {
        0
    })
}

/// The frontend after it handles effects `fx` at `now_ms`: with `defer`, their note-offs
/// are held back instead of sent; with `arm`, the chord is let go and the held note-offs
/// armed; then the due held note-offs are queued, then the effects' note-offs (unless held
/// back), then their note-ons.
pub open spec fn pushed(v: AndroidView, fx: FxView, defer: bool, arm: bool, now_ms: u64) -> AndroidView {
    let v1 = if defer {
        AndroidView { deferred: v.deferred + fx.stop, ..v }
    } else {
        v
    };
    let v2 = if arm {
        AndroidView {
            chord_hold_active: false,
            deferred_due_ms: Some(armed_due(v1.deferred_due_ms, now_ms, v1.note_off_delay_ms)),
            ..v1
        }
    } else {
        v1
    };
    let v3 = flushed(v2, now_ms);
    let stops = if defer {
        Seq::<UnmidiNote>::empty()
    } else {
        fx.stop
    };
    AndroidView {
        outbox: v3.outbox + stops.map_values(|un: UnmidiNote| AudioMsg::NoteOff(un))
            + fx.play.map_values(|pn: NoteOn| AudioMsg::NoteOn(pn)),
        ..v3
    }
}

/// The on-screen button with index `id`, if there is one (indices `0..15`).
pub open spec fn button_of_id(id: i32) -> Option<UiButton> {
    if 0 <= id < 15 {
        Some(button_at(id as int))
    } else {
        None
    }
}

pub open spec fn key_state_of(is_down: bool) -> KeyState {
    if is_down {
        KeyState::Pressed
    } else {
        KeyState::Released
    }
}

/// The session's effects of an on-screen button event.
pub open spec fn button_fx(v: UiView, state: KeyState, b: UiButton) -> FxView {
    fx_model(step(v.app, button_event(state, b)).1)
}

/// The session after an on-screen button event.
pub open spec fn button_ui(v: UiView, state: KeyState, b: UiButton) -> UiView {
    ui_state_step(v, UiEvent::Button { state, button: b }, Seq::empty(), default_settings())
}

/// An on-screen button pressed or released at `now_ms`, and the result flags. Pressing a
/// chord button holds the chord; while a chord is held, and when a chord button is
/// released, the chord change's note-offs are held back; releasing a chord button lets
/// the chord go and arms the held note-offs.
pub open spec fn ui_button_step(v: AndroidView, button_id: i32, is_down: bool, now_ms: u64) -> (
    AndroidView,
    int,
) {
    match button_of_id(button_id) {
        None => (v, 0),
        Some(b) => {
            let st = key_state_of(is_down);
            let is_chord = chord_button_of(b) is Some;
            let hold = v.chord_hold_active || (is_chord && is_down);
            let fx = button_fx(v.ui, st, b);
            let defer = is_chord && (hold || !is_down);
            let v1 = AndroidView { ui: button_ui(v.ui, st, b), chord_hold_active: hold, ..v };
            (
                pushed(v1, fx, defer, is_chord && !is_down, now_ms),
                flag_bits(fx.redraw, fx.play.len() > 0 || (!defer && fx.stop.len() > 0), false),
            )
        },
    }
}

/// The harp with the swipe-wheel modifiers set to `mods` (marked as changed only when
/// they differ).
pub open spec fn with_wheel(app: AppView, mods: u16) -> AppView {
    if app.wheel != mods {
        AppView { wheel: mods, wheel_dirty: true, ..app }
    } else {
        app
    }
}

/// A chord pressed again on the swipe wheel at `now_ms` with the modifiers that
/// `reconsidered` gives the harp; the chord is held, so the change's note-offs are held
/// back. Returns the frontend and the result flags.
pub open spec fn wheel_press(v: AndroidView, b: UiButton, app: AppView, now_ms: u64) -> (AndroidView, int) {
    let ui1 = UiView { app, ..v.ui };
    let fx = button_fx(ui1, KeyState::Pressed, b);
    let v1 = AndroidView { ui: button_ui(ui1, KeyState::Pressed, b), chord_hold_active: true, ..v };
    (
        pushed(v1, fx, true, false, now_ms),
        flag_bits(fx.redraw, fx.play.len() > 0 || fx.stop.len() > 0, false),
    )
}

/// A swipe-wheel choice at `now_ms`: the chord button with index `chord_button_id` and
/// direction `dir8` (none when negative) pick the wheel modifiers, and the chord is pressed
/// again with them. Anything but a chord button does nothing; an unknown direction holds
/// the chord and does nothing more.
pub open spec fn wheel_choice_step(v: AndroidView, chord_button_id: i32, dir8: i32, now_ms: u64) -> (
    AndroidView,
    int,
) {
    match button_of_id(chord_button_id) {
        None => (v, 0),
        Some(b) => match chord_button_of(b) {
            None => (v, 0),
            Some(cb) => if dir8 >= 8 {
                (AndroidView { chord_hold_active: true, ..v }, 0)
            } else {
                let mods: u16 = if dir8 < 0 {
                    0
                } else {
                    wheel_preset(is_major(cb), dir_at(dir8 as int))
                };
                wheel_press(v, b, with_wheel(v.ui.app, mods), now_ms)
            },
        },
    }
}

/// The swipe wheel's minor/major switch at `now_ms`: the switch flips and the button with
/// index `button_id` is pressed again with it.
pub open spec fn wheel_toggle_step(v: AndroidView, button_id: i32, now_ms: u64) -> (AndroidView, int) {
    match button_of_id(button_id) {
        None => (v, 0),
        Some(b) => wheel_press(
            v,
            b,
            AppView {
                wheel: v.ui.app.wheel ^ Modifiers::SWITCH_MINOR_MAJOR,
                wheel_dirty: true,
                ..v.ui.app
            },
            now_ms,
        ),
    }
}

/// The key that a key index selects: its pitch class.
pub open spec fn key_transpose(key_index: i32) -> Transpose {
    Transpose(pc12((key_index as i16) as int) as i16)
}

/// The character with code point `u`, when it is one (not a surrogate, at most `0x10FFFF`).
pub open spec fn char_of(u: u32) -> Option<char> {
    if u <= 0xD7FF || (0xE000 <= u <= 0x10FFFF) {
        Some(u as char)
    } else {
        None
    }
}

/// The key of an Android key event: the character `unicode_char` if it is not zero (the
/// NUL character if it is no character), else Tab (code 61) or Control (codes 113 and
/// 114); other keys have none.
pub open spec fn android_key_of(key_code: i32, unicode_char: i32) -> Option<UiKey> {
    if unicode_char != 0 {
        Some(
            UiKey::Char(
                match char_of(unicode_char as u32) {
                    Some(c) => c,
                    None => '\0',
                },
            ),
        )
    } else if key_code == 61 {
        Some(UiKey::Tab)
    } else if key_code == 113 || key_code == 114 {
        Some(UiKey::Control)
    } else {
        None
    }
}

/// The session's effects of a key event.
pub open spec fn key_fx(v: UiView, state: KeyState, key: UiKey) -> FxView {
    match key_event_spec(state, key) {
        Some(kev) => fx_model(step(v.app, kev).1),
        None => fx_empty(),
    }
}

/// An Android key event at `now_ms`, and the result flags; keys without a meaning here do
/// nothing.
pub open spec fn android_key_step(
    v: AndroidView,
    key_code: i32,
    unicode_char: i32,
    is_down: bool,
    now_ms: u64,
) -> (AndroidView, int) {
    match android_key_of(key_code, unicode_char) {
        None => (v, 0),
        Some(key) => {
            let st = key_state_of(is_down);
            let fx = key_fx(v.ui, st, key);
            let v1 = AndroidView {
                ui: ui_state_step(v.ui, UiEvent::Key { state: st, key }, Seq::empty(), default_settings()),
                ..v
            };
            (
                pushed(v1, fx, false, false, now_ms),
                flag_bits(fx.redraw, fx.play.len() > 0 || fx.stop.len() > 0, false),
            )
        },
    }
}

/// The touch event of an Android touch: `x` pixels across (in thousandths), `y` pixels
/// down a view `height` pixels tall (in thousandths of it), pressure in thousandths.
pub open spec fn android_touch(
    pointer_id: i64,
    phase: i32,
    x: i32,
    y: i32,
    height: i32,
    pressure_permille: i32,
) -> TouchEvent {
    TouchEvent {
        id: PointerId(pointer_id as u64),
        phase: touch_phase_of(phase),
        x: (x * 1000) as i32,
        y_norm: y_norm_of(y, height) as i32,
        pressure: pressure_permille,
    }
}

/// A touch at `now_ms` on strings at `p`, and the result flags: the session answers it,
/// each touched note leaves a highlight, the effects are queued, and the run-out
/// highlights are dropped. A redraw is asked for while highlights remain.
pub open spec fn android_touch_step(v: AndroidView, te: TouchEvent, p: Seq<Coord>, now_ms: u64) -> (
    AndroidView,
    int,
) {
    let tn = ui_touch_notes(v.ui, UiEvent::Touch(te), p, default_settings());
    let fx = touch_event_step(v.ui, te, p, default_settings()).1;
    let v1 = AndroidView {
        ui: ui_state_step(v.ui, UiEvent::Touch(te), p, default_settings()),
        visuals: v.visuals + touch_visuals(te.phase, tn, now_ms),
        ..v
    };
    let v2 = pushed(v1, fx, false, false, now_ms);
    let alive = alive_visuals(v2.visuals, now_ms);
    (
        AndroidView { visuals: alive, ..v2 },
        flag_bits(fx.redraw || alive.len() > 0, fx.play.len() > 0 || fx.stop.len() > 0, tn.len() > 0),
    )
}

/// The character with code point `u`, if it is one (`char::from_u32`).
#[verifier::external_body]
fn char_from_u32(u: u32) -> (r: Option<char>)
    ensures
        r == char_of(u),
{
    char::from_u32(u)
}

/// Android-facing wrapper that owns the core engine and touch tracker.
///
/// Messages for the realtime audio thread queue up in an outbox; the platform layer takes
/// them (`take_audio_msgs`) and hands them to the audio callback, which never waits on the
/// engine.
pub struct AndroidFrontend {
    ui: UiSession,
    outbox: Vec<AudioMsg>,
    chord_wheel_hold_active: bool,
    chord_release_note_off_delay_ms: u64,
    deferred_stop_notes: DeferredStopNotes,
    note_visuals: Vec<NoteVisualEvent>,
    show_note_names: bool,
    a4_tuning_hz: u16,
}

impl AndroidFrontend {
    pub closed spec fn view(&self) -> AndroidView {
        AndroidView {
            ui: self.ui@,
            outbox: self.outbox@,
            chord_hold_active: self.chord_wheel_hold_active,
            note_off_delay_ms: self.chord_release_note_off_delay_ms,
            deferred_due_ms: self.deferred_stop_notes.due_ms,
            deferred: self.deferred_stop_notes.notes@,
            visuals: self.note_visuals@,
            show_note_names: self.show_note_names,
            a4_tuning_hz: self.a4_tuning_hz,
        }
    }

    /// The session is well formed, the note-off delay came from a `u32` of milliseconds,
    /// and the tuning lies in the accepted range.
    pub closed spec fn wf(&self) -> bool {
        &&& self.ui.wf()
        &&& self.chord_release_note_off_delay_ms <= u32::MAX
        &&& MIN_A4_TUNING_HZ <= self.a4_tuning_hz <= MAX_A4_TUNING_HZ
    }

    /// The view of a fresh frontend.
    pub open spec fn new_view() -> AndroidView {
        AndroidView {
            ui: UiSession::new_view(),
            outbox: Seq::empty(),
            chord_hold_active: false,
            note_off_delay_ms: DEFAULT_NOTE_OFF_DELAY_MS,
            deferred_due_ms: None,
            deferred: Seq::empty(),
            visuals: Seq::empty(),
            show_note_names: false,
            a4_tuning_hz: 440,
        }
    }

    pub fn new() -> (r: Self)
        ensures
            r.wf(),
            r@ == Self::new_view(),
    {
        let r = Self {
            ui: UiSession::new(),
            outbox: Vec::new(),
            chord_wheel_hold_active: false,
            chord_release_note_off_delay_ms: DEFAULT_NOTE_OFF_DELAY_MS,
            deferred_stop_notes: DeferredStopNotes::new(),
            note_visuals: Vec::new(),
            show_note_names: false,
            a4_tuning_hz: 440,
        };
        assert(r@ =~= Self::new_view());
        r
    }

    pub fn engine(&self) -> (r: &Engine)
        requires
            self.wf(),
        ensures
            r@ == self@.ui.app,
            r.wf(),
    {
        self.ui.engine()
    }

    /// The engine, to change directly; the frontend stays well formed as long as the engine
    /// does.
    pub fn engine_mut(&mut self) -> (r: &mut Engine)
        requires
            old(self).wf(),
        ensures
            r@ == old(self)@.ui.app,
            r.wf(),
            final(self)@ == (AndroidView { ui: UiView { app: final(r)@, ..old(self)@.ui }, ..old(self)@ }),
            final(r).wf() ==> final(self).wf(),
    {
        self.ui.engine_mut()
    }

    pub fn set_show_note_names(&mut self, show: bool)
        ensures
            final(self)@ == (AndroidView { show_note_names: show, ..old(self)@ }),
            old(self).wf() ==> final(self).wf(),
    {
        self.show_note_names = show;
    }

    pub fn show_note_names(&self) -> (r: bool)
        ensures
            r == self@.show_note_names,
    {
        self.show_note_names
    }

    pub fn set_play_on_tap(&mut self, enabled: bool)
        requires
            old(self).wf(),
        ensures
            final(self).wf(),
            final(self)@ == (AndroidView {
                ui: ui_state_step(old(self)@.ui, UiEvent::SetPlayOnTap(enabled), Seq::empty(), default_settings()),
                ..old(self)@
            }),
    {
        self.ui.set_play_on_tap(enabled);
    }

    pub fn set_chord_hold_active(&mut self, active: bool)
        ensures
            final(self)@ == (AndroidView { chord_hold_active: active, ..old(self)@ }),
            old(self).wf() ==> final(self).wf(),
    {
        self.chord_wheel_hold_active = active;
    }

    pub fn chord_hold_active(&self) -> (r: bool)
        ensures
            r == self@.chord_hold_active,
    {
        self.chord_wheel_hold_active
    }

    pub fn set_chord_release_note_off_delay_ms(&mut self, ms: u32)
        ensures
            final(self)@ == (AndroidView { note_off_delay_ms: ms as u64, ..old(self)@ }),
            old(self).wf() ==> final(self).wf(),
    {
        self.chord_release_note_off_delay_ms = ms as u64;
    }

    /// Holds back `notes`' note-offs until they are armed and due.
    pub fn defer_stop_notes(&mut self, notes: Vec<UnmidiNote>)
        ensures
            final(self)@ == (AndroidView { deferred: old(self)@.deferred + notes@, ..old(self)@ }),
            old(self).wf() ==> final(self).wf(),
    {
        if notes.len() == 0 {
            proof {
                assert(old(self)@.deferred + notes@ =~= old(self)@.deferred);
            }
            return ;
        }
        self.deferred_stop_notes.defer(notes);
    }

    /// Makes the deferred note-offs fall due one note-off delay after `now_ms`, or later if
    /// they were already armed for later.
    pub fn arm_deferred_stop_notes(&mut self, now_ms: u64)
        requires
            now_ms + old(self)@.note_off_delay_ms <= u64::MAX,
        ensures
            final(self)@ == (AndroidView {
                deferred_due_ms: Some(
                    armed_due(old(self)@.deferred_due_ms, now_ms, old(self)@.note_off_delay_ms),
                ),
                ..old(self)@
            }),
            old(self).wf() ==> final(self).wf(),
    {
        self.deferred_stop_notes.arm(now_ms, self.chord_release_note_off_delay_ms);
    }

    /// At `now_ms`, once the deferred note-offs are due, queues them (each note once, and
    /// none that has been struck again since) for the audio thread.
    pub fn flush_deferred_stop_notes(&mut self, now_ms: u64)
        requires
            old(self).wf(),
        ensures
            final(self).wf(),
            final(self)@ == flushed(old(self)@, now_ms),
    {
        let active = self.ui.engine().active_notes();
        let offs = self.deferred_stop_notes.flush(now_ms, &active);
        let mut msgs: Vec<AudioMsg> = Vec::new();
        let mut i: usize = 0;
        while i < offs.len()
            invariant
                i <= offs@.len(),
                msgs@ == offs@.take(i as int).map_values(|un: UnmidiNote| AudioMsg::NoteOff(un)),
            decreases offs@.len() - i,
        {
            msgs.push(AudioMsg::NoteOff(offs[i]));
            i = i + 1;
            assert(offs@.take(i as int).drop_last() =~= offs@.take(i - 1));
        }
        proof {
            assert(offs@.take(offs@.len() as int) =~= offs@);
        }
        self.outbox.append(&mut msgs);
        proof {
            assert(self@ =~= flushed(old(self)@, now_ms));
        }
    }

    /// Handles an event that carries no touch positions, with the default settings.
    pub fn handle_ui_event(&mut self, event: UiEvent) -> (r: AppEffects)
        requires
            old(self).wf(),
        ensures
            final(self).wf(),
            final(self)@ == (AndroidView {
                ui: ui_state_step(old(self)@.ui, event, Seq::empty(), default_settings()),
                ..old(self)@
            }),
            ui_effects_ok(old(self)@.ui, event, Seq::empty(), default_settings(), r),
    {
        let positions: Vec<Coord> = Vec::new();
        let out = self.ui.handle(event, positions.as_slice());
        out.effects
    }

    /// Queues the audio messages of `effects`, after any deferred note-offs that are due at
    /// `now_ms`: note-offs before note-ons, so that a re-struck note restarts.
    pub fn push_effects(&mut self, effects: AppEffects, now_ms: u64)
        requires
            old(self).wf(),
        ensures
            final(self).wf(),
            final(self)@ == (AndroidView {
                outbox: flushed(old(self)@, now_ms).outbox + effect_msgs(effects),
                ..flushed(old(self)@, now_ms)
            }),
    {
        self.flush_deferred_stop_notes(now_ms);
        let mut msgs = effect_messages(&effects);
        self.outbox.append(&mut msgs);
    }

    /// Handles effects at `now_ms` (see `pushed`).
    fn push_deferring(&mut self, effects: AppEffects, defer: bool, arm: bool, now_ms: u64)
        requires
            old(self).wf(),
            arm ==> now_ms + old(self)@.note_off_delay_ms <= u64::MAX,
        ensures
            final(self).wf(),
            final(self)@ == pushed(old(self)@, fx_of(effects), defer, arm, now_ms),
    {
        let ghost fx = fx_of(effects);
        let AppEffects { play_notes, stop_notes, bend_notes, stop_bend_pointers, redraw, change_key } =
            effects;
        let sent = if defer {
            self.defer_stop_notes(stop_notes);
            Vec::new()
        } else {
            stop_notes
        };
        if arm {
            self.chord_wheel_hold_active = false;
            self.arm_deferred_stop_notes(now_ms);
        }
        let rest = AppEffects { play_notes, stop_notes: sent, bend_notes, stop_bend_pointers, redraw, change_key };
        proof {
            if defer {
                assert(rest.stop_notes@ =~= Seq::<UnmidiNote>::empty());
            }
        }
        self.push_effects(rest, now_ms);
        proof {
            assert(self@ =~= pushed(old(self)@, fx, defer, arm, now_ms));
        }
    }

    /// Handles an on-screen button press or release at `now_ms` (see `ui_button_step`);
    /// returns the result flags.
    pub fn handle_ui_button(&mut self, button_id: i32, is_down: bool, now_ms: u64) -> (r: i32)
        requires
            old(self).wf(),
            now_ms + old(self)@.note_off_delay_ms <= u64::MAX,
        ensures
            final(self).wf(),
            (final(self)@, r as int) == ui_button_step(old(self)@, button_id, is_down, now_ms),
    {
        let state = if is_down {
            KeyState::Pressed
        } else {
            KeyState::Released
        };
        if button_id < 0 {
            return 0;
        }
        let button = match UiButton::from_index(button_id as usize) {
            Some(b) => b,
            None => {
                return 0;
            },
        };
        let is_chord_button = chord_button_from_ui_button(button).is_some();
        if is_chord_button && is_down {
            self.set_chord_hold_active(true);
        }
        let effects = self.handle_ui_event(UiEvent::Button { state, button });
        let defer = is_chord_button && (self.chord_wheel_hold_active || !is_down);
        let redraw = effects.redraw;
        let has_play = effects.play_notes.len() > 0 || (!defer && effects.stop_notes.len() > 0);
        self.push_deferring(effects, defer, is_chord_button && !is_down, now_ms);
        result_flags(redraw, has_play, false)
    }

    /// Applies a swipe-wheel choice at `now_ms` (see `wheel_choice_step`); returns the
    /// result flags.
    pub fn apply_chord_wheel_choice(&mut self, chord_button_id: i32, dir8: i32, now_ms: u64) -> (r: i32)
        requires
            old(self).wf(),
        ensures
            final(self).wf(),
            (final(self)@, r as int) == wheel_choice_step(old(self)@, chord_button_id, dir8, now_ms),
    {
        if chord_button_id < 0 {
            return 0;
        }
        let button = match UiButton::from_index(chord_button_id as usize) {
            Some(b) => b,
            None => {
                return 0;
            },
        };
        let chord_button = match chord_button_from_ui_button(button) {
            Some(b) => b,
            None => {
                return 0;
            },
        };
        self.set_chord_hold_active(true);
        let mods = if dir8 < 0 {
            Modifiers::empty()
        } else {
            match WheelDir8::from_i32(dir8) {
                Some(d) => modifiers_for(chord_button, d),
                None => {
                    return 0;
                },
            }
        };
        self.engine_mut().set_wheel_modifiers(mods);
        self.press_held_chord(button, now_ms)
    }

    /// Sets the swipe-wheel modifiers from a bit mask handed in from outside: its low 16
    /// bits, keeping only the bits of `Modifiers::ALL`.
    pub fn set_wheel_modifiers_bits(&mut self, modifiers_bits: i32)
        requires
            old(self).wf(),
        ensures
            final(self).wf(),
            final(self)@ == (AndroidView {
                ui: UiView {
                    app: with_wheel(old(self)@.ui.app, (modifiers_bits as u16) & Modifiers::ALL),
                    ..old(self)@.ui
                },
                ..old(self)@
            }),
    {
        let mods = Modifiers::from_bits_truncate(modifiers_bits as u16);
        self.engine_mut().set_wheel_modifiers(mods);
    }

    /// Flips the swipe wheel's minor/major switch at `now_ms` (see `wheel_toggle_step`);
    /// returns the result flags.
    pub fn toggle_chord_wheel_minor_major(&mut self, button_id: i32, now_ms: u64) -> (r: i32)
        requires
            old(self).wf(),
        ensures
            final(self).wf(),
            (final(self)@, r as int) == wheel_toggle_step(old(self)@, button_id, now_ms),
    {
        if button_id < 0 {
            return 0;
        }
        let button = match UiButton::from_index(button_id as usize) {
            Some(b) => b,
            None => {
                return 0;
            },
        };
        self.set_chord_hold_active(true);
        self.engine_mut().toggle_wheel_minor_major();
        self.press_held_chord(button, now_ms)
    }

    /// Presses `button` again while the chord is held, holding back the note-offs.
    fn press_held_chord(&mut self, button: UiButton, now_ms: u64) -> (r: i32)
        requires
            old(self).wf(),
            old(self)@.chord_hold_active,
        ensures
            final(self).wf(),
            (final(self)@, r as int) == wheel_press(old(self)@, button, old(self)@.ui.app, now_ms),
    {
        let effects = self.handle_ui_event(UiEvent::Button { state: KeyState::Pressed, button });
        let redraw = effects.redraw;
        let has_play = effects.play_notes.len() > 0 || effects.stop_notes.len() > 0;
        self.push_deferring(effects, true, false, now_ms);
        proof {
            let v = old(self)@;
            assert(AndroidView { ui: UiView { app: v.ui.app, ..v.ui }, ..v } == v);
            assert(AndroidView { chord_hold_active: true, ..v } == v);
        }
        result_flags(redraw, has_play, false)
    }

    /// Changes the key to the pitch class of `key_index` at `now_ms`, stopping the sounding
    /// notes; returns the result flags.
    pub fn set_key_index(&mut self, key_index: i32, now_ms: u64) -> (r: i32)
        requires
            old(self).wf(),
        ensures
            final(self).wf(),
            exists|fx: FxView|
                #[trigger] ui_fx_ok(
                    old(self)@.ui,
                    UiEvent::SetTranspose(key_transpose(key_index)),
                    Seq::empty(),
                    default_settings(),
                    fx,
                ) && final(self)@
                    == pushed(
                    AndroidView {
                        ui: ui_state_step(
                            old(self)@.ui,
                            UiEvent::SetTranspose(key_transpose(key_index)),
                            Seq::empty(),
                            default_settings(),
                        ),
                        ..old(self)@
                    },
                    fx,
                    false,
                    false,
                    now_ms,
                ) && r == flag_bits(true, fx.stop.len() > 0, false),
    {
        let t = key_index_transpose(key_index);
        let effects = self.handle_ui_event(UiEvent::SetTranspose(t));
        let ghost fx = fx_of(effects);
        let redraw = effects.redraw;
        let has_play = effects.play_notes.len() > 0 || effects.stop_notes.len() > 0;
        self.push_deferring(effects, false, false, now_ms);
        proof {
            assert(t == key_transpose(key_index));
            assert(ui_fx_ok(old(self)@.ui, UiEvent::SetTranspose(t), Seq::empty(), default_settings(), fx));
        }
        result_flags(redraw, has_play, false)
    }

    /// The pitch class of the key.
    pub fn key_index(&self) -> (r: i32)
        requires
            self.wf(),
        ensures
            r == pc12(self@.ui.app.transpose as int),
    {
        self.engine().transpose().wrap_to_octave() as i32
    }

    /// Handles an Android key event at `now_ms` (see `android_key_step`); returns the
    /// result flags.
    pub fn handle_android_key(&mut self, key_code: i32, unicode_char: i32, is_down: bool, now_ms: u64) -> (r:
        i32)
        requires
            old(self).wf(),
        ensures
            final(self).wf(),
            (final(self)@, r as int) == android_key_step(old(self)@, key_code, unicode_char, is_down, now_ms),
    {
        let state = if is_down {
            KeyState::Pressed
        } else {
            KeyState::Released
        };
        let key = if unicode_char != 0 {
            let c = match char_from_u32(unicode_char as u32) {
                Some(c) => c,
                None => '\0',
            };
            UiKey::Char(c)
        } else {
            match android_key(key_code, None) {
                Some(k) => k,
                None => {
                    return 0;
                },
            }
        };
        let effects = self.handle_ui_event(UiEvent::Key { state, key });
        let redraw = effects.redraw;
        let has_play = effects.play_notes.len() > 0 || effects.stop_notes.len() > 0;
        self.push_deferring(effects, false, false, now_ms);
        result_flags(redraw, has_play, false)
    }

    /// Handles an Android touch at `now_ms` on strings at `note_positions` (see
    /// `android_touch` and `android_touch_step`); returns the result flags.
    pub fn handle_touch_event(
        &mut self,
        pointer_id: i64,
        phase: i32,
        x: i32,
        y: i32,
        height: i32,
        pressure_permille: i32,
        note_positions: &[Coord],
        now_ms: u64,
    ) -> (r: i32)
        requires
            old(self).wf(),
            keyed_notes_fit(note_positions@.len() as int, old(self)@.ui.app.transpose as int),
            i32::MIN <= x * 1000 <= i32::MAX,
        ensures
            final(self).wf(),
            (final(self)@, r as int) == android_touch_step(
                old(self)@,
                android_touch(pointer_id, phase, x, y, height, pressure_permille),
                note_positions@,
                now_ms,
            ),
    {
        let event = TouchEvent {
            id: PointerId(pointer_id as u64),
            phase: touch_phase_from_code(phase),
            x: x * 1000,
            y_norm: y_norm_permille(y, height),
            pressure: pressure_permille,
        };
        let (effects, haptic) = self.handle_touch(event, note_positions, now_ms);
        let redraw = effects.redraw;
        let has_play = effects.play_notes.len() > 0 || effects.stop_notes.len() > 0;
        self.push_deferring(effects, false, false, now_ms);
        let wants_anim = self.has_active_note_visuals(now_ms);
        result_flags(redraw || wants_anim, has_play, haptic)
    }

    /// Tells the audio thread the output's sample rate (at least 1 Hz).
    pub fn set_sample_rate(&mut self, sample_rate_hz: u32)
        ensures
            final(self)@ == (AndroidView {
                outbox: old(self)@.outbox.push(
                    AudioMsg::SetSampleRate(if sample_rate_hz < 1 { 1 } else { sample_rate_hz }),
                ),
                ..old(self)@
            }),
            old(self).wf() ==> final(self).wf(),
    {
        let sr = if sample_rate_hz < 1 {
            1
        } else {
            sample_rate_hz
        };
        self.outbox.push(AudioMsg::SetSampleRate(sr));
    }

    /// Sets the A4 tuning, clamped to 430..=450 Hz, and tells the audio thread.
    pub fn set_a4_tuning_hz(&mut self, a4_tuning_hz: u16)
        requires
            old(self).wf(),
        ensures
            final(self).wf(),
            ({
                let a4 = if a4_tuning_hz < MIN_A4_TUNING_HZ {
                    MIN_A4_TUNING_HZ
                } else if a4_tuning_hz > MAX_A4_TUNING_HZ {
                    MAX_A4_TUNING_HZ
                } else {
                    a4_tuning_hz
                };
                final(self)@ == (AndroidView {
                    a4_tuning_hz: a4,
                    outbox: old(self)@.outbox.push(AudioMsg::SetA4Tuning(a4)),
                    ..old(self)@
                })
            }),
    {
        let a4 = if a4_tuning_hz < MIN_A4_TUNING_HZ {
            MIN_A4_TUNING_HZ
        } else if a4_tuning_hz > MAX_A4_TUNING_HZ {
            MAX_A4_TUNING_HZ
        } else {
            a4_tuning_hz
        };
        self.a4_tuning_hz = a4;
        self.outbox.push(AudioMsg::SetA4Tuning(a4));
    }

    pub fn a4_tuning_hz(&self) -> (r: u16)
        ensures
            r == self@.a4_tuning_hz,
    {
        self.a4_tuning_hz
    }

    /// Takes the queued audio messages, oldest first, leaving none.
    pub fn take_audio_msgs(&mut self) -> (r: Vec<AudioMsg>)
        ensures
            r@ == old(self)@.outbox,
            final(self)@ == (AndroidView { outbox: Seq::empty(), ..old(self)@ }),
            old(self).wf() ==> final(self).wf(),
    {
        let mut msgs: Vec<AudioMsg> = Vec::new();
        std::mem::swap(&mut msgs, &mut self.outbox);
        msgs
    }

    /// Drops the highlights that have run out by `now_ms`; returns whether any remain.
    pub fn has_active_note_visuals(&mut self, now_ms: u64) -> (r: bool)
        ensures
            final(self)@ == (AndroidView { visuals: alive_visuals(old(self)@.visuals, now_ms), ..old(self)@ }),
            r == (alive_visuals(old(self)@.visuals, now_ms).len() > 0),
            old(self).wf() ==> final(self).wf(),
    {
        retain_alive_visuals(&mut self.note_visuals, now_ms)
    }

    /// Drops the highlights that have run out by `now_ms` and returns the rest.
    pub fn note_visuals_snapshot(&mut self, now_ms: u64) -> (r: Vec<NoteVisualEvent>)
        ensures
            final(self)@ == (AndroidView { visuals: alive_visuals(old(self)@.visuals, now_ms), ..old(self)@ }),
            r@ == alive_visuals(old(self)@.visuals, now_ms),
            old(self).wf() ==> final(self).wf(),
    {
        retain_alive_visuals(&mut self.note_visuals, now_ms);
        vstd::slice::slice_to_vec(self.note_visuals.as_slice())
    }

    /// Handles a touch on strings at `note_positions` (unkeyed string index to x) at
    /// `now_ms`: the session answers it, and each touched note leaves a highlight. Returns
    /// the effects and whether to give a haptic tick.
    pub fn handle_touch(&mut self, event: TouchEvent, note_positions: &[Coord], now_ms: u64) -> (r: (
        AppEffects,
        bool,
    ))
        requires
            old(self).wf(),
            keyed_notes_fit(note_positions@.len() as int, old(self)@.ui.app.transpose as int),
        ensures
            final(self).wf(),
            ({
                let tn = ui_touch_notes(old(self)@.ui, UiEvent::Touch(event), note_positions@, default_settings());
                &&& final(self)@ == (AndroidView {
                    ui: ui_state_step(old(self)@.ui, UiEvent::Touch(event), note_positions@, default_settings()),
                    visuals: old(self)@.visuals + touch_visuals(event.phase, tn, now_ms),
                    ..old(self)@
                })
                &&& ui_effects_ok(old(self)@.ui, UiEvent::Touch(event), note_positions@, default_settings(), r.0)
                &&& r.1 == (tn.len() > 0)
            }),
    {
        let out = self.ui.handle(UiEvent::Touch(event), note_positions);
        let mut vs = visuals_for_touch(event.phase, &out.touch_notes, now_ms);
        self.note_visuals.append(&mut vs);
        (out.effects, out.haptic)
    }
}

} // verus!
