//! The harp's state machine: held buttons, the active chord, the key and sounding notes.
mod effects;
mod events;

pub use effects::{
    command_order, empty_effects, merge_effects, AppEffects, BendNote, EffectCommand, NoteOn,
};
pub use events::{
    ActionButton, Actions, ChordButton, KeyEvent, KeyState, ModButton, DEFAULT_STRUM_VOLUME,
};

use crate::chord::{has_flag, triad_flag, Chord, Modifiers, HEPTATONIC_MAJOR};
use crate::key_set::KeySet;
use crate::layout::{
    chord_for_row, default_row_specs, row_chord, row_kinds, row_weights, RowChord, RowSpec,
};
use crate::note_set::NoteSet;
use crate::notes::{centered, NoteVolume, Transpose, UnkeyedNote, UnmidiNote};
use crate::rows::RowIndex;
use vstd::prelude::*;

verus! {

/// Volume of the notes that a pulse plays.
pub const PULSE_VOLUME: u8 = 50;

/// Row of the active chord; chord changes silence only notes started there.
pub const TOP_ROW: usize = 0;

/// Lowest note that a pulse plays.
pub const PULSE_LOW: i16 = -12;

/// One past the highest note that a pulse plays.
pub const PULSE_HIGH: i16 = 70;

/// Number of notes that a chord change checks, from 0 up.
pub const STOP_SCAN: i16 = 128;

/// Abstract state of the harp.
pub struct AppView {
    /// What each row of strings offers.
    pub rows: Seq<RowChord>,
    /// Each row's share of the height.
    pub row_weights: Seq<u32>,
    pub active_chord: Chord,
    /// Notes sounding.
    pub active: Set<UnmidiNote>,
    /// Sounding notes that were started from the top row.
    pub top: Set<UnmidiNote>,
    /// Indices (`ChordButton::idx`) of the chord buttons held.
    pub chord_keys: Set<int>,
    /// Indices (`ModButton::idx`) of the modifier buttons held.
    pub mod_keys: Set<int>,
    /// Indices (`ActionButton::idx`) of the action buttons held.
    pub action_keys: Set<int>,
    /// Modifiers chosen on the swipe wheel.
    pub wheel: u16,
    /// The wheel modifiers changed since the chord was last decided.
    pub wheel_dirty: bool,
    pub implied_sevenths: bool,
    /// Modifiers pressed since the chord was last decided.
    pub mod_stage: u16,
    /// Actions pressed since the chord was last decided.
    pub action_stage: u16,
    pub transpose: i16,
}

/// What one event asks of the audio and display layers.
pub struct EffectsModel {
    pub play: Seq<NoteOn>,
    pub stop: Seq<UnmidiNote>,
    pub redraw: bool,
    pub change_key: Option<Transpose>,
}

/// `e` asks exactly for `m`, with no bends.
pub open spec fn effects_are(e: AppEffects, m: EffectsModel) -> bool {
    &&& e.play_notes@ == m.play
    &&& e.stop_notes@ == m.stop
    &&& e.bend_notes@.len() == 0
    &&& e.stop_bend_pointers@.len() == 0
    &&& e.redraw == m.redraw
    &&& e.change_key == m.change_key
}

/// Root, as an unkeyed note, of the chord button at table index `i`.
pub open spec fn chord_root_of(i: int) -> int {
    if i == 0 {
        10
    } else if i == 1 {
        5
    } else if i == 2 {
        0
    } else if i == 3 {
        7
    } else if i == 4 {
        2
    } else if i == 5 {
        9
    } else if i == 6 {
        4
    } else if i == 7 {
        11
    } else {
        0
    }
}

/// Two neighbouring degree buttons held together select the first one's dominant seventh.
/// The pairs are checked in a fixed order; the result is the root of the chord.
pub open spec fn implied_seventh_root(keys: Set<int>) -> Option<int> {
    if keys.contains(5) && keys.contains(4) {
        Some(9)
    } else if keys.contains(6) && keys.contains(5) {
        Some(4)
    } else if keys.contains(7) && keys.contains(6) {
        Some(11)
    } else if keys.contains(2) && keys.contains(1) {
        Some(0)
    } else if keys.contains(1) && keys.contains(0) {
        Some(5)
    } else if keys.contains(3) && keys.contains(2) {
        Some(7)
    } else if keys.contains(4) && keys.contains(3) {
        Some(2)
    } else {
        None
    }
}

/// `i` is the first chord button of the table that is held.
pub open spec fn is_first_held(keys: Set<int>, i: int) -> bool {
    &&& 0 <= i < 9
    &&& keys.contains(i)
    &&& forall|j: int| 0 <= j < i ==> !keys.contains(j)
}

/// The diatonic triad on `root`.
pub open spec fn triad(root: int) -> Chord {
    Chord { root: UnkeyedNote(root as i16), mods: Modifiers { bits: triad_flag(root) } }
}

/// Dominant-seventh modifiers: major triad plus minor seventh.
pub const DOMINANT_SEVENTH: u16 = 33;

/// The chord the held chord buttons select, before modifiers.
/// `old` is the chord to keep when the same root stays selected.
pub open spec fn decide_base(old: Option<Chord>, keys: Set<int>, implied_sevenths: bool) -> Chord {
    if keys.contains(8) {
        Chord { root: UnkeyedNote(0), mods: Modifiers { bits: HEPTATONIC_MAJOR } }
    } else if implied_sevenths && implied_seventh_root(keys) is Some {
        Chord {
            root: UnkeyedNote(implied_seventh_root(keys)->0 as i16),
            mods: Modifiers { bits: DOMINANT_SEVENTH },
        }
    } else if exists|i: int| is_first_held(keys, i) {
        let i = choose|i: int| is_first_held(keys, i);
        match old {
            Some(o) => if o.root.0 == chord_root_of(i) {
                o
            } else {
                triad(chord_root_of(i))
            },
            None => triad(chord_root_of(i)),
        }
    } else {
        match old {
            Some(o) => o,
            None => Chord { root: UnkeyedNote(0), mods: Modifiers { bits: Modifiers::CHROMATIC } },
        }
    }
}

/// The modifier stage after adding the modifiers of the held modifier buttons.
pub open spec fn held_mods(keys: Set<int>, stage: u16) -> u16 {
    let s = if keys.contains(0) { stage | Modifiers::ADD_MAJOR2 } else { stage };
    let s = if keys.contains(2) { s | Modifiers::ADD_MAJOR7 } else { s };
    let s = if keys.contains(1) { s | Modifiers::ADD_MINOR7 } else { s };
    let s = if keys.contains(3) { s | Modifiers::SUS4 } else { s };
    let s = if keys.contains(4) { s | Modifiers::SWITCH_MINOR_MAJOR } else { s };
    if keys.contains(5) { s | Modifiers::NO3 } else { s }
}

/// The notes `lo`, `lo + 1`, ..., `lo + n - 1` that `keep` accepts, ascending.
pub open spec fn scan_filter(lo: int, n: int, keep: spec_fn(UnmidiNote) -> bool) -> Seq<
    UnmidiNote,
> {
    Seq::new(n as nat, |k: int| UnmidiNote((k + lo) as i16)).filter(keep)
}

/// One more note at the top of a scan.
pub proof fn lemma_scan_filter_step(lo: int, n: int, keep: spec_fn(UnmidiNote) -> bool)
    requires
        0 <= n,
    ensures
        scan_filter(lo, n + 1, keep) == (if keep(UnmidiNote((n + lo) as i16)) {
            scan_filter(lo, n, keep).push(UnmidiNote((n + lo) as i16))
        } else {
            scan_filter(lo, n, keep)
        }),
{
    let f = |k: int| UnmidiNote((k + lo) as i16);
    assert(Seq::new((n + 1) as nat, f) =~= Seq::new(n as nat, f).push(f(n)));
    Seq::new(n as nat, f).lemma_filter_push(f(n), keep);
}

/// Whether a chord change stops `un`: the new chord leaves it out and the top row started it.
pub open spec fn stopped_by_change(chord: Chord, t: i16, top: Set<UnmidiNote>) -> spec_fn(
    UnmidiNote,
) -> bool {
    |un: UnmidiNote| !chord.spec_contains(un.0 - t) && top.contains(un)
}

/// Whether a pulse plays `un`: the chord holds it.
pub open spec fn pulsed(chord: Chord, t: i16) -> spec_fn(UnmidiNote) -> bool {
    |un: UnmidiNote| chord.spec_contains(un.0 - t)
}

/// Notes 0..128 that `chord` leaves out under key `t` and that `top` holds, ascending.
pub open spec fn change_stops(chord: Chord, t: i16, top: Set<UnmidiNote>) -> Seq<UnmidiNote> {
    scan_filter(0, STOP_SCAN as int, stopped_by_change(chord, t, top))
}

/// Notes of the pulse range that `chord` holds under key `t`, ascending.
pub open spec fn pulse_notes(chord: Chord, t: i16) -> Seq<UnmidiNote> {
    scan_filter(PULSE_LOW as int, (PULSE_HIGH - PULSE_LOW) as int, pulsed(chord, t))
}

/// The note-on of a pulse.
pub open spec fn pulse_note_on(un: UnmidiNote) -> NoteOn {
    NoteOn { note: un, volume: NoteVolume(PULSE_VOLUME), pointer: None }
}

/// Held keys and stages after a button event, and whether a chord button went down.
pub open spec fn key_update(v: AppView, ev: KeyEvent) -> (AppView, bool) {
    match ev {
        KeyEvent::Chord { state, button } => match state {
            KeyState::Pressed => (
                AppView { chord_keys: v.chord_keys.insert(button.idx()), ..v },
                !v.chord_keys.contains(button.idx()),
            ),
            KeyState::Released => (
                AppView { chord_keys: v.chord_keys.remove(button.idx()), ..v },
                false,
            ),
        },
        KeyEvent::Modifier { state, button, modifiers } => match state {
            KeyState::Pressed => if v.mod_keys.contains(button.idx()) {
                (v, false)
            } else {
                (
                    AppView {
                        mod_keys: v.mod_keys.insert(button.idx()),
                        mod_stage: v.mod_stage | modifiers.bits,
                        ..v
                    },
                    false,
                )
            },
            KeyState::Released => (AppView { mod_keys: v.mod_keys.remove(button.idx()), ..v }, false),
        },
        KeyEvent::Action { state, button, action } => match state {
            KeyState::Pressed => if v.action_keys.contains(button.idx()) {
                (v, false)
            } else {
                (
                    AppView {
                        action_keys: v.action_keys.insert(button.idx()),
                        action_stage: v.action_stage | action.bits,
                        ..v
                    },
                    false,
                )
            },
            KeyState::Released => (
                AppView { action_keys: v.action_keys.remove(button.idx()), ..v },
                false,
            ),
        },
        KeyEvent::StrumCrossing { .. } => (v, false),
    }
}

/// The effects that ask for nothing but `redraw`.
pub open spec fn no_effects(redraw: bool) -> EffectsModel {
    EffectsModel { play: seq![], stop: seq![], redraw, change_key: None }
}

/// A string of row `row` crossed at `note`: play it if the row's chord holds it,
/// stopping the earlier instance first.
pub open spec fn strum_step(v: AppView, row: int, note: UnkeyedNote, volume: NoteVolume) -> (
    AppView,
    EffectsModel,
) {
    if row_chord(v.rows, row, v.active_chord).spec_contains(note.0 as int) {
        let un = UnmidiNote((v.transpose + note.0) as i16);
        let was = v.active.contains(un);
        let top = if row == 0 {
            v.top.insert(un)
        } else if was {
            v.top.remove(un)
        } else {
            v.top
        };
        (
            AppView { active: v.active.insert(un), top, ..v },
            EffectsModel {
                play: seq![NoteOn { note: un, volume, pointer: None }],
                stop: if was { seq![un] } else { seq![] },
                redraw: false,
                change_key: None,
            },
        )
    } else {
        (v, no_effects(false))
    }
}

/// The modifier stage once the held modifier buttons and, unless the whole-scale
/// button is held, the wheel modifiers are added.
pub open spec fn staged(v: AppView) -> u16 {
    let stage = held_mods(v.mod_keys, v.mod_stage);
    if !v.chord_keys.contains(8) {
        stage | v.wheel
    } else {
        stage
    }
}

/// The chord that is kept when the same root stays selected: none right after a chord
/// button goes down or the wheel changes.
pub open spec fn venerated(v: AppView, pressed: bool) -> Option<Chord> {
    if pressed || v.wheel_dirty {
        None
    } else {
        Some(v.active_chord)
    }
}

/// The chord the held buttons and staged modifiers select.
pub open spec fn decided_chord(v: AppView, pressed: bool) -> Chord {
    let base = decide_base(venerated(v, pressed), v.chord_keys, v.implied_sevenths);
    if staged(v) != 0 {
        Chord { root: base.root, mods: Modifiers { bits: base.mods.bits | staged(v) } }
    } else {
        base
    }
}

/// Whether the decision changes the chord (always, when nothing is kept).
pub open spec fn chord_changed(v: AppView, pressed: bool) -> bool {
    match venerated(v, pressed) {
        None => true,
        Some(o) => o != decided_chord(v, pressed),
    }
}

/// Decide the chord and silence the top-row notes that a changed chord leaves out.
pub open spec fn after_decision(v: AppView, pressed: bool) -> (AppView, Seq<UnmidiNote>) {
    let chord = decided_chord(v, pressed);
    let stops = if chord_changed(v, pressed) {
        change_stops(chord, v.transpose, v.top)
    } else {
        seq![]
    };
    (
        AppView {
            active_chord: chord,
            active: v.active.difference(stops.to_set()),
            top: v.top.difference(stops.to_set()),
            wheel_dirty: false,
            mod_stage: staged(v),
            ..v
        },
        stops,
    )
}

/// Run the staged actions: a key change moves the key to the chord's root; a pulse
/// plays every note of the pulse range in the chord. Then clear the stages.
pub open spec fn actions_step(v: AppView) -> (AppView, EffectsModel) {
    let change = has_flag(v.action_stage, Actions::CHANGE_KEY);
    let t = if change { centered(v.active_chord.root.0 as int) as i16 } else { v.transpose };
    let p = if has_flag(v.action_stage, Actions::PULSE) {
        pulse_notes(v.active_chord, t)
    } else {
        seq![]
    };
    (
        AppView {
            active: v.active.union(p.to_set()),
            top: v.top.union(p.to_set()),
            mod_stage: 0,
            action_stage: 0,
            transpose: t,
            ..v
        },
        EffectsModel {
            play: p.map_values(|un: UnmidiNote| pulse_note_on(un)),
            stop: p.filter(|un: UnmidiNote| v.active.contains(un)),
            redraw: true,
            change_key: if change { Some(Transpose(t)) } else { None },
        },
    )
}

/// Decide the chord while chord buttons are held, silence top-row notes it leaves out,
/// then run the staged actions (key change, pulse).
pub open spec fn chord_step(v: AppView, pressed: bool) -> (AppView, EffectsModel) {
    let (v2, stops) = after_decision(v, pressed);
    let (v3, e) = actions_step(v2);
    (v3, EffectsModel { stop: stops + e.stop, ..e })
}

/// The state and effects after one key event.
pub open spec fn step(v: AppView, ev: KeyEvent) -> (AppView, EffectsModel) {
    match ev {
        KeyEvent::StrumCrossing { row, note, volume } => strum_step(v, row as int, note, volume),
        _ => {
            let (v1, pressed) = key_update(v, ev);
            if v1.chord_keys == Set::<int>::empty() {
                (v1, no_effects(true))
            } else {
                chord_step(v1, pressed)
            }
        },
    }
}

/// Key events never change the rows, and a key within a tritone of C stays there.
pub proof fn lemma_step_frame(v: AppView, ev: KeyEvent)
    ensures
        step(v, ev).0.rows == v.rows,
        step(v, ev).0.row_weights == v.row_weights,
        -6 <= v.transpose <= 6 ==> -6 <= step(v, ev).0.transpose <= 6,
{
    match ev {
        KeyEvent::StrumCrossing { .. } => {},
        _ => {
            let (v1, pressed) = key_update(v, ev);
            if v1.chord_keys != Set::<int>::empty() {
                let (v2, _stops) = after_decision(v1, pressed);
                assert(-5 <= centered(v2.active_chord.root.0 as int) <= 6);
            }
        },
    }
}

pub struct AppState {
    row_specs: Vec<RowSpec>,
    /// Chord of the top row.
    pub active_chord: Chord,
    pub active_notes: NoteSet,
    /// Sounding notes started from the top row.
    top_row_notes: NoteSet,
    chord_keys_down: KeySet,
    mod_keys_down: KeySet,
    action_keys_down: KeySet,
    // The Android swipe wheel sets these modifiers persistently.
    wheel_modifiers: Modifiers,
    wheel_modifiers_dirty: bool,
    allow_implied_sevenths: bool,
    modifier_stage: Modifiers,
    action_stage: Actions,
    pub transpose: Transpose,
}

impl AppState {
    pub closed spec fn view(&self) -> AppView {
        AppView {
            rows: row_kinds(self.row_specs@),
            row_weights: row_weights(self.row_specs@),
            active_chord: self.active_chord,
            active: self.active_notes@,
            top: self.top_row_notes@,
            chord_keys: self.chord_keys_down@,
            mod_keys: self.mod_keys_down@,
            action_keys: self.action_keys_down@,
            wheel: self.wheel_modifiers.bits,
            wheel_dirty: self.wheel_modifiers_dirty,
            implied_sevenths: self.allow_implied_sevenths,
            mod_stage: self.modifier_stage.bits,
            action_stage: self.action_stage.bits,
            transpose: self.transpose.0,
        }
    }

    /// The state's invariant: the key stays within 127 of the `i16` limits, so that the
    /// notes 0..128 of a chord change, taken out of the key, stay `i16` values.
    pub open spec fn wf(&self) -> bool {
        -32640 <= self@.transpose <= 32640
    }

    pub fn transpose(&self) -> (r: Transpose)
        ensures
            r.0 == self@.transpose,
    {
        self.transpose
    }

    pub fn active_chord(&self) -> (r: Chord)
        ensures
            r == self@.active_chord,
    {
        self.active_chord
    }

    /// The sounding notes, each once, in an unspecified order.
    pub fn active_notes(&self) -> (r: Vec<UnmidiNote>)
        ensures
            r@.to_set() == self@.active,
            r@.no_duplicates(),
    {
        self.active_notes.to_vec()
    }

    /// The state of a fresh harp: key of C, I chord, nothing held or sounding.
    pub open spec fn new_view() -> AppView {
        AppView {
            rows: seq![
                RowChord::Active,
                RowChord::MajorScale,
                RowChord::MajorScaleComplement,
                RowChord::Chromatic,
            ],
            row_weights: seq![40u32, 20u32, 20u32, 20u32],
            active_chord: triad(0),
            active: Set::empty(),
            top: Set::empty(),
            chord_keys: Set::empty(),
            mod_keys: Set::empty(),
            action_keys: Set::empty(),
            wheel: 0,
            wheel_dirty: false,
            implied_sevenths: true,
            mod_stage: 0,
            action_stage: 0,
            transpose: 0,
        }
    }

    pub fn new() -> (r: Self)
        ensures
            r.wf(),
            r@ == Self::new_view(),
    {
        let row_specs = default_row_specs();
        let r = Self {
            row_specs,
            active_chord: Chord::new_triad(UnkeyedNote(0)),
            active_notes: NoteSet::new(),
            top_row_notes: NoteSet::new(),
            chord_keys_down: KeySet::new(),
            mod_keys_down: KeySet::new(),
            action_keys_down: KeySet::new(),
            wheel_modifiers: Modifiers::empty(),
            wheel_modifiers_dirty: false,
            allow_implied_sevenths: true,
            modifier_stage: Modifiers::empty(),
            action_stage: Actions::empty(),
            transpose: Transpose(0),
        };
        assert(r@.rows =~= Self::new_view().rows);
        assert(r@.row_weights =~= Self::new_view().row_weights);
        r
    }

    pub fn set_allow_implied_sevenths(&mut self, enabled: bool)
        ensures
            final(self)@ == (AppView { implied_sevenths: enabled, ..old(self)@ }),
            final(self).wf() == old(self).wf(),
    {
        self.allow_implied_sevenths = enabled;
    }

    /// Set the wheel modifiers; a change takes effect at the next chord decision.
    pub fn set_wheel_modifiers(&mut self, modifiers: Modifiers)
        ensures
            final(self)@ == (if old(self)@.wheel != modifiers.bits {
                AppView { wheel: modifiers.bits, wheel_dirty: true, ..old(self)@ }
            } else {
                old(self)@
            }),
            final(self).wf() == old(self).wf(),
    {
        if self.wheel_modifiers.bits != modifiers.bits {
            self.wheel_modifiers = modifiers;
            self.wheel_modifiers_dirty = true;
        }
    }

    /// Flip the minor/major switch among the wheel modifiers.
    pub fn toggle_wheel_minor_major(&mut self)
        ensures
            final(self)@ == (AppView {
                wheel: old(self)@.wheel ^ Modifiers::SWITCH_MINOR_MAJOR,
                wheel_dirty: true,
                ..old(self)@
            }),
            final(self).wf() == old(self).wf(),
    {
        let w = self.wheel_modifiers.bits;
        proof {
            lemma_toggle_switch(w);
        }
        let mm = Modifiers::switch_minor_major();
        if self.wheel_modifiers.contains(mm) {
            self.set_wheel_modifiers(self.wheel_modifiers.difference(mm));
        } else {
            self.set_wheel_modifiers(self.wheel_modifiers.union(mm));
        }
    }

    /// Change key: stop every sounding note and forget them.
    pub fn set_transpose(&mut self, transpose: Transpose) -> (r: AppEffects)
        ensures
            final(self)@ == (AppView {
                active: Set::empty(),
                top: Set::empty(),
                transpose: centered(transpose.0 as int) as i16,
                ..old(self)@
            }),
            final(self).wf(),
            r.redraw,
            r.change_key == Some(Transpose(centered(transpose.0 as int) as i16)),
            r.stop_notes@.to_set() == old(self)@.active,
            r.stop_notes@.no_duplicates(),
            r.play_notes@.len() == 0,
            r.bend_notes@.len() == 0,
            r.stop_bend_pointers@.len() == 0,
    {
        let t = transpose.center_octave();
        let effects = AppEffects {
            redraw: true,
            change_key: Some(t),
            stop_notes: self.active_notes.to_vec(),
            stop_bend_pointers: Vec::new(),
            play_notes: Vec::new(),
            bend_notes: Vec::new(),
        };
        self.active_notes.clear();
        self.top_row_notes.clear();
        self.transpose = t;
        effects
    }

    pub fn chord_button_down(&self, button: ChordButton) -> (r: bool)
        ensures
            r == self@.chord_keys.contains(button.idx()),
    {
        self.chord_keys_down.contains(button.index())
    }

    pub fn mod_button_down(&self, button: ModButton) -> (r: bool)
        ensures
            r == self@.mod_keys.contains(button.idx()),
    {
        self.mod_keys_down.contains(button.index())
    }

    pub fn row_specs(&self) -> (r: &[RowSpec])
        ensures
            row_kinds(r@) == self@.rows,
            row_weights(r@) == self@.row_weights,
    {
        self.row_specs.as_slice()
    }

    /// The chord that row `row` offers.
    pub fn chord_for_row(&self, row: RowIndex) -> (r: Chord)
        ensures
            r == row_chord(self@.rows, row as int, self@.active_chord),
    {
        chord_for_row(self.row_specs.as_slice(), row, self.active_chord)
    }

    /// The chord of every row, top first.
    pub fn row_chords(&self) -> (r: Vec<Chord>)
        ensures
            r@.len() == self@.rows.len(),
            forall|i: int|
                0 <= i < r@.len() ==> r@[i] == row_chord(self@.rows, i, self@.active_chord),
    {
        let mut out: Vec<Chord> = Vec::new();
        let mut i: usize = 0;
        while i < self.row_specs.len()
            invariant
                i <= self.row_specs@.len(),
                out@.len() == i,
                forall|j: int|
                    0 <= j < i ==> out@[j] == row_chord(self@.rows, j, self@.active_chord),
            decreases self.row_specs@.len() - i,
        {
            out.push(self.chord_for_row(i));
            i = i + 1;
        }
        out
    }

    /// Play a crossed string if its row's chord holds it, stopping an earlier instance first.
    fn strum(&mut self, row: RowIndex, note: UnkeyedNote, volume: NoteVolume) -> (r: AppEffects)
        requires
            old(self).wf(),
            i16::MIN <= old(self)@.transpose + note.0 <= i16::MAX,
        ensures
            final(self).wf(),
            final(self)@ == strum_step(old(self)@, row as int, note, volume).0,
            effects_are(r, strum_step(old(self)@, row as int, note, volume).1),
    {
        let mut effects = empty_effects();
        let chord = self.chord_for_row(row);
        if chord.contains(note) {
            let un = self.transpose + note;
            // Only one instance of a note sounds at a time.
            if self.active_notes.remove(&un) {
                effects.stop_notes.push(un);
                self.top_row_notes.remove(&un);
            }
            self.active_notes.insert(un);
            if row == TOP_ROW {
                self.top_row_notes.insert(un);
            }
            effects.play_notes.push(NoteOn { note: un, volume, pointer: None });
            proof {
                let v = old(self)@;
                let was = v.active.contains(un);
                assert(self@.active =~= v.active.insert(un));
                if row == 0 {
                    assert(self@.top =~= v.top.insert(un));
                } else if was {
                    assert(self@.top =~= v.top.remove(un));
                } else {
                    assert(self@.top =~= v.top);
                }
                assert(effects.play_notes@ =~= seq![NoteOn { note: un, volume, pointer: None }]);
                if was {
                    assert(effects.stop_notes@ =~= seq![un]);
                } else {
                    assert(effects.stop_notes@ =~= Seq::<UnmidiNote>::empty());
                }
            }
        } else {
            assert(effects.play_notes@ =~= Seq::<NoteOn>::empty());
            assert(effects.stop_notes@ =~= Seq::<UnmidiNote>::empty());
        }
        effects
    }

    /// Record a button press or release; true when a chord button went down.
    fn update_keys(&mut self, event: KeyEvent) -> (pressed: bool)
        requires
            old(self).wf(),
        ensures
            final(self).wf(),
            final(self)@ == key_update(old(self)@, event).0,
            pressed == key_update(old(self)@, event).1,
    {
        match event {
            KeyEvent::Chord { state, button } => match state {
                KeyState::Pressed => {
                    let newly = self.chord_keys_down.insert(button.index());
                    assert(self@ == (AppView {
                        chord_keys: old(self)@.chord_keys.insert(button.idx()),
                        ..old(self)@
                    }));
                    newly
                },
                KeyState::Released => {
                    self.chord_keys_down.remove(button.index());
                    assert(self@ == (AppView {
                        chord_keys: old(self)@.chord_keys.remove(button.idx()),
                        ..old(self)@
                    }));
                    false
                },
            },
            KeyEvent::Modifier { state, button, modifiers } => match state {
                KeyState::Pressed => {
                    if self.mod_keys_down.insert(button.index()) {
                        self.modifier_stage.insert(modifiers);
                    } else {
                        assert(self.mod_keys_down@ =~= old(self).mod_keys_down@);
                    }
                    false
                },
                KeyState::Released => {
                    self.mod_keys_down.remove(button.index());
                    false
                },
            },
            KeyEvent::Action { state, button, action } => match state {
                KeyState::Pressed => {
                    if self.action_keys_down.insert(button.index()) {
                        self.action_stage.insert(action);
                    } else {
                        assert(self.action_keys_down@ =~= old(self).action_keys_down@);
                    }
                    false
                },
                KeyState::Released => {
                    self.action_keys_down.remove(button.index());
                    false
                },
            },
            KeyEvent::StrumCrossing { .. } => false,
        }
    }

    /// Silence the top-row notes that `self.active_chord` leaves out.
    fn stop_notes_outside_chord(&mut self) -> (r: Vec<UnmidiNote>)
        requires
            old(self).wf(),
        ensures
            final(self).wf(),
            r@ == change_stops(old(self)@.active_chord, old(self)@.transpose, old(self)@.top),
            final(self)@ == (AppView {
                active: old(self)@.active.difference(r@.to_set()),
                top: old(self)@.top.difference(r@.to_set()),
                ..old(self)@
            }),
    {
        let ghost keep = stopped_by_change(self@.active_chord, self@.transpose, self@.top);
        let mut stops: Vec<UnmidiNote> = Vec::new();
        let mut i: i16 = 0;
        while i < STOP_SCAN
            invariant
                0 <= i <= STOP_SCAN,
                self == old(self),
                self.wf(),
                keep == stopped_by_change(self@.active_chord, self@.transpose, self@.top),
                stops@ == scan_filter(0, i as int, keep),
            decreases STOP_SCAN - i,
        {
            let un = UnmidiNote(i);
            proof {
                lemma_scan_filter_step(0, i as int, keep);
            }
            if !self.active_chord.contains(un - self.transpose) && self.top_row_notes.contains(&un) {
                stops.push(un);
            }
            i = i + 1;
        }
        proof {
            assert(stops@.take(0) =~= Seq::<UnmidiNote>::empty());
            assert(stops@.take(0).to_set() =~= Set::<UnmidiNote>::empty());
            assert(self@.active =~= old(self)@.active.difference(Set::<UnmidiNote>::empty()));
            assert(self@.top =~= old(self)@.top.difference(Set::<UnmidiNote>::empty()));
        }
        let mut j: usize = 0;
        while j < stops.len()
            invariant
                j <= stops@.len(),
                self.wf(),
                self@ == (AppView {
                    active: old(self)@.active.difference(stops@.take(j as int).to_set()),
                    top: old(self)@.top.difference(stops@.take(j as int).to_set()),
                    ..old(self)@
                }),
            decreases stops@.len() - j,
        {
            let un = stops[j];
            self.active_notes.remove(&un);
            self.top_row_notes.remove(&un);
            proof {
                assert(stops@.take(j + 1) == stops@.take(j as int).push(un));
                stops@.take(j as int).lemma_push_to_set_commute(un);
                assert(self@.active =~= old(self)@.active.difference(stops@.take(j + 1).to_set()));
                assert(self@.top =~= old(self)@.top.difference(stops@.take(j + 1).to_set()));
            }
            j = j + 1;
        }
        assert(stops@.take(stops@.len() as int) =~= stops@);
        stops
    }

    /// Play every note of the pulse range that the active chord holds, re-triggering
    /// those already sounding; they count as top-row notes.
    fn pulse(&mut self, stops: &mut Vec<UnmidiNote>, plays: &mut Vec<NoteOn>)
        requires
            old(self).wf(),
        ensures
            final(self).wf(),
            ({
                let v = old(self)@;
                let p = pulse_notes(v.active_chord, v.transpose);
                &&& final(stops)@ == old(stops)@ + p.filter(|un: UnmidiNote| v.active.contains(un))
                &&& final(plays)@ == old(plays)@ + p.map_values(|un: UnmidiNote| pulse_note_on(un))
                &&& final(self)@ == (AppView {
                    active: v.active.union(p.to_set()),
                    top: v.top.union(p.to_set()),
                    ..v
                })
            }),
    {
        let ghost v = self@;
        let ghost keep = pulsed(v.active_chord, v.transpose);
        let ghost in_active = |un: UnmidiNote| v.active.contains(un);
        let ghost stops0 = stops@;
        let ghost plays0 = plays@;
        let chord = self.active_chord;
        let t = self.transpose;
        let mut i: i16 = PULSE_LOW;
        proof {
            let e = scan_filter(PULSE_LOW as int, 0, keep);
            Seq::new(0, |k: int| UnmidiNote((k + PULSE_LOW) as i16)).lemma_filter_len(keep);
            assert(e =~= Seq::<UnmidiNote>::empty());
            e.lemma_filter_len(in_active);
            assert(e.filter(in_active) =~= Seq::<UnmidiNote>::empty());
            assert(e.to_set() =~= Set::<UnmidiNote>::empty());
            assert(stops@ =~= stops0 + e.filter(in_active));
            assert(plays@ =~= plays0 + e.map_values(|un: UnmidiNote| pulse_note_on(un)));
            assert(self@.active =~= v.active.union(e.to_set()));
            assert(self@.top =~= v.top.union(e.to_set()));
        }
        while i < PULSE_HIGH
            invariant
                PULSE_LOW <= i <= PULSE_HIGH,
                self.wf(),
                chord == v.active_chord,
                t.0 == v.transpose,
                keep == pulsed(v.active_chord, v.transpose),
                in_active == (|un: UnmidiNote| v.active.contains(un)),
                stops@ == stops0 + scan_filter(PULSE_LOW as int, i - PULSE_LOW, keep).filter(in_active),
                plays@ == plays0 + scan_filter(PULSE_LOW as int, i - PULSE_LOW, keep).map_values(
                    |un: UnmidiNote| pulse_note_on(un),
                ),
                self@ == (AppView {
                    active: v.active.union(scan_filter(PULSE_LOW as int, i - PULSE_LOW, keep).to_set()),
                    top: v.top.union(scan_filter(PULSE_LOW as int, i - PULSE_LOW, keep).to_set()),
                    ..v
                }),
                forall|x: UnmidiNote|
                    #[trigger] scan_filter(PULSE_LOW as int, i - PULSE_LOW, keep).contains(x) ==> x.0 < i,
            decreases PULSE_HIGH - i,
        {
            let un = UnmidiNote(i);
            let ghost pre = scan_filter(PULSE_LOW as int, i - PULSE_LOW, keep);
            proof {
                lemma_scan_filter_step(PULSE_LOW as int, i - PULSE_LOW, keep);
            }
            if chord.contains(un - t) {
                let ghost was_before = self@.active.contains(un);
                if self.active_notes.remove(&un) {
                    stops.push(un);
                }
                self.active_notes.insert(un);
                self.top_row_notes.insert(un);
                plays.push(NoteOn { note: un, volume: NoteVolume(PULSE_VOLUME), pointer: None });
                proof {
                    let post = pre.push(un);
                    assert(!pre.contains(un));
                    assert(was_before == v.active.contains(un));
                    pre.lemma_filter_push(un, in_active);
                    pre.lemma_push_to_set_commute(un);
                    assert(post.map_values(|un: UnmidiNote| pulse_note_on(un)) =~= pre.map_values(
                        |un: UnmidiNote| pulse_note_on(un),
                    ).push(pulse_note_on(un)));
                    assert(self@.active =~= v.active.union(post.to_set()));
                    assert(self@.top =~= v.top.union(post.to_set()));
                    assert forall|x: UnmidiNote| #[trigger] post.contains(x) implies x.0 < i + 1 by {
                        if x != un {
                            assert(pre.contains(x));
                        }
                    }
                }
            }
            i = i + 1;
        }
    }

    /// Handle one key event and report what to play, stop and redraw.
    pub fn handle_key_event(&mut self, event: KeyEvent) -> (r: AppEffects)
        requires
            old(self).wf(),
            event matches KeyEvent::StrumCrossing { note, .. } ==> i16::MIN <= old(self)@.transpose
                + note.0 <= i16::MAX,
        ensures
            final(self).wf(),
            final(self)@ == step(old(self)@, event).0,
            effects_are(r, step(old(self)@, event).1),
            r.stop_notes@.no_duplicates(),
    {
        proof {
            crate::laws::law_stops_once(self@, event);
        }
        if let KeyEvent::StrumCrossing { row, note, volume } = event {
            return self.strum(row, note, volume);
        }
        let chord_was_pressed = self.update_keys(event);
        if self.chord_keys_down.is_empty() {
            let mut effects = empty_effects();
            effects.redraw = true;
            assert(effects.play_notes@ =~= Seq::<NoteOn>::empty());
            assert(effects.stop_notes@ =~= Seq::<UnmidiNote>::empty());
            return effects;
        }
        self.decide_and_act(chord_was_pressed)
    }

    /// With chord buttons held: decide the chord, silence what it leaves out, run the
    /// staged actions and clear the stages.
    fn decide_and_act(&mut self, chord_was_pressed: bool) -> (r: AppEffects)
        requires
            old(self).wf(),
        ensures
            final(self).wf(),
            final(self)@ == chord_step(old(self)@, chord_was_pressed).0,
            effects_are(r, chord_step(old(self)@, chord_was_pressed).1),
    {
        let mut effects = empty_effects();
        effects.redraw = true;
        let chord_changed = self.decide_chord(chord_was_pressed);
        if chord_changed {
            effects.stop_notes = self.stop_notes_outside_chord();
        } else {
            assert(self@ == after_decision(old(self)@, chord_was_pressed).0) by {
                assert(self@.active =~= self@.active.difference(Seq::<UnmidiNote>::empty().to_set()));
                assert(self@.top =~= self@.top.difference(Seq::<UnmidiNote>::empty().to_set()));
            }
        }
        assert(effects.stop_notes@ == after_decision(old(self)@, chord_was_pressed).1);
        self.run_actions(&mut effects);
        effects
    }

    /// Decide the chord from the held buttons and staged modifiers; true when it changed.
    fn decide_chord(&mut self, chord_was_pressed: bool) -> (changed: bool)
        requires
            old(self).wf(),
        ensures
            final(self).wf(),
            changed == chord_changed(old(self)@, chord_was_pressed),
            final(self)@ == (AppView {
                active_chord: decided_chord(old(self)@, chord_was_pressed),
                wheel_dirty: false,
                mod_stage: staged(old(self)@),
                ..old(self)@
            }),
    {
        let venerated_old_chord = if chord_was_pressed || self.wheel_modifiers_dirty {
            None
        } else {
            Some(self.active_chord)
        };
        let mut new_chord = decide_chord_base(
            venerated_old_chord,
            &self.chord_keys_down,
            self.allow_implied_sevenths,
        );
        self.wheel_modifiers_dirty = false;
        // Held modifier buttons.
        if self.mod_keys_down.contains(ModButton::Major2.index()) {
            self.modifier_stage.insert(Modifiers::add_major2());
        }
        if self.mod_keys_down.contains(ModButton::Major7.index()) {
            self.modifier_stage.insert(Modifiers::add_major7());
        }
        if self.mod_keys_down.contains(ModButton::Minor7.index()) {
            self.modifier_stage.insert(Modifiers::add_minor7());
        }
        if self.mod_keys_down.contains(ModButton::Sus4.index()) {
            self.modifier_stage.insert(Modifiers::sus4());
        }
        if self.mod_keys_down.contains(ModButton::MinorMajor.index()) {
            self.modifier_stage.insert(Modifiers::switch_minor_major());
        }
        if self.mod_keys_down.contains(ModButton::No3.index()) {
            self.modifier_stage.insert(Modifiers::no3());
        }
        // Persistent wheel modifiers, except for the whole-scale chord.
        if !self.chord_keys_down.contains(ChordButton::HeptatonicMajor.index()) {
            self.modifier_stage.insert(self.wheel_modifiers);
        }
        if !self.modifier_stage.is_empty() {
            new_chord.add_mods_now(self.modifier_stage);
        }
        let chord_changed = match venerated_old_chord {
            None => true,
            Some(old) => old != new_chord,
        };
        self.active_chord = new_chord;
        chord_changed
    }

    /// Run the staged key change and pulse, then clear the stages.
    fn run_actions(&mut self, effects: &mut AppEffects)
        requires
            old(self).wf(),
        ensures
            final(self).wf(),
            final(self)@ == actions_step(old(self)@).0,
            final(effects).stop_notes@ == old(effects).stop_notes@ + actions_step(old(self)@).1.stop,
            final(effects).play_notes@ == old(effects).play_notes@ + actions_step(old(self)@).1.play,
            final(effects).change_key == (if actions_step(old(self)@).1.change_key is Some {
                actions_step(old(self)@).1.change_key
            } else {
                old(effects).change_key
            }),
            final(effects).redraw == old(effects).redraw,
            final(effects).bend_notes == old(effects).bend_notes,
            final(effects).stop_bend_pointers == old(effects).stop_bend_pointers,
    {
        let ghost v = self@;
        if self.action_stage.contains(Actions::change_key()) {
            self.transpose = Transpose(self.active_chord.get_root().as_i16()).center_octave();
            effects.change_key = Some(self.transpose);
        }
        if self.action_stage.contains(Actions::pulse()) {
            self.pulse(&mut effects.stop_notes, &mut effects.play_notes);
        } else {
            proof {
                let e = Seq::<UnmidiNote>::empty();
                e.lemma_filter_len(|un: UnmidiNote| v.active.contains(un));
                assert(e.filter(|un: UnmidiNote| v.active.contains(un)) =~= e);
                assert(effects.stop_notes@ =~= old(effects).stop_notes@ + e);
                assert(effects.play_notes@ =~= old(effects).play_notes@ + e.map_values(
                    |un: UnmidiNote| pulse_note_on(un),
                ));
                assert(self@.active =~= self@.active.union(e.to_set()));
                assert(self@.top =~= self@.top.union(e.to_set()));
            }
        }
        self.modifier_stage = Modifiers::empty();
        self.action_stage = Actions::empty();
    }
}

/// The root a chord button selects.
fn chord_root_for(button: ChordButton) -> (r: Option<UnkeyedNote>)
    ensures
        r == Some(UnkeyedNote(chord_root_of(button.idx()) as i16)),
{
    let root: i16 = match button {
        ChordButton::VIIB => 10,
        ChordButton::IV => 5,
        ChordButton::I => 0,
        ChordButton::V => 7,
        ChordButton::II => 2,
        ChordButton::VI => 9,
        ChordButton::III => 4,
        ChordButton::VII => 11,
        ChordButton::HeptatonicMajor => 0,
    };
    Some(UnkeyedNote(root))
}

/// The root of the seventh chord that two neighbouring held degree buttons imply.
fn detect_implied_minor7_root(chord_keys_down: &KeySet) -> (r: Option<UnkeyedNote>)
    ensures
        r == (match implied_seventh_root(chord_keys_down@) {
            Some(root) => Some(UnkeyedNote(root as i16)),
            None => None,
        }),
{
    let pairs: [(ChordButton, ChordButton); 7] = [
        (ChordButton::VI, ChordButton::II),
        (ChordButton::III, ChordButton::VI),
        (ChordButton::VII, ChordButton::III),
        (ChordButton::I, ChordButton::IV),
        (ChordButton::IV, ChordButton::VIIB),
        (ChordButton::V, ChordButton::I),
        (ChordButton::II, ChordButton::V),
    ];
    let mut k: usize = 0;
    while k < 7
        invariant
            k <= 7,
            pairs@ == seq![(ChordButton::VI, ChordButton::II), (ChordButton::III, ChordButton::VI), (ChordButton::VII, ChordButton::III), (ChordButton::I, ChordButton::IV), (ChordButton::IV, ChordButton::VIIB), (ChordButton::V, ChordButton::I), (ChordButton::II, ChordButton::V)],
            forall|j: int|
                0 <= j < k ==> !(chord_keys_down@.contains(pairs@[j].0.idx())
                    && chord_keys_down@.contains(pairs@[j].1.idx())),
        decreases 7 - k,
    {
        let (a, b) = pairs[k];
        if chord_keys_down.contains(a.index()) && chord_keys_down.contains(b.index()) {
            return chord_root_for(a);
        }
        k = k + 1;
    }
    None
}

fn heptatonic_major_chord_root(root: UnkeyedNote) -> (r: Chord)
    ensures
        r.root == root,
        r.mods.bits == HEPTATONIC_MAJOR,
{
    Chord::major_scale(root)
}

fn heptatonic_major_chord() -> (r: Chord)
    ensures
        r.root == UnkeyedNote(0),
        r.mods.bits == HEPTATONIC_MAJOR,
{
    heptatonic_major_chord_root(UnkeyedNote(0))
}

/// Decide the chord from the held chord buttons; `venerated_old_chord` is kept when its
/// root stays selected, so that modifiers applied to it persist.
fn decide_chord_base(
    venerated_old_chord: Option<Chord>,
    chord_keys_down: &KeySet,
    allow_implied_sevenths: bool,
) -> (r: Chord)
    ensures
        r == decide_base(venerated_old_chord, chord_keys_down@, allow_implied_sevenths),
{
    if chord_keys_down.contains(ChordButton::HeptatonicMajor.index()) {
        return heptatonic_major_chord();
    }
    // Two neighbouring degree buttons held together imply a seventh chord.
    if allow_implied_sevenths {
        if let Some(root) = detect_implied_minor7_root(chord_keys_down) {
            let r = Chord::new(root, Modifiers::major_tri().union(Modifiers::add_minor7()));
            assert(r.mods.bits == DOMINANT_SEVENTH) by {
                assert(1u16 | 32u16 == 33u16) by (bit_vector);
            }
            return r;
        }
    }
    let mut i: u8 = 0;
    while i < 9
        invariant
            i <= 9,
            forall|j: int| 0 <= j < i ==> !chord_keys_down@.contains(j),
            !chord_keys_down@.contains(8),
            !(allow_implied_sevenths && implied_seventh_root(chord_keys_down@) is Some),
        decreases 9 - i,
    {
        if chord_keys_down.contains(i) {
            proof {
                assert(is_first_held(chord_keys_down@, i as int));
                assert forall|k: int| is_first_held(chord_keys_down@, k) implies k == i by {
                    if k < i {
                    } else if k > i {
                        assert(!chord_keys_down@.contains(i as int));
                    }
                }
                assert((choose|k: int| is_first_held(chord_keys_down@, k)) == i as int);
                assert(!chord_keys_down@.contains(8));
            }
            let root: i16 = match i {
                0 => 10,
                1 => 5,
                2 => 0,
                3 => 7,
                4 => 2,
                5 => 9,
                6 => 4,
                7 => 11,
                _ => 0,
            };
            if let Some(old) = venerated_old_chord {
                if old.get_root().0 == root {
                    return old;
                }
            }
            return Chord::new_triad(UnkeyedNote(root));
        }
        i = i + 1;
    }
    // Unreachable while a chord button is held; keep a safe fallback.
    if let Some(old) = venerated_old_chord {
        return old;
    }
    Chord::chromatic(UnkeyedNote(0))
}

proof fn lemma_toggle_switch(w: u16)
    by (bit_vector)
    ensures
        w & 1024u16 == 1024u16 ==> w & !1024u16 == w ^ 1024u16,
        w & 1024u16 != 1024u16 ==> w | 1024u16 == w ^ 1024u16,
        w ^ 1024u16 != w,
{
}

} // verus!
