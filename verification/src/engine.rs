//! Platform-agnostic wrapper around `AppState`; frontends translate their input into
//! `KeyEvent`s and feed them here.
use crate::app_state::{
    effects_are, lemma_step_frame, step, AppEffects, AppState, AppView, ChordButton, KeyEvent,
    ModButton,
};
use crate::chord::{Chord, Modifiers};
use crate::layout::{row_chord, row_kinds, row_weights, RowSpec};
use crate::notes::{centered, NoteVolume, Transpose, UnkeyedNote, UnmidiNote};
use crate::rows::RowIndex;
use vstd::prelude::*;

verus! {

pub struct Engine {
    state: AppState,
}

impl Engine {
    pub closed spec fn view(&self) -> AppView {
        self.state@
    }

    /// The engine's invariant: the key stays within a tritone of C and the rows are the
    /// default ones.
    pub open spec fn wf(&self) -> bool {
        &&& -6 <= self@.transpose <= 6
        &&& self@.rows == AppState::new_view().rows
        &&& self@.row_weights == AppState::new_view().row_weights
    }

    pub fn new() -> (r: Self)
        ensures
            r.wf(),
            r@ == AppState::new_view(),
    {
        Self { state: AppState::new() }
    }

    pub fn transpose(&self) -> (r: Transpose)
        ensures
            r.0 == self@.transpose,
    {
        self.state.transpose()
    }

    pub fn set_transpose(&mut self, transpose: Transpose) -> (r: AppEffects)
        requires
            old(self).wf(),
        ensures
            final(self)@ == (AppView {
                active: Set::empty(),
                top: Set::empty(),
                transpose: centered(transpose.0 as int) as i16,
                ..old(self)@
            }),
            final(self).wf(),
            r.redraw,
            r.change_key == Some(Transpose(centered(transpose.0 as int) as i16)),
            r.stop_notes@.to_set() == old(self)@.active,
            r.stop_notes@.no_duplicates(),
            r.play_notes@.len() == 0,
            r.bend_notes@.len() == 0,
            r.stop_bend_pointers@.len() == 0,
    {
        self.state.set_transpose(transpose)
    }

    pub fn handle_event(&mut self, event: KeyEvent) -> (r: AppEffects)
        requires
            old(self).wf(),
            event matches KeyEvent::StrumCrossing { note, .. } ==> i16::MIN <= old(self)@.transpose
                + note.0 <= i16::MAX,
        ensures
            final(self).wf(),
            final(self)@ == step(old(self)@, event).0,
            effects_are(r, step(old(self)@, event).1),
            r.stop_notes@.no_duplicates(),
    {
        proof {
            lemma_step_frame(old(self)@, event);
        }
        self.state.handle_key_event(event)
    }

    pub fn handle_strum_crossing(&mut self, row: RowIndex, note: UnkeyedNote, volume: NoteVolume) -> (r:
        AppEffects)
        requires
            old(self).wf(),
            i16::MIN <= old(self)@.transpose + note.0 <= i16::MAX,
        ensures
            final(self).wf(),
            final(self)@ == step(old(self)@, KeyEvent::StrumCrossing { row, note, volume }).0,
            effects_are(r, step(old(self)@, KeyEvent::StrumCrossing { row, note, volume }).1),
    {
        proof {
            lemma_step_frame(old(self)@, KeyEvent::StrumCrossing { row, note, volume });
        }
        self.state.handle_key_event(KeyEvent::StrumCrossing { row, note, volume })
    }

    pub fn active_chord(&self) -> (r: Chord)
        ensures
            r == self@.active_chord,
    {
        self.state.active_chord()
    }

    pub fn active_chord_for_row(&self, row: RowIndex) -> (r: Chord)
        ensures
            r == row_chord(self@.rows, row as int, self@.active_chord),
    {
        self.state.chord_for_row(row)
    }

    pub fn row_specs(&self) -> (r: &[RowSpec])
        ensures
            row_kinds(r@) == self@.rows,
            row_weights(r@) == self@.row_weights,
    {
        self.state.row_specs()
    }

    pub fn row_chords(&self) -> (r: Vec<Chord>)
        ensures
            r@.len() == self@.rows.len(),
            forall|i: int|
                0 <= i < r@.len() ==> r@[i] == row_chord(self@.rows, i, self@.active_chord),
    {
        self.state.row_chords()
    }

    pub fn chord_button_down(&self, button: ChordButton) -> (r: bool)
        ensures
            r == self@.chord_keys.contains(button.idx()),
    {
        self.state.chord_button_down(button)
    }

    pub fn mod_button_down(&self, button: ModButton) -> (r: bool)
        ensures
            r == self@.mod_keys.contains(button.idx()),
    {
        self.state.mod_button_down(button)
    }

    /// The sounding notes, each once, in an unspecified order.
    pub fn active_notes(&self) -> (r: Vec<UnmidiNote>)
        ensures
            r@.to_set() == self@.active,
            r@.no_duplicates(),
    {
        self.state.active_notes()
    }

    pub fn set_allow_implied_sevenths(&mut self, enabled: bool)
        ensures
            final(self)@ == (AppView { implied_sevenths: enabled, ..old(self)@ }),
    {
        self.state.set_allow_implied_sevenths(enabled);
    }

    pub fn set_wheel_modifiers(&mut self, modifiers: Modifiers)
        ensures
            final(self)@ == (if old(self)@.wheel != modifiers.bits {
                AppView { wheel: modifiers.bits, wheel_dirty: true, ..old(self)@ }
            } else {
                old(self)@
            }),
    {
        self.state.set_wheel_modifiers(modifiers);
    }

    pub fn toggle_wheel_minor_major(&mut self)
        ensures
            final(self)@ == (AppView {
                wheel: old(self)@.wheel ^ Modifiers::SWITCH_MINOR_MAJOR,
                wheel_dirty: true,
                ..old(self)@
            }),
    {
        self.state.toggle_wheel_minor_major();
    }
}

} // verus!
