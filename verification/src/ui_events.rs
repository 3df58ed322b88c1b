//! Platform-independent processing of user-interface events: keys, on-screen buttons and
//! touches go in, audio and display effects come out.
use crate::app_state::{
    empty_effects, merge_effects, step, strum_step, AppEffects, AppState, AppView, BendNote,
    EffectsModel, KeyState, NoteOn,
};
use crate::chord::Chord;
use crate::engine::Engine;
use crate::input_map::{
    button_event, key_event_from_ui, key_event_spec, key_events_from_button, UiButton, UiKey,
};
use crate::layout::{row_at, row_chord, row_index_from_y_norm, row_weights, weight_prefix};
use crate::notes::{centered, NoteVolume, Transpose, UnkeyedNote, UnmidiNote};
use crate::rows::RowIndex;
use crate::strum::{crossings_view, notes_within, Coord};
use crate::touch::{
    touch_step, PointerId, PointerMap, TouchEvent, TouchPhase, TouchTracker, TouchView,
};
use crate::ui_settings::{default_settings, UiAudioBackend, UiSettings};
use vstd::prelude::*;

verus! {

#[derive(Clone, Copy, Debug, PartialEq, Eq, Structural)]
pub enum UiEvent {
    Key { state: KeyState, key: UiKey },
    Button { state: KeyState, button: UiButton },
    Touch(TouchEvent),
    SetPlayOnTap(bool),
    SetTranspose(Transpose),
}

/// A note that a touch struck or strummed, in its row.
#[derive(Clone, Copy, Debug, PartialEq, Eq, Structural)]
pub struct TouchNote {
    pub row: RowIndex,
    pub note: UnkeyedNote,
}

#[derive(Debug)]
pub struct UiOutput {
    pub effects: AppEffects,
    /// Whether the UI should give a haptic "tick" for this event.
    pub haptic: bool,
    /// Notes the touch struck or strummed, as unkeyed string indices.
    pub touch_notes: Vec<TouchNote>,
}

/// Strums at or below this height (thousandths of the screen, from the top) bend notes,
/// where bending is on.
pub const BEND_BOUNDARY: i32 = 250;

/// Volume of a touch at the given pressure (thousandths of full pressure): 25 at no
/// pressure up to 110 at full pressure, rounded.
pub open spec fn touch_volume_of(pressure: int) -> int {
    let p = if pressure < 0 {
        0
    } else if pressure > 1000 {
        1000
    } else {
        pressure
    };
    (25000 + 85 * p + 500) / 1000
}

fn touch_volume(pressure: i32) -> (r: NoteVolume)
    ensures
        r.0 == touch_volume_of(pressure as int),
{
    let p: i32 = if pressure < 0 {
        0
    } else if pressure > 1000 {
        1000
    } else {
        pressure
    };
    NoteVolume(((25000 + 85 * p + 500) / 1000) as u8)
}

/// Whether the settings turn note bending on: it needs a synth backend.
pub open spec fn bend_enabled(s: UiSettings) -> bool {
    s.bend_notes && s.audio_backend != UiAudioBackend::Midi
}

/// Effects as plain sequences.
#[verifier::ext_equal]
pub struct FxView {
    pub play: Seq<NoteOn>,
    pub stop: Seq<UnmidiNote>,
    pub bend: Seq<BendNote>,
    pub stop_ptrs: Seq<PointerId>,
    pub redraw: bool,
    pub change_key: Option<Transpose>,
}

pub open spec fn fx_of(e: AppEffects) -> FxView {
    FxView {
        play: e.play_notes@,
        stop: e.stop_notes@,
        bend: e.bend_notes@,
        stop_ptrs: e.stop_bend_pointers@,
        redraw: e.redraw,
        change_key: e.change_key,
    }
}

pub open spec fn fx_empty() -> FxView {
    FxView {
        play: Seq::empty(),
        stop: Seq::empty(),
        bend: Seq::empty(),
        stop_ptrs: Seq::empty(),
        redraw: false,
        change_key: None,
    }
}

/// `b` after `a`: lists concatenate, redraw is or-ed, the first key change wins.
pub open spec fn fx_merge(a: FxView, b: FxView) -> FxView {
    FxView {
        play: a.play + b.play,
        stop: a.stop + b.stop,
        bend: a.bend + b.bend,
        stop_ptrs: a.stop_ptrs + b.stop_ptrs,
        redraw: a.redraw || b.redraw,
        change_key: if a.change_key is None {
            b.change_key
        } else {
            a.change_key
        },
    }
}

pub open spec fn fx_model(m: EffectsModel) -> FxView {
    FxView {
        play: m.play,
        stop: m.stop,
        bend: Seq::empty(),
        stop_ptrs: Seq::empty(),
        redraw: m.redraw,
        change_key: m.change_key,
    }
}

/// The note-ons, bound to pointer `id`.
pub open spec fn with_pointer(plays: Seq<NoteOn>, id: PointerId) -> Seq<NoteOn> {
    plays.map_values(|n: NoteOn| NoteOn { pointer: Some(id), ..n })
}

/// What a touch event works on: the harp, the notes held for bending, the effects so far.
pub struct TouchAcc {
    pub app: AppView,
    pub bend_held: Map<u64, UnmidiNote>,
    pub fx: FxView,
}

/// A note that a touch struck or strummed, in the row's chord. Outside the bend zone it
/// plays; in the bend zone the pointer's first note plays bound to the pointer, and later
/// notes bend it.
pub open spec fn play_touch_note(
    a: TouchAcc,
    row: int,
    note: int,
    vol: NoteVolume,
    id: PointerId,
    chord: Chord,
    bend_mode: bool,
) -> TouchAcc {
    let n = UnkeyedNote(note as i16);
    if !chord.spec_contains(note) {
        a
    } else if bend_mode && !a.bend_held.contains_key(id.0) {
        let (app2, m) = strum_step(a.app, row, n, vol);
        let plays = with_pointer(m.play, id);
        TouchAcc {
            app: app2,
            bend_held: if plays.len() > 0 {
                a.bend_held.insert(id.0, plays.last().note)
            } else {
                a.bend_held
            },
            fx: fx_merge(a.fx, FxView { play: plays, ..fx_model(m) }),
        }
    } else if bend_mode {
        TouchAcc {
            fx: FxView {
                bend: a.fx.bend.push(
                    BendNote { pointer: id, target: UnmidiNote((a.app.transpose + note) as i16) },
                ),
                ..a.fx
            },
            ..a
        }
    } else {
        let (app2, m) = strum_step(a.app, row, n, vol);
        TouchAcc { app: app2, fx: fx_merge(a.fx, fx_model(m)), ..a }
    }
}

/// The touched notes, in order.
pub open spec fn play_touch_notes(
    a: TouchAcc,
    notes: Seq<int>,
    row: int,
    vol: NoteVolume,
    id: PointerId,
    chord: Chord,
    bend_mode: bool,
) -> TouchAcc
    decreases notes.len(),
{
    if notes.len() == 0 {
        a
    } else {
        play_touch_note(
            play_touch_notes(a, notes.drop_last(), row, vol, id, chord, bend_mode),
            row,
            notes.last(),
            vol,
            id,
            chord,
            bend_mode,
        )
    }
}

/// Playing `s` then `t` is playing `s + t`.
pub proof fn lemma_play_touch_notes_append(
    a: TouchAcc,
    s: Seq<int>,
    t: Seq<int>,
    row: int,
    vol: NoteVolume,
    id: PointerId,
    chord: Chord,
    bend_mode: bool,
)
    ensures
        play_touch_notes(a, s + t, row, vol, id, chord, bend_mode) == play_touch_notes(
            play_touch_notes(a, s, row, vol, id, chord, bend_mode),
            t,
            row,
            vol,
            id,
            chord,
            bend_mode,
        ),
    decreases t.len(),
{
    if t.len() == 0 {
        assert(s + t =~= s);
    } else {
        lemma_play_touch_notes_append(a, s, t.drop_last(), row, vol, id, chord, bend_mode);
        assert((s + t).drop_last() =~= s + t.drop_last());
        assert((s + t).last() == t.last());
    }
}

/// The notes of the crossings, in order.
pub open spec fn flat_notes(cs: Seq<(int, Seq<int>)>) -> Seq<int>
    decreases cs.len(),
{
    if cs.len() == 0 {
        Seq::empty()
    } else {
        flat_notes(cs.drop_last()) + cs.last().1
    }
}

/// Touched note numbers as touch notes of row `row`.
pub open spec fn touch_notes_of(notes: Seq<int>, row: RowIndex) -> Seq<TouchNote> {
    notes.map_values(|n: int| TouchNote { row, note: UnkeyedNote(n as i16) })
}

/// The struck note, then the notes of the crossings.
pub open spec fn touched(strike: Option<int>, cs: Seq<(int, Seq<int>)>) -> Seq<int> {
    match strike {
        Some(n) => seq![n] + flat_notes(cs),
        None => flat_notes(cs),
    }
}

/// Which notes of `0..n` the chord holds.
pub open spec fn chord_mask(chord: Chord, n: nat) -> Seq<bool> {
    Seq::new(n, |i: int| chord.spec_contains(i))
}

/// What the session knows: the harp, the pointers, and the note each pointer holds for
/// bending.
pub struct UiView {
    pub app: AppView,
    pub touch: TouchView,
    pub bend_held: Map<u64, UnmidiNote>,
}

/// The session after a touch event, with the effects and the touched notes.
#[verifier::opaque]
pub open spec fn touch_event_step(v: UiView, te: TouchEvent, p: Seq<Coord>, s: UiSettings) -> (
    UiView,
    FxView,
    Seq<TouchNote>,
) {
    let row = row_at(te.y_norm as int, v.app.row_weights);
    let vol = NoteVolume(touch_volume_of(te.pressure as int) as u8);
    let bend_mode = bend_enabled(s) && te.y_norm >= BEND_BOUNDARY;
    let id = te.id.0;
    let down_release = te.phase == TouchPhase::Down && v.bend_held.contains_key(id);
    let bh1 = if down_release {
        v.bend_held.remove(id)
    } else {
        v.bend_held
    };
    let ptrs1: Seq<PointerId> = if down_release {
        seq![te.id]
    } else {
        seq![]
    };
    let chord = row_chord(v.app.rows, row, v.app.active_chord);
    let (tv, strike, crossings) = touch_step(v.touch, te, p, chord_mask(chord, p.len()));
    let up_release = (te.phase == TouchPhase::Up || te.phase == TouchPhase::Cancel)
        && bh1.contains_key(id);
    let bh2 = if up_release {
        bh1.remove(id)
    } else {
        bh1
    };
    let stops2: Seq<UnmidiNote> = if up_release {
        seq![bh1[id]]
    } else {
        seq![]
    };
    let ptrs2 = if up_release {
        ptrs1.push(te.id)
    } else {
        ptrs1
    };
    let notes = touched(strike, crossings);
    let a0 = TouchAcc {
        app: v.app,
        bend_held: bh2,
        fx: FxView { stop: stops2, stop_ptrs: ptrs2, ..fx_empty() },
    };
    let a = play_touch_notes(a0, notes, row, vol, te.id, chord, bend_mode);
    (
        UiView { app: a.app, touch: tv, bend_held: a.bend_held },
        a.fx,
        touch_notes_of(notes, row as usize),
    )
}

/// The session state after any event.
pub open spec fn ui_state_step(v: UiView, ev: UiEvent, p: Seq<Coord>, s: UiSettings) -> UiView {
    match ev {
        UiEvent::SetPlayOnTap(b) => UiView { touch: TouchView { play_on_tap: b, ..v.touch }, ..v },
        UiEvent::SetTranspose(t) => UiView {
            app: AppView {
                active: Set::empty(),
                top: Set::empty(),
                transpose: centered(t.0 as int) as i16,
                ..v.app
            },
            ..v
        },
        UiEvent::Key { state, key } => match key_event_spec(state, key) {
            Some(kev) => UiView { app: step(v.app, kev).0, ..v },
            None => v,
        },
        UiEvent::Button { state, button } => UiView {
            app: step(v.app, button_event(state, button)).0,
            ..v
        },
        UiEvent::Touch(te) => touch_event_step(v, te, p, s).0,
    }
}

/// The session state after the events, in order.
pub open spec fn ui_run(v: UiView, evs: Seq<UiEvent>, p: Seq<Coord>, s: UiSettings) -> UiView
    decreases evs.len(),
{
    if evs.len() == 0 {
        v
    } else {
        ui_state_step(ui_run(v, evs.drop_last(), p, s), evs.last(), p, s)
    }
}

/// Which notes of `0..n` the chord holds.
fn chord_mask_of(chord: Chord, n: usize) -> (r: Vec<bool>)
    requires
        n <= 32768,
    ensures
        r@ == chord_mask(chord, n as nat),
{
    let mut out: Vec<bool> = Vec::new();
    let mut i: usize = 0;
    while i < n
        invariant
            n <= 32768,
            i <= n,
            out@.len() == i,
            forall|j: int| 0 <= j < i ==> out@[j] == chord.spec_contains(j),
        decreases n - i,
    {
        out.push(chord.contains(UnkeyedNote(i as i16)));
        i = i + 1;
    }
    assert(out@ =~= chord_mask(chord, n as nat));
    out
}

/// Every string index of a row of `n` strings is an `i16`, and so is every string shifted
/// into the key `t`: the notes `t + i` for `i` in `0..n` do not overflow.
pub open spec fn keyed_notes_fit(n: int, t: int) -> bool {
    n <= 32768 && t + n <= i16::MAX + 1
}

/// Platform-agnostic UI event processor.
///
/// Frontends (desktop, Android) translate their raw input into `UiEvent`s, and can record
/// and replay those streams for regression testing.
pub struct UiSession {
    engine: Engine,
    touch: TouchTracker,
    bend_held_by_pointer: PointerMap<UnmidiNote>,
}

impl UiSession {
    pub closed spec fn view(&self) -> UiView {
        UiView { app: self.engine@, touch: self.touch@, bend_held: self.bend_held_by_pointer@ }
    }

    pub closed spec fn wf(&self) -> bool {
        self.engine.wf() && self.touch.wf() && self.bend_held_by_pointer.wf()
    }

    /// The view of a fresh session.
    pub open spec fn new_view() -> UiView {
        UiView {
            app: AppState::new_view(),
            touch: TouchView {
                last_x: Map::empty(),
                play_on_tap: true,
                struck: Map::empty(),
            },
            bend_held: Map::empty(),
        }
    }

    pub fn new() -> (r: Self)
        ensures
            r.wf(),
            r@ == Self::new_view(),
    {
        Self { engine: Engine::new(), touch: TouchTracker::new(), bend_held_by_pointer: PointerMap::new() }
    }

    pub fn engine(&self) -> (r: &Engine)
        requires
            self.wf(),
        ensures
            r@ == self@.app,
            r.wf(),
    {
        &self.engine
    }

    /// The engine, to change directly; the session stays well formed as long as the engine does.
    pub fn engine_mut(&mut self) -> (r: &mut Engine)
        requires
            old(self).wf(),
        ensures
            r@ == old(self)@.app,
            r.wf(),
            final(self)@ == (UiView { app: final(r)@, ..old(self)@ }),
            final(r).wf() ==> final(self).wf(),
    {
        &mut self.engine
    }

    pub fn set_play_on_tap(&mut self, enabled: bool)
        requires
            old(self).wf(),
        ensures
            final(self).wf(),
            final(self)@ == ui_state_step(
                old(self)@,
                UiEvent::SetPlayOnTap(enabled),
                Seq::empty(),
                default_settings(),
            ),
    {
        self.touch.set_play_on_tap(enabled);
    }

    /// Handles an event with the default settings.
    pub fn handle(&mut self, event: UiEvent, note_positions: &[Coord]) -> (r: UiOutput)
        requires
            old(self).wf(),
            event is Touch ==> keyed_notes_fit(note_positions@.len() as int, old(self)@.app.transpose as int),
        ensures
            final(self).wf(),
            final(self)@ == ui_state_step(
                old(self)@,
                event,
                note_positions@,
                default_settings(),
            ),
            ui_output_ok(old(self)@, event, note_positions@, default_settings(), r),
    {
        let settings = UiSettings::default();
        self.handle_with_settings(event, note_positions, &settings)
    }

    /// Plays one touched note (the strike or a strummed note) and records it.
    fn touch_note(
        &mut self,
        effects: &mut AppEffects,
        touch_notes: &mut Vec<TouchNote>,
        row: RowIndex,
        note: UnkeyedNote,
        vol: NoteVolume,
        id: PointerId,
        chord: Chord,
        bend_mode: bool,
    )
        requires
            old(self).wf(),
            0 <= note.0,
            old(self)@.app.transpose + note.0 <= i16::MAX,
        ensures
            final(self).wf(),
            final(self)@.touch == old(self)@.touch,
            final(self)@.app.transpose == old(self)@.app.transpose,
            ({
                let a = play_touch_note(
                    TouchAcc {
                        app: old(self)@.app,
                        bend_held: old(self)@.bend_held,
                        fx: fx_of(*old(effects)),
                    },
                    row as int,
                    note.0 as int,
                    vol,
                    id,
                    chord,
                    bend_mode,
                );
                &&& final(self)@.app == a.app
                &&& final(self)@.bend_held == a.bend_held
                &&& fx_of(*final(effects)) == a.fx
            }),
            final(touch_notes)@ == old(touch_notes)@.push(TouchNote { row, note }),
    {
        touch_notes.push(TouchNote { row, note });
        if !chord.contains(note) {
            return ;
        }
        let ghost e0 = fx_of(*effects);
        let ghost a = TouchAcc { app: self@.app, bend_held: self@.bend_held, fx: e0 };
        let ghost (app2, m) = strum_step(self@.app, row as int, note, vol);
        proof {
            assert(UnkeyedNote(note.0 as int as i16) == note);
        }
        if bend_mode {
            let held = self.bend_held_by_pointer.get(id);
            if held.is_none() {
                let mut e = self.engine.handle_strum_crossing(row, note, vol);
                let ghost plays0 = e.play_notes@;
                let mut k: usize = 0;
                while k < e.play_notes.len()
                    invariant
                        plays0 == m.play,
                        e.stop_notes@ == m.stop,
                        e.bend_notes@.len() == 0,
                        e.stop_bend_pointers@.len() == 0,
                        e.redraw == m.redraw,
                        e.change_key == m.change_key,
                        k <= e.play_notes@.len(),
                        e.play_notes@.len() == plays0.len(),
                        forall|j: int|
                            0 <= j < k ==> e.play_notes@[j] == (NoteOn {
                                pointer: Some(id),
                                ..plays0[j]
                            }),
                        forall|j: int| k <= j < plays0.len() ==> e.play_notes@[j] == plays0[j],
                    decreases e.play_notes@.len() - k,
                {
                    let pn = e.play_notes[k];
                    e.play_notes.set(k, NoteOn { pointer: Some(id), ..pn });
                    k = k + 1;
                }
                proof {
                    assert(e.play_notes@ =~= with_pointer(plays0, id));
                    assert(e.bend_notes@ =~= Seq::<BendNote>::empty());
                    assert(e.stop_bend_pointers@ =~= Seq::<PointerId>::empty());
                    assert(fx_of(e) == FxView { play: with_pointer(m.play, id), ..fx_model(m) });
                }
                let n = e.play_notes.len();
                if n > 0 {
                    let last = e.play_notes[n - 1];
                    self.bend_held_by_pointer.insert(id, last.note);
                }
                merge_effects(effects, e);
                proof {
                    assert(fx_of(*effects) =~= fx_merge(e0, FxView { play: with_pointer(m.play, id), ..fx_model(m) }));
                }
            } else {
                let un = self.engine.transpose() + note;
                effects.bend_notes.push(BendNote { pointer: id, target: un });
                proof {
                    assert(fx_of(*effects) =~= FxView {
                        bend: e0.bend.push(
                            BendNote { pointer: id, target: UnmidiNote((a.app.transpose + note.0) as i16) },
                        ),
                        ..e0
                    });
                }
            }
        } else {
            let e = self.engine.handle_strum_crossing(row, note, vol);
            proof {
                assert(e.bend_notes@ =~= Seq::<BendNote>::empty());
                assert(e.stop_bend_pointers@ =~= Seq::<PointerId>::empty());
                assert(fx_of(e) == fx_model(m));
            }
            merge_effects(effects, e);
            proof {
                assert(fx_of(*effects) =~= fx_merge(e0, fx_model(m)));
            }
        }
    }

    pub fn handle_with_settings(
        &mut self,
        event: UiEvent,
        note_positions: &[Coord],
        settings: &UiSettings,
    ) -> (r: UiOutput)
        requires
            old(self).wf(),
            event is Touch ==> keyed_notes_fit(note_positions@.len() as int, old(self)@.app.transpose as int),
        ensures
            final(self).wf(),
            final(self)@ == ui_state_step(old(self)@, event, note_positions@, *settings),
            ui_output_ok(old(self)@, event, note_positions@, *settings, r),
    {
        match event {
            UiEvent::SetPlayOnTap(enabled) => {
                self.touch.set_play_on_tap(enabled);
                let effects = empty_effects();
                proof {
                    assert(fx_of(effects) =~= fx_empty());
                }
                UiOutput { effects, haptic: false, touch_notes: Vec::new() }
            },
            UiEvent::SetTranspose(t) => {
                let effects = self.engine.set_transpose(t);
                UiOutput { effects, haptic: false, touch_notes: Vec::new() }
            },
            UiEvent::Key { state, key } => {
                let mut effects = empty_effects();
                proof {
                    assert(fx_of(effects) =~= fx_empty());
                }
                if let Some(ev) = key_event_from_ui(state, key) {
                    let e = self.engine.handle_event(ev);
                    proof {
                        assert(e.bend_notes@ =~= Seq::<BendNote>::empty());
                        assert(e.stop_bend_pointers@ =~= Seq::<PointerId>::empty());
                    }
                    merge_effects(&mut effects, e);
                    proof {
                        assert(fx_of(effects) =~= fx_model(step(old(self)@.app, ev).1));
                    }
                }
                UiOutput { effects, haptic: false, touch_notes: Vec::new() }
            },
            UiEvent::Button { state, button } => {
                let mut effects = empty_effects();
                let evs = key_events_from_button(state, button);
                let e = self.engine.handle_event(evs[0]);
                proof {
                    assert(e.bend_notes@ =~= Seq::<BendNote>::empty());
                    assert(e.stop_bend_pointers@ =~= Seq::<PointerId>::empty());
                }
                merge_effects(&mut effects, e);
                proof {
                    assert(fx_of(effects) =~= fx_model(step(old(self)@.app, button_event(state, button)).1));
                }
                UiOutput { effects, haptic: false, touch_notes: Vec::new() }
            },
            UiEvent::Touch(te) => self.handle_touch(te, note_positions, settings),
        }
    }

    #[verifier::rlimit(40)]
    fn handle_touch(&mut self, te: TouchEvent, note_positions: &[Coord], settings: &UiSettings) -> (r:
        UiOutput)
        requires
            old(self).wf(),
            keyed_notes_fit(note_positions@.len() as int, old(self)@.app.transpose as int),
        ensures
            final(self).wf(),
            ({
                let (v, fx, tn) = touch_event_step(old(self)@, te, note_positions@, *settings);
                &&& final(self)@ == v
                &&& fx_of(r.effects) == fx
                &&& r.touch_notes@ == tn
                &&& r.haptic == (tn.len() > 0)
            }),
    {
        let ghost v0 = self@;
        let ghost p = note_positions@;
        proof {
            reveal_with_fuel(weight_prefix, 5);
        }
        let row = row_index_from_y_norm(te.y_norm, self.engine.row_specs());
        let vol = touch_volume(te.pressure);
        let bend_on = settings.bend_notes && settings.audio_backend != UiAudioBackend::Midi;
        let bend_mode = bend_on && te.y_norm >= BEND_BOUNDARY;
        let mut effects = empty_effects();
        let mut touch_notes: Vec<TouchNote> = Vec::new();
        if te.phase == TouchPhase::Down {
            if self.bend_held_by_pointer.remove(te.id).is_some() {
                effects.stop_bend_pointers.push(te.id);
            }
        }
        let chord = self.engine.active_chord_for_row(row);
        let allowed = chord_mask_of(chord, note_positions.len());
        let out = self.touch.handle_event(te, note_positions, allowed.as_slice());
        if te.phase == TouchPhase::Up || te.phase == TouchPhase::Cancel {
            if let Some(un) = self.bend_held_by_pointer.remove(te.id) {
                effects.stop_notes.push(un);
                effects.stop_bend_pointers.push(te.id);
            }
        }
        let ghost row_i = row as int;
        let ghost (tv, strike, crossings) = touch_step(v0.touch, te, p, chord_mask(chord, p.len()));
        let ghost a0 = TouchAcc { app: self@.app, bend_held: self@.bend_held, fx: fx_of(effects) };
        proof {
            crate::touch::lemma_touch_notes_within(v0.touch, te, p, chord_mask(chord, p.len()));
            let id = te.id.0;
            let down_release = te.phase == TouchPhase::Down && v0.bend_held.contains_key(id);
            let bh1 = if down_release {
                v0.bend_held.remove(id)
            } else {
                v0.bend_held
            };
            let ptrs1: Seq<PointerId> = if down_release {
                seq![te.id]
            } else {
                seq![]
            };
            let up_release = (te.phase == TouchPhase::Up || te.phase == TouchPhase::Cancel)
                && bh1.contains_key(id);
            let bh2 = if up_release {
                bh1.remove(id)
            } else {
                bh1
            };
            let stops2: Seq<UnmidiNote> = if up_release {
                seq![bh1[id]]
            } else {
                seq![]
            };
            let ptrs2 = if up_release {
                ptrs1.push(te.id)
            } else {
                ptrs1
            };
            assert(self@.bend_held == bh2);
            assert(fx_of(effects) =~= FxView { stop: stops2, stop_ptrs: ptrs2, ..fx_empty() });
            assert(self@.app == v0.app);
            assert(self@.touch == tv);
            assert(row_i == row_at(te.y_norm as int, v0.app.row_weights));
            assert(chord == row_chord(v0.app.rows, row_i, v0.app.active_chord));
            assert(vol == NoteVolume(touch_volume_of(te.pressure as int) as u8));
            assert(bend_mode == (bend_enabled(*settings) && te.y_norm >= BEND_BOUNDARY));
        }
        if let Some(note) = out.strike {
            self.touch_note(&mut effects, &mut touch_notes, row, note, vol, te.id, chord, bend_mode);
        }
        let ghost pre = match strike {
            Some(n) => seq![n],
            None => Seq::<int>::empty(),
        };
        proof {
            if let Some(n) = strike {
                assert(pre.drop_last() =~= Seq::<int>::empty());
            }
            assert(touch_notes@ =~= touch_notes_of(pre, row));
        }
        let ghost a1 = TouchAcc { app: self@.app, bend_held: self@.bend_held, fx: fx_of(effects) };
        let ghost tn1 = touch_notes@;
        proof {
            assert(play_touch_notes(a0, Seq::<int>::empty(), row_i, vol, te.id, chord, bend_mode) == a0);
            if let Some(n) = strike {
                assert(pre.last() == n);
                assert(play_touch_notes(a0, pre, row_i, vol, te.id, chord, bend_mode) == play_touch_note(a0, row_i, n, vol, te.id, chord, bend_mode));
            }
            assert(a1 == play_touch_notes(a0, pre, row_i, vol, te.id, chord, bend_mode));
        }
        self.play_crossings(&mut effects, &mut touch_notes, &out.crossings, row, vol, te.id, chord, bend_mode, Ghost(p.len()));
        proof {
            let flat = flat_notes(crossings);
            lemma_play_touch_notes_append(a0, pre, flat, row_i, vol, te.id, chord, bend_mode);
            assert(touch_notes_of(pre + flat, row) =~= touch_notes_of(pre, row) + touch_notes_of(flat, row));
            assert(pre + flat =~= touched(strike, crossings));
            reveal(touch_event_step);
        }
        let n = touch_notes.len();
        UiOutput { haptic: n > 0, effects, touch_notes }
    }

    /// Plays the notes of each crossing, in order.
    fn play_crossings(
        &mut self,
        effects: &mut AppEffects,
        touch_notes: &mut Vec<TouchNote>,
        cs: &Vec<crate::strum::StrumCrossing>,
        row: RowIndex,
        vol: NoteVolume,
        id: PointerId,
        chord: Chord,
        bend_mode: bool,
        Ghost(n): Ghost<nat>,
    )
        requires
            old(self).wf(),
            keyed_notes_fit(n as int, old(self)@.app.transpose as int),
            notes_within(crossings_view(cs@), 0, n as int),
        ensures
            final(self).wf(),
            final(self)@.touch == old(self)@.touch,
            final(self)@.app.transpose == old(self)@.app.transpose,
            ({
                let flat = flat_notes(crossings_view(cs@));
                let a = play_touch_notes(
                    TouchAcc {
                        app: old(self)@.app,
                        bend_held: old(self)@.bend_held,
                        fx: fx_of(*old(effects)),
                    },
                    flat,
                    row as int,
                    vol,
                    id,
                    chord,
                    bend_mode,
                );
                &&& final(self)@.app == a.app
                &&& final(self)@.bend_held == a.bend_held
                &&& fx_of(*final(effects)) == a.fx
                &&& final(touch_notes)@ == old(touch_notes)@ + touch_notes_of(flat, row)
            }),
    {
        let ghost a = TouchAcc {
            app: self@.app,
            bend_held: self@.bend_held,
            fx: fx_of(*effects),
        };
        let ghost tn0 = touch_notes@;
        let ghost crossings = crossings_view(cs@);
        proof {
            assert(flat_notes(crossings.subrange(0, 0)) =~= Seq::<int>::empty());
            assert(tn0 + touch_notes_of(Seq::<int>::empty(), row) =~= tn0);
        }
        let mut i: usize = 0;
        while i < cs.len()
            invariant
                self.wf(),
                self@.touch == old(self)@.touch,
                i <= cs@.len(),
                crossings == crossings_view(cs@),
                notes_within(crossings, 0, n as int),
                keyed_notes_fit(n as int, old(self)@.app.transpose as int),
                self@.app.transpose == old(self)@.app.transpose,
                ({
                    let done = flat_notes(crossings.subrange(0, i as int));
                    let b = play_touch_notes(a, done, row as int, vol, id, chord, bend_mode);
                    &&& touch_notes@ == tn0 + touch_notes_of(done, row)
                    &&& self@.app == b.app
                    &&& self@.bend_held == b.bend_held
                    &&& fx_of(*effects) == b.fx
                }),
            decreases cs@.len() - i,
        {
            let c = &cs[i];
            let ghost done = flat_notes(crossings.subrange(0, i as int));
            let ghost b = play_touch_notes(a, done, row as int, vol, id, chord, bend_mode);
            let ghost tn1 = touch_notes@;
            let ghost cn = crossings[i as int].1;
            proof {
                assert(crossings[i as int] == crate::strum::crossing_view(*c));
                assert forall|q: int| 0 <= q < c.notes@.len() implies 0 <= #[trigger] c.notes@[q].0
                    < n by {
                    assert(crossings[i as int].1[q] == cn[q]);
                    assert(cn[q] == c.notes@[q].0 as int);
                }
            }
            self.play_notes(effects, touch_notes, &c.notes, row, vol, id, chord, bend_mode, Ghost(n));
            proof {
                lemma_play_touch_notes_append(a, done, cn, row as int, vol, id, chord, bend_mode);
                let s1 = crossings.subrange(0, i + 1);
                assert(s1.drop_last() =~= crossings.subrange(0, i as int));
                assert(s1.last() == crossings[i as int]);
                assert(flat_notes(s1) == done + cn);
                assert(touch_notes_of(done + cn, row) =~= touch_notes_of(done, row) + touch_notes_of(cn, row));
                assert(touch_notes@ =~= tn0 + touch_notes_of(flat_notes(s1), row));
            }
            i = i + 1;
        }
        proof {
            assert(crossings.subrange(0, crossings.len() as int) =~= crossings);
        }
    }

    /// Plays the notes of one crossing, in order.
    fn play_notes(
        &mut self,
        effects: &mut AppEffects,
        touch_notes: &mut Vec<TouchNote>,
        notes: &Vec<UnkeyedNote>,
        row: RowIndex,
        vol: NoteVolume,
        id: PointerId,
        chord: Chord,
        bend_mode: bool,
        Ghost(n): Ghost<nat>,
    )
        requires
            old(self).wf(),
            keyed_notes_fit(n as int, old(self)@.app.transpose as int),
            forall|q: int| 0 <= q < notes@.len() ==> 0 <= #[trigger] notes@[q].0 < n,
        ensures
            final(self).wf(),
            final(self)@.touch == old(self)@.touch,
            final(self)@.app.transpose == old(self)@.app.transpose,
            ({
                let ns = notes@.map_values(|m: UnkeyedNote| m.0 as int);
                let a = play_touch_notes(
                    TouchAcc {
                        app: old(self)@.app,
                        bend_held: old(self)@.bend_held,
                        fx: fx_of(*old(effects)),
                    },
                    ns,
                    row as int,
                    vol,
                    id,
                    chord,
                    bend_mode,
                );
                &&& final(self)@.app == a.app
                &&& final(self)@.bend_held == a.bend_held
                &&& fx_of(*final(effects)) == a.fx
                &&& final(touch_notes)@ == old(touch_notes)@ + touch_notes_of(ns, row)
            }),
    {
        let ghost a = TouchAcc {
            app: self@.app,
            bend_held: self@.bend_held,
            fx: fx_of(*effects),
        };
        let ghost tn0 = touch_notes@;
        let ghost ns = notes@.map_values(|m: UnkeyedNote| m.0 as int);
        proof {
            assert(ns.subrange(0, 0) =~= Seq::<int>::empty());
            assert(tn0 + touch_notes_of(Seq::<int>::empty(), row) =~= tn0);
        }
        let mut j: usize = 0;
        while j < notes.len()
            invariant
                self.wf(),
                self@.touch == old(self)@.touch,
                j <= notes@.len(),
                ns == notes@.map_values(|m: UnkeyedNote| m.0 as int),
                forall|q: int| 0 <= q < notes@.len() ==> 0 <= #[trigger] notes@[q].0 < n,
                keyed_notes_fit(n as int, old(self)@.app.transpose as int),
                self@.app.transpose == old(self)@.app.transpose,
                ({
                    let done = ns.subrange(0, j as int);
                    let b = play_touch_notes(a, done, row as int, vol, id, chord, bend_mode);
                    &&& touch_notes@ == tn0 + touch_notes_of(done, row)
                    &&& self@.app == b.app
                    &&& self@.bend_held == b.bend_held
                    &&& fx_of(*effects) == b.fx
                }),
            decreases notes@.len() - j,
        {
            let note = notes[j];
            proof {
                let d0 = ns.subrange(0, j as int);
                let d1 = ns.subrange(0, j + 1);
                assert(d1.drop_last() =~= d0);
                assert(d1.last() == note.0 as int);
                assert(UnkeyedNote(note.0 as int as i16) == note);
                assert(touch_notes_of(d1, row) =~= touch_notes_of(d0, row).push(
                    TouchNote { row, note },
                ));
            }
            self.touch_note(effects, touch_notes, row, note, vol, id, chord, bend_mode);
            proof {
                let d1 = ns.subrange(0, j + 1);
                assert(tn0 + touch_notes_of(d1, row) =~= (tn0 + touch_notes_of(
                    ns.subrange(0, j as int),
                    row,
                )).push(TouchNote { row, note }));
            }
            j = j + 1;
        }
        proof {
            assert(ns.subrange(0, ns.len() as int) =~= ns);
        }
    }
}

/// The effects the session answers an event with: for a touch, exactly those of
/// `touch_event_step`; for keys and buttons, the harp's effects of the key event; a key
/// change stops every sounding note (each once, in some order) and reports the new key;
/// turning play-on-tap on or off asks for nothing.
pub open spec fn ui_fx_ok(v: UiView, ev: UiEvent, p: Seq<Coord>, s: UiSettings, fx: FxView) -> bool {
    match ev {
        UiEvent::Touch(te) => fx == touch_event_step(v, te, p, s).1,
        UiEvent::SetTranspose(t) => {
            &&& fx.redraw
            &&& fx.change_key == Some(Transpose(centered(t.0 as int) as i16))
            &&& fx.stop.to_set() == v.app.active
            &&& fx.stop.no_duplicates()
            &&& fx.play.len() == 0
            &&& fx.bend.len() == 0
            &&& fx.stop_ptrs.len() == 0
        },
        UiEvent::Key { state, key } => fx == match key_event_spec(state, key) {
            Some(kev) => fx_model(step(v.app, kev).1),
            None => fx_empty(),
        },
        UiEvent::Button { state, button } => fx == fx_model(step(v.app, button_event(state, button)).1),
        UiEvent::SetPlayOnTap(_) => fx == fx_empty(),
    }
}

/// The effects of `ui_fx_ok`, as the session returns them.
pub open spec fn ui_effects_ok(v: UiView, ev: UiEvent, p: Seq<Coord>, s: UiSettings, e: AppEffects) -> bool {
    ui_fx_ok(v, ev, p, s, fx_of(e))
}

/// `fxs` are the effects of the events, one each, as the session answers them in turn.
pub open spec fn replayed_fx(v: UiView, evs: Seq<UiEvent>, p: Seq<Coord>, s: UiSettings, fxs: Seq<FxView>) -> bool {
    &&& fxs.len() == evs.len()
    &&& forall|j: int|
        0 <= j < evs.len() ==> ui_fx_ok(ui_run(v, evs.subrange(0, j), p, s), evs[j], p, s, #[trigger] fxs[j])
}

/// Effects merged in order.
pub open spec fn merged_fx(fxs: Seq<FxView>) -> FxView
    decreases fxs.len(),
{
    if fxs.len() == 0 {
        fx_empty()
    } else {
        fx_merge(merged_fx(fxs.drop_last()), fxs.last())
    }
}

/// The notes an event touched: those of `touch_event_step` for a touch, none otherwise.
pub open spec fn ui_touch_notes(v: UiView, ev: UiEvent, p: Seq<Coord>, s: UiSettings) -> Seq<
    TouchNote,
> {
    match ev {
        UiEvent::Touch(te) => touch_event_step(v, te, p, s).2,
        _ => Seq::empty(),
    }
}

/// What the session answers an event: the effects of `ui_effects_ok`, the touched notes of
/// `ui_touch_notes`, and a haptic tick exactly when a note was touched.
pub open spec fn ui_output_ok(v: UiView, ev: UiEvent, p: Seq<Coord>, s: UiSettings, r: UiOutput) -> bool {
    &&& ui_effects_ok(v, ev, p, s, r.effects)
    &&& r.touch_notes@ == ui_touch_notes(v, ev, p, s)
    &&& r.haptic == (ui_touch_notes(v, ev, p, s).len() > 0)
}

/// A recording of UI events.
#[derive(Clone, Debug, Default, PartialEq)]
pub struct UiEventLog {
    pub events: Vec<UiEvent>,
}

impl UiEventLog {
    pub fn record(&mut self, event: UiEvent)
        ensures
            final(self).events@ == old(self).events@.push(event),
    {
        self.events.push(event);
    }

    /// Feeds the recorded events to `session` in order (with the default settings) and
    /// returns all their effects, merged. The strings must fit in every key the session can
    /// take on the way, up to a tritone above C.
    pub fn replay(&self, session: &mut UiSession, note_positions: &[Coord]) -> (r: AppEffects)
        requires
            old(session).wf(),
            keyed_notes_fit(note_positions@.len() as int, 6),
        ensures
            final(session).wf(),
            final(session)@ == ui_run(
                old(session)@,
                self.events@,
                note_positions@,
                default_settings(),
            ),
            exists|fxs: Seq<FxView>|
                #[trigger] replayed_fx(old(session)@, self.events@, note_positions@, default_settings(), fxs)
                    && fx_of(r) == merged_fx(fxs),
    {
        let ghost v0 = session@;
        let ghost evs = self.events@;
        let ghost p = note_positions@;
        let ghost mut fxs: Seq<FxView> = Seq::empty();
        let mut effects = empty_effects();
        proof {
            assert(fx_of(effects) =~= fx_empty());
        }
        let mut i: usize = 0;
        while i < self.events.len()
            invariant
                session.wf(),
                keyed_notes_fit(note_positions@.len() as int, 6),
                v0 == old(session)@,
                evs == self.events@,
                p == note_positions@,
                i <= self.events@.len(),
                session@ == ui_run(v0, evs.subrange(0, i as int), p, default_settings()),
                fxs.len() == i,
                forall|j: int|
                    0 <= j < i ==> ui_fx_ok(ui_run(v0, evs.subrange(0, j), p, default_settings()), evs[j], p, default_settings(), #[trigger] fxs[j]),
                fx_of(effects) == merged_fx(fxs),
            decreases self.events@.len() - i,
        {
            let e = self.events[i];
            let ghost before = session@;
            let out = session.handle(e, note_positions);
            let ghost fx = fx_of(out.effects);
            let ghost acc = fx_of(effects);
            merge_effects(&mut effects, out.effects);
            proof {
                assert(self.events@.subrange(0, i + 1).drop_last() =~= self.events@.subrange(
                    0,
                    i as int,
                ));
                let fxs2 = fxs.push(fx);
                assert(fxs2.drop_last() =~= fxs);
                assert(fx_of(effects) =~= fx_merge(acc, fx));
                assert forall|j: int|
                    0 <= j < i + 1 implies ui_fx_ok(ui_run(v0, evs.subrange(0, j), p, default_settings()), evs[j], p, default_settings(), #[trigger] fxs2[j]) by {
                    if j < i {
                        assert(fxs2[j] == fxs[j]);
                    } else {
                        assert(fxs2[j] == fx);
                    }
                }
                fxs = fxs2;
            }
            i = i + 1;
        }
        proof {
            assert(self.events@.subrange(0, self.events@.len() as int) =~= self.events@);
            assert(replayed_fx(v0, evs, p, default_settings(), fxs));
        }
        effects
    }
}

} // verus!
