//! How the desktop frontend turns the harp's effects into calls on its audio output.
//!
//! Making the calls (MIDI port or synth) is the frontend's job; this module decides them.
use crate::app_state::{AppEffects, NoteOn};
use crate::notes::{midi_clamp, MidiNote, NoteVolume, Transpose, UnmidiNote};
use vstd::prelude::*;

verus! {

/// Added to an `UnmidiNote` to give the MIDI note: MIDI note 48 is C3.
pub const MIDI_BASE: i16 = 48;

/// The desktop's MIDI base as a key shift.
pub fn midi_base_transpose() -> (r: Transpose)
    ensures
        r.0 == MIDI_BASE,
{
    Transpose(MIDI_BASE)
}

/// A call on the desktop's audio output.
#[derive(Clone, Copy, Debug, PartialEq, Eq, Structural)]
pub enum AudioCall {
    Stop(MidiNote),
    Play(MidiNote, NoteVolume),
}

/// The MIDI note of a note: shifted by the MIDI base and clamped to the MIDI range.
pub open spec fn midi_of(un: UnmidiNote) -> MidiNote {
    MidiNote(midi_clamp(MIDI_BASE + un.0) as u8)
}

/// The calls for a set of effects: every note-off, then every note-on.
pub open spec fn audio_calls(e: AppEffects) -> Seq<AudioCall> {
    e.stop_notes@.map_values(|un: UnmidiNote| AudioCall::Stop(midi_of(un)))
        + e.play_notes@.map_values(|pn: NoteOn| AudioCall::Play(midi_of(pn.note), pn.volume))
}

/// The calls for `effects` on the audio output: note-offs before note-ons, so that
/// re-striking a note does not stop it right after it starts, all shifted by the MIDI
/// base. The flag tells whether anything is played or bent.
pub fn process_app_effects(effects: AppEffects) -> (r: (Vec<AudioCall>, bool))
    ensures
        r.0@ == audio_calls(effects),
        r.1 == (effects.play_notes@.len() > 0 || effects.bend_notes@.len() > 0),
{
    let base = midi_base_transpose();
    let mut out: Vec<AudioCall> = Vec::new();
    let mut i: usize = 0;
    while i < effects.stop_notes.len()
        invariant
            base.0 == MIDI_BASE,
            i <= effects.stop_notes@.len(),
            out@ == effects.stop_notes@.take(i as int).map_values(
                |un: UnmidiNote| AudioCall::Stop(midi_of(un)),
            ),
        decreases effects.stop_notes@.len() - i,
    {
        out.push(AudioCall::Stop(base + effects.stop_notes[i]));
        i = i + 1;
        assert(effects.stop_notes@.take(i as int).drop_last() =~= effects.stop_notes@.take(i - 1));
    }
    let ghost o1 = out@;
    let mut j: usize = 0;
    while j < effects.play_notes.len()
        invariant
            base.0 == MIDI_BASE,
            j <= effects.play_notes@.len(),
            out@ == o1 + effects.play_notes@.take(j as int).map_values(
                |pn: NoteOn| AudioCall::Play(midi_of(pn.note), pn.volume),
            ),
        decreases effects.play_notes@.len() - j,
    {
        let pn = effects.play_notes[j];
        out.push(AudioCall::Play(base + pn.note, pn.volume));
        j = j + 1;
        assert(effects.play_notes@.take(j as int).drop_last() =~= effects.play_notes@.take(j - 1));
    }
    assert(effects.stop_notes@.take(effects.stop_notes@.len() as int) =~= effects.stop_notes@);
    assert(effects.play_notes@.take(effects.play_notes@.len() as int) =~= effects.play_notes@);
    let played = effects.play_notes.len() > 0 || effects.bend_notes.len() > 0;
    (out, played)
}

} // verus!
