//! What the app state asks the audio and display layers to do.
use crate::notes::{NoteVolume, Transpose, UnmidiNote};
use crate::touch::PointerId;
use vstd::prelude::*;

verus! {

#[derive(Debug, Clone, Copy, PartialEq, Eq, Structural)]
pub struct NoteOn {
    pub note: UnmidiNote,
    pub volume: NoteVolume,
    /// The pointer that holds the note for bending, if any.
    pub pointer: Option<PointerId>,
}

#[derive(Debug, Clone, Copy, PartialEq, Eq, Structural)]
pub struct BendNote {
    pub pointer: PointerId,
    pub target: UnmidiNote,
}

#[derive(Debug)]
pub struct AppEffects {
    pub play_notes: Vec<NoteOn>,
    pub stop_notes: Vec<UnmidiNote>,
    pub bend_notes: Vec<BendNote>,
    pub stop_bend_pointers: Vec<PointerId>,
    pub redraw: bool,
    pub change_key: Option<Transpose>,
}

/// One step of applying effects to an audio backend.
#[derive(Debug, Clone, Copy, PartialEq, Eq, Structural)]
pub enum EffectCommand {
    Stop(UnmidiNote),
    StopPointer(PointerId),
    Play(NoteOn),
    Bend(BendNote),
}

/// Effects that ask for nothing.
pub fn empty_effects() -> (r: AppEffects)
    ensures
        r.play_notes@.len() == 0,
        r.stop_notes@.len() == 0,
        r.bend_notes@.len() == 0,
        r.stop_bend_pointers@.len() == 0,
        !r.redraw,
        r.change_key.is_none(),
{
    AppEffects {
        play_notes: Vec::new(),
        stop_notes: Vec::new(),
        bend_notes: Vec::new(),
        stop_bend_pointers: Vec::new(),
        redraw: false,
        change_key: None,
    }
}

/// Append `b` to `a`: lists concatenate, redraw is or-ed, and the first key change wins.
pub fn merge_effects(a: &mut AppEffects, b: AppEffects)
    ensures
        final(a).redraw == (old(a).redraw || b.redraw),
        final(a).change_key == (if old(a).change_key.is_none() {
            b.change_key
        } else {
            old(a).change_key
        }),
        final(a).stop_notes@ == old(a).stop_notes@ + b.stop_notes@,
        final(a).stop_bend_pointers@ == old(a).stop_bend_pointers@ + b.stop_bend_pointers@,
        final(a).play_notes@ == old(a).play_notes@ + b.play_notes@,
        final(a).bend_notes@ == old(a).bend_notes@ + b.bend_notes@,
{
    let mut b = b;
    a.redraw = a.redraw || b.redraw;
    if a.change_key.is_none() {
        a.change_key = b.change_key;
    }
    a.stop_notes.append(&mut b.stop_notes);
    a.stop_bend_pointers.append(&mut b.stop_bend_pointers);
    a.play_notes.append(&mut b.play_notes);
    a.bend_notes.append(&mut b.bend_notes);
}

/// The commands of a list of effects, in the order they must reach the audio backend.
pub open spec fn command_order(e: AppEffects) -> Seq<EffectCommand> {
    e.stop_notes@.map_values(|n: UnmidiNote| EffectCommand::Stop(n))
        + e.stop_bend_pointers@.map_values(|p: PointerId| EffectCommand::StopPointer(p))
        + e.play_notes@.map_values(|n: NoteOn| EffectCommand::Play(n))
        + e.bend_notes@.map_values(|b: BendNote| EffectCommand::Bend(b))
}

impl AppEffects {
    /// The effects as audio commands: note-offs first, so that re-triggering a note
    /// does not stop it right away, then pointer releases, note-ons and bends.
    /// The flag tells whether anything is played or bent.
    pub fn apply_all(self) -> (r: (Vec<EffectCommand>, bool))
        ensures
            r.0@ == command_order(self),
            r.1 == (self.play_notes@.len() > 0 || self.bend_notes@.len() > 0),
    {
        let played = self.play_notes.len() > 0 || self.bend_notes.len() > 0;
        let mut out: Vec<EffectCommand> = Vec::new();
        let mut i: usize = 0;
        while i < self.stop_notes.len()
            invariant
                i <= self.stop_notes@.len(),
                out@ == self.stop_notes@.take(i as int).map_values(|n: UnmidiNote| EffectCommand::Stop(n)),
            decreases self.stop_notes@.len() - i,
        {
            out.push(EffectCommand::Stop(self.stop_notes[i]));
            i = i + 1;
            assert(self.stop_notes@.take(i as int).drop_last() =~= self.stop_notes@.take(i - 1));
        }
        let ghost o1 = out@;
        let mut i: usize = 0;
        while i < self.stop_bend_pointers.len()
            invariant
                i <= self.stop_bend_pointers@.len(),
                out@ == o1 + self.stop_bend_pointers@.take(i as int).map_values(|p: PointerId| EffectCommand::StopPointer(p)),
            decreases self.stop_bend_pointers@.len() - i,
        {
            out.push(EffectCommand::StopPointer(self.stop_bend_pointers[i]));
            i = i + 1;
            assert(self.stop_bend_pointers@.take(i as int).drop_last() =~= self.stop_bend_pointers@.take(i - 1));
        }
        let ghost o2 = out@;
        let mut i: usize = 0;
        while i < self.play_notes.len()
            invariant
                i <= self.play_notes@.len(),
                out@ == o2 + self.play_notes@.take(i as int).map_values(|n: NoteOn| EffectCommand::Play(n)),
            decreases self.play_notes@.len() - i,
        {
            out.push(EffectCommand::Play(self.play_notes[i]));
            i = i + 1;
            assert(self.play_notes@.take(i as int).drop_last() =~= self.play_notes@.take(i - 1));
        }
        let ghost o3 = out@;
        let mut i: usize = 0;
        while i < self.bend_notes.len()
            invariant
                i <= self.bend_notes@.len(),
                out@ == o3 + self.bend_notes@.take(i as int).map_values(|b: BendNote| EffectCommand::Bend(b)),
            decreases self.bend_notes@.len() - i,
        {
            out.push(EffectCommand::Bend(self.bend_notes[i]));
            i = i + 1;
            assert(self.bend_notes@.take(i as int).drop_last() =~= self.bend_notes@.take(i - 1));
        }
        assert(self.stop_notes@.take(self.stop_notes@.len() as int) =~= self.stop_notes@);
        assert(self.stop_bend_pointers@.take(self.stop_bend_pointers@.len() as int) =~= self.stop_bend_pointers@);
        assert(self.play_notes@.take(self.play_notes@.len() as int) =~= self.play_notes@);
        assert(self.bend_notes@.take(self.bend_notes@.len() as int) =~= self.bend_notes@);
        (out, played)
    }
}

} // verus!
