//! Voice allocation of the square-wave synth: a note sounds in at most one voice, and at
//! most sixteen voices sound at once. The synth's sound itself is floating-point work that
//! the frontends do.
use crate::notes::MidiNote;
use vstd::prelude::*;

verus! {

/// Most voices that sound at once.
pub const MAX_VOICES: usize = 16;

/// Where a new note goes among the sounding voices.
#[derive(Clone, Copy, Debug, PartialEq, Eq, Structural)]
pub enum VoiceSlot {
    /// Restart the voice at this index, which plays the same note.
    Reuse(usize),
    /// Drop the first voice, moving the last one into its place, then add a voice.
    EvictFirst,
    /// Add a voice.
    Append,
}

/// The slot for `midi` among voices playing `playing`, in order: the first voice that
/// plays the same note, else a new voice, after dropping the first one when all voices
/// are taken.
pub open spec fn slot_for(playing: Seq<MidiNote>, midi: MidiNote) -> VoiceSlot {
    if playing.contains(midi) {
        VoiceSlot::Reuse(choose|i: usize| i < playing.len() && playing[i as int] == midi && forall|j: int| 0 <= j < i ==> playing[j] != midi)
    } else if playing.len() >= MAX_VOICES {
        VoiceSlot::EvictFirst
    } else {
        VoiceSlot::Append
    }
}

/// The notes of the voices after `midi` goes into `slot`.
pub open spec fn voices_after(playing: Seq<MidiNote>, midi: MidiNote, slot: VoiceSlot) -> Seq<MidiNote> {
    match slot {
        VoiceSlot::Reuse(i) => playing.update(i as int, midi),
        VoiceSlot::EvictFirst => playing.update(0, playing.last()).drop_last().push(midi),
        VoiceSlot::Append => playing.push(midi),
    }
}

/// The slot for a new note `midi` among voices playing `playing` (see `slot_for`).
pub fn voice_slot(playing: &[MidiNote], midi: MidiNote) -> (r: VoiceSlot)
    ensures
        match r {
            VoiceSlot::Reuse(i) => {
                &&& i < playing@.len()
                &&& playing@[i as int] == midi
                &&& forall|j: int| 0 <= j < i ==> playing@[j] != midi
            },
            VoiceSlot::EvictFirst => !playing@.contains(midi) && playing@.len() >= MAX_VOICES,
            VoiceSlot::Append => !playing@.contains(midi) && playing@.len() < MAX_VOICES,
        },
        r == slot_for(playing@, midi),
{
    let mut i: usize = 0;
    while i < playing.len()
        invariant
            i <= playing@.len(),
            forall|j: int| 0 <= j < i ==> playing@[j] != midi,
        decreases playing@.len() - i,
    {
        if playing[i].0 == midi.0 {
            proof {
                assert(playing@[i as int] == midi);
                let k = choose|k: usize| k < playing@.len() && playing@[k as int] == midi && forall|j: int| 0 <= j < k ==> playing@[j] != midi;
                assert(k == i) by {
                    if k < i {
                        assert(playing@[k as int] != midi);
                    } else if k > i {
                        assert(playing@[i as int] != midi);
                    }
                }
            }
            return VoiceSlot::Reuse(i);
        }
        i = i + 1;
    }
    if playing.len() >= MAX_VOICES {
        VoiceSlot::EvictFirst
    } else {
        VoiceSlot::Append
    }
}

} // verus!
