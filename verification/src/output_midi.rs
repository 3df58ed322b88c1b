//! Splitting a note's volume between the main and the bass MIDI channels.
use crate::notes::{MidiNote, NoteVolume};
use vstd::prelude::*;

verus! {

/// Lowest note of the crossfade from bass to main channel.
pub const MAIN_BASS_BOTTOM: u8 = 35;

/// Highest note of the crossfade from bass to main channel.
pub const MAIN_BASS_TOP: u8 = 80;

#[derive(Clone, Copy, Debug, PartialEq, Eq, Structural)]
pub struct MidiVelocityPair {
    pub main: u8,
    pub bass: u8,
}

/// Position of `note` in the crossfade, in steps of 1/45: 0 at or below the bottom,
/// 45 at or above the top.
pub open spec fn fade_steps(note: int) -> int {
    let k = note - MAIN_BASS_BOTTOM;
    if k < 0 {
        0
    } else if k > MAIN_BASS_TOP - MAIN_BASS_BOTTOM {
        MAIN_BASS_TOP - MAIN_BASS_BOTTOM
    } else {
        k
    }
}

/// Round `num / den` to the nearest integer, halves up.
pub open spec fn round_div(num: int, den: int) -> int {
    (2 * num + den) / (2 * den)
}

/// A velocity above zero is kept in 1..=127.
pub open spec fn clamp_velocity(v: int) -> int {
    if v <= 0 {
        0
    } else if v > 127 {
        127
    } else {
        v
    }
}

impl MidiVelocityPair {
    /// Split `volume` between the channels: the bass fades out linearly from the bottom
    /// to the top of the crossfade, the main channel fades in from half to full volume.
    pub fn from_note_and_volume(midi_note: MidiNote, volume: NoteVolume) -> (r: Self)
        ensures
            volume.0 == 0 ==> r.main == 0 && r.bass == 0,
            volume.0 != 0 ==> r.main == clamp_velocity(
                round_div(volume.0 * (45 + fade_steps(midi_note.0 as int)), 90),
            ),
            volume.0 != 0 ==> r.bass == clamp_velocity(
                round_div(volume.0 * (45 - fade_steps(midi_note.0 as int)), 45),
            ),
    {
        let base = volume.0;
        if base == 0 {
            return Self { main: 0, bass: 0 };
        }
        let span: u32 = (MAIN_BASS_TOP - MAIN_BASS_BOTTOM) as u32;
        let k: u32 = if midi_note.0 < MAIN_BASS_BOTTOM {
            0
        } else if midi_note.0 - MAIN_BASS_BOTTOM > MAIN_BASS_TOP - MAIN_BASS_BOTTOM {
            span
        } else {
            (midi_note.0 - MAIN_BASS_BOTTOM) as u32
        };
        let b: u32 = base as u32;
        assert(b * (45 + k) <= 255 * 90) by (nonlinear_arith)
            requires
                b <= 255,
                k <= 45,
        ;
        assert(b * (45 - k) <= 255 * 45) by (nonlinear_arith)
            requires
                b <= 255,
                k <= 45,
        ;
        let main_raw: u32 = (2 * (b * (45 + k)) + 90) / 180;
        let bass_raw: u32 = (2 * (b * (45 - k)) + 45) / 90;
        let main: u8 = if main_raw == 0 {
            0
        } else if main_raw > 127 {
            127
        } else {
            main_raw as u8
        };
        let bass: u8 = if bass_raw == 0 {
            0
        } else if bass_raw > 127 {
            127
        } else {
            bass_raw as u8
        };
        Self { main, bass }
    }
}

} // verus!
