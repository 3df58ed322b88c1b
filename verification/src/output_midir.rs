//! The MIDI messages that play and stop notes on the main and bass channels.
//!
//! Sending them is the frontend's job; this module decides what to send.
use crate::notes::{MidiNote, NoteVolume};
use crate::output_midi::{clamp_velocity, fade_steps, round_div, MidiVelocityPair};
use vstd::prelude::*;

verus! {

/// A three-byte MIDI channel message.
pub type MidiMessage = [u8; 3];

/// Note-on status byte for `channel` (low four bits).
pub open spec fn note_on_status(channel: u8) -> u8 {
    (0x90u8 | (channel & 0x0Fu8)) as u8
}

/// Note-off status byte for `channel` (low four bits).
pub open spec fn note_off_status(channel: u8) -> u8 {
    (0x80u8 | (channel & 0x0Fu8)) as u8
}

pub open spec fn off_msg(channel: u8, note: MidiNote) -> Seq<u8> {
    seq![note_off_status(channel), note.0, 0u8]
}

/// Note-on at velocity `vel`; velocity zero sends a note-off instead.
pub open spec fn on_msgs(channel: u8, note: MidiNote, vel: u8) -> Seq<Seq<u8>> {
    if vel == 0 {
        seq![off_msg(channel, note)]
    } else {
        seq![seq![note_on_status(channel), note.0, vel]]
    }
}

/// The channels that a harp note sounds on.
#[derive(Clone, Copy, Debug, PartialEq, Eq, Structural)]
pub struct MidiBackend {
    pub main_channel: u8,
    pub bass_channel: u8,
}

/// The messages as byte sequences.
pub open spec fn msgs_view(ms: Seq<MidiMessage>) -> Seq<Seq<u8>> {
    ms.map_values(|m: MidiMessage| m@)
}

/// Playing a note: the main channel's share as a note-on (if any), then, if the bass
/// sounds, a bass note-off for a clean re-articulation followed by the bass note-on.
pub open spec fn play_msgs(b: MidiBackend, note: MidiNote, volume: NoteVolume) -> Seq<Seq<u8>> {
    let main = if volume.0 == 0 {
        0
    } else {
        clamp_velocity(round_div(volume.0 * (45 + fade_steps(note.0 as int)), 90))
    };
    let bass = if volume.0 == 0 {
        0
    } else {
        clamp_velocity(round_div(volume.0 * (45 - fade_steps(note.0 as int)), 45))
    };
    (if main > 0 {
        on_msgs(b.main_channel, note, main as u8)
    } else {
        seq![]
    }) + (if bass > 0 {
        seq![off_msg(b.bass_channel, note)] + on_msgs(b.bass_channel, note, bass as u8)
    } else {
        seq![]
    })
}

impl MidiBackend {
    pub fn new(main_channel: u8, bass_channel: u8) -> (r: Self)
        ensures
            r.main_channel == main_channel,
            r.bass_channel == bass_channel,
    {
        Self { main_channel, bass_channel }
    }

    /// A note-off on `channel`.
    pub fn note_off_message(channel: u8, note: MidiNote) -> (r: MidiMessage)
        ensures
            r@ == off_msg(channel, note),
    {
        let m = [0x80 | (channel & 0x0F), note.0, 0];
        assert(m@ =~= off_msg(channel, note));
        m
    }

    /// A note-on on `channel`; velocity zero gives a note-off.
    pub fn note_on_messages(channel: u8, note: MidiNote, vel: u8) -> (r: Vec<MidiMessage>)
        ensures
            msgs_view(r@) == on_msgs(channel, note, vel),
    {
        let mut out: Vec<MidiMessage> = Vec::new();
        if vel == 0 {
            out.push(Self::note_off_message(channel, note));
        } else {
            let m = [0x90 | (channel & 0x0F), note.0, vel];
            assert(m@ =~= seq![note_on_status(channel), note.0, vel]);
            out.push(m);
        }
        assert(msgs_view(out@) =~= on_msgs(channel, note, vel));
        out
    }

    /// The messages that play `midi_note` at `volume`, split between the channels.
    pub fn play_note(&self, midi_note: MidiNote, volume: NoteVolume) -> (r: Vec<MidiMessage>)
        ensures
            msgs_view(r@) == play_msgs(*self, midi_note, volume),
    {
        let pair = MidiVelocityPair::from_note_and_volume(midi_note, volume);
        let mut out: Vec<MidiMessage> = Vec::new();
        if pair.main > 0 {
            let mut m = Self::note_on_messages(self.main_channel, midi_note, pair.main);
            out.append(&mut m);
        }
        let ghost mid = out@;
        if pair.bass > 0 {
            out.push(Self::note_off_message(self.bass_channel, midi_note));
            let mut m = Self::note_on_messages(self.bass_channel, midi_note, pair.bass);
            out.append(&mut m);
        }
        proof {
            let main_part: Seq<Seq<u8>> = if pair.main > 0 {
                on_msgs(self.main_channel, midi_note, pair.main)
            } else {
                seq![]
            };
            assert(msgs_view(mid) =~= main_part);
            assert(msgs_view(out@) =~= play_msgs(*self, midi_note, volume));
        }
        out
    }

    /// The messages that stop `midi_note`: a note-off on the main, then the bass channel.
    pub fn stop_note(&self, midi_note: MidiNote) -> (r: Vec<MidiMessage>)
        ensures
            msgs_view(r@) == seq![
                off_msg(self.main_channel, midi_note),
                off_msg(self.bass_channel, midi_note),
            ],
    {
        let mut out: Vec<MidiMessage> = Vec::new();
        out.push(Self::note_off_message(self.main_channel, midi_note));
        out.push(Self::note_off_message(self.bass_channel, midi_note));
        assert(msgs_view(out@) =~= seq![
            off_msg(self.main_channel, midi_note),
            off_msg(self.bass_channel, midi_note),
        ]);
        out
    }
}

} // verus!
