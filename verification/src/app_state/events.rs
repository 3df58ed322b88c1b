//! Input events understood by the app state, and the buttons behind them.
use crate::chord::Modifiers;
use crate::notes::{NoteVolume, UnkeyedNote};
use crate::rows::RowIndex;
use vstd::prelude::*;

verus! {

/// The volume of a strummed note when the input has no pressure information.
pub const DEFAULT_STRUM_VOLUME: u8 = 70;

#[derive(Debug, Clone, Copy, PartialEq, Eq, Structural)]
pub enum KeyState {
    Pressed,
    Released,
}

#[allow(inconsistent_fields)]
#[derive(Debug, Clone, Copy, PartialEq, Eq, Structural)]
pub enum KeyEvent {
    Chord { state: KeyState, button: ChordButton },
    Modifier { state: KeyState, button: ModButton, modifiers: Modifiers },
    Action { state: KeyState, button: ActionButton, action: Actions },
    StrumCrossing {
        row: RowIndex,
        note: UnkeyedNote,
        /// Touch or strum intensity at note-on.
        volume: NoteVolume,
    },
}

/// The chord buttons, one per scale degree, plus the whole-scale button.
#[derive(Debug, Copy, Clone, PartialEq, Eq, Hash, Structural)]
pub enum ChordButton {
    VIIB,
    IV,
    I,
    V,
    II,
    VI,
    III,
    VII,
    HeptatonicMajor,
}

impl ChordButton {
    /// Position of the button in the chord table, 0..9.
    pub open spec fn idx(self) -> int {
        match self {
            ChordButton::VIIB => 0,
            ChordButton::IV => 1,
            ChordButton::I => 2,
            ChordButton::V => 3,
            ChordButton::II => 4,
            ChordButton::VI => 5,
            ChordButton::III => 6,
            ChordButton::VII => 7,
            ChordButton::HeptatonicMajor => 8,
        }
    }

    pub fn index(self) -> (r: u8)
        ensures
            r as int == self.idx(),
    {
        match self {
            ChordButton::VIIB => 0,
            ChordButton::IV => 1,
            ChordButton::I => 2,
            ChordButton::V => 3,
            ChordButton::II => 4,
            ChordButton::VI => 5,
            ChordButton::III => 6,
            ChordButton::VII => 7,
            ChordButton::HeptatonicMajor => 8,
        }
    }
}

#[derive(Debug, Copy, Clone, PartialEq, Eq, Hash, Structural)]
pub enum ModButton {
    Major2,
    Minor7,
    Major7,
    Sus4,
    MinorMajor,
    No3,
}

impl ModButton {
    pub open spec fn idx(self) -> int {
        match self {
            ModButton::Major2 => 0,
            ModButton::Minor7 => 1,
            ModButton::Major7 => 2,
            ModButton::Sus4 => 3,
            ModButton::MinorMajor => 4,
            ModButton::No3 => 5,
        }
    }

    pub fn index(self) -> (r: u8)
        ensures
            r as int == self.idx(),
    {
        match self {
            ModButton::Major2 => 0,
            ModButton::Minor7 => 1,
            ModButton::Major7 => 2,
            ModButton::Sus4 => 3,
            ModButton::MinorMajor => 4,
            ModButton::No3 => 5,
        }
    }
}

#[derive(Debug, Copy, Clone, PartialEq, Eq, Hash, Structural)]
pub enum ActionButton {
    ChangeKey,
    Pulse,
}

impl ActionButton {
    pub open spec fn idx(self) -> int {
        match self {
            ActionButton::ChangeKey => 0,
            ActionButton::Pulse => 1,
        }
    }

    pub fn index(self) -> (r: u8)
        ensures
            r as int == self.idx(),
    {
        match self {
            ActionButton::ChangeKey => 0,
            ActionButton::Pulse => 1,
        }
    }
}

/// A set of one-shot actions, one bit per action.
#[derive(Clone, Copy, Debug, PartialEq, Eq, Structural)]
pub struct Actions {
    pub bits: u16,
}

impl Actions {
    pub const PULSE: u16 = 1;
    pub const CHANGE_KEY: u16 = 2;

    pub fn empty() -> (r: Actions)
        ensures
            r.bits == 0,
    {
        Actions { bits: 0 }
    }

    pub fn pulse() -> (r: Actions)
        ensures
            r.bits == Self::PULSE,
    {
        Actions { bits: Self::PULSE }
    }

    pub fn change_key() -> (r: Actions)
        ensures
            r.bits == Self::CHANGE_KEY,
    {
        Actions { bits: Self::CHANGE_KEY }
    }

    pub fn contains(&self, other: Actions) -> (r: bool)
        ensures
            r == (self.bits & other.bits == other.bits),
    {
        self.bits & other.bits == other.bits
    }

    pub fn insert(&mut self, other: Actions)
        ensures
            final(self).bits == old(self).bits | other.bits,
    {
        self.bits = self.bits | other.bits;
    }
}

} // verus!
