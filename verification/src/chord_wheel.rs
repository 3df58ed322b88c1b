//! The Android swipe wheel: a chord button plus one of eight directions picks a preset of
//! modifiers.
use crate::app_state::ChordButton;
use crate::chord::Modifiers;
use vstd::prelude::*;

verus! {

#[derive(Clone, Copy, Debug, PartialEq, Eq, Structural)]
pub enum WheelDir8 {
    N,
    NE,
    E,
    SE,
    S,
    SW,
    W,
    NW,
}

impl WheelDir8 {
    /// Position of the direction, clockwise from north.
    pub open spec fn idx(self) -> int {
        match self {
            WheelDir8::N => 0,
            WheelDir8::NE => 1,
            WheelDir8::E => 2,
            WheelDir8::SE => 3,
            WheelDir8::S => 4,
            WheelDir8::SW => 5,
            WheelDir8::W => 6,
            WheelDir8::NW => 7,
        }
    }

    pub fn from_i32(dir: i32) -> (r: Option<Self>)
        ensures
            match r {
                Some(d) => d.idx() == dir && d == dir_at(dir as int),
                None => !(0 <= dir < 8),
            },
    {
        match dir {
            0 => Some(Self::N),
            1 => Some(Self::NE),
            2 => Some(Self::E),
            3 => Some(Self::SE),
            4 => Some(Self::S),
            5 => Some(Self::SW),
            6 => Some(Self::W),
            7 => Some(Self::NW),
            _ => None,
        }
    }

    pub fn index(self) -> (r: usize)
        ensures
            r as int == self.idx(),
    {
        match self {
            Self::N => 0,
            Self::NE => 1,
            Self::E => 2,
            Self::SE => 3,
            Self::S => 4,
            Self::SW => 5,
            Self::W => 6,
            Self::NW => 7,
        }
    }
}

/// The direction at position `i` (in `0..8`), clockwise from north.
pub open spec fn dir_at(i: int) -> WheelDir8 {
    if i == 0 {
        WheelDir8::N
    } else if i == 1 {
        WheelDir8::NE
    } else if i == 2 {
        WheelDir8::E
    } else if i == 3 {
        WheelDir8::SE
    } else if i == 4 {
        WheelDir8::S
    } else if i == 5 {
        WheelDir8::SW
    } else if i == 6 {
        WheelDir8::W
    } else {
        WheelDir8::NW
    }
}

/// The degrees whose triad is major in a major key (with the flat seventh).
pub open spec fn is_major(button: ChordButton) -> bool {
    button == ChordButton::VIIB || button == ChordButton::IV || button == ChordButton::I || button
        == ChordButton::V
}

fn is_major_degree(button: ChordButton) -> (r: bool)
    ensures
        r == is_major(button),
{
    matches!(button, ChordButton::VIIB | ChordButton::IV | ChordButton::I | ChordButton::V)
}

/// The preset of a wheel direction, for major and for minor degrees.
///
/// Major degrees, from north clockwise: ^7, ^9, +2, iv^9, iv^7, iv^M7, sus, ^M7.
/// Minor degrees: III^7, III^9, +2, iii^9, iii^7, iii^M7, sus, III^M7.
pub open spec fn wheel_preset(major: bool, dir: WheelDir8) -> u16 {
    let m7 = Modifiers::ADD_MINOR7;
    let m2 = Modifiers::ADD_MAJOR2;
    let mm = Modifiers::SWITCH_MINOR_MAJOR;
    let maj7 = Modifiers::ADD_MAJOR7;
    if major {
        match dir {
            WheelDir8::N => m7,
            WheelDir8::NE => m7 | m2,
            WheelDir8::E => m2,
            WheelDir8::SE => mm | m7 | m2,
            WheelDir8::S => mm | m7,
            WheelDir8::SW => mm | maj7,
            WheelDir8::W => Modifiers::SUS4,
            WheelDir8::NW => maj7,
        }
    } else {
        match dir {
            WheelDir8::N => mm | m7,
            WheelDir8::NE => mm | m7 | m2,
            WheelDir8::E => m2,
            WheelDir8::SE => m7 | m2,
            WheelDir8::S => m7,
            WheelDir8::SW => maj7,
            WheelDir8::W => Modifiers::SUS4,
            WheelDir8::NW => mm | maj7,
        }
    }
}

/// Map a chord button and wheel direction to a modifier preset.
pub fn modifiers_for(button: ChordButton, dir: WheelDir8) -> (r: Modifiers)
    ensures
        r.bits == wheel_preset(is_major(button), dir),
{
    let m7 = Modifiers::add_minor7();
    let m2 = Modifiers::add_major2();
    let mm = Modifiers::switch_minor_major();
    let maj7 = Modifiers::add_major7();
    if is_major_degree(button) {
        match dir {
            WheelDir8::N => m7,
            WheelDir8::NE => m7.union(m2),
            WheelDir8::E => m2,
            WheelDir8::SE => mm.union(m7).union(m2),
            WheelDir8::S => mm.union(m7),
            WheelDir8::SW => mm.union(maj7),
            WheelDir8::W => Modifiers::sus4(),
            WheelDir8::NW => maj7,
        }
    } else {
        match dir {
            WheelDir8::N => mm.union(m7),
            WheelDir8::NE => mm.union(m7).union(m2),
            WheelDir8::E => m2,
            WheelDir8::SE => m7.union(m2),
            WheelDir8::S => m7,
            WheelDir8::SW => maj7,
            WheelDir8::W => Modifiers::sus4(),
            WheelDir8::NW => mm.union(maj7),
        }
    }
}

} // verus!
