//! Keyboard keys and on-screen buttons, and the key events they stand for.
use crate::app_state::{ActionButton, Actions, ChordButton, KeyEvent, KeyState, ModButton};
use crate::chord::Modifiers;
use crate::text::{chars_eq, chars_of, trim, trimmed};
use vstd::prelude::*;

verus! {

#[derive(Debug, Clone, Copy, PartialEq, Eq, Hash, Structural)]
pub enum UiKey {
    Char(char),
    Control,
    Tab,
}

/// Virtual buttons of touchscreen frontends; they map onto the same key events as the
/// keyboard. Their indices are Android's button ids and bit positions.
#[derive(Debug, Clone, Copy, PartialEq, Eq, Hash, Structural)]
pub enum UiButton {
    // Degree chords
    V,
    I,
    IV,
    VIIB,
    II,
    VI,
    III,
    VIIDim,
    // Modifiers
    Maj7,
    No3,
    Sus4,
    MinorMajor,
    Add2,
    Add7,
    // Special chord mode
    Hept,
}

/// The button with index `i`, in the stable numbering.
pub open spec fn button_at(i: int) -> UiButton {
    if i == 0 {
        UiButton::V
    } else if i == 1 {
        UiButton::I
    } else if i == 2 {
        UiButton::IV
    } else if i == 3 {
        UiButton::VIIB
    } else if i == 4 {
        UiButton::II
    } else if i == 5 {
        UiButton::VI
    } else if i == 6 {
        UiButton::III
    } else if i == 7 {
        UiButton::VIIDim
    } else if i == 8 {
        UiButton::Maj7
    } else if i == 9 {
        UiButton::No3
    } else if i == 10 {
        UiButton::Sus4
    } else if i == 11 {
        UiButton::MinorMajor
    } else if i == 12 {
        UiButton::Add2
    } else if i == 13 {
        UiButton::Add7
    } else {
        UiButton::Hept
    }
}

/// The textual id of a button.
pub open spec fn button_id(b: UiButton) -> Seq<char> {
    match b {
        UiButton::V => "v"@,
        UiButton::I => "i"@,
        UiButton::IV => "iv"@,
        UiButton::VIIB => "viib"@,
        UiButton::II => "ii"@,
        UiButton::VI => "vi"@,
        UiButton::III => "iii"@,
        UiButton::VIIDim => "vii_dim"@,
        UiButton::Maj7 => "maj7"@,
        UiButton::No3 => "no3"@,
        UiButton::Sus4 => "sus4"@,
        UiButton::MinorMajor => "minor_major"@,
        UiButton::Add2 => "add2"@,
        UiButton::Add7 => "add7"@,
        UiButton::Hept => "hept"@,
    }
}

/// `c` with ASCII capitals made small.
pub open spec fn ascii_lower(c: char) -> char {
    if 'A' <= c <= 'Z' {
        ((c as u32) + 32) as char
    } else {
        c
    }
}

/// The form of an id that `UiButton::from_id` compares: trimmed, ASCII in lower case.
pub open spec fn normalized_id(s: Seq<char>) -> Seq<char> {
    trim(s).map_values(|c: char| ascii_lower(c))
}

fn to_ascii_lower(c: char) -> (r: char)
    ensures
        r == ascii_lower(c),
{
    if 'A' <= c && c <= 'Z' {
        let u = c as u32 + 32;
        assert(0x41 + 32 <= u <= 0x5a + 32);
        char_from_ascii(u)
    } else {
        c
    }
}

/// The character of an ASCII code.
fn char_from_ascii(u: u32) -> (r: char)
    requires
        u < 128,
    ensures
        r == u as char,
{
    (u as u8) as char
}

/// The characters of `s`, trimmed and with ASCII in lower case.
fn normalize(s: &str) -> (r: Vec<char>)
    ensures
        r@ == normalized_id(s@),
{
    let cs = chars_of(s);
    let t = trimmed(&cs, 0, cs.len());
    assert(cs@.subrange(0, cs@.len() as int) =~= cs@);
    let mut out: Vec<char> = Vec::new();
    let mut i: usize = 0;
    while i < t.len()
        invariant
            i <= t@.len(),
            out@ == t@.subrange(0, i as int).map_values(|c: char| ascii_lower(c)),
        decreases t@.len() - i,
    {
        out.push(to_ascii_lower(t[i]));
        i = i + 1;
        assert(out@ =~= t@.subrange(0, i as int).map_values(|c: char| ascii_lower(c)));
    }
    assert(t@.subrange(0, t@.len() as int) =~= t@);
    out
}

impl UiButton {
    pub const COUNT: usize = 15;

    /// Every button, in the order of their indices.
    pub fn order() -> (r: [UiButton; 15])
        ensures
            forall|i: int| 0 <= i < 15 ==> r@[i] == button_at(i),
    {
        [
            UiButton::V,
            UiButton::I,
            UiButton::IV,
            UiButton::VIIB,
            UiButton::II,
            UiButton::VI,
            UiButton::III,
            UiButton::VIIDim,
            UiButton::Maj7,
            UiButton::No3,
            UiButton::Sus4,
            UiButton::MinorMajor,
            UiButton::Add2,
            UiButton::Add7,
            UiButton::Hept,
        ]
    }

    /// The stable index of the button, 0..15.
    pub open spec fn idx(self) -> int {
        match self {
            UiButton::V => 0,
            UiButton::I => 1,
            UiButton::IV => 2,
            UiButton::VIIB => 3,
            UiButton::II => 4,
            UiButton::VI => 5,
            UiButton::III => 6,
            UiButton::VIIDim => 7,
            UiButton::Maj7 => 8,
            UiButton::No3 => 9,
            UiButton::Sus4 => 10,
            UiButton::MinorMajor => 11,
            UiButton::Add2 => 12,
            UiButton::Add7 => 13,
            UiButton::Hept => 14,
        }
    }

    pub fn index(self) -> (r: usize)
        ensures
            r as int == self.idx(),
    {
        match self {
            UiButton::V => 0,
            UiButton::I => 1,
            UiButton::IV => 2,
            UiButton::VIIB => 3,
            UiButton::II => 4,
            UiButton::VI => 5,
            UiButton::III => 6,
            UiButton::VIIDim => 7,
            UiButton::Maj7 => 8,
            UiButton::No3 => 9,
            UiButton::Sus4 => 10,
            UiButton::MinorMajor => 11,
            UiButton::Add2 => 12,
            UiButton::Add7 => 13,
            UiButton::Hept => 14,
        }
    }

    /// The button with index `idx`; only the indices `0..15` name buttons.
    pub fn from_index(idx: usize) -> (r: Option<Self>)
        ensures
            r == (if idx < 15 {
                Some(button_at(idx as int))
            } else {
                None::<UiButton>
            }),
    {
        match idx {
            0 => Some(UiButton::V),
            1 => Some(UiButton::I),
            2 => Some(UiButton::IV),
            3 => Some(UiButton::VIIB),
            4 => Some(UiButton::II),
            5 => Some(UiButton::VI),
            6 => Some(UiButton::III),
            7 => Some(UiButton::VIIDim),
            8 => Some(UiButton::Maj7),
            9 => Some(UiButton::No3),
            10 => Some(UiButton::Sus4),
            11 => Some(UiButton::MinorMajor),
            12 => Some(UiButton::Add2),
            13 => Some(UiButton::Add7),
            14 => Some(UiButton::Hept),
            _ => None,
        }
    }

    pub fn id(self) -> (r: &'static str)
        ensures
            r@ == button_id(self),
    {
        match self {
            UiButton::V => "v",
            UiButton::I => "i",
            UiButton::IV => "iv",
            UiButton::VIIB => "viib",
            UiButton::II => "ii",
            UiButton::VI => "vi",
            UiButton::III => "iii",
            UiButton::VIIDim => "vii_dim",
            UiButton::Maj7 => "maj7",
            UiButton::No3 => "no3",
            UiButton::Sus4 => "sus4",
            UiButton::MinorMajor => "minor_major",
            UiButton::Add2 => "add2",
            UiButton::Add7 => "add7",
            UiButton::Hept => "hept",
        }
    }

    /// The button whose id matches `id`, ignoring surrounding whitespace and ASCII case.
    pub fn from_id(id: &str) -> (r: Option<Self>)
        ensures
            match r {
                Some(b) => normalized_id(id@) == button_id(b),
                None => forall|b: UiButton| normalized_id(id@) != button_id(b),
            },
    {
        let key = normalize(id);
        let order = Self::order();
        let mut i: usize = 0;
        while i < 15
            invariant
                i <= 15,
                key@ == normalized_id(id@),
                forall|j: int| 0 <= j < 15 ==> order@[j] == button_at(j),
                forall|j: int| 0 <= j < i ==> key@ != button_id(#[trigger] button_at(j)),
            decreases 15 - i,
        {
            let b = order[i];
            if chars_eq(&key, b.id()) {
                return Some(b);
            }
            i = i + 1;
        }
        assert forall|b: UiButton| key@ != button_id(b) by {
            assert(b == button_at(b.idx()));
        }
        None
    }
}

/// The key event a keyboard key stands for, if any.
pub open spec fn key_event_spec(state: KeyState, key: UiKey) -> Option<KeyEvent> {
    match key {
        UiKey::Char(c) => if c == 'a' {
            Some(KeyEvent::Chord { state, button: ChordButton::VIIB })
        } else if c == 's' {
            Some(KeyEvent::Chord { state, button: ChordButton::IV })
        } else if c == 'd' {
            Some(KeyEvent::Chord { state, button: ChordButton::I })
        } else if c == 'f' {
            Some(KeyEvent::Chord { state, button: ChordButton::V })
        } else if c == 'z' {
            Some(KeyEvent::Chord { state, button: ChordButton::II })
        } else if c == 'x' {
            Some(KeyEvent::Chord { state, button: ChordButton::VI })
        } else if c == 'c' {
            Some(KeyEvent::Chord { state, button: ChordButton::III })
        } else if c == 'v' {
            Some(KeyEvent::Chord { state, button: ChordButton::VII })
        } else if c == '5' {
            Some(
                KeyEvent::Modifier {
                    state,
                    button: ModButton::Major2,
                    modifiers: Modifiers { bits: Modifiers::ADD_MAJOR2 },
                },
            )
        } else if c == 'b' {
            Some(
                KeyEvent::Modifier {
                    state,
                    button: ModButton::Major7,
                    modifiers: Modifiers { bits: Modifiers::ADD_MAJOR7 },
                },
            )
        } else if c == '6' {
            Some(
                KeyEvent::Modifier {
                    state,
                    button: ModButton::Minor7,
                    modifiers: Modifiers { bits: Modifiers::ADD_MINOR7 },
                },
            )
        } else if c == '3' {
            Some(
                KeyEvent::Modifier {
                    state,
                    button: ModButton::Sus4,
                    modifiers: Modifiers { bits: Modifiers::SUS4 },
                },
            )
        } else if c == '4' {
            Some(
                KeyEvent::Modifier {
                    state,
                    button: ModButton::MinorMajor,
                    modifiers: Modifiers { bits: Modifiers::SWITCH_MINOR_MAJOR },
                },
            )
        } else if c == '.' {
            Some(
                KeyEvent::Modifier {
                    state,
                    button: ModButton::No3,
                    modifiers: Modifiers { bits: Modifiers::NO3 },
                },
            )
        } else if c == '1' {
            Some(
                KeyEvent::Action {
                    state,
                    button: ActionButton::ChangeKey,
                    action: Actions { bits: Actions::CHANGE_KEY },
                },
            )
        } else {
            None
        },
        UiKey::Control => Some(KeyEvent::Chord { state, button: ChordButton::HeptatonicMajor }),
        UiKey::Tab => Some(
            KeyEvent::Action {
                state,
                button: ActionButton::Pulse,
                action: Actions { bits: Actions::PULSE },
            },
        ),
    }
}

/// Map a keyboard key to the key event it stands for.
pub fn key_event_from_ui(state: KeyState, key: UiKey) -> (r: Option<KeyEvent>)
    ensures
        r == key_event_spec(state, key),
{
    match key {
        // Chords
        UiKey::Char('a') => Some(KeyEvent::Chord { state, button: ChordButton::VIIB }),
        UiKey::Char('s') => Some(KeyEvent::Chord { state, button: ChordButton::IV }),
        UiKey::Char('d') => Some(KeyEvent::Chord { state, button: ChordButton::I }),
        UiKey::Char('f') => Some(KeyEvent::Chord { state, button: ChordButton::V }),
        UiKey::Char('z') => Some(KeyEvent::Chord { state, button: ChordButton::II }),
        UiKey::Char('x') => Some(KeyEvent::Chord { state, button: ChordButton::VI }),
        UiKey::Char('c') => Some(KeyEvent::Chord { state, button: ChordButton::III }),
        UiKey::Char('v') => Some(KeyEvent::Chord { state, button: ChordButton::VII }),
        UiKey::Control => Some(KeyEvent::Chord { state, button: ChordButton::HeptatonicMajor }),
        // Modifiers
        UiKey::Char('5') => Some(
            KeyEvent::Modifier {
                state,
                button: ModButton::Major2,
                modifiers: Modifiers::add_major2(),
            },
        ),
        UiKey::Char('b') => Some(
            KeyEvent::Modifier {
                state,
                button: ModButton::Major7,
                modifiers: Modifiers::add_major7(),
            },
        ),
        UiKey::Char('6') => Some(
            KeyEvent::Modifier {
                state,
                button: ModButton::Minor7,
                modifiers: Modifiers::add_minor7(),
            },
        ),
        UiKey::Char('3') => Some(
            KeyEvent::Modifier { state, button: ModButton::Sus4, modifiers: Modifiers::sus4() },
        ),
        UiKey::Char('4') => Some(
            KeyEvent::Modifier {
                state,
                button: ModButton::MinorMajor,
                modifiers: Modifiers::switch_minor_major(),
            },
        ),
        UiKey::Char('.') => Some(
            KeyEvent::Modifier { state, button: ModButton::No3, modifiers: Modifiers::no3() },
        ),
        // Actions
        UiKey::Char('1') => Some(
            KeyEvent::Action {
                state,
                button: ActionButton::ChangeKey,
                action: Actions::change_key(),
            },
        ),
        UiKey::Tab => Some(
            KeyEvent::Action { state, button: ActionButton::Pulse, action: Actions::pulse() },
        ),
        _ => None,
    }
}

/// The key event an on-screen button stands for.
pub open spec fn button_event(state: KeyState, button: UiButton) -> KeyEvent {
    match button {
        UiButton::VIIB => KeyEvent::Chord { state, button: ChordButton::VIIB },
        UiButton::IV => KeyEvent::Chord { state, button: ChordButton::IV },
        UiButton::I => KeyEvent::Chord { state, button: ChordButton::I },
        UiButton::V => KeyEvent::Chord { state, button: ChordButton::V },
        UiButton::II => KeyEvent::Chord { state, button: ChordButton::II },
        UiButton::VI => KeyEvent::Chord { state, button: ChordButton::VI },
        UiButton::III => KeyEvent::Chord { state, button: ChordButton::III },
        UiButton::VIIDim => KeyEvent::Chord { state, button: ChordButton::VII },
        UiButton::Hept => KeyEvent::Chord { state, button: ChordButton::HeptatonicMajor },
        UiButton::Add2 => KeyEvent::Modifier {
            state,
            button: ModButton::Major2,
            modifiers: Modifiers { bits: Modifiers::ADD_MAJOR2 },
        },
        UiButton::Maj7 => KeyEvent::Modifier {
            state,
            button: ModButton::Major7,
            modifiers: Modifiers { bits: Modifiers::ADD_MAJOR7 },
        },
        UiButton::Add7 => KeyEvent::Modifier {
            state,
            button: ModButton::Minor7,
            modifiers: Modifiers { bits: Modifiers::ADD_MINOR7 },
        },
        UiButton::Sus4 => KeyEvent::Modifier {
            state,
            button: ModButton::Sus4,
            modifiers: Modifiers { bits: Modifiers::SUS4 },
        },
        UiButton::MinorMajor => KeyEvent::Modifier {
            state,
            button: ModButton::MinorMajor,
            modifiers: Modifiers { bits: Modifiers::SWITCH_MINOR_MAJOR },
        },
        UiButton::No3 => KeyEvent::Modifier {
            state,
            button: ModButton::No3,
            modifiers: Modifiers { bits: Modifiers::NO3 },
        },
    }
}

/// Convert an on-screen button press or release into key events (one, for every button).
pub fn key_events_from_button(state: KeyState, button: UiButton) -> (r: Vec<KeyEvent>)
    ensures
        r@ == seq![button_event(state, button)],
{
    let ev = match button {
        // Chords
        UiButton::VIIB => KeyEvent::Chord { state, button: ChordButton::VIIB },
        UiButton::IV => KeyEvent::Chord { state, button: ChordButton::IV },
        UiButton::I => KeyEvent::Chord { state, button: ChordButton::I },
        UiButton::V => KeyEvent::Chord { state, button: ChordButton::V },
        UiButton::II => KeyEvent::Chord { state, button: ChordButton::II },
        UiButton::VI => KeyEvent::Chord { state, button: ChordButton::VI },
        UiButton::III => KeyEvent::Chord { state, button: ChordButton::III },
        UiButton::VIIDim => KeyEvent::Chord { state, button: ChordButton::VII },
        UiButton::Hept => KeyEvent::Chord { state, button: ChordButton::HeptatonicMajor },
        // Modifiers
        UiButton::Add2 => KeyEvent::Modifier {
            state,
            button: ModButton::Major2,
            modifiers: Modifiers::add_major2(),
        },
        UiButton::Maj7 => KeyEvent::Modifier {
            state,
            button: ModButton::Major7,
            modifiers: Modifiers::add_major7(),
        },
        UiButton::Add7 => KeyEvent::Modifier {
            state,
            button: ModButton::Minor7,
            modifiers: Modifiers::add_minor7(),
        },
        UiButton::Sus4 => KeyEvent::Modifier {
            state,
            button: ModButton::Sus4,
            modifiers: Modifiers::sus4(),
        },
        UiButton::MinorMajor => KeyEvent::Modifier {
            state,
            button: ModButton::MinorMajor,
            modifiers: Modifiers::switch_minor_major(),
        },
        UiButton::No3 => KeyEvent::Modifier {
            state,
            button: ModButton::No3,
            modifiers: Modifiers::no3(),
        },
    };
    let r = vec![ev];
    assert(r@ =~= seq![button_event(state, button)]);
    r
}

} // verus!
