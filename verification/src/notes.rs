//! Note, key and interval arithmetic.
//!
//! Notes live in three coordinate systems:
//! - `UnkeyedNote`: solfege-like position before the key is applied (Do = 0, Re = 2, ...),
//! - `UnmidiNote`: a note after the key (`Transpose`) is applied, before the MIDI base offset,
//! - `MidiNote`: the final MIDI note number.
use std::ops::{Add, Sub};
use vstd::prelude::*;
use vstd::std_specs::ops::{AddSpecImpl, SubSpecImpl};

verus! {

/// Euclidean remainder by 12, the pitch class of an integer note.
pub open spec fn pc12(x: int) -> int {
    x % 12
}

/// Centre a transposition into the range -5..=6.
pub open spec fn centered(x: int) -> int {
    if pc12(x) > 6 {
        pc12(x) - 12
    } else {
        pc12(x)
    }
}

/// Euclidean remainder by 12 of an `i16`, computed without overflow.
pub fn rem12(x: i16) -> (r: i16)
    ensures
        r as int == pc12(x as int),
        0 <= r < 12,
{
    let shifted: i32 = x as i32 + 36000;
    let r: i32 = shifted % 12;
    assert(r as int == pc12(x as int)) by {
        assert((x as int + 36000) % 12 == (x as int) % 12);
    }
    r as i16
}

#[derive(Copy, Clone, Debug, PartialEq, Eq, Structural, Hash, PartialOrd)]
pub struct MidiNote(pub u8);

/// Note loudness, 0..=127 in practice.
#[derive(Copy, Clone, Debug, PartialEq, Eq, Structural, Hash, PartialOrd)]
pub struct NoteVolume(pub u8);

/// Note after the key is applied, before adding the MIDI base transposition.
#[derive(Hash, Eq, Copy, Clone, Debug, PartialEq, Structural)]
pub struct UnmidiNote(pub i16);

/// A key shift, in half steps.
#[derive(Copy, Clone, Debug, PartialEq, Eq, Structural)]
pub struct Transpose(pub i16);

/// Note before the key is applied: Do = 0, Re = 2, and so on; may leave 0..12.
#[derive(Copy, Clone, Debug, Eq, PartialEq, Structural)]
pub struct UnkeyedNote(pub i16);

/// Position above the root of a chord; "the fifth of the chord" is 7.
pub struct UnrootedNote(pub u8);

/// Difference in half steps.
#[derive(Copy, Clone, Debug, PartialEq, Eq, Structural)]
pub struct Interval(pub i16);

impl Interval {
    pub open spec fn view(self) -> int {
        self.0 as int
    }

    pub fn semitones(self) -> (r: i16)
        ensures
            r as int == self@,
    {
        self.0
    }
}

impl Transpose {
    /// The same key, expressed as a shift in -5..=6.
    pub fn center_octave(self) -> (r: Transpose)
        ensures
            r.0 as int == centered(self.0 as int),
            -5 <= r.0 <= 6,
    {
        let in_octave = self.wrap_to_octave();
        if in_octave > 6 {
            Transpose(in_octave - 12)
        } else {
            Transpose(in_octave)
        }
    }

    /// Pitch class of the key, in 0..12.
    pub fn wrap_to_octave(self) -> (r: i16)
        ensures
            r as int == pc12(self.0 as int),
    {
        rem12(self.0)
    }
}

impl UnkeyedNote {
    /// Pitch class of the note, in 0..12.
    pub fn wrap_to_octave(self) -> (r: i16)
        ensures
            r as int == pc12(self.0 as int),
    {
        rem12(self.0)
    }

    pub fn as_i16(self) -> (r: i16)
        ensures
            r == self.0,
    {
        self.0
    }
}

impl UnrootedNote {
    /// The pitch class of an interval above a root.
    pub fn new(i: Interval) -> (r: Self)
        ensures
            r.0 as int == pc12(i@),
    {
        Self(rem12(i.0) as u8)
    }
}

impl Sub for MidiNote {
    type Output = Interval;

    fn sub(self, rhs: MidiNote) -> Interval {
        Interval(self.0 as i16 - rhs.0 as i16)
    }
}

impl SubSpecImpl for MidiNote {
    open spec fn obeys_sub_spec() -> bool {
        true
    }

    open spec fn sub_req(self, rhs: MidiNote) -> bool {
        true
    }

    open spec fn sub_spec(self, rhs: MidiNote) -> Interval {
        Interval((self.0 - rhs.0) as i16)
    }
}

impl Add<UnkeyedNote> for Transpose {
    type Output = UnmidiNote;

    fn add(self, rhs: UnkeyedNote) -> UnmidiNote {
        UnmidiNote(self.0 + rhs.0)
    }
}

impl AddSpecImpl<UnkeyedNote> for Transpose {
    open spec fn obeys_add_spec() -> bool {
        true
    }

    open spec fn add_req(self, rhs: UnkeyedNote) -> bool {
        i16::MIN <= self.0 + rhs.0 <= i16::MAX
    }

    open spec fn add_spec(self, rhs: UnkeyedNote) -> UnmidiNote {
        UnmidiNote((self.0 + rhs.0) as i16)
    }
}

/// Clamp an integer into the MIDI range 0..=127.
pub open spec fn midi_clamp(x: int) -> int {
    if x < 0 {
        0
    } else if x > 127 {
        127
    } else {
        x
    }
}

impl Add<UnmidiNote> for Transpose {
    type Output = MidiNote;

    fn add(self, rhs: UnmidiNote) -> MidiNote {
        let sum: i32 = self.0 as i32 + rhs.0 as i32;
        if sum < 0 {
            MidiNote(0)
        } else if sum > 127 {
            MidiNote(127)
        } else {
            MidiNote(sum as u8)
        }
    }
}

impl AddSpecImpl<UnmidiNote> for Transpose {
    open spec fn obeys_add_spec() -> bool {
        true
    }

    open spec fn add_req(self, rhs: UnmidiNote) -> bool {
        true
    }

    open spec fn add_spec(self, rhs: UnmidiNote) -> MidiNote {
        MidiNote(midi_clamp(self.0 + rhs.0) as u8)
    }
}

impl Sub<Transpose> for UnmidiNote {
    type Output = UnkeyedNote;

    fn sub(self, rhs: Transpose) -> UnkeyedNote {
        UnkeyedNote(self.0 - rhs.0)
    }
}

impl SubSpecImpl<Transpose> for UnmidiNote {
    open spec fn obeys_sub_spec() -> bool {
        true
    }

    open spec fn sub_req(self, rhs: Transpose) -> bool {
        i16::MIN <= self.0 - rhs.0 <= i16::MAX
    }

    open spec fn sub_spec(self, rhs: Transpose) -> UnkeyedNote {
        UnkeyedNote((self.0 - rhs.0) as i16)
    }
}

impl Sub<Transpose> for MidiNote {
    type Output = UnmidiNote;

    fn sub(self, rhs: Transpose) -> UnmidiNote {
        UnmidiNote(self.0 as i16 - rhs.0)
    }
}

impl SubSpecImpl<Transpose> for MidiNote {
    open spec fn obeys_sub_spec() -> bool {
        true
    }

    open spec fn sub_req(self, rhs: Transpose) -> bool {
        i16::MIN <= self.0 - rhs.0 <= i16::MAX
    }

    open spec fn sub_spec(self, rhs: Transpose) -> UnmidiNote {
        UnmidiNote((self.0 - rhs.0) as i16)
    }
}

impl Sub for UnkeyedNote {
    type Output = Interval;

    fn sub(self, rhs: UnkeyedNote) -> Interval {
        Interval(self.0 - rhs.0)
    }
}

impl SubSpecImpl for UnkeyedNote {
    open spec fn obeys_sub_spec() -> bool {
        true
    }

    open spec fn sub_req(self, rhs: UnkeyedNote) -> bool {
        i16::MIN <= self.0 - rhs.0 <= i16::MAX
    }

    open spec fn sub_spec(self, rhs: UnkeyedNote) -> Interval {
        Interval((self.0 - rhs.0) as i16)
    }
}

/// Set of pitch classes above a root, one bit per half step.
#[derive(Clone, Copy, Eq, PartialEq, Structural, Debug)]
pub struct PitchClassSet(pub u16);

/// Whether bit `pc` of `bits` is set.
pub open spec fn bit_set(bits: u16, pc: int) -> bool {
    0 <= pc < 16 && (bits >> (pc as u16)) & 1u16 == 1u16
}

pub proof fn lemma_test_bit(m: u16, p: u16)
    by (bit_vector)
    requires
        p < 16,
    ensures
        (m & (1u16 << p)) != 0 <==> (m >> p) & 1u16 == 1u16,
{
}

pub proof fn lemma_or_bit(m: u16, p: u16, q: u16)
    by (bit_vector)
    requires
        p < 16,
        q < 16,
    ensures
        ((m | (1u16 << p)) >> q) & 1u16 == 1u16 <==> (((m >> q) & 1u16 == 1u16) || q == p),
{
}

pub proof fn lemma_clear_bit(m: u16, p: u16, q: u16)
    by (bit_vector)
    requires
        p < 16,
        q < 16,
    ensures
        ((m & !(1u16 << p)) >> q) & 1u16 == 1u16 <==> (((m >> q) & 1u16 == 1u16) && q != p),
{
}

proof fn lemma_bits_root_only(q: u16)
    by (bit_vector)
    requires
        q < 16,
    ensures
        (1u16 >> q) & 1u16 == 1u16 <==> q == 0,
{
}

proof fn lemma_bits_major(q: u16)
    by (bit_vector)
    requires
        q < 16,
    ensures
        (0b000010010001u16 >> q) & 1u16 == 1u16 <==> (q == 0 || q == 4 || q == 7),
{
}

proof fn lemma_bits_minor(q: u16)
    by (bit_vector)
    requires
        q < 16,
    ensures
        (0b000010001001u16 >> q) & 1u16 == 1u16 <==> (q == 0 || q == 3 || q == 7),
{
}

proof fn lemma_bits_dimin(q: u16)
    by (bit_vector)
    requires
        q < 16,
    ensures
        (0b000001001001u16 >> q) & 1u16 == 1u16 <==> (q == 0 || q == 3 || q == 6),
{
}

proof fn lemma_bits_chromatic(q: u16)
    by (bit_vector)
    requires
        q < 16,
    ensures
        (0b111111111111u16 >> q) & 1u16 == 1u16 <==> q < 12,
{
}

/// The pitch classes 0..12.
pub open spec fn all_pitch_classes() -> Set<int> {
    Set::new(|q: int| 0 <= q < 12)
}

impl PitchClassSet {
    pub const ROOT_ONLY: u16 = 0b000000000001;
    pub const MAJOR_TRI: u16 = 0b000010010001;
    pub const MINOR_TRI: u16 = 0b000010001001;
    pub const DIMIN_TRI: u16 = 0b000001001001;
    pub const CHROMATIC: u16 = 0b111111111111;

    /// The pitch classes in the set.
    pub open spec fn view(self) -> Set<int> {
        Set::new(|pc: int| bit_set(self.0, pc))
    }

    pub fn root_only() -> (r: PitchClassSet)
        ensures
            r@ == set![0int],
            r.0 == Self::ROOT_ONLY,
    {
        let r = PitchClassSet(Self::ROOT_ONLY);
        assert forall|q: int| r@.contains(q) <==> q == 0 by {
            if 0 <= q < 16 {
                lemma_bits_root_only(q as u16);
            }
        }
        assert(r@ =~= set![0int]);
        r
    }

    pub fn major_tri() -> (r: PitchClassSet)
        ensures
            r@ == set![0int, 4, 7],
            r.0 == Self::MAJOR_TRI,
    {
        let r = PitchClassSet(Self::MAJOR_TRI);
        assert forall|q: int| r@.contains(q) <==> (q == 0 || q == 4 || q == 7) by {
            if 0 <= q < 16 {
                lemma_bits_major(q as u16);
            }
        }
        assert(r@ =~= set![0int, 4, 7]);
        r
    }

    pub fn minor_tri() -> (r: PitchClassSet)
        ensures
            r@ == set![0int, 3, 7],
            r.0 == Self::MINOR_TRI,
    {
        let r = PitchClassSet(Self::MINOR_TRI);
        assert forall|q: int| r@.contains(q) <==> (q == 0 || q == 3 || q == 7) by {
            if 0 <= q < 16 {
                lemma_bits_minor(q as u16);
            }
        }
        assert(r@ =~= set![0int, 3, 7]);
        r
    }

    pub fn dimin_tri() -> (r: PitchClassSet)
        ensures
            r@ == set![0int, 3, 6],
            r.0 == Self::DIMIN_TRI,
    {
        let r = PitchClassSet(Self::DIMIN_TRI);
        assert forall|q: int| r@.contains(q) <==> (q == 0 || q == 3 || q == 6) by {
            if 0 <= q < 16 {
                lemma_bits_dimin(q as u16);
            }
        }
        assert(r@ =~= set![0int, 3, 6]);
        r
    }

    pub fn chromatic() -> (r: PitchClassSet)
        ensures
            r@ == all_pitch_classes(),
            r.0 == Self::CHROMATIC,
    {
        let r = PitchClassSet(Self::CHROMATIC);
        assert forall|q: int| r@.contains(q) <==> 0 <= q < 12 by {
            if 0 <= q < 16 {
                lemma_bits_chromatic(q as u16);
            }
        }
        assert(r@ =~= all_pitch_classes());
        r
    }

    pub fn contains(&self, pc: UnrootedNote) -> (r: bool)
        requires
            pc.0 < 16,
        ensures
            r == self@.contains(pc.0 as int),
    {
        let p: u16 = pc.0 as u16;
        proof {
            lemma_test_bit(self.0, p);
        }
        self.0 & (1u16 << p) != 0
    }

    pub fn insert(&mut self, pc: UnrootedNote)
        requires
            pc.0 < 16,
        ensures
            final(self)@ == old(self)@.insert(pc.0 as int),
            final(self).0 == old(self).0 | (1u16 << (pc.0 as u16)),
    {
        let p: u16 = pc.0 as u16;
        let ghost m = self.0;
        self.0 = self.0 | (1u16 << p);
        assert forall|q: int| #![auto] self@.contains(q) <==> old(self)@.insert(p as int).contains(q) by {
            if 0 <= q < 16 {
                lemma_or_bit(m, p, q as u16);
            }
        }
        assert(self@ =~= old(self)@.insert(pc.0 as int));
    }

    pub fn remove(&mut self, pc: UnrootedNote)
        requires
            pc.0 < 16,
        ensures
            final(self)@ == old(self)@.remove(pc.0 as int),
            final(self).0 == old(self).0 & !(1u16 << (pc.0 as u16)),
    {
        let p: u16 = pc.0 as u16;
        let ghost m = self.0;
        self.0 = self.0 & !(1u16 << p);
        assert forall|q: int| #![auto] self@.contains(q) <==> old(self)@.remove(p as int).contains(q) by {
            if 0 <= q < 16 {
                lemma_clear_bit(m, p, q as u16);
            }
        }
        assert(self@ =~= old(self)@.remove(pc.0 as int));
    }
}

/// The sounding pitch class of string `note` in the key whose tonic is `transpose_pc`.
pub fn label_pitch_class(note: UnkeyedNote, transpose_pc: i16) -> (r: i16)
    ensures
        r as int == pc12(pc12(note.0 as int) + transpose_pc),
        0 <= r < 12,
{
    let sum: i32 = note.wrap_to_octave() as i32 + transpose_pc as i32;
    let shifted: i32 = sum + 36000;
    assert((sum + 36000) % 12 == sum % 12);
    (shifted % 12) as i16
}

/// Keys whose tonic is Db, Eb, F, Ab or Bb spell accidentals with flats.
pub open spec fn flat_key(key_pc: int) -> bool {
    let k = pc12(key_pc);
    k == 1 || k == 3 || k == 5 || k == 8 || k == 10
}

pub fn prefer_flats_for_key(key_pc: i16) -> (r: bool)
    ensures
        r == flat_key(key_pc as int),
{
    let k = rem12(key_pc);
    k == 1 || k == 3 || k == 5 || k == 8 || k == 10
}

/// Name of pitch class `pc` (0 = C) with sharps, or with flats when `flats`.
pub open spec fn pc_name(pc: int, flats: bool) -> Seq<char> {
    if pc == 0 {
        "C"@
    } else if pc == 1 {
        if flats { "Db"@ } else { "C#"@ }
    } else if pc == 2 {
        "D"@
    } else if pc == 3 {
        if flats { "Eb"@ } else { "D#"@ }
    } else if pc == 4 {
        "E"@
    } else if pc == 5 {
        "F"@
    } else if pc == 6 {
        if flats { "Gb"@ } else { "F#"@ }
    } else if pc == 7 {
        "G"@
    } else if pc == 8 {
        if flats { "Ab"@ } else { "G#"@ }
    } else if pc == 9 {
        "A"@
    } else if pc == 10 {
        if flats { "Bb"@ } else { "A#"@ }
    } else {
        "B"@
    }
}

/// Note names are one or two characters long.
pub proof fn lemma_pc_name_len(pc: int, flats: bool)
    ensures
        1 <= pc_name(pc, flats).len() <= 2,
{
    reveal_strlit("C");
    reveal_strlit("Db");
    reveal_strlit("C#");
    reveal_strlit("D");
    reveal_strlit("Eb");
    reveal_strlit("D#");
    reveal_strlit("E");
    reveal_strlit("F");
    reveal_strlit("Gb");
    reveal_strlit("F#");
    reveal_strlit("G");
    reveal_strlit("Ab");
    reveal_strlit("G#");
    reveal_strlit("A");
    reveal_strlit("Bb");
    reveal_strlit("A#");
    reveal_strlit("B");
}

/// The name of pitch class `pc`, spelled for the key `key_pc`.
pub fn pitch_class_label(pc: i16, key_pc: i16) -> (r: &'static str)
    ensures
        r@ == pc_name(pc12(pc as int), flat_key(key_pc as int)),
{
    let pc = rem12(pc);
    let flats = prefer_flats_for_key(key_pc);
    if pc == 0 {
        "C"
    } else if pc == 1 {
        if flats { "Db" } else { "C#" }
    } else if pc == 2 {
        "D"
    } else if pc == 3 {
        if flats { "Eb" } else { "D#" }
    } else if pc == 4 {
        "E"
    } else if pc == 5 {
        "F"
    } else if pc == 6 {
        if flats { "Gb" } else { "F#" }
    } else if pc == 7 {
        "G"
    } else if pc == 8 {
        if flats { "Ab" } else { "G#" }
    } else if pc == 9 {
        "A"
    } else if pc == 10 {
        if flats { "Bb" } else { "A#" }
    } else {
        "B"
    }
}

} // verus!
