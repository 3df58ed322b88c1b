//! A set of sounding notes, kept in a hash set of note numbers.
use crate::notes::UnmidiNote;
use std::collections::HashSet;
use vstd::std_specs::iter::IteratorSpec;
use vstd::prelude::*;

verus! {

/// A finite set of notes.
#[derive(Debug)]
pub struct NoteSet {
    notes: HashSet<i16>,
}

/// The notes of a set of note numbers.
pub open spec fn notes_of(s: Set<i16>) -> Set<UnmidiNote> {
    s.map(|k: i16| UnmidiNote(k))
}

proof fn lemma_notes_of_contains(s: Set<i16>, n: UnmidiNote)
    ensures
        notes_of(s).contains(n) == s.contains(n.0),
{
    if s.contains(n.0) {
        assert(notes_of(s).contains(UnmidiNote(n.0)));
    }
}

impl NoteSet {
    /// The notes in the set.
    pub closed spec fn view(&self) -> Set<UnmidiNote> {
        notes_of(self.notes@)
    }

    pub fn new() -> (r: NoteSet)
        ensures
            r@ == Set::<UnmidiNote>::empty(),
    {
        let r = NoteSet { notes: HashSet::new() };
        assert(notes_of(r.notes@) =~= Set::<UnmidiNote>::empty());
        r
    }

    pub fn contains(&self, note: &UnmidiNote) -> (r: bool)
        ensures
            r == self@.contains(*note),
    {
        proof {
            lemma_notes_of_contains(self.notes@, *note);
        }
        self.notes.contains(&note.0)
    }

    /// Add `note`; true when it was not there before.
    pub fn insert(&mut self, note: UnmidiNote) -> (r: bool)
        ensures
            final(self)@ == old(self)@.insert(note),
            r == !old(self)@.contains(note),
    {
        proof {
            lemma_notes_of_contains(self.notes@, note);
        }
        let r = self.notes.insert(note.0);
        proof {
            assert forall|n: UnmidiNote| notes_of(self.notes@).contains(n) == old(self)@.insert(note).contains(n) by {
                lemma_notes_of_contains(self.notes@, n);
                lemma_notes_of_contains(old(self).notes@, n);
            }
            assert(notes_of(self.notes@) =~= old(self)@.insert(note));
        }
        r
    }

    /// Remove `note`; true when it was there before.
    pub fn remove(&mut self, note: &UnmidiNote) -> (r: bool)
        ensures
            final(self)@ == old(self)@.remove(*note),
            r == old(self)@.contains(*note),
    {
        proof {
            lemma_notes_of_contains(self.notes@, *note);
        }
        let r = self.notes.remove(&note.0);
        proof {
            assert forall|n: UnmidiNote| notes_of(self.notes@).contains(n) == old(self)@.remove(*note).contains(n) by {
                lemma_notes_of_contains(self.notes@, n);
                lemma_notes_of_contains(old(self).notes@, n);
            }
            assert(notes_of(self.notes@) =~= old(self)@.remove(*note));
        }
        r
    }

    pub fn len(&self) -> (r: usize)
        ensures
            r == self@.len(),
    {
        proof {
            self.lemma_view_len();
        }
        self.notes.len()
    }

    proof fn lemma_view_len(&self)
        ensures
            self@.len() == self.notes@.len(),
            self.notes@.finite(),
    {
        let keys = vstd::std_specs::hash::spec_hash_keys_iter(&self.notes).remaining();
        assert(keys.unref().to_set() == self.notes@);
        vstd::seq_lib::seq_to_set_is_finite(keys.unref());
        vstd::set_lib::lemma_map_size(self.notes@, self@, |k: i16| UnmidiNote(k));
    }

    pub fn is_empty(&self) -> (r: bool)
        ensures
            r == (self@ == Set::<UnmidiNote>::empty()),
    {
        let r = self.notes.is_empty();
        proof {
            if r {
                assert(notes_of(self.notes@) =~= Set::<UnmidiNote>::empty());
            } else {
                let k = self.notes@.choose();
                lemma_notes_of_contains(self.notes@, UnmidiNote(k));
                assert(self@.contains(UnmidiNote(k)));
            }
        }
        r
    }

    pub fn clear(&mut self)
        ensures
            final(self)@ == Set::<UnmidiNote>::empty(),
    {
        self.notes.clear();
        assert(notes_of(self.notes@) =~= Set::<UnmidiNote>::empty());
    }

    /// The notes, each once, in an unspecified order.
    pub fn to_vec(&self) -> (r: Vec<UnmidiNote>)
        ensures
            r@.to_set() == self@,
            r@.no_duplicates(),
    {
        let ghost keys = vstd::std_specs::hash::spec_hash_keys_iter(&self.notes).remaining().unref();
        let mut out: Vec<UnmidiNote> = Vec::new();
        for k in it: self.notes.iter()
            invariant
                keys == it.seq().unref(),
                out@.len() == it.index(),
                forall|j: int| 0 <= j < it.index() ==> out@[j] == UnmidiNote(keys[j]),
        {
            out.push(UnmidiNote(*k));
        }
        proof {
            let rem = vstd::std_specs::hash::spec_hash_keys_iter(&self.notes).remaining();
            assert(rem.unref().to_set() == self.notes@);
            assert(rem.no_duplicates());
            assert forall|a: int, b: int| 0 <= a < out@.len() && 0 <= b < out@.len() && a != b implies out@[a]
                != out@[b] by {
                assert(rem[a] != rem[b]);
            }
            assert forall|n: UnmidiNote| out@.to_set().contains(n) == self@.contains(n) by {
                lemma_notes_of_contains(self.notes@, n);
                if out@.contains(n) {
                    let j = choose|j: int| 0 <= j < out@.len() && out@[j] == n;
                    assert(keys.contains(keys[j]));
                }
                if self.notes@.contains(n.0) {
                    assert(keys.to_set().contains(n.0));
                    let j = choose|j: int| 0 <= j < keys.len() && keys[j] == n.0;
                    assert(out@[j] == n);
                }
            }
            assert(out@.to_set() =~= self@);
        }
        out
    }
}

} // verus!
