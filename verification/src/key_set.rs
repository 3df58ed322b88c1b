//! Sets of held buttons, kept in a hash set of button indices.
use std::collections::HashSet;
use vstd::prelude::*;

verus! {

/// A set of button indices below 16.
#[derive(Debug)]
pub struct KeySet {
    keys: HashSet<u8>,
}

impl KeySet {
    #[verifier::type_invariant]
    spec fn inv(self) -> bool {
        forall|k: u8| self.keys@.contains(k) ==> k < 16
    }

    /// The indices in the set.
    pub closed spec fn view(self) -> Set<int> {
        Set::new(|i: int| 0 <= i < 16 && self.keys@.contains(i as u8))
    }

    pub fn new() -> (r: KeySet)
        ensures
            r@ == Set::<int>::empty(),
    {
        let r = KeySet { keys: HashSet::new() };
        assert(r@ =~= Set::<int>::empty());
        r
    }

    pub fn contains(&self, i: u8) -> (r: bool)
        requires
            i < 16,
        ensures
            r == self@.contains(i as int),
    {
        self.keys.contains(&i)
    }

    pub fn is_empty(&self) -> (r: bool)
        ensures
            r == (self@ == Set::<int>::empty()),
    {
        proof {
            use_type_invariant(self);
        }
        let r = self.keys.is_empty();
        proof {
            if r {
                assert(self@ =~= Set::<int>::empty());
            } else {
                let k = self.keys@.choose();
                assert(self.keys@.contains(k));
                assert(self@.contains(k as int));
            }
        }
        r
    }

    /// Add `i`; true when it was not there before.
    pub fn insert(&mut self, i: u8) -> (r: bool)
        requires
            i < 16,
        ensures
            final(self)@ == old(self)@.insert(i as int),
            r == !old(self)@.contains(i as int),
    {
        proof {
            use_type_invariant(&*self);
        }
        let mut keys = HashSet::new();
        std::mem::swap(&mut keys, &mut self.keys);
        let r = keys.insert(i);
        *self = KeySet { keys };
        assert(self@ =~= old(self)@.insert(i as int));
        r
    }

    /// Remove `i`; true when it was there before.
    pub fn remove(&mut self, i: u8) -> (r: bool)
        requires
            i < 16,
        ensures
            final(self)@ == old(self)@.remove(i as int),
            r == old(self)@.contains(i as int),
    {
        proof {
            use_type_invariant(&*self);
        }
        let mut keys = HashSet::new();
        std::mem::swap(&mut keys, &mut self.keys);
        let r = keys.remove(&i);
        proof {
            assert forall|k: u8| keys@.contains(k) ==> k < 16 by {
                if keys@.contains(k) {
                    assert(old(self).keys@.contains(k));
                }
            }
        }
        *self = KeySet { keys };
        assert(self@ =~= old(self)@.remove(i as int));
        r
    }
}

} // verus!
