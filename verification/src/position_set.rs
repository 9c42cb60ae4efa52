//! A set of board positions, kept in a standard hash set of integer keys.

use crate::minesweeper::Position;
use std::collections::HashSet;
use vstd::prelude::*;

verus! {

/// The integer under which a position is stored: the column in the upper
/// sixty-four bits, the row in the lower ones.
pub open spec fn key_of(p: Position) -> int {
    p.0 * 0x1_0000_0000_0000_0000 + p.1
}

/// Every key fits the stored integer type, and distinct positions have
/// distinct keys.
pub proof fn lemma_key_of_injective(p: Position, q: Position)
    ensures
        0 <= key_of(p) <= u128::MAX,
        key_of(p) == key_of(q) <==> p == q,
{
}

/// The positions whose keys are in `keys`.
pub open spec fn positions_of(keys: Set<u128>) -> Set<Position> {
    Set::new(|p: Position| keys.contains(key_of(p) as u128))
}

/// Adding the key of `p` adds `p` and nothing else.
proof fn lemma_positions_insert(keys: Set<u128>, p: Position)
    ensures
        positions_of(keys.insert(key_of(p) as u128)) == positions_of(keys).insert(p),
{
    assert forall|q: Position| key_of(q) as u128 == key_of(p) as u128 implies q == p by {
        lemma_key_of_injective(q, p);
    }
    assert(positions_of(keys.insert(key_of(p) as u128)) =~= positions_of(keys).insert(p));
}

/// Removing the key of `p` removes `p` and nothing else.
proof fn lemma_positions_remove(keys: Set<u128>, p: Position)
    ensures
        positions_of(keys.remove(key_of(p) as u128)) == positions_of(keys).remove(p),
{
    assert forall|q: Position| key_of(q) as u128 == key_of(p) as u128 implies q == p by {
        lemma_key_of_injective(q, p);
    }
    assert(positions_of(keys.remove(key_of(p) as u128)) =~= positions_of(keys).remove(p));
}

/// A finite set of positions.
///
/// Its view is the mathematical set of the positions it holds.
#[derive(Debug)]
pub struct PositionSet {
    keys: HashSet<u128>,
}

impl View for PositionSet {
    type V = Set<Position>;

    closed spec fn view(&self) -> Set<Position> {
        positions_of(self.keys@)
    }
}

impl PositionSet {
    /// The set holds finitely many positions, as many as the hash set holds
    /// keys.
    #[verifier::type_invariant]
    spec fn inv(&self) -> bool {
        &&& self.keys@.finite()
        &&& positions_of(self.keys@).finite()
        &&& positions_of(self.keys@).len() == self.keys@.len()
    }

    /// The key of `p` as the machine integer that the hash set stores.
    fn key(p: Position) -> (k: u128)
        ensures
            k == key_of(p),
    {
        (p.0 as u128) * 0x1_0000_0000_0000_0000u128 + (p.1 as u128)
    }

    /// Hands out the hash set and leaves this set empty, so that the hash
    /// set can be changed and put back.
    fn take_keys(&mut self) -> (keys: HashSet<u128>)
        ensures
            keys@ == old(self).keys@,
            keys@.finite(),
            positions_of(keys@).finite(),
            positions_of(keys@).len() == keys@.len(),
    {
        proof {
            use_type_invariant(&*self);
        }
        let mut taken = PositionSet::new();
        core::mem::swap(self, &mut taken);
        taken.keys
    }

    /// An empty set.
    pub fn new() -> (s: PositionSet)
        ensures
            s@ == Set::<Position>::empty(),
    {
        let keys: HashSet<u128> = HashSet::new();
        assert(positions_of(keys@) =~= Set::<Position>::empty());
        PositionSet { keys }
    }

    /// The number of positions in the set.
    pub fn len(&self) -> (n: usize)
        ensures
            self@.finite(),
            n == self@.len(),
    {
        proof {
            use_type_invariant(self);
        }
        self.keys.len()
    }

    /// Whether `p` is in the set.
    pub fn contains(&self, p: Position) -> (found: bool)
        ensures
            found == self@.contains(p),
    {
        let k = Self::key(p);
        self.keys.contains(&k)
    }

    /// Adds `p`; the result says whether `p` was absent before.
    pub fn insert(&mut self, p: Position) -> (fresh: bool)
        ensures
            final(self)@ == old(self)@.insert(p),
            fresh == !old(self)@.contains(p),
    {
        let k = Self::key(p);
        let mut keys = self.take_keys();
        let fresh = keys.insert(k);
        proof {
            lemma_positions_insert(old(self).keys@, p);
        }
        self.keys = keys;
        fresh
    }

    /// Removes `p`; the result says whether `p` was present before.
    pub fn remove(&mut self, p: Position) -> (found: bool)
        ensures
            final(self)@ == old(self)@.remove(p),
            found == old(self)@.contains(p),
    {
        let k = Self::key(p);
        let mut keys = self.take_keys();
        let found = keys.remove(&k);
        proof {
            lemma_positions_remove(old(self).keys@, p);
        }
        self.keys = keys;
        found
    }
}

} // verus!
