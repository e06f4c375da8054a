//! The process-wide state of the toolkit, held in values the application
//! owns: the counter that gives each window its id, and the embedded static
//! folders by window id.

use vstd::prelude::*;
use std::collections::HashMap;

verus! {

broadcast use vstd::std_specs::hash::group_hash_axioms;

/// Gives out ids 0, 1, 2, ... one per call.
#[derive(Debug)]
pub struct IdCounter {
    next: usize,
}

impl View for IdCounter {
    type V = nat;

    /// The id the next call gives out.
    closed spec fn view(&self) -> nat {
        self.next as nat
    }
}

impl IdCounter {
    /// A counter that starts at 0.
    pub fn new() -> (r: Self)
        ensures
            r@ == 0,
    {
        IdCounter { next: 0 }
    }

    /// Whether another id can be given out (the count has not reached the
    /// largest `usize`).
    pub fn can_issue(&self) -> (b: bool)
        ensures
            b == (self@ < usize::MAX),
    {
        self.next < usize::MAX
    }

    /// Gives out the next id and counts it.
    pub fn issue(&mut self) -> (id: usize)
        requires
            old(self)@ < usize::MAX,
        ensures
            id == old(self)@,
            final(self)@ == old(self)@ + 1,
            id < final(self)@,
    {
        let id = self.next;
        self.next = self.next + 1;
        id
    }
}

/// No two ids that one counter gives out are the same. `issue` gives out
/// the state it finds and leaves the state one higher, and no other call
/// changes a counter, so its state never goes back: an id given out by a
/// later call, from a state at least as high as the one the earlier call
/// left, is larger than the earlier id.
pub proof fn lemma_issued_ids_distinct(
    before_first: IdCounter,
    first: usize,
    after_first: IdCounter,
    before_second: IdCounter,
    second: usize,
)
    requires
        first == before_first@,
        after_first@ == before_first@ + 1,
        before_second@ >= after_first@,
        second == before_second@,
    ensures
        second != first,
        second > first,
{
}

/// The static folders of the windows, by window id.
#[derive(Debug)]
pub struct DirRegistry<V> {
    dirs: HashMap<usize, V>,
}

impl<V> View for DirRegistry<V> {
    type V = Map<usize, V>;

    closed spec fn view(&self) -> Map<usize, V> {
        self.dirs@
    }
}

impl<V> DirRegistry<V> {
    /// A registry with no folders.
    pub fn new() -> (r: Self)
        ensures
            r@ == Map::<usize, V>::empty(),
    {
        DirRegistry { dirs: HashMap::new() }
    }

    /// Sets the folder of window `id`, replacing the one it had.
    pub fn insert(&mut self, id: usize, dir: V)
        ensures
            final(self)@ == old(self)@.insert(id, dir),
    {
        self.dirs.insert(id, dir);
    }

    /// Takes away the folder of window `id`, if it has one.
    pub fn remove(&mut self, id: usize)
        ensures
            final(self)@ == old(self)@.remove(id),
    {
        self.dirs.remove(&id);
    }

    /// The folder of window `id`, if it has one.
    pub fn get(&self, id: usize) -> (r: Option<&V>)
        ensures
            match r {
                Some(d) => self@.contains_key(id) && *d == self@[id],
                None => !self@.contains_key(id),
            },
    {
        self.dirs.get(&id)
    }
}

/// What one write to the registry does to reads: the folder just set is
/// read back, a folder just taken away is gone, and other windows keep theirs.
pub proof fn lemma_registry_read_after_write<V>(m: Map<usize, V>, id: usize, other: usize, dir: V)
    requires
        other != id,
    ensures
        m.insert(id, dir).contains_key(id),
        m.insert(id, dir)[id] == dir,
        !m.remove(id).contains_key(id),
        m.insert(id, dir).contains_key(other) == m.contains_key(other),
        m.remove(id).contains_key(other) == m.contains_key(other),
        m.contains_key(other) ==> m.insert(id, dir)[other] == m[other] && m.remove(id)[other]
            == m[other],
{
}

} // verus!
