use vstd::prelude::*;
use std::collections::HashMap;

verus! {

broadcast use vstd::std_specs::hash::group_hash_axioms;

/// A mapping from a scene character to the template of the block it stands
/// for. Characters are keyed by their code point.
pub struct Palette<T> {
    map: HashMap<u32, T>,
}

impl<T> Palette<T> {
    /// The templates, keyed by the code point of their character.
    pub closed spec fn entries(&self) -> Map<u32, T> {
        self.map@
    }

    pub open spec fn has(&self, ch: char) -> bool {
        self.entries().contains_key(ch as u32)
    }

    pub fn new() -> (p: Palette<T>)
        ensures
            p.entries() == Map::<u32, T>::empty(),
    {
        Palette { map: HashMap::new() }
    }

    /// Binds `ch` to `tpl`, replacing any earlier binding of `ch`.
    pub fn set(&mut self, ch: char, tpl: T)
        ensures
            final(self).entries() == old(self).entries().insert(ch as u32, tpl),
    {
        self.map.insert(ch as u32, tpl);
    }

    /// The template bound to `ch`, if any.
    pub fn get(&self, ch: char) -> (r: Option<&T>)
        ensures
            r.is_some() <==> self.has(ch),
            r.is_some() ==> *r.unwrap() == self.entries()[ch as u32],
    {
        self.map.get(&(ch as u32))
    }

    pub fn contains(&self, ch: char) -> (r: bool)
        ensures
            r == self.has(ch),
    {
        self.map.contains_key(&(ch as u32))
    }
}

} // verus!
