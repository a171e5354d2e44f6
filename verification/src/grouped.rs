//! Items in lists, one list for each GUID.

use std::collections::HashMap;
use vstd::prelude::*;
use vstd::std_specs::hash::*;

verus! {

/// Lists of items by GUID.
#[derive(Debug)]
pub struct Grouped<V> {
    lists: HashMap<u32, Vec<V>>,
}

impl<V> Grouped<V> {
    /// The items of a GUID, in the order in which they came.
    pub closed spec fn items(&self, guid: u32) -> Seq<V> {
        if self.lists@.contains_key(guid) {
            self.lists@[guid]@
        } else {
            Seq::empty()
        }
    }

    /// No lists.
    pub fn new() -> (groups: Self)
        ensures
            forall|guid: u32| (#[trigger] groups.items(guid)) == Seq::<V>::empty(),
    {
        broadcast use group_hash_axioms;

        Grouped { lists: HashMap::new() }
    }

    /// Puts an item behind those of a GUID.
    pub fn push(&mut self, guid: u32, item: V)
        ensures
            forall|other: u32| #[trigger]
                final(self).items(other) == (if other == guid {
                    old(self).items(guid).push(item)
                } else {
                    old(self).items(other)
                }),
    {
        broadcast use group_hash_axioms;

        let mut list: Vec<V> = match self.lists.remove(&guid) {
            Some(list) => list,
            None => Vec::new(),
        };
        list.push(item);
        self.lists.insert(guid, list);
    }

    /// Takes the items of a GUID out.
    pub fn take(&mut self, guid: u32) -> (list: Vec<V>)
        ensures
            list@ == old(self).items(guid),
            forall|other: u32| #[trigger]
                final(self).items(other) == (if other == guid {
                    Seq::empty()
                } else {
                    old(self).items(other)
                }),
    {
        broadcast use group_hash_axioms;

        match self.lists.remove(&guid) {
            Some(list) => list,
            None => Vec::new(),
        }
    }

    /// The items of a GUID, if it has any list.
    pub fn get(&self, guid: u32) -> (list: Option<&Vec<V>>)
        ensures
            match list {
                Some(l) => l@ == self.items(guid),
                None => self.items(guid) == Seq::<V>::empty(),
            },
    {
        broadcast use group_hash_axioms;

        self.lists.get(&guid)
    }
}

} // verus!
