//! The table of live sessions, addressed by small positive handles. Handles
//! come from a counter and are never issued twice, so a handle kept past
//! `remove` can never reach a later session.

use std::collections::HashMap;
use vstd::prelude::*;

verus! {

broadcast use vstd::std_specs::hash::group_hash_axioms;

/// The largest handle issued: handles cross the call surface as positive `i32`.
pub const MAX_HANDLE: u32 = 0x7fff_ffff;

pub struct Registry<T> {
    slots: HashMap<u32, T>,
    next: u32,
}

impl<T> Registry<T> {
    /// The sessions held, by handle.
    pub closed spec fn slots(&self) -> Map<u32, T> {
        self.slots@
    }

    /// The handle that the next `store` issues.
    pub closed spec fn next_handle(&self) -> nat {
        self.next as nat
    }

    /// Well formed: every live handle lies in `1 .. next_handle()`, and
    /// `next_handle()` is at least 1 and at most one past `MAX_HANDLE`.
    pub open spec fn wf(&self) -> bool {
        &&& 1 <= self.next_handle() <= MAX_HANDLE as nat + 1
        &&& forall|k: u32| #[trigger] self.slots().contains_key(k) ==> 1 <= k && (k as nat) < self.next_handle()
    }

    /// An empty table whose first handle is 1.
    pub fn new() -> (r: Registry<T>)
        ensures
            r.wf(),
            r.slots() == Map::<u32, T>::empty(),
            r.next_handle() == 1,
    {
        Registry { slots: HashMap::new(), next: 1 }
    }

    /// Stores `item` under a fresh handle and returns it, or returns `None`
    /// and keeps the table as it is once every handle has been issued.
    pub fn store(&mut self, item: T) -> (r: Option<u32>)
        requires
            old(self).wf(),
        ensures
            final(self).wf(),
            old(self).next_handle() <= MAX_HANDLE ==> {
                &&& r == Some(old(self).next_handle() as u32)
                &&& !old(self).slots().contains_key(old(self).next_handle() as u32)
                &&& final(self).slots() == old(self).slots().insert(old(self).next_handle() as u32, item)
                &&& final(self).next_handle() == old(self).next_handle() + 1
            },
            old(self).next_handle() > MAX_HANDLE ==> r is None && final(self).slots() == old(self).slots()
                && final(self).next_handle() == old(self).next_handle(),
    {
        if self.next > MAX_HANDLE {
            return None;
        }
        let id = self.next;
        self.slots.insert(id, item);
        self.next = self.next + 1;
        assert forall|k: u32| #[trigger] self.slots().contains_key(k) implies 1 <= k && (k as nat)
            < self.next_handle() by {
            if k != id {
                assert(old(self).slots().contains_key(k));
            }
        }
        Some(id)
    }

    /// The session under `id`, if one is held.
    pub fn get(&self, id: u32) -> (r: Option<&T>)
        ensures
            self.slots().contains_key(id) ==> r == Some(&self.slots()[id]),
            !self.slots().contains_key(id) ==> r is None,
    {
        self.slots.get(&id)
    }

    /// Takes the session under `id` out of the table, if one is held.
    pub fn remove(&mut self, id: u32) -> (r: Option<T>)
        requires
            old(self).wf(),
        ensures
            final(self).wf(),
            old(self).slots().contains_key(id) ==> r == Some(old(self).slots()[id]),
            !old(self).slots().contains_key(id) ==> r is None,
            final(self).slots() == old(self).slots().remove(id),
            final(self).next_handle() == old(self).next_handle(),
    {
        let r = self.slots.remove(&id);
        assert forall|k: u32| #[trigger] self.slots().contains_key(k) implies 1 <= k && (k as nat)
            < self.next_handle() by {
            assert(old(self).slots().contains_key(k));
        }
        r
    }
}

} // verus!
