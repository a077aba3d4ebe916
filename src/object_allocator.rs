//! Bounded slabs of instance records, addressed by generation-checked handles.

use vstd::prelude::*;

verus! {

/// A reference into an `ObjectAllocator`. Generation 0 marks the invalid handle.
#[derive(Clone, Copy, Debug, PartialEq, Eq, Structural, Hash)]
pub struct Handle {
    pub index: u32,
    pub generation: u32,
}

impl Handle {
    /// The invalid handle.
    pub fn new() -> (r: Handle)
        ensures
            r == (Handle { index: 0, generation: 0 }),
            !r.is_valid_spec(),
    {
        Handle { index: 0, generation: 0 }
    }

    pub open spec fn is_valid_spec(&self) -> bool {
        self.generation != 0
    }

    pub fn is_valid(&self) -> (r: bool)
        ensures
            r == self.is_valid_spec(),
    {
        self.generation != 0
    }

    /// Turns this handle into the invalid one.
    pub fn invalidate(&mut self)
        ensures
            !final(self).is_valid_spec(),
    {
        self.index = 0;
        self.generation = 0;
    }
}

/// Why an allocation failed.
#[derive(Clone, Copy, Debug, PartialEq, Eq, Structural)]
pub enum AllocError {
    /// The allocator already holds as many records as its limit allows.
    NoSpaceLeft,
}

/// A bounded slab of records. A handle stays valid until its record is removed; the
/// slot's generation then moves on, so the stale handle finds nothing.
pub struct ObjectAllocator<T> {
    slots: Vec<Option<T>>,
    generations: Vec<u32>,
    free: Vec<usize>,
    current: usize,
    limit: usize,
    held: Ghost<Set<Handle>>,
}

impl<T> ObjectAllocator<T> {
    /// Whether `h` names a record that is held.
    pub closed spec fn live(&self, h: Handle) -> bool {
        &&& h.generation != 0
        &&& (h.index as int) < self.slots@.len()
        &&& self.generations@[h.index as int] == h.generation
        &&& self.slots@[h.index as int] is Some
    }

    /// The records held, by handle.
    pub closed spec fn contents(&self) -> Map<Handle, T> {
        Map::new(|h: Handle| self.live(h), |h: Handle| self.slots@[h.index as int].unwrap())
    }

    /// How many records are held.
    pub closed spec fn count(&self) -> nat {
        self.current as nat
    }

    /// How many slots have ever been used.
    pub closed spec fn slot_count(&self) -> nat {
        self.slots@.len()
    }

    pub closed spec fn limit_spec(&self) -> nat {
        self.limit as nat
    }

    pub closed spec fn wf(&self) -> bool {
        &&& self.slots@.len() == self.generations@.len()
        &&& self.current <= self.limit
        &&& self.slots@.len() <= u32::MAX
        &&& forall|i: int| 0 <= i < self.generations@.len() ==> #[trigger] self.generations@[i] != 0
        &&& self.held@.finite()
        &&& self.held@.len() == self.current
        &&& forall|h: Handle| #[trigger] self.live(h) <==> self.held@.contains(h)
    }

    /// An empty allocator that holds at most `limit` records.
    pub fn new(limit: usize) -> (r: Self)
        ensures
            r.wf(),
            r.contents() == Map::<Handle, T>::empty(),
            r.count() == 0,
            r.limit_spec() == limit,
    {
        let r = ObjectAllocator {
            slots: Vec::new(),
            generations: Vec::new(),
            free: Vec::new(),
            current: 0,
            limit,
            held: Ghost(Set::empty()),
        };
        assert(r.contents() =~= Map::<Handle, T>::empty());
        r
    }

    pub fn get_limit(&self) -> (r: usize)
        ensures
            r == self.limit_spec(),
    {
        self.limit
    }

    pub fn get_count(&self) -> (r: usize)
        ensures
            r == self.count(),
    {
        self.current
    }

    fn left_space(&self) -> (r: usize)
        requires
            self.wf(),
        ensures
            r == self.limit_spec() - self.count(),
    {
        self.limit - self.current
    }

    /// Stores `value` and returns its handle; fails once the limit is reached.
    pub fn create(&mut self, value: T) -> (r: Result<Handle, AllocError>)
        requires
            old(self).wf(),
        ensures
            final(self).wf(),
            final(self).limit_spec() == old(self).limit_spec(),
            old(self).count() >= old(self).limit_spec() ==> r == Err::<Handle, AllocError>(AllocError::NoSpaceLeft)
                && final(self).contents() == old(self).contents() && final(self).count() == old(self).count(),
            old(self).count() < old(self).limit_spec() && old(self).slot_count() < u32::MAX ==> r is Ok,
            r matches Ok(h) ==> {
                &&& h.is_valid_spec()
                &&& !old(self).contents().dom().contains(h)
                &&& final(self).contents() == old(self).contents().insert(h, value)
                &&& final(self).count() == old(self).count() + 1
            },
            r is Err ==> final(self).contents() == old(self).contents() && final(self).count() == old(self).count(),
    {
        if self.left_space() == 0 {
            return Err(AllocError::NoSpaceLeft);
        }
        let mut reuse: Option<usize> = None;
        if let Some(i) = self.free.pop() {
            if i < self.slots.len() && self.slots[i].is_none() {
                reuse = Some(i);
            }
        }
        assert(forall|x: Handle| #[trigger] self.live(x) == old(self).live(x));
        match reuse {
            Some(i) => {
                let g = self.generations[i];
                if g == 0 {
                    return Err(AllocError::NoSpaceLeft);
                }
                let ghost before = self.contents();
                self.slots.set(i, Some(value));
                self.current = self.current + 1;
                let h = Handle { index: i as u32, generation: g };
                self.held = Ghost(self.held@.insert(h));
                proof {
                    assert(!before.dom().contains(h));
                    assert forall|x: Handle| self.live(x) == (old(self).live(x) || x == h) by {
                        if (x.index as int) < self.slots@.len() && x.index as int != i as int {
                            assert(self.slots@[x.index as int] == old(self).slots@[x.index as int]);
                        }
                    }
                    assert(self.contents() =~= before.insert(h, value));
                }
                Ok(h)
            },
            None => {
                if self.slots.len() >= u32::MAX as usize {
                    return Err(AllocError::NoSpaceLeft);
                }
                let i = self.slots.len();
                let ghost before = self.contents();
                self.slots.push(Some(value));
                self.generations.push(1);
                self.current = self.current + 1;
                assert(forall|j: int| 0 <= j < i ==> self.generations@[j] == old(self).generations@[j]);
                let h = Handle { index: i as u32, generation: 1 };
                self.held = Ghost(self.held@.insert(h));
                proof {
                    assert(!before.dom().contains(h));
                    assert forall|x: Handle| self.live(x) == (old(self).live(x) || x == h) by {
                        if (x.index as int) < i {
                            assert(self.slots@[x.index as int] == old(self).slots@[x.index as int]);
                            assert(self.generations@[x.index as int] == old(self).generations@[x.index as int]);
                        }
                    }
                    assert(self.contents() =~= before.insert(h, value));
                }
                Ok(h)
            },
        }
    }
    /// Removes the record of `h`, if it is held; its handle goes stale. True where a
    /// record was removed.
    pub fn remove(&mut self, h: Handle) -> (r: bool)
        requires
            old(self).wf(),
        ensures
            final(self).wf(),
            final(self).limit_spec() == old(self).limit_spec(),
            r == old(self).contents().dom().contains(h),
            r ==> final(self).contents() == old(self).contents().remove(h) && final(self).count() == old(self).count() - 1,
            !r ==> final(self).contents() == old(self).contents() && final(self).count() == old(self).count(),
    {
        if !self.is_live(h) {
            return false;
        }
        let i = h.index as usize;
        let ghost before = self.contents();
        self.slots.set(i, None);
        let g = self.generations[i];
        if g < u32::MAX {
            self.generations.set(i, g + 1);
            self.free.push(i);
        }
        assert(self.held@.contains(h));
        assert(self.held@.len() > 0) by {
            if self.held@.len() == 0 {
                self.held@.lemma_len0_is_empty();
            }
        }
        self.current = self.current - 1;
        self.held = Ghost(self.held@.remove(h));
        proof {
            assert forall|x: Handle| self.live(x) == (old(self).live(x) && x != h) by {
                if (x.index as int) < self.slots@.len() && x.index as int != i as int {
                    assert(self.slots@[x.index as int] == old(self).slots@[x.index as int]);
                    assert(self.generations@[x.index as int] == old(self).generations@[x.index as int]);
                }
            }
            assert(self.contents() =~= before.remove(h));
        }
        true
    }

    /// Whether `h` names a held record.
    pub fn is_live(&self, h: Handle) -> (r: bool)
        requires
            self.wf(),
        ensures
            r == self.contents().dom().contains(h),
    {
        let i = h.index as usize;
        h.generation != 0 && i < self.slots.len() && self.generations[i] == h.generation && self.slots[i].is_some()
    }

    /// The record of `h`, if it is held.
    pub fn get(&self, h: Handle) -> (r: Option<&T>)
        requires
            self.wf(),
        ensures
            self.contents().dom().contains(h) ==> r == Some(&self.contents()[h]),
            !self.contents().dom().contains(h) ==> r is None,
    {
        if !self.is_live(h) {
            return None;
        }
        match &self.slots[h.index as usize] {
            Some(v) => Some(v),
            None => None,
        }
    }

    /// Puts `value` in place of the record of `h` and returns the record it replaces;
    /// `None`, with nothing changed, where `h` names no held record.
    pub fn replace(&mut self, h: Handle, value: T) -> (r: Option<T>)
        requires
            old(self).wf(),
        ensures
            final(self).wf(),
            final(self).count() == old(self).count(),
            final(self).limit_spec() == old(self).limit_spec(),
            old(self).contents().dom().contains(h) ==> r == Some(old(self).contents()[h])
                && final(self).contents() == old(self).contents().insert(h, value),
            !old(self).contents().dom().contains(h) ==> r is None && final(self).contents() == old(self).contents(),
    {
        if !self.is_live(h) {
            return None;
        }
        let i = h.index as usize;
        let ghost before = self.contents();
        let mut slot = Some(value);
        std::mem::swap(&mut slot, &mut self.slots[i]);
        proof {
            assert forall|x: Handle| self.live(x) == old(self).live(x) by {
                if (x.index as int) < self.slots@.len() && x.index as int != i as int {
                    assert(self.slots@[x.index as int] == old(self).slots@[x.index as int]);
                }
            }
            assert(self.contents() =~= before.insert(h, value));
        }
        slot
    }
}

} // verus!
