//! Generation-checked arena: stable handles for bodies, colliders and joints.
//!
//! A slot that is freed has its generation bumped, so a handle taken before the
//! removal can never again resolve to a live entity: lookups through it fail
//! instead of aliasing a reused slot.

use vstd::prelude::*;

verus! {

use vstd::pervasive::VecAdditionalExecFns;

/// Opaque identifier of an arena entry: a slot index plus the generation the
/// slot had when the entry was inserted.
#[derive(Clone, Copy, PartialEq, Eq, Structural, Debug)]
pub struct Handle {
    pub index: usize,
    pub gen: u64,
}

pub struct Slot<T> {
    pub gen: u64,
    pub val: Option<T>,
}

pub struct Arena<T> {
    slots: Vec<Slot<T>>,
}

impl<T> Arena<T> {
    /// The arena as the sequence of its slots.
    pub closed spec fn view(&self) -> Seq<Slot<T>> {
        self.slots@
    }

    /// A handle resolves while its slot is occupied and the generations agree.
    /// The top generation is a retirement sentinel: a slot that reaches it is
    /// never handed out again, so no handle at that generation ever resolves.
    pub open spec fn valid(&self, h: Handle) -> bool {
        &&& h.index < self@.len()
        &&& self@[h.index as int].gen == h.gen
        &&& self@[h.index as int].val is Some
        &&& h.gen < u64::MAX
    }

    /// The entry a valid handle resolves to.
    pub open spec fn at(&self, h: Handle) -> T {
        self@[h.index as int].val->Some_0
    }

    /// The current generation of a slot; it never decreases over the arena's life.
    pub open spec fn gen_of(&self, i: int) -> int {
        self@[i].gen as int
    }

    pub fn new() -> (r: Arena<T>)
        ensures
            r@.len() == 0,
    {
        Arena { slots: Vec::new() }
    }

    pub fn slot_count(&self) -> (r: usize)
        ensures
            r == self@.len(),
    {
        self.slots.len()
    }

    /// Store a new entry, reusing a freed slot when one is still reusable,
    /// and hand back a handle that no earlier or later entry ever shares.
    pub fn insert(&mut self, value: T) -> (h: Handle)
        ensures
            final(self).valid(h),
            final(self).at(h) == value,
            !old(self).valid(h),
            // every live entry is kept, unchanged, under its old handle
            forall|g: Handle|
                old(self).valid(g) ==> final(self).valid(g) && final(self).at(g) == old(self).at(
                    g,
                ),
            // no handle springs to life other than the returned one
            forall|g: Handle| final(self).valid(g) && g != h ==> old(self).valid(g),
            // the new handle carries its slot's current generation
            h.index < old(self)@.len() ==> h.gen as int == old(self).gen_of(h.index as int),
            h.index >= old(self)@.len() ==> h.index == old(self)@.len(),
            // generations never decrease, and other slots are untouched
            h.index < old(self)@.len() ==> final(self)@.len() == old(self)@.len(),
            h.index >= old(self)@.len() ==> final(self)@.len() == old(self)@.len() + 1,
            final(self)@.len() >= old(self)@.len(),
            forall|i: int|
                0 <= i < old(self)@.len() && i != h.index ==> final(self)@[i] == old(self)@[i],
            forall|i: int|
                0 <= i < old(self)@.len() ==> final(self).gen_of(i) >= old(self).gen_of(i),
    {
        let n: usize = self.slots.len();
        let mut i: usize = 0;
        while i < n
            invariant
                n == self@.len(),
                i <= n,
                self == old(self),
                forall|j: int|
                    0 <= j < i ==> !(self@[j].val is None && self@[j].gen < u64::MAX),
            decreases n - i,
        {
            let reusable: bool = match &self.slots[i].val {
                Option::None => self.slots[i].gen < u64::MAX,
                Option::Some(_) => false,
            };
            if reusable {
                let g: u64 = self.slots[i].gen;
                self.slots.set(i, Slot { gen: g, val: Option::Some(value) });
                return Handle { index: i, gen: g };
            }
            i = i + 1;
        }
        self.slots.push(Slot { gen: 0, val: Option::Some(value) });
        Handle { index: n, gen: 0 }
    }

    pub fn get(&self, h: Handle) -> (r: Option<&T>)
        ensures
            self.valid(h) ==> r is Some && r->Some_0 == self.at(h),
            !self.valid(h) ==> r is None,
    {
        if h.index < self.slots.len() && h.gen < u64::MAX {
            let slot = &self.slots[h.index];
            if slot.gen == h.gen {
                match &slot.val {
                    Option::Some(v) => Option::Some(v),
                    Option::None => Option::None,
                }
            } else {
                Option::None
            }
        } else {
            Option::None
        }
    }

    /// Free the slot a handle points at and retire that handle for ever: the
    /// slot's generation is bumped, so the handle can never resolve again.
    pub fn remove(&mut self, h: Handle) -> (r: Option<T>)
        ensures
            !old(self).valid(h) ==> r is None && *final(self) == *old(self),
            old(self).valid(h) ==> {
                &&& r is Some && r->Some_0 == old(self).at(h)
                &&& !final(self).valid(h)
                &&& final(self)@[h.index as int].val is None
                &&& final(self).gen_of(h.index as int) > h.gen as int
                &&& forall|g: Handle|
                    g != h && old(self).valid(g) ==> final(self).valid(g) && final(self).at(g)
                        == old(self).at(g)
                &&& forall|g: Handle| final(self).valid(g) ==> old(self).valid(g)
                &&& final(self)@.len() == old(self)@.len()
                &&& forall|i: int|
                    0 <= i < final(self)@.len() && i != h.index ==> final(self)@[i] == old(
                        self,
                    )@[i]
                &&& forall|i: int|
                    0 <= i < final(self)@.len() ==> final(self).gen_of(i) >= old(self).gen_of(i)
            },
    {
        if h.index >= self.slots.len() || h.gen >= u64::MAX {
            return Option::None;
        }
        let g: u64 = self.slots[h.index].gen;
        if g != h.gen {
            return Option::None;
        }
        let occupied: bool = match &self.slots[h.index].val {
            Option::Some(_) => true,
            Option::None => false,
        };
        if !occupied {
            return Option::None;
        }
        // g == h.gen < u64::MAX, so the bump cannot overflow
        let mut fresh: Slot<T> = Slot { gen: g + 1, val: Option::None };
        self.slots.set_and_swap(h.index, &mut fresh);
        fresh.val
    }
}

impl<T: Copy> Arena<T> {
    /// Read the entry stored at a slot index, if the slot is occupied.
    pub fn read_at(&self, i: usize) -> (r: Option<T>)
        requires
            i < self@.len(),
        ensures
            r is Some <==> self@[i as int].val is Some,
            r is Some ==> r->Some_0 == self@[i as int].val->Some_0,
    {
        match &self.slots[i].val {
            Option::Some(v) => Option::Some(*v),
            Option::None => Option::None,
        }
    }

    /// Overwrite the entry at an occupied slot, keeping its generation, so
    /// every handle to it stays valid.
    pub fn write_at(&mut self, i: usize, value: T)
        requires
            i < old(self)@.len(),
            old(self)@[i as int].val is Some,
        ensures
            final(self)@ == old(self)@.update(
                i as int,
                Slot { gen: old(self)@[i as int].gen, val: Option::Some(value) },
            ),
    {
        let g: u64 = self.slots[i].gen;
        self.slots.set(i, Slot { gen: g, val: Option::Some(value) });
    }
}

impl<T> Arena<T> {
    /// The handle of the entry at a slot index, if the slot is occupied.
    pub fn handle_at(&self, i: usize) -> (r: Option<Handle>)
        requires
            i < self@.len(),
        ensures
            r is Some <==> (self@[i as int].val is Some && self@[i as int].gen < u64::MAX),
            r is Some ==> r->Some_0 == (Handle { index: i, gen: self@[i as int].gen })
                && self.valid(r->Some_0),
    {
        let g: u64 = self.slots[i].gen;
        let occupied: bool = match &self.slots[i].val {
            Option::Some(_) => true,
            Option::None => false,
        };
        if occupied && g < u64::MAX {
            Option::Some(Handle { index: i, gen: g })
        } else {
            Option::None
        }
    }
}

/// Law: a handle invalidated by `remove` is never resurrected by a later
/// `insert`. `a1` is `a0` after `remove(h)` and `a2` is `a1` after an `insert`
/// that returned `h2`, each described exactly by that operation's contract;
/// then the fresh handle differs from the removed one, and the removed one
/// still resolves to nothing.
pub proof fn lemma_removed_handle_never_aliases<T>(
    a0: Arena<T>,
    a1: Arena<T>,
    a2: Arena<T>,
    h: Handle,
    h2: Handle,
)
    requires
        a0.valid(h),
        // what `remove(h)` ensures of `a1`
        !a1.valid(h),
        a1.gen_of(h.index as int) > h.gen as int,
        a1@.len() == a0@.len(),
        // what `insert` ensures of `a2` and `h2`
        a2.valid(h2),
        !a1.valid(h2),
        h2.index < a1@.len() ==> h2.gen as int == a1.gen_of(h2.index as int),
        h2.index >= a1@.len() ==> h2.index == a1@.len(),
        forall|g: Handle| a2.valid(g) && g != h2 ==> a1.valid(g),
    ensures
        h2 != h,
        !a2.valid(h),
{
    assert(h.index < a1@.len());
    if h2 == h {
        assert(h2.gen as int == a1.gen_of(h.index as int));
        assert(false);
    }
    if a2.valid(h) {
        assert(a1.valid(h));
        assert(false);
    }
}

} // verus!
