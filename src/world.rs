use vstd::prelude::*;

use crate::component::{no_components, Components, Entity};

verus! {

/// One place of the arena. A slot that is not `alive` holds no entity;
/// `marked` records a pending deletion, which takes effect only at
/// `World::flush_deletions`.
#[derive(Clone, Debug)]
pub struct Slot {
    pub generation: u64,
    pub alive: bool,
    pub marked: bool,
    pub data: Components,
}

/// A dead slot may be handed out again while its generation can still grow,
/// so that no handle of an earlier entity matches the new one.
pub open spec fn reusable(s: Slot) -> bool {
    !s.alive && s.generation < u64::MAX
}

/// The arena after `data` has been placed as a live entity of generation
/// `g` in slot `i`: a slot of the arena, or a new one at its end.
pub open spec fn placed(w: Seq<Slot>, i: int, g: u64, data: Components) -> Seq<Slot> {
    let s = Slot { generation: g, alive: true, marked: false, data };
    if i == w.len() {
        w.push(s)
    } else {
        w.update(i, s)
    }
}

/// `w1` is `w0` with one more entity, `e`, placed in a reusable slot or in
/// a new one at the end; every other slot is as it was.
pub open spec fn spawned(w0: Seq<Slot>, w1: Seq<Slot>, e: Entity) -> bool {
    &&& e.index <= w0.len()
    &&& e.index < w0.len() ==> reusable(w0[e.index as int]) && e.generation == w0[e.index as int].generation
    &&& e.index == w0.len() ==> e.generation == 0
    &&& w1 == placed(w0, e.index as int, e.generation, w1[e.index as int].data)
}

/// What the flush does to one slot: a marked entity is removed with its
/// components, and the generation moves on so that its handles go stale.
pub open spec fn flushed(s: Slot) -> Slot {
    if s.marked {
        Slot {
            generation: if s.generation < u64::MAX {
                (s.generation + 1) as u64
            } else {
                s.generation
            },
            alive: false,
            marked: false,
            data: no_components(),
        }
    } else {
        s
    }
}

/// The whole store after the flush.
pub open spec fn flush_all(w: Seq<Slot>) -> Seq<Slot> {
    Seq::new(w.len(), |i: int| flushed(w[i]))
}

/// `e` names the entity that lives in its slot now.
pub open spec fn live_in(w: Seq<Slot>, e: Entity) -> bool {
    e.index < w.len() && w[e.index as int].alive && w[e.index as int].generation == e.generation
}

/// The handle of the entity in slot `i`.
pub open spec fn handle_of(w: Seq<Slot>, i: int) -> Entity {
    Entity { index: i as usize, generation: w[i].generation }
}

/// The entity/component store: an arena of slots, each holding the
/// components of at most one entity, addressed by generation-checked handles.
pub struct World {
    slots: Vec<Slot>,
}

impl View for World {
    type V = Seq<Slot>;

    closed spec fn view(&self) -> Seq<Slot> {
        self.slots@
    }
}

impl World {
    pub fn new() -> (r: World)
        ensures
            r@ == Seq::<Slot>::empty(),
    {
        World { slots: Vec::new() }
    }

    pub open spec fn contains(&self, e: Entity) -> bool {
        live_in(self@, e)
    }

    /// The number of slots, live or not.
    pub fn len(&self) -> (r: usize)
        ensures
            r == self@.len(),
    {
        self.slots.len()
    }

    pub fn slot(&self, i: usize) -> (r: &Slot)
        requires
            i < self@.len(),
        ensures
            *r == self@[i as int],
    {
        &self.slots[i]
    }

    pub fn entity_at(&self, i: usize) -> (r: Entity)
        requires
            i < self@.len(),
        ensures
            r == handle_of(self@, i as int),
    {
        Entity { index: i, generation: self.slots[i].generation }
    }

    /// Reads the components of `e`; `None` when `e` is not alive.
    pub fn get(&self, e: Entity) -> (r: Option<&Components>)
        ensures
            r matches Some(c) ==> self.contains(e) && *c == self@[e.index as int].data,
            r is None ==> !self.contains(e),
    {
        if e.index < self.slots.len() && self.slots[e.index].alive
            && self.slots[e.index].generation == e.generation {
            Some(&self.slots[e.index].data)
        } else {
            None
        }
    }

    /// Lends the components of slot `i` for a change in place; nothing else
    /// of the store moves.
    pub fn data_mut(&mut self, i: usize) -> (r: &mut Components)
        requires
            i < old(self)@.len(),
        ensures
            *r == old(self)@[i as int].data,
            final(self)@ == old(self)@.update(
                i as int,
                Slot { data: *final(r), ..old(self)@[i as int] },
            ),
    {
        &mut self.slots[i].data
    }

    /// Creates an entity holding `data`, in the first reusable slot or else
    /// in a new slot at the end.
    pub fn create_entity(&mut self, data: Components) -> (r: Entity)
        requires
            old(self)@.len() < usize::MAX,
        ensures
            !live_in(old(self)@, r),
            live_in(final(self)@, r),
            spawned(old(self)@, final(self)@, r),
            final(self)@[r.index as int].data == data,
    {
        let n = self.slots.len();
        let mut i: usize = 0;
        while i < n
            invariant
                n == self.slots@.len(),
                self@ == old(self)@,
                i <= n,
                forall|j: int| 0 <= j < i ==> !reusable(#[trigger] self.slots@[j]),
            decreases n - i,
        {
            if !self.slots[i].alive && self.slots[i].generation < u64::MAX {
                let g = self.slots[i].generation;
                self.slots.set(i, Slot { generation: g, alive: true, marked: false, data });
                return Entity { index: i, generation: g };
            }
            i = i + 1;
        }
        self.slots.push(Slot { generation: 0, alive: true, marked: false, data });
        Entity { index: n, generation: 0 }
    }

    /// Records that `e` is to be removed at the next flush. A handle that no
    /// longer names a live entity is ignored, and marking twice is harmless.
    pub fn mark_for_deletion(&mut self, e: Entity)
        ensures
            live_in(old(self)@, e) ==> final(self)@ == old(self)@.update(
                e.index as int,
                Slot { marked: true, ..old(self)@[e.index as int] },
            ),
            !live_in(old(self)@, e) ==> final(self)@ == old(self)@,
    {
        if e.index < self.slots.len() && self.slots[e.index].alive
            && self.slots[e.index].generation == e.generation {
            self.mark_at(e.index);
        }
    }

    /// Marks the entity in slot `i` for deletion.
    pub fn mark_at(&mut self, i: usize)
        requires
            i < old(self)@.len(),
            old(self)@[i as int].alive,
        ensures
            final(self)@ == old(self)@.update(i as int, Slot { marked: true, ..old(self)@[i as int] }),
    {
        self.slots[i].marked = true;
    }

    /// Removes every marked entity with all its components, in one pass.
    pub fn flush_deletions(&mut self)
        ensures
            final(self)@.len() == old(self)@.len(),
            forall|i: int|
                0 <= i < old(self)@.len() ==> #[trigger] final(self)@[i] == flushed(old(self)@[i]),
    {
        let n = self.slots.len();
        let mut i: usize = 0;
        while i < n
            invariant
                n == old(self)@.len(),
                self@.len() == n,
                i <= n,
                forall|j: int| 0 <= j < i ==> #[trigger] self@[j] == flushed(old(self)@[j]),
                forall|j: int| i <= j < n ==> #[trigger] self@[j] == old(self)@[j],
            decreases n - i,
        {
            if self.slots[i].marked {
                let g = self.slots[i].generation;
                let g2 = if g < u64::MAX {
                    g + 1
                } else {
                    g
                };
                self.slots.set(
                    i,
                    Slot { generation: g2, alive: false, marked: false, data: Components::empty() },
                );
            }
            i = i + 1;
        }
    }

    /// Marks every live entity for deletion and flushes: the store is left
    /// with no live entity.
    pub fn clear(&mut self)
        ensures
            final(self)@.len() == old(self)@.len(),
            forall|i: int| 0 <= i < final(self)@.len() ==> !(#[trigger] final(self)@[i]).alive,
    {
        let n = self.slots.len();
        let mut i: usize = 0;
        while i < n
            invariant
                n == self@.len(),
                i <= n,
                forall|j: int| 0 <= j < i ==> (#[trigger] self@[j]).alive ==> self@[j].marked,
            decreases n - i,
        {
            if self.slots[i].alive {
                self.slots[i].marked = true;
            }
            i = i + 1;
        }
        self.flush_deletions();
    }
}

} // verus!
