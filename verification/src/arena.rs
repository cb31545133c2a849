//! Slots that are handed out, given back and handed out again, and the
//! references that tell one tenant of a slot from the next.

use vstd::prelude::*;

verus! {

/// The identity of an entity: the slot it lives in and the generation of
/// that slot at the time it moved in. A reference whose generation is not
/// the slot's current one is stale.
#[derive(Clone, Copy, Debug, PartialEq, Eq, Hash, Structural)]
pub struct EntityReference {
    pub index: usize,
    pub generation: u64,
}

/// One slot: the generation of its current or next tenant, and the tenant.
pub struct Slot<T> {
    pub generation: u64,
    pub value: Option<T>,
}

/// The generation of a slot after its tenant left. A slot at the last
/// generation stays there, and is not handed out again.
pub open spec fn bumped(generation: u64) -> u64 {
    if generation < u64::MAX {
        (generation + 1) as u64
    } else {
        generation
    }
}

/// The mathematical state of an arena.
pub struct ArenaModel<T> {
    /// The slots, by index.
    pub slots: Seq<Slot<T>>,
    /// The indices of the empty slots that can be handed out again, the next
    /// one last.
    pub free: Seq<usize>,
}

impl<T> ArenaModel<T> {
    /// The invariant: the slots can be counted in a machine word, each free
    /// index names an empty slot, and none occurs twice.
    pub open spec fn wf(self) -> bool {
        &&& self.slots.len() <= usize::MAX
        &&& forall|j: int|
            0 <= j < self.free.len() ==> (#[trigger] self.free[j]) < self.slots.len()
                && self.slots[self.free[j] as int].value is None
        &&& forall|j: int, k: int|
            0 <= j < k < self.free.len() ==> #[trigger] self.free[j] != #[trigger] self.free[k]
    }

    /// An arena without slots.
    pub open spec fn empty() -> Self {
        ArenaModel { slots: Seq::empty(), free: Seq::empty() }
    }

    /// Whether `r` names the current tenant of its slot.
    pub open spec fn live(self, r: EntityReference) -> bool {
        &&& r.index < self.slots.len()
        &&& self.slots[r.index as int].generation == r.generation
        &&& self.slots[r.index as int].value is Some
    }

    /// The entity that `r` names, if it is live.
    pub open spec fn get(self, r: EntityReference) -> Option<T> {
        if self.live(r) {
            self.slots[r.index as int].value
        } else {
            None
        }
    }

    /// The reference that the next entity to move in gets: the free slot
    /// given back last, or else a new slot at generation 0.
    pub open spec fn next(self) -> EntityReference {
        if self.free.len() > 0 {
            EntityReference {
                index: self.free.last(),
                generation: self.slots[self.free.last() as int].generation,
            }
        } else {
            EntityReference { index: self.slots.len() as usize, generation: 0 }
        }
    }

    /// Whether the arena has no slot left to hand out: none is free, and
    /// the machine's word cannot count one more. No arena in memory is full.
    pub open spec fn full(self) -> bool {
        self.free.len() == 0 && self.slots.len() >= usize::MAX
    }

    /// The arena after `value` moved in under the reference `self.next()`.
    /// A full arena stays as it is.
    pub open spec fn insert(self, value: T) -> Self {
        let r = self.next();
        let slot = Slot { generation: r.generation, value: Some(value) };
        if self.full() {
            self
        } else if self.free.len() > 0 {
            ArenaModel { slots: self.slots.update(r.index as int, slot), free: self.free.drop_last() }
        } else {
            ArenaModel { slots: self.slots.push(slot), free: self.free }
        }
    }

    /// The arena after the entity that `r` names was replaced by `value`; a
    /// stale reference changes nothing.
    pub open spec fn update(self, r: EntityReference, value: T) -> Self {
        if self.live(r) {
            ArenaModel {
                slots: self.slots.update(
                    r.index as int,
                    Slot { generation: r.generation, value: Some(value) },
                ),
                ..self
            }
        } else {
            self
        }
    }

    /// The arena after the tenant of slot `index` left, if it had one: the
    /// slot moves on to its next generation and, unless that was the last,
    /// becomes free.
    pub open spec fn vacate(self, index: int) -> Self {
        if 0 <= index < self.slots.len() && self.slots[index].value is Some {
            let generation = self.slots[index].generation;
            ArenaModel {
                slots: self.slots.update(
                    index,
                    Slot { generation: bumped(generation), value: None },
                ),
                free: if generation < u64::MAX {
                    self.free.push(index as usize)
                } else {
                    self.free
                },
            }
        } else {
            self
        }
    }

    /// The arena after the entity that `r` names left; a stale reference
    /// changes nothing.
    pub open spec fn remove(self, r: EntityReference) -> Self {
        if self.live(r) {
            self.vacate(r.index as int)
        } else {
            self
        }
    }

    /// The arena after the tenants of the slots below `n` left, lowest
    /// index first.
    pub open spec fn vacate_below(self, n: nat) -> Self
        decreases n,
    {
        if n == 0 {
            self
        } else {
            self.vacate_below((n - 1) as nat).vacate(n - 1)
        }
    }

    /// The arena after every tenant left.
    pub open spec fn clear(self) -> Self {
        self.vacate_below(self.slots.len())
    }

    /// The tenants by slot, each with the generation under which it moved
    /// in.
    pub open spec fn tenants(self) -> Seq<Option<(u64, T)>> {
        Seq::new(
            self.slots.len(),
            |i: int|
                match self.slots[i].value {
                    Some(value) => Some((self.slots[i].generation, value)),
                    None => None,
                },
        )
    }

    /// The next entity moves into a slot without a tenant, under the
    /// generation of the reference it gets, and no other slot changes.
    pub proof fn lemma_insert(self, value: T)
        requires
            self.wf(),
            !self.full(),
        ensures
            self.insert(value).wf(),
            !self.live(self.next()),
            self.next().index < usize::MAX,
            self.next().index == self.slots.len() || (self.next().index < self.slots.len()
                && self.tenants()[self.next().index as int] is None),
            self.insert(value).tenants() == (if self.next().index == self.slots.len() {
                self.tenants().push(Some((self.next().generation, value)))
            } else {
                self.tenants().update(
                    self.next().index as int,
                    Some((self.next().generation, value)),
                )
            }),
    {
        let after = self.insert(value);
        if self.free.len() > 0 {
            assert(self.slots[self.free[self.free.len() - 1] as int].value is None);
            assert forall|j: int| 0 <= j < after.free.len() implies (#[trigger] after.free[j])
                < after.slots.len() && after.slots[after.free[j] as int].value is None by {
                assert(self.free[j] == after.free[j]);
                assert(self.free[j] != self.free[self.free.len() - 1]);
            }
            assert forall|j: int, k: int| 0 <= j < k < after.free.len() implies #[trigger] after.free[j]
                != #[trigger] after.free[k] by {
                assert(self.free[j] == after.free[j]);
                assert(self.free[k] == after.free[k]);
            }
            assert(after.tenants() =~= self.tenants().update(
                self.next().index as int,
                Some((self.next().generation, value)),
            ));
        } else {
            assert(after.tenants() =~= self.tenants().push(Some((self.next().generation, value))));
        }
    }

    /// Replacing a live entity keeps the invariant and changes its slot
    /// only.
    pub proof fn lemma_update(self, r: EntityReference, value: T)
        requires
            self.wf(),
            self.live(r),
        ensures
            self.update(r, value).wf(),
            self.update(r, value).tenants() == self.tenants().update(
                r.index as int,
                Some((r.generation, value)),
            ),
    {
        assert(self.update(r, value).tenants() =~= self.tenants().update(
            r.index as int,
            Some((r.generation, value)),
        ));
    }

    /// Removing a live entity keeps the invariant and empties its slot only.
    pub proof fn lemma_remove(self, r: EntityReference)
        requires
            self.wf(),
            self.live(r),
        ensures
            self.remove(r).wf(),
            self.remove(r).tenants() == self.tenants().update(r.index as int, None),
    {
        self.lemma_vacate(r.index as int);
        assert(self.remove(r).tenants() =~= self.tenants().update(r.index as int, None));
    }

    /// Vacating a slot keeps the invariant and the number of slots, and
    /// touches no other slot.
    pub proof fn lemma_vacate(self, index: int)
        requires
            self.wf(),
        ensures
            self.vacate(index).wf(),
            self.vacate(index).slots.len() == self.slots.len(),
            forall|i: int|
                0 <= i < self.slots.len() && i != index ==> self.vacate(index).slots[i]
                    == self.slots[i],
            0 <= index < self.slots.len() ==> self.vacate(index).slots[index].value is None,
    {
        let after = self.vacate(index);
        assert forall|j: int| 0 <= j < after.free.len() implies (#[trigger] after.free[j])
            < after.slots.len() && after.slots[after.free[j] as int].value is None by {
            if j < self.free.len() {
                assert(self.free[j] == after.free[j]);
            }
        }
        assert forall|j: int, k: int| 0 <= j < k < after.free.len() implies #[trigger] after.free[j]
            != #[trigger] after.free[k] by {
            assert(self.free[j] == after.free[j]);
            if k < self.free.len() {
                assert(self.free[k] == after.free[k]);
            }
        }
    }

    /// Vacating the slots below `n` empties them and leaves the others as
    /// they were.
    pub proof fn lemma_vacate_below(self, n: nat)
        requires
            self.wf(),
            n <= self.slots.len(),
        ensures
            self.vacate_below(n).wf(),
            self.vacate_below(n).slots.len() == self.slots.len(),
            forall|i: int| 0 <= i < n ==> (#[trigger] self.vacate_below(n).slots[i]).value is None,
            forall|i: int|
                n <= i < self.slots.len() ==> #[trigger] self.vacate_below(n).slots[i]
                    == self.slots[i],
        decreases n,
    {
        if n > 0 {
            self.lemma_vacate_below((n - 1) as nat);
            self.vacate_below((n - 1) as nat).lemma_vacate(n - 1);
        }
    }

    /// A cleared arena has the slots it had, all of them empty, so that no
    /// reference is live.
    pub proof fn lemma_clear(self)
        requires
            self.wf(),
        ensures
            self.clear().wf(),
            self.clear().slots.len() == self.slots.len(),
            forall|i: int|
                0 <= i < self.slots.len() ==> (#[trigger] self.clear().slots[i]).value is None,
            forall|r: EntityReference| !self.clear().live(r),
            self.clear().tenants() == Seq::new(self.slots.len(), |k: int| None::<(u64, T)>),
    {
        self.lemma_vacate_below(self.slots.len());
        assert(self.clear().tenants() =~= Seq::new(self.slots.len(), |k: int| None::<(u64, T)>));
    }
}

/// One use of an arena.
pub enum ArenaOp<T> {
    Insert { value: T },
    Update { r: EntityReference, value: T },
    Remove { r: EntityReference },
    Clear,
}

impl<T> ArenaModel<T> {
    /// Whether `r` is stale for good: its slot has moved on to a later
    /// generation, or stays empty at the last one.
    pub open spec fn spent(self, r: EntityReference) -> bool {
        &&& r.index < self.slots.len()
        &&& r.generation < self.slots[r.index as int].generation || (r.generation
            == self.slots[r.index as int].generation && self.slots[r.index as int].value is None
            && !self.free.contains(r.index))
    }

    /// The arena after `op`.
    pub open spec fn step(self, op: ArenaOp<T>) -> Self {
        match op {
            ArenaOp::Insert { value } => self.insert(value),
            ArenaOp::Update { r, value } => self.update(r, value),
            ArenaOp::Remove { r } => self.remove(r),
            ArenaOp::Clear => self.clear(),
        }
    }

    /// The arena after the uses in `ops`, first to last.
    pub open spec fn run(self, ops: Seq<ArenaOp<T>>) -> Self
        decreases ops.len(),
    {
        if ops.len() == 0 {
            self
        } else {
            self.run(ops.drop_last()).step(ops.last())
        }
    }

    /// Vacating a slot spends the reference of its tenant, and leaves every
    /// spent reference spent.
    pub proof fn lemma_vacate_spends(self, index: int, r: EntityReference)
        requires
            self.wf(),
            self.spent(r) || (self.live(r) && r.index == index),
        ensures
            self.vacate(index).spent(r),
    {
        let after = self.vacate(index);
        if 0 <= index < self.slots.len() && self.slots[index].value is Some {
            assert forall|j: int| 0 <= j < self.free.len() implies self.free[j] != index by {
                assert(self.slots[self.free[j] as int].value is None);
            }
            if self.slots[index].generation < u64::MAX {
                assert forall|j: int| 0 <= j < after.free.len() && after.free[j] == r.index
                    && r.index != index implies self.free.contains(r.index) by {
                    assert(self.free[j] == r.index);
                }
            }
        }
    }

    /// Vacating the slots below `n` leaves every spent reference spent, and
    /// spends the live references among those slots.
    pub proof fn lemma_vacate_below_spends(self, n: nat, r: EntityReference)
        requires
            self.wf(),
            n <= self.slots.len(),
            self.spent(r) || (self.live(r) && r.index < n),
        ensures
            self.vacate_below(n).spent(r),
        decreases n,
    {
        if n > 0 {
            let before = self.vacate_below((n - 1) as nat);
            self.lemma_vacate_below((n - 1) as nat);
            if self.spent(r) || r.index < n - 1 {
                self.lemma_vacate_below_spends((n - 1) as nat, r);
                before.lemma_vacate_spends(n - 1, r);
            } else {
                assert(before.slots[n - 1] == self.slots[n - 1]);
                before.lemma_vacate_spends(n - 1, r);
            }
        }
    }

    /// Every use of an arena keeps the invariant and leaves every spent
    /// reference spent.
    pub proof fn lemma_step_spent(self, op: ArenaOp<T>, r: EntityReference)
        requires
            self.wf(),
            self.spent(r),
        ensures
            self.step(op).wf(),
            self.step(op).spent(r),
    {
        match op {
            ArenaOp::Insert { value } => {
                if !self.full() {
                    self.lemma_insert(value);
                    let after = self.insert(value);
                    if self.free.len() > 0 {
                        assert(self.free[self.free.len() - 1] == self.next().index);
                        assert forall|j: int| 0 <= j < after.free.len() && after.free[j]
                            == r.index implies self.free.contains(r.index) by {
                            assert(self.free[j] == r.index);
                        }
                    }
                }
            },
            ArenaOp::Update { r: target, value } => {
                if self.live(target) {
                    self.lemma_update(target, value);
                }
            },
            ArenaOp::Remove { r: target } => {
                if self.live(target) {
                    self.lemma_remove(target);
                    self.lemma_vacate_spends(target.index as int, r);
                }
            },
            ArenaOp::Clear => {
                self.lemma_clear();
                self.lemma_vacate_below_spends(self.slots.len(), r);
            },
        }
    }

    /// A reference that was removed names nothing ever after, whatever is
    /// done with the arena: its slot may be handed out again, but never
    /// under the same generation.
    pub proof fn law_removed_stays_stale(self, r: EntityReference, ops: Seq<ArenaOp<T>>)
        requires
            self.wf(),
            self.live(r),
        ensures
            self.remove(r).run(ops).wf(),
            self.remove(r).run(ops).spent(r),
            !self.remove(r).run(ops).live(r),
        decreases ops.len(),
    {
        if ops.len() == 0 {
            self.lemma_remove(r);
            self.lemma_vacate_spends(r.index as int, r);
        } else {
            self.law_removed_stays_stale(r, ops.drop_last());
            self.remove(r).run(ops.drop_last()).lemma_step_spent(ops.last(), r);
        }
    }

    /// A reference that every entity has left by a clear names nothing ever
    /// after.
    pub proof fn law_cleared_stays_stale(self, r: EntityReference, ops: Seq<ArenaOp<T>>)
        requires
            self.wf(),
            self.live(r),
        ensures
            self.clear().run(ops).wf(),
            !self.clear().run(ops).live(r),
        decreases ops.len(),
    {
        self.lemma_cleared_spent(r, ops);
    }

    proof fn lemma_cleared_spent(self, r: EntityReference, ops: Seq<ArenaOp<T>>)
        requires
            self.wf(),
            self.live(r),
        ensures
            self.clear().run(ops).wf(),
            self.clear().run(ops).spent(r),
        decreases ops.len(),
    {
        if ops.len() == 0 {
            self.lemma_clear();
            self.lemma_vacate_below_spends(self.slots.len(), r);
        } else {
            self.lemma_cleared_spent(r, ops.drop_last());
            self.clear().run(ops.drop_last()).lemma_step_spent(ops.last(), r);
        }
    }
}

/// Entities in reusable slots.
pub struct Arena<T> {
    slots: Vec<Slot<T>>,
    free: Vec<usize>,
}

impl<T> Arena<T> {
    /// The mathematical state of the arena.
    pub closed spec fn view(&self) -> ArenaModel<T> {
        ArenaModel { slots: self.slots@, free: self.free@ }
    }

    /// The invariant of the arena, which every function keeps.
    pub open spec fn wf(&self) -> bool {
        self@.wf()
    }

    /// An arena without slots.
    pub fn new() -> (r: Arena<T>)
        ensures
            r.wf(),
            r@ == ArenaModel::<T>::empty(),
    {
        Arena { slots: Vec::new(), free: Vec::new() }
    }

    /// The number of slots, empty ones included.
    pub fn slots(&self) -> (r: usize)
        ensures
            r == self@.slots.len(),
    {
        self.slots.len()
    }

    /// Whether `r` names the current tenant of its slot.
    pub fn contains(&self, r: EntityReference) -> (out: bool)
        ensures
            out == self@.live(r),
    {
        r.index < self.slots.len() && self.slots[r.index].generation == r.generation
            && self.slots[r.index].value.is_some()
    }

    /// The entity that `r` names, if it is live.
    pub fn get(&self, r: EntityReference) -> (out: Option<&T>)
        ensures
            match out {
                Some(value) => self@.get(r) == Some(*value),
                None => self@.get(r) is None,
            },
    {
        if r.index < self.slots.len() && self.slots[r.index].generation == r.generation {
            self.slots[r.index].value.as_ref()
        } else {
            None
        }
    }

    /// The entity that `r` names, to be changed in place, if it is live.
    pub fn get_mut(&mut self, r: EntityReference) -> (out: Option<&mut T>)
        requires
            old(self).wf(),
        ensures
            final(self).wf(),
            match out {
                Some(value) => {
                    &&& old(self)@.get(r) == Some(*value)
                    &&& final(self)@.slots == old(self)@.update(r, *final(value)).slots
                    &&& final(self)@.free == old(self)@.free
                    &&& final(self)@ == old(self)@.update(r, *final(value))
                },
                None => old(self)@.get(r) is None && final(self)@ == old(self)@,
            },
    {
        if self.contains(r) {
            self.slots[r.index].value.as_mut()
        } else {
            None
        }
    }

    /// Moves `value` in and hands out its reference, which was not live
    /// before.
    pub fn insert(&mut self, value: T) -> (r: EntityReference)
        requires
            old(self).wf(),
        ensures
            final(self).wf(),
            r == old(self)@.next(),
            !old(self)@.live(r),
            !old(self)@.full(),
            final(self)@ == old(self)@.insert(value),
            final(self)@.get(r) == Some(value),
    {
        match self.free.pop() {
            Some(index) => {
                let generation = self.slots[index].generation;
                self.slots[index].value = Some(value);
                EntityReference { index, generation }
            },
            None => {
                let index = self.slots.len();
                self.slots.push(Slot { generation: 0, value: Some(value) });
                let slots = self.slots.len();
                assert(slots == index + 1);
                EntityReference { index, generation: 0 }
            },
        }
    }

    /// Replaces the entity that `r` names; says whether there was one.
    pub fn update(&mut self, r: EntityReference, value: T) -> (out: bool)
        requires
            old(self).wf(),
        ensures
            final(self).wf(),
            out == old(self)@.live(r),
            final(self)@ == old(self)@.update(r, value),
    {
        if self.contains(r) {
            self.slots[r.index].value = Some(value);
            true
        } else {
            false
        }
    }

    /// Empties slot `index` and moves it on to its next generation.
    fn vacate(&mut self, index: usize) -> (out: Option<T>)
        requires
            old(self).wf(),
            index < old(self)@.slots.len(),
        ensures
            final(self).wf(),
            out == old(self)@.slots[index as int].value,
            final(self)@ == old(self)@.vacate(index as int),
    {
        let out = self.slots[index].value.take();
        if out.is_some() {
            let generation = self.slots[index].generation;
            if generation < u64::MAX {
                self.slots[index].generation = generation + 1;
                self.free.push(index);
            }
        }
        assert(final(self)@.slots =~= old(self)@.vacate(index as int).slots);
        out
    }

    /// Moves the entity that `r` names out. From then on `r` is stale.
    pub fn remove(&mut self, r: EntityReference) -> (out: Option<T>)
        requires
            old(self).wf(),
        ensures
            final(self).wf(),
            out == old(self)@.get(r),
            final(self)@ == old(self)@.remove(r),
            !final(self)@.live(r),
    {
        if self.contains(r) {
            self.vacate(r.index)
        } else {
            None
        }
    }

    /// Moves every entity out. Every reference handed out so far is stale
    /// from then on.
    pub fn clear(&mut self)
        requires
            old(self).wf(),
        ensures
            final(self).wf(),
            final(self)@ == old(self)@.clear(),
    {
        let n = self.slots.len();
        let mut i: usize = 0;
        while i < n
            invariant
                i <= n,
                n == old(self)@.slots.len(),
                old(self).wf(),
                self.wf(),
                self@ == old(self)@.vacate_below(i as nat),
            decreases n - i,
        {
            proof {
                old(self)@.lemma_vacate_below(i as nat);
            }
            self.vacate(i);
            i += 1;
        }
    }
}

} // verus!
