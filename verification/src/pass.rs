//! The render side's copy of one layer: an instance buffer, and the tables
//! that tell which sprite stands where in it.
//!
//! A sprite is known to the logic side by its reference and to the GPU by
//! its position in the layer's buffer. Removing a sprite moves the last
//! instance of the buffer into the gap, so positions change while
//! references stay; the tables kept here follow every such move.

use crate::arena::EntityReference;
use crate::buffer::BufferModel;
use crate::geometry::GeometryBuffer;
use crate::message::{put, vacant, LayerModel};
use vstd::prelude::*;

verus! {

/// The number of slots of `slots` that hold something.
pub open spec fn occupied<T>(slots: Seq<Option<T>>) -> nat
    decreases slots.len(),
{
    if slots.len() == 0 {
        0
    } else {
        occupied(slots.drop_last()) + if slots.last() is Some {
            1nat
        } else {
            0nat
        }
    }
}

/// No more slots hold something than there are slots.
pub proof fn lemma_occupied_bound<T>(slots: Seq<Option<T>>)
    ensures
        occupied(slots) <= slots.len(),
    decreases slots.len(),
{
    if slots.len() > 0 {
        lemma_occupied_bound(slots.drop_last());
    }
}

/// Writing one slot changes the count by what the slot gains or loses.
pub proof fn lemma_occupied_update<T>(slots: Seq<Option<T>>, index: int, value: Option<T>)
    requires
        0 <= index < slots.len(),
    ensures
        occupied(slots.update(index, value)) + (if slots[index] is Some {
            1nat
        } else {
            0nat
        }) == occupied(slots) + (if value is Some {
            1nat
        } else {
            0nat
        }),
    decreases slots.len(),
{
    let after = slots.update(index, value);
    if index == slots.len() - 1 {
        assert(after.drop_last() =~= slots.drop_last());
    } else {
        lemma_occupied_update(slots.drop_last(), index, value);
        assert(after.drop_last() =~= slots.drop_last().update(index, value));
    }
}

/// Where a slot is empty, fewer slots hold something than there are slots.
pub proof fn lemma_occupied_vacancy<T>(slots: Seq<Option<T>>, index: int)
    requires
        0 <= index < slots.len(),
        slots[index] is None,
    ensures
        occupied(slots) < slots.len(),
    decreases slots.len(),
{
    if index == slots.len() - 1 {
        lemma_occupied_bound(slots.drop_last());
    } else {
        lemma_occupied_vacancy(slots.drop_last(), index);
    }
}

/// Empty slots hold nothing.
pub proof fn lemma_occupied_none<T>(n: nat)
    ensures
        occupied(Seq::new(n, |k: int| None::<T>)) == 0,
    decreases n,
{
    let slots = Seq::new(n, |k: int| None::<T>);
    if n > 0 {
        lemma_occupied_none::<T>((n - 1) as nat);
        assert(slots.drop_last() =~= Seq::new((n - 1) as nat, |k: int| None::<T>));
    }
}

/// Where a sprite stands: the generation under which it is known, and its
/// position in the layer's buffer.
#[derive(Clone, Copy, Debug, PartialEq, Eq, Structural)]
pub struct SpriteSlot {
    pub generation: u64,
    pub position: usize,
}

/// The mathematical state of the render side's copy of a layer.
pub struct PassModel<L, S> {
    /// The generation under which the layer is known.
    pub generation: u64,
    pub depth: usize,
    pub desc: L,
    /// The instance buffer: one item for each sprite.
    pub buffer: BufferModel<S>,
    /// For each position of the buffer, the slot of the sprite that stands
    /// there.
    pub owners: Seq<usize>,
    /// For each slot, where its sprite stands, if it holds one.
    pub slots: Seq<Option<SpriteSlot>>,
}

impl<L, S> PassModel<L, S> {
    /// The invariant: the buffer is valid, and positions and slots name
    /// each other, so that every instance belongs to exactly one sprite and
    /// every sprite has exactly one instance.
    pub open spec fn wf(self) -> bool {
        &&& self.buffer.wf()
        &&& self.slots.len() <= usize::MAX
        &&& self.owners.len() == self.buffer.items.len()
        &&& self.owners.len() == occupied(self.slots)
        &&& forall|p: int|
            0 <= p < self.owners.len() ==> (#[trigger] self.owners[p]) < self.slots.len()
                && self.slots[self.owners[p] as int] == Some(
                SpriteSlot {
                    generation: self.slots[self.owners[p] as int]->0.generation,
                    position: p as usize,
                },
            )
        &&& forall|k: int|
            0 <= k < self.slots.len() ==> ((#[trigger] self.slots[k]) matches Some(slot)
                ==> slot.position < self.owners.len() && self.owners[slot.position as int] == k)
    }

    /// A layer without sprites and without a GPU allocation.
    pub open spec fn fresh(generation: u64, depth: usize, desc: L) -> Self {
        PassModel {
            generation,
            depth,
            desc,
            buffer: BufferModel::empty(),
            owners: Seq::empty(),
            slots: Seq::empty(),
        }
    }

    /// The layer of the scene that this copy shows.
    pub open spec fn picture(self) -> LayerModel<L, S> {
        LayerModel {
            generation: self.generation,
            depth: self.depth,
            desc: self.desc,
            sprites: Seq::new(
                self.slots.len(),
                |k: int|
                    match self.slots[k] {
                        Some(slot) => Some(
                            (slot.generation, self.buffer.items[slot.position as int]),
                        ),
                        None => None,
                    },
            ),
        }
    }

    /// Whether `key` names a sprite of the layer.
    pub open spec fn has(self, key: EntityReference) -> bool {
        &&& key.index < self.slots.len()
        &&& self.slots[key.index as int] matches Some(slot)
        &&& slot.generation == key.generation
    }

    /// The copy after the sprite `desc` was appended to the buffer under
    /// `key`, if the slot of `key` is vacant.
    pub open spec fn place(self, key: EntityReference, desc: S) -> Self {
        if vacant(self.slots, key.index as int) {
            PassModel {
                buffer: self.buffer.push(desc),
                owners: self.owners.push(key.index),
                slots: put(
                    self.slots,
                    key.index as int,
                    SpriteSlot { generation: key.generation, position: self.owners.len() as usize },
                ),
                ..self
            }
        } else {
            self
        }
    }

    /// The copy after the instance of the sprite that `key` names was
    /// overwritten with `desc`.
    pub open spec fn replace(self, key: EntityReference, desc: S) -> Self {
        if self.has(key) {
            PassModel {
                buffer: self.buffer.update(self.slots[key.index as int]->0.position as int, desc),
                ..self
            }
        } else {
            self
        }
    }

    /// The copy after the sprite that `key` names was removed: the last
    /// instance of the buffer takes its position, and the slot of the
    /// sprite that owns that instance follows it there.
    pub open spec fn discard(self, key: EntityReference) -> Self {
        if self.has(key) {
            let position = self.slots[key.index as int]->0.position;
            let last = self.owners.len() - 1;
            let moved = self.owners[last];
            let emptied = self.slots.update(key.index as int, None);
            PassModel {
                buffer: self.buffer.swap_remove(position as int),
                owners: self.owners.update(position as int, moved).drop_last(),
                slots: if position < last {
                    emptied.update(
                        moved as int,
                        Some(
                            SpriteSlot {
                                generation: self.slots[moved as int]->0.generation,
                                position,
                            },
                        ),
                    )
                } else {
                    emptied
                },
                ..self
            }
        } else {
            self
        }
    }

    /// The copy after every sprite was removed. The allocation stays.
    pub open spec fn discard_all(self) -> Self {
        PassModel {
            buffer: self.buffer.clear(),
            owners: Seq::empty(),
            slots: Seq::new(self.slots.len(), |k: int| None),
            ..self
        }
    }

    /// The buffer has room for one more sprite wherever a slot is vacant.
    pub proof fn lemma_room(self, index: int)
        requires
            self.wf(),
            vacant(self.slots, index),
        ensures
            self.owners.len() < usize::MAX,
    {
        if index < self.slots.len() {
            lemma_occupied_vacancy(self.slots, index);
        } else {
            lemma_occupied_bound(self.slots);
        }
    }

    /// Placing a sprite keeps the invariant and shows as placing it in the
    /// layer of the scene.
    pub proof fn lemma_place(self, key: EntityReference, desc: S)
        requires
            self.wf(),
        ensures
            self.place(key, desc).wf(),
            self.place(key, desc).picture() == self.picture().place(key, desc),
    {
        let after = self.place(key, desc);
        if vacant(self.slots, key.index as int) {
            self.lemma_room(key.index as int);
            let slot = SpriteSlot {
                generation: key.generation,
                position: self.owners.len() as usize,
            };
            if key.index < self.slots.len() {
                lemma_occupied_update(self.slots, key.index as int, Some(slot));
            } else {
                assert(after.slots.drop_last() =~= self.slots);
            }
            assert forall|p: int| 0 <= p < after.owners.len() implies (#[trigger] after.owners[p])
                < after.slots.len() && after.slots[after.owners[p] as int] == Some(
                SpriteSlot {
                    generation: after.slots[after.owners[p] as int]->0.generation,
                    position: p as usize,
                },
            ) by {
                if p < self.owners.len() {
                    assert(self.owners[p] == after.owners[p]);
                }
            }
            assert forall|k: int| 0 <= k < after.slots.len() implies ((
            #[trigger] after.slots[k]) matches Some(s) ==> s.position < after.owners.len()
                && after.owners[s.position as int] == k) by {
                if k != key.index {
                    assert(after.slots[k] == self.slots[k]);
                }
            }
            assert(after.picture().sprites =~= self.picture().place(key, desc).sprites) by {
                assert forall|k: int| 0 <= k < after.slots.len() implies after.picture().sprites[k]
                    == self.picture().place(key, desc).sprites[k] by {
                    if k != key.index {
                        assert(after.slots[k] == self.slots[k]);
                    }
                }
            }
        }
    }

    /// Overwriting a sprite keeps the invariant and shows as describing it
    /// anew in the layer of the scene.
    pub proof fn lemma_replace(self, key: EntityReference, desc: S)
        requires
            self.wf(),
        ensures
            self.replace(key, desc).wf(),
            self.replace(key, desc).picture() == self.picture().replace(key, desc),
    {
        let after = self.replace(key, desc);
        if self.has(key) {
            let position = self.slots[key.index as int]->0.position as int;
            assert(after.picture().sprites =~= self.picture().replace(key, desc).sprites) by {
                assert forall|k: int| 0 <= k < after.slots.len() implies after.picture().sprites[k]
                    == self.picture().replace(key, desc).sprites[k] by {
                    if k != key.index && self.slots[k] is Some {
                        assert(self.owners[self.slots[k]->0.position as int] == k);
                        assert(self.slots[k]->0.position != position);
                    }
                }
            }
        }
    }

    /// Removing a sprite keeps the invariant and shows as removing it from
    /// the layer of the scene: no other sprite changes, whatever became of
    /// its position.
    pub proof fn lemma_discard(self, key: EntityReference)
        requires
            self.wf(),
        ensures
            self.discard(key).wf(),
            self.discard(key).picture() == self.picture().discard(key),
    {
        let after = self.discard(key);
        if self.has(key) {
            let position = self.slots[key.index as int]->0.position;
            let last = self.owners.len() - 1;
            let moved = self.owners[last];
            let emptied = self.slots.update(key.index as int, None);
            assert(self.owners[position as int] == key.index);
            assert(self.slots[moved as int] is Some);
            lemma_occupied_update(self.slots, key.index as int, None);
            if position < last {
                assert(moved != key.index);
                lemma_occupied_update(
                    emptied,
                    moved as int,
                    Some(
                        SpriteSlot {
                            generation: self.slots[moved as int]->0.generation,
                            position,
                        },
                    ),
                );
            }
            assert forall|p: int| 0 <= p < after.owners.len() implies (#[trigger] after.owners[p])
                < after.slots.len() && after.slots[after.owners[p] as int] == Some(
                SpriteSlot {
                    generation: after.slots[after.owners[p] as int]->0.generation,
                    position: p as usize,
                },
            ) by {
                if p != position {
                    assert(self.owners[p] == after.owners[p]);
                    assert(self.slots[self.owners[p] as int]->0.position == p);
                }
            }
            assert forall|k: int| 0 <= k < after.slots.len() implies ((
            #[trigger] after.slots[k]) matches Some(s) ==> s.position < after.owners.len()
                && after.owners[s.position as int] == k) by {
                if k != key.index && k != moved {
                    assert(after.slots[k] == self.slots[k]);
                    if self.slots[k] is Some {
                        assert(self.owners[self.slots[k]->0.position as int] == k);
                    }
                }
            }
            assert(after.picture().sprites =~= self.picture().discard(key).sprites) by {
                assert forall|k: int| 0 <= k < after.slots.len() implies after.picture().sprites[k]
                    == self.picture().discard(key).sprites[k] by {
                    if k != key.index && k != moved && self.slots[k] is Some {
                        assert(self.owners[self.slots[k]->0.position as int] == k);
                    }
                }
            }
        }
    }

    /// Removing every sprite keeps the invariant and shows as clearing the
    /// layer of the scene.
    pub proof fn lemma_discard_all(self)
        requires
            self.wf(),
        ensures
            self.discard_all().wf(),
            self.discard_all().picture() == self.picture().discard_all(),
    {
        lemma_occupied_none::<SpriteSlot>(self.slots.len());
        assert(self.discard_all().picture().sprites =~= self.picture().discard_all().sprites);
    }
}

/// The render side's copy of a layer.
pub(crate) struct LayerPass<L, S: Copy> {
    pub(crate) generation: u64,
    pub(crate) depth: usize,
    pub(crate) desc: L,
    pub(crate) buffer: GeometryBuffer<S>,
    pub(crate) owners: Vec<usize>,
    pub(crate) slots: Vec<Option<SpriteSlot>>,
}

impl<L, S: Copy> LayerPass<L, S> {
    /// The mathematical state of the copy.
    pub(crate) open spec fn view(&self) -> PassModel<L, S> {
        PassModel {
            generation: self.generation,
            depth: self.depth,
            desc: self.desc,
            buffer: self.buffer@,
            owners: self.owners@,
            slots: self.slots@,
        }
    }

    /// A copy of a layer without sprites.
    pub(crate) fn new(generation: u64, depth: usize, desc: L) -> (r: Self)
        ensures
            r@ == PassModel::<L, S>::fresh(generation, depth, desc),
            r@.wf(),
    {
        LayerPass {
            generation,
            depth,
            desc,
            buffer: GeometryBuffer::new(),
            owners: Vec::new(),
            slots: Vec::new(),
        }
    }

    /// Appends the sprite `desc` under `key`, if the slot of `key` is vacant.
    pub(crate) fn place(&mut self, key: EntityReference, desc: S)
        requires
            old(self)@.wf(),
        ensures
            final(self)@.wf(),
            final(self)@ == old(self)@.place(key, desc),
    {
        let index = key.index;
        let n = self.slots.len();
        if index > n || index == usize::MAX {
            return ;
        }
        if index < n && self.slots[index].is_some() {
            return ;
        }
        proof {
            old(self)@.lemma_place(key, desc);
        }
        let slot = SpriteSlot { generation: key.generation, position: self.owners.len() };
        self.buffer.push(desc);
        self.owners.push(index);
        if index == n {
            self.slots.push(Some(slot));
        } else {
            self.slots[index] = Some(slot);
        }
    }

    /// The position of the sprite that `key` names.
    fn find(&self, key: EntityReference) -> (r: Option<usize>)
        ensures
            r is Some <==> self@.has(key),
            r matches Some(position) ==> position == self@.slots[key.index as int]->0.position,
    {
        if key.index < self.slots.len() {
            match self.slots[key.index] {
                Some(slot) => if slot.generation == key.generation {
                    Some(slot.position)
                } else {
                    None
                },
                None => None,
            }
        } else {
            None
        }
    }

    /// Overwrites the instance of the sprite that `key` names.
    pub(crate) fn replace(&mut self, key: EntityReference, desc: S)
        requires
            old(self)@.wf(),
        ensures
            final(self)@.wf(),
            final(self)@ == old(self)@.replace(key, desc),
    {
        proof {
            old(self)@.lemma_replace(key, desc);
        }
        match self.find(key) {
            Some(position) => {
                assert(self@.owners[position as int] == key.index);
                self.buffer.update(position, desc);
            },
            None => {},
        }
    }

    /// Removes the sprite that `key` names, and lets the slot of the sprite
    /// whose instance fills the gap follow it.
    pub(crate) fn discard(&mut self, key: EntityReference)
        requires
            old(self)@.wf(),
        ensures
            final(self)@.wf(),
            final(self)@ == old(self)@.discard(key),
    {
        proof {
            old(self)@.lemma_discard(key);
        }
        match self.find(key) {
            Some(position) => {
                assert(self@.owners[position as int] == key.index);
                self.buffer.swap_remove(position);
                self.owners.swap_remove(position);
                self.slots[key.index] = None;
                if position < self.owners.len() {
                    let moved = self.owners[position];
                    assert(moved == old(self)@.owners[old(self)@.owners.len() - 1]);
                    assert(old(self)@.slots[moved as int] is Some);
                    match self.slots[moved] {
                        Some(slot) => {
                            self.slots[moved] = Some(
                                SpriteSlot { generation: slot.generation, position },
                            );
                        },
                        None => {},
                    }
                }
            },
            None => {},
        }
    }

    /// Removes every sprite.
    pub(crate) fn discard_all(&mut self)
        requires
            old(self)@.wf(),
        ensures
            final(self)@.wf(),
            final(self)@ == old(self)@.discard_all(),
    {
        proof {
            old(self)@.lemma_discard_all();
        }
        self.buffer.clear();
        self.owners.clear();
        let n = self.slots.len();
        let mut k: usize = 0;
        while k < n
            invariant
                k <= n,
                n == old(self)@.slots.len(),
                self.slots@.len() == n,
                forall|j: int| 0 <= j < k ==> (#[trigger] self.slots@[j]) is None,
                self.generation == old(self).generation,
                self.depth == old(self).depth,
                self.desc == old(self).desc,
                self.buffer@ == old(self)@.buffer.clear(),
                self.owners@ == Seq::<usize>::empty(),
            decreases n - k,
        {
            self.slots[k] = None;
            k += 1;
        }
        assert(self@.slots =~= old(self)@.discard_all().slots);
    }
}

} // verus!
