//! The messages that carry the logic side's mutations to the render side,
//! and the scene that they describe on either side.

use crate::arena::EntityReference;
use vstd::prelude::*;

verus! {

/// The identity of a layer.
#[derive(Clone, Copy, Debug, PartialEq, Eq, Hash, Structural)]
pub struct LayerReference {
    pub key: EntityReference,
}

/// The identity of a sprite: its layer, and its slot among that layer's
/// sprites.
#[derive(Clone, Copy, Debug, PartialEq, Eq, Hash, Structural)]
pub struct SpriteReference {
    pub layer: EntityReference,
    pub key: EntityReference,
}

/// The identity of a texture.
#[derive(Clone, Copy, Debug, PartialEq, Eq, Hash, Structural)]
pub struct TextureReference {
    pub key: EntityReference,
}

/// One mutation of the scene, with its payload by value. `L` describes a
/// layer and `S` a sprite.
#[derive(Debug)]
#[allow(inconsistent_fields)]
pub enum Message<L, S> {
    LayerCreate { layer: LayerReference, depth: usize, desc: L },
    LayerUpdate { layer: LayerReference, desc: L },
    LayerRemove { layer: LayerReference },
    LayerClear { layer: LayerReference },
    SpriteCreate { sprite: SpriteReference, desc: S },
    SpriteUpdate { sprite: SpriteReference, desc: S },
    SpriteRemove { sprite: SpriteReference },
    TextureLoad { texture: TextureReference, path: String },
    WindowTitle { title: String },
}

/// Whether an entity can move into slot `index` of `slots`: the slot is
/// empty, or it is the first one past the end, and the slots can still be
/// counted in a machine word afterwards.
pub open spec fn vacant<T>(slots: Seq<Option<T>>, index: int) -> bool {
    &&& 0 <= index <= slots.len()
    &&& index < usize::MAX
    &&& index < slots.len() ==> slots[index] is None
}

/// The slots with `value` in slot `index`, which may be the first one past
/// the end.
pub open spec fn put<T>(slots: Seq<Option<T>>, index: int, value: T) -> Seq<Option<T>> {
    if index == slots.len() {
        slots.push(Some(value))
    } else {
        slots.update(index, Some(value))
    }
}

/// A layer of the scene.
pub struct LayerModel<L, S> {
    /// The generation under which the layer is known.
    pub generation: u64,
    pub depth: usize,
    pub desc: L,
    /// The sprites by slot, each with the generation under which it is
    /// known.
    pub sprites: Seq<Option<(u64, S)>>,
}

/// The scene: the layers by slot.
pub struct Scene<L, S> {
    pub layers: Seq<Option<LayerModel<L, S>>>,
}

impl<L, S> LayerModel<L, S> {
    /// A layer without sprites.
    pub open spec fn fresh(generation: u64, depth: usize, desc: L) -> Self {
        LayerModel { generation, depth, desc, sprites: Seq::empty() }
    }

    /// Whether `key` names a sprite of the layer.
    pub open spec fn has(self, key: EntityReference) -> bool {
        &&& key.index < self.sprites.len()
        &&& self.sprites[key.index as int] matches Some(sprite)
        &&& sprite.0 == key.generation
    }

    /// The layer with the sprite `desc` under `key`, if its slot is vacant.
    pub open spec fn place(self, key: EntityReference, desc: S) -> Self {
        if vacant(self.sprites, key.index as int) {
            LayerModel {
                sprites: put(self.sprites, key.index as int, (key.generation, desc)),
                ..self
            }
        } else {
            self
        }
    }

    /// The layer with the sprite that `key` names described by `desc`.
    pub open spec fn replace(self, key: EntityReference, desc: S) -> Self {
        if self.has(key) {
            LayerModel {
                sprites: self.sprites.update(key.index as int, Some((key.generation, desc))),
                ..self
            }
        } else {
            self
        }
    }

    /// The layer without the sprite that `key` names.
    pub open spec fn discard(self, key: EntityReference) -> Self {
        if self.has(key) {
            LayerModel { sprites: self.sprites.update(key.index as int, None), ..self }
        } else {
            self
        }
    }

    /// The layer without its sprites.
    pub open spec fn discard_all(self) -> Self {
        LayerModel { sprites: Seq::new(self.sprites.len(), |k: int| None), ..self }
    }
}

impl<L, S> Scene<L, S> {
    /// The scene without layers.
    pub open spec fn empty() -> Self {
        Scene { layers: Seq::empty() }
    }

    /// Whether `layer` names a layer of the scene.
    pub open spec fn has_layer(self, layer: EntityReference) -> bool {
        &&& layer.index < self.layers.len()
        &&& self.layers[layer.index as int] matches Some(l)
        &&& l.generation == layer.generation
    }

    /// The layer that `layer` names.
    pub open spec fn layer(self, layer: EntityReference) -> LayerModel<L, S> {
        self.layers[layer.index as int]->0
    }

    /// Whether `sprite` names a sprite of the scene.
    pub open spec fn has_sprite(self, sprite: SpriteReference) -> bool {
        self.has_layer(sprite.layer) && self.layer(sprite.layer).has(sprite.key)
    }

    /// The scene with the layer that `layer` names replaced by `with`, if
    /// there is such a layer.
    pub open spec fn with_layer(self, layer: EntityReference, with: LayerModel<L, S>) -> Self {
        if self.has_layer(layer) {
            Scene { layers: self.layers.update(layer.index as int, Some(with)) }
        } else {
            self
        }
    }

    /// Whether `message` finds what it speaks of: the layer or the sprite
    /// that it names is there, or the slot that it asks for is vacant. One
    /// that does not is left without effect.
    pub open spec fn admits(self, message: Message<L, S>) -> bool {
        match message {
            Message::LayerCreate { layer, depth, desc } => vacant(self.layers, layer.key.index as int),
            Message::LayerUpdate { layer, desc } => self.has_layer(layer.key),
            Message::LayerRemove { layer } => self.has_layer(layer.key),
            Message::LayerClear { layer } => self.has_layer(layer.key),
            Message::SpriteCreate { sprite, desc } => self.has_layer(sprite.layer) && vacant(
                self.layer(sprite.layer).sprites,
                sprite.key.index as int,
            ),
            Message::SpriteUpdate { sprite, desc } => self.has_sprite(sprite),
            Message::SpriteRemove { sprite } => self.has_sprite(sprite),
            Message::TextureLoad { texture, path } => true,
            Message::WindowTitle { title } => true,
        }
    }

    /// The scene after `message`.
    pub open spec fn apply(self, message: Message<L, S>) -> Self {
        match message {
            Message::LayerCreate { layer, depth, desc } => if vacant(
                self.layers,
                layer.key.index as int,
            ) {
                Scene {
                    layers: put(
                        self.layers,
                        layer.key.index as int,
                        LayerModel::fresh(layer.key.generation, depth, desc),
                    ),
                }
            } else {
                self
            },
            Message::LayerUpdate { layer, desc } => self.with_layer(
                layer.key,
                LayerModel { desc, ..self.layer(layer.key) },
            ),
            Message::LayerRemove { layer } => if self.has_layer(layer.key) {
                Scene { layers: self.layers.update(layer.key.index as int, None) }
            } else {
                self
            },
            Message::LayerClear { layer } => self.with_layer(
                layer.key,
                self.layer(layer.key).discard_all(),
            ),
            Message::SpriteCreate { sprite, desc } => self.with_layer(
                sprite.layer,
                self.layer(sprite.layer).place(sprite.key, desc),
            ),
            Message::SpriteUpdate { sprite, desc } => self.with_layer(
                sprite.layer,
                self.layer(sprite.layer).replace(sprite.key, desc),
            ),
            Message::SpriteRemove { sprite } => self.with_layer(
                sprite.layer,
                self.layer(sprite.layer).discard(sprite.key),
            ),
            Message::TextureLoad { texture, path } => self,
            Message::WindowTitle { title } => self,
        }
    }

    /// The scene after the messages of `batch`, first to last.
    pub open spec fn applied(self, batch: Seq<Message<L, S>>) -> Self
        decreases batch.len(),
    {
        if batch.len() == 0 {
            self
        } else {
            self.applied(batch.drop_last()).apply(batch.last())
        }
    }

    /// The scene after the batches of `batches`, first to last, each one
    /// applied in full before the next.
    pub open spec fn consumed(self, batches: Seq<Seq<Message<L, S>>>) -> Self
        decreases batches.len(),
    {
        if batches.len() == 0 {
            self
        } else {
            self.consumed(batches.drop_last()).applied(batches.last())
        }
    }

    /// Applying one run of messages after another is applying them all in
    /// order.
    pub proof fn lemma_applied_add(self, first: Seq<Message<L, S>>, second: Seq<Message<L, S>>)
        ensures
            self.applied(first + second) == self.applied(first).applied(second),
        decreases second.len(),
    {
        if second.len() == 0 {
            assert(first + second == first);
        } else {
            self.lemma_applied_add(first, second.drop_last());
            assert((first + second).drop_last() == first + second.drop_last());
        }
    }

    /// Consuming batches one by one gives the scene that their messages
    /// give when applied in the order in which they were issued: no
    /// message of a later batch takes effect before one of an earlier
    /// batch.
    pub proof fn law_batches_in_order(self, batches: Seq<Seq<Message<L, S>>>)
        ensures
            self.consumed(batches) == self.applied(batches.flatten()),
        decreases batches.len(),
    {
        if batches.len() == 0 {
            assert(batches.flatten() =~= Seq::<Message<L, S>>::empty());
        } else {
            self.law_batches_in_order(batches.drop_last());
            batches.drop_last().lemma_flatten_push(batches.last());
            assert(batches.drop_last().push(batches.last()) == batches);
            self.lemma_applied_add(batches.drop_last().flatten(), batches.last());
        }
    }
}

} // verus!
