//! The logic side's authoritative record of layers, sprites and textures.
//!
//! Every call checks the reference it is given, changes the record, and
//! hands back the one message that tells the render side of the change. A
//! stale reference changes nothing and yields no message. Nothing here
//! touches the graphics backend.

use crate::arena::{Arena, ArenaModel, EntityReference, Slot};
use crate::message::{LayerModel, LayerReference, Message, Scene, SpriteReference, TextureReference};
use vstd::prelude::*;

verus! {

/// The reference of the texture that every scene starts with.
pub open spec fn default_texture() -> TextureReference {
    TextureReference { key: EntityReference { index: 0, generation: 0 } }
}

/// What is recorded of a layer.
pub struct LayerRecord<L, S> {
    pub depth: usize,
    pub desc: L,
    pub sprites: ArenaModel<S>,
}

/// The layer of the scene that `record` stands for, known under
/// `generation`.
pub open spec fn pictured<L, S>(generation: u64, record: LayerRecord<L, S>) -> LayerModel<L, S> {
    LayerModel {
        generation,
        depth: record.depth,
        desc: record.desc,
        sprites: record.sprites.tenants(),
    }
}

/// The mathematical state of the record.
pub struct ManagerModel<L, S> {
    pub layers: ArenaModel<LayerRecord<L, S>>,
    pub textures: ArenaModel<()>,
}

impl<L, S> ManagerModel<L, S> {
    /// The invariant: the arenas of layers, of each layer's sprites and of
    /// textures are valid.
    pub open spec fn wf(self) -> bool {
        &&& self.layers.wf()
        &&& forall|i: int|
            0 <= i < self.layers.slots.len() ==> ((#[trigger] self.layers.slots[i]).value matches Some(
                record,
            ) ==> record.sprites.wf())
        &&& self.textures.wf()
    }

    /// The record of a new scene: no layers, and the default texture.
    pub open spec fn initial() -> Self {
        ManagerModel { layers: ArenaModel::empty(), textures: ArenaModel::empty().insert(()) }
    }

    /// Whether `sprite` names a sprite on record.
    pub open spec fn sprite_live(self, sprite: SpriteReference) -> bool {
        self.layers.live(sprite.layer) && self.layers.get(sprite.layer)->0.sprites.live(sprite.key)
    }

    /// The record with the layer that `layer` names replaced by `with`.
    pub open spec fn with_layer(self, layer: EntityReference, with: LayerRecord<L, S>) -> Self {
        ManagerModel { layers: self.layers.update(layer, with), ..self }
    }

    /// The scene on record.
    pub open spec fn scene(self) -> Scene<L, S> {
        Scene {
            layers: Seq::new(
                self.layers.slots.len(),
                |i: int|
                    match self.layers.slots[i].value {
                        Some(record) => Some(pictured(self.layers.slots[i].generation, record)),
                        None => None,
                    },
            ),
        }
    }

    /// The record after a layer was created, and the message that tells of
    /// it. The layer's reference is `self.layers.next()`. Nothing happens
    /// where the arena of layers is full.
    pub open spec fn layer_create(self, depth: usize, desc: L) -> (Self, Option<Message<L, S>>) {
        if self.layers.full() {
            (self, None)
        } else {
            (
                ManagerModel {
                    layers: self.layers.insert(
                        LayerRecord { depth, desc, sprites: ArenaModel::empty() },
                    ),
                    ..self
                },
                Some(
                    Message::LayerCreate {
                        layer: LayerReference { key: self.layers.next() },
                        depth,
                        desc,
                    },
                ),
            )
        }
    }

    /// The record after a layer was described anew, and the message that
    /// tells of it.
    pub open spec fn layer_update(self, layer: LayerReference, desc: L) -> (Self, Option<Message<L, S>>) {
        if self.layers.live(layer.key) {
            (
                self.with_layer(layer.key, LayerRecord { desc, ..self.layers.get(layer.key)->0 }),
                Some(Message::LayerUpdate { layer, desc }),
            )
        } else {
            (self, None)
        }
    }

    /// The record after a layer was removed with its sprites, and the
    /// message that tells of it.
    pub open spec fn layer_remove(self, layer: LayerReference) -> (Self, Option<Message<L, S>>) {
        if self.layers.live(layer.key) {
            (
                ManagerModel { layers: self.layers.remove(layer.key), ..self },
                Some(Message::LayerRemove { layer }),
            )
        } else {
            (self, None)
        }
    }

    /// The record after the sprites of a layer were removed, and the message
    /// that tells of it.
    pub open spec fn layer_clear(self, layer: LayerReference) -> (Self, Option<Message<L, S>>) {
        if self.layers.live(layer.key) {
            let record = self.layers.get(layer.key)->0;
            (
                self.with_layer(layer.key, LayerRecord { sprites: record.sprites.clear(), ..record }),
                Some(Message::LayerClear { layer }),
            )
        } else {
            (self, None)
        }
    }

    /// The reference that a sprite created in `layer` gets.
    pub open spec fn next_sprite(self, layer: LayerReference) -> SpriteReference {
        SpriteReference { layer: layer.key, key: self.layers.get(layer.key)->0.sprites.next() }
    }

    /// The record after a sprite was created in a layer, and the message
    /// that tells of it. The sprite's reference is `self.next_sprite(layer)`.
    /// Nothing happens where the layer's arena of sprites is full.
    pub open spec fn sprite_create(self, layer: LayerReference, desc: S) -> (Self, Option<Message<L, S>>) {
        if self.layers.live(layer.key) && !self.layers.get(layer.key)->0.sprites.full() {
            let record = self.layers.get(layer.key)->0;
            (
                self.with_layer(layer.key, LayerRecord { sprites: record.sprites.insert(desc), ..record }),
                Some(Message::SpriteCreate { sprite: self.next_sprite(layer), desc }),
            )
        } else {
            (self, None)
        }
    }

    /// The record after a sprite was described anew, and the message that
    /// tells of it.
    pub open spec fn sprite_update(self, sprite: SpriteReference, desc: S) -> (Self, Option<Message<L, S>>) {
        if self.sprite_live(sprite) {
            let record = self.layers.get(sprite.layer)->0;
            (
                self.with_layer(
                    sprite.layer,
                    LayerRecord { sprites: record.sprites.update(sprite.key, desc), ..record },
                ),
                Some(Message::SpriteUpdate { sprite, desc }),
            )
        } else {
            (self, None)
        }
    }

    /// The record after a sprite was removed, and the message that tells of
    /// it.
    pub open spec fn sprite_remove(self, sprite: SpriteReference) -> (Self, Option<Message<L, S>>) {
        if self.sprite_live(sprite) {
            let record = self.layers.get(sprite.layer)->0;
            (
                self.with_layer(
                    sprite.layer,
                    LayerRecord { sprites: record.sprites.remove(sprite.key), ..record },
                ),
                Some(Message::SpriteRemove { sprite }),
            )
        } else {
            (self, None)
        }
    }

    /// The record after a texture was announced. Its reference is
    /// `self.textures.next()`.
    pub open spec fn texture_create(self) -> Self {
        ManagerModel { textures: self.textures.insert(()), ..self }
    }

    /// The record after a texture was announced that is to be loaded from
    /// `path`, and the message that tells of it. Nothing happens where the
    /// arena of textures is full.
    pub open spec fn texture_load(self, path: String) -> (Self, Option<Message<L, S>>) {
        if self.textures.full() {
            (self, None)
        } else {
            (
                self.texture_create(),
                Some(
                    Message::TextureLoad {
                        texture: TextureReference { key: self.textures.next() },
                        path,
                    },
                ),
            )
        }
    }
}

/// One call on the record.
#[allow(inconsistent_fields)]
pub enum Call<L, S> {
    LayerCreate { depth: usize, desc: L },
    LayerUpdate { layer: LayerReference, desc: L },
    LayerRemove { layer: LayerReference },
    LayerClear { layer: LayerReference },
    SpriteCreate { layer: LayerReference, desc: S },
    SpriteUpdate { sprite: SpriteReference, desc: S },
    SpriteRemove { sprite: SpriteReference },
    TextureLoad { path: String },
    WindowTitle { title: String },
}

impl<L, S> ManagerModel<L, S> {
    /// Whether `call` uses a reference that names nothing on record.
    pub open spec fn stale(self, call: Call<L, S>) -> bool {
        match call {
            Call::LayerCreate { depth, desc } => false,
            Call::LayerUpdate { layer, desc } => !self.layers.live(layer.key),
            Call::LayerRemove { layer } => !self.layers.live(layer.key),
            Call::LayerClear { layer } => !self.layers.live(layer.key),
            Call::SpriteCreate { layer, desc } => !self.layers.live(layer.key),
            Call::SpriteUpdate { sprite, desc } => !self.sprite_live(sprite),
            Call::SpriteRemove { sprite } => !self.sprite_live(sprite),
            Call::TextureLoad { path } => false,
            Call::WindowTitle { title } => false,
        }
    }

    /// The record after `call`, and the message that the call yields.
    pub open spec fn step(self, call: Call<L, S>) -> (Self, Option<Message<L, S>>) {
        match call {
            Call::LayerCreate { depth, desc } => self.layer_create(depth, desc),
            Call::LayerUpdate { layer, desc } => self.layer_update(layer, desc),
            Call::LayerRemove { layer } => self.layer_remove(layer),
            Call::LayerClear { layer } => self.layer_clear(layer),
            Call::SpriteCreate { layer, desc } => self.sprite_create(layer, desc),
            Call::SpriteUpdate { sprite, desc } => self.sprite_update(sprite, desc),
            Call::SpriteRemove { sprite } => self.sprite_remove(sprite),
            Call::TextureLoad { path } => self.texture_load(path),
            Call::WindowTitle { title } => (self, Some(Message::WindowTitle { title })),
        }
    }

    /// The record after the calls of `calls`, first to last, and the
    /// messages that they yield, in that order.
    pub open spec fn run(self, calls: Seq<Call<L, S>>) -> (Self, Seq<Message<L, S>>)
        decreases calls.len(),
    {
        if calls.len() == 0 {
            (self, Seq::empty())
        } else {
            let before = self.run(calls.drop_last());
            let now = before.0.step(calls.last());
            (
                now.0,
                match now.1 {
                    Some(message) => before.1.push(message),
                    None => before.1,
                },
            )
        }
    }

    /// A call with a stale reference leaves the record as it is and yields
    /// no message.
    pub proof fn law_stale_call_changes_nothing(self, call: Call<L, S>)
        requires
            self.stale(call),
        ensures
            self.step(call) == (self, None::<Message<L, S>>),
    {
    }

    /// Replacing a live layer's record by one with valid sprites keeps the
    /// invariant, and changes that layer of the scene only.
    pub proof fn lemma_with_layer(self, layer: EntityReference, with: LayerRecord<L, S>)
        requires
            self.wf(),
            self.layers.live(layer),
            with.sprites.wf(),
        ensures
            self.with_layer(layer, with).wf(),
            self.scene().has_layer(layer),
            self.scene().layer(layer) == pictured(layer.generation, self.layers.get(layer)->0),
            self.with_layer(layer, with).scene() == self.scene().with_layer(
                layer,
                pictured(layer.generation, with),
            ),
    {
        let after = self.with_layer(layer, with);
        self.layers.lemma_update(layer, with);
        assert forall|i: int| 0 <= i < after.layers.slots.len() implies ((
        #[trigger] after.layers.slots[i]).value matches Some(record) ==> record.sprites.wf()) by {
            if i != layer.index {
                assert(after.layers.slots[i] == self.layers.slots[i]);
            }
        }
        assert(after.scene().layers =~= self.scene().with_layer(
            layer,
            pictured(layer.generation, with),
        ).layers);
    }

    /// Every call keeps the invariant, and the message that it yields tells
    /// the whole change of the scene: applied to the scene before the call,
    /// it gives the scene after it. A call without a message leaves the
    /// scene as it was.
    pub proof fn lemma_step(self, call: Call<L, S>)
        requires
            self.wf(),
        ensures
            self.step(call).0.wf(),
            match self.step(call).1 {
                Some(message) => self.scene().admits(message) && self.step(call).0.scene()
                    == self.scene().apply(message),
                None => self.step(call).0.scene() == self.scene(),
            },
    {
        let after = self.step(call).0;
        match call {
            Call::LayerCreate { depth, desc } => if !self.layers.full() {
                let record = LayerRecord { depth, desc, sprites: ArenaModel::<S>::empty() };
                self.layers.lemma_insert(record);
                let r = self.layers.next();
                assert forall|i: int| 0 <= i < after.layers.slots.len() implies ((
                #[trigger] after.layers.slots[i]).value matches Some(x) ==> x.sprites.wf()) by {
                    if i != r.index {
                        assert(after.layers.slots[i] == self.layers.slots[i]);
                    }
                }
                assert(record.sprites.tenants() =~= Seq::empty());
                let message = self.step(call).1->0;
                assert(self.scene().admits(message));
                assert(after.scene().layers =~= self.scene().apply(message).layers);
            },
            Call::LayerUpdate { layer, desc } => {
                if self.layers.live(layer.key) {
                    let record = self.layers.get(layer.key)->0;
                    assert(self.layers.slots[layer.key.index as int].value == Some(record));
                    self.lemma_with_layer(layer.key, LayerRecord { desc, ..record });
                }
            },
            Call::LayerRemove { layer } => {
                if self.layers.live(layer.key) {
                    self.layers.lemma_remove(layer.key);
                    assert forall|i: int| 0 <= i < after.layers.slots.len() implies ((
                    #[trigger] after.layers.slots[i]).value matches Some(x) ==> x.sprites.wf()) by {
                        if i != layer.key.index {
                            assert(after.layers.slots[i] == self.layers.slots[i]);
                        }
                    }
                    let message = self.step(call).1->0;
                    assert(self.scene().admits(message));
                    assert(after.scene().layers =~= self.scene().apply(message).layers);
                }
            },
            Call::LayerClear { layer } => {
                if self.layers.live(layer.key) {
                    let record = self.layers.get(layer.key)->0;
                    assert(self.layers.slots[layer.key.index as int].value == Some(record));
                    record.sprites.lemma_clear();
                    self.lemma_with_layer(
                        layer.key,
                        LayerRecord { sprites: record.sprites.clear(), ..record },
                    );
                }
            },
            Call::SpriteCreate { layer, desc } => {
                if self.layers.live(layer.key) && !self.layers.get(layer.key)->0.sprites.full() {
                    let record = self.layers.get(layer.key)->0;
                    assert(self.layers.slots[layer.key.index as int].value == Some(record));
                    record.sprites.lemma_insert(desc);
                    self.lemma_with_layer(
                        layer.key,
                        LayerRecord { sprites: record.sprites.insert(desc), ..record },
                    );
                }
            },
            Call::SpriteUpdate { sprite, desc } => {
                if self.sprite_live(sprite) {
                    let record = self.layers.get(sprite.layer)->0;
                    assert(self.layers.slots[sprite.layer.index as int].value == Some(record));
                    record.sprites.lemma_update(sprite.key, desc);
                    self.lemma_with_layer(
                        sprite.layer,
                        LayerRecord { sprites: record.sprites.update(sprite.key, desc), ..record },
                    );
                }
            },
            Call::SpriteRemove { sprite } => {
                if self.sprite_live(sprite) {
                    let record = self.layers.get(sprite.layer)->0;
                    assert(self.layers.slots[sprite.layer.index as int].value == Some(record));
                    record.sprites.lemma_remove(sprite.key);
                    self.lemma_with_layer(
                        sprite.layer,
                        LayerRecord { sprites: record.sprites.remove(sprite.key), ..record },
                    );
                }
            },
            Call::TextureLoad { path } => {
                if !self.textures.full() {
                    self.textures.lemma_insert(());
                }
            },
            Call::WindowTitle { title } => {},
        }
    }

    /// Whatever calls are made, the messages that they yield, applied in
    /// order to the scene before the calls, give the scene on record after
    /// them: a render side that applies every message mirrors the record.
    pub proof fn law_messages_mirror_record(self, calls: Seq<Call<L, S>>)
        requires
            self.wf(),
        ensures
            self.run(calls).0.wf(),
            self.run(calls).0.scene() == self.scene().applied(self.run(calls).1),
        decreases calls.len(),
    {
        if calls.len() > 0 {
            self.law_messages_mirror_record(calls.drop_last());
            let before = self.run(calls.drop_last());
            before.0.lemma_step(calls.last());
            match before.0.step(calls.last()).1 {
                Some(message) => {
                    assert(before.1.push(message).drop_last() == before.1);
                },
                None => {},
            }
        }
    }
}

/// What the record holds of a layer.
struct LayerState<L, S> {
    depth: usize,
    desc: L,
    sprites: Arena<S>,
}

/// The authoritative record of the scene.
pub struct StateManager<L, S> {
    layers: Arena<LayerState<L, S>>,
    textures: Arena<()>,
}

impl<L, S> LayerState<L, S> {
    spec fn view(&self) -> LayerRecord<L, S> {
        LayerRecord { depth: self.depth, desc: self.desc, sprites: self.sprites@ }
    }
}

spec fn recorded<L, S>(slot: Slot<LayerState<L, S>>) -> Slot<LayerRecord<L, S>> {
    Slot {
        generation: slot.generation,
        value: match slot.value {
            Some(state) => Some(state@),
            None => None,
        },
    }
}

spec fn records<L, S>(layers: ArenaModel<LayerState<L, S>>) -> ArenaModel<LayerRecord<L, S>> {
    ArenaModel {
        slots: layers.slots.map_values(|slot: Slot<LayerState<L, S>>| recorded(slot)),
        free: layers.free,
    }
}

impl<L: Copy, S: Copy> StateManager<L, S> {
    /// The mathematical state of the record.
    pub closed spec fn view(&self) -> ManagerModel<L, S> {
        ManagerModel { layers: records(self.layers@), textures: self.textures@ }
    }

    /// The invariant of the record, which every function keeps.
    pub open spec fn wf(&self) -> bool {
        self@.wf()
    }

    /// The record of a new scene.
    pub fn new() -> (r: StateManager<L, S>)
        ensures
            r.wf(),
            r@ == ManagerModel::<L, S>::initial(),
            r@.scene() == Scene::<L, S>::empty(),
    {
        let mut textures = Arena::new();
        textures.insert(());
        let r = StateManager { layers: Arena::new(), textures };
        assert(r@.layers.slots =~= Seq::empty());
        assert(r@.scene().layers =~= Seq::empty());
        r
    }

    /// Records a new layer.
    pub fn layer_create(&mut self, depth: usize, desc: &L) -> (r: (Message<L, S>, LayerReference))
        requires
            old(self).wf(),
        ensures
            final(self).wf(),
            (final(self)@, Some(r.0)) == old(self)@.layer_create(depth, *desc),
            r.1.key == old(self)@.layers.next(),
            !old(self)@.layers.live(r.1.key),
    {
        let key = self.layers.insert(LayerState { depth, desc: *desc, sprites: Arena::new() });
        let layer = LayerReference { key };
        proof {
            let before = old(self)@.layers;
            let after = before.insert(
                LayerRecord { depth, desc: *desc, sprites: ArenaModel::empty() },
            );
            assert(final(self)@.layers.slots =~= after.slots);
        }
        (Message::LayerCreate { layer, depth, desc: *desc }, layer)
    }

    /// Records the new description of a layer.
    pub fn layer_update(&mut self, layer: &LayerReference, desc: &L) -> (r: Option<Message<L, S>>)
        requires
            old(self).wf(),
        ensures
            final(self).wf(),
            (final(self)@, r) == old(self)@.layer_update(*layer, *desc),
    {
        match self.layers.get_mut(layer.key) {
            Some(state) => {
                state.desc = *desc;
                proof {
                    let after = old(self)@.layer_update(*layer, *desc).0;
                    assert(final(self)@.layers.slots =~= after.layers.slots);
                }
                Some(Message::LayerUpdate { layer: *layer, desc: *desc })
            },
            None => None,
        }
    }

    /// Removes a layer and its sprites from the record.
    pub fn layer_remove(&mut self, layer: &LayerReference) -> (r: Option<Message<L, S>>)
        requires
            old(self).wf(),
        ensures
            final(self).wf(),
            (final(self)@, r) == old(self)@.layer_remove(*layer),
    {
        match self.layers.remove(layer.key) {
            Some(_) => {
                proof {
                    let after = old(self)@.layer_remove(*layer).0;
                    assert(final(self)@.layers.slots =~= after.layers.slots);
                }
                Some(Message::LayerRemove { layer: *layer })
            },
            None => None,
        }
    }

    /// Removes the sprites of a layer from the record.
    pub fn layer_clear(&mut self, layer: &LayerReference) -> (r: Option<Message<L, S>>)
        requires
            old(self).wf(),
        ensures
            final(self).wf(),
            (final(self)@, r) == old(self)@.layer_clear(*layer),
    {
        match self.layers.get_mut(layer.key) {
            Some(state) => {
                proof {
                    state.sprites@.lemma_clear();
                }
                state.sprites.clear();
                proof {
                    let after = old(self)@.layer_clear(*layer).0;
                    assert(final(self)@.layers.slots =~= after.layers.slots);
                }
                Some(Message::LayerClear { layer: *layer })
            },
            None => None,
        }
    }

    /// Records a new sprite in a layer.
    pub fn sprite_create(&mut self, layer: &LayerReference, desc: &S) -> (r: Option<
        (Message<L, S>, SpriteReference),
    >)
        requires
            old(self).wf(),
        ensures
            final(self).wf(),
            (
                final(self)@,
                match r {
                    Some(created) => Some(created.0),
                    None => None,
                },
            ) == old(self)@.sprite_create(*layer, *desc),
            r is Some <==> old(self)@.layers.live(layer.key),
            r matches Some(created) ==> created.1 == old(self)@.next_sprite(*layer)
                && !old(self)@.sprite_live(created.1),
    {
        match self.layers.get_mut(layer.key) {
            Some(state) => {
                let key = state.sprites.insert(*desc);
                let sprite = SpriteReference { layer: layer.key, key };
                proof {
                    let after = old(self)@.sprite_create(*layer, *desc).0;
                    assert(final(self)@.layers.slots =~= after.layers.slots);
                }
                Some((Message::SpriteCreate { sprite, desc: *desc }, sprite))
            },
            None => None,
        }
    }

    /// Records the new description of a sprite.
    pub fn sprite_update(&mut self, sprite: &SpriteReference, desc: &S) -> (r: Option<Message<L, S>>)
        requires
            old(self).wf(),
        ensures
            final(self).wf(),
            (final(self)@, r) == old(self)@.sprite_update(*sprite, *desc),
    {
        match self.layers.get_mut(sprite.layer) {
            Some(state) => {
                if state.sprites.update(sprite.key, *desc) {
                    proof {
                        let after = old(self)@.sprite_update(*sprite, *desc).0;
                        assert(final(self)@.layers.slots =~= after.layers.slots);
                    }
                    Some(Message::SpriteUpdate { sprite: *sprite, desc: *desc })
                } else {
                    assert(final(self)@.layers.slots =~= old(self)@.layers.slots);
                    None
                }
            },
            None => None,
        }
    }

    /// Removes a sprite from the record.
    pub fn sprite_remove(&mut self, sprite: &SpriteReference) -> (r: Option<Message<L, S>>)
        requires
            old(self).wf(),
        ensures
            final(self).wf(),
            (final(self)@, r) == old(self)@.sprite_remove(*sprite),
    {
        match self.layers.get_mut(sprite.layer) {
            Some(state) => {
                match state.sprites.remove(sprite.key) {
                    Some(_) => {
                        proof {
                            let after = old(self)@.sprite_remove(*sprite).0;
                            assert(final(self)@.layers.slots =~= after.layers.slots);
                        }
                        Some(Message::SpriteRemove { sprite: *sprite })
                    },
                    None => {
                        assert(final(self)@.layers.slots =~= old(self)@.layers.slots);
                        None
                    },
                }
            },
            None => None,
        }
    }

    /// Records a texture that is yet to be loaded, and hands out the
    /// reference under which it will be known.
    pub fn texture_create(&mut self) -> (r: TextureReference)
        requires
            old(self).wf(),
        ensures
            final(self).wf(),
            final(self)@ == old(self)@.texture_create(),
            r.key == old(self)@.textures.next(),
            !old(self)@.textures.live(r.key),
            !old(self)@.textures.full(),
    {
        TextureReference { key: self.textures.insert(()) }
    }

    /// Whether `layer` names a layer on record.
    pub fn has_layer(&self, layer: &LayerReference) -> (r: bool)
        ensures
            r == self@.layers.live(layer.key),
    {
        self.layers.contains(layer.key)
    }

    /// Whether `sprite` names a sprite on record.
    pub fn has_sprite(&self, sprite: &SpriteReference) -> (r: bool)
        ensures
            r == self@.sprite_live(*sprite),
    {
        match self.layers.get(sprite.layer) {
            Some(state) => state.sprites.contains(sprite.key),
            None => false,
        }
    }

    /// Whether `texture` names a texture on record.
    pub fn has_texture(&self, texture: &TextureReference) -> (r: bool)
        ensures
            r == self@.textures.live(texture.key),
    {
        self.textures.contains(texture.key)
    }
}

} // verus!
