//! The render side: applies the batches that the logic side committed,
//! keeps one instance buffer for each layer in step with them, and says
//! what the graphics backend has to do for a frame.

use crate::arena::EntityReference;
use crate::buffer::Upload;
use crate::channel::Pop;
use crate::geometry::{quads, DrawCall};
use crate::message::{put, vacant, Message, Scene, TextureReference};
use crate::pass::{LayerPass, PassModel};
use vstd::prelude::*;

verus! {

/// What the backend has to do besides transfers and draws.
#[derive(Debug)]
pub enum Effect {
    /// Read the file at `path` and create the texture known as `texture`
    /// of it.
    LoadTexture { texture: TextureReference, path: String },
    /// Set the window's title.
    WindowTitle { title: String },
}

/// One layer's share of a frame: the transfer that brings its buffer in
/// step, then the draw of its instances.
#[derive(Clone, Copy, Debug, PartialEq, Eq, Structural)]
pub struct Pass {
    /// The slot of the layer.
    pub layer: usize,
    pub depth: usize,
    pub upload: Upload,
    pub draw: DrawCall,
}

/// How a turn of the render loop went.
#[derive(Clone, Copy, Debug, PartialEq, Eq, Structural)]
pub enum Turn {
    /// A batch was ready and was applied in full.
    Drained,
    /// No batch was ready: the scene is drawn as it was, and the loop may
    /// rest until the next frame is due.
    Idle,
    /// The channel is closed and empty: nothing is drawn, and the loop
    /// ends.
    Closed,
}

/// What the backend has to do for one frame, in this order: the effects,
/// then the passes, then the swap of the display's buffers.
#[derive(Debug)]
pub struct Frame {
    pub turn: Turn,
    pub effects: Vec<Effect>,
    pub passes: Vec<Pass>,
}

/// The time that the render loop rests after a turn that took `elapsed`,
/// where a frame is due every `interval`: what is left of the interval, and
/// nothing where the turn took that long or longer.
pub fn rest(interval: u64, elapsed: u64) -> (r: u64)
    ensures
        r == (if elapsed < interval {
            interval - elapsed
        } else {
            0
        }),
{
    if elapsed < interval {
        interval - elapsed
    } else {
        0
    }
}

/// The effect that `message` asks of the backend, if any.
pub open spec fn effect_of<L, S>(message: Message<L, S>) -> Option<Effect> {
    match message {
        Message::TextureLoad { texture, path } => Some(Effect::LoadTexture { texture, path }),
        Message::WindowTitle { title } => Some(Effect::WindowTitle { title }),
        _ => None,
    }
}

/// The effects that the messages of `batch` ask for, in their order.
pub open spec fn effects_of<L, S>(batch: Seq<Message<L, S>>) -> Seq<Effect>
    decreases batch.len(),
{
    if batch.len() == 0 {
        Seq::empty()
    } else {
        match effect_of(batch.last()) {
            Some(effect) => effects_of(batch.drop_last()).push(effect),
            None => effects_of(batch.drop_last()),
        }
    }
}

/// The mathematical state of the render side.
pub struct ConsumerModel<L, S> {
    /// The copies of the layers, by slot.
    pub layers: Seq<Option<PassModel<L, S>>>,
}

impl<L, S> ConsumerModel<L, S> {
    /// The invariant: the slots can be counted in a machine word, and every
    /// copy of a layer is valid.
    pub open spec fn wf(self) -> bool {
        &&& self.layers.len() <= usize::MAX
        &&& forall|i: int|
            0 <= i < self.layers.len() ==> ((#[trigger] self.layers[i]) matches Some(pass)
                ==> pass.wf())
    }

    /// A render side without layers.
    pub open spec fn empty() -> Self {
        ConsumerModel { layers: Seq::empty() }
    }

    /// The scene that the render side shows.
    pub open spec fn scene(self) -> Scene<L, S> {
        Scene {
            layers: Seq::new(
                self.layers.len(),
                |i: int|
                    match self.layers[i] {
                        Some(pass) => Some(pass.picture()),
                        None => None,
                    },
            ),
        }
    }

    /// Whether `layer` names a layer that the render side has a copy of.
    pub open spec fn has_layer(self, layer: EntityReference) -> bool {
        &&& layer.index < self.layers.len()
        &&& self.layers[layer.index as int] matches Some(pass)
        &&& pass.generation == layer.generation
    }

    /// The copy of the layer that `layer` names.
    pub open spec fn pass(self, layer: EntityReference) -> PassModel<L, S> {
        self.layers[layer.index as int]->0
    }

    /// The render side with the copy of the layer that `layer` names
    /// replaced by `with`, if there is such a layer.
    pub open spec fn with_pass(self, layer: EntityReference, with: PassModel<L, S>) -> Self {
        if self.has_layer(layer) {
            ConsumerModel { layers: self.layers.update(layer.index as int, Some(with)) }
        } else {
            self
        }
    }

    /// The render side after `message`.
    pub open spec fn apply(self, message: Message<L, S>) -> Self {
        match message {
            Message::LayerCreate { layer, depth, desc } => if vacant(
                self.layers,
                layer.key.index as int,
            ) {
                ConsumerModel {
                    layers: put(
                        self.layers,
                        layer.key.index as int,
                        PassModel::fresh(layer.key.generation, depth, desc),
                    ),
                }
            } else {
                self
            },
            Message::LayerUpdate { layer, desc } => self.with_pass(
                layer.key,
                PassModel { desc, ..self.pass(layer.key) },
            ),
            Message::LayerRemove { layer } => if self.has_layer(layer.key) {
                ConsumerModel { layers: self.layers.update(layer.key.index as int, None) }
            } else {
                self
            },
            Message::LayerClear { layer } => self.with_pass(
                layer.key,
                self.pass(layer.key).discard_all(),
            ),
            Message::SpriteCreate { sprite, desc } => self.with_pass(
                sprite.layer,
                self.pass(sprite.layer).place(sprite.key, desc),
            ),
            Message::SpriteUpdate { sprite, desc } => self.with_pass(
                sprite.layer,
                self.pass(sprite.layer).replace(sprite.key, desc),
            ),
            Message::SpriteRemove { sprite } => self.with_pass(
                sprite.layer,
                self.pass(sprite.layer).discard(sprite.key),
            ),
            Message::TextureLoad { texture, path } => self,
            Message::WindowTitle { title } => self,
        }
    }

    /// The render side after the messages of `batch`, first to last.
    pub open spec fn applied(self, batch: Seq<Message<L, S>>) -> Self
        decreases batch.len(),
    {
        if batch.len() == 0 {
            self
        } else {
            self.applied(batch.drop_last()).apply(batch.last())
        }
    }

    /// The render side after the pending transfer of every layer was
    /// handed out and performed.
    pub open spec fn synced(self) -> Self {
        ConsumerModel {
            layers: Seq::new(
                self.layers.len(),
                |i: int|
                    match self.layers[i] {
                        Some(pass) => Some(PassModel { buffer: pass.buffer.sync(), ..pass }),
                        None => None,
                    },
            ),
        }
    }

    /// Whether the GPU holds the instances of every layer, with nothing
    /// pending.
    pub open spec fn in_step(self) -> bool {
        forall|i: int|
            0 <= i < self.layers.len() ==> ((#[trigger] self.layers[i]) matches Some(pass)
                ==> pass.buffer.in_step() && pass.buffer.pending() == Upload::Nothing)
    }

    /// The passes of the layers in the slots below `n`, lowest slot first.
    pub open spec fn passes_below(self, n: nat) -> Seq<Pass>
        decreases n,
    {
        if n == 0 {
            Seq::empty()
        } else {
            match self.layers[n - 1] {
                Some(pass) => self.passes_below((n - 1) as nat).push(
                    Pass {
                        layer: (n - 1) as usize,
                        depth: pass.depth,
                        upload: pass.buffer.pending(),
                        draw: quads(pass.buffer.items.len()),
                    },
                ),
                None => self.passes_below((n - 1) as nat),
            }
        }
    }

    /// The passes of a frame: one for each layer, lowest slot first.
    pub open spec fn passes(self) -> Seq<Pass> {
        self.passes_below(self.layers.len())
    }

    /// The render side after a tick that popped `popped`, and what the
    /// frame holds: how the turn went, the effects and the passes. A batch
    /// is applied in full before anything is transferred or drawn; no batch
    /// means the same scene once more.
    pub open spec fn tick(self, popped: Pop<Vec<Message<L, S>>>) -> (Self, (Turn, Seq<Effect>, Seq<Pass>)) {
        match popped {
            Pop::Item(batch) => (
                self.applied(batch@).synced(),
                (Turn::Drained, effects_of(batch@), self.applied(batch@).passes()),
            ),
            Pop::Empty => (self.synced(), (Turn::Idle, Seq::empty(), self.passes())),
            Pop::Closed => (self, (Turn::Closed, Seq::empty(), Seq::empty())),
        }
    }

    /// Replacing a layer's copy by a valid one keeps the invariant, and
    /// changes that layer of the scene only.
    pub proof fn lemma_with_pass(self, layer: EntityReference, with: PassModel<L, S>)
        requires
            self.wf(),
            with.wf(),
            self.has_layer(layer) ==> with.generation == layer.generation,
        ensures
            self.with_pass(layer, with).wf(),
            self.has_layer(layer) == self.scene().has_layer(layer),
            self.has_layer(layer) ==> self.scene().layer(layer) == self.pass(layer).picture(),
            self.with_pass(layer, with).scene() == self.scene().with_layer(layer, with.picture()),
    {
        let after = self.with_pass(layer, with);
        assert(after.scene().layers =~= self.scene().with_layer(layer, with.picture()).layers);
    }

    /// Every message keeps the invariant, and changes the scene that the
    /// render side shows exactly as the message says.
    pub proof fn lemma_apply(self, message: Message<L, S>)
        requires
            self.wf(),
        ensures
            self.apply(message).wf(),
            self.apply(message).scene() == self.scene().apply(message),
    {
        let after = self.apply(message);
        match message {
            Message::LayerCreate { layer, depth, desc } => {
                if vacant(self.layers, layer.key.index as int) {
                    let pass = PassModel::<L, S>::fresh(layer.key.generation, depth, desc);
                    assert(pass.picture().sprites =~= Seq::empty());
                    assert(pass.wf());
                    assert(after.scene().layers =~= self.scene().apply(message).layers);
                }
            },
            Message::LayerUpdate { layer, desc } => {
                if self.has_layer(layer.key) {
                    self.lemma_with_pass(layer.key, PassModel { desc, ..self.pass(layer.key) });
                } else {
                    assert(self.scene().layers =~= self.scene().apply(message).layers);
                }
            },
            Message::LayerRemove { layer } => {
                assert(after.scene().layers =~= self.scene().apply(message).layers);
            },
            Message::LayerClear { layer } => {
                if self.has_layer(layer.key) {
                    self.pass(layer.key).lemma_discard_all();
                    self.lemma_with_pass(layer.key, self.pass(layer.key).discard_all());
                } else {
                    assert(self.scene().layers =~= self.scene().apply(message).layers);
                }
            },
            Message::SpriteCreate { sprite, desc } => {
                if self.has_layer(sprite.layer) {
                    self.pass(sprite.layer).lemma_place(sprite.key, desc);
                    self.lemma_with_pass(
                        sprite.layer,
                        self.pass(sprite.layer).place(sprite.key, desc),
                    );
                } else {
                    assert(self.scene().layers =~= self.scene().apply(message).layers);
                }
            },
            Message::SpriteUpdate { sprite, desc } => {
                if self.has_layer(sprite.layer) {
                    self.pass(sprite.layer).lemma_replace(sprite.key, desc);
                    self.lemma_with_pass(
                        sprite.layer,
                        self.pass(sprite.layer).replace(sprite.key, desc),
                    );
                } else {
                    assert(self.scene().layers =~= self.scene().apply(message).layers);
                }
            },
            Message::SpriteRemove { sprite } => {
                if self.has_layer(sprite.layer) {
                    self.pass(sprite.layer).lemma_discard(sprite.key);
                    self.lemma_with_pass(sprite.layer, self.pass(sprite.layer).discard(sprite.key));
                } else {
                    assert(self.scene().layers =~= self.scene().apply(message).layers);
                }
            },
            Message::TextureLoad { texture, path } => {},
            Message::WindowTitle { title } => {},
        }
    }

    /// A batch keeps the invariant, and changes the scene that the render
    /// side shows exactly as its messages say, in their order.
    pub proof fn lemma_applied(self, batch: Seq<Message<L, S>>)
        requires
            self.wf(),
        ensures
            self.applied(batch).wf(),
            self.applied(batch).scene() == self.scene().applied(batch),
        decreases batch.len(),
    {
        if batch.len() > 0 {
            self.lemma_applied(batch.drop_last());
            self.applied(batch.drop_last()).lemma_apply(batch.last());
        }
    }

    /// Transfers change nothing of the scene, and after them the GPU holds
    /// every layer's instances and nothing is pending.
    pub proof fn lemma_synced(self)
        requires
            self.wf(),
        ensures
            self.synced().wf(),
            self.synced().scene() == self.scene(),
            self.synced().synced() == self.synced(),
            self.synced().in_step(),
    {
        assert forall|i: int| 0 <= i < self.layers.len() implies ((
        #[trigger] self.synced().layers[i]) matches Some(pass) ==> pass.wf() && pass.buffer.in_step()
            && pass.buffer.pending() == Upload::Nothing && pass.buffer.sync() == pass.buffer) by {
            if self.layers[i] is Some {
                self.layers[i]->0.buffer.lemma_sync_in_step();
            }
        }
        assert(self.synced().scene().layers =~= self.scene().layers) by {
            assert forall|i: int| 0 <= i < self.layers.len() implies self.synced().scene().layers[i]
                == self.scene().layers[i] by {
                if self.layers[i] is Some {
                    assert(self.synced().layers[i]->0.picture().sprites =~= self.layers[i]->0.picture().sprites);
                }
            }
        }
        assert(self.synced().synced().layers =~= self.synced().layers);
    }

    /// However many batches the render side consumes, one tick for each,
    /// it ends up showing the scene that their messages give when applied
    /// in the order of the batches, each batch in full before the next.
    pub proof fn law_ticks_consume_in_order(self, batches: Seq<Vec<Message<L, S>>>)
        requires
            self.wf(),
        ensures
            self.ticked(batches).wf(),
            self.ticked(batches).scene() == self.scene().consumed(
                batches.map_values(|batch: Vec<Message<L, S>>| batch@),
            ),
        decreases batches.len(),
    {
        let views = batches.map_values(|batch: Vec<Message<L, S>>| batch@);
        if batches.len() > 0 {
            self.law_ticks_consume_in_order(batches.drop_last());
            let before = self.ticked(batches.drop_last());
            before.lemma_applied(batches.last()@);
            before.applied(batches.last()@).lemma_synced();
            assert(views.drop_last() =~= batches.drop_last().map_values(
                |batch: Vec<Message<L, S>>| batch@,
            ));
        }
    }

    /// The render side after one tick for each batch of `batches`, first
    /// to last.
    pub open spec fn ticked(self, batches: Seq<Vec<Message<L, S>>>) -> Self
        decreases batches.len(),
    {
        if batches.len() == 0 {
            self
        } else {
            self.ticked(batches.drop_last()).tick(Pop::Item(batches.last())).0
        }
    }
}

/// The render side of the pipeline.
pub struct RenderConsumer<L, S: Copy> {
    layers: Vec<Option<LayerPass<L, S>>>,
}

spec fn shown<L, S: Copy>(slot: Option<LayerPass<L, S>>) -> Option<PassModel<L, S>> {
    match slot {
        Some(pass) => Some(pass@),
        None => None,
    }
}

impl<L: Copy, S: Copy> RenderConsumer<L, S> {
    /// The mathematical state of the render side.
    pub closed spec fn view(&self) -> ConsumerModel<L, S> {
        ConsumerModel {
            layers: self.layers@.map_values(|slot: Option<LayerPass<L, S>>| shown(slot)),
        }
    }

    /// The invariant of the render side, which every function keeps.
    pub open spec fn wf(&self) -> bool {
        self@.wf()
    }

    /// The scene that the render side shows.
    pub open spec fn scene(&self) -> Scene<L, S> {
        self@.scene()
    }

    /// A render side without layers.
    pub fn new() -> (r: RenderConsumer<L, S>)
        ensures
            r.wf(),
            r@ == ConsumerModel::<L, S>::empty(),
            r.scene() == Scene::<L, S>::empty(),
    {
        let r = RenderConsumer { layers: Vec::new() };
        assert(r@.layers =~= Seq::empty());
        assert(r.scene().layers =~= Seq::empty());
        r
    }

    /// The copy of the layer that `layer` names, to be changed in place.
    fn pass_mut(&mut self, layer: EntityReference) -> (out: Option<&mut LayerPass<L, S>>)
        ensures
            match out {
                Some(pass) => {
                    &&& old(self)@.has_layer(layer)
                    &&& old(self).layers@[layer.index as int] == Some(*pass)
                    &&& final(self).layers@ == old(self).layers@.update(
                        layer.index as int,
                        Some(*final(pass)),
                    )
                },
                None => !old(self)@.has_layer(layer) && final(self).layers@ == old(self).layers@,
            },
    {
        if layer.index < self.layers.len() {
            let live = match &self.layers[layer.index] {
                Some(pass) => pass.generation == layer.generation,
                None => false,
            };
            if live {
                return self.layers[layer.index].as_mut();
            }
        }
        None
    }

    /// Applies one message. A message that names what is not there, or
    /// asks for a slot that is taken, changes nothing.
    pub fn apply(&mut self, message: Message<L, S>) -> (effect: Option<Effect>)
        requires
            old(self).wf(),
        ensures
            final(self).wf(),
            final(self)@ == old(self)@.apply(message),
            final(self).scene() == old(self).scene().apply(message),
            effect == effect_of(message),
    {
        proof {
            old(self)@.lemma_apply(message);
        }
        let ghost target = old(self)@.apply(message);
        match message {
            Message::LayerCreate { layer, depth, desc } => {
                let index = layer.key.index;
                let n = self.layers.len();
                if index <= n && index < usize::MAX {
                    if index == n {
                        self.layers.push(Some(LayerPass::new(layer.key.generation, depth, desc)));
                        assert(self@.layers =~= target.layers);
                    } else if self.layers[index].is_none() {
                        self.layers[index] = Some(LayerPass::new(layer.key.generation, depth, desc));
                        assert(self@.layers =~= target.layers);
                    }
                }
                None
            },
            Message::LayerUpdate { layer, desc } => {
                match self.pass_mut(layer.key) {
                    Some(pass) => {
                        pass.desc = desc;
                    },
                    None => {},
                }
                assert(self@.layers =~= target.layers);
                None
            },
            Message::LayerRemove { layer } => {
                match self.pass_mut(layer.key) {
                    Some(_) => {
                        self.layers[layer.key.index] = None;
                    },
                    None => {},
                }
                assert(self@.layers =~= target.layers);
                None
            },
            Message::LayerClear { layer } => {
                match self.pass_mut(layer.key) {
                    Some(pass) => {
                        pass.discard_all();
                    },
                    None => {},
                }
                assert(self@.layers =~= target.layers);
                None
            },
            Message::SpriteCreate { sprite, desc } => {
                match self.pass_mut(sprite.layer) {
                    Some(pass) => {
                        pass.place(sprite.key, desc);
                    },
                    None => {},
                }
                assert(self@.layers =~= target.layers);
                None
            },
            Message::SpriteUpdate { sprite, desc } => {
                match self.pass_mut(sprite.layer) {
                    Some(pass) => {
                        pass.replace(sprite.key, desc);
                    },
                    None => {},
                }
                assert(self@.layers =~= target.layers);
                None
            },
            Message::SpriteRemove { sprite } => {
                match self.pass_mut(sprite.layer) {
                    Some(pass) => {
                        pass.discard(sprite.key);
                    },
                    None => {},
                }
                assert(self@.layers =~= target.layers);
                None
            },
            Message::TextureLoad { texture, path } => Some(Effect::LoadTexture { texture, path }),
            Message::WindowTitle { title } => Some(Effect::WindowTitle { title }),
        }
    }

    /// Applies every message of `batch`, first to last, and collects the
    /// effects that they ask for.
    fn drain(&mut self, batch: Vec<Message<L, S>>) -> (effects: Vec<Effect>)
        requires
            old(self).wf(),
        ensures
            final(self).wf(),
            final(self)@ == old(self)@.applied(batch@),
            effects@ == effects_of(batch@),
    {
        let mut effects = Vec::new();
        let ghost messages = batch@;
        for message in it: batch
            invariant
                it.seq() == messages,
                self.wf(),
                self@ == old(self)@.applied(messages.take(it.index() as int)),
                effects@ == effects_of(messages.take(it.index() as int)),
        {
            assert(messages.take(it.index() + 1).drop_last() =~= messages.take(it.index() as int));
            match self.apply(message) {
                Some(effect) => effects.push(effect),
                None => {},
            }
        }
        assert(messages.take(messages.len() as int) =~= messages);
        effects
    }

    /// Hands out the pending transfer of every layer, with the draw that
    /// follows it.
    fn sync_all(&mut self) -> (passes: Vec<Pass>)
        requires
            old(self).wf(),
        ensures
            final(self).wf(),
            final(self)@ == old(self)@.synced(),
            passes@ == old(self)@.passes(),
    {
        proof {
            old(self)@.lemma_synced();
        }
        let mut passes = Vec::new();
        let n = self.layers.len();
        let mut i: usize = 0;
        while i < n
            invariant
                i <= n,
                n == old(self)@.layers.len(),
                self.layers@.len() == n,
                old(self).wf(),
                forall|j: int| 0 <= j < i ==> shown(#[trigger] self.layers@[j]) == old(self)@.synced().layers[j],
                forall|j: int| i <= j < n ==> #[trigger] self.layers@[j] == old(self).layers@[j],
                passes@ == old(self)@.passes_below(i as nat),
            decreases n - i,
        {
            assert(shown(old(self).layers@[i as int]) == old(self)@.layers[i as int]);
            match self.layers[i].as_mut() {
                Some(pass) => {
                    let upload = pass.buffer.sync();
                    let draw = pass.buffer.draw();
                    passes.push(Pass { layer: i, depth: pass.depth, upload, draw });
                },
                None => {},
            }
            i += 1;
        }
        assert(self@.layers =~= old(self)@.synced().layers);
        passes
    }

    /// One turn of the render loop. With a batch, every message of it is
    /// applied in order before anything is transferred or drawn. Without
    /// one the scene is drawn as it is, so that the render side never
    /// waits for the logic side. A closed channel ends the loop.
    pub fn tick(&mut self, popped: Pop<Vec<Message<L, S>>>) -> (frame: Frame)
        requires
            old(self).wf(),
        ensures
            final(self).wf(),
            (final(self)@, (frame.turn, frame.effects@, frame.passes@)) == old(self)@.tick(popped),
            final(self).scene() == (match popped {
                Pop::Item(batch) => old(self).scene().applied(batch@),
                _ => old(self).scene(),
            }),
            !(popped is Closed) ==> final(self)@.in_step(),
    {
        match popped {
            Pop::Item(batch) => {
                proof {
                    old(self)@.lemma_applied(batch@);
                    old(self)@.applied(batch@).lemma_synced();
                }
                let effects = self.drain(batch);
                let passes = self.sync_all();
                Frame { turn: Turn::Drained, effects, passes }
            },
            Pop::Empty => {
                proof {
                    old(self)@.lemma_synced();
                }
                let passes = self.sync_all();
                Frame { turn: Turn::Idle, effects: Vec::new(), passes }
            },
            Pop::Closed => Frame { turn: Turn::Closed, effects: Vec::new(), passes: Vec::new() },
        }
    }

    /// The number of layer slots, empty ones included.
    pub fn slots(&self) -> (r: usize)
        ensures
            r == self@.layers.len(),
    {
        self.layers.len()
    }

    /// The instances of the layer in slot `layer`, for the backend to read
    /// the source of a transfer from.
    pub fn instances(&self, layer: usize) -> (r: Option<&[S]>)
        ensures
            match r {
                Some(items) => {
                    &&& layer < self@.layers.len()
                    &&& self@.layers[layer as int] matches Some(pass)
                    &&& items@ == pass.buffer.items
                },
                None => !(layer < self@.layers.len() && self@.layers[layer as int] is Some),
            },
    {
        if layer < self.layers.len() {
            match &self.layers[layer] {
                Some(pass) => Some(pass.buffer.as_slice()),
                None => None,
            }
        } else {
            None
        }
    }

    /// The description of the layer in slot `layer`.
    pub fn description(&self, layer: usize) -> (r: Option<L>)
        ensures
            match r {
                Some(desc) => {
                    &&& layer < self@.layers.len()
                    &&& self@.layers[layer as int] matches Some(pass)
                    &&& desc == pass.desc
                },
                None => !(layer < self@.layers.len() && self@.layers[layer as int] is Some),
            },
    {
        if layer < self.layers.len() {
            match &self.layers[layer] {
                Some(pass) => Some(pass.desc),
                None => None,
            }
        } else {
            None
        }
    }
}

} // verus!
