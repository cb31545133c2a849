//! The logic side's interface: calls that change the scene at once on
//! record, and reach the render side in batches.
//!
//! Each call appends its message to the open batch. Nothing leaves the
//! logic side until [`Engine::window_commit`] seals the batch and hands it
//! to the channel; there is no other way out, and no commit behind the
//! caller's back.

use crate::arena::{ArenaModel, EntityReference};
use crate::channel::{Channel, PushError};
use crate::manager::{default_texture, Call, LayerRecord, ManagerModel, StateManager};
use crate::message::{LayerReference, Message, Scene, SpriteReference, TextureReference};
use vstd::prelude::*;

verus! {

/// Why a commit did not go through. The batch stays open, complete.
#[derive(Clone, Copy, Debug, PartialEq, Eq, Structural)]
pub enum CommitError {
    /// The render side has as many batches waiting as the channel holds.
    Full,
    /// The channel was closed.
    Closed,
}

/// The mathematical state of the logic side.
pub struct EngineModel<L, S> {
    /// The scene on record.
    pub state: ManagerModel<L, S>,
    /// The messages of the open batch, in the order of the calls.
    pub batch: Seq<Message<L, S>>,
}

impl<L, S> EngineModel<L, S> {
    /// The logic side after a call on the record with the outcome
    /// `outcome`: the record is the new one, and the message, if there is
    /// one, ends the open batch.
    pub open spec fn noted(self, outcome: (ManagerModel<L, S>, Option<Message<L, S>>)) -> Self {
        EngineModel {
            state: outcome.0,
            batch: match outcome.1 {
                Some(message) => self.batch.push(message),
                None => self.batch,
            },
        }
    }
}

/// The messages that the rounds of calls in `rounds` yield from the record
/// `state` on, one batch for each round, where each round ends with a
/// commit.
pub open spec fn batches<L, S>(state: ManagerModel<L, S>, rounds: Seq<Seq<Call<L, S>>>) -> Seq<
    Seq<Message<L, S>>,
>
    decreases rounds.len(),
{
    if rounds.len() == 0 {
        Seq::empty()
    } else {
        batches(state, rounds.drop_last()).push(
            record_after(state, rounds.drop_last()).run(rounds.last()).1,
        )
    }
}

/// The record after the rounds of calls in `rounds`.
pub open spec fn record_after<L, S>(state: ManagerModel<L, S>, rounds: Seq<Seq<Call<L, S>>>) -> ManagerModel<
    L,
    S,
>
    decreases rounds.len(),
{
    if rounds.len() == 0 {
        state
    } else {
        record_after(state, rounds.drop_last()).run(rounds.last()).0
    }
}

/// However many rounds of calls are committed, a render side that starts
/// from the scene on record and consumes the batches in the order of the
/// commits shows, after each batch, the scene that was on record at that
/// commit: the effects of a batch are complete before the next one
/// begins, and none is seen out of order.
pub proof fn law_commits_mirror_record<L, S>(
    state: ManagerModel<L, S>,
    rounds: Seq<Seq<Call<L, S>>>,
    k: int,
)
    requires
        state.wf(),
        0 <= k <= rounds.len(),
    ensures
        batches(state, rounds).len() == rounds.len(),
        record_after(state, rounds.take(k)).wf(),
        batches(state, rounds).take(k) == batches(state, rounds.take(k)),
        state.scene().consumed(batches(state, rounds).take(k)) == record_after(
            state,
            rounds.take(k),
        ).scene(),
    decreases rounds.len(),
{
    if rounds.len() == 0 {
        assert(rounds.take(k) =~= rounds);
        assert(batches(state, rounds).take(k) =~= batches(state, rounds));
    } else {
        let front = rounds.drop_last();
        if k == rounds.len() {
            law_commits_mirror_record(state, front, k - 1);
            assert(rounds.take(k) =~= rounds);
            assert(batches(state, rounds).take(k) =~= batches(state, rounds));
            assert(front.take(k - 1) =~= front);
            assert(batches(state, front).take(k - 1) =~= batches(state, front));
            record_after(state, front).law_messages_mirror_record(rounds.last());
            assert(batches(state, rounds).drop_last() =~= batches(state, front));
        } else {
            law_commits_mirror_record(state, front, k);
            assert(rounds.take(k) =~= front.take(k));
            assert(batches(state, rounds).take(k) =~= batches(state, front).take(k));
        }
    }
}

/// The logic side of the pipeline.
pub struct Engine<L, S> {
    render_batch: Vec<Message<L, S>>,
    state_manager: StateManager<L, S>,
}

impl<L: Copy, S: Copy> Engine<L, S> {
    /// The open batch as it will be handed to the channel.
    pub closed spec fn batch(&self) -> Vec<Message<L, S>> {
        self.render_batch
    }

    /// The scene on record.
    pub closed spec fn state(&self) -> ManagerModel<L, S> {
        self.state_manager@
    }

    /// The mathematical state of the logic side.
    pub open spec fn view(&self) -> EngineModel<L, S> {
        EngineModel { state: self.state(), batch: self.batch()@ }
    }

    /// The invariant of the logic side, which every function keeps.
    pub open spec fn wf(&self) -> bool {
        self.state().wf()
    }

    /// A logic side with the record of a new scene and an empty open batch.
    pub fn new() -> (r: Engine<L, S>)
        ensures
            r.wf(),
            r@ == (EngineModel { state: ManagerModel::<L, S>::initial(), batch: Seq::empty() }),
            r@.state.scene() == Scene::<L, S>::empty(),
    {
        Engine { render_batch: Vec::new(), state_manager: StateManager::new() }
    }

    /// Creates a layer.
    pub fn layer_create(&mut self, depth: usize, desc: &L) -> (r: LayerReference)
        requires
            old(self).wf(),
        ensures
            final(self).wf(),
            final(self)@ == old(self)@.noted(old(self)@.state.layer_create(depth, *desc)),
            r.key == old(self)@.state.layers.next(),
            !old(self)@.state.layers.live(r.key),
            final(self)@.state.layers.live(r.key),
    {
        let (message, layer) = self.state_manager.layer_create(depth, desc);
        self.render_batch.push(message);
        proof {
            old(self)@.state.layers.lemma_insert(
                LayerRecord { depth, desc: *desc, sprites: ArenaModel::empty() },
            );
        }
        layer
    }

    /// Describes a layer anew. A stale reference changes nothing.
    pub fn layer_update(&mut self, layer: &LayerReference, desc: &L)
        requires
            old(self).wf(),
        ensures
            final(self).wf(),
            final(self)@ == old(self)@.noted(old(self)@.state.layer_update(*layer, *desc)),
    {
        match self.state_manager.layer_update(layer, desc) {
            Some(message) => self.render_batch.push(message),
            None => {},
        }
    }

    /// Removes a layer with its sprites. A stale reference changes nothing.
    pub fn layer_remove(&mut self, layer: &LayerReference)
        requires
            old(self).wf(),
        ensures
            final(self).wf(),
            final(self)@ == old(self)@.noted(old(self)@.state.layer_remove(*layer)),
    {
        match self.state_manager.layer_remove(layer) {
            Some(message) => self.render_batch.push(message),
            None => {},
        }
    }

    /// Removes the sprites of a layer. A stale reference changes nothing.
    pub fn layer_clear(&mut self, layer: &LayerReference)
        requires
            old(self).wf(),
        ensures
            final(self).wf(),
            final(self)@ == old(self)@.noted(old(self)@.state.layer_clear(*layer)),
    {
        match self.state_manager.layer_clear(layer) {
            Some(message) => self.render_batch.push(message),
            None => {},
        }
    }

    /// Creates a sprite in a layer. A stale reference changes nothing and
    /// gives no sprite.
    pub fn sprite_create(&mut self, layer: &LayerReference, desc: &S) -> (r: Option<SpriteReference>)
        requires
            old(self).wf(),
        ensures
            final(self).wf(),
            final(self)@ == old(self)@.noted(old(self)@.state.sprite_create(*layer, *desc)),
            r is Some <==> old(self)@.state.layers.live(layer.key),
            r matches Some(sprite) ==> sprite == old(self)@.state.next_sprite(*layer)
                && !old(self)@.state.sprite_live(sprite),
    {
        match self.state_manager.sprite_create(layer, desc) {
            Some((message, sprite)) => {
                self.render_batch.push(message);
                Some(sprite)
            },
            None => None,
        }
    }

    /// Describes a sprite anew. A stale reference changes nothing.
    pub fn sprite_update(&mut self, sprite: &SpriteReference, desc: &S)
        requires
            old(self).wf(),
        ensures
            final(self).wf(),
            final(self)@ == old(self)@.noted(old(self)@.state.sprite_update(*sprite, *desc)),
    {
        match self.state_manager.sprite_update(sprite, desc) {
            Some(message) => self.render_batch.push(message),
            None => {},
        }
    }

    /// Removes a sprite. A stale reference changes nothing.
    pub fn sprite_remove(&mut self, sprite: &SpriteReference)
        requires
            old(self).wf(),
        ensures
            final(self).wf(),
            final(self)@ == old(self)@.noted(old(self)@.state.sprite_remove(*sprite)),
    {
        match self.state_manager.sprite_remove(sprite) {
            Some(message) => self.render_batch.push(message),
            None => {},
        }
    }

    /// Announces a texture to be loaded from `path`, and hands out the
    /// reference under which it is known from now on. The render side loads
    /// it when it comes to the message.
    pub fn texture_load(&mut self, path: &str) -> (r: TextureReference)
        requires
            old(self).wf(),
        ensures
            final(self).wf(),
            r.key == old(self)@.state.textures.next(),
            !old(self)@.state.textures.live(r.key),
            final(self)@.batch.len() == old(self)@.batch.len() + 1,
            final(self)@.batch.last() matches Message::TextureLoad { texture, path: p } && texture
                == r && p@ == path@ && final(self)@ == old(self)@.noted(
                old(self)@.state.texture_load(p),
            ),
    {
        let texture = self.state_manager.texture_create();
        self.render_batch.push(Message::TextureLoad { texture, path: path.to_owned() });
        texture
    }

    /// The reference of the texture that every scene starts with.
    pub fn texture_default() -> (r: TextureReference)
        ensures
            r == default_texture(),
            ManagerModel::<L, S>::initial().textures.live(r.key),
    {
        TextureReference { key: EntityReference { index: 0, generation: 0 } }
    }

    /// Asks for the window's title to be `title`.
    pub fn window_title(&mut self, title: &str)
        requires
            old(self).wf(),
        ensures
            final(self).wf(),
            final(self)@.batch.len() == old(self)@.batch.len() + 1,
            final(self)@.batch.last() matches Message::WindowTitle { title: t } && t@ == title@
                && final(self)@ == old(self)@.noted(
                old(self)@.state.step(Call::WindowTitle { title: t }),
            ),
    {
        self.render_batch.push(Message::WindowTitle { title: title.to_owned() });
    }

    /// Whether `layer` names a layer on record.
    pub fn has_layer(&self, layer: &LayerReference) -> (r: bool)
        ensures
            r == self@.state.layers.live(layer.key),
    {
        self.state_manager.has_layer(layer)
    }

    /// Whether `sprite` names a sprite on record.
    pub fn has_sprite(&self, sprite: &SpriteReference) -> (r: bool)
        ensures
            r == self@.state.sprite_live(*sprite),
    {
        self.state_manager.has_sprite(sprite)
    }

    /// Whether `texture` names a texture on record.
    pub fn has_texture(&self, texture: &TextureReference) -> (r: bool)
        ensures
            r == self@.state.textures.live(texture.key),
    {
        self.state_manager.has_texture(texture)
    }

    /// The number of messages in the open batch.
    pub fn pending(&self) -> (r: usize)
        ensures
            r == self@.batch.len(),
    {
        self.render_batch.len()
    }

    /// Seals the open batch and hands it to the channel. Where the channel
    /// takes it, a new, empty batch is open afterwards. Where the channel is
    /// full or closed, the batch stays open as it was, and nothing of it
    /// has left.
    pub fn window_commit(&mut self, pipe: &mut Channel<Vec<Message<L, S>>>) -> (r: Result<
        (),
        CommitError,
    >)
        requires
            old(self).wf(),
            old(pipe).wf(),
        ensures
            final(self).wf(),
            final(pipe).wf(),
            final(self)@.state == old(self)@.state,
            final(pipe)@ == old(pipe)@.push(old(self).batch()).0,
            r == (match old(pipe)@.push(old(self).batch()).1 {
                Ok(_) => Ok::<(), CommitError>(()),
                Err(PushError::Full(_)) => Err(CommitError::Full),
                Err(PushError::Closed(_)) => Err(CommitError::Closed),
            }),
            final(self)@.batch == (if old(pipe)@.accepts() {
                Seq::empty()
            } else {
                old(self)@.batch
            }),
    {
        let mut batch = Vec::new();
        std::mem::swap(&mut batch, &mut self.render_batch);
        match pipe.push(batch) {
            Ok(_) => Ok(()),
            Err(PushError::Full(returned)) => {
                self.render_batch = returned;
                Err(CommitError::Full)
            },
            Err(PushError::Closed(returned)) => {
                self.render_batch = returned;
                Err(CommitError::Closed)
            },
        }
    }
}

} // verus!
