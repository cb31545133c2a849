use storm::arena::EntityReference;
use storm::buffer::Upload;
use storm::channel::{Channel, Pop};
use storm::consumer::{rest, Effect, Frame, Pass, RenderConsumer, Turn};
use storm::engine::{CommitError, Engine};
use storm::geometry::{DrawCall, DrawMode};
use storm::manager::StateManager;
use storm::message::{LayerReference, Message, SpriteReference, TextureReference};

#[derive(Clone, Copy, Debug, PartialEq)]
struct Layer {
    zoom: f32,
}

#[derive(Clone, Copy, Debug, PartialEq, PartialOrd)]
struct Sprite {
    x: f32,
    y: f32,
}

type Batch = Vec<Message<Layer, Sprite>>;

fn sprite(x: f32, y: f32) -> Sprite {
    Sprite { x, y }
}

fn quads(instances: usize) -> DrawCall {
    DrawCall { mode: DrawMode::TriangleStrip, first: 0, count: 4, instances }
}

fn key(index: usize, generation: u64) -> EntityReference {
    EntityReference { index, generation }
}

fn tick(consumer: &mut RenderConsumer<Layer, Sprite>, pipe: &mut Channel<Batch>) -> Frame {
    let popped = pipe.try_pop();
    consumer.tick(popped)
}

#[test]
fn manager_yields_one_message_for_each_change() {
    let mut m: StateManager<Layer, Sprite> = StateManager::new();
    let (message, layer) = m.layer_create(3, &Layer { zoom: 1.0 });
    assert_eq!(layer, LayerReference { key: key(0, 0) });
    match message {
        Message::LayerCreate { layer: l, depth, desc } => {
            assert_eq!(l, layer);
            assert_eq!(depth, 3);
            assert_eq!(desc, Layer { zoom: 1.0 });
        }
        other => panic!("unexpected {:?}", other),
    }
    assert!(m.has_layer(&layer));
    let (message, s) = m.sprite_create(&layer, &sprite(1.0, 2.0)).unwrap();
    assert_eq!(s, SpriteReference { layer: key(0, 0), key: key(0, 0) });
    assert!(matches!(message, Message::SpriteCreate { sprite: r, desc } if r == s && desc == sprite(1.0, 2.0)));
    assert!(m.has_sprite(&s));
    assert!(matches!(
        m.sprite_update(&s, &sprite(5.0, 6.0)),
        Some(Message::SpriteUpdate { sprite: r, desc }) if r == s && desc == sprite(5.0, 6.0)
    ));
    assert!(matches!(
        m.layer_update(&layer, &Layer { zoom: 2.0 }),
        Some(Message::LayerUpdate { layer: l, desc }) if l == layer && desc == Layer { zoom: 2.0 }
    ));
    assert!(matches!(m.sprite_remove(&s), Some(Message::SpriteRemove { sprite: r }) if r == s));
    assert!(!m.has_sprite(&s));
    assert!(matches!(m.layer_clear(&layer), Some(Message::LayerClear { layer: l }) if l == layer));
    assert!(matches!(m.layer_remove(&layer), Some(Message::LayerRemove { layer: l }) if l == layer));
    assert!(!m.has_layer(&layer));
}

#[test]
fn stale_references_change_nothing_and_yield_no_message() {
    let mut m: StateManager<Layer, Sprite> = StateManager::new();
    let (_, layer) = m.layer_create(0, &Layer { zoom: 1.0 });
    let (_, s) = m.sprite_create(&layer, &sprite(1.0, 1.0)).unwrap();
    assert!(m.sprite_remove(&s).is_some());
    assert!(m.sprite_remove(&s).is_none());
    assert!(m.sprite_update(&s, &sprite(2.0, 2.0)).is_none());
    let (_, s2) = m.sprite_create(&layer, &sprite(3.0, 3.0)).unwrap();
    assert_eq!(s2.key, key(0, 1));
    assert!(m.sprite_update(&s, &sprite(9.0, 9.0)).is_none());
    assert!(m.has_sprite(&s2));

    assert!(m.layer_remove(&layer).is_some());
    assert!(m.layer_remove(&layer).is_none());
    assert!(m.layer_update(&layer, &Layer { zoom: 3.0 }).is_none());
    assert!(m.layer_clear(&layer).is_none());
    assert!(m.sprite_create(&layer, &sprite(0.0, 0.0)).is_none());
    assert!(m.sprite_update(&s2, &sprite(0.0, 0.0)).is_none());
    assert!(m.sprite_remove(&s2).is_none());
    assert!(!m.has_sprite(&s2));

    let (_, again) = m.layer_create(0, &Layer { zoom: 1.0 });
    assert_eq!(again.key, key(0, 1));
    assert!(m.layer_update(&layer, &Layer { zoom: 3.0 }).is_none());
    assert!(!m.has_sprite(&s2));
    let never = LayerReference { key: key(40, 0) };
    assert!(m.layer_remove(&never).is_none());
}

#[test]
fn layer_clear_makes_its_sprites_stale() {
    let mut m: StateManager<Layer, Sprite> = StateManager::new();
    let (_, layer) = m.layer_create(0, &Layer { zoom: 1.0 });
    let (_, other) = m.layer_create(1, &Layer { zoom: 1.0 });
    let (_, a) = m.sprite_create(&layer, &sprite(1.0, 1.0)).unwrap();
    let (_, b) = m.sprite_create(&other, &sprite(2.0, 2.0)).unwrap();
    assert!(m.layer_clear(&layer).is_some());
    assert!(!m.has_sprite(&a));
    assert!(m.has_sprite(&b));
    assert!(m.sprite_update(&a, &sprite(0.0, 0.0)).is_none());
    assert!(m.has_layer(&layer));
}

#[test]
fn textures_start_with_the_default_one() {
    let mut m: StateManager<Layer, Sprite> = StateManager::new();
    let default = Engine::<Layer, Sprite>::texture_default();
    assert_eq!(default, TextureReference { key: key(0, 0) });
    assert!(m.has_texture(&default));
    let t = m.texture_create();
    assert_eq!(t, TextureReference { key: key(1, 0) });
    assert!(m.has_texture(&t));
    assert!(!m.has_texture(&TextureReference { key: key(2, 0) }));
}

#[test]
fn engine_commits_only_on_commit() {
    let mut engine: Engine<Layer, Sprite> = Engine::new();
    let mut pipe: Channel<Batch> = Channel::new(4);
    let layer = engine.layer_create(0, &Layer { zoom: 1.0 });
    engine.sprite_create(&layer, &sprite(1.0, 1.0)).unwrap();
    engine.window_title("hello");
    assert_eq!(engine.pending(), 3);
    assert_eq!(pipe.len(), 0);
    assert_eq!(engine.window_commit(&mut pipe), Ok(()));
    assert_eq!(engine.pending(), 0);
    assert_eq!(pipe.len(), 1);
    match pipe.try_pop() {
        Pop::Item(batch) => {
            assert_eq!(batch.len(), 3);
            assert!(matches!(batch[0], Message::LayerCreate { .. }));
            assert!(matches!(batch[1], Message::SpriteCreate { .. }));
            assert!(matches!(&batch[2], Message::WindowTitle { title } if title == "hello"));
        }
        other => panic!("unexpected {:?}", other),
    }
}

#[test]
fn engine_ignores_stale_references() {
    let mut engine: Engine<Layer, Sprite> = Engine::new();
    let layer = engine.layer_create(0, &Layer { zoom: 1.0 });
    let s = engine.sprite_create(&layer, &sprite(1.0, 1.0)).unwrap();
    engine.sprite_remove(&s);
    assert_eq!(engine.pending(), 3);
    engine.sprite_remove(&s);
    engine.sprite_update(&s, &sprite(2.0, 2.0));
    engine.layer_remove(&layer);
    assert_eq!(engine.pending(), 4);
    engine.layer_update(&layer, &Layer { zoom: 2.0 });
    engine.layer_clear(&layer);
    engine.layer_remove(&layer);
    assert_eq!(engine.sprite_create(&layer, &sprite(0.0, 0.0)), None);
    assert_eq!(engine.pending(), 4);
    assert!(!engine.has_layer(&layer));
    assert!(!engine.has_sprite(&s));
    assert!(engine.has_texture(&Engine::<Layer, Sprite>::texture_default()));
    let next = engine.layer_create(0, &Layer { zoom: 1.0 });
    assert!(engine.has_layer(&next));
    assert!(!engine.has_layer(&layer));
}

#[test]
fn commit_into_a_full_channel_keeps_the_batch_open() {
    let mut engine: Engine<Layer, Sprite> = Engine::new();
    let mut pipe: Channel<Batch> = Channel::new(4);
    for depth in 0..4 {
        engine.layer_create(depth, &Layer { zoom: 1.0 });
        assert_eq!(engine.window_commit(&mut pipe), Ok(()));
    }
    engine.layer_create(4, &Layer { zoom: 1.0 });
    engine.window_title("fifth");
    assert_eq!(engine.window_commit(&mut pipe), Err(CommitError::Full));
    assert_eq!(engine.pending(), 2);
    assert_eq!(pipe.len(), 4);
    for depth in 0..4usize {
        match pipe.try_pop() {
            Pop::Item(batch) => {
                assert_eq!(batch.len(), 1);
                assert!(matches!(batch[0], Message::LayerCreate { depth: d, .. } if d == depth));
            }
            other => panic!("unexpected {:?}", other),
        }
    }
    assert_eq!(engine.window_commit(&mut pipe), Ok(()));
    assert_eq!(engine.pending(), 0);
    match pipe.try_pop() {
        Pop::Item(batch) => {
            assert_eq!(batch.len(), 2);
            assert!(matches!(batch[0], Message::LayerCreate { depth: 4, .. }));
        }
        other => panic!("unexpected {:?}", other),
    }
}

#[test]
fn commit_into_a_closed_channel_fails() {
    let mut engine: Engine<Layer, Sprite> = Engine::new();
    let mut pipe: Channel<Batch> = Channel::new(4);
    pipe.close();
    engine.window_title("late");
    assert_eq!(engine.window_commit(&mut pipe), Err(CommitError::Closed));
    assert_eq!(engine.pending(), 1);
}

#[test]
fn texture_load_announces_the_path() {
    let mut engine: Engine<Layer, Sprite> = Engine::new();
    let mut pipe: Channel<Batch> = Channel::new(4);
    let mut consumer: RenderConsumer<Layer, Sprite> = RenderConsumer::new();
    let t = engine.texture_load("atlas.png");
    assert_eq!(t, TextureReference { key: key(1, 0) });
    engine.window_title("storm");
    engine.window_commit(&mut pipe).unwrap();
    let frame = tick(&mut consumer, &mut pipe);
    assert_eq!(frame.effects.len(), 2);
    assert!(matches!(&frame.effects[0], Effect::LoadTexture { texture, path } if *texture == t && path == "atlas.png"));
    assert!(matches!(&frame.effects[1], Effect::WindowTitle { title } if title == "storm"));
    assert!(frame.passes.is_empty());
    assert_eq!(frame.turn, Turn::Drained);
}

#[test]
fn batches_are_applied_in_the_order_of_the_commits() {
    let mut engine: Engine<Layer, Sprite> = Engine::new();
    let mut pipe: Channel<Batch> = Channel::new(4);
    let mut consumer: RenderConsumer<Layer, Sprite> = RenderConsumer::new();

    let layer = engine.layer_create(7, &Layer { zoom: 1.0 });
    let s = engine.sprite_create(&layer, &sprite(1.0, 1.0)).unwrap();
    engine.sprite_update(&s, &sprite(2.0, 3.0));
    engine.window_commit(&mut pipe).unwrap();
    engine.sprite_remove(&s);
    engine.window_commit(&mut pipe).unwrap();

    let first = tick(&mut consumer, &mut pipe);
    assert_eq!(
        first.passes,
        vec![Pass { layer: 0, depth: 7, upload: Upload::Full { capacity: 1 }, draw: quads(1) }]
    );
    assert_eq!(consumer.instances(0), Some(&[sprite(2.0, 3.0)][..]));

    let second = tick(&mut consumer, &mut pipe);
    assert_eq!(
        second.passes,
        vec![Pass { layer: 0, depth: 7, upload: Upload::Nothing, draw: quads(0) }]
    );
    assert_eq!(consumer.instances(0), Some(&[][..]));

    let idle = tick(&mut consumer, &mut pipe);
    assert_eq!(idle.turn, Turn::Idle);
    assert_eq!(idle.passes, second.passes);
    assert!(idle.effects.is_empty());
}

#[test]
fn n_commits_give_n_batches_first_in_first_out() {
    let mut engine: Engine<Layer, Sprite> = Engine::new();
    let mut pipe: Channel<Batch> = Channel::new(4);
    let mut consumer: RenderConsumer<Layer, Sprite> = RenderConsumer::new();
    let layer = engine.layer_create(0, &Layer { zoom: 1.0 });
    engine.window_commit(&mut pipe).unwrap();
    for round in 0..3 {
        engine.sprite_create(&layer, &sprite(round as f32, 0.0)).unwrap();
        engine.window_commit(&mut pipe).unwrap();
    }
    assert_eq!(pipe.len(), 4);
    let mut seen = Vec::new();
    for _ in 0..4 {
        tick(&mut consumer, &mut pipe);
        seen.push(consumer.instances(0).unwrap().len());
    }
    assert_eq!(seen, vec![0, 1, 2, 3]);
    assert_eq!(
        consumer.instances(0).unwrap(),
        &[sprite(0.0, 0.0), sprite(1.0, 0.0), sprite(2.0, 0.0)]
    );
    assert!(matches!(pipe.try_pop(), Pop::Empty));
}

#[test]
fn remove_after_create_in_one_batch_leaves_nothing() {
    let mut engine: Engine<Layer, Sprite> = Engine::new();
    let mut pipe: Channel<Batch> = Channel::new(4);
    let mut consumer: RenderConsumer<Layer, Sprite> = RenderConsumer::new();
    let layer = engine.layer_create(0, &Layer { zoom: 1.0 });
    let s = engine.sprite_create(&layer, &sprite(1.0, 1.0)).unwrap();
    engine.sprite_remove(&s);
    let gone = engine.layer_create(1, &Layer { zoom: 1.0 });
    engine.layer_remove(&gone);
    engine.window_commit(&mut pipe).unwrap();
    let frame = tick(&mut consumer, &mut pipe);
    assert_eq!(frame.passes.len(), 1);
    assert_eq!(frame.passes[0].draw, quads(0));
    assert_eq!(consumer.instances(0), Some(&[][..]));
    assert_eq!(consumer.instances(1), None);
    assert_eq!(consumer.slots(), 2);
}

#[test]
fn swap_remove_keeps_every_other_sprite_reachable() {
    let mut engine: Engine<Layer, Sprite> = Engine::new();
    let mut pipe: Channel<Batch> = Channel::new(4);
    let mut consumer: RenderConsumer<Layer, Sprite> = RenderConsumer::new();
    let layer = engine.layer_create(0, &Layer { zoom: 1.0 });
    let a = engine.sprite_create(&layer, &sprite(1.0, 0.0)).unwrap();
    let b = engine.sprite_create(&layer, &sprite(2.0, 0.0)).unwrap();
    let c = engine.sprite_create(&layer, &sprite(3.0, 0.0)).unwrap();
    engine.window_commit(&mut pipe).unwrap();
    let frame = tick(&mut consumer, &mut pipe);
    assert_eq!(frame.passes[0].upload, Upload::Full { capacity: 4 });

    engine.sprite_remove(&a);
    engine.window_commit(&mut pipe).unwrap();
    let frame = tick(&mut consumer, &mut pipe);
    assert_eq!(frame.passes[0].upload, Upload::Range { low: 0, high: 1 });
    assert_eq!(frame.passes[0].draw, quads(2));
    assert_eq!(consumer.instances(0).unwrap(), &[sprite(3.0, 0.0), sprite(2.0, 0.0)]);

    engine.sprite_update(&c, &sprite(30.0, 0.0));
    engine.sprite_update(&b, &sprite(20.0, 0.0));
    engine.sprite_update(&a, &sprite(10.0, 0.0));
    engine.window_commit(&mut pipe).unwrap();
    let frame = tick(&mut consumer, &mut pipe);
    assert_eq!(frame.passes[0].upload, Upload::Range { low: 0, high: 2 });
    assert_eq!(consumer.instances(0).unwrap(), &[sprite(30.0, 0.0), sprite(20.0, 0.0)]);

    let d = engine.sprite_create(&layer, &sprite(4.0, 0.0)).unwrap();
    assert_eq!(d.key, key(0, 1));
    engine.sprite_remove(&c);
    engine.sprite_update(&d, &sprite(40.0, 0.0));
    engine.window_commit(&mut pipe).unwrap();
    tick(&mut consumer, &mut pipe);
    assert_eq!(consumer.instances(0).unwrap(), &[sprite(40.0, 0.0), sprite(20.0, 0.0)]);
}

#[test]
fn layer_clear_and_update_reach_the_render_side() {
    let mut engine: Engine<Layer, Sprite> = Engine::new();
    let mut pipe: Channel<Batch> = Channel::new(4);
    let mut consumer: RenderConsumer<Layer, Sprite> = RenderConsumer::new();
    let layer = engine.layer_create(2, &Layer { zoom: 1.0 });
    let a = engine.sprite_create(&layer, &sprite(1.0, 0.0)).unwrap();
    engine.sprite_create(&layer, &sprite(2.0, 0.0)).unwrap();
    engine.window_commit(&mut pipe).unwrap();
    tick(&mut consumer, &mut pipe);
    assert_eq!(consumer.description(0), Some(Layer { zoom: 1.0 }));

    engine.layer_update(&layer, &Layer { zoom: 4.0 });
    engine.layer_clear(&layer);
    engine.sprite_update(&a, &sprite(9.0, 9.0));
    let b = engine.sprite_create(&layer, &sprite(5.0, 0.0)).unwrap();
    engine.window_commit(&mut pipe).unwrap();
    let frame = tick(&mut consumer, &mut pipe);
    assert_eq!(consumer.description(0), Some(Layer { zoom: 4.0 }));
    assert_eq!(consumer.instances(0).unwrap(), &[sprite(5.0, 0.0)]);
    assert_eq!(
        frame.passes,
        vec![Pass { layer: 0, depth: 2, upload: Upload::Range { low: 0, high: 1 }, draw: quads(1) }]
    );
    assert_eq!(b.key.generation, 1);
}

#[test]
fn render_side_ignores_messages_that_name_nothing() {
    let mut consumer: RenderConsumer<Layer, Sprite> = RenderConsumer::new();
    let layer = LayerReference { key: key(0, 0) };
    let stale = LayerReference { key: key(0, 5) };
    let far = LayerReference { key: key(9, 0) };
    assert!(consumer.apply(Message::LayerCreate { layer: far, depth: 0, desc: Layer { zoom: 1.0 } }).is_none());
    assert_eq!(consumer.slots(), 0);
    consumer.apply(Message::LayerCreate { layer, depth: 0, desc: Layer { zoom: 1.0 } });
    consumer.apply(Message::LayerCreate { layer: stale, depth: 9, desc: Layer { zoom: 9.0 } });
    assert_eq!(consumer.description(0), Some(Layer { zoom: 1.0 }));
    consumer.apply(Message::LayerUpdate { layer: stale, desc: Layer { zoom: 9.0 } });
    consumer.apply(Message::LayerRemove { layer: stale });
    consumer.apply(Message::LayerClear { layer: far });
    assert_eq!(consumer.description(0), Some(Layer { zoom: 1.0 }));
    let s = SpriteReference { layer: layer.key, key: key(0, 0) };
    consumer.apply(Message::SpriteCreate { sprite: s, desc: sprite(1.0, 1.0) });
    consumer.apply(Message::SpriteCreate { sprite: s, desc: sprite(2.0, 2.0) });
    consumer.apply(Message::SpriteCreate {
        sprite: SpriteReference { layer: layer.key, key: key(5, 0) },
        desc: sprite(3.0, 3.0),
    });
    consumer.apply(Message::SpriteUpdate {
        sprite: SpriteReference { layer: layer.key, key: key(0, 1) },
        desc: sprite(4.0, 4.0),
    });
    consumer.apply(Message::SpriteRemove { sprite: SpriteReference { layer: stale.key, key: key(0, 0) } });
    assert_eq!(consumer.instances(0).unwrap(), &[sprite(1.0, 1.0)]);
    consumer.apply(Message::LayerRemove { layer });
    assert_eq!(consumer.instances(0), None);
    assert_eq!(consumer.description(0), None);
}

#[test]
fn closed_and_drained_channel_ends_the_loop() {
    let mut engine: Engine<Layer, Sprite> = Engine::new();
    let mut pipe: Channel<Batch> = Channel::new(4);
    let mut consumer: RenderConsumer<Layer, Sprite> = RenderConsumer::new();
    engine.layer_create(0, &Layer { zoom: 1.0 });
    engine.window_commit(&mut pipe).unwrap();
    pipe.close();
    let frame = tick(&mut consumer, &mut pipe);
    assert_eq!(frame.turn, Turn::Drained);
    assert_eq!(frame.passes.len(), 1);
    let frame = tick(&mut consumer, &mut pipe);
    assert_eq!(frame.turn, Turn::Closed);
    assert!(frame.passes.is_empty());
    assert!(frame.effects.is_empty());
}

#[test]
fn mirror_follows_the_record_through_many_rounds() {
    let mut engine: Engine<Layer, Sprite> = Engine::new();
    let mut pipe: Channel<Batch> = Channel::new(4);
    let mut consumer: RenderConsumer<Layer, Sprite> = RenderConsumer::new();
    let layer = engine.layer_create(0, &Layer { zoom: 1.0 });
    let mut live: Vec<(SpriteReference, Sprite)> = Vec::new();
    let mut gpu: Vec<Option<Sprite>> = Vec::new();
    let mut seed: u32 = 7;
    for round in 0..300u32 {
        for _ in 0..4 {
            seed = seed.wrapping_mul(1664525).wrapping_add(1013904223);
            let pick = (seed >> 16) % 5;
            if pick < 2 || live.is_empty() {
                let desc = sprite(seed as f32, round as f32);
                let s = engine.sprite_create(&layer, &desc).unwrap();
                live.push((s, desc));
            } else if pick < 4 {
                let i = (seed as usize >> 4) % live.len();
                let desc = sprite(round as f32, seed as f32);
                engine.sprite_update(&live[i].0, &desc);
                live[i].1 = desc;
            } else {
                let i = (seed as usize >> 4) % live.len();
                let (s, _) = live.remove(i);
                engine.sprite_remove(&s);
                engine.sprite_update(&s, &sprite(-1.0, -1.0));
            }
        }
        engine.window_commit(&mut pipe).unwrap();
        let frame = tick(&mut consumer, &mut pipe);
        let items = consumer.instances(0).unwrap();
        match frame.passes[0].upload {
            Upload::Nothing => {}
            Upload::Range { low, high } => {
                for i in low..high {
                    gpu[i] = Some(items[i]);
                }
            }
            Upload::Full { capacity } => {
                gpu = vec![None; capacity];
                for (i, item) in items.iter().enumerate() {
                    gpu[i] = Some(*item);
                }
            }
        }
        assert_eq!(frame.passes[0].draw, quads(live.len()));
        let mut shown: Vec<Sprite> = gpu[..items.len()].iter().map(|c| c.unwrap()).collect();
        let mut expected: Vec<Sprite> = live.iter().map(|(_, d)| *d).collect();
        shown.sort_by(|a, b| a.partial_cmp(b).unwrap());
        expected.sort_by(|a, b| a.partial_cmp(b).unwrap());
        assert_eq!(shown, expected);
    }
}

#[test]
fn render_loop_rests_for_what_is_left_of_the_interval() {
    assert_eq!(rest(16, 5), 11);
    assert_eq!(rest(16, 16), 0);
    assert_eq!(rest(16, 40), 0);
    assert_eq!(rest(0, 0), 0);
    assert_eq!(rest(u64::MAX, 1), u64::MAX - 1);
}
