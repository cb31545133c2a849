use storm::arena::{Arena, EntityReference};

#[test]
fn arena_hands_out_fresh_slots_at_generation_zero() {
    let mut arena: Arena<&str> = Arena::new();
    let a = arena.insert("a");
    let b = arena.insert("b");
    assert_eq!(a, EntityReference { index: 0, generation: 0 });
    assert_eq!(b, EntityReference { index: 1, generation: 0 });
    assert_eq!(arena.slots(), 2);
    assert_eq!(arena.get(a), Some(&"a"));
    assert_eq!(arena.get(b), Some(&"b"));
    assert!(arena.contains(a));
}

#[test]
fn arena_reuses_the_slot_given_back_last_at_the_next_generation() {
    let mut arena: Arena<u32> = Arena::new();
    let a = arena.insert(1);
    let b = arena.insert(2);
    let c = arena.insert(3);
    assert_eq!(arena.remove(a), Some(1));
    assert_eq!(arena.remove(c), Some(3));
    let d = arena.insert(4);
    let e = arena.insert(5);
    let f = arena.insert(6);
    assert_eq!(d, EntityReference { index: 2, generation: 1 });
    assert_eq!(e, EntityReference { index: 0, generation: 1 });
    assert_eq!(f, EntityReference { index: 3, generation: 0 });
    assert_eq!(arena.get(b), Some(&2));
    assert_eq!(arena.slots(), 4);
}

#[test]
fn stale_reference_names_nothing() {
    let mut arena: Arena<u32> = Arena::new();
    let a = arena.insert(1);
    assert_eq!(arena.remove(a), Some(1));
    assert!(!arena.contains(a));
    assert_eq!(arena.get(a), None);
    assert_eq!(arena.remove(a), None);
    assert!(!arena.update(a, 9));
    assert!(arena.get_mut(a).is_none());
    let b = arena.insert(2);
    assert_eq!(b.index, a.index);
    assert!(!arena.contains(a));
    assert_eq!(arena.get(a), None);
    assert_eq!(arena.get(b), Some(&2));
    let never = EntityReference { index: 7, generation: 0 };
    assert!(!arena.contains(never));
    assert_eq!(arena.remove(never), None);
}

#[test]
fn arena_update_and_get_mut_change_in_place() {
    let mut arena: Arena<u32> = Arena::new();
    let a = arena.insert(1);
    assert!(arena.update(a, 5));
    assert_eq!(arena.get(a), Some(&5));
    *arena.get_mut(a).unwrap() += 2;
    assert_eq!(arena.get(a), Some(&7));
}

#[test]
fn arena_clear_makes_every_reference_stale() {
    let mut arena: Arena<u32> = Arena::new();
    let a = arena.insert(1);
    let b = arena.insert(2);
    arena.remove(a);
    let c = arena.insert(3);
    arena.clear();
    assert_eq!(arena.slots(), 2);
    assert!(!arena.contains(a));
    assert!(!arena.contains(b));
    assert!(!arena.contains(c));
    let d = arena.insert(4);
    let e = arena.insert(5);
    assert_eq!(d, EntityReference { index: 1, generation: 1 });
    assert_eq!(e, EntityReference { index: 0, generation: 2 });
}
