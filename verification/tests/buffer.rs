use storm::buffer::{DynamicBuffer, Transfer, Upload};
use storm::geometry::{DrawCall, DrawMode, GeometryBuffer};

/// A stand-in for the GPU allocation: performs a transfer as the backend
/// would.
fn perform(cells: &mut Vec<Option<u32>>, items: &[u32], upload: Upload) -> usize {
    match upload {
        Upload::Nothing => 0,
        Upload::Range { low, high } => {
            for i in low..high {
                cells[i] = Some(items[i]);
            }
            high - low
        }
        Upload::Full { capacity } => {
            cells.clear();
            cells.resize(capacity, None);
            for (i, item) in items.iter().enumerate() {
                cells[i] = Some(*item);
            }
            items.len()
        }
    }
}

fn visible(cells: &[Option<u32>], len: usize) -> Vec<u32> {
    cells[..len].iter().map(|c| c.unwrap()).collect()
}

#[test]
fn new_buffer_is_empty_and_clean() {
    let mut b: DynamicBuffer<u32> = DynamicBuffer::new();
    assert_eq!(b.len(), 0);
    assert_eq!(b.capacity(), 0);
    assert_eq!(b.sync(), Upload::Nothing);
}

#[test]
fn push_grows_by_doubling() {
    let mut b: DynamicBuffer<u32> = DynamicBuffer::new();
    b.push(1);
    assert_eq!(b.capacity(), 1);
    b.push(2);
    assert_eq!(b.capacity(), 2);
    b.push(3);
    assert_eq!(b.capacity(), 4);
    b.push(4);
    assert_eq!(b.capacity(), 4);
    b.push(5);
    assert_eq!(b.capacity(), 8);
    assert_eq!(b.as_slice(), &[1, 2, 3, 4, 5]);
}

#[test]
fn set_grows_to_exact_need() {
    let mut b: DynamicBuffer<u32> = DynamicBuffer::new();
    b.set(&vec![1, 2, 3, 4, 5]);
    assert_eq!(b.capacity(), 5);
    assert_eq!(b.sync(), Upload::Full { capacity: 5 });
    b.set(&vec![9, 8]);
    assert_eq!(b.capacity(), 5);
    assert_eq!(b.as_slice(), &[9, 8]);
    assert_eq!(b.sync(), Upload::Range { low: 0, high: 2 });
    b.push(7);
    assert_eq!(b.capacity(), 5);
    assert_eq!(b.sync(), Upload::Range { low: 2, high: 3 });
}

#[test]
fn set_flattened_joins_rows() {
    let mut b: DynamicBuffer<u32> = DynamicBuffer::new();
    b.set_flattened(&vec![vec![1, 2], vec![], vec![3]]);
    assert_eq!(b.as_slice(), &[1, 2, 3]);
    assert_eq!(b.capacity(), 3);
    assert_eq!(b.sync(), Upload::Full { capacity: 3 });
}

#[test]
fn swap_remove_uploads_only_the_moved_item() {
    let mut b: DynamicBuffer<u32> = DynamicBuffer::new();
    let mut cells = Vec::new();
    b.push(10);
    b.push(20);
    b.push(30);
    assert_eq!(b.len(), 3);
    let first = b.sync();
    assert_eq!(first, Upload::Full { capacity: 4 });
    perform(&mut cells, b.as_slice(), first);

    b.swap_remove(0);
    assert_eq!(b.as_slice(), &[30, 20]);
    assert_eq!(b.len(), 2);
    let second = b.sync();
    assert_eq!(second, Upload::Range { low: 0, high: 1 });
    assert_eq!(perform(&mut cells, b.as_slice(), second), 1);
    assert_eq!(visible(&cells, b.len()), vec![30, 20]);
}

#[test]
fn swap_remove_of_the_last_item_uploads_nothing() {
    let mut b: DynamicBuffer<u32> = DynamicBuffer::new();
    b.set(&vec![1, 2, 3]);
    b.sync();
    b.swap_remove(2);
    assert_eq!(b.as_slice(), &[1, 2]);
    assert_eq!(b.sync(), Upload::Nothing);
}

#[test]
fn update_widens_the_dirty_range() {
    let mut b: DynamicBuffer<u32> = DynamicBuffer::new();
    b.set(&vec![0, 1, 2, 3, 4, 5]);
    b.sync();
    b.update(4, 40);
    b.update(2, 20);
    assert_eq!(b.as_slice(), &[0, 1, 20, 3, 40, 5]);
    assert_eq!(b.sync(), Upload::Range { low: 2, high: 5 });
}

#[test]
fn clear_keeps_the_allocation() {
    let mut b: DynamicBuffer<u32> = DynamicBuffer::new();
    b.set(&vec![1, 2, 3]);
    b.sync();
    b.update(1, 5);
    b.clear();
    assert_eq!(b.len(), 0);
    assert_eq!(b.capacity(), 3);
    assert_eq!(b.sync(), Upload::Nothing);
    b.push(4);
    assert_eq!(b.capacity(), 3);
    assert_eq!(b.sync(), Upload::Range { low: 0, high: 1 });
}

#[test]
fn second_sync_uploads_nothing() {
    let mut b: DynamicBuffer<u32> = DynamicBuffer::new();
    b.push(1);
    b.push(2);
    assert_eq!(b.sync(), Upload::Full { capacity: 2 });
    assert_eq!(b.sync(), Upload::Nothing);
    b.update(0, 3);
    assert_eq!(b.sync(), Upload::Range { low: 0, high: 1 });
    assert_eq!(b.sync(), Upload::Nothing);
}

#[test]
fn mirror_equals_items_after_every_sync() {
    let mut b: DynamicBuffer<u32> = DynamicBuffer::new();
    let mut cells = Vec::new();
    let mut seed: u32 = 12345;
    for round in 0..200u32 {
        for _ in 0..5 {
            seed = seed.wrapping_mul(1664525).wrapping_add(1013904223);
            let pick = (seed >> 16) % 8;
            let len = b.len();
            if pick < 4 || len == 0 {
                b.push(seed);
            } else if pick < 6 {
                b.update((seed as usize >> 3) % len, round);
            } else if pick < 7 {
                b.swap_remove((seed as usize >> 3) % len);
            } else if round % 50 == 49 {
                b.clear();
            }
        }
        let upload = b.sync();
        perform(&mut cells, b.as_slice(), upload);
        assert_eq!(cells.len(), b.capacity());
        assert_eq!(visible(&cells, b.len()), b.as_slice().to_vec());
        assert_eq!(b.sync(), Upload::Nothing);
    }
}

#[test]
fn geometry_buffer_draws_one_quad_per_instance() {
    let mut g: GeometryBuffer<u32> = GeometryBuffer::new();
    assert_eq!(
        g.draw(),
        DrawCall { mode: DrawMode::TriangleStrip, first: 0, count: 4, instances: 0 }
    );
    g.push(1);
    g.push(2);
    g.set_flattened(&vec![vec![5], vec![6, 7]]);
    g.update(1, 9);
    assert_eq!(g.as_slice(), &[5, 9, 7]);
    assert_eq!(g.sync(), Upload::Full { capacity: 3 });
    g.swap_remove(0);
    assert_eq!(g.as_slice(), &[7, 9]);
    assert_eq!(g.len(), 2);
    assert_eq!(
        g.draw(),
        DrawCall { mode: DrawMode::TriangleStrip, first: 0, count: 4, instances: 2 }
    );
    assert_eq!(g.sync(), Upload::Range { low: 0, high: 1 });
    g.set(&vec![1]);
    g.clear();
    assert_eq!(g.sync(), Upload::Nothing);
}

#[test]
fn transfers_in_bytes() {
    assert_eq!(
        Upload::Nothing.bytes(3, 8),
        Some(Transfer { allocate: None, offset: 0, length: 0, first: 0, count: 0 })
    );
    assert_eq!(
        Upload::Range { low: 1, high: 3 }.bytes(4, 8),
        Some(Transfer { allocate: None, offset: 8, length: 16, first: 1, count: 2 })
    );
    assert_eq!(
        Upload::Full { capacity: 4 }.bytes(3, 8),
        Some(Transfer { allocate: Some(32), offset: 0, length: 24, first: 0, count: 3 })
    );
    assert_eq!(
        Upload::Full { capacity: 4 }.bytes(0, 0),
        Some(Transfer { allocate: Some(0), offset: 0, length: 0, first: 0, count: 0 })
    );
}

#[test]
fn transfers_that_do_not_fit_are_refused() {
    assert_eq!(Upload::Range { low: 3, high: 1 }.bytes(4, 8), None);
    assert_eq!(Upload::Range { low: 1, high: 5 }.bytes(4, 8), None);
    assert_eq!(Upload::Full { capacity: 2 }.bytes(3, 8), None);
    assert_eq!(Upload::Full { capacity: usize::MAX }.bytes(3, 2), None);
    assert_eq!(Upload::Range { low: 0, high: usize::MAX }.bytes(usize::MAX, 2), None);
}
