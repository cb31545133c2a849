//! A growable array on the CPU that mirrors a GPU allocation.
//!
//! The buffer never talks to the graphics backend itself. Every mutation
//! widens a single dirty range, and [`DynamicBuffer::sync`] hands out the one
//! transfer that brings the allocation back in step. [`BufferModel`] is the
//! mathematical state of a buffer, the cells of the GPU allocation included,
//! so that the contracts can say what the GPU holds once the transfer has
//! been performed.

use vstd::prelude::*;

verus! {

/// The transfer that brings a GPU allocation in step with the CPU-side items.
#[derive(Clone, Copy, Debug, PartialEq, Eq, Structural)]
pub enum Upload {
    /// The allocation already holds the items.
    Nothing,
    /// Write the items at positions `low..high` over the same positions of
    /// the allocation.
    Range { low: usize, high: usize },
    /// Allocate anew for `capacity` items and write all items from position 0.
    Full { capacity: usize },
}

/// The dirty range `range` widened to cover `index`. A range is a pair of a
/// first position and a position one past the last; it is empty when the
/// first is not below the second.
pub open spec fn marked(range: (int, int), index: int) -> (int, int) {
    if range.0 >= range.1 {
        (index, index + 1)
    } else {
        (
            if index < range.0 { index } else { range.0 },
            if index + 1 > range.1 { index + 1 } else { range.1 },
        )
    }
}

/// The part of the dirty range `range` that lies below `len`. The empty range
/// is always given as `(0, 0)`.
pub open spec fn clamped(range: (int, int), len: int) -> (int, int) {
    if range.0 >= range.1 || range.0 >= len {
        (0, 0)
    } else {
        (range.0, if range.1 > len { len } else { range.1 })
    }
}

/// The capacity chosen when `need` items no longer fit in `capacity`: twice
/// the old capacity, as far as the machine's word allows, or the exact need,
/// whichever is larger.
pub open spec fn grown(capacity: int, need: int) -> int {
    let doubled = if 2 * capacity > usize::MAX { usize::MAX as int } else { 2 * capacity };
    if doubled > need { doubled } else { need }
}

/// The cells of a GPU allocation after `upload` has been performed on
/// `cells` with `items` as its source. A cell that was never written holds
/// `None`.
pub open spec fn uploaded<T>(cells: Seq<Option<T>>, items: Seq<T>, upload: Upload) -> Seq<Option<T>> {
    match upload {
        Upload::Nothing => cells,
        Upload::Range { low, high } => Seq::new(
            cells.len(),
            |i: int| if low <= i < high { Some(items[i]) } else { cells[i] },
        ),
        Upload::Full { capacity } => Seq::new(
            capacity as nat,
            |i: int| if i < items.len() { Some(items[i]) } else { None },
        ),
    }
}

/// A transfer in bytes, for a backend that counts in bytes.
#[derive(Clone, Copy, Debug, PartialEq, Eq, Structural)]
pub struct Transfer {
    /// The size of the allocation to make first, if one is to be made.
    pub allocate: Option<usize>,
    /// Where in the allocation the first byte is written.
    pub offset: usize,
    /// The number of bytes written.
    pub length: usize,
    /// The position of the first item written.
    pub first: usize,
    /// The number of items written.
    pub count: usize,
}

/// What `upload` comes to in bytes where `len` items of `stride` bytes each
/// are its source: `None` where the upload does not fit the items, or a
/// byte count does not fit the machine's word.
pub open spec fn in_bytes(upload: Upload, len: int, stride: int) -> Option<Transfer> {
    match upload {
        Upload::Nothing => Some(
            Transfer { allocate: None, offset: 0, length: 0, first: 0, count: 0 },
        ),
        Upload::Range { low, high } => if low <= high <= len && high * stride <= usize::MAX {
            Some(
                Transfer {
                    allocate: None,
                    offset: (low * stride) as usize,
                    length: ((high - low) * stride) as usize,
                    first: low,
                    count: (high - low) as usize,
                },
            )
        } else {
            None
        },
        Upload::Full { capacity } => if len <= capacity && capacity * stride <= usize::MAX {
            Some(
                Transfer {
                    allocate: Some((capacity * stride) as usize),
                    offset: 0,
                    length: (len * stride) as usize,
                    first: 0,
                    count: len as usize,
                },
            )
        } else {
            None
        },
    }
}

impl Upload {
    /// The transfer in bytes, where `len` items of `stride` bytes each are
    /// its source.
    pub fn bytes(&self, len: usize, stride: usize) -> (r: Option<Transfer>)
        ensures
            r == in_bytes(*self, len as int, stride as int),
    {
        match *self {
            Upload::Nothing => Some(
                Transfer { allocate: None, offset: 0, length: 0, first: 0, count: 0 },
            ),
            Upload::Range { low, high } => {
                if low > high || high > len {
                    return None;
                }
                match high.checked_mul(stride) {
                    Some(end) => {
                        assert(low * stride <= high * stride && (high - low) * stride == high * stride
                            - low * stride) by (nonlinear_arith)
                            requires
                                low <= high,
                                0 <= stride,
                        ;
                        let offset = low * stride;
                        Some(
                            Transfer {
                                allocate: None,
                                offset,
                                length: end - offset,
                                first: low,
                                count: high - low,
                            },
                        )
                    },
                    None => None,
                }
            },
            Upload::Full { capacity } => {
                if len > capacity {
                    return None;
                }
                match capacity.checked_mul(stride) {
                    Some(total) => {
                        assert(len * stride <= capacity * stride) by (nonlinear_arith)
                            requires
                                len <= capacity,
                                0 <= stride,
                        ;
                        Some(
                            Transfer {
                                allocate: Some(total),
                                offset: 0,
                                length: len * stride,
                                first: 0,
                                count: len,
                            },
                        )
                    },
                    None => None,
                }
            },
        }
    }
}

/// Whether the first `items.len()` cells hold exactly `items`.
pub open spec fn shows<T>(cells: Seq<Option<T>>, items: Seq<T>) -> bool {
    &&& items.len() <= cells.len()
    &&& forall|i: int| 0 <= i < items.len() ==> cells[i] == Some(#[trigger] items[i])
}

/// The mathematical state of a buffer.
pub struct BufferModel<T> {
    /// The CPU-side items.
    pub items: Seq<T>,
    /// The number of items that the GPU allocation has room for, once any
    /// pending reallocation has been performed.
    pub capacity: int,
    /// The range of positions whose items may differ from the cells.
    pub dirty: (int, int),
    /// Whether the capacity changed since the last sync, so that the next one
    /// has to allocate anew.
    pub resized: bool,
    /// The cells of the GPU allocation, provided every transfer handed out so
    /// far has been performed.
    pub cells: Seq<Option<T>>,
}

/// One mutation of a buffer.
pub enum Edit<T> {
    Push { item: T },
    Update { index: int, item: T },
    SwapRemove { index: int },
    Clear,
    Replace { items: Seq<T> },
}

impl<T> BufferModel<T> {
    /// The invariant: the items fit in the allocation, the dirty range is
    /// `(0, 0)` or a non-empty range within the items, and unless a
    /// reallocation is pending the cells hold the items outside the dirty
    /// range.
    pub open spec fn wf(self) -> bool {
        &&& self.items.len() <= self.capacity <= usize::MAX
        &&& self.dirty == (0int, 0int) || 0 <= self.dirty.0 < self.dirty.1 <= self.items.len()
        &&& !self.resized ==> {
            &&& self.cells.len() == self.capacity
            &&& forall|i: int|
                0 <= i < self.items.len() && !(self.dirty.0 <= i < self.dirty.1) ==> self.cells[i]
                    == Some(#[trigger] self.items[i])
        }
    }

    /// A buffer without items and without a GPU allocation.
    pub open spec fn empty() -> Self {
        BufferModel {
            items: Seq::empty(),
            capacity: 0,
            dirty: (0, 0),
            resized: false,
            cells: Seq::empty(),
        }
    }

    /// The buffer with `need` items made to fit: where they exceed the
    /// capacity, it becomes `room` and a reallocation is pending.
    pub open spec fn fitted(self, need: int, room: int) -> Self {
        if need <= self.capacity {
            self
        } else {
            BufferModel { capacity: room, resized: true, ..self }
        }
    }

    /// The buffer after `item` was appended: the new position is dirty, and
    /// where the allocation was full it grows by the growth policy.
    pub open spec fn push(self, item: T) -> Self {
        let len = self.items.len() as int;
        BufferModel {
            items: self.items.push(item),
            dirty: marked(self.dirty, len),
            ..self
        }.fitted(len + 1, grown(self.capacity, len + 1))
    }

    /// The buffer after the item at `index` was replaced by `item`: the
    /// position is dirty.
    pub open spec fn update(self, index: int, item: T) -> Self {
        BufferModel {
            items: self.items.update(index, item),
            dirty: marked(self.dirty, index),
            ..self
        }
    }

    /// The buffer after the item at `index` was removed: the last item
    /// stands in its place, which is dirty as far as it is still a position
    /// of the buffer.
    pub open spec fn swap_remove(self, index: int) -> Self {
        BufferModel {
            items: self.items.update(index, self.items.last()).drop_last(),
            dirty: clamped(marked(self.dirty, index), self.items.len() - 1),
            ..self
        }
    }

    /// The buffer after all items were removed: nothing is dirty, and the
    /// allocation stays.
    pub open spec fn clear(self) -> Self {
        BufferModel { items: Seq::empty(), dirty: (0, 0), ..self }
    }

    /// The buffer after its items were replaced by `items`: all of them are
    /// dirty, and where they exceed the allocation it is made anew at
    /// their number.
    pub open spec fn set(self, items: Seq<T>) -> Self {
        BufferModel { items, dirty: (0, items.len() as int), ..self }.fitted(
            items.len() as int,
            items.len() as int,
        )
    }

    /// The transfer that the next sync hands out.
    pub open spec fn pending(self) -> Upload {
        if self.resized {
            Upload::Full { capacity: self.capacity as usize }
        } else if self.dirty.0 < self.dirty.1 {
            Upload::Range { low: self.dirty.0 as usize, high: self.dirty.1 as usize }
        } else {
            Upload::Nothing
        }
    }

    /// The buffer after the pending transfer has been handed out and
    /// performed.
    pub open spec fn sync(self) -> Self {
        BufferModel {
            dirty: (0, 0),
            resized: false,
            cells: uploaded(self.cells, self.items, self.pending()),
            ..self
        }
    }

    /// Whether the GPU-visible cells hold exactly the items.
    pub open spec fn in_step(self) -> bool {
        shows(self.cells, self.items)
    }

    /// Whether `edit` is one that the buffer takes: a position lies within
    /// the items, and the number of items stays within the machine's word.
    pub open spec fn admits(self, edit: Edit<T>) -> bool {
        match edit {
            Edit::Push { item } => self.items.len() < usize::MAX,
            Edit::Update { index, item } => 0 <= index < self.items.len(),
            Edit::SwapRemove { index } => 0 <= index < self.items.len(),
            Edit::Clear => true,
            Edit::Replace { items } => items.len() <= usize::MAX,
        }
    }

    /// The buffer after `edit`; one that it does not admit leaves it as it
    /// is.
    pub open spec fn edited(self, edit: Edit<T>) -> Self {
        if !self.admits(edit) {
            self
        } else {
            match edit {
                Edit::Push { item } => self.push(item),
                Edit::Update { index, item } => self.update(index, item),
                Edit::SwapRemove { index } => self.swap_remove(index),
                Edit::Clear => self.clear(),
                Edit::Replace { items } => self.set(items),
            }
        }
    }

    /// The buffer after the edits in `edits`, first to last.
    pub open spec fn run(self, edits: Seq<Edit<T>>) -> Self
        decreases edits.len(),
    {
        if edits.len() == 0 {
            self
        } else {
            self.run(edits.drop_last()).edited(edits.last())
        }
    }

    /// Any edit keeps the invariant.
    pub proof fn lemma_edited_wf(self, edit: Edit<T>)
        requires
            self.wf(),
        ensures
            self.edited(edit).wf(),
    {
    }

    /// Any sequence of edits keeps the invariant.
    pub proof fn lemma_run_wf(self, edits: Seq<Edit<T>>)
        requires
            self.wf(),
        ensures
            self.run(edits).wf(),
        decreases edits.len(),
    {
        if edits.len() > 0 {
            self.lemma_run_wf(edits.drop_last());
            self.run(edits.drop_last()).lemma_edited_wf(edits.last());
        }
    }

    /// A sync brings the cells in step with the items, whatever was pending,
    /// and leaves nothing pending.
    pub proof fn lemma_sync_in_step(self)
        requires
            self.wf(),
        ensures
            self.sync().wf(),
            self.sync().in_step(),
            self.sync().items == self.items,
            self.sync().pending() == Upload::Nothing,
    {
    }

    /// What is pending on a valid buffer fits its items, so that it comes to a
    /// transfer in bytes wherever the allocation can be counted in bytes.
    pub proof fn law_pending_fits(self, stride: int)
        requires
            self.wf(),
            0 <= stride,
            self.capacity * stride <= usize::MAX,
        ensures
            in_bytes(self.pending(), self.items.len() as int, stride) is Some,
    {
        assert(self.dirty.1 * stride <= self.capacity * stride) by (nonlinear_arith)
            requires
                self.dirty.1 <= self.capacity,
                0 <= stride,
        ;
    }

    /// After any sequence of edits on a valid buffer, a sync leaves the
    /// GPU-visible cells equal to the items, and a second sync right after
    /// it transfers nothing.
    pub proof fn law_sync_mirrors_edits(self, edits: Seq<Edit<T>>)
        requires
            self.wf(),
        ensures
            self.run(edits).sync().in_step(),
            self.run(edits).sync().items == self.run(edits).items,
            self.run(edits).sync().pending() == Upload::Nothing,
            self.run(edits).sync().sync() == self.run(edits).sync(),
    {
        self.lemma_run_wf(edits);
        self.run(edits).lemma_sync_in_step();
    }
}

/// The rows of `rows` one after another.
pub open spec fn flattened<T>(rows: Seq<Vec<T>>) -> Seq<T>
    decreases rows.len(),
{
    if rows.len() == 0 {
        Seq::empty()
    } else {
        flattened(rows.drop_last()) + rows.last()@
    }
}

/// CPU-side items together with what is known of their GPU mirror.
pub struct DynamicBuffer<T> {
    items: Vec<T>,
    capacity: usize,
    dirty_low: usize,
    dirty_high: usize,
    resized: bool,
    cells: Ghost<Seq<Option<T>>>,
}

impl<T> DynamicBuffer<T> {
    /// The mathematical state of the buffer.
    pub closed spec fn view(&self) -> BufferModel<T> {
        BufferModel {
            items: self.items@,
            capacity: self.capacity as int,
            dirty: (self.dirty_low as int, self.dirty_high as int),
            resized: self.resized,
            cells: self.cells@,
        }
    }

    /// The invariant of the buffer, which every function keeps.
    pub open spec fn wf(&self) -> bool {
        self@.wf()
    }

    /// An empty buffer without a GPU allocation.
    pub fn new() -> (r: Self)
        ensures
            r.wf(),
            r@ == BufferModel::<T>::empty(),
    {
        DynamicBuffer {
            items: Vec::new(),
            capacity: 0,
            dirty_low: 0,
            dirty_high: 0,
            resized: false,
            cells: Ghost(Seq::empty()),
        }
    }

    /// The number of items.
    pub fn len(&self) -> (r: usize)
        ensures
            r == self@.items.len(),
    {
        self.items.len()
    }

    /// The number of items that the GPU allocation has room for.
    pub fn capacity(&self) -> (r: usize)
        ensures
            r == self@.capacity,
    {
        self.capacity
    }

    /// The items, for the backend to read the source of a transfer from.
    pub fn as_slice(&self) -> (r: &[T])
        ensures
            r@ == self@.items,
    {
        self.items.as_slice()
    }

    /// Widens the dirty range to cover `index` and cuts it back to the items.
    fn touch(&mut self, index: usize)
        requires
            old(self).dirty_low <= old(self).dirty_high,
        ensures
            final(self)@ == (BufferModel {
                dirty: clamped(marked(old(self)@.dirty, index as int), old(self)@.items.len() as int),
                ..old(self)@
            }),
    {
        let len = self.items.len();
        let mut low: usize = index;
        let mut high: usize = if index < len { index + 1 } else { len };
        if self.dirty_low < self.dirty_high {
            if self.dirty_low < low {
                low = self.dirty_low;
            }
            if self.dirty_high > high {
                high = self.dirty_high;
            }
        }
        if low >= len {
            self.dirty_low = 0;
            self.dirty_high = 0;
        } else {
            self.dirty_low = low;
            self.dirty_high = if high > len { len } else { high };
        }
    }

    /// Appends `item`. Where the allocation is full, it grows by the growth
    /// policy and the next sync allocates anew.
    pub fn push(&mut self, item: T)
        requires
            old(self).wf(),
        ensures
            final(self).wf(),
            final(self)@ == old(self)@.push(item),
    {
        let index = self.items.len();
        self.items.push(item);
        self.touch(index);
        let need = self.items.len();
        if need > self.capacity {
            let doubled: usize = if self.capacity > usize::MAX / 2 {
                usize::MAX
            } else {
                2 * self.capacity
            };
            self.capacity = if doubled > need { doubled } else { need };
            self.resized = true;
        }
    }

    /// Replaces the item at `index`.
    pub fn update(&mut self, index: usize, item: T)
        requires
            old(self).wf(),
            index < old(self)@.items.len(),
        ensures
            final(self).wf(),
            final(self)@ == old(self)@.update(index as int, item),
    {
        self.items[index] = item;
        self.touch(index);
    }

    /// Removes the item at `index` by moving the last item into its place.
    /// The positions of other items may change: the last item now stands at
    /// `index`.
    pub fn swap_remove(&mut self, index: usize)
        requires
            old(self).wf(),
            index < old(self)@.items.len(),
        ensures
            final(self).wf(),
            final(self)@ == old(self)@.swap_remove(index as int),
    {
        self.items.swap_remove(index);
        self.touch(index);
    }

    /// Removes all items. The GPU allocation is kept.
    pub fn clear(&mut self)
        requires
            old(self).wf(),
        ensures
            final(self).wf(),
            final(self)@ == old(self)@.clear(),
    {
        self.items.clear();
        self.dirty_low = 0;
        self.dirty_high = 0;
    }

    /// Hands out the pending transfer and takes it as performed: afterwards
    /// the cells show the items and nothing is pending.
    pub fn sync(&mut self) -> (r: Upload)
        requires
            old(self).wf(),
        ensures
            final(self).wf(),
            r == old(self)@.pending(),
            final(self)@ == old(self)@.sync(),
            final(self)@.in_step(),
            final(self)@.pending() == Upload::Nothing,
    {
        let upload = if self.resized {
            Upload::Full { capacity: self.capacity }
        } else if self.dirty_low < self.dirty_high {
            Upload::Range { low: self.dirty_low, high: self.dirty_high }
        } else {
            Upload::Nothing
        };
        proof {
            self.cells@ = uploaded(self.cells@, self.items@, upload);
        }
        self.resized = false;
        self.dirty_low = 0;
        self.dirty_high = 0;
        upload
    }
}

impl<T: Copy> DynamicBuffer<T> {
    /// Appends a copy of each item of `items`, without touching the dirty
    /// range or the capacity.
    fn append(&mut self, items: &Vec<T>)
        ensures
            final(self).items@ == old(self).items@ + items@,
            final(self).capacity == old(self).capacity,
            final(self).dirty_low == old(self).dirty_low,
            final(self).dirty_high == old(self).dirty_high,
            final(self).resized == old(self).resized,
            final(self).cells == old(self).cells,
    {
        let n = items.len();
        let mut i: usize = 0;
        while i < n
            invariant
                i <= n,
                n == items@.len(),
                self.items@ == old(self).items@ + items@.take(i as int),
                self.capacity == old(self).capacity,
                self.dirty_low == old(self).dirty_low,
                self.dirty_high == old(self).dirty_high,
                self.resized == old(self).resized,
                self.cells == old(self).cells,
            decreases n - i,
        {
            self.items.push(items[i]);
            i += 1;
            assert(items@.take(i as int) == items@.take(i - 1).push(items@[i - 1]));
        }
        assert(items@.take(n as int) == items@);
    }

    /// Marks all items dirty and makes the allocation fit them exactly where
    /// it was too small.
    fn replaced(&mut self)
        ensures
            final(self)@ == (BufferModel {
                dirty: (0, old(self)@.items.len() as int),
                ..old(self)@
            }).fitted(old(self)@.items.len() as int, old(self)@.items.len() as int),
    {
        let n = self.items.len();
        self.dirty_low = 0;
        self.dirty_high = n;
        if n > self.capacity {
            self.capacity = n;
            self.resized = true;
        }
    }

    /// Replaces the items by a copy of `items`. Where they exceed the
    /// allocation, it is made anew at their number.
    pub fn set(&mut self, items: &Vec<T>)
        requires
            old(self).wf(),
        ensures
            final(self).wf(),
            final(self)@ == old(self)@.set(items@),
    {
        self.items.clear();
        self.append(items);
        self.replaced();
    }

    /// Replaces the items by a copy of the rows of `rows`, one row after
    /// another.
    pub fn set_flattened(&mut self, rows: &Vec<Vec<T>>)
        requires
            old(self).wf(),
        ensures
            final(self).wf(),
            final(self)@ == old(self)@.set(flattened(rows@)),
    {
        self.items.clear();
        let n = rows.len();
        let mut r: usize = 0;
        while r < n
            invariant
                r <= n,
                n == rows@.len(),
                self.items@ == flattened(rows@.take(r as int)),
                self.capacity == old(self).capacity,
                self.dirty_low == old(self).dirty_low,
                self.dirty_high == old(self).dirty_high,
                self.resized == old(self).resized,
                self.cells == old(self).cells,
            decreases n - r,
        {
            self.append(&rows[r]);
            r += 1;
            assert(rows@.take(r as int).drop_last() == rows@.take(r - 1));
        }
        assert(rows@.take(n as int) == rows@);
        self.replaced();
    }
}

} // verus!
