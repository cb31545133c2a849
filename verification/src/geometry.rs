//! A dynamic buffer of instances, drawn as one instanced quad each.

use crate::buffer::{flattened, BufferModel, DynamicBuffer, Upload};
use vstd::prelude::*;

verus! {

/// How the backend assembles vertices into primitives.
#[derive(Clone, Copy, Debug, PartialEq, Eq, Structural)]
pub enum DrawMode {
    Points,
    Lines,
    LineStrip,
    Triangles,
    TriangleStrip,
    TriangleFan,
}

/// One instanced draw for the backend to issue.
#[derive(Clone, Copy, Debug, PartialEq, Eq, Structural)]
pub struct DrawCall {
    pub mode: DrawMode,
    /// The first vertex of each instance.
    pub first: usize,
    /// The number of vertices of each instance.
    pub count: usize,
    /// The number of instances.
    pub instances: usize,
}

/// The draw that shows `instances` items, each as a quad of four vertices
/// in a triangle strip.
pub open spec fn quads(instances: nat) -> DrawCall {
    DrawCall { mode: DrawMode::TriangleStrip, first: 0, count: 4, instances: instances as usize }
}

/// A dynamic buffer whose items are the instances of one draw call.
pub struct GeometryBuffer<T: Copy> {
    vertex_buffer: DynamicBuffer<T>,
}

impl<T: Copy> GeometryBuffer<T> {
    /// The mathematical state of the underlying buffer.
    pub closed spec fn view(&self) -> BufferModel<T> {
        self.vertex_buffer@
    }

    /// The invariant of the buffer, which every function keeps.
    pub open spec fn wf(&self) -> bool {
        self@.wf()
    }

    /// An empty buffer without a GPU allocation.
    pub fn new() -> (r: GeometryBuffer<T>)
        ensures
            r.wf(),
            r@ == BufferModel::<T>::empty(),
    {
        GeometryBuffer { vertex_buffer: DynamicBuffer::new() }
    }

    /// The number of instances.
    pub fn len(&self) -> (r: usize)
        ensures
            r == self@.items.len(),
    {
        self.vertex_buffer.len()
    }

    /// The instances, for the backend to read the source of a transfer from.
    pub fn as_slice(&self) -> (r: &[T])
        ensures
            r@ == self@.items,
    {
        self.vertex_buffer.as_slice()
    }

    /// Replaces the instances by a copy of the rows of `items`, one row
    /// after another.
    pub fn set_flattened(&mut self, items: &Vec<Vec<T>>)
        requires
            old(self).wf(),
        ensures
            final(self).wf(),
            final(self)@ == old(self)@.set(flattened(items@)),
    {
        self.vertex_buffer.set_flattened(items);
    }

    /// Replaces the instances by a copy of `items`.
    pub fn set(&mut self, items: &Vec<T>)
        requires
            old(self).wf(),
        ensures
            final(self).wf(),
            final(self)@ == old(self)@.set(items@),
    {
        self.vertex_buffer.set(items);
    }

    /// Appends `element`.
    pub fn push(&mut self, element: T)
        requires
            old(self).wf(),
        ensures
            final(self).wf(),
            final(self)@ == old(self)@.push(element),
    {
        self.vertex_buffer.push(element);
    }

    /// Removes the instance at `index` by moving the last one into its
    /// place.
    pub fn swap_remove(&mut self, index: usize)
        requires
            old(self).wf(),
            index < old(self)@.items.len(),
        ensures
            final(self).wf(),
            final(self)@ == old(self)@.swap_remove(index as int),
    {
        self.vertex_buffer.swap_remove(index);
    }

    /// Replaces the instance at `index`.
    pub fn update(&mut self, index: usize, element: T)
        requires
            old(self).wf(),
            index < old(self)@.items.len(),
        ensures
            final(self).wf(),
            final(self)@ == old(self)@.update(index as int, element),
    {
        self.vertex_buffer.update(index, element);
    }

    /// Removes all instances. The GPU allocation is kept.
    pub fn clear(&mut self)
        requires
            old(self).wf(),
        ensures
            final(self).wf(),
            final(self)@ == old(self)@.clear(),
    {
        self.vertex_buffer.clear();
    }

    /// Hands out the pending transfer and takes it as performed.
    pub fn sync(&mut self) -> (r: Upload)
        requires
            old(self).wf(),
        ensures
            final(self).wf(),
            r == old(self)@.pending(),
            final(self)@ == old(self)@.sync(),
            final(self)@.in_step(),
            final(self)@.pending() == Upload::Nothing,
    {
        self.vertex_buffer.sync()
    }

    /// The draw call that shows every instance.
    pub fn draw(&self) -> (r: DrawCall)
        ensures
            r == quads(self@.items.len()),
    {
        DrawCall {
            mode: DrawMode::TriangleStrip,
            first: 0,
            count: 4,
            instances: self.vertex_buffer.len(),
        }
    }
}

} // verus!
