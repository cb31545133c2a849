//! GPU textures and the table that counts who shares them.
//!
//! A texture lives on the GPU until the last of its handles is released. The
//! table lives with the thread that owns the graphics context; it hands out
//! ids, counts the handles of each, and says when the backend has to delete
//! one. The backend keeps the GPU object that belongs to each id.

use crate::image::{loaded, png_rgba8, Image, PixelError};
use vstd::prelude::*;

verus! {

/// Why no texture could be made.
#[derive(Clone, Copy, Debug, PartialEq, Eq, Structural)]
pub enum TextureError {
    /// The image is wider or higher than the device allows.
    TooLarge,
    /// No image could be made of the bytes.
    Image(PixelError),
}

/// The mathematical state of a texture table.
pub struct TableModel {
    /// The largest width and height that the device takes.
    pub limit: u32,
    /// For each id handed out so far, the number of handles that share it.
    pub shares: Seq<nat>,
}

/// One use of a texture table.
pub enum TableOp {
    Create,
    Share { id: int },
    Release { id: int },
}

impl TableModel {
    /// Whether `id` has handles left.
    pub open spec fn live(self, id: int) -> bool {
        0 <= id < self.shares.len() && self.shares[id] > 0
    }

    /// Whether `id` was handed out and has lost its last handle.
    pub open spec fn deleted(self, id: int) -> bool {
        0 <= id < self.shares.len() && self.shares[id] == 0
    }

    /// Whether releasing a handle of `id` is the release that deletes the
    /// GPU texture.
    pub open spec fn deletes(self, id: int) -> bool {
        0 <= id < self.shares.len() && self.shares[id] == 1
    }

    /// The table after a texture with one handle was created; its id is the
    /// number of ids handed out before.
    pub open spec fn created(self) -> Self {
        TableModel { shares: self.shares.push(1), ..self }
    }

    /// The table after one more handle of `id` was made; a dead id stays
    /// dead.
    pub open spec fn shared(self, id: int) -> Self {
        if self.live(id) {
            TableModel { shares: self.shares.update(id, self.shares[id] + 1), ..self }
        } else {
            self
        }
    }

    /// The table after a handle of `id` was released.
    pub open spec fn released(self, id: int) -> Self {
        if self.live(id) {
            TableModel { shares: self.shares.update(id, (self.shares[id] - 1) as nat), ..self }
        } else {
            self
        }
    }

    /// What creating a texture of `width` by `height` texels gives: its id
    /// and the table after it, or the reason why there is none.
    pub open spec fn creation(self, width: u32, height: u32) -> Result<(usize, TableModel), TextureError> {
        if width > self.limit || height > self.limit {
            Err(TextureError::TooLarge)
        } else {
            Ok((self.shares.len() as usize, self.created()))
        }
    }

    /// The table after `op`.
    pub open spec fn step(self, op: TableOp) -> Self {
        match op {
            TableOp::Create => self.created(),
            TableOp::Share { id } => self.shared(id),
            TableOp::Release { id } => self.released(id),
        }
    }

    /// How often the GPU texture `id` is deleted while `ops` are performed,
    /// first to last.
    pub open spec fn deletions(self, ops: Seq<TableOp>, id: int) -> nat
        decreases ops.len(),
    {
        if ops.len() == 0 {
            0
        } else {
            let now: nat = if ops.first() == (TableOp::Release { id }) && self.deletes(id) {
                1
            } else {
                0
            };
            now + self.step(ops.first()).deletions(ops.drop_first(), id)
        }
    }

    /// A texture that has lost its last handle is never deleted again.
    pub proof fn lemma_deleted_for_good(self, ops: Seq<TableOp>, id: int)
        requires
            self.deleted(id),
        ensures
            self.deletions(ops, id) == 0,
        decreases ops.len(),
    {
        if ops.len() > 0 {
            self.step(ops.first()).lemma_deleted_for_good(ops.drop_first(), id);
        }
    }

    /// Whatever is done with a table, each GPU texture is deleted at most
    /// once, and only by the release that takes its count from one to zero.
    pub proof fn law_deleted_once(self, ops: Seq<TableOp>, id: int)
        ensures
            self.deletions(ops, id) <= 1,
        decreases ops.len(),
    {
        if ops.len() > 0 {
            let next = self.step(ops.first());
            if ops.first() == (TableOp::Release { id }) && self.deletes(id) {
                next.lemma_deleted_for_good(ops.drop_first(), id);
            } else {
                next.law_deleted_once(ops.drop_first(), id);
            }
        }
    }
}

/// Counts the handles of each texture.
pub struct TextureTable {
    limit: u32,
    shares: Vec<usize>,
}

impl TextureTable {
    /// The mathematical state of the table.
    pub closed spec fn view(&self) -> TableModel {
        TableModel { limit: self.limit, shares: self.shares@.map_values(|n: usize| n as nat) }
    }

    /// A table without textures for a device that takes widths and heights
    /// up to `limit`.
    pub fn new(limit: u32) -> (r: TextureTable)
        ensures
            r@ == (TableModel { limit, shares: Seq::empty() }),
    {
        let r = TextureTable { limit, shares: Vec::new() };
        assert(r@.shares =~= Seq::empty());
        r
    }

    /// The largest width and height that the device takes.
    pub fn limit(&self) -> (r: u32)
        ensures
            r == self@.limit,
    {
        self.limit
    }

    /// The number of handles that share `id`; zero where there is no such
    /// texture.
    pub fn shares(&self, id: usize) -> (r: usize)
        ensures
            r == (if self@.live(id as int) { self@.shares[id as int] } else { 0 }),
    {
        if id < self.shares.len() {
            self.shares[id]
        } else {
            0
        }
    }
}

/// A rectangle of texels of a texture. `(0, 0)` is the top left corner of the
/// texture, its width and height the bottom right.
#[derive(Clone, Copy, Debug, PartialEq, Eq, Structural)]
pub struct TextureSection {
    pub left: u32,
    pub right: u32,
    pub top: u32,
    pub bottom: u32,
}

/// The texels of a texture that the backend has to overwrite with an image.
#[derive(Clone, Copy, Debug, PartialEq, Eq, Structural)]
pub struct TextureWrite {
    pub id: usize,
    pub x: u32,
    pub y: u32,
    pub width: u32,
    pub height: u32,
}

/// The texture unit that the backend has to bind a texture to.
#[derive(Clone, Copy, Debug, PartialEq, Eq, Structural)]
pub struct TextureBind {
    pub unit: u32,
    pub id: usize,
}

/// A handle of a GPU texture.
pub struct Texture {
    id: usize,
    width: u32,
    height: u32,
}

impl Texture {
    /// The id under which the table and the backend know the texture.
    pub closed spec fn ident(&self) -> usize {
        self.id
    }

    /// The width and the height in texels.
    pub closed spec fn extent(&self) -> (u32, u32) {
        (self.width, self.height)
    }

    /// Decodes a PNG file and creates a texture for it.
    pub fn from_png(table: &mut TextureTable, bytes: &[u8]) -> (r: Result<Texture, TextureError>)
        ensures
            match loaded(png_rgba8(bytes@)) {
                Err(e) => r == Err::<Texture, TextureError>(TextureError::Image(e)) && final(table)@ == old(
                    table,
                )@,
                Ok((width, height, _)) => match old(table)@.creation(width, height) {
                    Err(e) => r == Err::<Texture, TextureError>(e) && final(table)@ == old(table)@,
                    Ok((id, after)) => r matches Ok(t) && t.ident() == id && t.extent() == (
                        width,
                        height,
                    ) && final(table)@ == after,
                },
            },
    {
        match Image::from_png(bytes) {
            Ok(image) => Texture::from_image(table, &image),
            Err(e) => Err(TextureError::Image(e)),
        }
    }

    /// Creates a texture for `image`, with this one handle. The backend
    /// allocates the GPU texture of the id and writes the image to it. An
    /// image beyond the device's limit gives no texture.
    pub fn from_image(table: &mut TextureTable, image: &Image) -> (r: Result<Texture, TextureError>)
        ensures
            match old(table)@.creation(image@.0, image@.1) {
                Err(e) => r == Err::<Texture, TextureError>(e) && final(table)@ == old(table)@,
                Ok((id, after)) => r matches Ok(t) && t.ident() == id && t.extent() == (
                    image@.0,
                    image@.1,
                ) && final(table)@ == after,
            },
    {
        let width = image.width();
        let height = image.height();
        if width > table.limit || height > table.limit {
            return Err(TextureError::TooLarge);
        }
        let id = table.shares.len();
        table.shares.push(1);
        assert(final(table)@.shares =~= old(table)@.shares.push(1));
        Ok(Texture { id, width, height })
    }

    /// The width of the texture.
    pub fn width(&self) -> (r: u32)
        ensures
            r == self.extent().0,
    {
        self.width
    }

    /// The height of the texture.
    pub fn height(&self) -> (r: u32)
        ensures
            r == self.extent().1,
    {
        self.height
    }

    /// The id under which the table and the backend know the texture.
    pub fn id(&self) -> (r: usize)
        ensures
            r == self.ident(),
    {
        self.id
    }

    /// The rectangle of texels between the given edges.
    pub fn subsection(&self, left: u32, right: u32, top: u32, bottom: u32) -> (r: TextureSection)
        ensures
            r == (TextureSection { left, right, top, bottom }),
    {
        TextureSection { left, right, top, bottom }
    }

    /// The write that puts `image` into the texture with its top left texel
    /// at `(offset_x, offset_y)`. The image has to lie within the texture.
    pub fn set(&self, offset_x: u32, offset_y: u32, image: &Image) -> (r: TextureWrite)
        requires
            image@.0 + offset_x <= self.extent().0,
            image@.1 + offset_y <= self.extent().1,
        ensures
            r == (TextureWrite {
                id: self.ident(),
                x: offset_x,
                y: offset_y,
                width: image@.0,
                height: image@.1,
            }),
    {
        TextureWrite {
            id: self.id,
            x: offset_x,
            y: offset_y,
            width: image.width(),
            height: image.height(),
        }
    }

    /// As [`Texture::set`], but `None` where the image does not lie within
    /// the texture.
    pub fn try_set(&self, offset_x: u32, offset_y: u32, image: &Image) -> (r: Option<TextureWrite>)
        ensures
            r == (if image@.0 + offset_x <= self.extent().0 && image@.1 + offset_y
                <= self.extent().1 {
                Some(
                    TextureWrite {
                        id: self.ident(),
                        x: offset_x,
                        y: offset_y,
                        width: image@.0,
                        height: image@.1,
                    },
                )
            } else {
                None
            }),
    {
        if image.width() as u64 + offset_x as u64 <= self.width as u64 && image.height() as u64
            + offset_y as u64 <= self.height as u64 {
            Some(self.set(offset_x, offset_y, image))
        } else {
            None
        }
    }

    /// The binding of the texture to the texture unit `unit`.
    pub fn bind(&self, unit: u32) -> (r: TextureBind)
        ensures
            r == (TextureBind { unit, id: self.ident() }),
    {
        TextureBind { unit, id: self.id }
    }

    /// A second handle of the same texture: no copy on the GPU, one more
    /// share in the table. `None` where the texture is deleted already, or
    /// the count is at the machine's limit.
    pub fn share(&self, table: &mut TextureTable) -> (r: Option<Texture>)
        ensures
            match r {
                Some(t) => {
                    &&& old(table)@.live(self.ident() as int)
                    &&& t.ident() == self.ident()
                    &&& t.extent() == self.extent()
                    &&& final(table)@ == old(table)@.shared(self.ident() as int)
                },
                None => final(table)@ == old(table)@,
            },
            r is Some <==> old(table)@.live(self.ident() as int) && old(table)@.shares[self.ident() as int]
                < usize::MAX,
    {
        let i = self.id;
        if i < table.shares.len() && table.shares[i] > 0 && table.shares[i] < usize::MAX {
            let n = table.shares[i];
            table.shares[i] = n + 1;
            assert(final(table)@.shares =~= old(table)@.shares.update(i as int, (n + 1) as nat));
            Some(Texture { id: self.id, width: self.width, height: self.height })
        } else {
            None
        }
    }

    /// Gives the handle up. The result says whether it was the last one, so
    /// that the backend has to delete the GPU texture now.
    pub fn release(self, table: &mut TextureTable) -> (r: bool)
        ensures
            r == old(table)@.deletes(self.ident() as int),
            final(table)@ == old(table)@.released(self.ident() as int),
    {
        let i = self.id;
        if i < table.shares.len() && table.shares[i] > 0 {
            let n = table.shares[i];
            table.shares[i] = n - 1;
            assert(final(table)@.shares =~= old(table)@.shares.update(i as int, (n - 1) as nat));
            n == 1
        } else {
            assert(final(table)@.shares =~= old(table)@.shares);
            false
        }
    }
}

} // verus!
