use storm::image::{Image, PixelError};
use storm::texture::{Texture, TextureBind, TextureError, TextureSection, TextureTable, TextureWrite};

const PNG_2X2: [u8; 78] = [
    137, 80, 78, 71, 13, 10, 26, 10, 0, 0, 0, 13, 73, 72, 68, 82, 0, 0, 0, 2, 0, 0, 0, 2, 8, 6, 0,
    0, 0, 114, 182, 13, 36, 0, 0, 0, 21, 73, 68, 65, 84, 120, 218, 99, 248, 207, 192, 240, 31, 12,
    129, 244, 127, 46, 17, 57, 13, 0, 64, 154, 6, 95, 160, 155, 194, 99, 0, 0, 0, 0, 73, 69, 78,
    68, 174, 66, 96, 130,
];

const PNG_1X1_RGB: [u8; 69] = [
    137, 80, 78, 71, 13, 10, 26, 10, 0, 0, 0, 13, 73, 72, 68, 82, 0, 0, 0, 1, 0, 0, 0, 1, 8, 2, 0,
    0, 0, 144, 119, 83, 222, 0, 0, 0, 12, 73, 68, 65, 84, 120, 218, 99, 96, 231, 224, 4, 0, 0, 50,
    0, 25, 177, 25, 206, 170, 0, 0, 0, 0, 73, 69, 78, 68, 174, 66, 96, 130,
];

fn blank(width: u32, height: u32) -> Image {
    Image::from_rgba8(width, height, vec![0; (4 * width * height) as usize]).unwrap()
}

#[test]
fn image_from_rgba8_checks_the_size() {
    let image = Image::from_rgba8(2, 1, vec![1, 2, 3, 4, 5, 6, 7, 8]).unwrap();
    assert_eq!(image.width(), 2);
    assert_eq!(image.height(), 1);
    assert_eq!(image.as_slice(), &[1, 2, 3, 4, 5, 6, 7, 8]);
    assert_eq!(Image::from_rgba8(2, 1, vec![1, 2, 3, 4]).err(), Some(PixelError::Size));
    assert_eq!(Image::from_rgba8(1, 1, vec![0; 5]).err(), Some(PixelError::Size));
    assert!(Image::from_rgba8(0, 7, vec![]).is_ok());
}

#[test]
fn image_from_png_decodes_rgba() {
    let image = Image::from_png(&PNG_2X2).unwrap();
    assert_eq!(image.width(), 2);
    assert_eq!(image.height(), 2);
    assert_eq!(
        image.as_slice(),
        &[255, 0, 0, 255, 0, 255, 0, 255, 0, 0, 255, 255, 10, 20, 30, 40]
    );
}

#[test]
fn image_from_png_converts_rgb_to_rgba() {
    let image = Image::from_png(&PNG_1X1_RGB).unwrap();
    assert_eq!((image.width(), image.height()), (1, 1));
    assert_eq!(image.as_slice(), &[7, 8, 9, 255]);
}

#[test]
fn image_from_png_rejects_other_bytes() {
    assert_eq!(Image::from_png(&[1, 2, 3]).err(), Some(PixelError::Decode));
    assert_eq!(Image::from_png(&PNG_2X2[..40]).err(), Some(PixelError::Decode));
    assert_eq!(Image::from_png(&[]).err(), Some(PixelError::Decode));
}

#[test]
fn texture_from_image_counts_one_share() {
    let mut table = TextureTable::new(16);
    assert_eq!(table.limit(), 16);
    let a = Texture::from_image(&mut table, &blank(4, 3)).unwrap();
    let b = Texture::from_image(&mut table, &blank(16, 16)).unwrap();
    assert_eq!((a.id(), a.width(), a.height()), (0, 4, 3));
    assert_eq!((b.id(), b.width(), b.height()), (1, 16, 16));
    assert_eq!(table.shares(0), 1);
    assert_eq!(table.shares(1), 1);
    assert_eq!(table.shares(2), 0);
}

#[test]
fn texture_beyond_the_limit_is_refused() {
    let mut table = TextureTable::new(16);
    assert_eq!(Texture::from_image(&mut table, &blank(17, 1)).err(), Some(TextureError::TooLarge));
    assert_eq!(Texture::from_image(&mut table, &blank(1, 17)).err(), Some(TextureError::TooLarge));
    assert_eq!(table.shares(0), 0);
    let t = Texture::from_image(&mut table, &blank(1, 1)).unwrap();
    assert_eq!(t.id(), 0);
}

#[test]
fn texture_from_png_decodes_and_creates() {
    let mut table = TextureTable::new(8);
    let t = Texture::from_png(&mut table, &PNG_2X2).unwrap();
    assert_eq!((t.id(), t.width(), t.height()), (0, 2, 2));
    assert_eq!(table.shares(0), 1);
    assert_eq!(
        Texture::from_png(&mut table, &[0, 1, 2]).err(),
        Some(TextureError::Image(PixelError::Decode))
    );
    let mut small = TextureTable::new(1);
    assert_eq!(Texture::from_png(&mut small, &PNG_2X2).err(), Some(TextureError::TooLarge));
    assert_eq!(small.shares(0), 0);
}

#[test]
fn texture_is_deleted_by_its_last_release_only() {
    let mut table = TextureTable::new(16);
    let a = Texture::from_image(&mut table, &blank(2, 2)).unwrap();
    let b = a.share(&mut table).unwrap();
    let c = b.share(&mut table).unwrap();
    assert_eq!((c.id(), c.width(), c.height()), (0, 2, 2));
    assert_eq!(table.shares(0), 3);
    assert!(!a.release(&mut table));
    assert!(!c.release(&mut table));
    assert_eq!(table.shares(0), 1);
    let d = b.share(&mut table).unwrap();
    assert!(!b.release(&mut table));
    assert!(d.release(&mut table));
    assert_eq!(table.shares(0), 0);
}

#[test]
fn deleted_texture_stays_deleted() {
    let mut table = TextureTable::new(16);
    let a = Texture::from_image(&mut table, &blank(2, 2)).unwrap();
    let b = a.share(&mut table).unwrap();
    assert!(!a.release(&mut table));
    let other = Texture::from_image(&mut table, &blank(1, 1)).unwrap();
    let other2 = other.share(&mut table).unwrap();
    assert!(b.release(&mut table));
    assert!(!other2.release(&mut table));
    assert_eq!(table.shares(0), 0);
    assert_eq!(table.shares(1), 1);
    let next = Texture::from_image(&mut table, &blank(1, 1)).unwrap();
    assert_eq!(next.id(), 2);
    assert_eq!(table.shares(0), 0);
}

#[test]
fn texture_set_describes_the_write() {
    let mut table = TextureTable::new(16);
    let t = Texture::from_image(&mut table, &blank(8, 4)).unwrap();
    let patch = blank(3, 2);
    assert_eq!(
        t.set(5, 2, &patch),
        TextureWrite { id: 0, x: 5, y: 2, width: 3, height: 2 }
    );
    assert_eq!(
        t.try_set(5, 2, &patch),
        Some(TextureWrite { id: 0, x: 5, y: 2, width: 3, height: 2 })
    );
    assert_eq!(t.try_set(6, 2, &patch), None);
    assert_eq!(t.try_set(5, 3, &patch), None);
    assert_eq!(t.try_set(u32::MAX, 0, &patch), None);
}

#[test]
fn texture_bind_and_subsection() {
    let mut table = TextureTable::new(16);
    let _first = Texture::from_image(&mut table, &blank(1, 1)).unwrap();
    let t = Texture::from_image(&mut table, &blank(8, 4)).unwrap();
    assert_eq!(t.bind(3), TextureBind { unit: 3, id: 1 });
    assert_eq!(
        t.subsection(1, 7, 0, 4),
        TextureSection { left: 1, right: 7, top: 0, bottom: 4 }
    );
}
