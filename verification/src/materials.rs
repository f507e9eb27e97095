//! The material textures: RGBA images shared read-only by all render
//! workers, the per-hit texel lookup, and the procedural checkerboard
//! placeholder.
//!
//! A texture holds a buffer of the `image` crate; the names and wrappers
//! below are the only places the library relies on it.

use vstd::prelude::*;

verus! {

use crate::kinds::BlockKind;
use crate::shading::{spec_texture_slot, texture_slot, TexSlot};

/// An RGBA texture, backed by the `image` crate's pixel buffer. Verus
/// sees the buffer only through `spec_texels` and `spec_image_dims` and
/// the wrappers below.
#[verifier::external_body]
pub struct Texture {
    img: image::RgbaImage,
}

/// The texels of a texture: the four channel bytes (red, green, blue,
/// alpha) under each in-range `(x, y)`.
pub uninterp spec fn spec_texels(t: Texture) -> Map<(nat, nat), (u8, u8, u8, u8)>;

/// Width and height of a texture, in pixels.
pub uninterp spec fn spec_image_dims(t: Texture) -> (nat, nat);

/// Relies on `ImageBuffer::from_raw`: wraps `width * height * 4` bytes of
/// row-major RGBA data, top row first; `None` exactly when the buffer
/// holds fewer bytes than that or the byte count overflows `usize`.
#[verifier::external_body]
pub fn texture_from_bytes(w: u32, h: u32, data: Vec<u8>) -> (t: Option<Texture>)
    ensures
        t is Some <==> ((w as nat) * (h as nat) * 4 <= usize::MAX && (w as nat) * (h as nat) * 4
            <= data@.len()),
        t matches Some(tex) ==> spec_image_dims(tex) == (w as nat, h as nat),
        t matches Some(tex) ==> forall|x: nat, y: nat|
            x < w && y < h ==> #[trigger] spec_texels(tex)[(x, y)] == (
                data@[4 * (y * w + x)],
                data@[4 * (y * w + x) + 1],
                data@[4 * (y * w + x) + 2],
                data@[4 * (y * w + x) + 3],
            ),
{
    image::RgbaImage::from_raw(w, h, data).map(|img| Texture { img })
}

/// Relies on `ImageBuffer::width`: the texture's stored width.
#[verifier::external_body]
fn img_width(t: &Texture) -> (w: u32)
    ensures
        w as nat == spec_image_dims(*t).0,
{
    t.img.width()
}

/// Relies on `ImageBuffer::height`: the texture's stored height.
#[verifier::external_body]
fn img_height(t: &Texture) -> (h: u32)
    ensures
        h as nat == spec_image_dims(*t).1,
{
    t.img.height()
}

/// Relies on `ImageBuffer::get_pixel`: the four bytes of the texel at
/// `(x, y)`; the call panics outside the image, so bounds are required.
#[verifier::external_body]
fn img_get_pixel(t: &Texture, x: u32, y: u32) -> (p: (u8, u8, u8, u8))
    requires
        (x as nat) < spec_image_dims(*t).0,
        (y as nat) < spec_image_dims(*t).1,
    ensures
        p == spec_texels(*t)[(x as nat, y as nat)],
{
    let q = t.img.get_pixel(x, y);
    (q.0[0], q.0[1], q.0[2], q.0[3])
}

/// Relies on `ImageBuffer::new`: a buffer of the given size with every
/// channel byte zero; the call panics when the byte count overflows
/// `usize`, so a bound is required.
#[verifier::external_body]
fn img_new(w: u32, h: u32) -> (t: Texture)
    requires
        (w as nat) * (h as nat) * 4 <= usize::MAX,
    ensures
        spec_image_dims(t) == (w as nat, h as nat),
        forall|x: nat, y: nat|
            x < w && y < h ==> #[trigger] spec_texels(t)[(x, y)] == (0u8, 0u8, 0u8, 0u8),
{
    Texture { img: image::RgbaImage::new(w, h) }
}

/// Relies on `ImageBuffer::put_pixel`: writes the texel at `(x, y)` and
/// keeps every other texel and the dimensions; the call panics outside
/// the image, so bounds are required.
#[verifier::external_body]
fn img_put_pixel(t: &mut Texture, x: u32, y: u32, rgba: (u8, u8, u8, u8))
    requires
        (x as nat) < spec_image_dims(*old(t)).0,
        (y as nat) < spec_image_dims(*old(t)).1,
    ensures
        spec_image_dims(*final(t)) == spec_image_dims(*old(t)),
        spec_texels(*final(t)) == spec_texels(*old(t)).insert((x as nat, y as nat), rgba),
{
    t.img.put_pixel(x, y, image::Rgba([rgba.0, rgba.1, rgba.2, rgba.3]))
}

/// One RGBA texture per material slot, loaded once and shared read-only
/// by every render worker.
pub struct Materials {
    pub grass_top: Texture,
    pub grass_side: Texture,
    pub dirt: Texture,
    pub stone: Texture,
    pub log_side: Texture,
    pub log_top: Texture,
    pub leaves: Texture,
    pub water: Texture,
}

impl Materials {
    /// The texture a slot names.
    pub open spec fn spec_slot_image(self, slot: TexSlot) -> Texture {
        match slot {
            TexSlot::GrassTop => self.grass_top,
            TexSlot::GrassSide => self.grass_side,
            TexSlot::Dirt => self.dirt,
            TexSlot::Stone => self.stone,
            TexSlot::LogTop => self.log_top,
            TexSlot::LogSide => self.log_side,
            TexSlot::Leaves => self.leaves,
            TexSlot::Water => self.water,
        }
    }

    /// The texture a slot names.
    fn image_for(&self, slot: TexSlot) -> (t: &Texture)
        ensures
            *t == self.spec_slot_image(slot),
    {
        match slot {
            TexSlot::GrassTop => &self.grass_top,
            TexSlot::GrassSide => &self.grass_side,
            TexSlot::Dirt => &self.dirt,
            TexSlot::Stone => &self.stone,
            TexSlot::LogTop => &self.log_top,
            TexSlot::LogSide => &self.log_side,
            TexSlot::Leaves => &self.leaves,
            TexSlot::Water => &self.water,
        }
    }

    /// Width and height of the texture a slot names.
    pub fn slot_dims(&self, slot: TexSlot) -> (wh: (u32, u32))
        ensures
            (wh.0 as nat, wh.1 as nat) == spec_image_dims(self.spec_slot_image(slot)),
    {
        let t = self.image_for(slot);
        (img_width(t), img_height(t))
    }

    /// The texel a hit on `face` of a `kind` block samples at texel
    /// coordinates `(x, y)`: the bytes of the slot texture selected by
    /// kind and face, or `None` when `(x, y)` lies outside that texture.
    pub fn sample_texel(&self, kind: BlockKind, face: u8, x: u32, y: u32) -> (r: Option<
        (u8, u8, u8, u8),
    >)
        ensures
            ({
                let img = self.spec_slot_image(spec_texture_slot(kind, face));
                &&& r is Some <==> ((x as nat) < spec_image_dims(img).0 && (y as nat)
                    < spec_image_dims(img).1)
                &&& r matches Some(p) ==> p == spec_texels(img)[(x as nat, y as nat)]
            }),
    {
        let slot = texture_slot(kind, face);
        let t = self.image_for(slot);
        let w = img_width(t);
        let h = img_height(t);
        if x < w && y < h {
            Some(img_get_pixel(t, x, y))
        } else {
            None
        }
    }
}

/// The color of a checkerboard pixel: squares of `cell` pixels, light
/// (`210`) where the cell parities differ, dark (`40`) otherwise, always
/// fully opaque.
pub open spec fn spec_checker_color(x: u32, y: u32, cell: u32) -> (u8, u8, u8, u8) {
    if (((x / cell) as u32) ^ ((y / cell) as u32)) & 1u32 == 1u32 {
        (210u8, 210u8, 210u8, 255u8)
    } else {
        (40u8, 40u8, 40u8, 255u8)
    }
}

/// The procedural placeholder texture used when a texture file is
/// missing: a `size` by `size` checkerboard with squares of `cell`
/// pixels.
pub fn make_checkerboard(size: u32, cell: u32) -> (t: Texture)
    requires
        cell >= 1,
        (size as nat) * (size as nat) * 4 <= usize::MAX,
    ensures
        spec_image_dims(t) == (size as nat, size as nat),
        forall|x: u32, y: u32|
            x < size && y < size ==> #[trigger] spec_texels(t)[(x as nat, y as nat)]
                == spec_checker_color(x, y, cell),
{
    let mut t = img_new(size, size);
    let mut y: u32 = 0;
    while y < size
        invariant
            y <= size,
            cell >= 1,
            spec_image_dims(t) == (size as nat, size as nat),
            forall|xx: u32, yy: u32|
                xx < size && yy < y ==> #[trigger] spec_texels(t)[(xx as nat, yy as nat)]
                    == spec_checker_color(xx, yy, cell),
        decreases size - y,
    {
        let mut x: u32 = 0;
        while x < size
            invariant
                x <= size,
                y < size,
                cell >= 1,
                spec_image_dims(t) == (size as nat, size as nat),
                forall|xx: u32, yy: u32|
                    xx < size && yy < y ==> #[trigger] spec_texels(t)[(xx as nat, yy as nat)]
                        == spec_checker_color(xx, yy, cell),
                forall|xx: u32|
                    xx < x ==> #[trigger] spec_texels(t)[(xx as nat, y as nat)]
                        == spec_checker_color(xx, y, cell),
            decreases size - x,
        {
            let on = ((x / cell) ^ (y / cell)) & 1;
            let c: u8 = if on == 1 {
                210
            } else {
                40
            };
            img_put_pixel(&mut t, x, y, (c, c, c, 255));
            x = x + 1;
        }
        y = y + 1;
    }
    t
}

} // verus!
