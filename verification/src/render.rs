use vstd::prelude::*;

use crate::decoder::{argb_pixels, pack_argb};
use crate::error::MemeBlinkError;
use crate::models::OverlayAnchor;
use crate::texture::TextureFrame;

verus! {

/// A surface the overlay draws on.
pub trait OverlayCanvas {
    /// Clears the surface.
    fn clear(&mut self) -> Result<(), MemeBlinkError>;

    /// Draws a texture at the anchor.
    fn draw_texture(&mut self, texture: &TextureFrame, anchor: OverlayAnchor) -> Result<
        (),
        MemeBlinkError,
    >;

    /// Shows what was drawn.
    fn present(&mut self) -> Result<(), MemeBlinkError>;
}

/// A surface that draws nothing and always succeeds.
pub struct MockCanvas;

impl OverlayCanvas for MockCanvas {
    fn clear(&mut self) -> (r: Result<(), MemeBlinkError>)
        ensures
            r is Ok,
    {
        Ok(())
    }

    fn draw_texture(&mut self, _texture: &TextureFrame, _anchor: OverlayAnchor) -> (r: Result<
        (),
        MemeBlinkError,
    >)
        ensures
            r is Ok,
    {
        Ok(())
    }

    fn present(&mut self) -> (r: Result<(), MemeBlinkError>)
        ensures
            r is Ok,
    {
        Ok(())
    }
}

/// The byte of a packed pixel at `shift` bits up.
pub open spec fn byte_at(p: u32, shift: int) -> u8 {
    ((p as int / pow2_of(shift)) % 256) as u8
}

/// Two to the power `shift`, for the byte positions of a pixel.
pub open spec fn pow2_of(shift: int) -> int {
    if shift == 24 {
        0x100_0000
    } else if shift == 16 {
        0x1_0000
    } else if shift == 8 {
        0x100
    } else {
        1
    }
}

/// The RGBA bytes of `0xAARRGGBB` pixels, four per pixel in the order
/// red, green, blue, alpha: what the GPU texture takes.
pub open spec fn rgba_bytes(pixels: Seq<u32>) -> Seq<u8> {
    Seq::new(
        4 * pixels.len(),
        |k: int|
            {
                let p = pixels[k / 4];
                let c = k % 4;
                if c == 0 {
                    byte_at(p, 16)
                } else if c == 1 {
                    byte_at(p, 8)
                } else if c == 2 {
                    byte_at(p, 0)
                } else {
                    byte_at(p, 24)
                }
            },
    )
}

/// Unpacks `0xAARRGGBB` pixels into RGBA bytes for the GPU.
pub fn argb_to_rgba(pixels: &Vec<u32>) -> (bytes: Vec<u8>)
    ensures
        bytes@ == rgba_bytes(pixels@),
{
    let mut bytes: Vec<u8> = Vec::new();
    for i in 0..pixels.len()
        invariant
            bytes@.len() == 4 * i,
            forall|k: int| 0 <= k < 4 * i ==> bytes@[k] == rgba_bytes(pixels@)[k],
    {
        let p = pixels[i];
        let a = ((p >> 24) & 0xFF) as u8;
        let r = ((p >> 16) & 0xFF) as u8;
        let g = ((p >> 8) & 0xFF) as u8;
        let b = (p & 0xFF) as u8;
        proof {
            assert(((p >> 24) & 0xFF) == (p / 0x100_0000) % 256) by (bit_vector);
            assert(((p >> 16) & 0xFF) == (p / 0x1_0000) % 256) by (bit_vector);
            assert(((p >> 8) & 0xFF) == (p / 0x100) % 256) by (bit_vector);
            assert((p & 0xFF) == p % 256) by (bit_vector);
        }
        bytes.push(r);
        bytes.push(g);
        bytes.push(b);
        bytes.push(a);
        proof {
            assert forall|k: int| 4 * i <= k < 4 * i + 4 implies bytes@[k] == rgba_bytes(pixels@)[k] by {
                assert(k / 4 == i);
            }
        }
    }
    proof {
        assert(bytes@ =~= rgba_bytes(pixels@));
    }
    bytes
}

/// What the renderer unpacks is what the decoder packed: RGBA bytes packed
/// into pixels and unpacked again come back unchanged, when they make up
/// whole pixels.
pub proof fn lemma_pixel_roundtrip(raw: Seq<u8>)
    requires
        raw.len() % 4 == 0,
    ensures
        rgba_bytes(argb_pixels(raw)) == raw,
{
    let px = argb_pixels(raw);
    assert forall|k: int| 0 <= k < raw.len() implies #[trigger] rgba_bytes(px)[k] == raw[k] by {
        let i = k / 4;
        let c = k % 4;
        assert(0 <= i < px.len());
        assert(4 * i + c == k);
        let r = raw[4 * i];
        let g = raw[4 * i + 1];
        let b = raw[4 * i + 2];
        let a = raw[4 * i + 3];
        let v = a * 0x100_0000 + r * 0x1_0000 + g * 0x100 + b;
        assert(px[i] == pack_argb(r, g, b, a));
        assert(0 <= v < 0x1_0000_0000) by (nonlinear_arith)
            requires
                v == a * 0x100_0000 + r * 0x1_0000 + g * 0x100 + b,
                0 <= a < 256,
                0 <= r < 256,
                0 <= g < 256,
                0 <= b < 256,
        ;
        assert(px[i] as int == v);
        assert((v / 0x100_0000) % 256 == a && (v / 0x1_0000) % 256 == r && (v / 0x100) % 256 == g
            && v % 256 == b) by (nonlinear_arith)
            requires
                v == a * 0x100_0000 + r * 0x1_0000 + g * 0x100 + b,
                0 <= a < 256,
                0 <= r < 256,
                0 <= g < 256,
                0 <= b < 256,
        ;
    }
    assert(rgba_bytes(px).len() == raw.len());
    assert(rgba_bytes(px) =~= raw);
}

/// Whether the GPU texture has to be made anew for a frame: there is none
/// yet, or it has another size.
pub fn needs_new_texture(has_texture: bool, current: (u32, u32), frame: (u32, u32)) -> (r: bool)
    ensures
        r == (!has_texture || current != frame),
{
    !has_texture || current.0 != frame.0 || current.1 != frame.1
}

/// The size the surface has to be set to before drawing into a window of
/// the given size: none when the window has no area or the surface already
/// has its size, the window's size otherwise.
pub fn surface_resize(config: (u32, u32), window: (u32, u32)) -> (r: Option<(u32, u32)>)
    ensures
        window.0 == 0 || window.1 == 0 || config == window ==> r is None,
        !(window.0 == 0 || window.1 == 0 || config == window) ==> r == Some(window),
{
    if window.0 == 0 || window.1 == 0 {
        None
    } else if config.0 != window.0 || config.1 != window.1 {
        Some(window)
    } else {
        None
    }
}

/// The size the surface is first set up with: the window's, at least one
/// pixel each way.
pub fn initial_surface_size(window: (u32, u32)) -> (r: (u32, u32))
    ensures
        r.0 == (if window.0 >= 1 { window.0 } else { 1 }),
        r.1 == (if window.1 >= 1 { window.1 } else { 1 }),
{
    (if window.0 >= 1 { window.0 } else { 1 }, if window.1 >= 1 { window.1 } else { 1 })
}

/// How the surface blends with what is behind it.
#[derive(Clone, Copy, Debug, PartialEq, Eq, Structural)]
pub enum AlphaMode {
    PreMultiplied,
    PostMultiplied,
    Inherit,
}

/// The blending mode to ask for: premultiplied alpha when the surface
/// offers it, else postmultiplied alpha when offered, else what the
/// compositor does.
pub fn choose_alpha_mode(offers_premultiplied: bool, offers_postmultiplied: bool) -> (r: AlphaMode)
    ensures
        offers_premultiplied ==> r == AlphaMode::PreMultiplied,
        !offers_premultiplied && offers_postmultiplied ==> r == AlphaMode::PostMultiplied,
        !offers_premultiplied && !offers_postmultiplied ==> r == AlphaMode::Inherit,
{
    if offers_premultiplied {
        AlphaMode::PreMultiplied
    } else if offers_postmultiplied {
        AlphaMode::PostMultiplied
    } else {
        AlphaMode::Inherit
    }
}

} // verus!
