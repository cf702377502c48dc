use vstd::prelude::*;

use image::AnimationDecoder;

use crate::error::MemeBlinkError;
use crate::text::{chars_of, push_char};
use crate::texture::{MediaAsset, TextureFrame};
use crate::time::{nanos_limit, sum_fits, sum_nanos, lemma_sum_prefix, Duration};

verus! {

/// Whether an image is an animated GIF or a still picture.
#[derive(Clone, Copy, Debug, PartialEq, Eq, Structural)]
pub enum ImageKind {
    Gif,
    Still,
}

/// One decoded frame of an animation: how long it stays, and its pixels as
/// RGBA bytes, row by row.
pub struct RawFrame {
    pub delay: Duration,
    pub width: u32,
    pub height: u32,
    pub rgba: Vec<u8>,
}

impl View for RawFrame {
    type V = (Duration, u32, u32, Seq<u8>);

    open spec fn view(&self) -> (Duration, u32, u32, Seq<u8>) {
        (self.delay, self.width, self.height, self.rgba@)
    }
}

/// A decoded still picture: its pixels as RGBA bytes, row by row.
pub struct RawImage {
    pub width: u32,
    pub height: u32,
    pub rgba: Vec<u8>,
}

/// What `image::guess_format` makes of the bytes: whether they start like
/// a GIF or like another known format, or the text of its error.
pub uninterp spec fn guessed_kind(bytes: Seq<u8>) -> Result<ImageKind, Seq<char>>;

/// What the `image` crate's GIF decoder reads from the bytes: each frame's
/// delay, size and RGBA pixels, or the text of the first error.
pub uninterp spec fn gif_frames(bytes: Seq<u8>) -> Result<
    Seq<(Duration, u32, u32, Seq<u8>)>,
    Seq<char>,
>;

/// What `image::load_from_memory_with_format`, given the format that
/// `image::guess_format` finds in the bytes, followed by `to_rgba8` makes
/// of the bytes: the size and RGBA pixels, or the text of the error.
pub uninterp spec fn still_image(bytes: Seq<u8>) -> Result<(u32, u32, Seq<u8>), Seq<char>>;

/// `image::guess_format`: tells from the first bytes whether they hold a
/// GIF or another format it knows. The result is named by `guessed_kind`;
/// nothing more is claimed.
#[verifier::external_body]
fn guess_kind(bytes: &[u8]) -> (r: Result<ImageKind, String>)
    ensures
        match (r, guessed_kind(bytes@)) {
            (Ok(k), Ok(g)) => k == g,
            (Err(e), Err(g)) => e@ == g,
            _ => false,
        },
{
    match image::guess_format(bytes) {
        Ok(image::ImageFormat::Gif) => Ok(ImageKind::Gif),
        Ok(_) => Ok(ImageKind::Still),
        Err(e) => Err(e.to_string()),
    }
}

/// `GifDecoder::new` and `collect_frames` of the `image` crate: decodes
/// every frame of a GIF, with each frame's delay converted to a duration
/// and its buffer to plain RGBA bytes. The result is named by
/// `gif_frames`; nothing more is claimed.
#[verifier::external_body]
fn decode_gif(bytes: &[u8]) -> (r: Result<Vec<RawFrame>, String>)
    ensures
        match (r, gif_frames(bytes@)) {
            (Ok(fs), Ok(g)) => fs@.map_values(|f: RawFrame| f@) == g,
            (Err(e), Err(g)) => e@ == g,
            _ => false,
        },
{
    let decoder = image::codecs::gif::GifDecoder::new(std::io::Cursor::new(bytes.to_vec()));
    let frames = decoder.and_then(|d| d.into_frames().collect_frames()).map_err(|e| e.to_string())?;
    Ok(frames.into_iter().map(|f| {
        let d: std::time::Duration = f.delay().into();
        let buf = f.into_buffer();
        let (width, height) = buf.dimensions();
        let delay = Duration { secs: d.as_secs(), nanos: d.subsec_nanos() };
        RawFrame { delay, width, height, rgba: buf.into_raw() }
    }).collect())
}

/// `image::guess_format`, then `image::load_from_memory_with_format` with
/// the format found, then `DynamicImage::to_rgba8`: decodes a still
/// picture of the format its first bytes show, and converts it to RGBA
/// bytes. Neither call reads the `image` crate's registry of format hooks,
/// so the result depends on the bytes alone; it is named by `still_image`,
/// and nothing more is claimed.
#[verifier::external_body]
fn decode_still(bytes: &[u8]) -> (r: Result<RawImage, String>)
    ensures
        match (r, still_image(bytes@)) {
            (Ok(img), Ok(g)) => (img.width, img.height, img.rgba@) == g,
            (Err(e), Err(g)) => e@ == g,
            _ => false,
        },
{
    let format = image::guess_format(bytes).map_err(|e| e.to_string())?;
    let image = image::load_from_memory_with_format(bytes, format).map_err(|e| e.to_string())?;
    let rgba = image.to_rgba8();
    let (width, height) = rgba.dimensions();
    Ok(RawImage { width, height, rgba: rgba.into_raw() })
}


// ---------------------------------------------------------------------
//  Pixels
// ---------------------------------------------------------------------

/// One pixel packed as `0xAARRGGBB`.
pub open spec fn pack_argb(r: u8, g: u8, b: u8, a: u8) -> u32 {
    (a * 0x100_0000 + r * 0x1_0000 + g * 0x100 + b) as u32
}

/// The pixels that RGBA bytes hold, four bytes each, packed as
/// `0xAARRGGBB`; bytes that do not make up a whole pixel at the end are
/// left out.
pub open spec fn argb_pixels(rgba: Seq<u8>) -> Seq<u32> {
    Seq::new(
        rgba.len() / 4,
        |i: int| pack_argb(rgba[4 * i], rgba[4 * i + 1], rgba[4 * i + 2], rgba[4 * i + 3]),
    )
}

/// Packs RGBA bytes into `0xAARRGGBB` pixels, four bytes at a time.
pub fn rgba_to_argb(raw: &Vec<u8>) -> (pixels: Vec<u32>)
    ensures
        pixels@ == argb_pixels(raw@),
{
    let mut pixels: Vec<u32> = Vec::new();
    let mut j: usize = 0;
    while 4 <= raw.len() - j
        invariant
            j == 4 * pixels@.len(),
            j <= raw@.len(),
            forall|i: int|
                0 <= i < pixels@.len() ==> pixels@[i] == pack_argb(
                    raw@[4 * i],
                    raw@[4 * i + 1],
                    raw@[4 * i + 2],
                    raw@[4 * i + 3],
                ),
        decreases raw@.len() - j,
    {
        let r = raw[j] as u32;
        let g = raw[j + 1] as u32;
        let b = raw[j + 2] as u32;
        let a = raw[j + 3] as u32;
        let argb = (a << 24) | (r << 16) | (g << 8) | b;
        proof {
            assert(argb == a * 0x100_0000 + r * 0x1_0000 + g * 0x100 + b) by (bit_vector)
                requires
                    argb == (a << 24) | (r << 16) | (g << 8) | b,
                    a < 256,
                    r < 256,
                    g < 256,
                    b < 256,
            ;
        }
        pixels.push(argb);
        j = j + 4;
    }
    proof {
        assert(pixels@ =~= argb_pixels(raw@));
    }
    pixels
}

/// A frame of an animation as the overlay draws it, with its delay.
pub open spec fn frame_of_raw(raw: (Duration, u32, u32, Seq<u8>)) -> (Duration, u32, u32, Seq<u32>) {
    (raw.0, raw.1, raw.2, argb_pixels(raw.3))
}

/// The texture that a picture of the given size and RGBA bytes gives.
pub open spec fn texture_of(width: u32, height: u32, rgba: Seq<u8>) -> (u32, u32, Seq<u32>) {
    (width, height, argb_pixels(rgba))
}

/// The size and pixels of a texture.
pub open spec fn texture_view(t: TextureFrame) -> (u32, u32, Seq<u32>) {
    (t.width, t.height, t.pixels@)
}

/// Turns one decoded GIF frame into its delay and its texture.
pub fn process_gif_frame(raw_frame: &RawFrame) -> (r: (Duration, TextureFrame))
    ensures
        r.0 == raw_frame.delay,
        texture_view(r.1) == texture_of(raw_frame.width, raw_frame.height, raw_frame.rgba@),
{
    let pixels = rgba_to_argb(&raw_frame.rgba);
    (raw_frame.delay, TextureFrame { width: raw_frame.width, height: raw_frame.height, pixels })
}

/// Turns a decoded still picture into its texture.
pub fn process_static_image(image: RawImage) -> (r: TextureFrame)
    ensures
        texture_view(r) == texture_of(image.width, image.height, image.rgba@),
{
    let pixels = rgba_to_argb(&image.rgba);
    TextureFrame { width: image.width, height: image.height, pixels }
}


// ---------------------------------------------------------------------
//  Decoding an asset
// ---------------------------------------------------------------------

/// Whether the spans add up to what one span can hold.
pub fn durations_fit(ds: &Vec<Duration>) -> (r: bool)
    ensures
        r == sum_fits(ds@),
{
    let limit: u128 = 18_446_744_073_709_551_616_000_000_000;
    let mut acc: u128 = 0;
    for i in 0..ds.len()
        invariant
            limit == nanos_limit(),
            acc == sum_nanos(ds@.take(i as int)),
            acc < limit,
    {
        proof {
            assert(ds@.take(i + 1).drop_last() =~= ds@.take(i as int));
            crate::time::lemma_sum_nonneg(ds@.take(i as int));
        }
        let n = ds[i].as_nanos();
        proof {
            crate::time::lemma_nanos_bounded(ds@[i as int]);
        }
        acc = acc + n;
        if acc >= limit {
            proof {
                lemma_sum_prefix(ds@, i + 1);
            }
            return false;
        }
    }
    proof {
        assert(ds@.take(ds@.len() as int) =~= ds@);
    }
    true
}

/// What decoding a picture comes to.
pub enum Decoded {
    /// Decoding failed, with this message.
    Failed(Seq<char>),
    /// The delays of the animation add up to more than a span can hold.
    Overflow,
    /// A still picture: its size and pixels.
    Still(u32, u32, Seq<u32>),
    /// An animation: each frame's delay, size and pixels.
    Animation(Seq<(Duration, u32, u32, Seq<u32>)>),
}

/// The prefix of the message for bytes of no known format.
pub open spec fn unknown_format_prefix() -> Seq<char> {
    "Unknown image format: "@
}

/// What decoded GIF frames come to: an animation of them, once there is
/// one and their delays fit.
pub open spec fn animation_decoded(fs: Seq<(Duration, u32, u32, Seq<u8>)>) -> Decoded {
    if fs.len() == 0 {
        Decoded::Failed("Animation contains no frame"@)
    } else if !sum_fits(fs.map_values(|f: (Duration, u32, u32, Seq<u8>)| f.0)) {
        Decoded::Overflow
    } else {
        Decoded::Animation(fs.map_values(|f: (Duration, u32, u32, Seq<u8>)| frame_of_raw(f)))
    }
}

/// What the picture in `bytes` comes to: a GIF becomes an animation of its
/// frames, anything else of a known format a still picture.
pub open spec fn decoded(bytes: Seq<u8>) -> Decoded {
    match guessed_kind(bytes) {
        Err(e) => Decoded::Failed(unknown_format_prefix() + e),
        Ok(ImageKind::Gif) => match gif_frames(bytes) {
            Err(e) => Decoded::Failed(e),
            Ok(fs) => animation_decoded(fs),
        },
        Ok(ImageKind::Still) => match still_image(bytes) {
            Err(e) => Decoded::Failed(e),
            Ok(img) => Decoded::Still(img.0, img.1, argb_pixels(img.2)),
        },
    }
}

/// The frames of an animation, each with its delay, size and pixels.
pub open spec fn animation_frames(frames: Seq<TextureFrame>, delays: Seq<Duration>) -> Seq<(Duration, u32, u32, Seq<u32>)> {
    Seq::new(frames.len(), |i: int| (delays[i], frames[i].width, frames[i].height, frames[i].pixels@))
}

/// The frames of an animated asset, each with its delay, size and pixels,
/// when it has as many delays as frames.
pub open spec fn asset_frames(a: MediaAsset) -> Option<Seq<(Duration, u32, u32, Seq<u32>)>> {
    match a {
        MediaAsset::Animated { frames, delays, .. } => if frames@.len() == delays@.len() {
            Some(animation_frames(frames@, delays@))
        } else {
            None
        },
        MediaAsset::Static(_) => None,
    }
}

/// `r` is what the decoding of a picture that comes to `d` returns:
/// nothing when the delays overflow, an error with the message, or the
/// asset.
pub open spec fn gives(r: Option<Result<MediaAsset, MemeBlinkError>>, d: Decoded) -> bool {
    match d {
        Decoded::Overflow => r is None,
        Decoded::Failed(msg) => r matches Some(Err(MemeBlinkError::DecodeError(m))) && m@ == msg,
        Decoded::Still(w, h, px) => r matches Some(Ok(MediaAsset::Static(f))) && texture_view(f) == (w, h, px),
        Decoded::Animation(fs) => r matches Some(Ok(a)) && a.wf() && a.frame_per_delay() && asset_frames(a) == Some(fs),
    }
}

/// Builds the animation of the decoded GIF frames, in order, each frame
/// shown for its delay. Fails when there is no frame; returns `None` where
/// the delays add up to more than a span can hold.
pub fn animation_from_frames(raw_frames: &Vec<RawFrame>) -> (r: Option<Result<MediaAsset, MemeBlinkError>>)
    ensures
        gives(r, animation_decoded(raw_frames@.map_values(|f: RawFrame| f@))),
{
    let ghost fs = raw_frames@.map_values(|f: RawFrame| f@);
    let mut texture_frames: Vec<TextureFrame> = Vec::new();
    let mut frame_delays: Vec<Duration> = Vec::new();
    for i in 0..raw_frames.len()
        invariant
            fs == raw_frames@.map_values(|f: RawFrame| f@),
            texture_frames@.len() == i,
            frame_delays@.len() == i,
            forall|k: int| 0 <= k < i ==> frame_delays@[k] == fs[k].0,
            forall|k: int| 0 <= k < i ==> #[trigger] texture_view(texture_frames@[k]) == texture_of(fs[k].1, fs[k].2, fs[k].3),
    {
        let (delay, texture) = process_gif_frame(&raw_frames[i]);
        texture_frames.push(texture);
        frame_delays.push(delay);
    }
    let ghost delays_of = fs.map_values(|f: (Duration, u32, u32, Seq<u8>)| f.0);
    proof {
        assert(frame_delays@ =~= delays_of);
    }
    if texture_frames.len() > 0 && !durations_fit(&frame_delays) {
        return None;
    }
    let ghost tf = texture_frames@;
    let r = MediaAsset::new_animated(texture_frames, frame_delays);
    proof {
        if fs.len() > 0 {
            let conv = fs.map_values(|f: (Duration, u32, u32, Seq<u8>)| frame_of_raw(f));
            assert(animation_frames(tf, delays_of) =~= conv) by {
                assert forall|k: int| 0 <= k < tf.len() implies animation_frames(tf, delays_of)[k] == conv[k] by {
                    assert(texture_view(tf[k]) == texture_of(fs[k].1, fs[k].2, fs[k].3));
                }
            }
        }
    }
    Some(r)
}

/// Decodes the picture in `bytes`: a GIF into an animation of its frames,
/// any other known format into a still picture. Returns `None` where the
/// delays of an animation add up to more than a span can hold.
pub fn decode_asset(bytes: &[u8]) -> (r: Option<Result<MediaAsset, MemeBlinkError>>)
    ensures
        gives(r, decoded(bytes@)),
{
    match guess_kind(bytes) {
        Err(e) => {
            let mut msg = String::from_str("Unknown image format: ");
            msg.append(e.as_str());
            Some(Err(MemeBlinkError::DecodeError(msg)))
        },
        Ok(ImageKind::Gif) => match decode_gif(bytes) {
            Err(e) => Some(Err(MemeBlinkError::DecodeError(e))),
            Ok(raw_frames) => animation_from_frames(&raw_frames),
        },
        Ok(ImageKind::Still) => match decode_still(bytes) {
            Err(e) => Some(Err(MemeBlinkError::DecodeError(e))),
            Ok(image) => Some(Ok(MediaAsset::new_static(process_static_image(image)))),
        },
    }
}

} // verus!
