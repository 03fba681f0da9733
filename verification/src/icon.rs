//! The pixels of the tray icon: the embedded PNG decoded to RGBA, or a
//! plain 32x32 square in the accent colour when it cannot be decoded.
use vstd::prelude::*;

verus! {

/// Side of the fallback icon, in pixels.
pub const FALLBACK_ICON_SIZE: u32 = 32;

/// An image as rows of RGBA bytes, four per pixel.
pub struct IconImage {
    pub rgba: Vec<u8>,
    pub width: u32,
    pub height: u32,
}

/// The RGBA image that the `image` crate's built-in PNG decoder makes of
/// `bytes`, if any.
pub uninterp spec fn decoded_rgba8(bytes: Seq<u8>) -> Option<(u32, u32, Seq<u8>)>;

/// The accent colour (65, 175, 255), opaque.
pub open spec fn fallback_pixel() -> Seq<u8> {
    seq![65u8, 175u8, 255u8, 255u8]
}

/// The bytes of the fallback icon: every pixel in the accent colour.
pub open spec fn fallback_rgba() -> Seq<u8> {
    Seq::new(4096, |j: int| fallback_pixel()[j % 4])
}

/// Whether `icon` is the fallback icon.
pub open spec fn is_fallback(icon: IconImage) -> bool {
    icon.width == FALLBACK_ICON_SIZE && icon.height == FALLBACK_ICON_SIZE && icon.rgba@
        == fallback_rgba()
}

/// Calls `image::load_from_memory_with_format` with the PNG format, then
/// `DynamicImage::into_rgba8`, `ImageBuffer::dimensions` and
/// `ImageBuffer::into_raw`. A fixed built-in format bypasses the crate's
/// registered format hooks, so the claim is that the result is the built-in
/// PNG decoding of the bytes (a function of them alone),
/// and that the raw buffer holds four bytes for each of the width times
/// height pixels, as the buffer that the decoder or the conversion allocates
/// does.
#[verifier::external_body]
fn decode_rgba8(bytes: &[u8]) -> (img: Option<(u32, u32, Vec<u8>)>)
    ensures
        img is None <==> decoded_rgba8(bytes@) is None,
        img matches Some((w, h, px)) ==> decoded_rgba8(bytes@) == Some((w, h, px@)) && px@.len()
            == w * h * 4,
{
    match image::load_from_memory_with_format(bytes, image::ImageFormat::Png) {
        Ok(img) => {
            let img = img.into_rgba8();
            let (w, h) = img.dimensions();
            Some((w, h, img.into_raw()))
        },
        Err(_) => None,
    }
}

/// The fallback icon: 32x32 pixels of the accent colour.
pub fn fallback_icon() -> (icon: IconImage)
    ensures
        is_fallback(icon),
        icon.width == 32 && icon.height == 32 && icon.rgba@.len() == 4096,
        forall|i: int|
            0 <= i < 4096 ==> #[trigger] icon.rgba@[i] == (if i % 4 == 0 {
                65u8
            } else if i % 4 == 1 {
                175u8
            } else {
                255u8
            }),
        icon.rgba@.len() == icon.width * icon.height * 4,
{
    let mut rgba: Vec<u8> = Vec::with_capacity(4096);
    let mut i: usize = 0;
    while i < 1024
        invariant
            i <= 1024,
            rgba@.len() == 4 * i,
            forall|j: int| 0 <= j < 4 * i ==> #[trigger] rgba@[j] == fallback_pixel()[j % 4],
        decreases 1024 - i,
    {
        rgba.push(65u8);
        rgba.push(175u8);
        rgba.push(255u8);
        rgba.push(255u8);
        i = i + 1;
    }
    assert(rgba@ =~= fallback_rgba());
    IconImage { rgba, width: FALLBACK_ICON_SIZE, height: FALLBACK_ICON_SIZE }
}

/// The icon from an attempted decoding: the decoded image, or the fallback
/// when there is none.
pub fn icon_from_decoded(decoded: Option<(u32, u32, Vec<u8>)>) -> (icon: IconImage)
    ensures
        match decoded {
            Some((w, h, px)) => icon.width == w && icon.height == h && icon.rgba@ == px@,
            None => is_fallback(icon),
        },
{
    match decoded {
        Some((width, height, rgba)) => IconImage { rgba, width, height },
        None => fallback_icon(),
    }
}

/// The tray icon for the PNG `png`: its decoded pixels, or the fallback
/// icon when it does not decode. The pixel buffer always matches the size.
pub fn load_icon(png: &[u8]) -> (icon: IconImage)
    ensures
        match decoded_rgba8(png@) {
            Some((w, h, px)) => icon.width == w && icon.height == h && icon.rgba@ == px,
            None => is_fallback(icon),
        },
        icon.rgba@.len() == icon.width * icon.height * 4,
{
    let decoded = decode_rgba8(png);
    proof {
        if decoded is None {
            fallback_rgba_len();
        }
    }
    icon_from_decoded(decoded)
}

proof fn fallback_rgba_len()
    ensures
        fallback_rgba().len() == FALLBACK_ICON_SIZE * FALLBACK_ICON_SIZE * 4,
{
}

} // verus!
