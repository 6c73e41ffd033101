//! The atlas, and an avatar from a string to PNG bytes.

use vstd::prelude::*;
use crate::compositor::{is_canvas, layered, render_avatar};
use crate::fingerprint::{buckets_of, md5_of, selectors_of};
use crate::layers::origins_of;
use crate::raster::{pixel_at, Raster, RasterModel};

verus! {

#[verifier::external_type_specification]
#[verifier::external_body]
pub struct ExImageError(image::ImageError);

/// What decoding the image file held in `bytes` gives: its width, its height
/// and its RGBA pixels row by row, or `None` where it cannot be decoded.
pub uninterp spec fn decoded(bytes: Seq<u8>) -> Option<(nat, nat, Seq<[u8; 4]>)>;

/// The PNG file of an RGBA raster, given its pixels' channels row by row.
pub uninterp spec fn png_of(width: nat, height: nat, pixels: Seq<Seq<u8>>) -> Seq<u8>;

/// Relies on `image::load_from_memory` (format guessed from the bytes) and
/// `DynamicImage::into_rgba8`: the decoded image's size and its RGBA pixels,
/// row by row, `width * height` of them; an error exactly where decoding fails.
#[verifier::external_body]
fn decode_rgba(bytes: &[u8]) -> (r: Result<(u32, u32, Vec<[u8; 4]>), image::ImageError>)
    ensures
        r.is_ok() == decoded(bytes@).is_some(),
        r matches Ok((w, h, px)) ==> px@.len() == w * h && decoded(bytes@) == Some(
            (w as nat, h as nat, px@),
        ),
{
    let img = image::load_from_memory(bytes)?.into_rgba8();
    Ok((img.width(), img.height(), img.pixels().map(|p| p.0).collect()))
}

/// Relies on `image::write_buffer_with_format` with `ImageFormat::Png`: the
/// PNG file of an 8-bit RGBA raster. The encoder asserts that the buffer
/// holds `width * height` pixels; writing one RGBA8 frame into memory fails
/// only on a zero width or height (png's `Writer::init`).
#[verifier::external_body]
fn encode_png(width: u32, height: u32, pixels: &Vec<[u8; 4]>) -> (r: Result<Vec<u8>, image::ImageError>)
    requires
        pixels@.len() == width * height,
    ensures
        width > 0 && height > 0 ==> r.is_ok(),
        r matches Ok(b) ==> b@ == png_of(width as nat, height as nat, pixels@.map_values(|p: [u8; 4]| p@)),
{
    let mut out: Vec<u8> = Vec::new();
    image::write_buffer_with_format(
        &mut std::io::Cursor::new(&mut out),
        pixels.as_flattened(),
        width,
        height,
        image::ExtendedColorType::Rgba8,
        image::ImageFormat::Png,
    )?;
    Ok(out)
}

/// Why an atlas cannot be used.
#[derive(PartialEq, Eq, Structural, Clone, Copy, Debug)]
pub enum AtlasError {
    /// The bytes are not an image file that could be decoded.
    Decode,
    /// The image does not reach every sprite that a selector can pick.
    TooSmall { width: u32, height: u32 },
}

/// Why an avatar could not be produced.
#[derive(PartialEq, Eq, Structural, Clone, Copy, Debug)]
pub enum GenerateError {
    /// The canvas could not be encoded as PNG.
    Encode,
}

/// The least width of an atlas: ten style columns of 300 pixels.
pub const ATLAS_MIN_WIDTH: u32 = 3000;

/// The least height of an atlas: ten colour bands of 1500 pixels.
pub const ATLAS_MIN_HEIGHT: u32 = 15000;

/// A raster large enough to hold every sprite that a selector can pick.
pub open spec fn atlas_fits(m: RasterModel) -> bool {
    &&& m.pixels.len() == m.width * m.height
    &&& m.pixels.len() <= usize::MAX
    &&& 3000 <= m.width <= u32::MAX
    &&& 15000 <= m.height <= u32::MAX
}

/// The sprite atlas: read only once made, shared by every avatar.
pub struct Atlas {
    sheet: Raster,
}

impl View for Atlas {
    type V = RasterModel;

    closed spec fn view(&self) -> RasterModel {
        self.sheet@
    }
}

impl Atlas {
    /// The atlas reaches every sprite that a selector can pick.
    pub open spec fn wf(&self) -> bool {
        atlas_fits(self@)
    }

    /// The raster as an atlas, or `TooSmall` where it is under 3000 pixels
    /// wide or under 15000 high.
    pub fn from_raster(sheet: Raster) -> (r: Result<Atlas, AtlasError>)
        requires
            sheet.wf(),
        ensures
            r.is_ok() <==> sheet@.width >= 3000 && sheet@.height >= 15000,
            r matches Ok(a) ==> a.wf() && a@ == sheet@,
            r matches Err(e) ==> e == (AtlasError::TooSmall {
                width: sheet@.width as u32,
                height: sheet@.height as u32,
            }),
    {
        let width = sheet.width();
        let height = sheet.height();
        if width >= ATLAS_MIN_WIDTH && height >= ATLAS_MIN_HEIGHT {
            Ok(Atlas { sheet })
        } else {
            Err(AtlasError::TooSmall { width, height })
        }
    }

    /// Decodes an image file into an atlas. `Decode` where the bytes cannot
    /// be decoded; `TooSmall`, with the decoded size, where the image is
    /// under 3000 pixels wide or under 15000 high.
    pub fn decode(bytes: &[u8]) -> (r: Result<Atlas, AtlasError>)
        ensures
            match decoded(bytes@) {
                None => r == Err::<Atlas, AtlasError>(AtlasError::Decode),
                Some((w, h, px)) => if w >= 3000 && h >= 15000 {
                    r matches Ok(a) && a.wf() && a@ == (RasterModel {
                        width: w,
                        height: h,
                        pixels: px,
                    })
                } else {
                    r == Err::<Atlas, AtlasError>(
                        AtlasError::TooSmall { width: w as u32, height: h as u32 },
                    )
                },
            },
    {
        match decode_rgba(bytes) {
            Ok((width, height, pixels)) => match Raster::from_pixels(width, height, pixels) {
                Some(sheet) => Atlas::from_raster(sheet),
                None => Err(AtlasError::Decode),
            },
            Err(_) => Err(AtlasError::Decode),
        }
    }

    /// The atlas's raster.
    pub fn sheet(&self) -> (r: &Raster)
        requires
            self.wf(),
        ensures
            r.wf(),
            r@ == self@,
    {
        &self.sheet
    }
}

/// The avatar of a string, pixel by pixel, row by row: the five sprites that
/// its selectors pick, drawn in order onto a transparent canvas.
pub open spec fn avatar_canvas(atlas: RasterModel, input: Seq<char>) -> Seq<Seq<u8>> {
    Seq::new(
        300 * 300,
        |i: int| layered(atlas, origins_of(buckets_of(md5_of(input))), 5, i % 300, i / 300),
    )
}

/// The PNG bytes of the avatar of `input`.
pub open spec fn generated(atlas: RasterModel, input: Seq<char>, bytes: Seq<u8>) -> bool {
    bytes == png_of(300, 300, avatar_canvas(atlas, input))
}

/// The avatar of a string as a 300 by 300 canvas.
pub fn generate_canvas(input: &str, atlas: &Atlas) -> (r: Raster)
    requires
        atlas.wf(),
    ensures
        r.wf(),
        is_canvas(r@),
        r@.pixels.map_values(|p: [u8; 4]| p@) == avatar_canvas(atlas@, input@),
{
    let sel = selectors_of(input);
    let canvas = render_avatar(atlas.sheet(), &sel);
    proof {
        let pix = canvas@.pixels.map_values(|p: [u8; 4]| p@);
        assert forall|i: int| 0 <= i < 300 * 300 implies pix[i] == avatar_canvas(atlas@, input@)[i] by {
            let x = i % 300;
            let y = i / 300;
            vstd::arithmetic::div_mod::lemma_fundamental_div_mod(i, 300);
            assert(pixel_at(canvas@, x, y) == canvas@.pixels[y * 300 + x]@);
        }
        assert(pix =~= avatar_canvas(atlas@, input@));
    }
    canvas
}

/// The call succeeds, with the PNG bytes of the avatar of `input`.
pub open spec fn generate_outcome(
    atlas: RasterModel,
    input: Seq<char>,
    r: Result<Vec<u8>, GenerateError>,
) -> bool {
    r matches Ok(b) && generated(atlas, input, b@)
}

/// The avatar of a string as PNG bytes. Encoding a 300 by 300 canvas does
/// not fail, so every string gives its avatar.
pub fn generate(input: &str, atlas: &Atlas) -> (r: Result<Vec<u8>, GenerateError>)
    requires
        atlas.wf(),
    ensures
        generate_outcome(atlas@, input@, r),
{
    let canvas = generate_canvas(input, atlas);
    match encode_png(canvas.width(), canvas.height(), canvas.pixels()) {
        Ok(bytes) => Ok(bytes),
        Err(_) => Err(GenerateError::Encode),
    }
}

/// Generating twice from the same string and atlas succeeds both times and
/// gives the same bytes.
pub proof fn lemma_generate_deterministic(
    atlas: RasterModel,
    input: Seq<char>,
    first: Result<Vec<u8>, GenerateError>,
    second: Result<Vec<u8>, GenerateError>,
)
    requires
        generate_outcome(atlas, input, first),
        generate_outcome(atlas, input, second),
    ensures
        first is Ok,
        second is Ok,
        first->Ok_0@ == second->Ok_0@,
{
}

} // verus!
