//! Drawing sprites of the atlas onto the canvas, and the whole avatar.

use vstd::prelude::*;
use crate::blend::{blend_pixel, lemma_opaque_source_replaces_destination, over};
use crate::layers::{layer_origin_spec, origins_of, Layer, selectors_valid, sprite_origins, SPRITE_SIZE};
use crate::raster::{pixel_at, Raster, RasterModel};

verus! {

/// The canvas pixel `(x, y)` once the sprite at `(sx, sy)` of `sheet` has
/// been drawn over `before`.
pub open spec fn drawn_pixel(
    before: RasterModel,
    sheet: RasterModel,
    sx: int,
    sy: int,
    x: int,
    y: int,
) -> Seq<u8> {
    over(pixel_at(sheet, sx + x, sy + y), pixel_at(before, x, y))
}

/// The canvas pixel `(x, y)` after the first `k` of the sprites at `origins`
/// have been drawn, in order, onto a fully transparent canvas.
pub open spec fn layered(sheet: RasterModel, origins: Seq<(nat, nat)>, k: nat, x: int, y: int) -> Seq<
    u8,
>
    decreases k,
{
    if k == 0 {
        seq![0u8, 0, 0, 0]
    } else {
        let o = origins[k - 1];
        over(
            pixel_at(sheet, o.0 + x, o.1 + y),
            layered(sheet, origins, (k - 1) as nat, x, y),
        )
    }
}

/// A canvas: 300 by 300 pixels.
pub open spec fn is_canvas(m: RasterModel) -> bool {
    m.width == 300 && m.height == 300 && m.pixels.len() == 300 * 300
}

/// Draws the 300 by 300 sprite at `(src_x, src_y)` of the sheet over the
/// canvas, pixel by pixel (see `over`).
pub fn composite_sprite(output: &mut Raster, sprite_sheet: &Raster, src_x: u32, src_y: u32)
    requires
        old(output).wf(),
        is_canvas(old(output)@),
        sprite_sheet.wf(),
        src_x + SPRITE_SIZE <= sprite_sheet@.width,
        src_y + SPRITE_SIZE <= sprite_sheet@.height,
    ensures
        final(output).wf(),
        is_canvas(final(output)@),
        forall|x: int, y: int|
            0 <= x < 300 && 0 <= y < 300 ==> #[trigger] pixel_at(final(output)@, x, y)
                == drawn_pixel(old(output)@, sprite_sheet@, src_x as int, src_y as int, x, y),
{
    let ghost before = output@;
    let mut y: u32 = 0;
    while y < SPRITE_SIZE
        invariant
            y <= 300,
            output.wf(),
            is_canvas(output@),
            sprite_sheet.wf(),
            src_x + SPRITE_SIZE <= sprite_sheet@.width,
            src_y + SPRITE_SIZE <= sprite_sheet@.height,
            forall|x2: int, y2: int|
                0 <= x2 < 300 && 0 <= y2 < y ==> #[trigger] pixel_at(output@, x2, y2)
                    == drawn_pixel(before, sprite_sheet@, src_x as int, src_y as int, x2, y2),
            forall|x2: int, y2: int|
                0 <= x2 < 300 && y <= y2 < 300 ==> #[trigger] pixel_at(output@, x2, y2)
                    == pixel_at(before, x2, y2),
        decreases 300 - y,
    {
        let mut x: u32 = 0;
        while x < SPRITE_SIZE
            invariant
                y < 300,
                x <= 300,
                output.wf(),
                is_canvas(output@),
                sprite_sheet.wf(),
                src_x + SPRITE_SIZE <= sprite_sheet@.width,
                src_y + SPRITE_SIZE <= sprite_sheet@.height,
                forall|x2: int, y2: int|
                    0 <= x2 < 300 && 0 <= y2 < 300 && (y2 < y || (y2 == y && x2 < x))
                        ==> #[trigger] pixel_at(output@, x2, y2) == drawn_pixel(
                        before,
                        sprite_sheet@,
                        src_x as int,
                        src_y as int,
                        x2,
                        y2,
                    ),
                forall|x2: int, y2: int|
                    0 <= x2 < 300 && 0 <= y2 < 300 && (y2 > y || (y2 == y && x2 >= x))
                        ==> #[trigger] pixel_at(output@, x2, y2) == pixel_at(before, x2, y2),
            decreases 300 - x,
        {
            let src_pixel = sprite_sheet.get_pixel(src_x + x, src_y + y);
            let dst_pixel = output.get_pixel(x, y);
            output.put_pixel(x, y, blend_pixel(src_pixel, dst_pixel));
            x = x + 1;
        }
        y = y + 1;
    }
}

/// Draws the five sprites that the selectors pick, in drawing order, onto a
/// fresh, fully transparent canvas. The sheet must reach past every origin
/// that a selector in `0..=9` can give.
pub fn render_avatar(sprite_sheet: &Raster, sel: &[u8; 8]) -> (r: Raster)
    requires
        sprite_sheet.wf(),
        sprite_sheet@.width >= 3000,
        sprite_sheet@.height >= 15000,
        selectors_valid(sel@),
    ensures
        r.wf(),
        is_canvas(r@),
        forall|x: int, y: int|
            0 <= x < 300 && 0 <= y < 300 ==> #[trigger] pixel_at(r@, x, y) == layered(
                sprite_sheet@,
                origins_of(sel@),
                5,
                x,
                y,
            ),
{
    let origins = sprite_origins(sel);
    let mut output = Raster::new(SPRITE_SIZE, SPRITE_SIZE);
    let mut k: usize = 0;
    while k < 5
        invariant
            k <= 5,
            output.wf(),
            is_canvas(output@),
            sprite_sheet.wf(),
            sprite_sheet@.width >= 3000,
            sprite_sheet@.height >= 15000,
            origins@.len() == 5,
            forall|j: int|
                0 <= j < 5 ==> (#[trigger] origins@[j].0 as nat, origins@[j].1 as nat)
                    == origins_of(sel@)[j],
            forall|j: int| 0 <= j < 5 ==> #[trigger] origins@[j].0 + SPRITE_SIZE <= 3000,
            forall|j: int| 0 <= j < 5 ==> #[trigger] origins@[j].1 + SPRITE_SIZE <= 15000,
            forall|x: int, y: int|
                0 <= x < 300 && 0 <= y < 300 ==> #[trigger] pixel_at(output@, x, y) == layered(
                    sprite_sheet@,
                    origins_of(sel@),
                    k as nat,
                    x,
                    y,
                ),
        decreases 5 - k,
    {
        let (sx, sy) = origins[k];
        composite_sprite(&mut output, sprite_sheet, sx, sy);
        k = k + 1;
    }
    output
}

/// The accessory is drawn last. Every pixel of the avatar is the accessory's
/// pixel drawn over what the four layers beneath left there; where the
/// accessory is fully opaque the avatar shows exactly the accessory.
pub proof fn lemma_accessory_on_top(sheet: RasterModel, sel: Seq<u8>, x: int, y: int)
    requires
        selectors_valid(sel),
        0 <= x < 300,
        0 <= y < 300,
    ensures
        ({
            let o = layer_origin_spec(Layer::Accessory, sel);
            let acc = pixel_at(sheet, o.0 + x, o.1 + y);
            &&& layered(sheet, origins_of(sel), 5, x, y) == over(
                acc,
                layered(sheet, origins_of(sel), 4, x, y),
            )
            &&& acc[3] == 255 ==> layered(sheet, origins_of(sel), 5, x, y) == acc
        }),
{
    let o = layer_origin_spec(Layer::Accessory, sel);
    let acc = pixel_at(sheet, o.0 + x, o.1 + y);
    assert(origins_of(sel)[4] == o);
    if acc[3] == 255 {
        lemma_opaque_source_replaces_destination(acc, layered(sheet, origins_of(sel), 4, x, y));
    }
}

} // verus!
