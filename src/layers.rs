//! From the eight selectors to the five sprite origins in the atlas.

use vstd::prelude::*;

verus! {

/// Side of a sprite, and of the canvas, in pixels.
pub const SPRITE_SIZE: u32 = 300;

/// Height of one colour band of the atlas: five variants of 300 pixels.
pub const BAND_HEIGHT: u32 = 1500;

/// The five drawable parts of an avatar.
#[derive(PartialEq, Eq, Structural, Clone, Copy, Debug)]
pub enum Layer {
    Body,
    Head,
    Mouth,
    Eyes,
    Accessory,
}

/// Every selector is in `0..=9`.
pub open spec fn selectors_valid(sel: Seq<u8>) -> bool {
    sel.len() == 8 && forall|i: int| 0 <= i < 8 ==> sel[i] <= 9
}

/// The atlas origin `(x, y)` of a layer's sprite. The selectors are, in order:
/// body, head, eye, mouth and accessory styles, then the body and head colour,
/// the eye and mouth colour, and the accessory colour.
pub open spec fn layer_origin_spec(layer: Layer, sel: Seq<u8>) -> (nat, nat) {
    match layer {
        Layer::Body => (sel[0] as nat * 300, sel[5] as nat * 1500 + 900),
        Layer::Head => (sel[1] as nat * 300, sel[5] as nat * 1500 + 1200),
        Layer::Mouth => (sel[3] as nat * 300, sel[6] as nat * 1500),
        Layer::Eyes => (sel[2] as nat * 300, sel[6] as nat * 1500 + 300),
        Layer::Accessory => (sel[4] as nat * 300, sel[7] as nat * 1500 + 600),
    }
}

/// The layers in the order they are drawn: body, head, mouth, eyes, accessory.
pub open spec fn z_order_spec() -> Seq<Layer> {
    seq![Layer::Body, Layer::Head, Layer::Mouth, Layer::Eyes, Layer::Accessory]
}

/// The sprite origins in drawing order.
pub open spec fn origins_of(sel: Seq<u8>) -> Seq<(nat, nat)> {
    z_order_spec().map_values(|l: Layer| layer_origin_spec(l, sel))
}

/// The layers in the order they are drawn.
pub fn z_order() -> (r: [Layer; 5])
    ensures
        r@ == z_order_spec(),
{
    let r = [Layer::Body, Layer::Head, Layer::Mouth, Layer::Eyes, Layer::Accessory];
    assert(r@ =~= z_order_spec());
    r
}

/// Where a layer's sprite starts in the atlas.
pub fn layer_origin(layer: Layer, sel: &[u8; 8]) -> (r: (u32, u32))
    requires
        selectors_valid(sel@),
    ensures
        (r.0 as nat, r.1 as nat) == layer_origin_spec(layer, sel@),
        r.0 + SPRITE_SIZE <= 3000,
        r.1 + SPRITE_SIZE <= 15000,
{
    match layer {
        Layer::Body => (sel[0] as u32 * 300, sel[5] as u32 * 1500 + 900),
        Layer::Head => (sel[1] as u32 * 300, sel[5] as u32 * 1500 + 1200),
        Layer::Mouth => (sel[3] as u32 * 300, sel[6] as u32 * 1500),
        Layer::Eyes => (sel[2] as u32 * 300, sel[6] as u32 * 1500 + 300),
        Layer::Accessory => (sel[4] as u32 * 300, sel[7] as u32 * 1500 + 600),
    }
}

/// The five sprite origins, in drawing order.
pub fn sprite_origins(sel: &[u8; 8]) -> (r: Vec<(u32, u32)>)
    requires
        selectors_valid(sel@),
    ensures
        r@.len() == 5,
        forall|k: int|
            0 <= k < 5 ==> (#[trigger] r@[k].0 as nat, r@[k].1 as nat) == origins_of(sel@)[k],
        forall|k: int| 0 <= k < 5 ==> #[trigger] r@[k].0 + SPRITE_SIZE <= 3000,
        forall|k: int| 0 <= k < 5 ==> #[trigger] r@[k].1 + SPRITE_SIZE <= 15000,
{
    let order = z_order();
    let mut r: Vec<(u32, u32)> = Vec::new();
    let mut k: usize = 0;
    while k < 5
        invariant
            k <= 5,
            order@ == z_order_spec(),
            selectors_valid(sel@),
            r@.len() == k,
            forall|j: int|
                0 <= j < k ==> (#[trigger] r@[j].0 as nat, r@[j].1 as nat) == origins_of(sel@)[j],
            forall|j: int| 0 <= j < k ==> #[trigger] r@[j].0 + SPRITE_SIZE <= 3000,
            forall|j: int| 0 <= j < k ==> #[trigger] r@[j].1 + SPRITE_SIZE <= 15000,
        decreases 5 - k,
    {
        r.push(layer_origin(order[k], sel));
        k = k + 1;
    }
    r
}

} // verus!
