use robo_avatar::avatar::{generate, generate_canvas, Atlas, AtlasError};
use robo_avatar::blend::{blend_pixel, round_ratio, ONE};
use robo_avatar::compositor::{composite_sprite, render_avatar};
use robo_avatar::fingerprint::{get_buckets, selectors_of};
use robo_avatar::layers::{layer_origin, sprite_origins, z_order, Layer};
use robo_avatar::raster::Raster;
use robo_avatar::routing::{route, RequestMethod, Route};

/// The blend as single-precision arithmetic computes it.
fn float_blend(src: [u8; 4], dst: [u8; 4]) -> [u8; 4] {
    if src[3] == 0 {
        return dst;
    }
    let alpha = src[3] as f32 / 255.0;
    let inv_alpha = 1.0 - alpha;
    let r = (src[0] as f32 * alpha + dst[0] as f32 * inv_alpha) as u8;
    let g = (src[1] as f32 * alpha + dst[1] as f32 * inv_alpha) as u8;
    let b = (src[2] as f32 * alpha + dst[2] as f32 * inv_alpha) as u8;
    let a = ((src[3] as f32 + dst[3] as f32 * inv_alpha).min(255.0)) as u8;
    [r, g, b, a]
}

fn blank_atlas_raster() -> Raster {
    Raster::from_pixels(3000, 15000, vec![[0u8; 4]; 3000 * 15000]).unwrap()
}

fn fill_sprite(sheet: &mut Raster, ox: u32, oy: u32, p: [u8; 4]) {
    for y in 0..300 {
        for x in 0..300 {
            sheet.put_pixel(ox + x, oy + y, p);
        }
    }
}

#[test]
fn buckets_of_known_digest() {
    let mut h = [0u8; 16];
    h[2] = 0xFF;
    h[3] = 0xFF;
    h[4] = 0x01;
    h[5] = 0x00;
    h[6] = 0x12;
    h[7] = 0x34;
    let b = get_buckets(&h);
    assert_eq!(b[0], 0);
    assert_eq!(b[1], 5);
    assert_eq!(b[2], 6);
    assert_eq!(b[3], 0);
    assert_eq!(&b[4..], &[0, 0, 0, 0]);
}

#[test]
fn buckets_are_big_endian() {
    let h = [0x00, 0x0B, 0x0B, 0x00, 0, 0, 0, 0, 0, 0, 0, 0, 0, 0, 0, 0];
    let b = get_buckets(&h);
    assert_eq!(b[0], 1);
    assert_eq!(b[1], (0x0B00u32 % 10) as u8);
}

#[test]
fn selectors_of_hello() {
    assert_eq!(selectors_of("hello"), [3, 6, 3, 0, 3, 7, 9, 8]);
}

#[test]
fn selectors_of_empty_string() {
    assert_eq!(selectors_of(""), [1, 7, 8, 2, 6, 6, 4, 2]);
}

#[test]
fn selectors_stay_in_range() {
    for i in 0..500 {
        let s = format!("user-{}-\u{e9}\u{1F916}", i);
        for v in selectors_of(&s) {
            assert!(v <= 9);
        }
    }
}

#[test]
fn selectors_differ_across_inputs() {
    let first = selectors_of("s0");
    let mut differing = 0;
    for i in 1..1000 {
        if selectors_of(&format!("s{}", i)) != first {
            differing += 1;
        }
    }
    assert!(differing > 0);
}

#[test]
fn origins_of_hello() {
    let sel = selectors_of("hello");
    let o = sprite_origins(&sel);
    assert_eq!(o, vec![(900, 11400), (1800, 11700), (0, 13500), (900, 13800), (900, 12600)]);
}

#[test]
fn origins_at_largest_selectors() {
    let sel = [9u8; 8];
    assert_eq!(layer_origin(Layer::Body, &sel), (2700, 14400));
    assert_eq!(layer_origin(Layer::Head, &sel), (2700, 14700));
    assert_eq!(layer_origin(Layer::Mouth, &sel), (2700, 13500));
    assert_eq!(layer_origin(Layer::Eyes, &sel), (2700, 13800));
    assert_eq!(layer_origin(Layer::Accessory, &sel), (2700, 14100));
}

#[test]
fn drawing_order_is_fixed() {
    assert_eq!(
        z_order(),
        [Layer::Body, Layer::Head, Layer::Mouth, Layer::Eyes, Layer::Accessory]
    );
}

#[test]
fn round_ratio_exact_and_rounded() {
    assert_eq!(round_ratio(255 * ONE, 255), ONE);
    assert_eq!(round_ratio(0, 1), 0);
    assert_eq!(round_ratio(ONE, 255), ((1.0f32 / 255.0) as f64 * ONE as f64) as u64);
    assert_eq!(round_ratio(0x100_0001 << 8, 1), 0x100_0000 << 8);
    assert_eq!(round_ratio(0x100_0003 << 8, 1), 0x100_0004 << 8);
}

#[test]
fn blend_matches_single_precision() {
    for sa in 1..=255u8 {
        for s in (0..=255u8).step_by(5) {
            for d in (0..=255u8).step_by(7) {
                let src = [s, 255 - s, s / 2, sa];
                let dst = [d, 255 - d, d / 3, d];
                assert_eq!(blend_pixel(src, dst), float_blend(src, dst), "{:?} {:?}", src, dst);
            }
        }
    }
}

#[test]
fn blend_where_exact_arithmetic_differs() {
    let src = [0, 1, 2, 65];
    let dst = [51, 52, 53, 204];
    let r = blend_pixel(src, dst);
    assert_eq!(r, float_blend(src, dst));
    assert_eq!(r, [37, 38, 39, 216]);
}

#[test]
fn transparent_source_keeps_destination() {
    let dst = [10, 200, 30, 77];
    assert_eq!(blend_pixel([255, 0, 255, 0], dst), dst);
    assert_eq!(blend_pixel([0, 0, 0, 0], dst), dst);
}

#[test]
fn opaque_source_replaces_destination() {
    assert_eq!(blend_pixel([1, 2, 3, 255], [200, 100, 50, 255]), [1, 2, 3, 255]);
    assert_eq!(blend_pixel([9, 8, 7, 255], [0, 0, 0, 0]), [9, 8, 7, 255]);
}

#[test]
fn half_alpha_over_transparent() {
    assert_eq!(blend_pixel([200, 100, 50, 128], [0, 0, 0, 0]), float_blend([200, 100, 50, 128], [0, 0, 0, 0]));
}

#[test]
fn raster_new_is_transparent() {
    let r = Raster::new(3, 2);
    assert_eq!(r.width(), 3);
    assert_eq!(r.height(), 2);
    assert_eq!(r.pixels().len(), 6);
    assert_eq!(r.get_pixel(2, 1), [0, 0, 0, 0]);
}

#[test]
fn raster_put_changes_one_pixel() {
    let mut r = Raster::new(4, 4);
    r.put_pixel(1, 2, [1, 2, 3, 4]);
    assert_eq!(r.get_pixel(1, 2), [1, 2, 3, 4]);
    assert_eq!(r.get_pixel(2, 1), [0, 0, 0, 0]);
    assert_eq!(r.pixels()[2 * 4 + 1], [1, 2, 3, 4]);
}

#[test]
fn raster_from_pixels_checks_count() {
    assert!(Raster::from_pixels(2, 2, vec![[0u8; 4]; 3]).is_none());
    assert!(Raster::from_pixels(2, 2, vec![[0u8; 4]; 4]).is_some());
}

#[test]
fn composite_skips_transparent_and_blends() {
    let mut sheet = Raster::new(600, 300);
    sheet.put_pixel(300, 0, [255, 0, 0, 255]);
    sheet.put_pixel(301, 0, [0, 0, 255, 128]);
    let mut out = Raster::new(300, 300);
    out.put_pixel(2, 0, [5, 6, 7, 255]);
    out.put_pixel(1, 0, [0, 255, 0, 255]);
    composite_sprite(&mut out, &sheet, 300, 0);
    assert_eq!(out.get_pixel(0, 0), [255, 0, 0, 255]);
    assert_eq!(out.get_pixel(1, 0), float_blend([0, 0, 255, 128], [0, 255, 0, 255]));
    assert_eq!(out.get_pixel(2, 0), [5, 6, 7, 255]);
    assert_eq!(out.get_pixel(299, 299), [0, 0, 0, 0]);
}

#[test]
fn accessory_drawn_over_head() {
    let sel = selectors_of("hello");
    let mut sheet = blank_atlas_raster();
    let head = layer_origin(Layer::Head, &sel);
    let acc = layer_origin(Layer::Accessory, &sel);
    fill_sprite(&mut sheet, head.0, head.1, [255, 0, 0, 255]);
    sheet.put_pixel(acc.0 + 10, acc.1 + 20, [0, 255, 0, 255]);
    sheet.put_pixel(acc.0 + 11, acc.1 + 20, [0, 0, 255, 100]);
    let canvas = render_avatar(&sheet, &sel);
    assert_eq!(canvas.get_pixel(10, 20), [0, 255, 0, 255]);
    assert_eq!(canvas.get_pixel(11, 20), float_blend([0, 0, 255, 100], [255, 0, 0, 255]));
    assert_eq!(canvas.get_pixel(12, 20), [255, 0, 0, 255]);
}

#[test]
fn atlas_too_small() {
    let r = Raster::new(3000, 10);
    assert_eq!(
        Atlas::from_raster(r).err(),
        Some(AtlasError::TooSmall { width: 3000, height: 10 })
    );
}

#[test]
fn atlas_rejects_garbage() {
    assert_eq!(Atlas::decode(&[1, 2, 3, 4]).err(), Some(AtlasError::Decode));
}

#[test]
fn generate_hello_end_to_end() {
    let sel = selectors_of("hello");
    let mut sheet = blank_atlas_raster();
    let colours = [[200, 0, 0, 255], [0, 200, 0, 255], [0, 0, 200, 255], [50, 50, 50, 128], [9, 9, 9, 255]];
    let order = z_order();
    for k in 0..5 {
        let o = layer_origin(order[k], &sel);
        sheet.put_pixel(o.0 + k as u32, o.1, colours[k]);
        sheet.put_pixel(o.0 + 100, o.1 + 100, colours[k]);
    }
    let atlas = Atlas::from_raster(sheet).unwrap();
    let canvas = generate_canvas("hello", &atlas);
    assert_eq!(canvas.get_pixel(0, 0), [200, 0, 0, 255]);
    assert_eq!(canvas.get_pixel(3, 0), float_blend([50, 50, 50, 128], [0, 0, 0, 0]));
    assert_eq!(canvas.get_pixel(4, 0), [9, 9, 9, 255]);
    assert_eq!(canvas.get_pixel(100, 100), [9, 9, 9, 255]);
    assert_eq!(canvas.get_pixel(5, 0), [0, 0, 0, 0]);

    let png = generate("hello", &atlas).unwrap();
    assert_eq!(&png[..8], &[0x89, b'P', b'N', b'G', 0x0D, 0x0A, 0x1A, 0x0A]);
    let decoded = image::load_from_memory(&png).unwrap().into_rgba8();
    assert_eq!(decoded.width(), 300);
    assert_eq!(decoded.height(), 300);
    let px: Vec<[u8; 4]> = decoded.pixels().map(|p| p.0).collect();
    assert_eq!(&px, canvas.pixels());

    let again = generate("hello", &atlas).unwrap();
    assert_eq!(png, again);

    let decoded_atlas = Atlas::decode(&png);
    assert_eq!(decoded_atlas.err(), Some(AtlasError::TooSmall { width: 300, height: 300 }));
}

#[test]
fn routes() {
    assert_eq!(route(RequestMethod::Other, b"/robo/x"), Route::MethodNotAllowed);
    assert_eq!(route(RequestMethod::Get, b"/"), Route::Landing);
    assert_eq!(route(RequestMethod::Head, b"/robo/"), Route::MissingInput);
    assert_eq!(route(RequestMethod::Options, b"/robo/hello"), Route::Robo { start: 6 });
    assert_eq!(route(RequestMethod::Get, b"/hello"), Route::Identicon);
    assert_eq!(route(RequestMethod::Get, b"/robo"), Route::Identicon);
    assert_eq!(route(RequestMethod::Get, b""), Route::Identicon);
}

#[test]
fn generate_empty_string_succeeds() {
    let sel = selectors_of("");
    assert_eq!(
        sprite_origins(&sel),
        vec![(300, 9900), (2100, 10200), (600, 6000), (2400, 6300), (1800, 3600)]
    );
    let mut sheet = blank_atlas_raster();
    sheet.put_pixel(300 + 7, 9900 + 8, [1, 2, 3, 255]);
    let atlas = Atlas::from_raster(sheet).unwrap();
    let png = generate("", &atlas).unwrap();
    let decoded = image::load_from_memory(&png).unwrap().into_rgba8();
    assert_eq!(decoded.get_pixel(7, 8).0, [1, 2, 3, 255]);
    assert_eq!(decoded.get_pixel(8, 8).0, [0, 0, 0, 0]);
    assert!(generate("another", &atlas).is_ok());
}
