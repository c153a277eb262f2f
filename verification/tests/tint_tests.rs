use ccusage_tray::tint::{tint_png, tint_rgba_pixels, TintError};

fn png_of(width: u32, height: u32, pixels: Vec<u8>) -> Vec<u8> {
    let raster = image::RgbaImage::from_raw(width, height, pixels).unwrap();
    let mut out = Vec::new();
    image::DynamicImage::ImageRgba8(raster)
        .write_to(&mut std::io::Cursor::new(&mut out), image::ImageFormat::Png)
        .unwrap();
    out
}

fn pixels_of(png: &[u8]) -> (u32, u32, Vec<u8>) {
    let rgba = image::load_from_memory(png).unwrap().to_rgba8();
    (rgba.width(), rgba.height(), rgba.into_raw())
}

#[test]
fn tinting_recolours_opaque_pixels_and_keeps_alpha() {
    let mut px = vec![10, 20, 30, 255, 40, 50, 60, 0, 70, 80, 90, 1, 1, 2];
    let wide = vec![0, 0, 0, 65535, 0, 0, 0, 0, 0, 0, 0, 257];
    tint_rgba_pixels(&mut px, &wide, 3, 255, 159, 10);
    assert_eq!(px, vec![255, 159, 10, 255, 40, 50, 60, 0, 255, 159, 10, 1, 1, 2]);
}

#[test]
fn tinting_only_touches_the_counted_pixels() {
    let mut px = vec![1, 2, 3, 4, 5, 6, 7, 8];
    let wide = vec![0, 0, 0, 1028, 0, 0, 0, 2056];
    tint_rgba_pixels(&mut px, &wide, 1, 9, 9, 9);
    assert_eq!(px, vec![9, 9, 9, 4, 5, 6, 7, 8]);
}

#[test]
fn tinting_twice_is_tinting_once() {
    let mut once = vec![10, 20, 30, 128, 1, 2, 3, 0];
    let wide = vec![0, 0, 0, 32896, 0, 0, 0, 0];
    tint_rgba_pixels(&mut once, &wide, 2, 255, 59, 48);
    let mut twice = once.clone();
    tint_rgba_pixels(&mut twice, &wide, 2, 255, 59, 48);
    assert_eq!(once, twice);
}

#[test]
fn png_is_tinted_through_the_image_library() {
    let input = png_of(2, 1, vec![0, 0, 0, 200, 9, 8, 7, 0]);
    let output = tint_png(&input, 255, 59, 48).unwrap();
    let (w, h, px) = pixels_of(&output);
    assert_eq!((w, h), (2, 1));
    assert_eq!(px, vec![255, 59, 48, 200, 9, 8, 7, 0]);
}

#[test]
fn unreadable_image_is_refused() {
    assert_eq!(tint_png(&[1, 2, 3, 4], 1, 2, 3), Err(TintError::Undecodable));
    assert_eq!(tint_png(&[], 1, 2, 3), Err(TintError::Undecodable));
}

#[test]
fn faint_pixels_of_a_sixteen_bit_image_are_recoloured() {
    // Alphas 100 and 0 at sixteen bits: the first pixel is not transparent,
    // though its 8-bit alpha rounds to zero.
    let raster: image::ImageBuffer<image::Rgba<u16>, Vec<u16>> =
        image::ImageBuffer::from_raw(2, 1, vec![1000, 2000, 3000, 100, 4000, 5000, 6000, 0])
            .unwrap();
    let mut input = Vec::new();
    image::DynamicImage::ImageRgba16(raster)
        .write_to(&mut std::io::Cursor::new(&mut input), image::ImageFormat::Png)
        .unwrap();
    let (_, _, before) = pixels_of(&input);
    let output = tint_png(&input, 255, 159, 10).unwrap();
    let (w, h, after) = pixels_of(&output);
    assert_eq!((w, h), (2, 1));
    assert_eq!(&after[0..4], &[255, 159, 10, before[3]]);
    assert_eq!(&after[4..8], &before[4..8]);
}

#[test]
fn tinting_with_a_second_colour_overrides_the_first() {
    let px = vec![10, 20, 30, 255, 40, 50, 60, 0];
    let wide = vec![0, 0, 0, 65535, 0, 0, 0, 0];
    let mut twice = px.clone();
    tint_rgba_pixels(&mut twice, &wide, 2, 255, 159, 10);
    tint_rgba_pixels(&mut twice, &wide, 2, 255, 59, 48);
    let mut once = px;
    tint_rgba_pixels(&mut once, &wide, 2, 255, 59, 48);
    assert_eq!(twice, once);
}
